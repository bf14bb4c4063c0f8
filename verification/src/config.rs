//! The capture configuration as it is kept in the store: one row of text
//! for each key.

use vstd::prelude::*;
use vstd::std_specs::iter::IteratorSpec;
use crate::tables::all_written_or_replaced;
use crate::text::{decimal, decimal_string, digit, same_text};
use crate::types::CaptureConfig;

verus! {

/// What a decimal digit counts for, if `c` is one.
pub open spec fn digit_value(c: char) -> Option<nat> {
    if c == '0' {
        Some(0)
    } else if c == '1' {
        Some(1)
    } else if c == '2' {
        Some(2)
    } else if c == '3' {
        Some(3)
    } else if c == '4' {
        Some(4)
    } else if c == '5' {
        Some(5)
    } else if c == '6' {
        Some(6)
    } else if c == '7' {
        Some(7)
    } else if c == '8' {
        Some(8)
    } else if c == '9' {
        Some(9)
    } else {
        None
    }
}

/// Whether every character of `s` is a decimal digit.
pub open spec fn all_digits(s: Seq<char>) -> bool {
    forall|i: int| 0 <= i < s.len() ==> digit_value(#[trigger] s[i]) is Some
}

/// The number that the digits `s` write in decimal.
pub open spec fn digits_value(s: Seq<char>) -> nat
    decreases s.len(),
{
    if s.len() == 0 {
        0
    } else {
        digits_value(s.drop_last()) * 10 + match digit_value(s.last()) {
            Some(d) => d,
            None => 0,
        }
    }
}

/// `s` without a plus sign in front.
pub open spec fn unsigned_part(s: Seq<char>) -> Seq<char> {
    if s.len() > 0 && s[0] == '+' {
        s.skip(1)
    } else {
        s
    }
}

/// The `u32` that `s` writes: one or more decimal digits, a plus sign in
/// front of them or not, that count for no more than the largest `u32`.
pub open spec fn parsed_u32(s: Seq<char>) -> Option<u32> {
    let body = unsigned_part(s);
    if body.len() > 0 && all_digits(body) && digits_value(body) <= u32::MAX {
        Some(digits_value(body) as u32)
    } else {
        None
    }
}

/// Digits that follow digits do not make the number smaller.
pub proof fn lemma_digits_value_grows(s: Seq<char>, k: int)
    requires
        0 <= k <= s.len(),
    ensures
        digits_value(s.take(k)) <= digits_value(s),
    decreases s.len() - k,
{
    if k < s.len() {
        lemma_digits_value_grows(s, k + 1);
        assert(s.take(k + 1).drop_last() =~= s.take(k));
    } else {
        assert(s.take(k) =~= s);
    }
}

/// What a decimal digit counts for, if `c` is one.
fn digit_of(c: char) -> (r: Option<u64>)
    ensures
        match r {
            Some(d) => digit_value(c) == Some(d as nat) && d <= 9,
            None => digit_value(c) is None,
        },
{
    if c == '0' {
        Some(0)
    } else if c == '1' {
        Some(1)
    } else if c == '2' {
        Some(2)
    } else if c == '3' {
        Some(3)
    } else if c == '4' {
        Some(4)
    } else if c == '5' {
        Some(5)
    } else if c == '6' {
        Some(6)
    } else if c == '7' {
        Some(7)
    } else if c == '8' {
        Some(8)
    } else if c == '9' {
        Some(9)
    } else {
        None
    }
}

/// Reads a `u32` written in decimal.
pub fn parse_u32(text: &str) -> (r: Option<u32>)
    ensures
        r == parsed_u32(text@),
{
    broadcast use vstd::string::group_string_axioms;

    let ghost s = text@;
    let ghost body = unsigned_part(s);
    let mut it = text.chars();
    assert(it.remaining() =~= s.skip(0));
    let mut acc: u64 = 0;
    let mut seen: usize = 0;
    // `k` characters of `s` are read, `k - skip` of them digits of the body
    let ghost mut k: int = 0;
    let ghost mut skip: int = 0;
    let mut first = true;
    loop
        invariant
            s == text@,
            body == unsigned_part(s),
            0 <= skip <= k <= s.len(),
            skip == (if k > 0 && s[0] == '+' {
                1int
            } else {
                0int
            }),
            first == (k == 0),
            it.remaining() == s.skip(k),
            it.obeys_prophetic_iter_laws(),
            it.decrease() is Some,
            k > 0 ==> body == s.skip(skip),
            seen > 0 <==> k - skip > 0,
            k > 0 ==> all_digits(body.take(k - skip)),
            k > 0 ==> acc == digits_value(body.take(k - skip)),
            k == 0 ==> acc == 0,
            acc <= u32::MAX,
        decreases s.len() - k,
    {
        match it.next() {
            Some(c) => {
                proof {
                    assert(c == s.skip(k)[0]);
                    assert(it.remaining() =~= s.skip(k + 1));
                }
                if first && c == '+' {
                    first = false;
                    proof {
                        k = k + 1;
                        skip = 1;
                        assert(body.take(0) =~= Seq::<char>::empty());
                    }
                } else {
                    proof {
                        if first {
                            assert(body =~= s.skip(0));
                            assert(body.take(0) =~= Seq::<char>::empty());
                            assert(digits_value(body.take(0)) == 0);
                        }
                    }
                    first = false;
                    let ghost j = k - skip;
                    proof {
                        assert(body == s.skip(skip));
                        assert(body[j] == c);
                        assert(body.take(j + 1).drop_last() =~= body.take(j));
                        assert(body.take(j + 1).last() == c);
                        assert(digits_value(body.take(j)) == acc);
                    }
                    match digit_of(c) {
                        None => {
                            return None;
                        },
                        Some(d) => {
                            let next = acc * 10 + d;
                            if next > 4294967295 {
                                proof {
                                    lemma_digits_value_grows(body, j + 1);
                                }
                                return None;
                            }
                            assert(digits_value(body.take(j + 1)) == next);
                            acc = next;
                            if seen == 0 {
                                seen = 1;
                            }
                            proof {
                                assert forall|i: int| 0 <= i < body.take(j + 1).len() implies digit_value(
                                    #[trigger] body.take(j + 1)[i],
                                ) is Some by {
                                    if i < j {
                                        assert(body.take(j)[i] == body.take(j + 1)[i]);
                                    }
                                }
                                k = k + 1;
                            }
                        },
                    }
                }
            },
            None => {
                proof {
                    assert(s.skip(k).len() == 0);
                    if k == 0 {
                        assert(body.len() == 0);
                    } else {
                        assert(body.take(k - skip) =~= body);
                    }
                }
                if seen == 0 {
                    return None;
                }
                return Some(acc as u32);
            },
        }
    }
}

/// The text of a switch.
pub open spec fn switch_text(b: bool) -> Seq<char> {
    if b {
        "true"@
    } else {
        "false"@
    }
}

/// `c` with the row `(key, value)` read into it. A switch is on exactly if
/// its text is `true`; a number that cannot be read is its default; a key
/// that is not known changes nothing.
pub open spec fn with_row(c: CaptureConfig, key: Seq<char>, value: Seq<char>) -> CaptureConfig {
    if key == "clipboard_enabled"@ {
        CaptureConfig { clipboard_enabled: value == "true"@, ..c }
    } else if key == "browse_enabled"@ {
        CaptureConfig { browse_enabled: value == "true"@, ..c }
    } else if key == "search_enabled"@ {
        CaptureConfig { search_enabled: value == "true"@, ..c }
    } else if key == "ai_exchange_enabled"@ {
        CaptureConfig { ai_exchange_enabled: value == "true"@, ..c }
    } else if key == "source_linking_enabled"@ {
        CaptureConfig { source_linking_enabled: value == "true"@, ..c }
    } else if key == "flush_interval_secs"@ {
        CaptureConfig {
            flush_interval_secs: match parsed_u32(value) {
                Some(n) => n,
                None => 30,
            },
            ..c
        }
    } else if key == "clipboard_poll_ms"@ {
        CaptureConfig {
            clipboard_poll_ms: match parsed_u32(value) {
                Some(n) => n,
                None => 500,
            },
            ..c
        }
    } else {
        c
    }
}

/// The default configuration.
pub open spec fn default_config() -> CaptureConfig {
    CaptureConfig {
        clipboard_enabled: true,
        browse_enabled: true,
        search_enabled: true,
        ai_exchange_enabled: true,
        source_linking_enabled: true,
        flush_interval_secs: 30,
        clipboard_poll_ms: 500,
    }
}

/// The configuration that `rows` hold: the default one with each row read
/// into it in turn.
pub open spec fn config_of(rows: Seq<(String, String)>) -> CaptureConfig
    decreases rows.len(),
{
    if rows.len() == 0 {
        default_config()
    } else {
        with_row(config_of(rows.drop_last()), rows.last().0@, rows.last().1@)
    }
}

/// Whether `rows` are the seven rows that hold `c`, in the order of the
/// keys of the configuration.
pub open spec fn is_rows_of(c: CaptureConfig, rows: Seq<(String, String)>) -> bool {
    &&& rows.len() == 7
    &&& rows[0].0@ == "clipboard_enabled"@ && rows[0].1@ == switch_text(c.clipboard_enabled)
    &&& rows[1].0@ == "browse_enabled"@ && rows[1].1@ == switch_text(c.browse_enabled)
    &&& rows[2].0@ == "search_enabled"@ && rows[2].1@ == switch_text(c.search_enabled)
    &&& rows[3].0@ == "ai_exchange_enabled"@ && rows[3].1@ == switch_text(c.ai_exchange_enabled)
    &&& rows[4].0@ == "source_linking_enabled"@ && rows[4].1@ == switch_text(c.source_linking_enabled)
    &&& rows[5].0@ == "flush_interval_secs"@ && rows[5].1@ == decimal(c.flush_interval_secs as nat)
    &&& rows[6].0@ == "clipboard_poll_ms"@ && rows[6].1@ == decimal(c.clipboard_poll_ms as nat)
}

/// Reads one row into a configuration.
fn read_row(c: CaptureConfig, key: &str, value: &str) -> (r: CaptureConfig)
    ensures
        r == with_row(c, key@, value@),
{
    let mut c = c;
    if same_text(key, "clipboard_enabled") {
        c.clipboard_enabled = same_text(value, "true");
    } else if same_text(key, "browse_enabled") {
        c.browse_enabled = same_text(value, "true");
    } else if same_text(key, "search_enabled") {
        c.search_enabled = same_text(value, "true");
    } else if same_text(key, "ai_exchange_enabled") {
        c.ai_exchange_enabled = same_text(value, "true");
    } else if same_text(key, "source_linking_enabled") {
        c.source_linking_enabled = same_text(value, "true");
    } else if same_text(key, "flush_interval_secs") {
        c.flush_interval_secs = match parse_u32(value) {
            Some(n) => n,
            None => 30,
        };
    } else if same_text(key, "clipboard_poll_ms") {
        c.clipboard_poll_ms = match parse_u32(value) {
            Some(n) => n,
            None => 500,
        };
    }
    c
}

/// The configuration that the rows of the store hold.
pub fn config_from_rows(rows: &[(String, String)]) -> (c: CaptureConfig)
    ensures
        c == config_of(rows@),
{
    let mut c = CaptureConfig::default();
    let n = rows.len();
    let mut i: usize = 0;
    proof {
        assert(rows@.take(0) =~= Seq::<(String, String)>::empty());
    }
    while i < n
        invariant
            i <= n,
            n == rows@.len(),
            c == config_of(rows@.take(i as int)),
        decreases n - i,
    {
        proof {
            assert(rows@.take(i + 1).drop_last() =~= rows@.take(i as int));
        }
        c = read_row(c, rows[i].0.as_str(), rows[i].1.as_str());
        i += 1;
    }
    proof {
        assert(rows@.take(n as int) =~= rows@);
    }
    c
}

/// One row of the configuration.
fn row(key: &str, value: String) -> (r: (String, String))
    ensures
        r.0@ == key@,
        r.1 == value,
{
    (String::from_str(key), value)
}

/// The text of a switch.
fn switch_string(b: bool) -> (r: String)
    ensures
        r@ == switch_text(b),
{
    if b {
        String::from_str("true")
    } else {
        String::from_str("false")
    }
}

/// The rows that hold a configuration.
pub fn config_to_rows(c: &CaptureConfig) -> (rows: Vec<(String, String)>)
    ensures
        is_rows_of(*c, rows@),
{
    let mut rows: Vec<(String, String)> = Vec::new();
    rows.push(row("clipboard_enabled", switch_string(c.clipboard_enabled)));
    rows.push(row("browse_enabled", switch_string(c.browse_enabled)));
    rows.push(row("search_enabled", switch_string(c.search_enabled)));
    rows.push(row("ai_exchange_enabled", switch_string(c.ai_exchange_enabled)));
    rows.push(row("source_linking_enabled", switch_string(c.source_linking_enabled)));
    rows.push(row("flush_interval_secs", decimal_string(c.flush_interval_secs as u64)));
    rows.push(row("clipboard_poll_ms", decimal_string(c.clipboard_poll_ms as u64)));
    rows
}

/// The value of the last of `rows` that has the key `key`, if there is one.
pub open spec fn last_value(rows: Seq<(String, String)>, key: Seq<char>) -> Option<Seq<char>>
    decreases rows.len(),
{
    if rows.len() == 0 {
        None
    } else if rows.last().0@ == key {
        Some(rows.last().1@)
    } else {
        last_value(rows.drop_last(), key)
    }
}

/// What a switch is, given the value of its last row.
pub open spec fn switch_of(value: Option<Seq<char>>) -> bool {
    match value {
        Some(v) => v == "true"@,
        None => true,
    }
}

/// What a number is, given the value of its last row and its default.
pub open spec fn number_of(value: Option<Seq<char>>, default: u32) -> u32 {
    match value {
        Some(v) => match parsed_u32(v) {
            Some(n) => n,
            None => default,
        },
        None => default,
    }
}

/// The seven keys of the configuration differ from one another.
pub proof fn lemma_keys_differ()
    ensures
        "clipboard_enabled"@ != "browse_enabled"@,
        "clipboard_enabled"@ != "search_enabled"@,
        "clipboard_enabled"@ != "ai_exchange_enabled"@,
        "clipboard_enabled"@ != "source_linking_enabled"@,
        "clipboard_enabled"@ != "flush_interval_secs"@,
        "clipboard_enabled"@ != "clipboard_poll_ms"@,
        "browse_enabled"@ != "search_enabled"@,
        "browse_enabled"@ != "ai_exchange_enabled"@,
        "browse_enabled"@ != "source_linking_enabled"@,
        "browse_enabled"@ != "flush_interval_secs"@,
        "browse_enabled"@ != "clipboard_poll_ms"@,
        "search_enabled"@ != "ai_exchange_enabled"@,
        "search_enabled"@ != "source_linking_enabled"@,
        "search_enabled"@ != "flush_interval_secs"@,
        "search_enabled"@ != "clipboard_poll_ms"@,
        "ai_exchange_enabled"@ != "source_linking_enabled"@,
        "ai_exchange_enabled"@ != "flush_interval_secs"@,
        "ai_exchange_enabled"@ != "clipboard_poll_ms"@,
        "source_linking_enabled"@ != "flush_interval_secs"@,
        "source_linking_enabled"@ != "clipboard_poll_ms"@,
        "flush_interval_secs"@ != "clipboard_poll_ms"@,
{
    reveal_strlit("clipboard_enabled");
    reveal_strlit("browse_enabled");
    reveal_strlit("search_enabled");
    reveal_strlit("ai_exchange_enabled");
    reveal_strlit("source_linking_enabled");
    reveal_strlit("flush_interval_secs");
    reveal_strlit("clipboard_poll_ms");
    assert("clipboard_enabled"@.len() == 17);
    assert("browse_enabled"@.len() == 14);
    assert("search_enabled"@.len() == 14);
    assert("ai_exchange_enabled"@.len() == 19);
    assert("source_linking_enabled"@.len() == 22);
    assert("flush_interval_secs"@.len() == 19);
    assert("clipboard_poll_ms"@.len() == 17);
    assert("clipboard_enabled"@[10] == 'e');
    assert("clipboard_poll_ms"@[10] == 'p');
    assert("browse_enabled"@[0] == 'b');
    assert("search_enabled"@[0] == 's');
    assert("ai_exchange_enabled"@[0] == 'a');
    assert("flush_interval_secs"@[0] == 'f');
}

/// The configuration that rows hold goes by the last row of each key.
pub proof fn lemma_config_by_last_rows(rows: Seq<(String, String)>)
    ensures
        config_of(rows) == (CaptureConfig {
            clipboard_enabled: switch_of(last_value(rows, "clipboard_enabled"@)),
            browse_enabled: switch_of(last_value(rows, "browse_enabled"@)),
            search_enabled: switch_of(last_value(rows, "search_enabled"@)),
            ai_exchange_enabled: switch_of(last_value(rows, "ai_exchange_enabled"@)),
            source_linking_enabled: switch_of(last_value(rows, "source_linking_enabled"@)),
            flush_interval_secs: number_of(last_value(rows, "flush_interval_secs"@), 30),
            clipboard_poll_ms: number_of(last_value(rows, "clipboard_poll_ms"@), 500),
        }),
    decreases rows.len(),
{
    lemma_keys_differ();
    if rows.len() > 0 {
        lemma_config_by_last_rows(rows.drop_last());
    }
}

/// The key of a row of the configuration.
pub open spec fn config_key() -> spec_fn((String, String)) -> Seq<char> {
    |p: (String, String)| p.0@
}

/// Rows of other keys that leave do not change the last row of a key.
pub proof fn lemma_last_value_after_filter(
    rows: Seq<(String, String)>,
    stays: spec_fn((String, String)) -> bool,
    gone: Seq<char>,
    key: Seq<char>,
)
    requires
        key != gone,
        forall|r: (String, String)| #[trigger] stays(r) == (r.0@ != gone),
    ensures
        last_value(rows.filter(stays), key) == last_value(rows, key),
    decreases rows.len(),
{
    reveal(Seq::filter);
    if rows.len() > 0 {
        lemma_last_value_after_filter(rows.drop_last(), stays, gone, key);
        if stays(rows.last()) {
            assert(rows.filter(stays).drop_last() =~= rows.drop_last().filter(stays));
        }
    }
}

/// After a batch is written, the last row of a key is the last row of that
/// key in the batch, or, if the batch has none, what it was.
pub proof fn lemma_last_value_after_writing(rows: Seq<(String, String)>, batch: Seq<(String, String)>, key: Seq<char>)
    ensures
        last_value(all_written_or_replaced(rows, batch, config_key()), key) == (match last_value(batch, key) {
            Some(v) => Some(v),
            None => last_value(rows, key),
        }),
    decreases batch.len(),
{
    if batch.len() > 0 {
        let x = batch.last();
        let before = all_written_or_replaced(rows, batch.drop_last(), config_key());
        lemma_last_value_after_writing(rows, batch.drop_last(), key);
        let stays = |y: (String, String)| config_key()(y) != config_key()(x);
        let kept = before.filter(stays);
        assert(all_written_or_replaced(rows, batch, config_key()) == kept.push(x));
        assert(kept.push(x).drop_last() =~= kept);
        assert(kept.push(x).last() == x);
        if key != x.0@ {
            lemma_last_value_after_filter(before, stays, x.0@, key);
        }
    }
}

/// A digit written reads as itself.
pub proof fn lemma_digit_reads_back(d: nat)
    requires
        d < 10,
    ensures
        digit_value(digit(d)) == Some(d),
        digit(d) != '+',
{
}

/// A number written in decimal reads as itself.
pub proof fn lemma_decimal_reads_back(n: nat)
    ensures
        decimal(n).len() > 0,
        all_digits(decimal(n)),
        digits_value(decimal(n)) == n,
        decimal(n)[0] != '+',
    decreases n,
{
    if n >= 10 {
        lemma_decimal_reads_back(n / 10);
        lemma_digit_reads_back(n % 10);
        let head = decimal(n / 10);
        let d = decimal(n);
        assert(d == head.push(digit(n % 10)));
        assert(d.drop_last() =~= head);
        assert(d.last() == digit(n % 10));
        assert(d[0] == head[0]);
        assert forall|i: int| 0 <= i < d.len() implies digit_value(#[trigger] d[i]) is Some by {
            if i < head.len() {
                assert(d[i] == head[i]);
            }
        }
        assert(digits_value(d) == digits_value(head) * 10 + (n % 10));
    } else {
        lemma_digit_reads_back(n);
        let d = decimal(n);
        assert(d == seq![digit(n)]);
        assert(d.drop_last() =~= Seq::<char>::empty());
        assert(d.last() == digit(n));
        assert(digits_value(d.drop_last()) == 0);
    }
}

/// What is saved is what is read back: once the rows of a configuration
/// have been written over whatever rows there were, the rows hold that
/// configuration.
pub proof fn lemma_saved_config_reads_back(
    before: Seq<(String, String)>,
    c: CaptureConfig,
    rows: Seq<(String, String)>,
)
    requires
        is_rows_of(c, rows),
    ensures
        config_of(all_written_or_replaced(before, rows, config_key())) == c,
{
    let after = all_written_or_replaced(before, rows, config_key());
    lemma_keys_differ();
    lemma_config_by_last_rows(after);
    lemma_last_value_after_writing(before, rows, "clipboard_enabled"@);
    lemma_last_value_after_writing(before, rows, "browse_enabled"@);
    lemma_last_value_after_writing(before, rows, "search_enabled"@);
    lemma_last_value_after_writing(before, rows, "ai_exchange_enabled"@);
    lemma_last_value_after_writing(before, rows, "source_linking_enabled"@);
    lemma_last_value_after_writing(before, rows, "flush_interval_secs"@);
    lemma_last_value_after_writing(before, rows, "clipboard_poll_ms"@);
    let r6 = rows;
    let r5 = r6.drop_last();
    let r4 = r5.drop_last();
    let r3 = r4.drop_last();
    let r2 = r3.drop_last();
    let r1 = r2.drop_last();
    let r0 = r1.drop_last();
    assert(r6.last() == rows[6] && r5.last() == rows[5] && r4.last() == rows[4] && r3.last() == rows[3]);
    assert(r2.last() == rows[2] && r1.last() == rows[1] && r0.last() == rows[0]);
    assert(r0.drop_last().len() == 0);
    reveal_with_fuel(last_value, 9);
    assert(last_value(rows, "clipboard_enabled"@) == Some(rows[0].1@));
    assert(last_value(rows, "browse_enabled"@) == Some(rows[1].1@));
    assert(last_value(rows, "search_enabled"@) == Some(rows[2].1@));
    assert(last_value(rows, "ai_exchange_enabled"@) == Some(rows[3].1@));
    assert(last_value(rows, "source_linking_enabled"@) == Some(rows[4].1@));
    assert(last_value(rows, "flush_interval_secs"@) == Some(rows[5].1@));
    assert(last_value(rows, "clipboard_poll_ms"@) == Some(rows[6].1@));
    reveal_strlit("true");
    reveal_strlit("false");
    assert("true"@.len() == 4 && "false"@.len() == 5);
    lemma_decimal_reads_back(c.flush_interval_secs as nat);
    lemma_decimal_reads_back(c.clipboard_poll_ms as nat);
}

} // verus!
