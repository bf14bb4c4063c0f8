//! The request put to a model to have the summary of a work block put
//! into better words. Sending it is the caller's business.

use vstd::prelude::*;
use vstd::std_specs::iter::IteratorSpec;
use crate::text::{join_texts, joined, same_text, signed_decimal, signed_decimal_string, texts_of};
use crate::workstream::WorkBlock;

verus! {

/// Whether `s` begins with `prefix`.
pub open spec fn starts_with(s: Seq<char>, prefix: Seq<char>) -> bool {
    s.len() >= prefix.len() && s.take(prefix.len() as int) == prefix
}

/// `s` without `prefix` in front, if it begins with it.
pub open spec fn without_prefix(s: Seq<char>, prefix: Seq<char>) -> Seq<char> {
    if starts_with(s, prefix) {
        s.skip(prefix.len() as int)
    } else {
        s
    }
}

/// The place of the first slash in `s`, or the length of `s` if it has
/// none.
pub open spec fn first_slash(s: Seq<char>) -> int
    decreases s.len(),
{
    if s.len() == 0 || s[0] == '/' {
        0
    } else {
        1 + first_slash(s.skip(1))
    }
}

/// The domain of a URL: what stands between the protocol and the first
/// slash after it, without a leading `www.`.
pub open spec fn domain_of(url: Seq<char>) -> Seq<char> {
    let rest = if starts_with(url, "https://"@) {
        url.skip("https://"@.len() as int)
    } else {
        without_prefix(url, "http://"@)
    };
    without_prefix(rest.take(first_slash(rest)), "www."@)
}

/// Whole minutes in `secs` seconds; a fraction of a minute is dropped,
/// toward zero.
pub open spec fn whole_minutes(secs: i64) -> int {
    if secs >= 0 {
        secs / 60
    } else {
        -((-secs) / 60)
    }
}

/// The domains of `urls`.
pub open spec fn domains_of(urls: Seq<String>) -> Seq<Seq<char>> {
    Seq::new(urls.len(), |i: int| domain_of(urls[i]@))
}

/// The lines of the request for `block`: its title and generated summary
/// where it has them, its figures, the domains it researched if any, the
/// user's notes where there are some, and the instruction.
pub open spec fn prompt_lines(block: WorkBlock) -> Seq<Seq<char>> {
    let a = match block.context_title {
        Some(t) => seq!["Document/Task: "@ + t@],
        None => Seq::<Seq<char>>::empty(),
    };
    let b = match block.auto_summary {
        Some(s) => a.push("Activity: "@ + s@),
        None => a,
    };
    let c = b.push(
        "Metrics: "@ + signed_decimal(block.edit_count as int) + " edits, "@ + signed_decimal(
            block.browse_count as int,
        ) + " pages browsed, "@ + signed_decimal(whole_minutes(block.duration_secs)) + " minutes"@,
    );
    let d = if block.research_urls@.len() > 0 {
        c.push("Research: "@ + joined(domains_of(block.research_urls@), ", "@))
    } else {
        c
    };
    let e = match block.notes {
        Some(n) => d.push("User notes: "@ + n@),
        None => d,
    };
    e.push("\nProvide a concise 1-sentence summary of what was accomplished."@)
}

/// `s` without `prefix` in front, if it begins with it.
fn strip_prefix<'a>(s: &'a str, prefix: &str) -> (r: (bool, &'a str))
    ensures
        r.0 == starts_with(s@, prefix@),
        r.1@ == without_prefix(s@, prefix@),
{
    let n = s.unicode_len();
    let k = prefix.unicode_len();
    if n >= k && same_text(s.substring_char(0, k), prefix) {
        (true, s.substring_char(k, n))
    } else {
        (false, s)
    }
}

/// The place of the first slash in `s`, counted in characters.
fn find_first_slash(s: &str) -> (r: usize)
    ensures
        r == first_slash(s@),
        r <= s@.len(),
{
    broadcast use vstd::string::group_string_axioms;

    let n = s.unicode_len();
    let mut it = s.chars();
    let mut k: usize = 0;
    assert(it.remaining() =~= s@.skip(0));
    loop
        invariant
            n == s@.len(),
            k <= n,
            it.remaining() == s@.skip(k as int),
            it.obeys_prophetic_iter_laws(),
            it.decrease() is Some,
            first_slash(s@) == k + first_slash(s@.skip(k as int)),
        decreases n - k,
    {
        match it.next() {
            Some(c) => {
                proof {
                    assert(c == s@.skip(k as int)[0]);
                    assert(it.remaining() =~= s@.skip(k + 1));
                    assert(s@.skip(k as int).skip(1) =~= s@.skip(k + 1));
                }
                if c == '/' {
                    return k;
                }
                k += 1;
            },
            None => {
                proof {
                    assert(s@.skip(k as int).len() == 0);
                }
                return k;
            },
        }
    }
}

/// Extracts the domain of a URL.
pub fn extract_domain(url: &str) -> (r: String)
    ensures
        r@ == domain_of(url@),
{
    let (secure, after) = strip_prefix(url, "https://");
    let rest = if secure {
        after
    } else {
        strip_prefix(url, "http://").1
    };
    let cut = find_first_slash(rest);
    let host = rest.substring_char(0, cut);
    let (_, domain) = strip_prefix(host, "www.");
    String::from_str(domain)
}

/// Builds the request for a better summary of `block`: the lines of
/// `prompt_lines`, one to a line.
pub fn build_enhance_prompt(block: &WorkBlock) -> (r: String)
    ensures
        r@ == joined(prompt_lines(*block), "\n"@),
{
    let mut parts: Vec<String> = Vec::new();
    match &block.context_title {
        Some(t) => {
            parts.push(String::from_str("Document/Task: ").concat(t.as_str()));
        },
        None => {},
    }
    match &block.auto_summary {
        Some(s) => {
            parts.push(String::from_str("Activity: ").concat(s.as_str()));
        },
        None => {},
    }
    let secs = block.duration_secs;
    let minutes: i64 = if secs >= 0 {
        secs / 60
    } else {
        (-((-(secs as i128)) / 60)) as i64
    };
    let metrics = String::from_str("Metrics: ").concat(signed_decimal_string(block.edit_count as i64).as_str()).concat(
        " edits, ",
    ).concat(signed_decimal_string(block.browse_count as i64).as_str()).concat(" pages browsed, ").concat(
        signed_decimal_string(minutes).as_str(),
    ).concat(" minutes");
    parts.push(metrics);
    if block.research_urls.len() > 0 {
        let mut domains: Vec<String> = Vec::new();
        let n = block.research_urls.len();
        let mut i: usize = 0;
        while i < n
            invariant
                i <= n,
                n == block.research_urls@.len(),
                domains@.len() == i,
                forall|j: int| 0 <= j < i ==> (#[trigger] domains@[j])@ == domain_of(block.research_urls@[j]@),
            decreases n - i,
        {
            domains.push(extract_domain(block.research_urls[i].as_str()));
            i += 1;
        }
        proof {
            assert(texts_of(domains@) =~= domains_of(block.research_urls@));
        }
        parts.push(String::from_str("Research: ").concat(join_texts(&domains, ", ").as_str()));
    }
    match &block.notes {
        Some(n) => {
            parts.push(String::from_str("User notes: ").concat(n.as_str()));
        },
        None => {},
    }
    parts.push(String::from_str("\nProvide a concise 1-sentence summary of what was accomplished."));
    proof {
        assert(texts_of(parts@) =~= prompt_lines(*block));
    }
    join_texts(&parts, "\n")
}

} // verus!
