//! Rows keyed by a text: writing a batch so that a key stays unique, and
//! reading the newest rows.

use vstd::prelude::*;
use crate::vecs::{insert_newest, lemma_filter_keeps_pairwise, newest_first, retain_by, sort_newest_first};

verus! {

/// Whether a row with the key `k` is among `rows`.
pub open spec fn has_key<T>(rows: Seq<T>, k: Seq<char>, key: spec_fn(T) -> Seq<char>) -> bool {
    exists|i: int| 0 <= i < rows.len() && key(#[trigger] rows[i]) == k
}

/// No two rows have one key.
pub open spec fn keys_distinct<T>(rows: Seq<T>, key: spec_fn(T) -> Seq<char>) -> bool {
    forall|i: int, j: int| 0 <= i < j < rows.len() ==> key(#[trigger] rows[i]) != key(#[trigger] rows[j])
}

/// `rows` after `x` is written so that a row that has its key stays and
/// `x` is dropped.
pub open spec fn written_or_ignored<T>(rows: Seq<T>, x: T, key: spec_fn(T) -> Seq<char>) -> Seq<T> {
    if has_key(rows, key(x), key) {
        rows
    } else {
        rows.push(x)
    }
}

/// `rows` after `x` is written so that every row that has its key goes and
/// `x` stands last.
pub open spec fn written_or_replaced<T>(rows: Seq<T>, x: T, key: spec_fn(T) -> Seq<char>) -> Seq<T> {
    rows.filter(|y: T| key(y) != key(x)).push(x)
}

/// `rows` after each row of `batch` is written in turn, a row whose key is
/// taken being dropped.
pub open spec fn all_written_or_ignored<T>(rows: Seq<T>, batch: Seq<T>, key: spec_fn(T) -> Seq<char>) -> Seq<T>
    decreases batch.len(),
{
    if batch.len() == 0 {
        rows
    } else {
        written_or_ignored(all_written_or_ignored(rows, batch.drop_last(), key), batch.last(), key)
    }
}

/// `rows` after each row of `batch` is written in turn, a row taking the
/// place of every row that has its key.
pub open spec fn all_written_or_replaced<T>(rows: Seq<T>, batch: Seq<T>, key: spec_fn(T) -> Seq<char>) -> Seq<T>
    decreases batch.len(),
{
    if batch.len() == 0 {
        rows
    } else {
        written_or_replaced(all_written_or_replaced(rows, batch.drop_last(), key), batch.last(), key)
    }
}

/// The newest `limit` rows of `rows`, newest first; all of them where
/// `limit` is negative or there are no more than `limit`.
pub open spec fn recent<T>(rows: Seq<T>, limit: i32, instant: spec_fn(T) -> int) -> Seq<T> {
    let all = newest_first(rows, instant);
    if limit < 0 || limit >= all.len() {
        all
    } else {
        all.take(limit as int)
    }
}

/// Writes a copy of each row of `batch` to `table` in turn; a row whose key
/// is taken is dropped.
pub(crate) fn write_or_ignore<T, S: Fn(&T, &T) -> bool, C: Fn(&T) -> T>(
    table: &mut Vec<T>,
    batch: &[T],
    same_key: S,
    copy: C,
    Ghost(key): Ghost<spec_fn(T) -> Seq<char>>,
)
    requires
        forall|a: T, b: T| #[trigger] same_key.requires((&a, &b)),
        forall|a: T, b: T, r: bool| #[trigger] same_key.ensures((&a, &b), r) ==> r == (key(a) == key(b)),
        forall|x: T| #[trigger] copy.requires((&x,)),
        forall|x: T, r: T| #[trigger] copy.ensures((&x,), r) ==> r == x,
    ensures
        final(table)@ == all_written_or_ignored(old(table)@, batch@, key),
{
    let n = batch.len();
    let mut i: usize = 0;
    proof {
        assert(batch@.take(0) =~= Seq::<T>::empty());
    }
    while i < n
        invariant
            i <= n,
            n == batch@.len(),
            table@ == all_written_or_ignored(old(table)@, batch@.take(i as int), key),
            forall|a: T, b: T| #[trigger] same_key.requires((&a, &b)),
            forall|a: T, b: T, r: bool| #[trigger] same_key.ensures((&a, &b), r) ==> r == (key(a) == key(b)),
            forall|x: T| #[trigger] copy.requires((&x,)),
            forall|x: T, r: T| #[trigger] copy.ensures((&x,), r) ==> r == x,
        decreases n - i,
    {
        proof {
            assert(batch@.take(i + 1).drop_last() =~= batch@.take(i as int));
        }
        let x = &batch[i];
        let m = table.len();
        let mut taken = false;
        let mut j: usize = 0;
        while j < m
            invariant
                j <= m,
                m == table@.len(),
                *x == batch@[i as int],
                taken == exists|w: int| 0 <= w < j && key(#[trigger] table@[w]) == key(*x),
                forall|a: T, b: T| #[trigger] same_key.requires((&a, &b)),
                forall|a: T, b: T, r: bool| #[trigger] same_key.ensures((&a, &b), r) ==> r == (key(a) == key(b)),
            decreases m - j,
        {
            if same_key(&table[j], x) {
                taken = true;
            }
            j += 1;
        }
        if !taken {
            let c = copy(x);
            table.push(c);
        }
        i += 1;
    }
    proof {
        assert(batch@.take(n as int) =~= batch@);
    }
}

/// Writes a copy of each row of `batch` to `table` in turn; a row takes the
/// place of every row that has its key.
pub(crate) fn write_or_replace<T, S: Fn(&T, &T) -> bool, C: Fn(&T) -> T>(
    table: &mut Vec<T>,
    batch: &[T],
    same_key: S,
    copy: C,
    Ghost(key): Ghost<spec_fn(T) -> Seq<char>>,
)
    requires
        forall|a: T, b: T| #[trigger] same_key.requires((&a, &b)),
        forall|a: T, b: T, r: bool| #[trigger] same_key.ensures((&a, &b), r) ==> r == (key(a) == key(b)),
        forall|x: T| #[trigger] copy.requires((&x,)),
        forall|x: T, r: T| #[trigger] copy.ensures((&x,), r) ==> r == x,
    ensures
        final(table)@ == all_written_or_replaced(old(table)@, batch@, key),
{
    let n = batch.len();
    let mut i: usize = 0;
    proof {
        assert(batch@.take(0) =~= Seq::<T>::empty());
    }
    while i < n
        invariant
            i <= n,
            n == batch@.len(),
            table@ == all_written_or_replaced(old(table)@, batch@.take(i as int), key),
            forall|a: T, b: T| #[trigger] same_key.requires((&a, &b)),
            forall|a: T, b: T, r: bool| #[trigger] same_key.ensures((&a, &b), r) ==> r == (key(a) == key(b)),
            forall|x: T| #[trigger] copy.requires((&x,)),
            forall|x: T, r: T| #[trigger] copy.ensures((&x,), r) ==> r == x,
        decreases n - i,
    {
        proof {
            assert(batch@.take(i + 1).drop_last() =~= batch@.take(i as int));
        }
        let x = &batch[i];
        let ghost s = table@;
        let ghost p = |y: T| key(y) != key(*x);
        let ghost mut k: int = 0;
        let mut j: usize = 0;
        proof {
            assert(s.take(0) =~= Seq::<T>::empty());
            s.take(0).lemma_filter_len(p);
            assert(table@ =~= s.take(0).filter(p) + s.skip(0));
        }
        while j < table.len()
            invariant
                *x == batch@[i as int],
                p == (|y: T| key(y) != key(*x)),
                0 <= k <= s.len(),
                j == s.take(k).filter(p).len(),
                table@ == s.take(k).filter(p) + s.skip(k),
                forall|a: T, b: T| #[trigger] same_key.requires((&a, &b)),
                forall|a: T, b: T, r: bool| #[trigger] same_key.ensures((&a, &b), r) ==> r == (key(a) == key(b)),
            decreases s.len() - k,
        {
            proof {
                assert(table@[j as int] == s.skip(k)[0]);
                assert(s.take(k + 1) =~= s.take(k).push(s[k]));
                s.take(k).lemma_filter_push(s[k], p);
            }
            if same_key(&table[j], x) {
                let _ = table.remove(j);
                proof {
                    assert(table@ =~= s.take(k + 1).filter(p) + s.skip(k + 1));
                }
            } else {
                proof {
                    assert(table@ =~= s.take(k + 1).filter(p) + s.skip(k + 1));
                }
                j += 1;
            }
            proof {
                k = k + 1;
            }
        }
        proof {
            assert(s.skip(k).len() == 0);
            assert(s.take(k) =~= s);
            assert(table@ =~= s.filter(p));
        }
        let c = copy(x);
        table.push(c);
        i += 1;
    }
    proof {
        assert(batch@.take(n as int) =~= batch@);
    }
}

/// A copy of the newest `limit` rows of `table`, newest first.
pub(crate) fn read_recent<T, K: Fn(&T) -> i64, C: Fn(&T) -> T>(
    table: &Vec<T>,
    limit: i32,
    instant_of: K,
    copy: C,
    Ghost(instant): Ghost<spec_fn(T) -> int>,
) -> (out: Vec<T>)
    requires
        forall|x: T| #[trigger] instant_of.requires((&x,)),
        forall|x: T, r: i64| #[trigger] instant_of.ensures((&x,), r) ==> r == instant(x),
        forall|x: T| #[trigger] copy.requires((&x,)),
        forall|x: T, r: T| #[trigger] copy.ensures((&x,), r) ==> r == x,
    ensures
        out@ == recent(table@, limit, instant),
{
    let mut out: Vec<T> = Vec::new();
    let n = table.len();
    let mut i: usize = 0;
    while i < n
        invariant
            i <= n,
            n == table@.len(),
            out@ == table@.take(i as int),
            forall|x: T| #[trigger] copy.requires((&x,)),
            forall|x: T, r: T| #[trigger] copy.ensures((&x,), r) ==> r == x,
        decreases n - i,
    {
        let c = copy(&table[i]);
        out.push(c);
        proof {
            assert(out@ =~= table@.take(i + 1));
        }
        i += 1;
    }
    proof {
        assert(table@.take(n as int) =~= table@);
    }
    sort_newest_first(&mut out, instant_of, Ghost(instant));
    if limit >= 0 && (limit as usize) < out.len() {
        out.truncate(limit as usize);
        proof {
            assert(out@ =~= newest_first(table@, instant).take(limit as int));
        }
    }
    out
}

/// Writing a row, whichever way, leaves keys distinct where they were.
pub proof fn lemma_written_keeps_distinct<T>(rows: Seq<T>, x: T, key: spec_fn(T) -> Seq<char>)
    requires
        keys_distinct(rows, key),
    ensures
        keys_distinct(written_or_ignored(rows, x, key), key),
        keys_distinct(written_or_replaced(rows, x, key), key),
{
    if !has_key(rows, key(x), key) {
        let r = rows.push(x);
        assert forall|i: int, j: int| 0 <= i < j < r.len() implies key(#[trigger] r[i]) != key(#[trigger] r[j]) by {
            if j == rows.len() {
                assert(key(rows[i]) != key(x));
            } else {
                assert(key(rows[i]) != key(rows[j]));
            }
        }
    }
    let p = |y: T| key(y) != key(x);
    let apart = |a: T, b: T| key(a) != key(b);
    let kept = rows.filter(p);
    assert forall|i: int, j: int| 0 <= i < j < rows.len() implies #[trigger] apart(rows[i], rows[j]) by {
        assert(key(rows[i]) != key(rows[j]));
    }
    lemma_filter_keeps_pairwise(rows, p, apart);
    let r = kept.push(x);
    assert forall|i: int, j: int| 0 <= i < j < r.len() implies key(#[trigger] r[i]) != key(#[trigger] r[j]) by {
        if j == kept.len() {
            assert(kept.contains(kept[i]));
            assert(p(kept[i]));
        } else {
            assert(apart(kept[i], kept[j]));
        }
    }
}

/// Writing a batch, whichever way, leaves keys distinct where they were.
pub proof fn lemma_all_written_keeps_distinct<T>(rows: Seq<T>, batch: Seq<T>, key: spec_fn(T) -> Seq<char>)
    requires
        keys_distinct(rows, key),
    ensures
        keys_distinct(all_written_or_ignored(rows, batch, key), key),
        keys_distinct(all_written_or_replaced(rows, batch, key), key),
    decreases batch.len(),
{
    if batch.len() > 0 {
        lemma_all_written_keeps_distinct(rows, batch.drop_last(), key);
        lemma_written_keeps_distinct(all_written_or_ignored(rows, batch.drop_last(), key), batch.last(), key);
        lemma_written_keeps_distinct(all_written_or_replaced(rows, batch.drop_last(), key), batch.last(), key);
    }
}

/// What holds of every row that was there and of every row of a batch
/// holds of every row that is there once the batch is written, whichever
/// way.
pub proof fn lemma_all_written_keeps<T>(rows: Seq<T>, batch: Seq<T>, key: spec_fn(T) -> Seq<char>, good: spec_fn(T) -> bool)
    requires
        forall|i: int| 0 <= i < rows.len() ==> good(#[trigger] rows[i]),
        forall|i: int| 0 <= i < batch.len() ==> good(#[trigger] batch[i]),
    ensures
        forall|i: int|
            0 <= i < all_written_or_ignored(rows, batch, key).len() ==> good(
                #[trigger] all_written_or_ignored(rows, batch, key)[i],
            ),
        forall|i: int|
            0 <= i < all_written_or_replaced(rows, batch, key).len() ==> good(
                #[trigger] all_written_or_replaced(rows, batch, key)[i],
            ),
    decreases batch.len(),
{
    if batch.len() > 0 {
        let front = batch.drop_last();
        let x = batch.last();
        assert forall|i: int| 0 <= i < front.len() implies good(#[trigger] front[i]) by {
            assert(front[i] == batch[i]);
        }
        lemma_all_written_keeps(rows, front, key, good);
        assert(good(batch[batch.len() - 1]));
        let ignored = all_written_or_ignored(rows, front, key);
        let r1 = written_or_ignored(ignored, x, key);
        assert forall|i: int| 0 <= i < r1.len() implies good(#[trigger] r1[i]) by {
            if i < ignored.len() {
                assert(r1[i] == ignored[i]);
            }
        }
        let replaced = all_written_or_replaced(rows, front, key);
        let stays = |y: T| key(y) != key(x);
        let kept = replaced.filter(stays);
        let any = |a: T, b: T| true;
        assert forall|i: int, j: int| 0 <= i < j < replaced.len() implies #[trigger] any(replaced[i], replaced[j]) by {}
        lemma_filter_keeps_pairwise(replaced, stays, any);
        let r2 = kept.push(x);
        assert forall|i: int| 0 <= i < r2.len() implies good(#[trigger] r2[i]) by {
            if i < kept.len() {
                assert(kept.contains(kept[i]));
                assert(replaced.contains(kept[i]));
                let q = choose|q: int| 0 <= q < replaced.len() && replaced[q] == kept[i];
                assert(good(replaced[q]));
            }
        }
    }
}

/// `b` is `a` element for element, up to `like`.
pub open spec fn pointwise<T>(a: Seq<T>, b: Seq<T>, like: spec_fn(T, T) -> bool) -> bool {
    &&& a.len() == b.len()
    &&& forall|i: int| 0 <= i < a.len() ==> #[trigger] like(a[i], b[i])
}

/// Putting like elements into like sequences gives like sequences, where
/// like elements happened at one instant.
pub proof fn lemma_insert_newest_pointwise<T>(
    a: Seq<T>,
    b: Seq<T>,
    x: T,
    y: T,
    instant: spec_fn(T) -> int,
    like: spec_fn(T, T) -> bool,
)
    requires
        pointwise(a, b, like),
        like(x, y),
        forall|u: T, v: T| #[trigger] like(u, v) ==> instant(u) == instant(v),
    ensures
        pointwise(insert_newest(a, x, instant), insert_newest(b, y, instant), like),
    decreases a.len(),
{
    if a.len() > 0 {
        assert(like(a[a.len() - 1], b[b.len() - 1]));
        if instant(a.last()) >= instant(x) {
        } else {
            assert(pointwise(a.drop_last(), b.drop_last(), like)) by {
                assert forall|i: int| 0 <= i < a.drop_last().len() implies #[trigger] like(
                    a.drop_last()[i],
                    b.drop_last()[i],
                ) by {
                    assert(like(a[i], b[i]));
                }
            }
            lemma_insert_newest_pointwise(a.drop_last(), b.drop_last(), x, y, instant, like);
        }
    }
}

/// Ordering like sequences newest first gives like sequences.
pub proof fn lemma_newest_first_pointwise<T>(a: Seq<T>, b: Seq<T>, instant: spec_fn(T) -> int, like: spec_fn(T, T) -> bool)
    requires
        pointwise(a, b, like),
        forall|u: T, v: T| #[trigger] like(u, v) ==> instant(u) == instant(v),
    ensures
        pointwise(newest_first(a, instant), newest_first(b, instant), like),
    decreases a.len(),
{
    if a.len() > 0 {
        assert(like(a[a.len() - 1], b[b.len() - 1]));
        assert(pointwise(a.drop_last(), b.drop_last(), like)) by {
            assert forall|i: int| 0 <= i < a.drop_last().len() implies #[trigger] like(
                a.drop_last()[i],
                b.drop_last()[i],
            ) by {
                assert(like(a[i], b[i]));
            }
        }
        lemma_newest_first_pointwise(a.drop_last(), b.drop_last(), instant, like);
        lemma_insert_newest_pointwise(
            newest_first(a.drop_last(), instant),
            newest_first(b.drop_last(), instant),
            a.last(),
            b.last(),
            instant,
            like,
        );
    }
}

/// Filtering like sequences by a test that like elements pass alike gives
/// like sequences.
pub proof fn lemma_filter_pointwise<T>(a: Seq<T>, b: Seq<T>, p: spec_fn(T) -> bool, like: spec_fn(T, T) -> bool)
    requires
        pointwise(a, b, like),
        forall|u: T, v: T| #[trigger] like(u, v) ==> p(u) == p(v),
    ensures
        pointwise(a.filter(p), b.filter(p), like),
    decreases a.len(),
{
    reveal(Seq::filter);
    if a.len() > 0 {
        assert(like(a[a.len() - 1], b[b.len() - 1]));
        assert(pointwise(a.drop_last(), b.drop_last(), like)) by {
            assert forall|i: int| 0 <= i < a.drop_last().len() implies #[trigger] like(
                a.drop_last()[i],
                b.drop_last()[i],
            ) by {
                assert(like(a[i], b[i]));
            }
        }
        lemma_filter_pointwise(a.drop_last(), b.drop_last(), p, like);
        let fa = a.drop_last().filter(p);
        let fb = b.drop_last().filter(p);
        if p(a.last()) {
            assert forall|i: int| 0 <= i < fa.push(a.last()).len() implies #[trigger] like(
                fa.push(a.last())[i],
                fb.push(b.last())[i],
            ) by {
                if i < fa.len() {
                    assert(like(fa[i], fb[i]));
                }
            }
        }
    }
}

/// A likeness of each of the newest `limit` rows of `table` that pass
/// `keep`, newest first, where `copy` gives a likeness of a row.
pub(crate) fn select_recent<T, F: Fn(&T) -> bool, K: Fn(&T) -> i64, C: Fn(&T) -> T>(
    table: &Vec<T>,
    keep: F,
    instant_of: K,
    copy: C,
    limit: i32,
    Ghost(p): Ghost<spec_fn(T) -> bool>,
    Ghost(instant): Ghost<spec_fn(T) -> int>,
    Ghost(like): Ghost<spec_fn(T, T) -> bool>,
) -> (out: Vec<T>)
    requires
        forall|x: T| #[trigger] keep.requires((&x,)),
        forall|x: T, r: bool| #[trigger] keep.ensures((&x,), r) ==> r == p(x),
        forall|x: T| #[trigger] instant_of.requires((&x,)),
        forall|x: T, r: i64| #[trigger] instant_of.ensures((&x,), r) ==> r == instant(x),
        forall|x: T| #[trigger] copy.requires((&x,)),
        forall|x: T, r: T| #[trigger] copy.ensures((&x,), r) ==> like(x, r),
        forall|u: T, v: T| #[trigger] like(u, v) ==> p(u) == p(v) && instant(u) == instant(v),
    ensures
        pointwise(recent(table@.filter(p), limit, instant), out@, like),
{
    let mut out: Vec<T> = Vec::new();
    let n = table.len();
    let mut i: usize = 0;
    while i < n
        invariant
            i <= n,
            n == table@.len(),
            pointwise(table@.take(i as int), out@, like),
            forall|x: T| #[trigger] copy.requires((&x,)),
            forall|x: T, r: T| #[trigger] copy.ensures((&x,), r) ==> like(x, r),
        decreases n - i,
    {
        let ghost before = out@;
        let c = copy(&table[i]);
        out.push(c);
        proof {
            assert forall|j: int| 0 <= j < i + 1 implies #[trigger] like(table@.take(i + 1)[j], out@[j]) by {
                if j < i {
                    assert(like(table@.take(i as int)[j], before[j]));
                }
            }
        }
        i += 1;
    }
    proof {
        assert(table@.take(n as int) =~= table@);
        lemma_filter_pointwise(table@, out@, p, like);
    }
    let ghost copies = out@;
    retain_by(&mut out, keep, Ghost(p));
    proof {
        lemma_newest_first_pointwise(table@.filter(p), copies.filter(p), instant, like);
    }
    sort_newest_first(&mut out, instant_of, Ghost(instant));
    let ghost sorted = out@;
    if limit >= 0 && (limit as usize) < out.len() {
        out.truncate(limit as usize);
        proof {
            let want = newest_first(table@.filter(p), instant).take(limit as int);
            assert(out@ =~= sorted.take(limit as int));
            assert forall|j: int| 0 <= j < want.len() implies #[trigger] like(want[j], out@[j]) by {
                assert(like(newest_first(table@.filter(p), instant)[j], sorted[j]));
            }
        }
    }
    out
}

} // verus!
