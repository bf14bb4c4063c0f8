//! Loops over vectors that several modules share.

use vstd::prelude::*;

verus! {

/// Keeps the elements of `v` that `keep` accepts, in their order, where
/// `keep` decides the test `p`.
pub(crate) fn retain_by<T, F: Fn(&T) -> bool>(v: &mut Vec<T>, keep: F, Ghost(p): Ghost<spec_fn(T) -> bool>)
    requires
        forall|x: T| #[trigger] keep.requires((&x,)),
        forall|x: T, r: bool| #[trigger] keep.ensures((&x,), r) ==> r == p(x),
    ensures
        final(v)@ == old(v)@.filter(p),
{
    let ghost s = old(v)@;
    let ghost mut k: int = 0;
    let mut i: usize = 0;
    proof {
        assert(s.take(0) =~= Seq::<T>::empty());
        s.take(0).lemma_filter_len(p);
        assert(v@ =~= s.take(0).filter(p) + s.skip(0));
    }
    while i < v.len()
        invariant
            s == old(v)@,
            0 <= k <= s.len(),
            i == s.take(k).filter(p).len(),
            v@ == s.take(k).filter(p) + s.skip(k),
            forall|x: T| #[trigger] keep.requires((&x,)),
            forall|x: T, r: bool| #[trigger] keep.ensures((&x,), r) ==> r == p(x),
        decreases s.len() - k,
    {
        proof {
            assert(v@[i as int] == s.skip(k)[0]);
            assert(s.take(k + 1) =~= s.take(k).push(s[k]));
            s.take(k).lemma_filter_push(s[k], p);
        }
        if keep(&v[i]) {
            proof {
                assert(v@ =~= s.take(k + 1).filter(p) + s.skip(k + 1));
            }
            i += 1;
        } else {
            let _ = v.remove(i);
            proof {
                assert(v@ =~= s.take(k + 1).filter(p) + s.skip(k + 1));
            }
        }
        proof {
            k = k + 1;
        }
    }
    proof {
        assert(s.skip(k).len() == 0);
        assert(s.take(k) =~= s);
        assert(v@ =~= s.filter(p));
    }
}

/// `s` with `x` put behind the last element that is no older than `x`,
/// where `key` gives the instant of an element.
pub open spec fn insert_newest<T>(s: Seq<T>, x: T, key: spec_fn(T) -> int) -> Seq<T>
    decreases s.len(),
{
    if s.len() == 0 {
        seq![x]
    } else if key(s.last()) >= key(x) {
        s.push(x)
    } else {
        insert_newest(s.drop_last(), x, key).push(s.last())
    }
}

/// `s` ordered newest first by `key`; elements of equal key keep the order
/// they have in `s`.
pub open spec fn newest_first<T>(s: Seq<T>, key: spec_fn(T) -> int) -> Seq<T>
    decreases s.len(),
{
    if s.len() == 0 {
        s
    } else {
        insert_newest(newest_first(s.drop_last(), key), s.last(), key)
    }
}

/// No element of `s` is newer than one that stands before it.
pub open spec fn is_newest_first<T>(s: Seq<T>, key: spec_fn(T) -> int) -> bool {
    forall|i: int, j: int| 0 <= i < j < s.len() ==> key(s[i]) >= key(s[j])
}

/// Where `insert_newest` puts the new element: at `pos`, if everything from
/// `pos` on is older than it and what stands just before `pos` is not.
pub proof fn lemma_insert_newest_at<T>(s: Seq<T>, x: T, key: spec_fn(T) -> int, pos: int)
    requires
        0 <= pos <= s.len(),
        forall|j: int| pos <= j < s.len() ==> key(#[trigger] s[j]) < key(x),
        pos > 0 ==> key(s[pos - 1]) >= key(x),
    ensures
        insert_newest(s, x, key) == s.insert(pos, x),
    decreases s.len(),
{
    if s.len() == 0 {
        assert(s.insert(pos, x) =~= seq![x]);
    } else if pos == s.len() {
        assert(s.insert(pos, x) =~= s.push(x));
    } else {
        assert(key(s[s.len() - 1]) < key(x));
        lemma_insert_newest_at(s.drop_last(), x, key, pos);
        assert(s.drop_last().insert(pos, x).push(s.last()) =~= s.insert(pos, x));
    }
}

/// Putting an element into a sequence that is ordered newest first leaves it
/// ordered newest first, with the same elements and the new one.
pub proof fn lemma_insert_newest_ordered<T>(s: Seq<T>, x: T, key: spec_fn(T) -> int)
    requires
        is_newest_first(s, key),
    ensures
        is_newest_first(insert_newest(s, x, key), key),
        insert_newest(s, x, key).len() == s.len() + 1,
        insert_newest(s, x, key).to_multiset() == s.to_multiset().insert(x),
    decreases s.len(),
{
    broadcast use vstd::seq_lib::group_to_multiset_ensures;

    if s.len() == 0 {
        assert(s =~= Seq::<T>::empty());
    } else if key(s.last()) >= key(x) {
        let r = s.push(x);
        assert forall|i: int, j: int| 0 <= i < j < r.len() implies key(r[i]) >= key(r[j]) by {
            if j == s.len() {
                if i < s.len() - 1 {
                    assert(key(s[i]) >= key(s[s.len() - 1]));
                }
            }
        }
    } else {
        let front = s.drop_last();
        assert(is_newest_first(front, key)) by {
            assert forall|i: int, j: int| 0 <= i < j < front.len() implies key(front[i]) >= key(front[j]) by {
                assert(front[i] == s[i] && front[j] == s[j]);
            }
        }
        lemma_insert_newest_ordered(front, x, key);
        let m = insert_newest(front, x, key);
        let r = m.push(s.last());
        assert forall|i: int, j: int| 0 <= i < j < r.len() implies key(r[i]) >= key(r[j]) by {
            if j == m.len() {
                // every element of `m` is `x` or an element of `front`
                assert(m.to_multiset().count(m[i]) > 0);
                if m[i] == x {
                } else {
                    assert(front.to_multiset().count(m[i]) > 0);
                    assert(front.contains(m[i]));
                    let q = choose|q: int| 0 <= q < front.len() && front[q] == m[i];
                    assert(key(s[q]) >= key(s[s.len() - 1]));
                }
            }
        }
        assert(s =~= front.push(s.last()));
        assert(r.to_multiset() =~= s.to_multiset().insert(x));
    }
}

/// `newest_first` orders newest first and neither drops nor adds an element.
pub proof fn lemma_newest_first_ordered<T>(s: Seq<T>, key: spec_fn(T) -> int)
    ensures
        is_newest_first(newest_first(s, key), key),
        newest_first(s, key).len() == s.len(),
        newest_first(s, key).to_multiset() == s.to_multiset(),
    decreases s.len(),
{
    broadcast use vstd::seq_lib::group_to_multiset_ensures;

    if s.len() > 0 {
        lemma_newest_first_ordered(s.drop_last(), key);
        lemma_insert_newest_ordered(newest_first(s.drop_last(), key), s.last(), key);
        assert(s =~= s.drop_last().push(s.last()));
    }
}

/// Orders `v` newest first by the instant that `key_of` reads off an
/// element; elements of one instant keep their order.
pub(crate) fn sort_newest_first<T, K: Fn(&T) -> i64>(v: &mut Vec<T>, key_of: K, Ghost(key): Ghost<spec_fn(T) -> int>)
    requires
        forall|x: T| #[trigger] key_of.requires((&x,)),
        forall|x: T, r: i64| #[trigger] key_of.ensures((&x,), r) ==> r == key(x),
    ensures
        final(v)@ == newest_first(old(v)@, key),
{
    let ghost s = old(v)@;
    let mut out: Vec<T> = Vec::new();
    let ghost mut k: int = 0;
    proof {
        assert(s.take(0) =~= Seq::<T>::empty());
        assert(v@ =~= s.skip(0));
    }
    while v.len() > 0
        invariant
            s == old(v)@,
            0 <= k <= s.len(),
            v@ == s.skip(k),
            out@ == newest_first(s.take(k), key),
            forall|x: T| #[trigger] key_of.requires((&x,)),
            forall|x: T, r: i64| #[trigger] key_of.ensures((&x,), r) ==> r == key(x),
        decreases s.len() - k,
    {
        let x = v.remove(0);
        assert(x == s[k]);
        let kx = key_of(&x);
        let mut pos: usize = out.len();
        while pos > 0 && key_of(&out[pos - 1]) < kx
            invariant
                pos <= out@.len(),
                kx == key(x),
                forall|j: int| pos <= j < out@.len() ==> key(#[trigger] out@[j]) < key(x),
                forall|x: T| #[trigger] key_of.requires((&x,)),
                forall|x: T, r: i64| #[trigger] key_of.ensures((&x,), r) ==> r == key(x),
            decreases pos,
        {
            pos -= 1;
        }
        proof {
            lemma_insert_newest_at(out@, x, key, pos as int);
            assert(s.take(k + 1).drop_last() =~= s.take(k));
            assert(s.take(k + 1).last() == x);
            assert(v@ =~= s.skip(k + 1));
            k = k + 1;
        }
        out.insert(pos, x);
    }
    proof {
        assert(s.take(k) =~= s);
    }
    *v = out;
}

/// A copy of each element of `v` that `keep` accepts, in order, where `keep`
/// decides the test `p` and `copy` gives an equal value.
pub(crate) fn copy_where<T, F: Fn(&T) -> bool, C: Fn(&T) -> T>(
    v: &Vec<T>,
    keep: F,
    copy: C,
    Ghost(p): Ghost<spec_fn(T) -> bool>,
) -> (out: Vec<T>)
    requires
        forall|x: T| #[trigger] keep.requires((&x,)),
        forall|x: T, r: bool| #[trigger] keep.ensures((&x,), r) ==> r == p(x),
        forall|x: T| #[trigger] copy.requires((&x,)),
        forall|x: T, r: T| #[trigger] copy.ensures((&x,), r) ==> r == x,
    ensures
        out@ == v@.filter(p),
{
    let mut out: Vec<T> = Vec::new();
    let n = v.len();
    let mut i: usize = 0;
    proof {
        assert(v@.take(0) =~= Seq::<T>::empty());
        v@.take(0).lemma_filter_len(p);
        assert(out@ =~= v@.take(0).filter(p));
    }
    while i < n
        invariant
            i <= n,
            n == v@.len(),
            out@ == v@.take(i as int).filter(p),
            forall|x: T| #[trigger] keep.requires((&x,)),
            forall|x: T, r: bool| #[trigger] keep.ensures((&x,), r) ==> r == p(x),
            forall|x: T| #[trigger] copy.requires((&x,)),
            forall|x: T, r: T| #[trigger] copy.ensures((&x,), r) ==> r == x,
        decreases n - i,
    {
        proof {
            assert(v@.take(i + 1) =~= v@.take(i as int).push(v@[i as int]));
            v@.take(i as int).lemma_filter_push(v@[i as int], p);
        }
        if keep(&v[i]) {
            let c = copy(&v[i]);
            out.push(c);
        }
        i += 1;
    }
    proof {
        assert(v@.take(n as int) =~= v@);
    }
    out
}

/// What holds of every two elements of a sequence, the earlier one first,
/// holds of every two elements of what a filter keeps of it; and a filter
/// keeps exactly the elements that pass its test.
pub proof fn lemma_filter_keeps_pairwise<T>(s: Seq<T>, p: spec_fn(T) -> bool, rel: spec_fn(T, T) -> bool)
    requires
        forall|i: int, j: int| 0 <= i < j < s.len() ==> #[trigger] rel(s[i], s[j]),
    ensures
        forall|i: int, j: int|
            0 <= i < j < s.filter(p).len() ==> #[trigger] rel(s.filter(p)[i], s.filter(p)[j]),
        forall|x: T| #[trigger] s.filter(p).contains(x) <==> s.contains(x) && p(x),
    decreases s.len(),
{
    reveal(Seq::filter);
    let f = s.filter(p);
    if s.len() > 0 {
        let front = s.drop_last();
        let ff = front.filter(p);
        assert forall|i: int, j: int| 0 <= i < j < front.len() implies #[trigger] rel(front[i], front[j]) by {
            assert(rel(s[i], s[j]));
        }
        lemma_filter_keeps_pairwise(front, p, rel);
        assert forall|x: T| #[trigger] f.contains(x) <==> s.contains(x) && p(x) by {
            if f.contains(x) {
                let m = choose|m: int| 0 <= m < f.len() && f[m] == x;
                if m < ff.len() {
                    assert(ff[m] == x);
                    assert(ff.contains(x));
                    let q = choose|q: int| 0 <= q < front.len() && front[q] == x;
                    assert(s[q] == x);
                } else {
                    assert(s[s.len() - 1] == x);
                }
            }
            if s.contains(x) && p(x) {
                let q = choose|q: int| 0 <= q < s.len() && s[q] == x;
                if q < front.len() {
                    assert(front[q] == x);
                    assert(front.contains(x));
                    assert(ff.contains(x));
                    let m = choose|m: int| 0 <= m < ff.len() && ff[m] == x;
                    assert(f[m] == x);
                } else {
                    assert(f[f.len() - 1] == x);
                }
            }
        }
        assert forall|i: int, j: int| 0 <= i < j < f.len() implies #[trigger] rel(f[i], f[j]) by {
            if j < ff.len() {
                assert(rel(ff[i], ff[j]));
            } else {
                assert(f[i] == ff[i]);
                assert(ff.contains(ff[i]));
                let q = choose|q: int| 0 <= q < front.len() && front[q] == ff[i];
                assert(rel(s[q], s[s.len() - 1]));
            }
        }
    } else {
        assert forall|x: T| #[trigger] f.contains(x) <==> s.contains(x) && p(x) by {}
    }
}

/// A filter whose test everything passes keeps everything.
pub proof fn lemma_filter_all<T>(s: Seq<T>, p: spec_fn(T) -> bool)
    requires
        forall|x: T| #[trigger] p(x),
    ensures
        s.filter(p) == s,
    decreases s.len(),
{
    reveal(Seq::filter);
    if s.len() > 0 {
        lemma_filter_all(s.drop_last(), p);
        assert(s.drop_last().push(s.last()) =~= s);
    }
}

} // verus!
