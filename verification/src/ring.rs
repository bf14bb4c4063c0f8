//! A fixed-capacity first-in first-out buffer that drops its oldest element
//! when a push finds it full.

use std::collections::VecDeque;
use vstd::prelude::*;

verus! {

/// What a buffer of capacity `cap` holding `s` holds after `item` is pushed.
pub open spec fn pushed<T>(s: Seq<T>, cap: nat, item: T) -> Seq<T> {
    if s.len() >= cap && s.len() > 0 {
        s.skip(1).push(item)
    } else {
        s.push(item)
    }
}

/// What a buffer of capacity `cap` holding `s` holds after every element of
/// `items` has been pushed, first to last.
pub open spec fn pushed_all<T>(s: Seq<T>, cap: nat, items: Seq<T>) -> Seq<T>
    decreases items.len(),
{
    if items.len() == 0 {
        s
    } else {
        pushed(pushed_all(s, cap, items.drop_last()), cap, items.last())
    }
}

/// The last `cap` elements of `items`, or all of them where there are fewer.
pub open spec fn newest<T>(items: Seq<T>, cap: nat) -> Seq<T> {
    if items.len() <= cap {
        items
    } else {
        items.skip(items.len() - cap)
    }
}

/// What a buffer of capacity `cap` that holds `held` holds once `returned`,
/// which it had handed out before, is put back in front of `held`: the
/// elements of `returned`, then those of `held`, pushed onto an empty
/// buffer.
pub open spec fn restored<T>(held: Seq<T>, returned: Seq<T>, cap: nat) -> Seq<T> {
    pushed_all(Seq::<T>::empty(), cap, returned + held)
}

/// Fixed-capacity queue; the view is its contents, oldest first.
pub struct RingBuffer<T> {
    buffer: VecDeque<T>,
    capacity: usize,
}

impl<T> View for RingBuffer<T> {
    type V = Seq<T>;

    closed spec fn view(&self) -> Seq<T> {
        self.buffer@
    }
}

impl<T> RingBuffer<T> {
    /// The capacity the buffer was made with.
    pub closed spec fn cap(&self) -> nat {
        self.capacity as nat
    }

    /// The length never exceeds the capacity (a buffer made with capacity
    /// zero keeps the one element pushed last).
    pub open spec fn wf(&self) -> bool {
        self@.len() <= self.cap() || self@.len() <= 1
    }

    pub fn new(capacity: usize) -> (r: Self)
        ensures
            r@ == Seq::<T>::empty(),
            r.cap() == capacity,
            r.wf(),
    {
        RingBuffer { buffer: VecDeque::with_capacity(capacity), capacity }
    }

    /// Appends `item`, dropping the oldest element first if the buffer is full.
    pub fn push(&mut self, item: T)
        ensures
            final(self)@ == pushed(old(self)@, old(self).cap(), item),
            final(self).cap() == old(self).cap(),
            old(self).wf() ==> final(self).wf(),
    {
        if self.buffer.len() >= self.capacity {
            let _ = self.buffer.pop_front();
        }
        self.buffer.push_back(item);
        proof {
            let s = old(self)@;
            if s.len() >= self.capacity && s.len() > 0 {
                assert(s.subrange(1, s.len() as int) == s.skip(1));
            }
        }
    }

    /// Pushes each element of `items`, first to last.
    pub fn push_all(&mut self, items: Vec<T>)
        ensures
            final(self)@ == pushed_all(old(self)@, old(self).cap(), items@),
            final(self).cap() == old(self).cap(),
            old(self).wf() ==> final(self).wf(),
    {
        let mut items = items;
        let ghost all = items@;
        let ghost mut k: int = 0;
        proof {
            assert(all.take(0) =~= Seq::<T>::empty());
            assert(items@ =~= all.skip(0));
        }
        while items.len() > 0
            invariant
                0 <= k <= all.len(),
                items@ == all.skip(k),
                self@ == pushed_all(old(self)@, old(self).cap(), all.take(k)),
                self.cap() == old(self).cap(),
                old(self).wf() ==> self.wf(),
            decreases all.len() - k,
        {
            let x = items.remove(0);
            proof {
                assert(x == all[k]);
                assert(all.take(k + 1).drop_last() =~= all.take(k));
                assert(all.take(k + 1).last() == x);
                assert(items@ =~= all.skip(k + 1));
            }
            self.push(x);
            proof {
                k = k + 1;
            }
        }
        proof {
            assert(all.take(k) =~= all);
        }
    }

    /// Puts `returned`, which the buffer had handed out before, back in
    /// front of what it holds now.
    pub fn put_back(&mut self, returned: Vec<T>)
        ensures
            final(self)@ == restored(old(self)@, returned@, old(self).cap()),
            final(self).cap() == old(self).cap(),
            old(self).cap() > 0 ==> final(self).wf(),
    {
        let held = self.drain_all();
        self.push_all(returned);
        self.push_all(held);
        proof {
            lemma_pushed_all_appends(Seq::<T>::empty(), self.cap(), returned@, held@);
            if self.cap() > 0 {
                lemma_pushes_keep_newest(self.cap(), returned@ + held@);
            }
        }
    }

    pub fn len(&self) -> (n: usize)
        ensures
            n == self@.len(),
    {
        self.buffer.len()
    }

    pub fn is_empty(&self) -> (b: bool)
        ensures
            b == (self@.len() == 0),
    {
        self.buffer.len() == 0
    }

    /// Hands out every element in insertion order and leaves the buffer empty.
    pub fn drain_all(&mut self) -> (out: Vec<T>)
        ensures
            out@ == old(self)@,
            final(self)@ == Seq::<T>::empty(),
            final(self).cap() == old(self).cap(),
            final(self).wf(),
    {
        let mut out: Vec<T> = Vec::new();
        loop
            invariant
                out@ + self.buffer@ == old(self)@,
                self.capacity == old(self).capacity,
            ensures
                self.buffer@.len() == 0,
            decreases self.buffer@.len(),
        {
            let ghost before = self.buffer@;
            match self.buffer.pop_front() {
                Some(x) => {
                    out.push(x);
                    assert(out@ + self.buffer@ =~= old(self)@) by {
                        assert(before =~= seq![before[0]] + before.subrange(1, before.len() as int));
                    }
                },
                None => {
                    break ;
                },
            }
        }
        assert(out@ =~= old(self)@);
        assert(self.buffer@ =~= Seq::<T>::empty());
        out
    }

    /// The element pushed last, if any.
    pub fn last(&self) -> (r: Option<&T>)
        ensures
            self@.len() == 0 ==> r is None,
            self@.len() > 0 ==> r == Some(&self@[self@.len() - 1]),
    {
        let n = self.buffer.len();
        if n == 0 {
            None
        } else {
            Some(&self.buffer[n - 1])
        }
    }

    /// The element at place `i`, counted from the oldest.
    pub fn get(&self, i: usize) -> (r: &T)
        requires
            i < self@.len(),
        ensures
            *r == self@[i as int],
    {
        &self.buffer[i]
    }

    /// Puts `f` of the element at place `i` in its place; every other
    /// element stays where and what it is.
    pub fn update_at<F: FnOnce(T) -> T>(&mut self, i: usize, f: F)
        requires
            i < old(self)@.len(),
            f.requires((old(self)@[i as int],)),
        ensures
            f.ensures((old(self)@[i as int],), final(self)@[i as int]),
            final(self)@ == old(self)@.update(i as int, final(self)@[i as int]),
            final(self).cap() == old(self).cap(),
    {
        let item = self.buffer.remove(i).unwrap();
        let changed = f(item);
        self.buffer.insert(i, changed);
        assert(self.buffer@ =~= old(self)@.update(i as int, changed));
    }

    pub fn clear(&mut self)
        ensures
            final(self)@ == Seq::<T>::empty(),
            final(self).cap() == old(self).cap(),
            final(self).wf(),
    {
        self.buffer.clear();
    }

    pub fn capacity(&self) -> (c: usize)
        ensures
            c == self.cap(),
    {
        self.capacity
    }
}

impl<T: Clone> RingBuffer<T> {
    /// A copy of every element, oldest first; the buffer is left as it was.
    pub fn get_all(&self) -> (out: Vec<T>)
        ensures
            out@.len() == self@.len(),
            forall|i: int| 0 <= i < self@.len() ==> cloned::<T>(#[trigger] self@[i], out@[i]),
    {
        let mut out: Vec<T> = Vec::new();
        let n = self.buffer.len();
        let mut i: usize = 0;
        while i < n
            invariant
                n == self.buffer@.len(),
                i <= n,
                out@.len() == i,
                forall|j: int| 0 <= j < i ==> cloned::<T>(#[trigger] self.buffer@[j], out@[j]),
            decreases n - i,
        {
            let item = self.buffer[i].clone();
            out.push(item);
            i += 1;
        }
        out
    }
}

/// However many elements are pushed onto an empty buffer of capacity
/// `cap > 0`, it never holds more than `cap` of them, and what it holds is the
/// last `cap` elements pushed, in the order they were pushed.
pub proof fn lemma_pushes_keep_newest<T>(cap: nat, items: Seq<T>)
    requires
        cap > 0,
    ensures
        pushed_all(Seq::<T>::empty(), cap, items).len() <= cap,
        pushed_all(Seq::<T>::empty(), cap, items) == newest(items, cap),
    decreases items.len(),
{
    if items.len() > 0 {
        let front = items.drop_last();
        lemma_pushes_keep_newest(cap, front);
        let before = pushed_all(Seq::<T>::empty(), cap, front);
        assert(before == newest(front, cap));
        assert(pushed(before, cap, items.last()) =~= newest(items, cap));
    } else {
        assert(pushed_all(Seq::<T>::empty(), cap, items) =~= newest(items, cap));
    }
}

/// Pushing one batch and then another is pushing the two as one.
pub proof fn lemma_pushed_all_appends<T>(s: Seq<T>, cap: nat, a: Seq<T>, b: Seq<T>)
    ensures
        pushed_all(pushed_all(s, cap, a), cap, b) == pushed_all(s, cap, a + b),
    decreases b.len(),
{
    if b.len() == 0 {
        assert(a + b =~= a);
    } else {
        lemma_pushed_all_appends(s, cap, a, b.drop_last());
        assert((a + b).drop_last() =~= a + b.drop_last());
        assert((a + b).last() == b.last());
    }
}

/// Whatever a buffer holds after a batch was pushed, it held before or it
/// was in the batch.
pub proof fn lemma_pushed_all_members<T>(s: Seq<T>, cap: nat, items: Seq<T>)
    ensures
        forall|i: int|
            0 <= i < pushed_all(s, cap, items).len() ==> s.contains(#[trigger] pushed_all(s, cap, items)[i])
                || items.contains(pushed_all(s, cap, items)[i]),
    decreases items.len(),
{
    let r = pushed_all(s, cap, items);
    if items.len() == 0 {
        assert forall|i: int| 0 <= i < r.len() implies s.contains(#[trigger] r[i]) by {
            assert(s[i] == r[i]);
        }
    } else {
        let front = items.drop_last();
        let before = pushed_all(s, cap, front);
        lemma_pushed_all_members(s, cap, front);
        assert forall|i: int| 0 <= i < r.len() implies s.contains(#[trigger] r[i]) || items.contains(r[i]) by {
            if i == r.len() - 1 {
                assert(items[items.len() - 1] == r[i]);
            } else {
                let j = if before.len() >= cap && before.len() > 0 {
                    i + 1
                } else {
                    i
                };
                assert(before[j] == r[i]);
                if front.contains(before[j]) {
                    let q = choose|q: int| 0 <= q < front.len() && front[q] == before[j];
                    assert(items[q] == r[i]);
                }
            }
        }
    }
}

/// Putting back what a drain handed out undoes the drain: a buffer that
/// was within its capacity, drained and given back what it handed out with
/// nothing pushed in between, holds what it held.
pub proof fn lemma_put_back_undoes_drain<T>(held: Seq<T>, cap: nat)
    requires
        cap > 0,
        held.len() <= cap,
    ensures
        restored(Seq::<T>::empty(), held, cap) == held,
{
    assert(held + Seq::<T>::empty() =~= held);
    lemma_pushes_keep_newest(cap, held);
}

} // verus!
