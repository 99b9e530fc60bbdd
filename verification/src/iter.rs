//! The owning iteration engine: consumes a container by value and yields its
//! bits as a finite, double-ended, exact-length, fused sequence.

use crate::boxed::BitBox;
use crate::order::BitOrder;
use crate::store::BitStore;
use vstd::prelude::*;

verus! {

/// State keeper for consuming iteration over a container.
///
/// The engine owns the container and keeps an index-based cursor pair over
/// its logical range, recomputed against the owned buffer on each call; no
/// raw address into the buffer is stored, so the cursor cannot dangle from
/// the buffer it reads. `front <= back` holds throughout, and the bits of
/// `[front, back)` are exactly the ones not yet yielded.
pub struct IntoIter<O: BitOrder, T: BitStore> {
    /// The owned container.
    boxed: BitBox<O, T>,
    /// The cursor before the next bit `next` yields.
    front: usize,
    /// The cursor behind the next bit `next_back` yields.
    back: usize,
}

impl<O: BitOrder, T: BitStore> View for IntoIter<O, T> {
    type V = Seq<bool>;

    /// The bits not yet yielded, front first.
    closed spec fn view(&self) -> Seq<bool> {
        self.boxed@.subrange(self.front as int, self.back as int)
    }
}

impl<O: BitOrder, T: BitStore> IntoIter<O, T> {
    /// The cursors lie in order within the owned container.
    pub closed spec fn wf(self) -> bool {
        &&& self.boxed.wf()
        &&& self.front <= self.back
        &&& self.back as nat <= self.boxed@.len()
    }

    /// Yields the value at the front cursor and advances the cursor by one,
    /// or the end marker once the cursors have met. The end marker leaves
    /// the state unchanged, so every later call on either end yields the
    /// end marker again (fused).
    pub fn next(&mut self) -> (r: Option<bool>)
        requires
            old(self).wf(),
        ensures
            final(self).wf(),
            old(self)@.len() == 0 ==> r is None && final(self)@ == old(self)@,
            old(self)@.len() > 0 ==> r == Some(old(self)@[0]) && final(self)@ == old(
                self,
            )@.drop_first(),
    {
        if self.front == self.back {
            None
        } else {
            let v = self.boxed.get(self.front);
            self.front = self.front + 1;
            proof {
                assert(self@ =~= old(self)@.drop_first());
            }
            Some(v)
        }
    }

    /// Yields the value just before the back cursor and retreats the cursor
    /// by one, or the end marker once the cursors have met. Meeting `next`
    /// in the middle yields no bit twice: the two ends consume the same
    /// remaining range.
    pub fn next_back(&mut self) -> (r: Option<bool>)
        requires
            old(self).wf(),
        ensures
            final(self).wf(),
            old(self)@.len() == 0 ==> r is None && final(self)@ == old(self)@,
            old(self)@.len() > 0 ==> r == Some(old(self)@.last()) && final(self)@ == old(
                self,
            )@.drop_last(),
    {
        if self.front == self.back {
            None
        } else {
            let v = self.boxed.get(self.back - 1);
            self.back = self.back - 1;
            proof {
                assert(self@ =~= old(self)@.drop_last());
            }
            Some(v)
        }
    }

    /// The exact number of bits left to yield.
    pub fn len(&self) -> (n: usize)
        requires
            self.wf(),
        ensures
            n == self@.len(),
    {
        self.back - self.front
    }

    /// Exact length bounds: both the lower and the upper bound equal the
    /// remaining length.
    pub fn size_hint(&self) -> (r: (usize, Option<usize>))
        requires
            self.wf(),
        ensures
            r.0 == self@.len(),
            r.1 == Some(r.0),
    {
        let n = self.back - self.front;
        (n, Some(n))
    }

    /// Consumes the iterator and reports the remaining length directly,
    /// without traversal.
    pub fn count(self) -> (n: usize)
        requires
            self.wf(),
        ensures
            n == self@.len(),
    {
        self.back - self.front
    }

    /// Advances the front cursor past `n` discarded bits and yields the one
    /// after them: the value the `n + 1`-th call of `next` would yield.
    /// With fewer than `n + 1` bits left it yields the end marker and
    /// leaves the cursors exhausted.
    pub fn nth(&mut self, n: usize) -> (r: Option<bool>)
        requires
            old(self).wf(),
        ensures
            final(self).wf(),
            (n as int) < old(self)@.len() ==> r == Some(old(self)@[n as int]) && final(self)@
                == old(self)@.skip(n as int + 1),
            (n as int) >= old(self)@.len() ==> r is None && final(self)@.len() == 0,
    {
        let rem = self.back - self.front;
        if n < rem {
            let v = self.boxed.get(self.front + n);
            self.front = self.front + n + 1;
            proof {
                assert(self@ =~= old(self)@.skip(n as int + 1));
            }
            Some(v)
        } else {
            self.front = self.back;
            None
        }
    }

    /// Consumes the iterator and yields its final bit: exactly one backward
    /// step.
    pub fn last(self) -> (r: Option<bool>)
        requires
            self.wf(),
        ensures
            self@.len() == 0 ==> r is None,
            self@.len() > 0 ==> r == Some(self@.last()),
    {
        let mut it = self;
        it.next_back()
    }
}

impl<O: BitOrder, T: BitStore> BitBox<O, T> {
    /// Consumes the container by value into an iteration engine over its
    /// full logical range.
    pub fn into_iter(self) -> (it: IntoIter<O, T>)
        requires
            self.wf(),
        ensures
            it.wf(),
            it@ == self@,
    {
        let back = self.len();
        let it = IntoIter { boxed: self, front: 0, back };
        proof {
            assert(it@ =~= it.boxed@);
        }
        it
    }
}

/// The bits still ahead of an iterator whose front end has consumed `k`
/// bits of `s`: each successful call of `next` drops the first remaining
/// bit.
pub open spec fn dropped(s: Seq<bool>, k: int) -> Seq<bool>
    decreases k,
{
    if k <= 0 {
        s
    } else {
        dropped(s.drop_first(), k - 1)
    }
}

/// Iterator exactness: starting from bits `s`, after `k` calls of `next`
/// the remaining bits are `s.skip(k)`, so the `k + 1`-th call yields
/// `s[k]` — the original bits come out in their original order. At
/// `k == s.len()` the remaining sequence is empty, and `next`'s contract
/// then yields the end marker, unchanged, forever.
pub proof fn lemma_iterator_exactness(s: Seq<bool>, k: int)
    requires
        0 <= k <= s.len(),
    ensures
        dropped(s, k) == s.skip(k),
        k < s.len() ==> dropped(s, k)[0] == s[k],
    decreases k,
{
    if k <= 0 {
        assert(s.skip(0) =~= s);
    } else {
        lemma_iterator_exactness(s.drop_first(), k - 1);
        assert(s.drop_first().skip(k - 1) =~= s.skip(k));
    }
}

/// `nth` equivalence: `nth(k)` on a fresh iterator yields the value the
/// `k + 1`-th call of `next` would — `dropped(s, k)[0]`, the front bit
/// after `k` front takes — and leaves the same remaining bits behind as
/// those `k + 1` calls.
pub proof fn lemma_nth_equivalence(s: Seq<bool>, k: int)
    requires
        0 <= k < s.len(),
    ensures
        dropped(s, k)[0] == s[k],
        dropped(s, k + 1) == s.skip(k + 1),
{
    lemma_iterator_exactness(s, k);
    lemma_iterator_exactness(s, k + 1);
}

/// Double-ended consumption without duplication: while bits remain, a
/// front take removes exactly the first bit and a back take exactly the
/// last — the value yielded plus the bits kept reassemble the remaining
/// sequence. So any interleaving of `next` and `next_back` partitions the
/// original bits: none is lost, none yielded twice, and once the cursors
/// meet both ends yield only the end marker.
pub proof fn lemma_double_ended_split(s: Seq<bool>)
    requires
        s.len() > 0,
    ensures
        seq![s[0]] + s.drop_first() == s,
        s.drop_last() + seq![s.last()] == s,
{
    assert(seq![s[0]] + s.drop_first() =~= s);
    assert(s.drop_last() + seq![s.last()] =~= s);
}

} // verus!
