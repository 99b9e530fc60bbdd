//! The packed container: a buffer of fixed-width elements owning a logical
//! sequence of bits.

use crate::order::BitOrder;
use crate::store::{AccessMode, BitStore};
use core::marker::PhantomData;
use vstd::arithmetic::div_mod::{
    lemma_fundamental_div_mod, lemma_mod_division_less_than_divisor, lemma_multiply_divide_lt,
};
use vstd::prelude::*;

verus! {

/// The value of logical bit `i` over the element buffer `buf`: the bit lives
/// in element `i / width`, at the physical position the policy resolves from
/// the in-element offset `i % width`.
pub open spec fn bit_of<O: BitOrder, T: BitStore>(buf: Seq<T>, i: nat) -> bool {
    let w = T::spec_width();
    buf[(i / w) as int].spec_bit(O::spec_at(i % w, w))
}

/// A packed boolean container: a contiguous buffer of elements together with
/// a logical bit length, addressed through the ordering policy `O`.
///
/// Its view is the logical sequence of bits; the length invariant keeps every
/// logical index inside the buffer.
pub struct BitBox<O: BitOrder, T: BitStore> {
    buf: Vec<T>,
    len: usize,
    order: PhantomData<O>,
}

impl<O: BitOrder, T: BitStore> View for BitBox<O, T> {
    type V = Seq<bool>;

    closed spec fn view(&self) -> Seq<bool> {
        Seq::new(self.len as nat, |i: int| bit_of::<O, T>(self.buf@, i as nat))
    }
}

impl<O: BitOrder, T: BitStore> BitBox<O, T> {
    /// The logical length lies within the total addressable bits of the
    /// buffer.
    pub closed spec fn wf(self) -> bool {
        self.len as nat <= self.buf@.len() * T::spec_width()
    }

    /// The elements backing the container.
    pub closed spec fn spec_buf(self) -> Seq<T> {
        self.buf@
    }

    /// Builds a container over `buf`, exposing its first `len` bits.
    pub fn from_vec(buf: Vec<T>, len: usize) -> (r: Self)
        requires
            len as nat <= buf@.len() * T::spec_width(),
        ensures
            r.wf(),
            r.spec_buf() == buf@,
            r@ == Seq::new(len as nat, |i: int| bit_of::<O, T>(buf@, i as nat)),
    {
        BitBox { buf, len, order: PhantomData }
    }

    /// A well-formed container's logical length lies within the total
    /// addressable bits of its buffer.
    pub proof fn lemma_wf_len(self)
        requires
            self.wf(),
        ensures
            self@.len() <= self.spec_buf().len() * T::spec_width(),
    {
    }

    /// The logical length always fits the machine word that stores it.
    pub proof fn lemma_len_fits(self)
        ensures
            self@.len() <= usize::MAX,
    {
    }

    /// The number of logical bits.
    pub fn len(&self) -> (n: usize)
        ensures
            n == self@.len(),
    {
        self.len
    }

    /// Reads the bit at logical index `i`.
    pub fn get(&self, i: usize) -> (b: bool)
        requires
            self.wf(),
            i < self@.len(),
        ensures
            b == self@[i as int],
    {
        let w = T::width();
        proof {
            T::lemma_width_valid();
            lemma_multiply_divide_lt(i as int, w as int, self.buf@.len() as int);
            lemma_mod_division_less_than_divisor(i as int, w as int);
            O::lemma_at_in_range((i as nat) % (w as nat), w as nat);
        }
        let e = i / w;
        let off = i % w;
        let pos = O::at(off, w);
        self.buf[e].get(pos)
    }

    /// Writes the bit at logical index `i` through the access mode `mode`:
    /// the bit becomes `value`, every other bit keeps its value.
    pub fn set_in(&mut self, i: usize, value: bool, mode: AccessMode)
        requires
            old(self).wf(),
            i < old(self)@.len(),
        ensures
            final(self).wf(),
            final(self)@ == old(self)@.update(i as int, value),
    {
        let w = T::width();
        proof {
            T::lemma_width_valid();
            lemma_multiply_divide_lt(i as int, w as int, self.buf@.len() as int);
            lemma_mod_division_less_than_divisor(i as int, w as int);
            O::lemma_at_in_range((i as nat) % (w as nat), w as nat);
        }
        let e = i / w;
        let off = i % w;
        let pos = O::at(off, w);
        let elem = self.buf[e];
        let newelem = match mode {
            AccessMode::Plain => elem.set(pos, value),
            AccessMode::Aliased => elem.set_aliased(pos, value),
        };
        self.buf.set(e, newelem);
        proof {
            let wn = T::spec_width();
            let en = (i as nat) / wn;
            let offn = (i as nat) % wn;
            assert forall|j: int| 0 <= j < self@.len() implies self@[j] == (if j == i as int {
                value
            } else {
                old(self)@[j]
            }) by {
                let jn = j as nat;
                let ej = jn / wn;
                let oj = jn % wn;
                lemma_multiply_divide_lt(j, wn as int, old(self).buf@.len() as int);
                lemma_mod_division_less_than_divisor(j, wn as int);
                O::lemma_at_in_range(oj, wn);
                if ej == en {
                    if jn != i as nat {
                        lemma_fundamental_div_mod(j, wn as int);
                        lemma_fundamental_div_mod(i as int, wn as int);
                        assert(oj != offn);
                        if O::spec_at(oj, wn) == O::spec_at(offn, wn) {
                            O::lemma_at_injective(oj, offn, wn);
                            assert(false);
                        }
                    }
                }
            }
            assert(self@ =~= old(self)@.update(i as int, value));
        }
    }

    /// Writes the bit at logical index `i` through a plain store.
    pub fn set(&mut self, i: usize, value: bool)
        requires
            old(self).wf(),
            i < old(self)@.len(),
        ensures
            final(self).wf(),
            final(self)@ == old(self)@.update(i as int, value),
    {
        self.set_in(i, value, AccessMode::Plain);
    }
}

} // verus!
