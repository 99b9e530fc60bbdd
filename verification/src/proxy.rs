//! The bit-mutation proxy: a commit-on-release write handle standing in for
//! a mutable reference to one bit, which cannot exist because the smallest
//! unit the backing memory writes in one operation is a whole element.

use crate::boxed::BitBox;
use crate::order::BitOrder;
use crate::store::{valid_width, AccessMode, BitStore};
use vstd::arithmetic::div_mod::{
    lemma_fundamental_div_mod, lemma_mod_division_less_than_divisor, lemma_multiply_divide_lt,
};
use vstd::prelude::*;

verus! {

/// A validated bit address: an in-element index bounded by the element
/// width, enforced at construction and never mutated afterward.
#[derive(Clone, Copy)]
pub struct BitIdx {
    index: usize,
    width: usize,
}

impl BitIdx {
    /// The in-element index.
    pub closed spec fn spec_index(self) -> nat {
        self.index as nat
    }

    /// The element width the index is bounded by.
    pub closed spec fn spec_width(self) -> nat {
        self.width as nat
    }

    /// The width is supported and the index lies below it.
    pub closed spec fn wf(self) -> bool {
        valid_width(self.width as nat) && self.index < self.width
    }

    /// Builds a bit address. An out-of-range index is a caller error, ruled
    /// out by precondition rather than reported.
    pub fn new(index: usize, width: usize) -> (r: Self)
        requires
            valid_width(width as nat),
            index < width,
        ensures
            r.wf(),
            r.spec_index() == index as nat,
            r.spec_width() == width as nat,
    {
        BitIdx { index, width }
    }

    /// The in-element index.
    pub fn index(self) -> (i: usize)
        ensures
            i as nat == self.spec_index(),
    {
        self.index
    }

    /// The element width the index is bounded by.
    pub fn width(self) -> (w: usize)
        ensures
            w as nat == self.spec_width(),
    {
        self.width
    }
}

/// A non-owning descriptor of a contiguous bit range within a container:
/// start element, start bit offset, and bit length.
#[derive(Clone, Copy)]
pub struct BitView {
    start_elem: usize,
    start_off: usize,
    len: usize,
}

impl BitView {
    /// The absolute logical index of the first bit of the range, over
    /// elements of `w` bits.
    pub closed spec fn spec_start(self, w: nat) -> nat {
        (self.start_elem * w + self.start_off) as nat
    }

    /// The number of bits in the range.
    pub closed spec fn spec_len(self) -> nat {
        self.len as nat
    }

    /// The range lies entirely within the bounds of the container `b`.
    pub closed spec fn wf_for<O: BitOrder, T: BitStore>(self, b: &BitBox<O, T>) -> bool {
        &&& self.start_off < T::spec_width()
        &&& self.spec_start(T::spec_width()) + self.len as nat <= b@.len()
    }

    /// Builds a descriptor of `len` bits starting at bit `start_off` of
    /// element `start_elem` of the container `b`. A range outside the
    /// container's bounds is a caller error, ruled out by precondition
    /// rather than reported.
    pub fn new<O: BitOrder, T: BitStore>(
        start_elem: usize,
        start_off: usize,
        len: usize,
        b: &BitBox<O, T>,
    ) -> (v: Self)
        requires
            b.wf(),
            start_off < T::spec_width(),
            start_elem * T::spec_width() + start_off + len <= b@.len(),
        ensures
            v.wf_for(b),
            v.spec_start(T::spec_width()) == start_elem * T::spec_width() + start_off,
            v.spec_len() == len,
    {
        BitView { start_elem, start_off, len }
    }

    /// The bit length of the range.
    pub fn len(&self) -> (n: usize)
        ensures
            n as nat == self.spec_len(),
    {
        self.len
    }
}

/// A proxy standing in for `&mut bool` over one logical bit.
///
/// On acquisition the proxy takes ownership of the container and caches the
/// bit's current value; read- and write-access touch only the cache. Release
/// consumes the proxy, commits the cache into the original physical position
/// through the access mode fixed at acquisition, and hands the container
/// back. Ownership makes the proxy affine: no second live proxy can reach
/// the same container, and the commit happens exactly once.
pub struct BitMut<O: BitOrder, T: BitStore> {
    /// The owned container the handle reaches into.
    boxed: BitBox<O, T>,
    /// The element holding the proxied bit.
    elem: usize,
    /// The address of the proxied bit inside that element.
    head: BitIdx,
    /// The access mode established at construction.
    mode: AccessMode,
    /// The cache: the only thing read- and write-access observe.
    data: bool,
}

impl<O: BitOrder, T: BitStore> BitMut<O, T> {
    /// The logical bits of the owned container as they stood at
    /// acquisition; the cache is not yet applied to them.
    pub closed spec fn bits(self) -> Seq<bool> {
        self.boxed@
    }

    /// The logical index of the proxied bit.
    pub closed spec fn spec_pos(self) -> nat {
        (self.elem * T::spec_width() + self.head.spec_index()) as nat
    }

    /// The cached value.
    pub closed spec fn spec_cache(self) -> bool {
        self.data
    }

    /// The access mode established at acquisition.
    pub closed spec fn spec_mode(self) -> AccessMode {
        self.mode
    }

    /// The container is well formed and the proxied bit lies inside it.
    pub closed spec fn wf(self) -> bool {
        &&& self.boxed.wf()
        &&& self.head.wf()
        &&& self.head.spec_width() == T::spec_width()
        &&& self.spec_pos() < self.boxed@.len()
    }

    /// Acquires a proxy for bit `k` of the range `view` over `boxed`,
    /// taking ownership of the container. The bit's current value is read
    /// once, through the ordering-resolved physical position, and cached;
    /// this is the only read of backing storage the proxy ever performs.
    pub fn acquire(boxed: BitBox<O, T>, view: BitView, k: usize, mode: AccessMode) -> (m: Self)
        requires
            boxed.wf(),
            view.wf_for(&boxed),
            k < view.spec_len(),
        ensures
            m.wf(),
            m.bits() == boxed@,
            m.spec_pos() == view.spec_start(T::spec_width()) + k,
            m.spec_cache() == boxed@[view.spec_start(T::spec_width()) as int + k],
            m.spec_mode() == mode,
    {
        let w = T::width();
        proof {
            T::lemma_width_valid();
            boxed.lemma_len_fits();
            assert(view.start_elem as nat * (w as nat) <= boxed@.len());
        }
        let i = view.start_elem * w + view.start_off + k;
        proof {
            boxed.lemma_wf_len();
            assert((i as nat) < boxed@.len());
            assert((i as int) < (w as int) * (boxed.spec_buf().len() as int)) by (nonlinear_arith)
                requires
                    (i as int) < (boxed.spec_buf().len() as int) * (w as int),
            ;
            lemma_multiply_divide_lt(i as int, w as int, boxed.spec_buf().len() as int);
            lemma_mod_division_less_than_divisor(i as int, w as int);
            lemma_fundamental_div_mod(i as int, w as int);
        }
        let e = i / w;
        let off = i % w;
        proof {
            assert((e as int) * (w as int) == (w as int) * (e as int)) by (nonlinear_arith);
            assert((e as int) * (w as int) + (off as int) == i as int);
        }
        let head = BitIdx::new(off, w);
        let data = boxed.get(i);
        BitMut { boxed, elem: e, head, mode, data }
    }

    /// Read-access: the cached value; no side effect.
    pub fn deref(&self) -> (b: bool)
        ensures
            b == self.spec_cache(),
    {
        self.data
    }

    /// Write-access: overwrites the cache; backing storage is untouched
    /// until release.
    pub fn write(&mut self, value: bool)
        ensures
            final(self).spec_cache() == value,
            final(self).bits() == old(self).bits(),
            final(self).spec_pos() == old(self).spec_pos(),
            final(self).spec_mode() == old(self).spec_mode(),
            old(self).wf() ==> final(self).wf(),
    {
        self.data = value;
    }

    /// Release: commits the cache into the proxied bit's physical position
    /// through the access mode established at acquisition, and hands the
    /// container back. The commit is unconditional — a cache that was never
    /// written is stored back unchanged — so correctness never depends on
    /// tracking whether a write happened. Consuming `self` makes the commit
    /// happen exactly once per proxy.
    pub fn release(self) -> (r: BitBox<O, T>)
        requires
            self.wf(),
        ensures
            r.wf(),
            r@ == self.bits().update(self.spec_pos() as int, self.spec_cache()),
    {
        let w = T::width();
        proof {
            T::lemma_width_valid();
            self.boxed.lemma_len_fits();
            assert(self.elem as nat * (w as nat) <= self.spec_pos());
        }
        let i = self.elem * w + self.head.index();
        let BitMut { boxed, elem: _, head: _, mode, data } = self;
        let mut boxed = boxed;
        boxed.set_in(i, data, mode);
        boxed
    }
}

impl<O: BitOrder, T: BitStore> BitBox<O, T> {
    /// A view over the container's full logical range, without transferring
    /// ownership.
    pub fn as_view(&self) -> (v: BitView)
        requires
            self.wf(),
        ensures
            v.wf_for(self),
            v.spec_start(T::spec_width()) == 0,
            v.spec_len() == self@.len(),
    {
        proof {
            T::lemma_width_valid();
        }
        BitView { start_elem: 0, start_off: 0, len: self.len() }
    }

    /// Consumes the container into a proxy for bit `i` of its full range,
    /// with plain access.
    pub fn get_mut(self, i: usize) -> (m: BitMut<O, T>)
        requires
            self.wf(),
            i < self@.len(),
        ensures
            m.wf(),
            m.bits() == self@,
            m.spec_pos() == i as nat,
            m.spec_cache() == self@[i as int],
            m.spec_mode() == AccessMode::Plain,
    {
        let v = self.as_view();
        BitMut::acquire(self, v, i, AccessMode::Plain)
    }
}

/// Round-trip: for every well-formed proxy — any ordering policy, any
/// element width, any in-range position — and every value `v`, committing
/// `v` and then reading the proxied position yields `v`.
///
/// The contracts of `write` and `release` pin the committed container's
/// bits to `bits().update(pos, v)`; this law says that bit `pos` of that
/// sequence is `v`.
pub proof fn lemma_round_trip<O: BitOrder, T: BitStore>(m: BitMut<O, T>, v: bool)
    requires
        m.wf(),
    ensures
        m.bits().update(m.spec_pos() as int, v)[m.spec_pos() as int] == v,
{
}

/// No-write is a no-op: a proxy acquired and released with its cache never
/// written commits the value cached at acquisition, so the container's bits
/// come back unchanged, whatever the initial state of the bit was.
///
/// The premise is exactly what `acquire` ensures of the cache; the
/// conclusion says the sequence `release` ensures equals the one acquired.
pub proof fn lemma_unwritten_release_is_noop<O: BitOrder, T: BitStore>(m: BitMut<O, T>)
    requires
        m.wf(),
        m.spec_cache() == m.bits()[m.spec_pos() as int],
    ensures
        m.bits().update(m.spec_pos() as int, m.spec_cache()) == m.bits(),
{
    assert(m.bits().update(m.spec_pos() as int, m.spec_cache()) =~= m.bits());
}

} // verus!
