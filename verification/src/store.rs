//! Storage elements: fixed-width cells that back a packed container, with
//! single-bit reads and writes at physical positions.

use vstd::prelude::*;

verus! {

/// The element widths the library supports.
pub open spec fn valid_width(w: nat) -> bool {
    w == 8 || w == 16 || w == 32 || w == 64
}

/// How a stored element is reached when one of its bits is written.
///
/// `Plain` is the store for an element no one else can observe. `Aliased`
/// marks an element that other handles may also reach: its writes go through
/// the masked read-modify-write variant, the shape an atomic update takes.
#[derive(Clone, Copy, PartialEq, Eq, Structural)]
pub enum AccessMode {
    Plain,
    Aliased,
}

/// A fixed-width storage element.
///
/// An element is the smallest unit the backing memory can address and write
/// in one store operation; single bits are read and written at physical
/// positions inside it. `set` builds the written value directly; `set_aliased`
/// goes through a masked read-modify-write, the shape an atomic update of a
/// shared element takes. Under the exclusive ownership this library verifies
/// the two have the same contract.
pub trait BitStore: Sized + Copy {
    /// The number of bit positions in one element.
    spec fn spec_width() -> nat;

    /// The value of the bit at physical position `pos`.
    spec fn spec_bit(self, pos: nat) -> bool;

    /// The width is one of the supported element widths.
    proof fn lemma_width_valid()
        ensures
            valid_width(Self::spec_width()),
    ;

    /// The element width, in bits.
    fn width() -> (w: usize)
        ensures
            w as nat == Self::spec_width(),
    ;

    /// Reads the bit at physical position `pos`.
    fn get(self, pos: usize) -> (b: bool)
        requires
            (pos as nat) < Self::spec_width(),
        ensures
            b == self.spec_bit(pos as nat),
    ;

    /// Plain store: returns the element with the bit at `pos` set to `value`
    /// and every other bit unchanged.
    fn set(self, pos: usize, value: bool) -> (r: Self)
        requires
            (pos as nat) < Self::spec_width(),
        ensures
            r.spec_bit(pos as nat) == value,
            forall|q: nat|
                q < Self::spec_width() && q != pos as nat ==> r.spec_bit(q) == self.spec_bit(q),
    ;

    /// Aliased store: the same result as `set`, computed as a masked
    /// read-modify-write of the whole element.
    fn set_aliased(self, pos: usize, value: bool) -> (r: Self)
        requires
            (pos as nat) < Self::spec_width(),
        ensures
            r.spec_bit(pos as nat) == value,
            forall|q: nat|
                q < Self::spec_width() && q != pos as nat ==> r.spec_bit(q) == self.spec_bit(q),
    ;
}

proof fn lemma_set_bit_u8(x: u8, p: u8)
    by (bit_vector)
    requires
        p < 8,
    ensures
        ((x | (1u8 << p)) >> p) & 1 == 1,
        ((x & !(1u8 << p)) >> p) & 1 == 0,
        forall|q: u8|
            q < 8 && q != p ==> #[trigger] (((x | (1u8 << p)) >> q) & 1) == ((x >> q) & 1),
        forall|q: u8|
            q < 8 && q != p ==> #[trigger] (((x & !(1u8 << p)) >> q) & 1) == ((x >> q) & 1),
        ((x & !(1u8 << p)) | (1u8 << p)) == x | (1u8 << p),
{
}

impl BitStore for u8 {
    open spec fn spec_width() -> nat {
        8
    }

    open spec fn spec_bit(self, pos: nat) -> bool {
        (self >> (pos as u8)) & 1u8 == 1u8
    }

    proof fn lemma_width_valid() {
    }

    fn width() -> (w: usize) {
        8
    }

    fn get(self, pos: usize) -> (b: bool) {
        let p: u8 = pos as u8;
        ((self >> p) & 1u8) == 1u8
    }

    fn set(self, pos: usize, value: bool) -> (r: Self) {
        let mask: u8 = 1u8 << pos;
        let r: u8 = if value {
            self | mask
        } else {
            self & !mask
        };
        proof {
            lemma_set_bit_u8(self, pos as u8);
            assert forall|q: nat| q < 8 && q != pos as nat implies r.spec_bit(q) == self.spec_bit(
                q,
            ) by {
                let qq: u8 = q as u8;
                assert(qq < 8 && qq != pos as u8);
                assert(((r >> qq) & 1) == ((self >> qq) & 1));
            }
        }
        r
    }

    fn set_aliased(self, pos: usize, value: bool) -> (r: Self) {
        let mask: u8 = 1u8 << pos;
        let cleared: u8 = self & !mask;
        let r: u8 = if value {
            cleared | mask
        } else {
            cleared
        };
        proof {
            lemma_set_bit_u8(self, pos as u8);
            assert forall|q: nat| q < 8 && q != pos as nat implies r.spec_bit(q) == self.spec_bit(
                q,
            ) by {
                let qq: u8 = q as u8;
                assert(qq < 8 && qq != pos as u8);
                assert(((r >> qq) & 1) == ((self >> qq) & 1));
            }
        }
        r
    }
}

proof fn lemma_set_bit_u16(x: u16, p: u16)
    by (bit_vector)
    requires
        p < 16,
    ensures
        ((x | (1u16 << p)) >> p) & 1 == 1,
        ((x & !(1u16 << p)) >> p) & 1 == 0,
        forall|q: u16|
            q < 16 && q != p ==> #[trigger] (((x | (1u16 << p)) >> q) & 1) == ((x >> q) & 1),
        forall|q: u16|
            q < 16 && q != p ==> #[trigger] (((x & !(1u16 << p)) >> q) & 1) == ((x >> q) & 1),
        ((x & !(1u16 << p)) | (1u16 << p)) == x | (1u16 << p),
{
}

impl BitStore for u16 {
    open spec fn spec_width() -> nat {
        16
    }

    open spec fn spec_bit(self, pos: nat) -> bool {
        (self >> (pos as u16)) & 1u16 == 1u16
    }

    proof fn lemma_width_valid() {
    }

    fn width() -> (w: usize) {
        16
    }

    fn get(self, pos: usize) -> (b: bool) {
        let p: u16 = pos as u16;
        ((self >> p) & 1u16) == 1u16
    }

    fn set(self, pos: usize, value: bool) -> (r: Self) {
        let mask: u16 = 1u16 << pos;
        let r: u16 = if value {
            self | mask
        } else {
            self & !mask
        };
        proof {
            lemma_set_bit_u16(self, pos as u16);
            assert forall|q: nat| q < 16 && q != pos as nat implies r.spec_bit(q) == self.spec_bit(
                q,
            ) by {
                let qq: u16 = q as u16;
                assert(qq < 16 && qq != pos as u16);
                assert(((r >> qq) & 1) == ((self >> qq) & 1));
            }
        }
        r
    }

    fn set_aliased(self, pos: usize, value: bool) -> (r: Self) {
        let mask: u16 = 1u16 << pos;
        let cleared: u16 = self & !mask;
        let r: u16 = if value {
            cleared | mask
        } else {
            cleared
        };
        proof {
            lemma_set_bit_u16(self, pos as u16);
            assert forall|q: nat| q < 16 && q != pos as nat implies r.spec_bit(q) == self.spec_bit(
                q,
            ) by {
                let qq: u16 = q as u16;
                assert(qq < 16 && qq != pos as u16);
                assert(((r >> qq) & 1) == ((self >> qq) & 1));
            }
        }
        r
    }
}

proof fn lemma_set_bit_u32(x: u32, p: u32)
    by (bit_vector)
    requires
        p < 32,
    ensures
        ((x | (1u32 << p)) >> p) & 1 == 1,
        ((x & !(1u32 << p)) >> p) & 1 == 0,
        forall|q: u32|
            q < 32 && q != p ==> #[trigger] (((x | (1u32 << p)) >> q) & 1) == ((x >> q) & 1),
        forall|q: u32|
            q < 32 && q != p ==> #[trigger] (((x & !(1u32 << p)) >> q) & 1) == ((x >> q) & 1),
        ((x & !(1u32 << p)) | (1u32 << p)) == x | (1u32 << p),
{
}

impl BitStore for u32 {
    open spec fn spec_width() -> nat {
        32
    }

    open spec fn spec_bit(self, pos: nat) -> bool {
        (self >> (pos as u32)) & 1u32 == 1u32
    }

    proof fn lemma_width_valid() {
    }

    fn width() -> (w: usize) {
        32
    }

    fn get(self, pos: usize) -> (b: bool) {
        let p: u32 = pos as u32;
        ((self >> p) & 1u32) == 1u32
    }

    fn set(self, pos: usize, value: bool) -> (r: Self) {
        let mask: u32 = 1u32 << pos;
        let r: u32 = if value {
            self | mask
        } else {
            self & !mask
        };
        proof {
            lemma_set_bit_u32(self, pos as u32);
            assert forall|q: nat| q < 32 && q != pos as nat implies r.spec_bit(q) == self.spec_bit(
                q,
            ) by {
                let qq: u32 = q as u32;
                assert(qq < 32 && qq != pos as u32);
                assert(((r >> qq) & 1) == ((self >> qq) & 1));
            }
        }
        r
    }

    fn set_aliased(self, pos: usize, value: bool) -> (r: Self) {
        let mask: u32 = 1u32 << pos;
        let cleared: u32 = self & !mask;
        let r: u32 = if value {
            cleared | mask
        } else {
            cleared
        };
        proof {
            lemma_set_bit_u32(self, pos as u32);
            assert forall|q: nat| q < 32 && q != pos as nat implies r.spec_bit(q) == self.spec_bit(
                q,
            ) by {
                let qq: u32 = q as u32;
                assert(qq < 32 && qq != pos as u32);
                assert(((r >> qq) & 1) == ((self >> qq) & 1));
            }
        }
        r
    }
}

proof fn lemma_set_bit_u64(x: u64, p: u64)
    by (bit_vector)
    requires
        p < 64,
    ensures
        ((x | (1u64 << p)) >> p) & 1 == 1,
        ((x & !(1u64 << p)) >> p) & 1 == 0,
        forall|q: u64|
            q < 64 && q != p ==> #[trigger] (((x | (1u64 << p)) >> q) & 1) == ((x >> q) & 1),
        forall|q: u64|
            q < 64 && q != p ==> #[trigger] (((x & !(1u64 << p)) >> q) & 1) == ((x >> q) & 1),
        ((x & !(1u64 << p)) | (1u64 << p)) == x | (1u64 << p),
{
}

impl BitStore for u64 {
    open spec fn spec_width() -> nat {
        64
    }

    open spec fn spec_bit(self, pos: nat) -> bool {
        (self >> (pos as u64)) & 1u64 == 1u64
    }

    proof fn lemma_width_valid() {
    }

    fn width() -> (w: usize) {
        64
    }

    fn get(self, pos: usize) -> (b: bool) {
        let p: u64 = pos as u64;
        ((self >> p) & 1u64) == 1u64
    }

    fn set(self, pos: usize, value: bool) -> (r: Self) {
        let mask: u64 = 1u64 << pos;
        let r: u64 = if value {
            self | mask
        } else {
            self & !mask
        };
        proof {
            lemma_set_bit_u64(self, pos as u64);
            assert forall|q: nat| q < 64 && q != pos as nat implies r.spec_bit(q) == self.spec_bit(
                q,
            ) by {
                let qq: u64 = q as u64;
                assert(qq < 64 && qq != pos as u64);
                assert(((r >> qq) & 1) == ((self >> qq) & 1));
            }
        }
        r
    }

    fn set_aliased(self, pos: usize, value: bool) -> (r: Self) {
        let mask: u64 = 1u64 << pos;
        let cleared: u64 = self & !mask;
        let r: u64 = if value {
            cleared | mask
        } else {
            cleared
        };
        proof {
            lemma_set_bit_u64(self, pos as u64);
            assert forall|q: nat| q < 64 && q != pos as nat implies r.spec_bit(q) == self.spec_bit(
                q,
            ) by {
                let qq: u64 = q as u64;
                assert(qq < 64 && qq != pos as u64);
                assert(((r >> qq) & 1) == ((self >> qq) & 1));
            }
        }
        r
    }
}

} // verus!
