use bitvec::boxed::BitBox;
use bitvec::order::{BitOrder, Lsb0, Msb0};
use bitvec::proxy::{BitMut, BitView};
use bitvec::store::AccessMode;

#[test]
fn proxy_round_trip_lsb0_every_position() {
    for i in 0..16usize {
        for &v in &[false, true] {
            let b: BitBox<Lsb0, u8> = BitBox::from_vec(vec![0b1010_1010u8, 0b0101_0101u8], 16);
            let mut m = b.get_mut(i);
            m.write(v);
            let b = m.release();
            assert_eq!(b.get(i), v);
        }
    }
}

#[test]
fn proxy_round_trip_msb0_every_position() {
    for i in 0..16usize {
        for &v in &[false, true] {
            let b: BitBox<Msb0, u8> = BitBox::from_vec(vec![0b1010_1010u8, 0b0101_0101u8], 16);
            let mut m = b.get_mut(i);
            m.write(v);
            let b = m.release();
            assert_eq!(b.get(i), v);
        }
    }
}

#[test]
fn proxy_round_trip_wide_elements() {
    let b: BitBox<Lsb0, u16> = BitBox::from_vec(vec![0u16], 16);
    let mut m = b.get_mut(13);
    m.write(true);
    let b = m.release();
    assert_eq!(b.get(13), true);

    let b: BitBox<Lsb0, u32> = BitBox::from_vec(vec![0u32], 32);
    let mut m = b.get_mut(31);
    m.write(true);
    let b = m.release();
    assert_eq!(b.get(31), true);

    let b: BitBox<Msb0, u64> = BitBox::from_vec(vec![0u64], 64);
    let mut m = b.get_mut(63);
    m.write(true);
    let b = m.release();
    assert_eq!(b.get(63), true);
}

#[test]
fn proxy_write_leaves_other_bits_alone() {
    let b: BitBox<Lsb0, u8> = BitBox::from_vec(vec![0b1100_0011u8], 8);
    let before: Vec<bool> = (0..8).map(|i| b.get(i)).collect();
    let mut m = b.get_mut(4);
    m.write(true);
    let b = m.release();
    for i in 0..8usize {
        let expect = if i == 4 { true } else { before[i] };
        assert_eq!(b.get(i), expect);
    }
}

#[test]
fn unwritten_release_is_noop_both_initial_states() {
    for &(elem, i) in &[(0u8, 3usize), (0xffu8, 3usize), (0b0000_1000u8, 3usize)] {
        let b: BitBox<Lsb0, u8> = BitBox::from_vec(vec![elem], 8);
        let before: Vec<bool> = (0..8).map(|k| b.get(k)).collect();
        let m = b.get_mut(i);
        assert_eq!(m.deref(), before[i]);
        let b = m.release();
        let after: Vec<bool> = (0..8).map(|k| b.get(k)).collect();
        assert_eq!(before, after);
    }
}

#[test]
fn deref_reads_cache_not_storage() {
    let b: BitBox<Lsb0, u8> = BitBox::from_vec(vec![0u8], 8);
    let mut m = b.get_mut(2);
    assert_eq!(m.deref(), false);
    m.write(true);
    assert_eq!(m.deref(), true);
    m.write(false);
    assert_eq!(m.deref(), false);
    let b = m.release();
    assert_eq!(b.get(2), false);
}

#[test]
fn acquire_through_view_and_aliased_mode() {
    let b: BitBox<Lsb0, u8> = BitBox::from_vec(vec![0u8, 0u8], 16);
    let view = b.as_view();
    assert_eq!(view.len(), 16);
    let mut m = BitMut::acquire(b, view, 9, AccessMode::Aliased);
    assert_eq!(m.deref(), false);
    m.write(true);
    let b = m.release();
    for i in 0..16usize {
        assert_eq!(b.get(i), i == 9);
    }
}

#[test]
fn sub_range_view_addresses_relative_bits() {
    // A view of 4 bits starting at bit 2 of element 1: bit 1 of the view is
    // logical bit 11 of the container.
    let b: BitBox<Lsb0, u8> = BitBox::from_vec(vec![0u8, 0u8], 16);
    let view = BitView::new(1, 2, 4, &b);
    assert_eq!(view.len(), 4);
    let mut m = BitMut::acquire(b, view, 1, AccessMode::Plain);
    m.write(true);
    let b = m.release();
    for i in 0..16usize {
        assert_eq!(b.get(i), i == 11);
    }
}

#[test]
fn set_in_aliased_matches_plain() {
    let mut a: BitBox<Lsb0, u8> = BitBox::from_vec(vec![0b1001_0110u8], 8);
    let mut b: BitBox<Lsb0, u8> = BitBox::from_vec(vec![0b1001_0110u8], 8);
    for i in 0..8usize {
        a.set(i, i % 3 == 0);
        b.set_in(i, i % 3 == 0, AccessMode::Aliased);
    }
    for i in 0..8usize {
        assert_eq!(a.get(i), b.get(i));
    }
}

#[test]
fn container_set_then_get() {
    let mut b: BitBox<Msb0, u32> = BitBox::from_vec(vec![0u32, 0u32], 50);
    b.set(0, true);
    b.set(31, true);
    b.set(32, true);
    b.set(49, true);
    for i in 0..50usize {
        let expect = i == 0 || i == 31 || i == 32 || i == 49;
        assert_eq!(b.get(i), expect);
    }
    assert_eq!(b.len(), 50);
}
