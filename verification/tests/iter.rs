use bitvec::boxed::BitBox;
use bitvec::order::{Lsb0, Msb0};

fn sample() -> BitBox<Lsb0, u8> {
    // 0b0110_1001 read least-significant first: t f f t f t t f
    BitBox::from_vec(vec![0b0110_1001u8], 8)
}

fn sample_bits() -> Vec<bool> {
    vec![true, false, false, true, false, true, true, false]
}

#[test]
fn three_bit_scenario_one_element() {
    // Three bits [true, false, true] in a single 8-bit element under the
    // least-significant-first policy.
    let b: BitBox<Lsb0, u8> = BitBox::from_vec(vec![0b101u8], 3);
    let mut it = b.into_iter();
    assert_eq!(it.next(), Some(true));
    assert_eq!(it.next_back(), Some(true));
    assert_eq!(it.len(), 1);
    assert_eq!(it.next(), Some(false));
    assert_eq!(it.len(), 0);
    assert_eq!(it.next(), None);
    assert_eq!(it.next_back(), None);
}

#[test]
fn forward_iteration_is_exact() {
    let mut it = sample().into_iter();
    let expected = sample_bits();
    for (k, &v) in expected.iter().enumerate() {
        assert_eq!(it.len(), expected.len() - k);
        assert_eq!(it.next(), Some(v));
    }
    assert_eq!(it.len(), 0);
    assert_eq!(it.next(), None);
    assert_eq!(it.next(), None);
    assert_eq!(it.len(), 0);
}

#[test]
fn backward_iteration_is_exact() {
    let mut it = sample().into_iter();
    let expected = sample_bits();
    for (k, &v) in expected.iter().enumerate().rev() {
        assert_eq!(it.next_back(), Some(v));
        assert_eq!(it.len(), k);
    }
    assert_eq!(it.next_back(), None);
    assert_eq!(it.next(), None);
}

#[test]
fn interleaved_ends_exhaust_without_duplication() {
    let expected = sample_bits();
    let mut it = sample().into_iter();
    let mut front = Vec::new();
    let mut back = Vec::new();
    let mut take_front = true;
    loop {
        let got = if take_front { it.next() } else { it.next_back() };
        match got {
            Some(v) => {
                if take_front {
                    front.push(v);
                } else {
                    back.push(v);
                }
            }
            None => break,
        }
        take_front = !take_front;
    }
    back.reverse();
    front.extend(back);
    assert_eq!(front, expected);
    assert_eq!(it.next(), None);
    assert_eq!(it.next_back(), None);
}

#[test]
fn nth_equals_repeated_next() {
    let expected = sample_bits();
    for k in 0..expected.len() {
        let mut by_nth = sample().into_iter();
        let mut by_next = sample().into_iter();
        let a = by_nth.nth(k);
        let mut b = None;
        for _ in 0..=k {
            b = by_next.next();
        }
        assert_eq!(a, b);
        assert_eq!(a, Some(expected[k]));
        assert_eq!(by_nth.len(), by_next.len());
    }
}

#[test]
fn nth_past_the_end_exhausts() {
    let mut it = sample().into_iter();
    assert_eq!(it.nth(8), None);
    assert_eq!(it.len(), 0);
    assert_eq!(it.next(), None);

    let mut it = sample().into_iter();
    assert_eq!(it.nth(3), Some(true));
    assert_eq!(it.nth(100), None);
    assert_eq!(it.len(), 0);
}

#[test]
fn size_hint_and_count_are_exact() {
    let mut it = sample().into_iter();
    assert_eq!(it.size_hint(), (8, Some(8)));
    it.next();
    it.next_back();
    assert_eq!(it.size_hint(), (6, Some(6)));
    assert_eq!(it.count(), 6);
}

#[test]
fn last_is_one_backward_step() {
    let it = sample().into_iter();
    assert_eq!(it.last(), Some(false));

    let empty: BitBox<Lsb0, u8> = BitBox::from_vec(vec![], 0);
    assert_eq!(empty.into_iter().last(), None);
}

#[test]
fn empty_container_yields_end_marker_immediately() {
    let b: BitBox<Msb0, u16> = BitBox::from_vec(vec![], 0);
    let mut it = b.into_iter();
    assert_eq!(it.len(), 0);
    assert_eq!(it.size_hint(), (0, Some(0)));
    assert_eq!(it.next(), None);
    assert_eq!(it.next_back(), None);
}

#[test]
fn msb0_iteration_order() {
    // 0b1000_0001 read most-significant first: t f f f f f f t
    let b: BitBox<Msb0, u8> = BitBox::from_vec(vec![0b1000_0001u8], 8);
    let mut it = b.into_iter();
    assert_eq!(it.next(), Some(true));
    assert_eq!(it.next(), Some(false));
    assert_eq!(it.next_back(), Some(true));
    assert_eq!(it.next_back(), Some(false));
    assert_eq!(it.len(), 4);
}

#[test]
fn iteration_spans_element_boundaries() {
    let b: BitBox<Lsb0, u8> = BitBox::from_vec(vec![0xffu8, 0x00u8, 0xffu8], 20);
    let collected: Vec<bool> = {
        let mut it = b.into_iter();
        let mut out = Vec::new();
        while let Some(v) = it.next() {
            out.push(v);
        }
        out
    };
    assert_eq!(collected.len(), 20);
    for (i, &v) in collected.iter().enumerate() {
        assert_eq!(v, i < 8 || i >= 16);
    }
}
