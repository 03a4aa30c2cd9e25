use tcp_engine::seqnum::{in_range, le, lt};

#[test]
fn lt_at_the_wraparound_boundary() {
    assert!(lt(0xFFFF_FFFF, 0));
    assert!(!lt(0, 0xFFFF_FFFF));
    assert!(lt(0xFFFF_FFF0, 5));
    assert!(!lt(5, 0xFFFF_FFF0));
}

#[test]
fn lt_simple_ordering() {
    assert!(lt(1, 2));
    assert!(!lt(2, 1));
    assert!(!lt(7, 7));
    assert!(lt(1000, 1001));
}

#[test]
fn lt_shift_invariance_examples() {
    let pairs: [(u32, u32); 5] =
        [(0, 1), (1000, 2000), (0xFFFF_FFFF, 0), (0xFFFF_FFF0, 5), (123, 123)];
    for (a, b) in pairs {
        let sa = a.wrapping_add(0x8000_0000);
        let sb = b.wrapping_add(0x8000_0000);
        assert_eq!(lt(a, b), lt(sa, sb));
    }
}

#[test]
fn lt_asymmetry_examples() {
    let pairs: [(u32, u32); 4] = [(0, 1), (1000, 2000), (0xFFFF_FFFF, 0), (0xFFFF_FFF0, 5)];
    for (a, b) in pairs {
        assert_ne!(lt(a, b), lt(b, a));
    }
}

#[test]
fn le_allows_equality() {
    assert!(le(7, 7));
    assert!(le(7, 8));
    assert!(!le(8, 7));
}

#[test]
fn in_range_without_wraparound() {
    assert!(in_range(5, 5, 10));
    assert!(in_range(9, 5, 10));
    assert!(!in_range(10, 5, 10));
    assert!(!in_range(4, 5, 10));
}

#[test]
fn in_range_across_the_boundary() {
    assert!(in_range(0xFFFF_FFFE, 0xFFFF_FFF0, 0x10));
    assert!(in_range(0, 0xFFFF_FFF0, 0x10));
    assert!(in_range(5, 0xFFFF_FFF0, 0x10));
    assert!(!in_range(0x10, 0xFFFF_FFF0, 0x10));
    assert!(!in_range(0xFFFF_FFEF, 0xFFFF_FFF0, 0x10));
}

#[test]
fn in_range_empty_range_holds_nothing() {
    assert!(!in_range(42, 42, 42));
    assert!(!in_range(41, 42, 42));
}
