use std::cmp::Ordering;
use appendlog::index::Index;

#[test]
fn index_new_keeps_position() {
    assert_eq!(Index::new(7u64).value(), 7);
    assert_eq!(Index::new(0u64).value(), 0);
    assert_eq!(Index::new(u64::MAX).value(), u64::MAX);
}

#[test]
fn index_default_is_zero() {
    assert_eq!(Index::default(), Index::new(0u64));
}

#[test]
fn index_from_and_into_u64_round_trip() {
    let i: Index = Index::from(42u64);
    assert_eq!(i.value(), 42);
    let back: u64 = u64::from(i);
    assert_eq!(back, 42);
    let via_into: u64 = Index::new(9u64).into();
    assert_eq!(via_into, 9);
}

#[test]
fn index_try_into_usize() {
    let r: Result<usize, _> = usize::try_from(Index::new(12u64));
    assert_eq!(r.unwrap(), 12);
    let big: Result<usize, _> = usize::try_from(Index::new(u64::MAX));
    if usize::BITS >= 64 {
        assert_eq!(big.unwrap() as u64, u64::MAX);
    } else {
        assert!(big.is_err());
    }
}

#[test]
fn index_order_and_comparisons() {
    let a = Index::new(3u64);
    let b = Index::new(5u64);
    assert!(b.is_after(&a));
    assert!(!a.is_after(&b));
    assert!(!a.is_after(&a));
    assert_eq!(a.earlier(b), a);
    assert_eq!(b.earlier(a), a);
    assert!(a < b);
    assert!(a <= a);
    assert_ne!(a, b);
}

#[test]
fn index_new_accepts_smaller_unsigned_types() {
    assert_eq!(Index::new(5u8).value(), 5);
    assert_eq!(Index::new(6u16).value(), 6);
    assert_eq!(Index::new(7u32).value(), 7);
}

#[test]
fn index_order_follows_position() {
    assert_eq!(Index::new(2u64).partial_cmp(&Index::new(2u64)), Some(Ordering::Equal));
    assert_eq!(Index::new(1u64).partial_cmp(&Index::new(2u64)), Some(Ordering::Less));
    assert_eq!(Index::new(3u64).partial_cmp(&Index::new(2u64)), Some(Ordering::Greater));
    assert!(Index::new(4u8) <= Index::new(4u64));
    assert!(!(Index::new(5u64) <= Index::new(4u64)));
    assert_eq!(Index::new(9u64).max(Index::new(3u64)), Index::new(9u64));
}
