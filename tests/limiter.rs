use tile_downloader::limiter::{ConcurrencyLimiter, ZeroCapacity};

#[test]
fn zero_capacity_is_refused() {
    assert_eq!(ConcurrencyLimiter::new(0).err(), Some(ZeroCapacity));
}

#[test]
fn burst_beyond_capacity() {
    let mut l = ConcurrencyLimiter::new(3).unwrap();
    let granted = (0..7).filter(|_| l.try_acquire()).count();
    assert_eq!(granted, 3);
    assert_eq!(l.in_flight(), 3);
    assert_eq!(l.capacity(), 3);
    // The refused four are served as holders give their slots back.
    let mut served = 0;
    while served < 4 {
        l.release();
        assert!(l.try_acquire());
        assert!(!l.try_acquire());
        served += 1;
    }
    assert_eq!(l.in_flight(), 3);
    for _ in 0..3 {
        l.release();
    }
    assert_eq!(l.in_flight(), 0);
}

#[test]
fn capacity_one_serialises() {
    let mut l = ConcurrencyLimiter::new(1).unwrap();
    assert!(l.try_acquire());
    assert!(!l.try_acquire());
    l.release();
    assert!(l.try_acquire());
}
