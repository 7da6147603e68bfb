use prosa_hyper::backoff::Backoff;

#[test]
fn delay_doubles_up_to_the_longest() {
    let backoff = Backoff::new(200, 4000);
    assert_eq!(backoff.delay(0), 0);
    assert_eq!(backoff.delay(1), 200);
    assert_eq!(backoff.delay(2), 400);
    assert_eq!(backoff.delay(5), 3200);
    assert_eq!(backoff.delay(6), 4000);
    assert_eq!(backoff.delay(u32::MAX), 4000);
}

#[test]
fn delays_are_clamped() {
    let none = Backoff::new(0, 0);
    assert_eq!((none.base(), none.max()), (10, 10));
    assert_eq!(none.delay(0), 0);
    assert_eq!(none.delay(1), 10);
    let capped = Backoff::new(5000, 1000);
    assert_eq!((capped.base(), capped.max()), (1000, 1000));
    assert_eq!(capped.healthy_connection(), 1000);
    let longest = Backoff::new(u64::MAX, u64::MAX);
    assert_eq!(longest.delay(33), u64::MAX);
    assert_eq!(Backoff::new(10, u64::MAX).delay(32), 10 * (1 << 31));
    assert_eq!(Backoff::new(10, u64::MAX).delay(33), 10 * u64::from(u32::MAX));
}
