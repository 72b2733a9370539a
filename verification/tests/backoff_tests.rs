use d1doctor::backoff::ReconnectBackoff;

#[test]
fn test_backoff_sequence() {
    let mut backoff = ReconnectBackoff::new(1, 30);
    let delays: Vec<u64> = (0..6).map(|_| backoff.next_delay_secs()).collect();
    // Should be: 1, 2, 4, 8, 16, 30 (capped)
    assert_eq!(delays[0], 1);
    assert_eq!(delays[1], 2);
    assert_eq!(delays[2], 4);
    assert_eq!(delays[3], 8);
    assert_eq!(delays[4], 16);
    assert_eq!(delays[5], 30); // capped at max
}

#[test]
fn test_backoff_reset() {
    let mut backoff = ReconnectBackoff::new(1, 30);
    backoff.next_delay_secs(); // 1
    backoff.next_delay_secs(); // 2
    backoff.next_delay_secs(); // 4
    backoff.reset();
    assert_eq!(backoff.next_delay_secs(), 1); // back to base
}

#[test]
fn test_backoff_capped_at_max() {
    let mut backoff = ReconnectBackoff::new(10, 30);
    backoff.next_delay_secs(); // 10
    backoff.next_delay_secs(); // 20
    let third = backoff.next_delay_secs(); // 30 (capped)
    let fourth = backoff.next_delay_secs(); // still 30
    assert_eq!(third, 30);
    assert_eq!(fourth, 30);
}

#[test]
fn test_backoff_never_exceeds_cap_long_run() {
    let mut backoff = ReconnectBackoff::new(1, 30);
    for _ in 0..100 {
        assert!(backoff.next_delay_secs() <= 30);
    }
    backoff.reset();
    assert_eq!(backoff.next_delay_secs(), 1);
}
