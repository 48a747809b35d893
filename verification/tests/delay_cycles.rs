use dht11::DwtDelay;

#[test]
fn cycles_per_microsecond_round_down() {
    assert_eq!(DwtDelay::new(168_000_000).cycles_per_us(), 168);
    assert_eq!(DwtDelay::new(1_000_000).cycles_per_us(), 1);
    assert_eq!(DwtDelay::new(1_999_999).cycles_per_us(), 1);
    assert_eq!(DwtDelay::new(u32::MAX).cycles_per_us(), 4294);
}

#[test]
fn slow_clock_gives_empty_delay() {
    let delay = DwtDelay::new(999_999);
    assert_eq!(delay.cycles_per_us(), 0);
    assert!(delay.is_over(1234, 1234));
    assert_eq!(DwtDelay::new(0).cycles_per_us(), 0);
}

#[test]
fn elapsed_counts_forward() {
    assert_eq!(DwtDelay::elapsed(0, 0), 0);
    assert_eq!(DwtDelay::elapsed(100, 268), 168);
    assert_eq!(DwtDelay::elapsed(0, u32::MAX), u32::MAX);
}

#[test]
fn elapsed_survives_counter_wrap() {
    assert_eq!(DwtDelay::elapsed(u32::MAX, 0), 1);
    assert_eq!(DwtDelay::elapsed(u32::MAX, 2), 3);
    assert_eq!(DwtDelay::elapsed(0xFFFF_FF00, 0x0000_0010), 0x110);
    assert_eq!(DwtDelay::elapsed(1, 0), u32::MAX);
    for start in [0u32, 1, 0x7FFF_FFFF, 0x8000_0000, 0xFFFF_FFFE, u32::MAX] {
        for current in [0u32, 1, 167, 0x7FFF_FFFF, 0x8000_0000, u32::MAX] {
            assert_eq!(DwtDelay::elapsed(start, current), current.wrapping_sub(start));
        }
    }
}

#[test]
fn delay_is_over_after_enough_cycles() {
    let delay = DwtDelay::new(168_000_000);
    assert!(!delay.is_over(1000, 1000));
    assert!(!delay.is_over(1000, 1167));
    assert!(delay.is_over(1000, 1168));
    assert!(delay.is_over(1000, 5000));
    assert!(!delay.is_over(u32::MAX, 166));
    assert!(delay.is_over(u32::MAX, 167));
}

#[test]
fn polling_a_wrapping_counter_ends_the_delay() {
    let delay = DwtDelay::new(72_000_000);
    let start: u32 = u32::MAX - 30;
    let mut counter = start;
    let mut polls = 0;
    while !delay.is_over(start, counter) {
        counter = counter.wrapping_add(7);
        polls += 1;
    }
    assert_eq!(polls, 11);
    assert_eq!(counter, 46);
}
