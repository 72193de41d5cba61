use rc_link::fps::FPSCounter;

#[test]
fn counts_frames_of_the_last_second() {
    let mut c = FPSCounter::new(8);
    assert_eq!(c.tick_at(1000), 1);
    assert_eq!(c.tick_at(1500), 2);
    assert_eq!(c.tick_at(2000), 3);
    assert_eq!(c.tick_at(2001), 3);
    assert_eq!(c.tick_at(3600), 1);
}

#[test]
fn count_wraps_past_a_byte() {
    let mut c = FPSCounter::new(0);
    let mut last = 0;
    for i in 0..300i64 {
        last = c.tick_at(i);
    }
    assert_eq!(last, (300 % 256) as u8);
}

#[test]
fn wall_clock_tick_counts_itself() {
    let mut c = FPSCounter::new(4);
    assert_eq!(c.tick(), 1);
    assert!(c.tick() >= 1);
}
