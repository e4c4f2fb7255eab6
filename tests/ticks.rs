use replication::tick::{ClientTicks, Tick, TickClock};

#[test]
fn clock_issues_increasing_ticks() {
    let mut clock = TickClock::new();
    assert_eq!(clock.last(), 0);
    let a = clock.next();
    let b = clock.next();
    let c = clock.next();
    assert_eq!(a, Tick(1));
    assert_eq!(b, Tick(2));
    assert_eq!(c, Tick(3));
    assert_eq!(clock.last(), 3);
}

#[test]
fn first_tick_of_a_player_is_accepted() {
    let mut ticks = ClientTicks::new();
    assert_eq!(ticks.watermark(0), None);
    assert!(ticks.is_latest(0, Tick(0)));
    assert_eq!(ticks.watermark(0), Some(0));
}

#[test]
fn equal_tick_is_rejected() {
    let mut ticks = ClientTicks::new();
    assert!(ticks.is_latest(2, Tick(9)));
    assert!(!ticks.is_latest(2, Tick(9)));
    assert_eq!(ticks.watermark(2), Some(9));
}

#[test]
fn increasing_ticks_move_the_watermark() {
    let mut ticks = ClientTicks::new();
    for t in [1u64, 2, 4, 8, 100] {
        assert!(ticks.is_latest(0, Tick(t)));
        assert_eq!(ticks.watermark(0), Some(t));
    }
    assert!(!ticks.is_latest(0, Tick(99)));
    assert_eq!(ticks.watermark(0), Some(100));
}

#[test]
fn players_have_separate_watermarks() {
    let mut ticks = ClientTicks::new();
    assert!(ticks.is_latest(0, Tick(10)));
    assert!(ticks.is_latest(1, Tick(3)));
    assert!(!ticks.is_latest(0, Tick(5)));
    assert!(ticks.is_latest(1, Tick(5)));
    assert_eq!(ticks.watermark(0), Some(10));
    assert_eq!(ticks.watermark(1), Some(5));
}

#[test]
fn out_of_order_snapshots_five_three_seven() {
    let mut ticks = ClientTicks::new();
    assert!(ticks.is_latest(1, Tick(5)));
    assert!(!ticks.is_latest(1, Tick(3)));
    assert_eq!(ticks.watermark(1), Some(5));
    assert!(ticks.is_latest(1, Tick(7)));
    assert_eq!(ticks.watermark(1), Some(7));
}

#[test]
fn reset_forgets_watermarks() {
    let mut ticks = ClientTicks::new();
    assert!(ticks.is_latest(0, Tick(u64::MAX)));
    ticks.reset();
    assert_eq!(ticks.watermark(0), None);
    assert!(ticks.is_latest(0, Tick(1)));
}
