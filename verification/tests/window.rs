use ytpodcast::window::{lookback_days, lookback_last, window_from_clock};

#[test]
fn no_episodes_starts_at_the_floor() {
    // The floor is respected whatever the current time is.
    assert_eq!(lookback_last(1577836800, None), 1577836800);
    assert_eq!(lookback_last(0, None), 0);
    assert_eq!(lookback_last(-5, None), -5);
}

#[test]
fn newest_episode_wins_when_later_than_the_floor() {
    assert_eq!(lookback_last(1577836800, Some(1600000000)), 1600000000);
}

#[test]
fn floor_wins_when_newest_is_earlier() {
    assert_eq!(lookback_last(1577836800, Some(1500000000)), 1577836800);
}

#[test]
fn whole_days_are_truncated() {
    // Three days and a bit: the window is three days.
    let last = 1_000_000_000;
    assert_eq!(lookback_days(last, last + 3 * 86400 + 100), 3);
    assert_eq!(lookback_days(last, last + 3 * 86400), 3);
    assert_eq!(lookback_days(last, last + 3 * 86400 - 1), 2);
    assert_eq!(lookback_days(last, last), 0);
}

#[test]
fn a_future_floor_gives_a_negative_window() {
    // Flooring, not rounding towards zero.
    let last = 1_000_000_000;
    assert_eq!(lookback_days(last, last - 1), -1);
    assert_eq!(lookback_days(last, last - 86400), -1);
    assert_eq!(lookback_days(last, last - 86401), -2);
}

#[test]
fn clock_window_is_consistent_with_the_day_count() {
    let (now, days) = window_from_clock(0);
    assert_eq!(days, Some(now.div_euclid(86400)));
}

#[test]
fn clock_window_reports_an_unrepresentable_distance() {
    // From the far past the distance to any present-day reading
    // overflows seconds, and the reading still comes back.
    let (now, days) = window_from_clock(i64::MIN);
    if now > 0 {
        assert_eq!(days, None);
    }
}
