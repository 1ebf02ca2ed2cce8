//! Tests of the time model and its text rendering.

use subtile::time::{TimePoint, TimeSpan};

/// Milliseconds of a number of seconds, truncated as the stream's float
/// seconds are when stored in whole milliseconds.
fn msecs_of_secs(seconds: f64) -> i64 {
    (seconds * 1000.0) as i64
}

#[test]
fn time_point_creation() {
    assert_eq!(TimePoint::from_msecs(6751).msecs(), 6751);
    assert_eq!(TimePoint::from_msecs(142), TimePoint::from_msecs(msecs_of_secs(0.142)));
}

#[test]
fn time_point_creation_with_too_much_decimals() {
    assert_eq!(TimePoint::from_msecs(265), TimePoint::from_msecs(msecs_of_secs(0.265_579)));
    assert_eq!(TimePoint::from_msecs(142), TimePoint::from_msecs(msecs_of_secs(0.142_75)));
}

#[test]
fn time_point_msecs() {
    const TIME: i64 = 62487;
    assert_eq!(TimePoint::from_msecs(TIME).msecs(), TIME);
}

#[test]
fn time_point_secs() {
    const TIME: f64 = 624.87;
    assert_eq!(TimePoint::from_msecs(msecs_of_secs(TIME)).secs(), 624);
}

#[test]
fn time_point_msecs_round_trip_extremes() {
    let big: i64 = 1 << 53;
    assert_eq!(TimePoint::from_msecs(big).msecs(), big);
    assert_eq!(TimePoint::from_msecs(-big).msecs(), -big);
    assert_eq!(TimePoint::from_msecs(0).msecs(), 0);
}

#[test]
fn time_point_components() {
    let t = TimePoint::from_msecs(3_723_456);
    assert_eq!(t.hours(), 1);
    assert_eq!(t.mins_comp(), 2);
    assert_eq!(t.secs_comp(), 3);
    assert_eq!(t.msecs_comp(), 456);
    let n = TimePoint::from_msecs(-1500);
    assert_eq!(n.secs(), -1);
    assert_eq!(n.msecs_comp(), -500);
}

#[test]
fn time_span_creation() {
    assert_eq!(
        TimeSpan::new(TimePoint::from_msecs(0), TimePoint::from_msecs(msecs_of_secs(1.34))),
        TimeSpan {
            start: TimePoint::from_msecs(0),
            end: TimePoint::from_msecs(msecs_of_secs(1.34)),
        }
    );
}

#[test]
fn time_span_equality() {
    let time_span_0_1 = TimeSpan::new(TimePoint::from_msecs(0), TimePoint::from_msecs(msecs_of_secs(1.34)));
    let time_span_1_2 = TimeSpan::new(
        TimePoint::from_msecs(1245),
        TimePoint::from_msecs(msecs_of_secs(2.34)),
    );
    assert_eq!(
        time_span_0_1,
        TimeSpan::new(TimePoint::from_msecs(0), TimePoint::from_msecs(msecs_of_secs(1.34)))
    );
    assert_eq!(
        time_span_1_2,
        TimeSpan {
            start: TimePoint::from_msecs(1245),
            end: TimePoint::from_msecs(msecs_of_secs(2.34)),
        }
    );
}

#[test]
fn time_span_nequality() {
    let time_span_0_1 = TimeSpan::new(TimePoint::from_msecs(0), TimePoint::from_msecs(msecs_of_secs(1.34)));
    let time_span_0_2 = TimeSpan::new(TimePoint::from_msecs(0), TimePoint::from_msecs(msecs_of_secs(2.34)));
    let time_span_1_2 = TimeSpan::new(
        TimePoint::from_msecs(1245),
        TimePoint::from_msecs(msecs_of_secs(2.34)),
    );
    assert_ne!(time_span_0_1, time_span_0_2);
    assert_ne!(time_span_0_2, time_span_1_2);
}

#[test]
fn format_time_with_separator() {
    let t = TimePoint::from_msecs(3_723_456);
    assert_eq!(t.fmt_separator(','), "01:02:03,456");
    assert_eq!(t.fmt_separator('.'), "01:02:03.456");
    let neg = TimePoint::from_msecs(-61_005);
    assert_eq!(neg.fmt_separator(':'), "-00:01:01:005");
    let pad = TimePoint::from_msecs(7);
    assert_eq!(pad.fmt_separator(','), "00:00:00,007");
}
