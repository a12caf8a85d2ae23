use transcoder::progress::{parse_out_time, replay_progress, FileProgress, ProgressCounter};

#[test]
fn parses_progress_lines() {
    assert_eq!(Some(1500000), parse_out_time("out_time_us=1500000"));
    assert_eq!(Some(42), parse_out_time("xxout_time_us=42yy"));
    assert_eq!(None, parse_out_time("frame=5"));
    assert_eq!(None, parse_out_time("out_time_us="));
    assert_eq!(None, parse_out_time(""));
    // The first marker has no digit after it; the match moves on.
    assert_eq!(Some(5), parse_out_time("out_time_us=out_time_us=5"));
    // The digit run is read maximally.
    assert_eq!(Some(123), parse_out_time("out_time_us=123 rest"));
    // A position too large for the counter is not an event.
    assert_eq!(None, parse_out_time("out_time_us=99999999999999999999"));
}

#[test]
fn a_full_stream_credits_the_whole_duration() {
    // Two seconds of output reported in strictly increasing microseconds.
    let events = vec![500000u64, 1000000, 1500000, 2000000];
    assert_eq!(2 * 1000, replay_progress(&events));
}

#[test]
fn a_regression_clamps_to_zero() {
    let events = vec![10000000u64, 5000000];
    // The counter holds at the largest position seen.
    assert_eq!(10000, replay_progress(&events));
}

#[test]
fn observe_credits_both_counters() {
    let mut file = FileProgress::new();
    let mut total = ProgressCounter::new();

    let d1 = file.observe(&mut total, 2_000_000);
    assert_eq!(2000, d1);
    let d2 = file.observe(&mut total, 3_000_000);
    assert_eq!(1000, d2);
    // A stale event credits nothing and moves nothing backwards.
    let d3 = file.observe(&mut total, 1_000_000);
    assert_eq!(0, d3);
    assert_eq!(3000, file.last_millis);
    assert_eq!(3000, total.total_millis);
}
