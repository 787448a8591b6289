use pipeviewer::meter::{MeterAction, Stats};
use pipeviewer::units::{format_bytes, format_clock, format_rate, scale_bytes, TimeOutput};

#[test]
fn as_time_format() {
    let pairs = vec![
        (5_u64, "0:00:05"),
        (60_u64, "0:01:00"),
        (3600_u64, "1:00:00"),
        (85_u64, "0:01:25"),
        (12345_u64, "3:25:45"),
        (3599_u64, "0:59:59"),
    ];
    for (input, output) in pairs {
        assert_eq!(input.as_time().as_str(), output);
    }
}

#[test]
fn clock_hours_are_not_padded() {
    assert_eq!(format_clock(0), "0:00:00");
    assert_eq!(format_clock(36000), "10:00:00");
    assert_eq!(format_clock(360000 + 61), "100:01:01");
}

#[test]
fn unit_boundaries_need_strictly_greater() {
    assert_eq!(scale_bytes(0), (0, "b"));
    assert_eq!(scale_bytes(1024), (1024, "b"));
    assert_eq!(scale_bytes(1025), (1, "Kb"));
    assert_eq!(scale_bytes(1024 * 1024), (1024, "Kb"));
    assert_eq!(scale_bytes(1024 * 1024 + 1), (1, "Mb"));
    assert_eq!(scale_bytes(1024 * 1024 * 1024), (1024, "Mb"));
    assert_eq!(scale_bytes(1024 * 1024 * 1024 + 1), (1, "Gb"));
    assert_eq!(scale_bytes(1024u128.pow(4)), (1024, "Gb"));
    assert_eq!(scale_bytes(1024u128.pow(4) + 1), (1, "Tb"));
    assert_eq!(scale_bytes(1024u128.pow(5) * 3), (3072, "Tb"));
}

#[test]
fn bytes_and_rate_text() {
    assert_eq!(format_bytes(2500), "2 Kb ");
    assert_eq!(format_bytes(17), "17 b ");
    assert_eq!(format_rate(3 * 1024 * 1024 + 7, 1000), " [3 Mb/s]");
    assert_eq!(format_rate(0, 1000), " [0 b/s]");
}

#[test]
fn rate_rounds_to_nearest() {
    assert_eq!(format_rate(2000, 1000), " [2 Kb/s]");
    assert_eq!(format_rate(1535, 1000), " [1 Kb/s]");
    assert_eq!(format_rate(1536, 1000), " [2 Kb/s]");
    // Below 1024 bytes per second the fraction rounds too.
    assert_eq!(format_rate(1, 3), " [333 b/s]");
    assert_eq!(format_rate(2, 3), " [667 b/s]");
    // The unit goes by the exact rate: 1024 b/s stays in bytes.
    assert_eq!(format_rate(1024, 1000), " [1024 b/s]");
    assert_eq!(format_rate(1025, 1000), " [1 Kb/s]");
    assert_eq!(format_rate(5 * 1024u64.pow(4), 1000), " [5 Tb/s]");
}

#[test]
fn update_accumulates_and_measures_rate() {
    let mut s = Stats::new(1000);
    assert_eq!(s.total_bytes(), 0);
    assert!(s.is_ready());
    s.update(500, 1250);
    assert_eq!(s.total_bytes(), 500);
    // 500 bytes in 250 ms is 2000 bytes per second: 1.95 Kb/s, shown as 2.
    let (bytes, clock, rate) = s.status_line(1250);
    assert_eq!(bytes, "500 b ");
    assert_eq!(clock, "0:00:00");
    assert_eq!(rate, " [2 Kb/s]");
    assert!(!s.is_ready());
}

#[test]
fn zero_delta_keeps_the_previous_rate() {
    let mut s = Stats::new(0);
    s.update(4096, 1000);
    s.update(999, 1000);
    assert_eq!(s.total_bytes(), 5095);
    let (_, _, rate) = s.status_line(1000);
    assert_eq!(rate, " [4 Kb/s]");
}

#[test]
fn render_falls_due_once_per_period() {
    let mut s = Stats::new(0);
    // The first update finds the countdown at zero: a render is due.
    assert_eq!(s.on_message(Some(10), 5, false), MeterAction::Render);
    s.status_line(5);
    // 400 ms and 600 ms later the countdown has not run out yet.
    assert_eq!(s.on_message(Some(10), 405, false), MeterAction::Wait);
    assert_eq!(s.on_message(Some(10), 1005, false), MeterAction::Wait);
    // One more millisecond takes it below zero.
    assert_eq!(s.on_message(Some(10), 1006, false), MeterAction::Render);
    assert_eq!(s.total_bytes(), 40);
}

#[test]
fn silent_meter_never_renders() {
    let mut s = Stats::new(0);
    assert_eq!(s.on_message(Some(10), 5000, true), MeterAction::Wait);
    assert_eq!(s.on_message(Some(0), 6000, true), MeterAction::Finish { newline: false });
}

#[test]
fn sentinel_first_ends_the_meter() {
    let mut s = Stats::new(0);
    assert_eq!(s.on_message(Some(0), 10, false), MeterAction::Finish { newline: true });
    assert_eq!(s.total_bytes(), 0);
    let mut t = Stats::new(0);
    assert_eq!(t.on_message(None, 10, false), MeterAction::Finish { newline: true });
    assert_eq!(t.total_bytes(), 0);
}

#[test]
fn elapsed_time_in_status_line() {
    let mut s = Stats::new(1_000);
    s.update(1, 2_000);
    let (_, clock, _) = s.status_line(1_000 + 12_345_999);
    assert_eq!(clock, "3:25:45");
}
