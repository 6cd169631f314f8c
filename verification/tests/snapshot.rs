//! Nearest-to-target frame selection, snapshot collection, and the clock
//! arithmetic they rest on.

use orbit::device::DeviceId;
use orbit::snap::{collect_stills, select_nearest, NearestSearch};
use orbit::time::{abs_nanos_between, boot_time_utc, duration_abs, timestamp_to_utc, UtcTime};
use orbit::wire::CapturedFrame;

fn millis(ms: i64) -> UtcTime {
    UtcTime::new(ms / 1000, ((ms % 1000) * 1_000_000) as u32)
}

fn frame_at(device: u32, at: UtcTime) -> CapturedFrame {
    let payload = vec![device as u8];
    CapturedFrame::from_frame(
        &payload,
        1,
        640,
        360,
        *b"MJPG",
        at.secs,
        0,
        UtcTime::new(0, at.nanos),
        DeviceId(device),
    )
}

#[test]
fn selection_picks_the_closest_of_a_unimodal_sequence() {
    // Timestamps 100, 150, 205, 300 ms; target 210 ms: 205 must win.
    let times = vec![millis(100), millis(150), millis(205), millis(300)];
    let target = millis(210);
    let picked = select_nearest(target, &times);
    assert_eq!(picked, 2);
}

#[test]
fn selection_stops_at_the_first_non_improving_step() {
    // 90 and 130 are equally far from 110; the first non-improving step ends
    // the scan, so the earlier frame is kept.
    let times = vec![millis(90), millis(130)];
    assert_eq!(select_nearest(millis(110), &times), 0);
    // A sequence that only gets worse keeps the burn-in frame.
    let times = vec![millis(100), millis(200), millis(300)];
    assert_eq!(select_nearest(millis(100), &times), 0);
    // A sequence that keeps improving runs to its end.
    let times = vec![millis(100), millis(150), millis(199)];
    assert_eq!(select_nearest(millis(200), &times), 2);
}

#[test]
fn search_state_machine_mirrors_the_stopping_rule() {
    let target = millis(210);
    let mut search = NearestSearch::new(target, frame_at(1, millis(100)));
    assert!(search.offer(frame_at(1, millis(150))));
    assert!(search.offer(frame_at(1, millis(205))));
    assert!(!search.offer(frame_at(1, millis(300))));
    let best = search.into_best();
    let at = best.captured_at();
    assert_eq!((at.secs, at.nanos), (0, 205_000_000));
}

#[test]
fn snapshot_tolerates_a_failed_worker() {
    // Three devices, one worker failed: exactly the two produced stills
    // remain, in worker order.
    let results = vec![
        Some(frame_at(1, millis(500))),
        None,
        Some(frame_at(3, millis(510))),
    ];
    let response = collect_stills(results);
    assert_eq!(response.stills.len(), 2);
    assert_eq!(response.stills[0].device_id().0, 1);
    assert_eq!(response.stills[1].device_id().0, 3);
}

#[test]
fn snapshot_of_no_workers_is_empty() {
    let response = collect_stills(Vec::new());
    assert_eq!(response.stills.len(), 0);
}

#[test]
fn distance_is_symmetric_and_exact() {
    let a = UtcTime::new(10, 999_999_999);
    let b = UtcTime::new(11, 0);
    assert_eq!(abs_nanos_between(a, b), 1);
    assert_eq!(abs_nanos_between(b, a), 1);
    assert_eq!(abs_nanos_between(a, a), 0);
}

#[test]
fn duration_abs_matches_magnitude() {
    assert_eq!(duration_abs(25), 25);
    assert_eq!(duration_abs(-25), 25);
    assert_eq!(duration_abs(0), 0);
    assert_eq!(duration_abs(i64::MIN), 9_223_372_036_854_775_808u64);
}

#[test]
fn kernel_timestamps_are_rebased_onto_boot_time() {
    let boot = UtcTime::new(1_700_000_000, 900_000_000);
    // 3 seconds and 200000 microseconds after boot: the nanosecond part
    // carries into a full second.
    let at = timestamp_to_utc(3, 200_000, boot);
    assert_eq!((at.secs, at.nanos), (1_700_000_004, 100_000_000));
}

#[test]
fn boot_time_subtracts_the_monotonic_uptime() {
    let now = UtcTime::new(1_700_000_010, 100_000_000);
    let boot = boot_time_utc(now, 3, 200_000_000);
    assert_eq!((boot.secs, boot.nanos), (1_700_000_006, 900_000_000));
}

#[test]
fn snap_targets_sit_a_fixed_delay_ahead() {
    let now = UtcTime::new(1_700_000_000, 900_000_000);
    let target = now.plus_millis(2_000);
    assert_eq!((target.secs, target.nanos), (1_700_000_002, 900_000_000));
    let carry = now.plus_millis(2_500);
    assert_eq!((carry.secs, carry.nanos), (1_700_000_003, 400_000_000));
}
