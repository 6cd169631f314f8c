//! The calibration engine: per-round means, weighted adjustments, and their
//! invariances.

use orbit::calibration::{Adjustment, Averager, CalibrationEvent, EulerAngles};
use orbit::device::DeviceId;
use orbit::streams::{NodeAddress, StreamSource, Streams};

fn source(port: u16, device: u32) -> StreamSource {
    StreamSource::new(NodeAddress { ip: 0xC0A8_0264, port }, DeviceId(device))
}

fn pose(roll: i64, pitch: i64) -> EulerAngles {
    EulerAngles { pitch, roll, yaw: 0 }
}

/// Degrees, in the engine's microdegree unit.
fn deg(d: i64) -> i64 {
    d * 1_000_000
}

#[test]
fn averager_accumulates_and_reads_an_exact_mean() {
    let mut avg = Averager::new();
    avg.add(deg(10));
    avg.add(deg(20));
    avg.add(deg(-3));
    assert_eq!(avg.measurement_count(), 3);
    let mean = avg.read();
    assert_eq!((mean.num, mean.den), (deg(27), 3));
}

#[test]
fn merged_means_pool_their_measurements() {
    let mut a = Averager::new();
    a.add(6);
    a.add(4);
    let mut b = Averager::new();
    b.add(20);
    let merged = a.merge(b);
    assert_eq!(merged.sum, 30);
    assert_eq!(merged.measurement_count, 3);
}

#[test]
fn an_event_records_its_round_means() {
    let samples = vec![
        (source(2000, 1), pose(deg(5), deg(2))),
        (source(2000, 2), pose(deg(-5), deg(4))),
    ];
    let event = CalibrationEvent::new(samples);
    assert_eq!(event.average_roll.sum, 0);
    assert_eq!(event.average_roll.measurement_count, 2);
    assert_eq!(event.average_pitch.sum, deg(6));
    assert_eq!(event.average_pitch.measurement_count, 2);
}

#[test]
fn two_streams_in_one_round_get_opposite_adjustments() {
    // Rolls +5 and -5 degrees in one round: each stream's adjustment is its
    // deviation from the round mean of 0, so the two are exact negatives
    // with equal magnitude (and hence the same crop angle).
    let a = source(2000, 1);
    let b = source(2000, 2);
    let events = vec![
        CalibrationEvent::new(vec![(a, pose(deg(5), 0)), (b, pose(deg(-5), 0))]),
    ];
    let adj_a = Adjustment::new(a, &events);
    let adj_b = Adjustment::new(b, &events);

    let roll_a = adj_a.roll();
    let roll_b = adj_b.roll();
    assert_eq!(roll_a.num, -roll_b.num);
    assert_eq!(roll_a.den, roll_b.den);
    // Each is exactly 5 degrees from the consensus: 10 degrees over weight 2.
    assert_eq!((roll_a.num, roll_a.den), (deg(10), 2));
    assert_eq!((roll_b.num, roll_b.den), (deg(-10), 2));
    assert_eq!(roll_a.num.abs(), roll_b.num.abs());
}

#[test]
fn replaying_a_round_doubles_numerator_and_denominator_only() {
    let a = source(2000, 1);
    let b = source(2000, 2);
    let round = || {
        CalibrationEvent::new(vec![(a, pose(deg(7), deg(1))), (b, pose(deg(3), deg(5)))])
    };

    let once = vec![round()];
    let twice = vec![round(), round()];
    let single = Adjustment::new(a, &once);
    let doubled = Adjustment::new(a, &twice);

    assert_eq!(doubled.roll_num, 2 * single.roll_num);
    assert_eq!(doubled.pitch_num, 2 * single.pitch_num);
    assert_eq!(doubled.total_weight, 2 * single.total_weight);
    // The adjustment, as a rational, is unchanged.
    let r1 = single.roll();
    let r2 = doubled.roll();
    assert_eq!(r1.num * r2.den, r2.num * r1.den);
    let p1 = single.pitch();
    let p2 = doubled.pitch();
    assert_eq!(p1.num * p2.den, p2.num * p1.den);
}

#[test]
fn a_stream_never_seen_gets_the_zero_adjustment() {
    let a = source(2000, 1);
    let stranger = source(2001, 9);
    let events = vec![CalibrationEvent::new(vec![(a, pose(deg(4), deg(4)))])];
    let adj = Adjustment::new(stranger, &events);
    assert_eq!(adj.total_weight, 0);
    let roll = adj.roll();
    assert_eq!((roll.num, roll.den), (0, 1));
}

#[test]
fn rounds_with_more_streams_weigh_more() {
    let a = source(2000, 1);
    let b = source(2000, 2);
    let c = source(2000, 3);
    // Round one: a and b; a deviates +1 degree from their mean.
    // Round two: all three; a deviates +2 degrees from their mean.
    let events = vec![
        CalibrationEvent::new(vec![(a, pose(deg(1), 0)), (b, pose(deg(-1), 0))]),
        CalibrationEvent::new(
            vec![(a, pose(deg(2), 0)), (b, pose(deg(-1), 0)), (c, pose(deg(-1), 0))],
        ),
    ];
    let adj = Adjustment::new(a, &events);
    // Numerator: 2*(1 - 0) + 3*(2 - 0) = 2 + 6 degrees; weight: 2 + 3.
    assert_eq!(adj.roll_num, deg(8));
    assert_eq!(adj.total_weight, 5);
}

#[test]
fn calibrating_updates_every_streams_adjustment() {
    let a = source(2000, 1);
    let b = source(2000, 2);
    let mut streams = Streams::new();
    streams.register_frame(a, 640, 360);
    streams.register_frame(b, 640, 360);
    streams.calibrate(vec![(a, pose(deg(5), 0)), (b, pose(deg(-5), 0))]);

    assert_eq!(streams.stream_count(), 2);
    let adj_a = streams.streams[0].adjustment.unwrap();
    let adj_b = streams.streams[1].adjustment.unwrap();
    assert_eq!(adj_a.roll_num, -adj_b.roll_num);
    assert_eq!(adj_a.total_weight, 2);
    assert_eq!(streams.calibration_events.len(), 1);
    assert_eq!(streams.events_weight, 2);

    // A second, consistent round leaves the corrections pointing the same
    // way with doubled books.
    streams.calibrate(vec![(a, pose(deg(5), 0)), (b, pose(deg(-5), 0))]);
    let again = streams.streams[0].adjustment.unwrap();
    assert_eq!(again.roll_num, 2 * adj_a.roll_num);
    assert_eq!(again.total_weight, 4);
}
