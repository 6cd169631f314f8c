//! Device identity: stable ids across refreshes, never reused, plus the
//! still-request counter and worker failure routing.

use orbit::device::{DeviceId, DeviceIdGenerator};
use orbit::node::{is_device_gone_error, stream_failure_action, FailureAction, OrbitError};
use orbit::registry::{DeviceFileIndex, KnownDevices};
use orbit::state::{PictureEvent, PictureEventState};

fn handles(ids: &[usize]) -> Vec<DeviceFileIndex> {
    ids.iter().map(|&inner| DeviceFileIndex { inner }).collect()
}

fn id_of(registry: &KnownDevices, handle: usize) -> Option<u32> {
    registry.devices.iter().find(|(h, _)| h.inner == handle).map(|(_, id)| id.0)
}

#[test]
fn ids_count_up_from_one() {
    let mut generator = DeviceIdGenerator::new();
    assert_eq!(generator.next().value(), 1);
    assert_eq!(generator.next().value(), 2);
    assert_eq!(generator.next().value(), 3);
}

#[test]
fn a_device_present_across_refreshes_keeps_its_id() {
    let mut registry = KnownDevices::new();
    registry.update(&handles(&[0, 2]));
    let id0 = id_of(&registry, 0).unwrap();
    let id2 = id_of(&registry, 2).unwrap();
    assert_ne!(id0, id2);

    for _ in 0..5 {
        registry.update(&handles(&[0, 2]));
        assert_eq!(id_of(&registry, 0), Some(id0));
        assert_eq!(id_of(&registry, 2), Some(id2));
    }
}

#[test]
fn a_removed_device_is_retired_and_its_id_never_reused() {
    let mut registry = KnownDevices::new();
    registry.update(&handles(&[0]));
    let first = id_of(&registry, 0).unwrap();

    // The handle disappears: it is forgotten entirely.
    registry.update(&handles(&[]));
    assert_eq!(registry.devices.len(), 0);

    // The same handle replugs: it is a new device with a strictly newer id.
    registry.update(&handles(&[0]));
    let second = id_of(&registry, 0).unwrap();
    assert!(second > first);
}

#[test]
fn recently_added_reports_only_the_newcomers() {
    let mut registry = KnownDevices::new();
    let first = registry.recently_added(&handles(&[0, 2]));
    assert_eq!(first.len(), 2);

    let second = registry.recently_added(&handles(&[0, 2, 4]));
    assert_eq!(second.len(), 1);
    assert_eq!(second[0].0.file_index(), 4);

    let third = registry.recently_added(&handles(&[0, 2, 4]));
    assert_eq!(third.len(), 0);
}

#[test]
fn video_devices_reflects_exactly_the_present_handles() {
    let mut registry = KnownDevices::new();
    registry.update(&handles(&[1, 3, 5]));
    let devices = registry.video_devices(&handles(&[3, 5, 7]));
    let mut present: Vec<usize> = devices.iter().map(|(h, _)| h.inner).collect();
    present.sort();
    assert_eq!(present, vec![3, 5, 7]);
    assert_eq!(registry.ids_assigned(), 4);
}

#[test]
fn still_requests_supersede_earlier_events() {
    let mut state = PictureEventState::new();
    let before = state.current_event();
    assert!(!state.has_been_new_event_since(before));

    let issued = state.request();
    assert_eq!(issued, PictureEvent(0));
    assert!(state.has_been_new_event_since(before));
    assert_eq!(state.current_event(), PictureEvent(1));

    let later = state.current_event();
    assert!(!state.has_been_new_event_since(later));
}

#[test]
fn transport_failures_stop_everyone_camera_failures_one_feed() {
    let id = DeviceId(4);
    assert_eq!(
        stream_failure_action(OrbitError::TcpStreamFailed, id),
        FailureAction::StopAllStreams,
    );
    assert_eq!(
        stream_failure_action(OrbitError::WebcamFailed, id),
        FailureAction::SendStopNotice(id),
    );
}

#[test]
fn only_the_device_gone_code_is_swallowed() {
    assert!(is_device_gone_error(19));
    assert!(!is_device_gone_error(0));
    assert!(!is_device_gone_error(5));
}
