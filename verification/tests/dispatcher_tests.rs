use mxcfb::completion::CompletionResult;
use mxcfb::consts::{EPDC_FLAG_TEST_COLLISION, TEMP_USE_AMBIENT};
use mxcfb::dispatcher::{AbiState, Dispatcher, SubmitOutcome, Submission};
use mxcfb::error::{DeviceError, Error};
use mxcfb::marker::UpdateMarker;
use mxcfb::request::{AbiVersion, UpdateFlags, UpdateMode, WaveformMode};
use mxcfb::screen_info::{fix_screen_info_size, FixScreenInfo, VarScreenInfo};
use mxcfb::update::{
    update_data_v1_size, MxcfbRect, MxcfbUpdateDataV1, MxcfbUpdateDataV2, MxcfbUpdateMarkerData,
};
use mxcfb::wire::ByteOrder;

const ORDER: ByteOrder = ByteOrder::Little;

fn var_bytes() -> Vec<u8> {
    let mut v = VarScreenInfo::default();
    v.xres = 1404;
    v.yres = 1872;
    v.xres_virtual = 1404;
    v.yres_virtual = 1872;
    v.bits_per_pixel = 8;
    v.to_bytes(ORDER)
}

fn fix_bytes() -> Vec<u8> {
    let mut f = FixScreenInfo::default();
    f.line_length = 1408;
    f.to_bytes(ORDER)
}

fn dispatcher(version: Option<AbiVersion>) -> Dispatcher {
    Dispatcher::new(ORDER, &fix_bytes(), &var_bytes(), version).unwrap()
}

fn full() -> MxcfbRect {
    MxcfbRect { top: 0, left: 0, width: 1404, height: 1872 }
}

fn submit(d: &mut Dispatcher, region: MxcfbRect, flags: UpdateFlags) -> Result<Submission, Error> {
    d.submit(region, WaveformMode::GrayscaleClear16, UpdateMode::Full, flags, None, None)
}

/// Submits and has the device accept at once.
fn issue(d: &mut Dispatcher, region: MxcfbRect, flags: UpdateFlags) -> UpdateMarker {
    let s = submit(d, region, flags).unwrap();
    match d.submit_reply(&s, Ok(())) {
        SubmitOutcome::Issued(m) => m,
        other => panic!("not issued: {:?}", other),
    }
}

/// What a device of the second layout writes back to a wait.
fn answer(request: &[u8], collided: bool) -> Vec<u8> {
    let asked = MxcfbUpdateMarkerData::from_bytes(ORDER, request).unwrap();
    MxcfbUpdateMarkerData {
        update_marker: asked.update_marker,
        collision_test: if collided { 1 } else { 0 },
    }
    .to_bytes(ORDER)
}

#[test]
fn new_dispatcher_reads_the_geometry() {
    let d = dispatcher(None);
    let g = d.query_geometry();
    assert_eq!(g.xres, 1404);
    assert_eq!(g.yres, 1872);
    assert_eq!(g.bits_per_pixel, 8);
    assert_eq!(g.line_length, 1408);
    assert_eq!(d.abi_state(), AbiState::Unprobed);
    assert_eq!(d.byte_order(), ByteOrder::Little);
    assert_eq!(dispatcher(Some(AbiVersion::V1)).abi_state(), AbiState::Active(AbiVersion::V1));
}

#[test]
fn malformed_geometry_stops_the_start() {
    let short = vec![0u8; fix_screen_info_size() - 1];
    assert_eq!(
        Dispatcher::new(ORDER, &short, &var_bytes(), None).err(),
        Some(Error::MalformedGeometry)
    );
    assert_eq!(
        Dispatcher::new(ORDER, &fix_bytes(), &[0u8; 10], None).err(),
        Some(Error::MalformedGeometry)
    );
}

#[test]
fn full_screen_update_is_issued_and_completes() {
    let mut d = dispatcher(None);
    let s = submit(&mut d, full(), UpdateFlags::empty()).unwrap();
    assert_eq!(s.marker, UpdateMarker { id: 1 });
    assert_eq!(s.version, AbiVersion::V2);
    assert_eq!(s.request.code, 0x4048_462E);
    let sent = MxcfbUpdateDataV2::from_bytes(ORDER, &s.request.payload).unwrap();
    assert_eq!(sent.update_region.width, 1404);
    assert_eq!(sent.update_region.height, 1872);
    assert_eq!(sent.waveform_mode, 2);
    assert_eq!(sent.update_mode, 1);
    assert_eq!(sent.update_marker, 1);
    assert_eq!(sent.temp, TEMP_USE_AMBIENT);
    assert_eq!(sent.flags, 0);
    let marker = match d.submit_reply(&s, Ok(())) {
        SubmitOutcome::Issued(m) => m,
        other => panic!("not issued: {:?}", other),
    };
    assert_eq!(marker, s.marker);
    assert!(d.is_outstanding(marker));
    assert_eq!(d.abi_state(), AbiState::Active(AbiVersion::V2));
    let q = d.wait_for(marker, false).unwrap();
    assert_eq!(q.code, 0xC008_462F);
    assert_eq!(q.payload, vec![1, 0, 0, 0, 0, 0, 0, 0]);
    let reply = answer(&q.payload, false);
    assert_eq!(d.wait_reply(marker, false, Ok(reply)), Ok(CompletionResult::Completed));
    assert!(!d.is_outstanding(marker));
}

#[test]
fn overlapping_update_with_collision_test_reports_the_collision() {
    let mut d = dispatcher(Some(AbiVersion::V2));
    let first = issue(&mut d, MxcfbRect { top: 0, left: 0, width: 100, height: 100 }, UpdateFlags::empty());
    let second = issue(
        &mut d,
        MxcfbRect { top: 50, left: 50, width: 100, height: 100 },
        UpdateFlags::empty().with(EPDC_FLAG_TEST_COLLISION),
    );
    assert_ne!(first, second);
    let q = d.wait_for(second, true).unwrap();
    assert_eq!(q.payload, vec![2, 0, 0, 0, 1, 0, 0, 0]);
    let reply = answer(&q.payload, true);
    assert_eq!(d.wait_reply(second, true, Ok(reply)), Ok(CompletionResult::CollisionDetected));
    assert!(!d.is_outstanding(second));
    assert!(d.is_outstanding(first));
    let q = d.wait_for(first, false).unwrap();
    let reply = answer(&q.payload, true);
    assert_eq!(d.wait_reply(first, false, Ok(reply)), Ok(CompletionResult::Completed));
}

#[test]
fn region_out_of_bounds_is_refused_without_a_request() {
    let cases = [
        MxcfbRect { top: 0, left: 1, width: 1404, height: 10 },
        MxcfbRect { top: 1, left: 0, width: 10, height: 1872 },
        MxcfbRect { top: 0, left: 0, width: 1405, height: 1 },
        MxcfbRect { top: 0xFFFF_FFFF, left: 0, width: 1, height: 1 },
    ];
    for &version in &[None, Some(AbiVersion::V1), Some(AbiVersion::V2)] {
        let mut d = dispatcher(version);
        let before = d.abi_state();
        for r in &cases {
            assert_eq!(submit(&mut d, *r, UpdateFlags::empty()).err(), Some(Error::RegionOutOfBounds));
        }
        assert_eq!(d.abi_state(), before);
        // No marker was spent on the refused updates.
        let s = submit(&mut d, full(), UpdateFlags::empty()).unwrap();
        assert_eq!(s.marker, UpdateMarker { id: 1 });
    }
}

#[test]
fn version_mismatch_falls_back_to_the_first_layout_for_good() {
    let mut d = dispatcher(None);
    let s = submit(&mut d, full(), UpdateFlags::empty()).unwrap();
    assert_eq!(s.version, AbiVersion::V2);
    assert_eq!(s.request.payload.len(), 72);
    let again = match d.submit_reply(&s, Err(DeviceError::UnknownRequest)) {
        SubmitOutcome::Retry(again) => again,
        other => panic!("no fallback: {:?}", other),
    };
    assert_eq!(d.abi_state(), AbiState::Active(AbiVersion::V1));
    assert_eq!(again.marker, s.marker);
    assert_eq!(again.version, AbiVersion::V1);
    assert_eq!(again.request.payload.len(), update_data_v1_size());
    let sent = MxcfbUpdateDataV1::from_bytes(ORDER, &again.request.payload).unwrap();
    assert_eq!(sent.update_marker, s.marker.id);
    assert_eq!(sent.update_region.width, 1404);
    assert_eq!(sent.waveform_mode, 2);
    assert!(!d.is_outstanding(s.marker));
    match d.submit_reply(&again, Ok(())) {
        SubmitOutcome::Issued(m) => assert_eq!(m, s.marker),
        other => panic!("not issued: {:?}", other),
    }
    assert!(d.is_outstanding(s.marker));
    for _ in 0..5 {
        let s = submit(&mut d, full(), UpdateFlags::empty()).unwrap();
        assert_eq!(s.version, AbiVersion::V1);
        assert_eq!(s.request.payload.len(), update_data_v1_size());
        // A later mismatch does not bring the second layout back.
        match d.submit_reply(&s, Err(DeviceError::InvalidArgument)) {
            SubmitOutcome::Rejected(e) => assert_eq!(e, Error::SubmitRejected),
            other => panic!("not rejected: {:?}", other),
        }
        assert_eq!(d.abi_state(), AbiState::Active(AbiVersion::V1));
    }
}

#[test]
fn invalid_argument_counts_as_version_mismatch_on_the_first_submission() {
    let mut d = dispatcher(None);
    let s = submit(&mut d, full(), UpdateFlags::empty()).unwrap();
    assert!(matches!(d.submit_reply(&s, Err(DeviceError::InvalidArgument)), SubmitOutcome::Retry(_)));
    assert_eq!(d.abi_state(), AbiState::Active(AbiVersion::V1));
}

#[test]
fn a_settled_second_layout_is_not_left() {
    let mut d = dispatcher(None);
    issue(&mut d, full(), UpdateFlags::empty());
    assert_eq!(d.abi_state(), AbiState::Active(AbiVersion::V2));
    let s = submit(&mut d, full(), UpdateFlags::empty()).unwrap();
    match d.submit_reply(&s, Err(DeviceError::UnknownRequest)) {
        SubmitOutcome::Rejected(e) => assert_eq!(e, Error::SubmitRejected),
        other => panic!("not rejected: {:?}", other),
    }
    assert_eq!(d.abi_state(), AbiState::Active(AbiVersion::V2));
    assert_eq!(submit(&mut d, full(), UpdateFlags::empty()).unwrap().version, AbiVersion::V2);
}

#[test]
fn device_error_on_the_first_submission_is_fatal() {
    let mut d = dispatcher(None);
    let s = submit(&mut d, full(), UpdateFlags::empty()).unwrap();
    match d.submit_reply(&s, Err(DeviceError::Busy)) {
        SubmitOutcome::Rejected(e) => assert_eq!(e, Error::DispatcherInitFailed),
        other => panic!("not rejected: {:?}", other),
    }
    assert_eq!(d.abi_state(), AbiState::Failed);
    assert!(!d.is_outstanding(s.marker));
    assert_eq!(submit(&mut d, full(), UpdateFlags::empty()).err(), Some(Error::DispatcherInitFailed));
    assert_eq!(d.wait_for(s.marker, false).err(), Some(Error::UnknownMarker));
}

#[test]
fn busy_device_rejects_the_update_and_retires_the_marker() {
    let mut d = dispatcher(Some(AbiVersion::V2));
    let s = submit(&mut d, full(), UpdateFlags::empty()).unwrap();
    match d.submit_reply(&s, Err(DeviceError::Busy)) {
        SubmitOutcome::Rejected(e) => assert_eq!(e, Error::SubmitRejected),
        other => panic!("not rejected: {:?}", other),
    }
    assert!(!d.is_outstanding(s.marker));
    assert_eq!(d.wait_for(s.marker, false).err(), Some(Error::UnknownMarker));
    // The answer to a submission counts once.
    match d.submit_reply(&s, Ok(())) {
        SubmitOutcome::Rejected(e) => assert_eq!(e, Error::UnknownMarker),
        other => panic!("not rejected: {:?}", other),
    }
    let next = issue(&mut d, full(), UpdateFlags::empty());
    assert_ne!(next, s.marker);
}

#[test]
fn wait_for_a_marker_never_issued_is_unknown() {
    for &version in &[None, Some(AbiVersion::V1), Some(AbiVersion::V2)] {
        let mut d = dispatcher(version);
        assert_eq!(d.wait_for(UpdateMarker { id: 1 }, false).err(), Some(Error::UnknownMarker));
        assert_eq!(d.wait_for(UpdateMarker { id: 0 }, true).err(), Some(Error::UnknownMarker));
        assert_eq!(
            d.wait_reply(UpdateMarker { id: 7 }, false, Ok(vec![0; 8])),
            Err(Error::UnknownMarker)
        );
        // Allocated, but not yet accepted by the device.
        let s = submit(&mut d, full(), UpdateFlags::empty()).unwrap();
        assert_eq!(d.wait_for(s.marker, false).err(), Some(Error::UnknownMarker));
    }
}

#[test]
fn wait_for_a_retired_marker_is_unknown() {
    let mut d = dispatcher(Some(AbiVersion::V2));
    let marker = issue(&mut d, full(), UpdateFlags::empty());
    let q = d.wait_for(marker, false).unwrap();
    assert_eq!(d.wait_reply(marker, false, Ok(q.payload)), Ok(CompletionResult::Completed));
    assert_eq!(d.wait_for(marker, false).err(), Some(Error::UnknownMarker));
    assert_eq!(d.wait_for(marker, true).err(), Some(Error::UnknownMarker));
    assert_eq!(d.wait_reply(marker, false, Ok(vec![0; 8])), Err(Error::UnknownMarker));
}

#[test]
fn timeout_is_surfaced_and_the_wait_can_be_repeated() {
    let mut d = dispatcher(Some(AbiVersion::V2));
    let marker = issue(&mut d, full(), UpdateFlags::empty());
    assert_eq!(d.wait_reply(marker, false, Err(DeviceError::TimedOut)), Err(Error::DeviceTimeout));
    assert!(d.is_outstanding(marker));
    let q = d.wait_for(marker, false).unwrap();
    assert_eq!(d.wait_reply(marker, false, Ok(q.payload)), Ok(CompletionResult::Completed));
}

#[test]
fn wait_any_returns_the_oldest_outstanding_marker() {
    let mut d = dispatcher(Some(AbiVersion::V1));
    assert_eq!(d.wait_any().err(), Some(Error::UnknownMarker));
    let a = issue(&mut d, full(), UpdateFlags::empty());
    let b = issue(&mut d, full(), UpdateFlags::empty());
    let c = issue(&mut d, full(), UpdateFlags::empty());
    let q = d.wait_for(b, false).unwrap();
    assert_eq!(q.code, 0x4004_462F);
    assert_eq!(d.wait_reply(b, false, Ok(q.payload)), Ok(CompletionResult::Completed));
    let (oldest, q) = d.wait_any().unwrap();
    assert_eq!(oldest, a);
    assert_eq!(q.payload, vec![1, 0, 0, 0]);
    assert_eq!(d.wait_reply(oldest, false, Ok(q.payload)), Ok(CompletionResult::Completed));
    let (oldest, q) = d.wait_any().unwrap();
    assert_eq!(oldest, c);
    assert_eq!(d.wait_reply(oldest, false, Ok(q.payload)), Ok(CompletionResult::Completed));
    assert_eq!(d.wait_any().err(), Some(Error::UnknownMarker));
}

#[test]
fn capabilities_of_the_other_layout_are_unsupported() {
    let mut v1 = dispatcher(Some(AbiVersion::V1));
    let a = issue(&mut v1, full(), UpdateFlags::empty());
    assert_eq!(v1.wait_for(a, true).err(), Some(Error::UnsupportedOperation));
    assert_eq!(v1.wait_reply(a, true, Ok(vec![])), Err(Error::UnsupportedOperation));
    assert!(v1.is_outstanding(a));
    let mut v2 = dispatcher(Some(AbiVersion::V2));
    issue(&mut v2, full(), UpdateFlags::empty());
    assert_eq!(v2.wait_any().err(), Some(Error::UnsupportedOperation));
}

#[test]
fn markers_of_concurrent_submissions_are_distinct() {
    let mut d = dispatcher(Some(AbiVersion::V2));
    let mut pending = Vec::new();
    for _ in 0..100 {
        pending.push(submit(&mut d, full(), UpdateFlags::empty()).unwrap());
    }
    let mut ids: Vec<u32> = pending.iter().map(|s| s.marker.id).collect();
    ids.sort();
    ids.dedup();
    assert_eq!(ids.len(), 100);
    assert!(ids.iter().all(|&id| id != 0));
}

#[test]
fn geometry_can_be_read_anew() {
    let mut d = dispatcher(Some(AbiVersion::V2));
    let mut v = VarScreenInfo::default();
    v.xres_virtual = 800;
    v.yres_virtual = 600;
    v.bits_per_pixel = 8;
    assert_eq!(d.refresh_geometry(&fix_bytes(), &v.to_bytes(ORDER)), Ok(()));
    assert_eq!(d.query_geometry().xres_virtual, 800);
    assert_eq!(submit(&mut d, full(), UpdateFlags::empty()).err(), Some(Error::RegionOutOfBounds));
    assert_eq!(d.refresh_geometry(&fix_bytes(), &[0u8; 3]), Err(Error::MalformedGeometry));
    assert_eq!(d.query_geometry().xres_virtual, 800);
}

#[test]
fn explicit_temperature_is_encoded() {
    let mut d = dispatcher(Some(AbiVersion::V2));
    let s = d
        .submit(full(), WaveformMode::Auto, UpdateMode::Partial, UpdateFlags::empty(), Some(21), None)
        .unwrap();
    let sent = MxcfbUpdateDataV2::from_bytes(ORDER, &s.request.payload).unwrap();
    assert_eq!(sent.temp, 21);
    assert_eq!(sent.waveform_mode, 0x101);
    assert_eq!(sent.update_mode, 0);
}
