use mxcfb::consts::{
    EPDC_FLAG_ENABLE_INVERSION, EPDC_FLAG_FORCE_MONOCHROME, EPDC_FLAG_GROUP_UPDATE,
    EPDC_FLAG_TEST_COLLISION, EPDC_FLAG_USE_AAD, EPDC_FLAG_USE_DITHERING_NTX_D8,
    EPDC_FLAG_USE_DITHERING_ORDERED, EPDC_FLAG_USE_DITHERING_PASSTHROUGH,
    EPDC_FLAG_USE_DITHERING_Y1, EPDC_FLAG_USE_DITHERING_Y4, EPDC_FLAG_USE_REGAL,
    FBIOGET_FSCREENINFO, FBIOGET_VSCREENINFO, FBIOPUT_VSCREENINFO, TEMP_USE_AMBIENT,
    UPDATE_MODE_FULL, UPDATE_MODE_PARTIAL, WAVEFORM_MODE_AUTO,
};
use mxcfb::error::Error;
use mxcfb::geometry::ScreenGeometry;
use mxcfb::ioctl::{request_code, DeviceRequest, Direction};
use mxcfb::marker::UpdateMarker;
use mxcfb::request::{
    build_v1, build_v2, encode, encode_request, AbiVersion, AlternateBuffer, DitherMode,
    UpdateFlags, UpdateMode, UpdateRequest, WaveformMode,
};
use mxcfb::screen_info::{FixScreenInfo, VarScreenInfo};
use mxcfb::update::{
    update_data_v1_size, MxcfbAltBufferDataV1, MxcfbAltBufferDataV2, MxcfbRect,
    MxcfbUpdateDataV1, MxcfbUpdateDataV2, MxcfbUpdateMarkerData, UPDATE_DATA_V2_LEN,
};
use mxcfb::wire::ByteOrder;

fn geometry() -> ScreenGeometry {
    let mut v = VarScreenInfo::default();
    v.xres = 1404;
    v.yres = 1872;
    v.xres_virtual = 1404;
    v.yres_virtual = 1872;
    v.bits_per_pixel = 8;
    ScreenGeometry::from_info(&FixScreenInfo::default(), &v).unwrap()
}

fn region() -> MxcfbRect {
    MxcfbRect { top: 10, left: 20, width: 300, height: 400 }
}

fn alt() -> AlternateBuffer {
    AlternateBuffer {
        virt_addr: 0x7000_1000,
        phys_addr: 0x8000_2000,
        width: 640,
        height: 480,
        region: MxcfbRect { top: 1, left: 2, width: 3, height: 4 },
    }
}

#[test]
fn constants_have_the_values_of_the_kernel_interface() {
    assert_eq!(FBIOGET_VSCREENINFO, 0x4600);
    assert_eq!(FBIOPUT_VSCREENINFO, 0x4601);
    assert_eq!(FBIOGET_FSCREENINFO, 0x4602);
    assert_eq!(WAVEFORM_MODE_AUTO, 0x101);
    assert_eq!(UPDATE_MODE_PARTIAL, 0);
    assert_eq!(UPDATE_MODE_FULL, 1);
    assert_eq!(TEMP_USE_AMBIENT, 0x1000);
    assert_eq!(EPDC_FLAG_ENABLE_INVERSION, 0x01);
    assert_eq!(EPDC_FLAG_FORCE_MONOCHROME, 0x02);
    assert_eq!(EPDC_FLAG_TEST_COLLISION, 0x200);
    assert_eq!(EPDC_FLAG_GROUP_UPDATE, 0x400);
    assert_eq!(EPDC_FLAG_USE_AAD, 0x1000);
    assert_eq!(EPDC_FLAG_USE_REGAL, 0x8000);
    assert_eq!(EPDC_FLAG_USE_DITHERING_Y1, 0x2000);
    assert_eq!(EPDC_FLAG_USE_DITHERING_Y4, 0x4000);
    assert_eq!(EPDC_FLAG_USE_DITHERING_NTX_D8, 0x100000);
    assert_eq!(EPDC_FLAG_USE_DITHERING_PASSTHROUGH, 0);
    assert_eq!(EPDC_FLAG_USE_DITHERING_ORDERED, 3);
}

#[test]
fn waveform_modes_have_their_codes() {
    let all = [
        (WaveformMode::Init, 0u32),
        (WaveformMode::DirectUpdate, 1),
        (WaveformMode::GrayscaleClear16, 2),
        (WaveformMode::GrayscaleClear4, 3),
        (WaveformMode::Animation2Bit, 4),
        (WaveformMode::GrayscaleLow16, 5),
        (WaveformMode::GrayscaleLow16Regal, 6),
        (WaveformMode::GrayscaleLow16Direct, 7),
        (WaveformMode::Auto, 0x101),
    ];
    for &(mode, code) in &all {
        assert_eq!(mode.code(), code);
        assert_eq!(WaveformMode::from_code(code), Some(mode));
    }
    assert_eq!(WaveformMode::from_code(8), None);
    assert_eq!(WaveformMode::from_code(0x100), None);
}

#[test]
fn update_and_dither_modes_have_their_codes() {
    assert_eq!(UpdateMode::Partial.code(), 0);
    assert_eq!(UpdateMode::Full.code(), 1);
    assert_eq!(DitherMode::Passthrough.code(), 0);
    assert_eq!(DitherMode::FloydSteinberg.code(), 1);
    assert_eq!(DitherMode::Atkinson.code(), 2);
    assert_eq!(DitherMode::Ordered.code(), 3);
    assert_eq!(DitherMode::QuantOnly.code(), 4);
}

#[test]
fn flags_are_independent_bits() {
    let f = UpdateFlags::empty()
        .with(EPDC_FLAG_TEST_COLLISION)
        .with(EPDC_FLAG_GROUP_UPDATE);
    assert_eq!(f.bits, 0x600);
    assert!(f.contains(EPDC_FLAG_TEST_COLLISION));
    assert!(f.contains(EPDC_FLAG_GROUP_UPDATE));
    assert!(!f.contains(EPDC_FLAG_USE_REGAL));
    let g = f.without(EPDC_FLAG_TEST_COLLISION);
    assert_eq!(g.bits, 0x400);
    assert!(!g.contains(EPDC_FLAG_TEST_COLLISION));
    assert!(g.contains(EPDC_FLAG_GROUP_UPDATE));
}

#[test]
fn unknown_flag_bits_are_kept() {
    let f = UpdateFlags::from_bits(0x8000_0004).with(EPDC_FLAG_ENABLE_INVERSION);
    assert_eq!(f.bits, 0x8000_0005);
    let bytes = encode(
        ByteOrder::Little,
        &geometry(),
        AbiVersion::V2,
        region(),
        WaveformMode::Auto,
        UpdateMode::Partial,
        UpdateMarker { id: 1 },
        TEMP_USE_AMBIENT,
        f,
        None,
    )
    .unwrap();
    assert_eq!(&bytes[32..36], &0x8000_0005u32.to_le_bytes());
}

#[test]
fn dithering_does_not_touch_the_flag_bits() {
    let f = UpdateFlags::from_bits(0x600).with_dithering(DitherMode::Ordered, 7);
    assert_eq!(f.bits, 0x600);
    assert_eq!(f.dither, DitherMode::Ordered);
    assert_eq!(f.quant_bit, 7);
    assert_eq!(UpdateFlags::empty().dither, DitherMode::Passthrough);
}

#[test]
fn collision_test_and_group_update_give_0x600_in_the_structure() {
    let flags = UpdateFlags::empty()
        .with(EPDC_FLAG_TEST_COLLISION)
        .with(EPDC_FLAG_GROUP_UPDATE);
    for &version in &[AbiVersion::V1, AbiVersion::V2] {
        let with = encode(
            ByteOrder::Little,
            &geometry(),
            version,
            region(),
            WaveformMode::GrayscaleClear16,
            UpdateMode::Full,
            UpdateMarker { id: 5 },
            TEMP_USE_AMBIENT,
            flags,
            None,
        )
        .unwrap();
        let without = encode(
            ByteOrder::Little,
            &geometry(),
            version,
            region(),
            WaveformMode::GrayscaleClear16,
            UpdateMode::Full,
            UpdateMarker { id: 5 },
            TEMP_USE_AMBIENT,
            UpdateFlags::empty(),
            None,
        )
        .unwrap();
        assert_eq!(&with[32..36], &0x600u32.to_le_bytes());
        assert_eq!(&with[16..20], &2u32.to_le_bytes());
        assert_eq!(&with[20..24], &1u32.to_le_bytes());
        assert_eq!(&with[..32], &without[..32]);
        assert_eq!(&with[36..], &without[36..]);
    }
}

#[test]
fn second_layout_has_72_bytes_in_field_order() {
    assert_eq!(UPDATE_DATA_V2_LEN, 72);
    let flags = UpdateFlags::from_bits(0x02).with_dithering(DitherMode::Ordered, 7);
    let bytes = encode(
        ByteOrder::Little,
        &geometry(),
        AbiVersion::V2,
        region(),
        WaveformMode::Animation2Bit,
        UpdateMode::Partial,
        UpdateMarker { id: 0xABCD },
        24,
        flags,
        Some(alt()),
    )
    .unwrap();
    assert_eq!(bytes.len(), 72);
    let words: Vec<u32> = bytes
        .chunks(4)
        .map(|c| u32::from_le_bytes([c[0], c[1], c[2], c[3]]))
        .collect();
    assert_eq!(
        words,
        vec![10, 20, 300, 400, 4, 0, 0xABCD, 24, 0x02, 3, 7, 0x8000_2000, 640, 480, 1, 2, 3, 4]
    );
}

#[test]
fn first_layout_has_the_size_of_the_c_structure() {
    let w = std::mem::size_of::<usize>();
    assert_eq!(update_data_v1_size(), 56 + 3 * w);
    let bytes = encode(
        ByteOrder::Little,
        &geometry(),
        AbiVersion::V1,
        region(),
        WaveformMode::DirectUpdate,
        UpdateMode::Full,
        UpdateMarker { id: 9 },
        TEMP_USE_AMBIENT,
        UpdateFlags::from_bits(0x01).with_dithering(DitherMode::Ordered, 7),
        Some(alt()),
    )
    .unwrap();
    assert_eq!(bytes.len(), 56 + 3 * w);
    let head: Vec<u32> = bytes[..36]
        .chunks(4)
        .map(|c| u32::from_le_bytes([c[0], c[1], c[2], c[3]]))
        .collect();
    assert_eq!(head, vec![10, 20, 300, 400, 1, 1, 9, 0x1000, 0x01]);
    assert!(bytes[36..32 + w].iter().all(|&b| b == 0));
    assert_eq!(&bytes[32 + w..32 + 2 * w], &0x7000_1000usize.to_le_bytes());
    let tail: Vec<u32> = bytes[32 + 2 * w..60 + 2 * w]
        .chunks(4)
        .map(|c| u32::from_le_bytes([c[0], c[1], c[2], c[3]]))
        .collect();
    assert_eq!(tail, vec![0x8000_2000, 640, 480, 1, 2, 3, 4]);
    assert!(bytes[60 + 2 * w..].iter().all(|&b| b == 0));
}

#[test]
fn without_alternate_buffer_its_fields_are_zero() {
    let w = std::mem::size_of::<usize>();
    let v1 = encode(
        ByteOrder::Big,
        &geometry(),
        AbiVersion::V1,
        region(),
        WaveformMode::Auto,
        UpdateMode::Partial,
        UpdateMarker { id: 1 },
        TEMP_USE_AMBIENT,
        UpdateFlags::empty(),
        None,
    )
    .unwrap();
    assert!(v1[36..].iter().all(|&b| b == 0));
    assert_eq!(v1.len(), 56 + 3 * w);
    let v2 = encode(
        ByteOrder::Big,
        &geometry(),
        AbiVersion::V2,
        region(),
        WaveformMode::Auto,
        UpdateMode::Partial,
        UpdateMarker { id: 1 },
        TEMP_USE_AMBIENT,
        UpdateFlags::empty(),
        None,
    )
    .unwrap();
    assert!(v2[36..].iter().all(|&b| b == 0));
    assert_eq!(&v2[16..20], &0x101u32.to_be_bytes());
    assert_eq!(&v2[28..32], &0x1000u32.to_be_bytes());
}

#[test]
fn temperature_is_carried_as_given() {
    for &t in &[0i32, 25, -10, i32::MIN, i32::MAX, 0x1000] {
        let bytes = encode(
            ByteOrder::Little,
            &geometry(),
            AbiVersion::V2,
            region(),
            WaveformMode::Auto,
            UpdateMode::Partial,
            UpdateMarker { id: 1 },
            t,
            UpdateFlags::empty(),
            None,
        )
        .unwrap();
        assert_eq!(&bytes[28..32], &t.to_le_bytes());
        let back = MxcfbUpdateDataV2::from_bytes(ByteOrder::Little, &bytes).unwrap();
        assert_eq!(back.temp, t);
    }
}

#[test]
fn region_beyond_the_virtual_resolution_is_refused() {
    let cases = [
        MxcfbRect { top: 0, left: 1, width: 1404, height: 1 },
        MxcfbRect { top: 1, left: 0, width: 1, height: 1872 },
        MxcfbRect { top: 0, left: 0, width: 1405, height: 1 },
        MxcfbRect { top: 0, left: 0, width: 1, height: 1873 },
        MxcfbRect { top: 0xFFFF_FFFF, left: 0, width: 1, height: 1 },
        MxcfbRect { top: 0, left: 0xFFFF_FFFF, width: 0xFFFF_FFFF, height: 1 },
    ];
    for r in &cases {
        for &version in &[AbiVersion::V1, AbiVersion::V2] {
            let e = encode(
                ByteOrder::Little,
                &geometry(),
                version,
                *r,
                WaveformMode::Auto,
                UpdateMode::Partial,
                UpdateMarker { id: 1 },
                TEMP_USE_AMBIENT,
                UpdateFlags::empty(),
                None,
            );
            assert_eq!(e.err(), Some(Error::RegionOutOfBounds));
        }
    }
}

#[test]
fn region_that_fills_the_panel_is_encoded() {
    let full = MxcfbRect { top: 0, left: 0, width: 1404, height: 1872 };
    let bytes = encode(
        ByteOrder::Little,
        &geometry(),
        AbiVersion::V2,
        full,
        WaveformMode::GrayscaleClear16,
        UpdateMode::Full,
        UpdateMarker { id: 1 },
        TEMP_USE_AMBIENT,
        UpdateFlags::empty(),
        None,
    )
    .unwrap();
    assert_eq!(&bytes[8..12], &1404u32.to_le_bytes());
    assert_eq!(&bytes[12..16], &1872u32.to_le_bytes());
}

#[test]
fn encode_then_decode_recovers_every_field() {
    let u = UpdateRequest {
        region: region(),
        waveform: WaveformMode::GrayscaleLow16Regal,
        mode: UpdateMode::Full,
        temperature: -3,
        flags: UpdateFlags::from_bits(0x8600).with_dithering(DitherMode::Ordered, 1),
        alt_buffer: Some(alt()),
    };
    let marker = UpdateMarker { id: 0xDEAD_BEEF };
    for &order in &[ByteOrder::Little, ByteOrder::Big] {
        let b1 = encode_request(order, &geometry(), AbiVersion::V1, marker, &u).unwrap();
        let d1 = MxcfbUpdateDataV1::from_bytes(order, &b1).unwrap();
        assert_eq!(d1.update_region.top, 10);
        assert_eq!(d1.update_region.left, 20);
        assert_eq!(d1.update_region.width, 300);
        assert_eq!(d1.update_region.height, 400);
        assert_eq!(d1.waveform_mode, 6);
        assert_eq!(d1.update_mode, 1);
        assert_eq!(d1.update_marker, 0xDEAD_BEEF);
        assert_eq!(d1.temp, -3);
        assert_eq!(d1.flags, 0x8600);
        assert_eq!(d1.alt_buffer_data.virt_addr, 0x7000_1000);
        assert_eq!(d1.alt_buffer_data.phys_addr, 0x8000_2000);
        assert_eq!(d1.alt_buffer_data.width, 640);
        assert_eq!(d1.alt_buffer_data.height, 480);
        assert_eq!(d1.alt_buffer_data.alt_update_region.top, 1);
        assert_eq!(d1.alt_buffer_data.alt_update_region.height, 4);
        assert_eq!(d1.to_bytes(order), b1);

        let b2 = encode_request(order, &geometry(), AbiVersion::V2, marker, &u).unwrap();
        let d2 = MxcfbUpdateDataV2::from_bytes(order, &b2).unwrap();
        assert_eq!(d2.update_region.width, 300);
        assert_eq!(d2.waveform_mode, 6);
        assert_eq!(d2.update_mode, 1);
        assert_eq!(d2.update_marker, 0xDEAD_BEEF);
        assert_eq!(d2.temp, -3);
        assert_eq!(d2.flags, 0x8600);
        assert_eq!(d2.dither_mode, 3);
        assert_eq!(d2.quant_bit, 1);
        assert_eq!(d2.alt_buffer_data.phys_addr, 0x8000_2000);
        assert_eq!(d2.alt_buffer_data.alt_update_region.left, 2);
        assert_eq!(d2.to_bytes(order), b2);
    }
}

#[test]
fn structures_of_wrong_size_are_not_decoded() {
    assert!(MxcfbUpdateDataV2::from_bytes(ByteOrder::Little, &[0u8; 71]).is_none());
    assert!(MxcfbUpdateDataV2::from_bytes(ByteOrder::Little, &[0u8; 73]).is_none());
    assert!(MxcfbUpdateDataV2::from_bytes(ByteOrder::Little, &[0u8; 72]).is_some());
    let n = update_data_v1_size();
    assert!(MxcfbUpdateDataV1::from_bytes(ByteOrder::Little, &vec![0u8; n - 1]).is_none());
    assert!(MxcfbUpdateDataV1::from_bytes(ByteOrder::Little, &vec![0u8; n]).is_some());
    assert!(MxcfbUpdateMarkerData::from_bytes(ByteOrder::Little, &[0u8; 7]).is_none());
    assert!(MxcfbUpdateMarkerData::from_bytes(ByteOrder::Little, &[0u8; 8]).is_some());
}

#[test]
fn marker_data_round_trip() {
    let d = MxcfbUpdateMarkerData { update_marker: 77, collision_test: 1 };
    assert_eq!(d.to_bytes(ByteOrder::Little), vec![77, 0, 0, 0, 1, 0, 0, 0]);
    assert_eq!(d.to_bytes(ByteOrder::Big), vec![0, 0, 0, 77, 0, 0, 0, 1]);
    let back = MxcfbUpdateMarkerData::from_bytes(ByteOrder::Big, &d.to_bytes(ByteOrder::Big)).unwrap();
    assert_eq!(back.update_marker, 77);
    assert_eq!(back.collision_test, 1);
}

#[test]
fn default_structures_are_zero() {
    let r = MxcfbRect::default();
    assert_eq!((r.top, r.left, r.width, r.height), (0, 0, 0, 0));
    let a = MxcfbAltBufferDataV1::default();
    assert_eq!((a.virt_addr, a.phys_addr, a.width, a.height), (0, 0, 0, 0));
    assert_eq!(a.alt_update_region.width, 0);
    let b = MxcfbAltBufferDataV2::default();
    assert_eq!((b.phys_addr, b.width, b.height), (0, 0, 0));
    assert_eq!(b.alt_update_region.height, 0);
}

#[test]
fn structures_are_built_from_the_request() {
    let u = UpdateRequest {
        region: region(),
        waveform: WaveformMode::Init,
        mode: UpdateMode::Partial,
        temperature: TEMP_USE_AMBIENT,
        flags: UpdateFlags::from_bits(0x400).with_dithering(DitherMode::Ordered, 7),
        alt_buffer: None,
    };
    let d1 = build_v1(&u, UpdateMarker { id: 3 });
    assert_eq!(d1.waveform_mode, 0);
    assert_eq!(d1.update_marker, 3);
    assert_eq!(d1.temp, 0x1000);
    assert_eq!(d1.flags, 0x400);
    assert_eq!(d1.alt_buffer_data.virt_addr, 0);
    let d2 = build_v2(&u, UpdateMarker { id: 3 });
    assert_eq!(d2.dither_mode, 3);
    assert_eq!(d2.quant_bit, 7);
    assert_eq!(d2.alt_buffer_data.phys_addr, 0);
}

#[test]
fn request_numbers_are_those_of_the_kernel() {
    assert_eq!(request_code(Direction::Write, b'F', 0x2E, 72), Some(0x4048_462E));
    assert_eq!(request_code(Direction::Write, b'F', 0x2E, 68), Some(0x4044_462E));
    assert_eq!(request_code(Direction::Write, b'F', 0x2F, 4), Some(0x4004_462F));
    assert_eq!(request_code(Direction::ReadWrite, b'F', 0x2F, 8), Some(0xC008_462F));
    assert_eq!(request_code(Direction::Read, b'F', 0x00, 160), Some(0x80A0_4600));
    assert_eq!(request_code(Direction::Plain, 0, 0, 0), Some(0));
    assert_eq!(request_code(Direction::ReadWrite, 0xFF, 0xFF, 0x3FFF), Some(0xFFFF_FFFF));
    assert_eq!(request_code(Direction::Write, b'F', 0x2E, 0x4000), None);
}

#[test]
fn device_requests_carry_number_and_argument() {
    let q = DeviceRequest::send_update(vec![0u8; 72]).unwrap();
    assert_eq!(q.code, 0x4048_462E);
    assert_eq!(q.payload.len(), 72);
    let q = DeviceRequest::wait_for_update(false, vec![1, 0, 0, 0]).unwrap();
    assert_eq!(q.code, 0x4004_462F);
    assert_eq!(q.payload, vec![1, 0, 0, 0]);
    let q = DeviceRequest::wait_for_update(true, vec![0u8; 8]).unwrap();
    assert_eq!(q.code, 0xC008_462F);
    assert!(DeviceRequest::send_update(vec![0u8; 0x4000]).is_none());
}
