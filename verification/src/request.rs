//! What a caller asks for when it has a region redrawn, and the encoder
//! that turns the request into the structure of the active layout.

use vstd::prelude::*;
use crate::consts::{
    EPDC_FLAG_USE_DITHERING_ORDERED, EPDC_FLAG_USE_DITHERING_PASSTHROUGH, NTX_WFM_MODE_A2,
    NTX_WFM_MODE_DU, NTX_WFM_MODE_GC16, NTX_WFM_MODE_GC4, NTX_WFM_MODE_GL16, NTX_WFM_MODE_GLD16,
    NTX_WFM_MODE_GLR16, NTX_WFM_MODE_INIT, TEMP_USE_AMBIENT, UPDATE_MODE_FULL,
    UPDATE_MODE_PARTIAL, WAVEFORM_MODE_AUTO,
};
use crate::error::Error;
use crate::geometry::ScreenGeometry;
use crate::marker::UpdateMarker;
use crate::update::{
    lemma_update_v1_roundtrip, lemma_update_v2_roundtrip, update_data_v1_len,
    MxcfbAltBufferDataV1, MxcfbAltBufferDataV2, MxcfbRect, MxcfbUpdateDataV1, MxcfbUpdateDataV2,
    UPDATE_DATA_V2_LEN,
};
use crate::wire::ByteOrder;

verus! {

/// The two layouts in which the controller takes an update request.
#[derive(Clone, Copy, Debug, PartialEq, Eq, Structural)]
pub enum AbiVersion {
    V1,
    V2,
}

/// The driving sequence with which the panel redraws a region.
#[derive(Clone, Copy, Debug, PartialEq, Eq, Structural)]
pub enum WaveformMode {
    Init,
    DirectUpdate,
    GrayscaleClear16,
    GrayscaleClear4,
    Animation2Bit,
    GrayscaleLow16,
    GrayscaleLow16Regal,
    GrayscaleLow16Direct,
    /// The controller chooses.
    Auto,
}

/// Whether the region alone is redrawn, or the whole panel refreshed.
#[derive(Clone, Copy, Debug, PartialEq, Eq, Structural)]
pub enum UpdateMode {
    Partial,
    Full,
}

/// The dithering algorithm. The controller implements `Passthrough` and
/// `Ordered`; the codes of the others are reserved.
#[derive(Clone, Copy, Debug, PartialEq, Eq, Structural)]
pub enum DitherMode {
    Passthrough,
    FloydSteinberg,
    Atkinson,
    Ordered,
    QuantOnly,
}

impl WaveformMode {
    /// The code that stands for the mode in a request.
    pub open spec fn wire_code(self) -> u32 {
        match self {
            WaveformMode::Init => NTX_WFM_MODE_INIT,
            WaveformMode::DirectUpdate => NTX_WFM_MODE_DU,
            WaveformMode::GrayscaleClear16 => NTX_WFM_MODE_GC16,
            WaveformMode::GrayscaleClear4 => NTX_WFM_MODE_GC4,
            WaveformMode::Animation2Bit => NTX_WFM_MODE_A2,
            WaveformMode::GrayscaleLow16 => NTX_WFM_MODE_GL16,
            WaveformMode::GrayscaleLow16Regal => NTX_WFM_MODE_GLR16,
            WaveformMode::GrayscaleLow16Direct => NTX_WFM_MODE_GLD16,
            WaveformMode::Auto => WAVEFORM_MODE_AUTO,
        }
    }

    /// The mode that the code stands for, if it stands for one.
    pub open spec fn of_code(code: u32) -> Option<WaveformMode> {
        if code == NTX_WFM_MODE_INIT {
            Some(WaveformMode::Init)
        } else if code == NTX_WFM_MODE_DU {
            Some(WaveformMode::DirectUpdate)
        } else if code == NTX_WFM_MODE_GC16 {
            Some(WaveformMode::GrayscaleClear16)
        } else if code == NTX_WFM_MODE_GC4 {
            Some(WaveformMode::GrayscaleClear4)
        } else if code == NTX_WFM_MODE_A2 {
            Some(WaveformMode::Animation2Bit)
        } else if code == NTX_WFM_MODE_GL16 {
            Some(WaveformMode::GrayscaleLow16)
        } else if code == NTX_WFM_MODE_GLR16 {
            Some(WaveformMode::GrayscaleLow16Regal)
        } else if code == NTX_WFM_MODE_GLD16 {
            Some(WaveformMode::GrayscaleLow16Direct)
        } else if code == WAVEFORM_MODE_AUTO {
            Some(WaveformMode::Auto)
        } else {
            None
        }
    }

    /// The code that stands for the mode in a request.
    pub fn code(&self) -> (c: u32)
        ensures
            c == self.wire_code(),
    {
        match self {
            WaveformMode::Init => NTX_WFM_MODE_INIT,
            WaveformMode::DirectUpdate => NTX_WFM_MODE_DU,
            WaveformMode::GrayscaleClear16 => NTX_WFM_MODE_GC16,
            WaveformMode::GrayscaleClear4 => NTX_WFM_MODE_GC4,
            WaveformMode::Animation2Bit => NTX_WFM_MODE_A2,
            WaveformMode::GrayscaleLow16 => NTX_WFM_MODE_GL16,
            WaveformMode::GrayscaleLow16Regal => NTX_WFM_MODE_GLR16,
            WaveformMode::GrayscaleLow16Direct => NTX_WFM_MODE_GLD16,
            WaveformMode::Auto => WAVEFORM_MODE_AUTO,
        }
    }

    /// The mode that the code stands for, if it stands for one.
    pub fn from_code(code: u32) -> (r: Option<WaveformMode>)
        ensures
            r == Self::of_code(code),
    {
        if code == NTX_WFM_MODE_INIT {
            Some(WaveformMode::Init)
        } else if code == NTX_WFM_MODE_DU {
            Some(WaveformMode::DirectUpdate)
        } else if code == NTX_WFM_MODE_GC16 {
            Some(WaveformMode::GrayscaleClear16)
        } else if code == NTX_WFM_MODE_GC4 {
            Some(WaveformMode::GrayscaleClear4)
        } else if code == NTX_WFM_MODE_A2 {
            Some(WaveformMode::Animation2Bit)
        } else if code == NTX_WFM_MODE_GL16 {
            Some(WaveformMode::GrayscaleLow16)
        } else if code == NTX_WFM_MODE_GLR16 {
            Some(WaveformMode::GrayscaleLow16Regal)
        } else if code == NTX_WFM_MODE_GLD16 {
            Some(WaveformMode::GrayscaleLow16Direct)
        } else if code == WAVEFORM_MODE_AUTO {
            Some(WaveformMode::Auto)
        } else {
            None
        }
    }
}

impl UpdateMode {
    /// The code that stands for the mode in a request.
    pub open spec fn wire_code(self) -> u32 {
        match self {
            UpdateMode::Partial => UPDATE_MODE_PARTIAL,
            UpdateMode::Full => UPDATE_MODE_FULL,
        }
    }

    /// The code that stands for the mode in a request.
    pub fn code(&self) -> (c: u32)
        ensures
            c == self.wire_code(),
    {
        match self {
            UpdateMode::Partial => UPDATE_MODE_PARTIAL,
            UpdateMode::Full => UPDATE_MODE_FULL,
        }
    }
}

impl DitherMode {
    /// The code that stands for the algorithm in a request.
    pub open spec fn wire_code(self) -> i32 {
        match self {
            DitherMode::Passthrough => EPDC_FLAG_USE_DITHERING_PASSTHROUGH,
            DitherMode::FloydSteinberg => 1,
            DitherMode::Atkinson => 2,
            DitherMode::Ordered => EPDC_FLAG_USE_DITHERING_ORDERED,
            DitherMode::QuantOnly => 4,
        }
    }

    /// The code that stands for the algorithm in a request.
    pub fn code(&self) -> (c: i32)
        ensures
            c == self.wire_code(),
    {
        match self {
            DitherMode::Passthrough => EPDC_FLAG_USE_DITHERING_PASSTHROUGH,
            DitherMode::FloydSteinberg => 1,
            DitherMode::Atkinson => 2,
            DitherMode::Ordered => EPDC_FLAG_USE_DITHERING_ORDERED,
            DitherMode::QuantOnly => 4,
        }
    }
}

/// How the update behaves: a set of flag bits, of which each stands for
/// one capability, and the dithering to apply. Bits that have no meaning
/// here are carried unchanged.
#[derive(Clone, Copy, Debug, PartialEq, Eq, Structural)]
pub struct UpdateFlags {
    /// The flag bits, as the request carries them.
    pub bits: u32,
    /// The dithering algorithm. Only the second layout carries it.
    pub dither: DitherMode,
    /// The number of bits to which dithering quantizes. Only the second
    /// layout carries it.
    pub quant_bit: i32,
}

impl UpdateFlags {
    /// Whether every bit of `flag` is set.
    pub open spec fn has(self, flag: u32) -> bool {
        self.bits & flag == flag
    }

    /// No flag, no dithering.
    pub fn empty() -> (f: UpdateFlags)
        ensures
            f == (UpdateFlags { bits: 0, dither: DitherMode::Passthrough, quant_bit: 0 }),
    {
        UpdateFlags { bits: 0, dither: DitherMode::Passthrough, quant_bit: 0 }
    }

    /// The given flag bits, no dithering.
    pub fn from_bits(bits: u32) -> (f: UpdateFlags)
        ensures
            f == (UpdateFlags { bits, dither: DitherMode::Passthrough, quant_bit: 0 }),
    {
        UpdateFlags { bits, dither: DitherMode::Passthrough, quant_bit: 0 }
    }

    /// The same with the bits of `flag` set.
    pub fn with(self, flag: u32) -> (f: UpdateFlags)
        ensures
            f == (UpdateFlags { bits: self.bits | flag, ..self }),
    {
        UpdateFlags { bits: self.bits | flag, dither: self.dither, quant_bit: self.quant_bit }
    }

    /// The same with the bits of `flag` cleared.
    pub fn without(self, flag: u32) -> (f: UpdateFlags)
        ensures
            f == (UpdateFlags { bits: self.bits & !flag, ..self }),
    {
        UpdateFlags { bits: self.bits & !flag, dither: self.dither, quant_bit: self.quant_bit }
    }

    /// The same with the given dithering.
    pub fn with_dithering(self, dither: DitherMode, quant_bit: i32) -> (f: UpdateFlags)
        ensures
            f == (UpdateFlags { bits: self.bits, dither, quant_bit }),
    {
        UpdateFlags { bits: self.bits, dither, quant_bit }
    }

    /// Tells whether every bit of `flag` is set.
    pub fn contains(&self, flag: u32) -> (b: bool)
        ensures
            b == self.has(flag),
    {
        self.bits & flag == flag
    }
}

/// Setting or clearing a flag leaves every other flag as it was, and the
/// flag itself set or cleared.
pub proof fn lemma_flags_independent(bits: u32, flag: u32, other: u32)
    requires
        flag & other == 0,
    ensures
        ((bits | flag) & other == other) == (bits & other == other),
        ((bits & !flag) & other == other) == (bits & other == other),
        (bits | flag) & flag == flag,
        flag != 0 ==> (bits & !flag) & flag != flag,
{
    assert(((bits | flag) & other == other) == (bits & other == other)) by (bit_vector)
        requires
            flag & other == 0,
    ;
    assert(((bits & !flag) & other == other) == (bits & other == other)) by (bit_vector)
        requires
            flag & other == 0,
    ;
    assert((bits | flag) & flag == flag) by (bit_vector);
    assert(flag != 0 ==> (bits & !flag) & flag != flag) by (bit_vector);
}

/// Pixels that are taken from elsewhere than the frame buffer. The buffer
/// belongs to the caller; only its description travels in a request.
#[derive(Clone, Copy, Debug)]
pub struct AlternateBuffer {
    /// Address of the pixels in the caller's memory.
    pub virt_addr: usize,
    /// Address of the pixels in physical memory.
    pub phys_addr: u32,
    pub width: u32,
    pub height: u32,
    /// The part of the buffer to take.
    pub region: MxcfbRect,
}

/// One update, as a caller asks for it.
#[derive(Clone, Copy, Debug)]
pub struct UpdateRequest {
    pub region: MxcfbRect,
    pub waveform: WaveformMode,
    pub mode: UpdateMode,
    /// The temperature, or `TEMP_USE_AMBIENT`.
    pub temperature: i32,
    pub flags: UpdateFlags,
    pub alt_buffer: Option<AlternateBuffer>,
}

/// The temperature field of a request: the given value, or the one that
/// stands for the ambient temperature.
pub open spec fn temperature_code(temperature: Option<i32>) -> i32 {
    match temperature {
        Some(t) => t,
        None => TEMP_USE_AMBIENT,
    }
}

/// The alternate buffer in the first layout. Zero in every field where
/// there is none: the device then takes the frame buffer.
pub open spec fn alt_buffer_v1(alt: Option<AlternateBuffer>) -> MxcfbAltBufferDataV1 {
    match alt {
        Some(a) => MxcfbAltBufferDataV1 {
            virt_addr: a.virt_addr,
            phys_addr: a.phys_addr,
            width: a.width,
            height: a.height,
            alt_update_region: a.region,
        },
        None => MxcfbAltBufferDataV1 {
            virt_addr: 0,
            phys_addr: 0,
            width: 0,
            height: 0,
            alt_update_region: MxcfbRect { top: 0, left: 0, width: 0, height: 0 },
        },
    }
}

/// The alternate buffer in the second layout, which has no field for the
/// address in the caller's memory.
pub open spec fn alt_buffer_v2(alt: Option<AlternateBuffer>) -> MxcfbAltBufferDataV2 {
    match alt {
        Some(a) => MxcfbAltBufferDataV2 {
            phys_addr: a.phys_addr,
            width: a.width,
            height: a.height,
            alt_update_region: a.region,
        },
        None => MxcfbAltBufferDataV2 {
            phys_addr: 0,
            width: 0,
            height: 0,
            alt_update_region: MxcfbRect { top: 0, left: 0, width: 0, height: 0 },
        },
    }
}

/// The structure of the first layout for the update `u` under `marker`.
pub open spec fn update_v1(u: UpdateRequest, marker: UpdateMarker) -> MxcfbUpdateDataV1 {
    MxcfbUpdateDataV1 {
        update_region: u.region,
        waveform_mode: u.waveform.wire_code(),
        update_mode: u.mode.wire_code(),
        update_marker: marker.id,
        temp: u.temperature,
        flags: u.flags.bits,
        alt_buffer_data: alt_buffer_v1(u.alt_buffer),
    }
}

/// The structure of the second layout for the update `u` under `marker`.
pub open spec fn update_v2(u: UpdateRequest, marker: UpdateMarker) -> MxcfbUpdateDataV2 {
    MxcfbUpdateDataV2 {
        update_region: u.region,
        waveform_mode: u.waveform.wire_code(),
        update_mode: u.mode.wire_code(),
        update_marker: marker.id,
        temp: u.temperature,
        flags: u.flags.bits,
        dither_mode: u.flags.dither.wire_code(),
        quant_bit: u.flags.quant_bit,
        alt_buffer_data: alt_buffer_v2(u.alt_buffer),
    }
}

/// The bytes that carry the update `u` under `marker` in the given layout.
pub open spec fn encoded(
    order: ByteOrder,
    version: AbiVersion,
    marker: UpdateMarker,
    u: UpdateRequest,
) -> Seq<u8> {
    match version {
        AbiVersion::V1 => update_v1(u, marker).layout(order),
        AbiVersion::V2 => update_v2(u, marker).layout(order),
    }
}

/// Size in bytes of an update request in the given layout.
pub open spec fn update_len(version: AbiVersion) -> nat {
    match version {
        AbiVersion::V1 => update_data_v1_len(),
        AbiVersion::V2 => UPDATE_DATA_V2_LEN as nat,
    }
}

/// What encoding the update gives: its bytes, or `RegionOutOfBounds` where
/// the region reaches beyond the virtual resolution.
pub open spec fn encoding(
    order: ByteOrder,
    geometry: ScreenGeometry,
    version: AbiVersion,
    marker: UpdateMarker,
    u: UpdateRequest,
) -> Result<Seq<u8>, Error> {
    if geometry.contains(u.region) {
        Ok(encoded(order, version, marker, u))
    } else {
        Err(Error::RegionOutOfBounds)
    }
}

/// Builds the structure of the first layout.
pub fn build_v1(u: &UpdateRequest, marker: UpdateMarker) -> (d: MxcfbUpdateDataV1)
    ensures
        d == update_v1(*u, marker),
{
    let alt_buffer_data = match u.alt_buffer {
        Some(a) => MxcfbAltBufferDataV1 {
            virt_addr: a.virt_addr,
            phys_addr: a.phys_addr,
            width: a.width,
            height: a.height,
            alt_update_region: a.region,
        },
        None => MxcfbAltBufferDataV1::default(),
    };
    MxcfbUpdateDataV1 {
        update_region: u.region,
        waveform_mode: u.waveform.code(),
        update_mode: u.mode.code(),
        update_marker: marker.id,
        temp: u.temperature,
        flags: u.flags.bits,
        alt_buffer_data,
    }
}

/// Builds the structure of the second layout.
pub fn build_v2(u: &UpdateRequest, marker: UpdateMarker) -> (d: MxcfbUpdateDataV2)
    ensures
        d == update_v2(*u, marker),
{
    let alt_buffer_data = match u.alt_buffer {
        Some(a) => MxcfbAltBufferDataV2 {
            phys_addr: a.phys_addr,
            width: a.width,
            height: a.height,
            alt_update_region: a.region,
        },
        None => MxcfbAltBufferDataV2::default(),
    };
    MxcfbUpdateDataV2 {
        update_region: u.region,
        waveform_mode: u.waveform.code(),
        update_mode: u.mode.code(),
        update_marker: marker.id,
        temp: u.temperature,
        flags: u.flags.bits,
        dither_mode: u.flags.dither.code(),
        quant_bit: u.flags.quant_bit,
        alt_buffer_data,
    }
}

/// Encodes one update as the structure of the given layout. Fails with
/// `RegionOutOfBounds`, and encodes nothing, where the region reaches
/// beyond the virtual resolution of `geometry`.
pub fn encode_request(
    order: ByteOrder,
    geometry: &ScreenGeometry,
    version: AbiVersion,
    marker: UpdateMarker,
    u: &UpdateRequest,
) -> (r: Result<Vec<u8>, Error>)
    ensures
        match encoding(order, *geometry, version, marker, *u) {
            Ok(bytes) => r.is_ok() && r.unwrap()@ == bytes && bytes.len() == update_len(version),
            Err(e) => r == Err::<Vec<u8>, Error>(e),
        },
{
    if !geometry.holds(&u.region) {
        return Err(Error::RegionOutOfBounds);
    }
    match version {
        AbiVersion::V1 => Ok(build_v1(u, marker).to_bytes(order)),
        AbiVersion::V2 => Ok(build_v2(u, marker).to_bytes(order)),
    }
}

/// Encodes one update as the structure of the given layout.
///
/// `temperature` is a temperature or `TEMP_USE_AMBIENT`; it is not
/// examined. Without an alternate buffer the fields that describe one are
/// zero. Fails with `RegionOutOfBounds`, and encodes nothing, where the
/// region reaches beyond the virtual resolution of `geometry`.
pub fn encode(
    order: ByteOrder,
    geometry: &ScreenGeometry,
    version: AbiVersion,
    region: MxcfbRect,
    waveform: WaveformMode,
    mode: UpdateMode,
    marker: UpdateMarker,
    temperature: i32,
    flags: UpdateFlags,
    alt_buffer: Option<AlternateBuffer>,
) -> (r: Result<Vec<u8>, Error>)
    ensures
        match encoding(
            order,
            *geometry,
            version,
            marker,
            UpdateRequest { region, waveform, mode, temperature, flags, alt_buffer },
        ) {
            Ok(bytes) => r.is_ok() && r.unwrap()@ == bytes && bytes.len() == update_len(version),
            Err(e) => r == Err::<Vec<u8>, Error>(e),
        },
{
    let u = UpdateRequest { region, waveform, mode, temperature, flags, alt_buffer };
    encode_request(order, geometry, version, marker, &u)
}

/// Decoding what was encoded gives back every field: the region, the codes
/// of waveform and mode, the marker, the temperature, the flag bits, the
/// dithering in the second layout, and the alternate buffer or zeros.
pub proof fn lemma_encode_roundtrip(
    order: ByteOrder,
    version: AbiVersion,
    marker: UpdateMarker,
    u: UpdateRequest,
)
    ensures
        encoded(order, version, marker, u).len() == update_len(version),
        version == AbiVersion::V1 ==> MxcfbUpdateDataV1::read(
            order,
            encoded(order, version, marker, u),
        ) == update_v1(u, marker),
        version == AbiVersion::V2 ==> MxcfbUpdateDataV2::read(
            order,
            encoded(order, version, marker, u),
        ) == update_v2(u, marker),
{
    match version {
        AbiVersion::V1 => lemma_update_v1_roundtrip(order, update_v1(u, marker)),
        AbiVersion::V2 => lemma_update_v2_roundtrip(order, update_v2(u, marker)),
    }
}

/// The flags of a request touch its flag field and nothing else: two
/// requests that differ in their flag bits alone decode to structures that
/// differ in that field alone, and the field holds the bits as given.
pub proof fn lemma_flags_touch_only_flags(
    order: ByteOrder,
    version: AbiVersion,
    marker: UpdateMarker,
    u: UpdateRequest,
    bits: u32,
)
    ensures
        ({
            let w = UpdateRequest { flags: UpdateFlags { bits, ..u.flags }, ..u };
            let a = MxcfbUpdateDataV1::read(order, encoded(order, AbiVersion::V1, marker, u));
            let b = MxcfbUpdateDataV1::read(order, encoded(order, AbiVersion::V1, marker, w));
            let c = MxcfbUpdateDataV2::read(order, encoded(order, AbiVersion::V2, marker, u));
            let d = MxcfbUpdateDataV2::read(order, encoded(order, AbiVersion::V2, marker, w));
            &&& b == (MxcfbUpdateDataV1 { flags: bits, ..a })
            &&& d == (MxcfbUpdateDataV2 { flags: bits, ..c })
            &&& a.flags == u.flags.bits
            &&& c.flags == u.flags.bits
            &&& a.waveform_mode == u.waveform.wire_code()
            &&& a.update_mode == u.mode.wire_code()
        }),
{
    let w = UpdateRequest { flags: UpdateFlags { bits, ..u.flags }, ..u };
    lemma_encode_roundtrip(order, AbiVersion::V1, marker, u);
    lemma_encode_roundtrip(order, AbiVersion::V1, marker, w);
    lemma_encode_roundtrip(order, AbiVersion::V2, marker, u);
    lemma_encode_roundtrip(order, AbiVersion::V2, marker, w);
}

/// A waveform mode and its code determine each other.
pub proof fn lemma_waveform_code_roundtrip(w: WaveformMode)
    ensures
        WaveformMode::of_code(w.wire_code()) == Some(w),
{
}

} // verus!
