//! The update request: what a caller asks for, the two layouts in which the
//! controller takes it, and the encoder that builds them.

use vstd::prelude::*;
use crate::wire::{
    get_u32s, get_word, i32_to_word, i32_word, lemma_i32_roundtrip, lemma_piece,
    lemma_u32s_roundtrip, lemma_word_roundtrip, put_u32s, put_word, put_zeros, u32s_bytes,
    u32s_value, word_bytes, word_i32, word_len, word_size, word_to_i32, word_value, zeros,
    ByteOrder,
};

verus! {

/// A rectangle of pixels.
#[derive(Clone, Copy, Debug)]
pub struct MxcfbRect {
    pub top: u32,
    pub left: u32,
    pub width: u32,
    pub height: u32,
}

/// Another source of pixels than the frame buffer, in the first layout.
/// `virt_addr` holds the address of the pixels in the caller's memory.
#[derive(Clone, Copy, Debug)]
pub struct MxcfbAltBufferDataV1 {
    pub virt_addr: usize,
    pub phys_addr: u32,
    pub width: u32,
    pub height: u32,
    pub alt_update_region: MxcfbRect,
}

/// The update request in the first layout.
#[derive(Clone, Copy, Debug)]
pub struct MxcfbUpdateDataV1 {
    pub update_region: MxcfbRect,
    pub waveform_mode: u32,
    pub update_mode: u32,
    pub update_marker: u32,
    pub temp: libc::c_int,
    pub flags: libc::c_uint,
    pub alt_buffer_data: MxcfbAltBufferDataV1,
}

/// What is handed to the controller to wait for an update, in the second
/// layout. The controller writes into `collision_test` whether the update
/// collided with another one.
#[derive(Clone, Copy, Debug)]
pub struct MxcfbUpdateMarkerData {
    pub update_marker: u32,
    pub collision_test: u32,
}

/// Another source of pixels than the frame buffer, in the second layout.
#[derive(Clone, Copy, Debug)]
pub struct MxcfbAltBufferDataV2 {
    pub phys_addr: u32,
    pub width: u32,
    pub height: u32,
    pub alt_update_region: MxcfbRect,
}

/// The update request in the second layout.
#[derive(Clone, Copy, Debug)]
pub struct MxcfbUpdateDataV2 {
    pub update_region: MxcfbRect,
    pub waveform_mode: u32,
    pub update_mode: u32,
    pub update_marker: u32,
    pub temp: libc::c_int,
    pub flags: libc::c_uint,
    pub dither_mode: libc::c_int,
    pub quant_bit: libc::c_int,
    pub alt_buffer_data: MxcfbAltBufferDataV2,
}

/// Size in bytes of an update request in the second layout.
pub const UPDATE_DATA_V2_LEN: usize = 72;

/// Size in bytes of the structure that waits for an update in the second layout.
pub const UPDATE_MARKER_DATA_LEN: usize = 8;

/// Size in bytes of an update request in the first layout on this machine.
pub open spec fn update_data_v1_len() -> nat {
    56 + 3 * word_len()
}

impl Default for MxcfbRect {
    fn default() -> (r: Self)
        ensures
            r.top == 0 && r.left == 0 && r.width == 0 && r.height == 0,
    {
        MxcfbRect { top: 0, left: 0, width: 0, height: 0 }
    }
}

impl Default for MxcfbAltBufferDataV1 {
    fn default() -> (r: Self)
        ensures
            r.virt_addr == 0 && r.phys_addr == 0 && r.width == 0 && r.height == 0,
            r.alt_update_region.top == 0 && r.alt_update_region.left == 0,
            r.alt_update_region.width == 0 && r.alt_update_region.height == 0,
    {
        MxcfbAltBufferDataV1 {
            virt_addr: 0,
            phys_addr: 0,
            width: 0,
            height: 0,
            alt_update_region: MxcfbRect::default(),
        }
    }
}

impl Default for MxcfbAltBufferDataV2 {
    fn default() -> (r: Self)
        ensures
            r.phys_addr == 0 && r.width == 0 && r.height == 0,
            r.alt_update_region.top == 0 && r.alt_update_region.left == 0,
            r.alt_update_region.width == 0 && r.alt_update_region.height == 0,
    {
        MxcfbAltBufferDataV2 {
            phys_addr: 0,
            width: 0,
            height: 0,
            alt_update_region: MxcfbRect::default(),
        }
    }
}

impl MxcfbUpdateMarkerData {
    /// The two fields of the structure, in memory order.
    pub open spec fn words(self) -> Seq<u32> {
        seq![self.update_marker, self.collision_test]
    }

    /// The bytes of the structure as it lies in memory.
    pub open spec fn layout(self, order: ByteOrder) -> Seq<u8> {
        u32s_bytes(order, self.words())
    }

    /// The structure that lies in the eight bytes `s`.
    pub open spec fn read(order: ByteOrder, s: Seq<u8>) -> MxcfbUpdateMarkerData {
        let ws = u32s_value(order, s);
        MxcfbUpdateMarkerData { update_marker: ws[0], collision_test: ws[1] }
    }

    /// Writes the structure as it lies in memory.
    pub fn to_bytes(&self, order: ByteOrder) -> (out: Vec<u8>)
        ensures
            out@ == self.layout(order),
            out@.len() == UPDATE_MARKER_DATA_LEN,
    {
        let ws: [u32; 2] = [self.update_marker, self.collision_test];
        assert(ws@ =~= self.words());
        let mut out: Vec<u8> = Vec::new();
        put_u32s(&mut out, order, ws.as_slice());
        assert(out@ =~= self.layout(order));
        out
    }

    /// Reads the structure from a buffer of exactly its size.
    pub fn from_bytes(order: ByteOrder, bytes: &[u8]) -> (r: Option<MxcfbUpdateMarkerData>)
        ensures
            bytes@.len() == UPDATE_MARKER_DATA_LEN ==> r == Some(Self::read(order, bytes@)),
            bytes@.len() != UPDATE_MARKER_DATA_LEN ==> r.is_none(),
    {
        if bytes.len() != UPDATE_MARKER_DATA_LEN {
            return None;
        }
        let ws: Vec<u32> = get_u32s(bytes, 0, 2, order);
        assert(bytes@.subrange(0, 8) =~= bytes@);
        Some(MxcfbUpdateMarkerData { update_marker: ws[0], collision_test: ws[1] })
    }
}

impl MxcfbUpdateDataV2 {
    /// The eighteen fields of the structure, in memory order. Each takes
    /// four bytes; the signed ones are stored in two's complement.
    pub open spec fn words(self) -> Seq<u32> {
        seq![
            self.update_region.top,
            self.update_region.left,
            self.update_region.width,
            self.update_region.height,
            self.waveform_mode,
            self.update_mode,
            self.update_marker,
            i32_word(self.temp),
            self.flags,
            i32_word(self.dither_mode),
            i32_word(self.quant_bit),
            self.alt_buffer_data.phys_addr,
            self.alt_buffer_data.width,
            self.alt_buffer_data.height,
            self.alt_buffer_data.alt_update_region.top,
            self.alt_buffer_data.alt_update_region.left,
            self.alt_buffer_data.alt_update_region.width,
            self.alt_buffer_data.alt_update_region.height,
        ]
    }

    /// The structure whose fields, in memory order, are `ws`.
    pub open spec fn of_words(ws: Seq<u32>) -> MxcfbUpdateDataV2 {
        MxcfbUpdateDataV2 {
            update_region: MxcfbRect { top: ws[0], left: ws[1], width: ws[2], height: ws[3] },
            waveform_mode: ws[4],
            update_mode: ws[5],
            update_marker: ws[6],
            temp: word_i32(ws[7]),
            flags: ws[8],
            dither_mode: word_i32(ws[9]),
            quant_bit: word_i32(ws[10]),
            alt_buffer_data: MxcfbAltBufferDataV2 {
                phys_addr: ws[11],
                width: ws[12],
                height: ws[13],
                alt_update_region: MxcfbRect {
                    top: ws[14],
                    left: ws[15],
                    width: ws[16],
                    height: ws[17],
                },
            },
        }
    }

    /// The bytes of the structure as it lies in memory.
    pub open spec fn layout(self, order: ByteOrder) -> Seq<u8> {
        u32s_bytes(order, self.words())
    }

    /// The structure that lies in the 72 bytes `s`.
    pub open spec fn read(order: ByteOrder, s: Seq<u8>) -> MxcfbUpdateDataV2 {
        Self::of_words(u32s_value(order, s))
    }

    /// Writes the structure as it lies in memory.
    pub fn to_bytes(&self, order: ByteOrder) -> (out: Vec<u8>)
        ensures
            out@ == self.layout(order),
            out@.len() == UPDATE_DATA_V2_LEN,
    {
        let ws: [u32; 18] = [
            self.update_region.top,
            self.update_region.left,
            self.update_region.width,
            self.update_region.height,
            self.waveform_mode,
            self.update_mode,
            self.update_marker,
            i32_to_word(self.temp),
            self.flags,
            i32_to_word(self.dither_mode),
            i32_to_word(self.quant_bit),
            self.alt_buffer_data.phys_addr,
            self.alt_buffer_data.width,
            self.alt_buffer_data.height,
            self.alt_buffer_data.alt_update_region.top,
            self.alt_buffer_data.alt_update_region.left,
            self.alt_buffer_data.alt_update_region.width,
            self.alt_buffer_data.alt_update_region.height,
        ];
        assert(ws@ =~= self.words());
        let mut out: Vec<u8> = Vec::new();
        put_u32s(&mut out, order, ws.as_slice());
        assert(out@ =~= self.layout(order));
        out
    }

    /// Reads the structure from a buffer of exactly its size.
    pub fn from_bytes(order: ByteOrder, bytes: &[u8]) -> (r: Option<MxcfbUpdateDataV2>)
        ensures
            bytes@.len() == UPDATE_DATA_V2_LEN ==> r == Some(Self::read(order, bytes@)),
            bytes@.len() != UPDATE_DATA_V2_LEN ==> r.is_none(),
    {
        if bytes.len() != UPDATE_DATA_V2_LEN {
            return None;
        }
        let ws: Vec<u32> = get_u32s(bytes, 0, 18, order);
        assert(bytes@.subrange(0, 72) =~= bytes@);
        Some(
            MxcfbUpdateDataV2 {
                update_region: MxcfbRect { top: ws[0], left: ws[1], width: ws[2], height: ws[3] },
                waveform_mode: ws[4],
                update_mode: ws[5],
                update_marker: ws[6],
                temp: word_to_i32(ws[7]),
                flags: ws[8],
                dither_mode: word_to_i32(ws[9]),
                quant_bit: word_to_i32(ws[10]),
                alt_buffer_data: MxcfbAltBufferDataV2 {
                    phys_addr: ws[11],
                    width: ws[12],
                    height: ws[13],
                    alt_update_region: MxcfbRect {
                        top: ws[14],
                        left: ws[15],
                        width: ws[16],
                        height: ws[17],
                    },
                },
            },
        )
    }
}

impl MxcfbUpdateDataV1 {
    /// The nine fields that precede the alternate buffer, in memory order.
    pub open spec fn head_words(self) -> Seq<u32> {
        seq![
            self.update_region.top,
            self.update_region.left,
            self.update_region.width,
            self.update_region.height,
            self.waveform_mode,
            self.update_mode,
            self.update_marker,
            i32_word(self.temp),
            self.flags,
        ]
    }

    /// The seven fields that follow the address of the alternate buffer, in
    /// memory order.
    pub open spec fn tail_words(self) -> Seq<u32> {
        seq![
            self.alt_buffer_data.phys_addr,
            self.alt_buffer_data.width,
            self.alt_buffer_data.height,
            self.alt_buffer_data.alt_update_region.top,
            self.alt_buffer_data.alt_update_region.left,
            self.alt_buffer_data.alt_update_region.width,
            self.alt_buffer_data.alt_update_region.height,
        ]
    }

    /// The bytes of the structure as it lies in memory. The alternate
    /// buffer starts with an address, so it is aligned to a machine word,
    /// and so is the end of the structure; the gaps hold zero bytes.
    pub open spec fn layout(self, order: ByteOrder) -> Seq<u8> {
        u32s_bytes(order, self.head_words()) + zeros((word_len() - 4) as nat) + word_bytes(
            order,
            self.alt_buffer_data.virt_addr,
        ) + u32s_bytes(order, self.tail_words()) + zeros((word_len() - 4) as nat)
    }

    /// The structure that lies in the bytes `s`, each field read at its offset.
    pub open spec fn read(order: ByteOrder, s: Seq<u8>) -> MxcfbUpdateDataV1 {
        let w = word_len() as int;
        let h = u32s_value(order, s.subrange(0, 36));
        let t = u32s_value(order, s.subrange(32 + 2 * w, 60 + 2 * w));
        MxcfbUpdateDataV1 {
            update_region: MxcfbRect { top: h[0], left: h[1], width: h[2], height: h[3] },
            waveform_mode: h[4],
            update_mode: h[5],
            update_marker: h[6],
            temp: word_i32(h[7]),
            flags: h[8],
            alt_buffer_data: MxcfbAltBufferDataV1 {
                virt_addr: word_value(order, s.subrange(32 + w, 32 + 2 * w)),
                phys_addr: t[0],
                width: t[1],
                height: t[2],
                alt_update_region: MxcfbRect { top: t[3], left: t[4], width: t[5], height: t[6] },
            },
        }
    }

    /// Writes the structure as it lies in memory.
    pub fn to_bytes(&self, order: ByteOrder) -> (out: Vec<u8>)
        ensures
            out@ == self.layout(order),
            out@.len() == update_data_v1_len(),
    {
        let w: usize = word_size();
        let h: [u32; 9] = [
            self.update_region.top,
            self.update_region.left,
            self.update_region.width,
            self.update_region.height,
            self.waveform_mode,
            self.update_mode,
            self.update_marker,
            i32_to_word(self.temp),
            self.flags,
        ];
        assert(h@ =~= self.head_words());
        let t: [u32; 7] = [
            self.alt_buffer_data.phys_addr,
            self.alt_buffer_data.width,
            self.alt_buffer_data.height,
            self.alt_buffer_data.alt_update_region.top,
            self.alt_buffer_data.alt_update_region.left,
            self.alt_buffer_data.alt_update_region.width,
            self.alt_buffer_data.alt_update_region.height,
        ];
        assert(t@ =~= self.tail_words());
        let mut out: Vec<u8> = Vec::new();
        put_u32s(&mut out, order, h.as_slice());
        put_zeros(&mut out, w - 4);
        put_word(&mut out, order, self.alt_buffer_data.virt_addr);
        put_u32s(&mut out, order, t.as_slice());
        put_zeros(&mut out, w - 4);
        proof {
            lemma_word_roundtrip(order, self.alt_buffer_data.virt_addr);
            assert(out@ =~= self.layout(order));
        }
        out
    }

    /// Reads the structure from a buffer of exactly its size.
    pub fn from_bytes(order: ByteOrder, bytes: &[u8]) -> (r: Option<MxcfbUpdateDataV1>)
        ensures
            bytes@.len() == update_data_v1_len() ==> r == Some(Self::read(order, bytes@)),
            bytes@.len() != update_data_v1_len() ==> r.is_none(),
    {
        let w: usize = word_size();
        if bytes.len() != 56 + 3 * w {
            return None;
        }
        let h: Vec<u32> = get_u32s(bytes, 0, 9, order);
        let t: Vec<u32> = get_u32s(bytes, 32 + 2 * w, 7, order);
        let virt_addr: usize = get_word(bytes, 32 + w, order);
        Some(
            MxcfbUpdateDataV1 {
                update_region: MxcfbRect { top: h[0], left: h[1], width: h[2], height: h[3] },
                waveform_mode: h[4],
                update_mode: h[5],
                update_marker: h[6],
                temp: word_to_i32(h[7]),
                flags: h[8],
                alt_buffer_data: MxcfbAltBufferDataV1 {
                    virt_addr,
                    phys_addr: t[0],
                    width: t[1],
                    height: t[2],
                    alt_update_region: MxcfbRect {
                        top: t[3],
                        left: t[4],
                        width: t[5],
                        height: t[6],
                    },
                },
            },
        )
    }
}

/// Size in bytes of an update request in the first layout on this machine.
pub fn update_data_v1_size() -> (n: usize)
    ensures
        n == update_data_v1_len(),
{
    56 + 3 * word_size()
}

/// Reading back a stored wait structure gives the same structure.
pub proof fn lemma_marker_data_roundtrip(order: ByteOrder, v: MxcfbUpdateMarkerData)
    ensures
        v.layout(order).len() == UPDATE_MARKER_DATA_LEN,
        MxcfbUpdateMarkerData::read(order, v.layout(order)) == v,
{
    lemma_u32s_roundtrip(order, v.words());
}

/// Reading back a stored update request of the second layout gives the
/// same structure.
pub proof fn lemma_update_v2_roundtrip(order: ByteOrder, v: MxcfbUpdateDataV2)
    ensures
        v.layout(order).len() == UPDATE_DATA_V2_LEN,
        MxcfbUpdateDataV2::read(order, v.layout(order)) == v,
{
    lemma_u32s_roundtrip(order, v.words());
    lemma_i32_roundtrip(v.temp);
    lemma_i32_roundtrip(v.dither_mode);
    lemma_i32_roundtrip(v.quant_bit);
}

/// Each part of a stored update request of the first layout lies at its offset.
pub proof fn lemma_update_v1_fields(order: ByteOrder, v: MxcfbUpdateDataV1)
    ensures
        ({
            let w = word_len() as int;
            let s = v.layout(order);
            &&& s.len() == update_data_v1_len()
            &&& s.subrange(0, 36) == u32s_bytes(order, v.head_words())
            &&& s.subrange(32 + w, 32 + 2 * w) == word_bytes(order, v.alt_buffer_data.virt_addr)
            &&& s.subrange(32 + 2 * w, 60 + 2 * w) == u32s_bytes(order, v.tail_words())
        }),
{
    let s = v.layout(order);
    let p0 = u32s_bytes(order, v.head_words());
    let p1 = zeros((word_len() - 4) as nat);
    let p2 = word_bytes(order, v.alt_buffer_data.virt_addr);
    let p3 = u32s_bytes(order, v.tail_words());
    let p4 = zeros((word_len() - 4) as nat);
    let t1 = p0 + p1;
    let t2 = t1 + p2;
    let t3 = t2 + p3;
    lemma_word_roundtrip(order, v.alt_buffer_data.virt_addr);
    assert(s == t3 + p4);
    assert((t3 + p4).is_prefix_of(s)) by {
        assert(s.subrange(0, s.len() as int) =~= s);
    }
    lemma_piece(t3, p4, s);
    lemma_piece(t2, p3, s);
    lemma_piece(t1, p2, s);
    lemma_piece(p0, p1, s);
    assert(s.subrange(0, 36) =~= p0);
}

/// Reading back a stored update request of the first layout gives the
/// same structure.
pub proof fn lemma_update_v1_roundtrip(order: ByteOrder, v: MxcfbUpdateDataV1)
    ensures
        v.layout(order).len() == update_data_v1_len(),
        MxcfbUpdateDataV1::read(order, v.layout(order)) == v,
{
    let s = v.layout(order);
    let r = MxcfbUpdateDataV1::read(order, s);
    lemma_update_v1_fields(order, v);
    assert(r.alt_buffer_data.virt_addr == v.alt_buffer_data.virt_addr) by {
        lemma_word_roundtrip(order, v.alt_buffer_data.virt_addr);
    }
    assert(r.update_region == v.update_region && r.waveform_mode == v.waveform_mode
        && r.update_mode == v.update_mode && r.update_marker == v.update_marker && r.temp
        == v.temp && r.flags == v.flags) by {
        lemma_u32s_roundtrip(order, v.head_words());
        lemma_i32_roundtrip(v.temp);
    }
    assert(r.alt_buffer_data == v.alt_buffer_data) by {
        lemma_u32s_roundtrip(order, v.tail_words());
    }
}

} // verus!
