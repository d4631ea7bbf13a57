//! The two screen-info structures of the framebuffer interface, and the
//! panel geometry that is read from them.

use vstd::prelude::*;
use crate::error::Error;
use crate::wire::{
    get_u16s, get_u32, get_u32s, get_word, lemma_piece, lemma_u16s_roundtrip, lemma_u32_roundtrip,
    lemma_u32s_roundtrip, lemma_word_roundtrip, put_u16s, put_u32, put_u32s, put_word, put_zeros,
    u16s_bytes, u16s_value, u32_bytes, u32_value, u32s_bytes, u32s_value, word_bytes, word_len,
    word_size, word_value, zeros, ByteOrder,
};

verus! {

/// Where one colour channel lies inside a pixel.
#[derive(Clone, Copy, Debug)]
pub struct Bitfield {
    pub offset: u32,
    pub length: u32,
    pub msb_right: u32,
}

/// What the driver reports about the frame buffer and cannot be changed.
#[derive(Clone, Debug)]
pub struct FixScreenInfo {
    pub id: [u8; 16],
    pub smem_start: usize,
    pub smem_len: u32,
    pub kind: u32,
    pub type_aux: u32,
    pub visual: u32,
    pub xpanstep: u16,
    pub ypanstep: u16,
    pub ywrapstep: u16,
    pub line_length: u32,
    pub mmio_start: usize,
    pub mmio_len: u32,
    pub accel: u32,
    pub capabilities: u16,
    pub reserved: [u16; 2],
}

/// What the driver reports about the current video mode.
#[derive(Clone, Debug)]
pub struct VarScreenInfo {
    pub xres: u32,
    pub yres: u32,
    pub xres_virtual: u32,
    pub yres_virtual: u32,
    pub xoffset: u32,
    pub yoffset: u32,
    pub bits_per_pixel: u32,
    pub grayscale: u32,
    pub red: Bitfield,
    pub green: Bitfield,
    pub blue: Bitfield,
    pub transp: Bitfield,
    pub nonstd: u32,
    pub activate: u32,
    pub height: u32,
    pub width: u32,
    pub accel_flags: u32,
    pub pixclock: u32,
    pub left_margin: u32,
    pub right_margin: u32,
    pub upper_margin: u32,
    pub lower_margin: u32,
    pub hsync_len: u32,
    pub vsync_len: u32,
    pub sync: u32,
    pub vmode: u32,
    pub rotate: u32,
    pub colorspace: u32,
    pub reserved: [u32; 4],
}

/// Size in bytes of the variable screen info: forty fields of four bytes.
pub const VAR_SCREEN_INFO_LEN: usize = 160;

/// Size in bytes of the fixed screen info on this machine.
pub open spec fn fix_screen_info_len() -> nat {
    56 + 3 * word_len()
}

impl Bitfield {
    /// The bit positions of a pixel that the channel occupies.
    pub open spec fn bits(self) -> Set<int> {
        Set::new(|i: int| self.offset <= i < self.offset + self.length)
    }

    /// Whether the channel lies inside a pixel of `bits_per_pixel` bits.
    pub open spec fn fits(self, bits_per_pixel: u32) -> bool {
        self.offset + self.length <= bits_per_pixel
    }

    /// Whether the two channels have no bit in common.
    pub open spec fn apart_from(self, other: Bitfield) -> bool {
        self.bits().disjoint(other.bits())
    }

    /// Tells whether the channel lies inside a pixel of `bits_per_pixel` bits.
    pub fn lies_within(&self, bits_per_pixel: u32) -> (b: bool)
        ensures
            b == self.fits(bits_per_pixel),
    {
        self.length <= bits_per_pixel && self.offset <= bits_per_pixel - self.length
    }

    /// Tells whether the two channels have no bit in common.
    pub fn is_apart_from(&self, other: &Bitfield) -> (b: bool)
        ensures
            b == self.apart_from(*other),
    {
        let a_lo: u64 = self.offset as u64;
        let a_hi: u64 = self.offset as u64 + self.length as u64;
        let b_lo: u64 = other.offset as u64;
        let b_hi: u64 = other.offset as u64 + other.length as u64;
        let b: bool = self.length == 0 || other.length == 0 || a_hi <= b_lo || b_hi <= a_lo;
        proof {
            let sa = self.bits();
            let sb = other.bits();
            if b {
                assert forall|i: int| !(sa.contains(i) && sb.contains(i)) by {}
            } else {
                let i: int = if a_lo >= b_lo { a_lo as int } else { b_lo as int };
                assert(sa.contains(i) && sb.contains(i));
            }
        }
        b
    }
}

impl Default for Bitfield {
    fn default() -> (r: Self)
        ensures
            r.offset == 0 && r.length == 0 && r.msb_right == 0,
    {
        Bitfield { offset: 0, length: 0, msb_right: 0 }
    }
}

impl VarScreenInfo {
    /// The forty fields of the structure, in the order in which they lie in
    /// memory. Each takes four bytes.
    pub open spec fn words(self) -> Seq<u32> {
        seq![
            self.xres,
            self.yres,
            self.xres_virtual,
            self.yres_virtual,
            self.xoffset,
            self.yoffset,
            self.bits_per_pixel,
            self.grayscale,
            self.red.offset,
            self.red.length,
            self.red.msb_right,
            self.green.offset,
            self.green.length,
            self.green.msb_right,
            self.blue.offset,
            self.blue.length,
            self.blue.msb_right,
            self.transp.offset,
            self.transp.length,
            self.transp.msb_right,
            self.nonstd,
            self.activate,
            self.height,
            self.width,
            self.accel_flags,
            self.pixclock,
            self.left_margin,
            self.right_margin,
            self.upper_margin,
            self.lower_margin,
            self.hsync_len,
            self.vsync_len,
            self.sync,
            self.vmode,
            self.rotate,
            self.colorspace,
            self.reserved[0],
            self.reserved[1],
            self.reserved[2],
            self.reserved[3],
        ]
    }

    /// The structure whose fields, in memory order, are `ws`.
    pub open spec fn of_words(ws: Seq<u32>) -> VarScreenInfo {
        VarScreenInfo {
            xres: ws[0],
            yres: ws[1],
            xres_virtual: ws[2],
            yres_virtual: ws[3],
            xoffset: ws[4],
            yoffset: ws[5],
            bits_per_pixel: ws[6],
            grayscale: ws[7],
            red: Bitfield { offset: ws[8], length: ws[9], msb_right: ws[10] },
            green: Bitfield { offset: ws[11], length: ws[12], msb_right: ws[13] },
            blue: Bitfield { offset: ws[14], length: ws[15], msb_right: ws[16] },
            transp: Bitfield { offset: ws[17], length: ws[18], msb_right: ws[19] },
            nonstd: ws[20],
            activate: ws[21],
            height: ws[22],
            width: ws[23],
            accel_flags: ws[24],
            pixclock: ws[25],
            left_margin: ws[26],
            right_margin: ws[27],
            upper_margin: ws[28],
            lower_margin: ws[29],
            hsync_len: ws[30],
            vsync_len: ws[31],
            sync: ws[32],
            vmode: ws[33],
            rotate: ws[34],
            colorspace: ws[35],
            reserved: [ws[36], ws[37], ws[38], ws[39]],
        }
    }

    /// The bytes of the structure as it lies in memory.
    pub open spec fn layout(self, order: ByteOrder) -> Seq<u8> {
        u32s_bytes(order, self.words())
    }

    /// The structure that lies in the 160 bytes `s`.
    pub open spec fn read(order: ByteOrder, s: Seq<u8>) -> VarScreenInfo {
        Self::of_words(u32s_value(order, s))
    }

    /// Writes the structure as it lies in memory.
    pub fn to_bytes(&self, order: ByteOrder) -> (out: Vec<u8>)
        ensures
            out@ == self.layout(order),
            out@.len() == VAR_SCREEN_INFO_LEN,
    {
        let ws: [u32; 40] = [
            self.xres,
            self.yres,
            self.xres_virtual,
            self.yres_virtual,
            self.xoffset,
            self.yoffset,
            self.bits_per_pixel,
            self.grayscale,
            self.red.offset,
            self.red.length,
            self.red.msb_right,
            self.green.offset,
            self.green.length,
            self.green.msb_right,
            self.blue.offset,
            self.blue.length,
            self.blue.msb_right,
            self.transp.offset,
            self.transp.length,
            self.transp.msb_right,
            self.nonstd,
            self.activate,
            self.height,
            self.width,
            self.accel_flags,
            self.pixclock,
            self.left_margin,
            self.right_margin,
            self.upper_margin,
            self.lower_margin,
            self.hsync_len,
            self.vsync_len,
            self.sync,
            self.vmode,
            self.rotate,
            self.colorspace,
            self.reserved[0],
            self.reserved[1],
            self.reserved[2],
            self.reserved[3],
        ];
        assert(ws@ =~= self.words());
        let mut out: Vec<u8> = Vec::new();
        put_u32s(&mut out, order, ws.as_slice());
        assert(out@ =~= self.layout(order));
        out
    }
}

impl Default for VarScreenInfo {
    fn default() -> (r: Self)
        ensures
            forall|i: int| 0 <= i < 40 ==> r.words()[i] == 0,
    {
        VarScreenInfo {
            xres: 0,
            yres: 0,
            xres_virtual: 0,
            yres_virtual: 0,
            xoffset: 0,
            yoffset: 0,
            bits_per_pixel: 0,
            grayscale: 0,
            red: Bitfield::default(),
            green: Bitfield::default(),
            blue: Bitfield::default(),
            transp: Bitfield::default(),
            nonstd: 0,
            activate: 0,
            height: 0,
            width: 0,
            accel_flags: 0,
            pixclock: 0,
            left_margin: 0,
            right_margin: 0,
            upper_margin: 0,
            lower_margin: 0,
            hsync_len: 0,
            vsync_len: 0,
            sync: 0,
            vmode: 0,
            rotate: 0,
            colorspace: 0,
            reserved: [0, 0, 0, 0],
        }
    }
}

impl FixScreenInfo {
    /// The bytes of the structure as it lies in memory: the fields in their
    /// order, each aligned to its size, with zero bytes where the alignment
    /// leaves a gap.
    pub open spec fn layout(self, order: ByteOrder) -> Seq<u8> {
        self.id@ + word_bytes(order, self.smem_start) + u32s_bytes(
            order,
            seq![self.smem_len, self.kind, self.type_aux, self.visual],
        ) + u16s_bytes(order, seq![self.xpanstep, self.ypanstep, self.ywrapstep]) + zeros(2)
            + u32_bytes(order, self.line_length) + zeros((word_len() - 4) as nat) + word_bytes(
            order,
            self.mmio_start,
        ) + u32s_bytes(order, seq![self.mmio_len, self.accel]) + u16s_bytes(
            order,
            seq![self.capabilities, self.reserved[0], self.reserved[1]],
        ) + zeros(2)
    }

    /// The structure that lies in the bytes `s`, each field read at its
    /// offset. `w` is the size of a machine word.
    pub open spec fn read(order: ByteOrder, s: Seq<u8>) -> FixScreenInfo {
        let w = word_len() as int;
        let a = u32s_value(order, s.subrange(16 + w, 32 + w));
        let b = u16s_value(order, s.subrange(32 + w, 38 + w));
        let c = u32s_value(order, s.subrange(40 + 3 * w, 48 + 3 * w));
        let d = u16s_value(order, s.subrange(48 + 3 * w, 54 + 3 * w));
        FixScreenInfo {
            id: [
                s[0],
                s[1],
                s[2],
                s[3],
                s[4],
                s[5],
                s[6],
                s[7],
                s[8],
                s[9],
                s[10],
                s[11],
                s[12],
                s[13],
                s[14],
                s[15],
            ],
            smem_start: word_value(order, s.subrange(16, 16 + w)),
            smem_len: a[0],
            kind: a[1],
            type_aux: a[2],
            visual: a[3],
            xpanstep: b[0],
            ypanstep: b[1],
            ywrapstep: b[2],
            line_length: u32_value(order, s.subrange(40 + w, 44 + w)),
            mmio_start: word_value(order, s.subrange(40 + 2 * w, 40 + 3 * w)),
            mmio_len: c[0],
            accel: c[1],
            capabilities: d[0],
            reserved: [d[1], d[2]],
        }
    }

    /// Writes the structure as it lies in memory.
    pub fn to_bytes(&self, order: ByteOrder) -> (out: Vec<u8>)
        ensures
            out@ == self.layout(order),
            out@.len() == fix_screen_info_len(),
    {
        let w: usize = word_size();
        let mut out: Vec<u8> = Vec::new();
        let mut i: usize = 0;
        while i < 16
            invariant
                i <= 16,
                out@ == self.id@.take(i as int),
            decreases 16 - i,
        {
            out.push(self.id[i]);
            i += 1;
            assert(out@ =~= self.id@.take(i as int));
        }
        assert(self.id@.take(16) =~= self.id@);
        put_word(&mut out, order, self.smem_start);
        let a: [u32; 4] = [self.smem_len, self.kind, self.type_aux, self.visual];
        assert(a@ =~= seq![self.smem_len, self.kind, self.type_aux, self.visual]);
        put_u32s(&mut out, order, a.as_slice());
        let b: [u16; 3] = [self.xpanstep, self.ypanstep, self.ywrapstep];
        assert(b@ =~= seq![self.xpanstep, self.ypanstep, self.ywrapstep]);
        put_u16s(&mut out, order, b.as_slice());
        put_zeros(&mut out, 2);
        put_u32(&mut out, order, self.line_length);
        put_zeros(&mut out, w - 4);
        put_word(&mut out, order, self.mmio_start);
        let c: [u32; 2] = [self.mmio_len, self.accel];
        assert(c@ =~= seq![self.mmio_len, self.accel]);
        put_u32s(&mut out, order, c.as_slice());
        let d: [u16; 3] = [self.capabilities, self.reserved[0], self.reserved[1]];
        assert(d@ =~= seq![self.capabilities, self.reserved[0], self.reserved[1]]);
        put_u16s(&mut out, order, d.as_slice());
        put_zeros(&mut out, 2);
        proof {
            lemma_word_roundtrip(order, self.smem_start);
            lemma_word_roundtrip(order, self.mmio_start);
        }
        out
    }
}

impl Default for FixScreenInfo {
    fn default() -> (r: Self)
        ensures
            forall|i: int| 0 <= i < 16 ==> r.id[i] == 0,
            r.smem_start == 0 && r.smem_len == 0 && r.kind == 0 && r.type_aux == 0 && r.visual
                == 0,
            r.xpanstep == 0 && r.ypanstep == 0 && r.ywrapstep == 0 && r.line_length == 0,
            r.mmio_start == 0 && r.mmio_len == 0 && r.accel == 0 && r.capabilities == 0,
            r.reserved[0] == 0 && r.reserved[1] == 0,
    {
        FixScreenInfo {
            id: [0, 0, 0, 0, 0, 0, 0, 0, 0, 0, 0, 0, 0, 0, 0, 0],
            smem_start: 0,
            smem_len: 0,
            kind: 0,
            type_aux: 0,
            visual: 0,
            xpanstep: 0,
            ypanstep: 0,
            ywrapstep: 0,
            line_length: 0,
            mmio_start: 0,
            mmio_len: 0,
            accel: 0,
            capabilities: 0,
            reserved: [0, 0],
        }
    }
}

/// Size in bytes of the fixed screen info on this machine.
pub fn fix_screen_info_size() -> (n: usize)
    ensures
        n == fix_screen_info_len(),
{
    56 + 3 * word_size()
}

/// Reads the fixed screen info from the buffer that the driver filled.
/// The buffer must have exactly the size of the structure.
pub fn decode_fixed(order: ByteOrder, bytes: &[u8]) -> (r: Result<FixScreenInfo, Error>)
    ensures
        bytes@.len() == fix_screen_info_len() ==> r == Ok::<FixScreenInfo, Error>(
            FixScreenInfo::read(order, bytes@),
        ),
        bytes@.len() != fix_screen_info_len() ==> r == Err::<FixScreenInfo, Error>(
            Error::MalformedGeometry,
        ),
{
    let w: usize = word_size();
    if bytes.len() != 56 + 3 * w {
        return Err(Error::MalformedGeometry);
    }
    let a: Vec<u32> = get_u32s(bytes, 16 + w, 4, order);
    let b: Vec<u16> = get_u16s(bytes, 32 + w, 3, order);
    let c: Vec<u32> = get_u32s(bytes, 40 + 3 * w, 2, order);
    let d: Vec<u16> = get_u16s(bytes, 48 + 3 * w, 3, order);
    let v = FixScreenInfo {
        id: [
            bytes[0],
            bytes[1],
            bytes[2],
            bytes[3],
            bytes[4],
            bytes[5],
            bytes[6],
            bytes[7],
            bytes[8],
            bytes[9],
            bytes[10],
            bytes[11],
            bytes[12],
            bytes[13],
            bytes[14],
            bytes[15],
        ],
        smem_start: get_word(bytes, 16, order),
        smem_len: a[0],
        kind: a[1],
        type_aux: a[2],
        visual: a[3],
        xpanstep: b[0],
        ypanstep: b[1],
        ywrapstep: b[2],
        line_length: get_u32(bytes, 40 + w, order),
        mmio_start: get_word(bytes, 40 + 2 * w, order),
        mmio_len: c[0],
        accel: c[1],
        capabilities: d[0],
        reserved: [d[1], d[2]],
    };
    proof {
        let e = FixScreenInfo::read(order, bytes@);
        assert(v.id =~= e.id);
        assert(v.reserved =~= e.reserved);
    }
    Ok(v)
}

/// Each field of a stored fixed screen info lies at its offset.
pub proof fn lemma_fixed_fields(order: ByteOrder, v: FixScreenInfo)
    ensures
        ({
            let w = word_len() as int;
            let s = v.layout(order);
            &&& s.len() == fix_screen_info_len()
            &&& s.subrange(0, 16) == v.id@
            &&& s.subrange(16, 16 + w) == word_bytes(order, v.smem_start)
            &&& s.subrange(16 + w, 32 + w) == u32s_bytes(
                order,
                seq![v.smem_len, v.kind, v.type_aux, v.visual],
            )
            &&& s.subrange(32 + w, 38 + w) == u16s_bytes(
                order,
                seq![v.xpanstep, v.ypanstep, v.ywrapstep],
            )
            &&& s.subrange(40 + w, 44 + w) == u32_bytes(order, v.line_length)
            &&& s.subrange(40 + 2 * w, 40 + 3 * w) == word_bytes(order, v.mmio_start)
            &&& s.subrange(40 + 3 * w, 48 + 3 * w) == u32s_bytes(
                order,
                seq![v.mmio_len, v.accel],
            )
            &&& s.subrange(48 + 3 * w, 54 + 3 * w) == u16s_bytes(
                order,
                seq![v.capabilities, v.reserved[0], v.reserved[1]],
            )
        }),
{
    let s = v.layout(order);
    let p0 = v.id@;
    let p1 = word_bytes(order, v.smem_start);
    let p2 = u32s_bytes(order, seq![v.smem_len, v.kind, v.type_aux, v.visual]);
    let p3 = u16s_bytes(order, seq![v.xpanstep, v.ypanstep, v.ywrapstep]);
    let p4 = zeros(2);
    let p5 = u32_bytes(order, v.line_length);
    let p6 = zeros((word_len() - 4) as nat);
    let p7 = word_bytes(order, v.mmio_start);
    let p8 = u32s_bytes(order, seq![v.mmio_len, v.accel]);
    let p9 = u16s_bytes(order, seq![v.capabilities, v.reserved[0], v.reserved[1]]);
    let p10 = zeros(2);
    let t1 = p0 + p1;
    let t2 = t1 + p2;
    let t3 = t2 + p3;
    let t4 = t3 + p4;
    let t5 = t4 + p5;
    let t6 = t5 + p6;
    let t7 = t6 + p7;
    let t8 = t7 + p8;
    let t9 = t8 + p9;
    lemma_word_roundtrip(order, v.smem_start);
    lemma_word_roundtrip(order, v.mmio_start);
    lemma_u32_roundtrip(order, v.line_length);
    assert(s == t9 + p10);
    assert((t9 + p10).is_prefix_of(s)) by {
        assert(s.subrange(0, s.len() as int) =~= s);
    }
    lemma_piece(t9, p10, s);
    lemma_piece(t8, p9, s);
    lemma_piece(t7, p8, s);
    lemma_piece(t6, p7, s);
    lemma_piece(t5, p6, s);
    lemma_piece(t4, p5, s);
    lemma_piece(t3, p4, s);
    lemma_piece(t2, p3, s);
    lemma_piece(t1, p2, s);
    lemma_piece(p0, p1, s);
}

/// Reading back a stored fixed screen info gives the same structure.
pub proof fn lemma_fixed_roundtrip(order: ByteOrder, v: FixScreenInfo)
    ensures
        v.layout(order).len() == fix_screen_info_len(),
        FixScreenInfo::read(order, v.layout(order)) == v,
{
    let w = word_len() as int;
    let s = v.layout(order);
    let r = FixScreenInfo::read(order, s);
    lemma_fixed_fields(order, v);
    assert(r.smem_start == v.smem_start && r.mmio_start == v.mmio_start) by {
        lemma_word_roundtrip(order, v.smem_start);
        lemma_word_roundtrip(order, v.mmio_start);
    }
    assert(r.smem_len == v.smem_len && r.kind == v.kind && r.type_aux == v.type_aux && r.visual
        == v.visual) by {
        lemma_u32s_roundtrip(order, seq![v.smem_len, v.kind, v.type_aux, v.visual]);
    }
    assert(r.xpanstep == v.xpanstep && r.ypanstep == v.ypanstep && r.ywrapstep == v.ywrapstep)
        by {
        lemma_u16s_roundtrip(order, seq![v.xpanstep, v.ypanstep, v.ywrapstep]);
    }
    assert(r.line_length == v.line_length) by {
        lemma_u32_roundtrip(order, v.line_length);
    }
    assert(r.mmio_len == v.mmio_len && r.accel == v.accel) by {
        lemma_u32s_roundtrip(order, seq![v.mmio_len, v.accel]);
    }
    assert(r.capabilities == v.capabilities && r.reserved =~= v.reserved) by {
        lemma_u16s_roundtrip(order, seq![v.capabilities, v.reserved[0], v.reserved[1]]);
    }
    assert(r.id =~= v.id) by {
        assert forall|i: int| 0 <= i < 16 implies r.id[i] == v.id[i] by {
            assert(s.subrange(0, 16)[i] == s[i]);
        }
    }
}

/// Reads the variable screen info from the buffer that the driver filled.
/// The buffer must have exactly the size of the structure.
pub fn decode_variable(order: ByteOrder, bytes: &[u8]) -> (r: Result<VarScreenInfo, Error>)
    ensures
        bytes@.len() == VAR_SCREEN_INFO_LEN ==> r == Ok::<VarScreenInfo, Error>(
            VarScreenInfo::read(order, bytes@),
        ),
        bytes@.len() != VAR_SCREEN_INFO_LEN ==> r == Err::<VarScreenInfo, Error>(
            Error::MalformedGeometry,
        ),
{
    if bytes.len() != VAR_SCREEN_INFO_LEN {
        return Err(Error::MalformedGeometry);
    }
    let ws: Vec<u32> = get_u32s(bytes, 0, 40, order);
    assert(bytes@.subrange(0, 160) =~= bytes@);
    let v = VarScreenInfo {
        xres: ws[0],
        yres: ws[1],
        xres_virtual: ws[2],
        yres_virtual: ws[3],
        xoffset: ws[4],
        yoffset: ws[5],
        bits_per_pixel: ws[6],
        grayscale: ws[7],
        red: Bitfield { offset: ws[8], length: ws[9], msb_right: ws[10] },
        green: Bitfield { offset: ws[11], length: ws[12], msb_right: ws[13] },
        blue: Bitfield { offset: ws[14], length: ws[15], msb_right: ws[16] },
        transp: Bitfield { offset: ws[17], length: ws[18], msb_right: ws[19] },
        nonstd: ws[20],
        activate: ws[21],
        height: ws[22],
        width: ws[23],
        accel_flags: ws[24],
        pixclock: ws[25],
        left_margin: ws[26],
        right_margin: ws[27],
        upper_margin: ws[28],
        lower_margin: ws[29],
        hsync_len: ws[30],
        vsync_len: ws[31],
        sync: ws[32],
        vmode: ws[33],
        rotate: ws[34],
        colorspace: ws[35],
        reserved: [ws[36], ws[37], ws[38], ws[39]],
    };
    assert(v.reserved =~= VarScreenInfo::read(order, bytes@).reserved);
    Ok(v)
}

/// Reading back a stored variable screen info gives the same structure.
pub proof fn lemma_variable_roundtrip(order: ByteOrder, v: VarScreenInfo)
    ensures
        v.layout(order).len() == VAR_SCREEN_INFO_LEN,
        VarScreenInfo::read(order, v.layout(order)) == v,
{
    lemma_u32s_roundtrip(order, v.words());
    let r = VarScreenInfo::read(order, v.layout(order));
    assert(r.reserved =~= v.reserved);
}

} // verus!
