//! Fixed-width integers as they lie in device memory.
//!
//! The panel controller exchanges C structures with user space. Every field
//! of those structures is an unsigned or two's-complement integer of 2, 4 or
//! 8 bytes (or one machine word), stored in the byte order of the machine.
//! This module states, byte by byte, how such a field is stored, and holds
//! the routines that write fields to a buffer and read them back.

use vstd::prelude::*;

verus! {

/// Order in which the bytes of a multi-byte field are stored.
#[derive(Clone, Copy, Debug, PartialEq, Eq, Structural)]
pub enum ByteOrder {
    /// Least significant byte first.
    Little,
    /// Most significant byte first.
    Big,
}

impl ByteOrder {
    /// The order in which a machine stores its integers, told from the two
    /// bytes `probe` in which it stores the 16-bit value 1.
    pub open spec fn probed(probe: Seq<u8>) -> ByteOrder {
        if probe[0] == 1 {
            ByteOrder::Little
        } else {
            ByteOrder::Big
        }
    }

    /// Tells the byte order from the stored form of the 16-bit value 1.
    pub fn from_probe(probe: [u8; 2]) -> (order: ByteOrder)
        ensures
            order == Self::probed(probe@),
    {
        if probe[0] == 1 {
            ByteOrder::Little
        } else {
            ByteOrder::Big
        }
    }

    /// The byte order of the machine that runs this code.
    pub fn native() -> (order: ByteOrder) {
        Self::from_probe(native_u16(1))
    }
}

/// The bytes of `x` as this machine stores them, by `u16::to_ne_bytes` of
/// the standard library. Trusted, not proved: the result is `x` in one of
/// the two byte orders.
#[verifier::external_body]
fn native_u16(x: u16) -> (b: [u8; 2])
    ensures
        b@ == u16_bytes(ByteOrder::Little, x) || b@ == u16_bytes(ByteOrder::Big, x),
{
    x.to_ne_bytes()
}

/// The two bytes of `x`, in the given order.
pub open spec fn u16_bytes(order: ByteOrder, x: u16) -> Seq<u8> {
    let b0 = (x % 256) as u8;
    let b1 = (x / 256) as u8;
    match order {
        ByteOrder::Little => seq![b0, b1],
        ByteOrder::Big => seq![b1, b0],
    }
}

/// The value whose two bytes, in the given order, are the first two of `s`.
pub open spec fn u16_value(order: ByteOrder, s: Seq<u8>) -> u16 {
    match order {
        ByteOrder::Little => (s[0] + 256 * s[1]) as u16,
        ByteOrder::Big => (s[1] + 256 * s[0]) as u16,
    }
}

/// The four bytes of `x`, in the given order.
pub open spec fn u32_bytes(order: ByteOrder, x: u32) -> Seq<u8> {
    let b0 = (x % 256) as u8;
    let b1 = (x / 256 % 256) as u8;
    let b2 = (x / 65536 % 256) as u8;
    let b3 = (x / 16777216) as u8;
    match order {
        ByteOrder::Little => seq![b0, b1, b2, b3],
        ByteOrder::Big => seq![b3, b2, b1, b0],
    }
}

/// The value whose four bytes, in the given order, are the first four of `s`.
pub open spec fn u32_value(order: ByteOrder, s: Seq<u8>) -> u32 {
    match order {
        ByteOrder::Little => (s[0] + 256 * s[1] + 65536 * s[2] + 16777216 * s[3]) as u32,
        ByteOrder::Big => (s[3] + 256 * s[2] + 65536 * s[1] + 16777216 * s[0]) as u32,
    }
}

/// The eight bytes of `x`, in the given order.
pub open spec fn u64_bytes(order: ByteOrder, x: u64) -> Seq<u8> {
    let lo = u32_bytes(order, (x % 0x1_0000_0000) as u32);
    let hi = u32_bytes(order, (x / 0x1_0000_0000) as u32);
    match order {
        ByteOrder::Little => lo + hi,
        ByteOrder::Big => hi + lo,
    }
}

/// The value whose eight bytes, in the given order, are the first eight of `s`.
pub open spec fn u64_value(order: ByteOrder, s: Seq<u8>) -> u64 {
    let first = u32_value(order, s.subrange(0, 4));
    let second = u32_value(order, s.subrange(4, 8));
    match order {
        ByteOrder::Little => (first + 0x1_0000_0000 * second) as u64,
        ByteOrder::Big => (second + 0x1_0000_0000 * first) as u64,
    }
}

/// Number of bytes in a machine word (a C `unsigned long` or pointer).
pub open spec fn word_len() -> nat {
    if usize::BITS == 64 {
        8
    } else {
        4
    }
}

/// The bytes of a machine word, in the given order.
pub open spec fn word_bytes(order: ByteOrder, x: usize) -> Seq<u8> {
    if usize::BITS == 64 {
        u64_bytes(order, x as u64)
    } else {
        u32_bytes(order, x as u32)
    }
}

/// The machine word whose bytes, in the given order, are the first
/// `word_len()` of `s`.
pub open spec fn word_value(order: ByteOrder, s: Seq<u8>) -> usize {
    if usize::BITS == 64 {
        u64_value(order, s) as usize
    } else {
        u32_value(order, s) as usize
    }
}

/// The 32-bit pattern that stores `x` in two's complement.
pub open spec fn i32_word(x: i32) -> u32 {
    if x >= 0 {
        x as u32
    } else {
        (x + 0x1_0000_0000) as u32
    }
}

/// The signed value that the 32-bit pattern `w` stores in two's complement.
pub open spec fn word_i32(w: u32) -> i32 {
    if w < 0x8000_0000 {
        w as i32
    } else {
        (w - 0x1_0000_0000) as i32
    }
}

/// `n` zero bytes: padding between or after the fields of a structure.
pub open spec fn zeros(n: nat) -> Seq<u8> {
    Seq::new(n, |i: int| 0u8)
}

/// The fields `ws`, each of four bytes, one after the other.
pub open spec fn u32s_bytes(order: ByteOrder, ws: Seq<u32>) -> Seq<u8> {
    Seq::new(4 * ws.len(), |i: int| u32_bytes(order, ws[i / 4])[i % 4])
}

/// The four-byte fields that lie one after the other in `s`; bytes after the
/// last full field are not read.
pub open spec fn u32s_value(order: ByteOrder, s: Seq<u8>) -> Seq<u32> {
    Seq::new(s.len() / 4, |i: int| u32_value(order, s.subrange(4 * i, 4 * i + 4)))
}

/// The fields `hs`, each of two bytes, one after the other.
pub open spec fn u16s_bytes(order: ByteOrder, hs: Seq<u16>) -> Seq<u8> {
    Seq::new(2 * hs.len(), |i: int| u16_bytes(order, hs[i / 2])[i % 2])
}

/// The two-byte fields that lie one after the other in `s`.
pub open spec fn u16s_value(order: ByteOrder, s: Seq<u8>) -> Seq<u16> {
    Seq::new(s.len() / 2, |i: int| u16_value(order, s.subrange(2 * i, 2 * i + 2)))
}

/// Reading back what was stored gives the value that was stored.
pub proof fn lemma_u16_roundtrip(order: ByteOrder, x: u16)
    ensures
        u16_bytes(order, x).len() == 2,
        u16_value(order, u16_bytes(order, x)) == x,
{
}

/// Reading back what was stored gives the value that was stored.
pub proof fn lemma_u32_roundtrip(order: ByteOrder, x: u32)
    ensures
        u32_bytes(order, x).len() == 4,
        u32_value(order, u32_bytes(order, x)) == x,
{
}

/// Reading back what was stored gives the value that was stored.
pub proof fn lemma_u64_roundtrip(order: ByteOrder, x: u64)
    ensures
        u64_bytes(order, x).len() == 8,
        u64_value(order, u64_bytes(order, x)) == x,
{
    let lo = (x % 0x1_0000_0000) as u32;
    let hi = (x / 0x1_0000_0000) as u32;
    lemma_u32_roundtrip(order, lo);
    lemma_u32_roundtrip(order, hi);
    let s = u64_bytes(order, x);
    match order {
        ByteOrder::Little => {
            assert(s.subrange(0, 4) =~= u32_bytes(order, lo));
            assert(s.subrange(4, 8) =~= u32_bytes(order, hi));
        },
        ByteOrder::Big => {
            assert(s.subrange(0, 4) =~= u32_bytes(order, hi));
            assert(s.subrange(4, 8) =~= u32_bytes(order, lo));
        },
    }
}

/// Reading back what was stored gives the word that was stored.
pub proof fn lemma_word_roundtrip(order: ByteOrder, x: usize)
    ensures
        word_bytes(order, x).len() == word_len(),
        word_value(order, word_bytes(order, x)) == x,
{
    if usize::BITS == 64 {
        lemma_u64_roundtrip(order, x as u64);
    } else {
        lemma_u32_roundtrip(order, x as u32);
    }
}

/// A signed field and its stored pattern determine each other.
pub proof fn lemma_i32_roundtrip(x: i32)
    ensures
        word_i32(i32_word(x)) == x,
{
}

/// The `i`-th group of four bytes of a run of stored fields is the `i`-th field.
pub proof fn lemma_u32s_field(order: ByteOrder, ws: Seq<u32>, i: int)
    requires
        0 <= i < ws.len(),
    ensures
        u32s_bytes(order, ws).len() == 4 * ws.len(),
        u32s_bytes(order, ws).subrange(4 * i, 4 * i + 4) == u32_bytes(order, ws[i]),
{
    let s = u32s_bytes(order, ws);
    let f = u32_bytes(order, ws[i]);
    let t = s.subrange(4 * i, 4 * i + 4);
    assert(f.len() == 4);
    assert forall|k: int| 0 <= k < 4 implies t[k] == f[k] by {
        assert((4 * i + k) / 4 == i);
        assert((4 * i + k) % 4 == k);
    }
    assert(t =~= f);
}

/// Reading back the fields that were stored gives the same fields.
pub proof fn lemma_u32s_roundtrip(order: ByteOrder, ws: Seq<u32>)
    ensures
        u32s_bytes(order, ws).len() == 4 * ws.len(),
        u32s_value(order, u32s_bytes(order, ws)) == ws,
{
    let s = u32s_bytes(order, ws);
    let r = u32s_value(order, s);
    assert(r.len() == ws.len());
    assert forall|i: int| 0 <= i < ws.len() implies r[i] == ws[i] by {
        lemma_u32s_field(order, ws, i);
        lemma_u32_roundtrip(order, ws[i]);
    }
    assert(r =~= ws);
}

/// The `i`-th pair of bytes of a run of stored fields is the `i`-th field.
pub proof fn lemma_u16s_field(order: ByteOrder, hs: Seq<u16>, i: int)
    requires
        0 <= i < hs.len(),
    ensures
        u16s_bytes(order, hs).len() == 2 * hs.len(),
        u16s_bytes(order, hs).subrange(2 * i, 2 * i + 2) == u16_bytes(order, hs[i]),
{
    let s = u16s_bytes(order, hs);
    let f = u16_bytes(order, hs[i]);
    let t = s.subrange(2 * i, 2 * i + 2);
    assert(f.len() == 2);
    assert forall|k: int| 0 <= k < 2 implies t[k] == f[k] by {
        assert((2 * i + k) / 2 == i);
        assert((2 * i + k) % 2 == k);
    }
    assert(t =~= f);
}

/// Reading back the two-byte fields that were stored gives the same fields.
pub proof fn lemma_u16s_roundtrip(order: ByteOrder, hs: Seq<u16>)
    ensures
        u16s_bytes(order, hs).len() == 2 * hs.len(),
        u16s_value(order, u16s_bytes(order, hs)) == hs,
{
    let s = u16s_bytes(order, hs);
    let r = u16s_value(order, s);
    assert(r.len() == hs.len());
    assert forall|i: int| 0 <= i < hs.len() implies r[i] == hs[i] by {
        lemma_u16s_field(order, hs, i);
        lemma_u16_roundtrip(order, hs[i]);
    }
    assert(r =~= hs);
}

/// Where a structure is one piece after another, a piece is found again
/// right behind what precedes it: if `head + piece` starts `whole`, then so
/// does `head`, and `piece` lies in `whole` from `head.len()` on.
pub proof fn lemma_piece(head: Seq<u8>, piece: Seq<u8>, whole: Seq<u8>)
    requires
        (head + piece).is_prefix_of(whole),
    ensures
        head.is_prefix_of(whole),
        head.len() + piece.len() <= whole.len(),
        whole.subrange(head.len() as int, (head.len() + piece.len()) as int) == piece,
{
    let both = head + piece;
    assert(both =~= whole.subrange(0, both.len() as int));
    assert forall|i: int| 0 <= i < head.len() implies head[i] == whole[i] by {
        assert(both[i] == head[i]);
    }
    assert(head =~= whole.subrange(0, head.len() as int));
    assert forall|i: int| 0 <= i < piece.len() implies piece[i] == whole[head.len() + i] by {
        assert(both[head.len() + i] == piece[i]);
    }
    assert(whole.subrange(head.len() as int, (head.len() + piece.len()) as int) =~= piece);
}

/// Number of bytes in a machine word.
pub fn word_size() -> (n: usize)
    ensures
        n == word_len(),
        n == 4 || n == 8,
{
    if usize::BITS == 64 {
        8
    } else {
        4
    }
}

/// The stored pattern of a signed 32-bit field.
pub fn i32_to_word(x: i32) -> (w: u32)
    ensures
        w == i32_word(x),
{
    assert(x >= 0 ==> x as u32 == x) by (bit_vector);
    assert(x < 0 ==> x as u32 == x + 0x1_0000_0000) by (bit_vector);
    x as u32
}

/// The signed value of a stored 32-bit pattern.
pub fn word_to_i32(w: u32) -> (x: i32)
    ensures
        x == word_i32(w),
{
    assert(w < 0x8000_0000 ==> w as i32 == w) by (bit_vector);
    assert(w >= 0x8000_0000 ==> w as i32 == w - 0x1_0000_0000) by (bit_vector);
    w as i32
}

/// Appends the two bytes of `x`.
pub fn put_u16(out: &mut Vec<u8>, order: ByteOrder, x: u16)
    ensures
        final(out)@ == old(out)@ + u16_bytes(order, x),
{
    let b0: u8 = (x % 256) as u8;
    let b1: u8 = (x / 256) as u8;
    match order {
        ByteOrder::Little => {
            out.push(b0);
            out.push(b1);
        },
        ByteOrder::Big => {
            out.push(b1);
            out.push(b0);
        },
    }
    assert(out@ =~= old(out)@ + u16_bytes(order, x));
}

/// Appends the four bytes of `x`.
pub fn put_u32(out: &mut Vec<u8>, order: ByteOrder, x: u32)
    ensures
        final(out)@ == old(out)@ + u32_bytes(order, x),
{
    let b0: u8 = (x % 256) as u8;
    let b1: u8 = (x / 256 % 256) as u8;
    let b2: u8 = (x / 65536 % 256) as u8;
    let b3: u8 = (x / 16777216) as u8;
    match order {
        ByteOrder::Little => {
            out.push(b0);
            out.push(b1);
            out.push(b2);
            out.push(b3);
        },
        ByteOrder::Big => {
            out.push(b3);
            out.push(b2);
            out.push(b1);
            out.push(b0);
        },
    }
    assert(out@ =~= old(out)@ + u32_bytes(order, x));
}

/// Appends the eight bytes of `x`.
pub fn put_u64(out: &mut Vec<u8>, order: ByteOrder, x: u64)
    ensures
        final(out)@ == old(out)@ + u64_bytes(order, x),
{
    let lo: u32 = (x % 0x1_0000_0000) as u32;
    let hi: u32 = (x / 0x1_0000_0000) as u32;
    match order {
        ByteOrder::Little => {
            put_u32(out, order, lo);
            put_u32(out, order, hi);
        },
        ByteOrder::Big => {
            put_u32(out, order, hi);
            put_u32(out, order, lo);
        },
    }
    assert(out@ =~= old(out)@ + u64_bytes(order, x));
}

/// Appends the bytes of one machine word.
pub fn put_word(out: &mut Vec<u8>, order: ByteOrder, x: usize)
    ensures
        final(out)@ == old(out)@ + word_bytes(order, x),
{
    if usize::BITS == 64 {
        put_u64(out, order, x as u64);
    } else {
        put_u32(out, order, x as u32);
    }
}

/// Appends `n` zero bytes.
pub fn put_zeros(out: &mut Vec<u8>, n: usize)
    ensures
        final(out)@ == old(out)@ + zeros(n as nat),
{
    let mut i: usize = 0;
    while i < n
        invariant
            i <= n,
            out@ == old(out)@ + zeros(i as nat),
        decreases n - i,
    {
        out.push(0u8);
        i += 1;
        assert(out@ =~= old(out)@ + zeros(i as nat));
    }
}

/// Appends the four-byte fields `ws`, one after the other.
pub fn put_u32s(out: &mut Vec<u8>, order: ByteOrder, ws: &[u32])
    ensures
        final(out)@ == old(out)@ + u32s_bytes(order, ws@),
{
    let mut i: usize = 0;
    assert(out@ =~= old(out)@ + u32s_bytes(order, ws@.take(0)));
    while i < ws.len()
        invariant
            i <= ws.len(),
            out@ == old(out)@ + u32s_bytes(order, ws@.take(i as int)),
        decreases ws.len() - i,
    {
        let ghost before = out@;
        put_u32(out, order, ws[i]);
        i += 1;
        assert(out@ =~= old(out)@ + u32s_bytes(order, ws@.take(i as int))) by {
            let a = u32s_bytes(order, ws@.take(i - 1));
            let b = u32s_bytes(order, ws@.take(i as int));
            assert(a + u32_bytes(order, ws@[i - 1]) =~= b);
        }
    }
    assert(ws@.take(ws.len() as int) =~= ws@);
}

/// Appends the two-byte fields `hs`, one after the other.
pub fn put_u16s(out: &mut Vec<u8>, order: ByteOrder, hs: &[u16])
    ensures
        final(out)@ == old(out)@ + u16s_bytes(order, hs@),
{
    let mut i: usize = 0;
    assert(out@ =~= old(out)@ + u16s_bytes(order, hs@.take(0)));
    while i < hs.len()
        invariant
            i <= hs.len(),
            out@ == old(out)@ + u16s_bytes(order, hs@.take(i as int)),
        decreases hs.len() - i,
    {
        put_u16(out, order, hs[i]);
        i += 1;
        assert(out@ =~= old(out)@ + u16s_bytes(order, hs@.take(i as int))) by {
            let a = u16s_bytes(order, hs@.take(i - 1));
            let b = u16s_bytes(order, hs@.take(i as int));
            assert(a + u16_bytes(order, hs@[i - 1]) =~= b);
        }
    }
    assert(hs@.take(hs.len() as int) =~= hs@);
}

/// Reads the two-byte field that starts at `at`.
pub fn get_u16(bytes: &[u8], at: usize, order: ByteOrder) -> (x: u16)
    requires
        at + 2 <= bytes@.len(),
    ensures
        x == u16_value(order, bytes@.subrange(at as int, at + 2)),
{
    let len: usize = bytes.len();
    let b0: u16 = bytes[at] as u16;
    let b1: u16 = bytes[at + 1] as u16;
    match order {
        ByteOrder::Little => b0 + 256 * b1,
        ByteOrder::Big => b1 + 256 * b0,
    }
}

/// Reads the four-byte field that starts at `at`.
pub fn get_u32(bytes: &[u8], at: usize, order: ByteOrder) -> (x: u32)
    requires
        at + 4 <= bytes@.len(),
    ensures
        x == u32_value(order, bytes@.subrange(at as int, at + 4)),
{
    let len: usize = bytes.len();
    let b0: u32 = bytes[at] as u32;
    let b1: u32 = bytes[at + 1] as u32;
    let b2: u32 = bytes[at + 2] as u32;
    let b3: u32 = bytes[at + 3] as u32;
    match order {
        ByteOrder::Little => b0 + 256 * b1 + 65536 * b2 + 16777216 * b3,
        ByteOrder::Big => b3 + 256 * b2 + 65536 * b1 + 16777216 * b0,
    }
}

/// Reads the eight-byte field that starts at `at`.
pub fn get_u64(bytes: &[u8], at: usize, order: ByteOrder) -> (x: u64)
    requires
        at + 8 <= bytes@.len(),
    ensures
        x == u64_value(order, bytes@.subrange(at as int, at + 8)),
{
    let len: usize = bytes.len();
    let first: u64 = get_u32(bytes, at, order) as u64;
    let second: u64 = get_u32(bytes, at + 4, order) as u64;
    proof {
        let s = bytes@.subrange(at as int, at + 8);
        assert(s.subrange(0, 4) =~= bytes@.subrange(at as int, at + 4));
        assert(s.subrange(4, 8) =~= bytes@.subrange(at + 4, at + 8));
    }
    match order {
        ByteOrder::Little => first + 0x1_0000_0000 * second,
        ByteOrder::Big => second + 0x1_0000_0000 * first,
    }
}

/// Reads the machine word that starts at `at`.
pub fn get_word(bytes: &[u8], at: usize, order: ByteOrder) -> (x: usize)
    requires
        at + word_len() <= bytes@.len(),
    ensures
        x == word_value(order, bytes@.subrange(at as int, at + word_len())),
{
    let len: usize = bytes.len();
    if usize::BITS == 64 {
        get_u64(bytes, at, order) as usize
    } else {
        get_u32(bytes, at, order) as usize
    }
}

/// Reads `n` four-byte fields that lie one after the other from `at` on.
pub fn get_u32s(bytes: &[u8], at: usize, n: usize, order: ByteOrder) -> (ws: Vec<u32>)
    requires
        at + 4 * n <= bytes@.len(),
    ensures
        ws@ == u32s_value(order, bytes@.subrange(at as int, at + 4 * n)),
{
    let len: usize = bytes.len();
    let mut ws: Vec<u32> = Vec::new();
    let mut i: usize = 0;
    let ghost s = bytes@.subrange(at as int, at + 4 * n);
    while i < n
        invariant
            i <= n,
            at + 4 * n <= bytes@.len() <= usize::MAX,
            s == bytes@.subrange(at as int, at + 4 * n),
            ws@.len() == i,
            forall|k: int| 0 <= k < i ==> ws@[k] == u32s_value(order, s)[k],
        decreases n - i,
    {
        let w: u32 = get_u32(bytes, at + 4 * i, order);
        assert(s.subrange(4 * i, 4 * i + 4) =~= bytes@.subrange(at + 4 * i, at + 4 * i + 4));
        ws.push(w);
        i += 1;
    }
    assert(ws@ =~= u32s_value(order, s));
    ws
}

/// Reads `n` two-byte fields that lie one after the other from `at` on.
pub fn get_u16s(bytes: &[u8], at: usize, n: usize, order: ByteOrder) -> (hs: Vec<u16>)
    requires
        at + 2 * n <= bytes@.len(),
    ensures
        hs@ == u16s_value(order, bytes@.subrange(at as int, at + 2 * n)),
{
    let len: usize = bytes.len();
    let mut hs: Vec<u16> = Vec::new();
    let mut i: usize = 0;
    let ghost s = bytes@.subrange(at as int, at + 2 * n);
    while i < n
        invariant
            i <= n,
            at + 2 * n <= bytes@.len() <= usize::MAX,
            s == bytes@.subrange(at as int, at + 2 * n),
            hs@.len() == i,
            forall|k: int| 0 <= k < i ==> hs@[k] == u16s_value(order, s)[k],
        decreases n - i,
    {
        let h: u16 = get_u16(bytes, at + 2 * i, order);
        assert(s.subrange(2 * i, 2 * i + 2) =~= bytes@.subrange(at + 2 * i, at + 2 * i + 2));
        hs.push(h);
        i += 1;
    }
    assert(hs@ =~= u16s_value(order, s));
    hs
}

} // verus!
