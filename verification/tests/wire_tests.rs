use mxcfb::wire::{
    get_u16, get_u32, get_u64, get_word, i32_to_word, put_u16, put_u32, put_u32s, put_u64,
    put_word, put_zeros, word_size, word_to_i32, ByteOrder,
};

#[test]
fn u32_little_endian_bytes() {
    let mut out = Vec::new();
    put_u32(&mut out, ByteOrder::Little, 0x1234_5678);
    assert_eq!(out, vec![0x78, 0x56, 0x34, 0x12]);
}

#[test]
fn u32_big_endian_bytes() {
    let mut out = Vec::new();
    put_u32(&mut out, ByteOrder::Big, 0x1234_5678);
    assert_eq!(out, vec![0x12, 0x34, 0x56, 0x78]);
}

#[test]
fn u16_bytes_in_both_orders() {
    let mut out = Vec::new();
    put_u16(&mut out, ByteOrder::Little, 0xABCD);
    put_u16(&mut out, ByteOrder::Big, 0xABCD);
    assert_eq!(out, vec![0xCD, 0xAB, 0xAB, 0xCD]);
}

#[test]
fn u64_bytes_in_both_orders() {
    let mut le = Vec::new();
    put_u64(&mut le, ByteOrder::Little, 0x0102_0304_0506_0708);
    assert_eq!(le, vec![8, 7, 6, 5, 4, 3, 2, 1]);
    let mut be = Vec::new();
    put_u64(&mut be, ByteOrder::Big, 0x0102_0304_0506_0708);
    assert_eq!(be, vec![1, 2, 3, 4, 5, 6, 7, 8]);
}

#[test]
fn put_appends_to_what_is_there() {
    let mut out = vec![9u8];
    put_u32(&mut out, ByteOrder::Little, 1);
    put_zeros(&mut out, 3);
    assert_eq!(out, vec![9, 1, 0, 0, 0, 0, 0, 0]);
}

#[test]
fn get_reads_at_the_offset() {
    let bytes = [0xFFu8, 0x78, 0x56, 0x34, 0x12, 0xFF];
    assert_eq!(get_u32(&bytes, 1, ByteOrder::Little), 0x1234_5678);
    assert_eq!(get_u32(&bytes, 1, ByteOrder::Big), 0x7856_3412);
    assert_eq!(get_u16(&bytes, 1, ByteOrder::Little), 0x5678);
    assert_eq!(get_u16(&bytes, 1, ByteOrder::Big), 0x7856);
}

#[test]
fn get_u64_reads_eight_bytes() {
    let bytes = [8u8, 7, 6, 5, 4, 3, 2, 1];
    assert_eq!(get_u64(&bytes, 0, ByteOrder::Little), 0x0102_0304_0506_0708);
    assert_eq!(get_u64(&bytes, 0, ByteOrder::Big), 0x0807_0605_0403_0201);
}

#[test]
fn extreme_values_survive_the_round_trip() {
    for &x in &[0u32, 1, 0xFF, 0x100, 0xFFFF_FFFF, 0x8000_0000] {
        for &order in &[ByteOrder::Little, ByteOrder::Big] {
            let mut out = Vec::new();
            put_u32(&mut out, order, x);
            assert_eq!(out.len(), 4);
            assert_eq!(get_u32(&out, 0, order), x);
        }
    }
}

#[test]
fn several_fields_lie_one_after_the_other() {
    let mut out = Vec::new();
    put_u32s(&mut out, ByteOrder::Little, &[1, 0x0200]);
    assert_eq!(out, vec![1, 0, 0, 0, 0, 2, 0, 0]);
}

#[test]
fn signed_fields_are_stored_in_twos_complement() {
    assert_eq!(i32_to_word(-1), 0xFFFF_FFFF);
    assert_eq!(i32_to_word(i32::MIN), 0x8000_0000);
    assert_eq!(i32_to_word(0x1000), 0x1000);
    assert_eq!(word_to_i32(0xFFFF_FFFE), -2);
    assert_eq!(word_to_i32(0x7FFF_FFFF), i32::MAX);
    assert_eq!(word_to_i32(i32_to_word(-123_456)), -123_456);
}

#[test]
fn word_has_the_size_of_a_pointer() {
    assert_eq!(word_size(), std::mem::size_of::<usize>());
    let mut out = Vec::new();
    put_word(&mut out, ByteOrder::Little, 0x1234);
    assert_eq!(out.len(), std::mem::size_of::<usize>());
    assert_eq!(out[0], 0x34);
    assert_eq!(out[1], 0x12);
    assert_eq!(get_word(&out, 0, ByteOrder::Little), 0x1234);
}

#[test]
fn probe_tells_the_byte_order() {
    assert_eq!(ByteOrder::from_probe([1, 0]), ByteOrder::Little);
    assert_eq!(ByteOrder::from_probe([0, 1]), ByteOrder::Big);
}

#[test]
fn native_order_is_the_order_of_the_machine() {
    let order = ByteOrder::native();
    let mut out = Vec::new();
    put_u32(&mut out, order, 0x0102_0304);
    assert_eq!(out, 0x0102_0304u32.to_ne_bytes().to_vec());
    let mut word = Vec::new();
    put_word(&mut word, order, 0x0506usize);
    assert_eq!(word, 0x0506usize.to_ne_bytes().to_vec());
}
