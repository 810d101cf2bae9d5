use rhubarb::bits::{bit_range_u16, bit_range_u32, bit_range_u64, bit_range_u8, bit_u32, bit_u8};

#[test]
fn bit_utils_smoke() {
    let num: u64 = 43;
    assert_eq!(bit_range_u64(num, 5, 31), 1);

    let num: u8 = 0b_0011_0101;
    assert_eq!(bit_range_u8(num, 0, 0), 0b_000001);
    assert_eq!(bit_range_u8(num, 0, 3), 0b_000101);
    assert_eq!(bit_range_u8(num, 2, 6), 0b_001101);
    assert_eq!(bit_range_u8(num, 0, 8), 0b_110101);

    let num: u32 = 0b_1001_0001;
    assert_eq!(bit_range_u32(num, 4, 4), 0b_010000);
    assert_eq!(bit_range_u32(num, 0, 3), 0b_000001);
    assert_eq!(bit_range_u32(num, 2, 32), 0b_100100);
    assert_eq!(bit_range_u32(num, 0, 5), 0b_010001);

    // Constants work the same way.
    const NUM: u16 = 0b_1011_1111_0000_1101;
    assert_eq!(bit_range_u16(NUM, 1, 9), 0b_1000_0110);
    assert_eq!(bit_range_u16(NUM, 8, 8 + 8), 0b_1011_1111);
    assert_eq!(bit_range_u16(NUM, 4, 12), 0b_1111_0000);

    const SOURCE_NUM: u32 = 0x_FEFE_FEFE;
    const RANGE_START: u32 = 2;
    const RANGE_END: u32 = 7;
    let ranged_num: u32 = bit_range_u32(SOURCE_NUM, RANGE_START, RANGE_END);
    assert_eq!(ranged_num, 31);
    assert_eq!(bit_u32(ranged_num, 0), true);
    assert_eq!(bit_u32(ranged_num, 1), true);
    assert_eq!(bit_u32(ranged_num, 2), true);
    assert_eq!(bit_u32(ranged_num, 3), true);
    assert_eq!(bit_u32(ranged_num, 4), true);
    assert_eq!(bit_u32(ranged_num, 5), false);
}

#[test]
fn bit_range_past_the_top_stops_there() {
    assert_eq!(bit_range_u8(0xF0, 4, 200), 0x0F);
    assert_eq!(bit_range_u64(u64::MAX, 0, 64), u64::MAX);
    assert_eq!(bit_range_u64(u64::MAX, 63, 63), 1 << 63);
}

#[test]
fn single_bits() {
    assert!(bit_u8(0b1000_0000, 7));
    assert!(!bit_u8(0b0111_1111, 7));
}
