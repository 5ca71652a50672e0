use vcpu::memory::{read_word, u16_to_u32, u8_to_u16, word_fits};

#[test]
fn int_combinations() {
    assert_eq!(u16_to_u32(0x0F0F, 0x0A0A), 0x0F0F0A0A);
    assert_eq!(u8_to_u16(0x0F, 0xA0), 0x0FA0);
}

#[test]
fn read_word_from_arr() {
    let dummy_data = vec![0x11, 0x25, 0x32, 0x44, 0x55, 0x23, 0x12, 0xAB, 0x54, 0xCD];
    assert_eq!(read_word(&dummy_data, 3), 0x12AB);
    assert_eq!(read_word(&dummy_data, 2), 0x5523);
    assert_eq!(read_word(&dummy_data, 0), 0x1125);
}

#[test]
fn word_bounds() {
    assert!(word_fits(10, 4));
    assert!(!word_fits(10, 5));
    assert!(!word_fits(9, 4));
    assert!(!word_fits(0, 0));
    assert!(!word_fits(10, u32::MAX));
}
