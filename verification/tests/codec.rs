use id3v2::find_substring;
use id3v2::utils::latin1_to_string;
use id3v2::utils::read_syncsafe_integer;
use id3v2::utils::read_syncsafe_integer_5bytes;
use id3v2::utils::string_to_latin1;
use id3v2::utils::BitPosition;

fn make_bytes(string: &str) -> Vec<u8> {
    string.bytes().collect::<Vec<u8>>()
}

#[test]
fn find_substring_simple() {
    let bytes = &make_bytes("hello, world!")[..];
    let pattern = &make_bytes("o, w")[..];

    assert_eq!(find_substring(bytes, pattern), Some(4))
}

#[test]
fn find_substring_absent_or_empty() {
    assert_eq!(find_substring(b"abcabc", b"cb"), None);
    assert_eq!(find_substring(b"abc", b""), None);
    assert_eq!(find_substring(b"abcabc", b"bc"), Some(1));
}

#[test]
fn syncsafe_low_byte_is_identity() {
    for x in [0u8, 1, 17, 127] {
        assert_eq!(read_syncsafe_integer([0, 0, 0, x]), x as u32);
    }
    assert_eq!(read_syncsafe_integer([0, 0, 1, 0x7F]), 255);
}

#[test]
fn syncsafe_weighs_seven_bits_per_byte() {
    assert_eq!(read_syncsafe_integer([1, 0, 0, 0]), 1 << 21);
    assert_eq!(read_syncsafe_integer([0x7F, 0x7F, 0x7F, 0x7F]), (1 << 28) - 1);
}

#[test]
fn syncsafe_5bytes() {
    assert_eq!(read_syncsafe_integer_5bytes([0, 0, 0, 1, 0x7F]), 255);
    assert_eq!(read_syncsafe_integer_5bytes([1, 0, 0, 0, 0]), 1 << 28);
}

#[test]
fn bit_position_masks() {
    assert_eq!(BitPosition::LSB.binary_representation(), 0b00000001);
    assert_eq!(BitPosition::LSBPlus4.binary_representation(), 0b00010000);
    assert_eq!(BitPosition::LSBPlus7.binary_representation(), 0b10000000);
    assert!(BitPosition::LSBPlus6.is_set_on(0x40));
    assert!(!BitPosition::LSBPlus6.is_set_on(0xBF));
}

#[test]
fn bit_position_iteration_and_rotation() {
    let order = BitPosition::iter_right();
    assert_eq!(order.len(), 8);
    assert_eq!(order[0], BitPosition::LSB);
    assert_eq!(order[7], BitPosition::LSBPlus7);
    assert_eq!(BitPosition::LSB.rotate_right(), BitPosition::LSBPlus7);
    assert_eq!(BitPosition::LSBPlus3.rotate_right(), BitPosition::LSBPlus2);
    assert_eq!(BitPosition::LSBPlus7.rotate_left(), BitPosition::LSB);
    assert_eq!(BitPosition::LSBPlus3.rotate_left(), BitPosition::LSBPlus4);
}

#[test]
fn latin1_round_trip() {
    assert_eq!(latin1_to_string(&[72, 105]), "Hi");
    assert_eq!(latin1_to_string(&[0xE9]), "\u{e9}");
    assert_eq!(string_to_latin1("Hi"), vec![72u8, 105]);
    assert_eq!(string_to_latin1("\u{e9}"), vec![0xE9u8]);
}
