use id3v2::encoding::ByteOrder;
use id3v2::encoding::Encoding;
use id3v2::encoding::EncodingError;

#[test]
fn selector_picks_the_encoding() {
    assert_eq!(Encoding::extract_from_vec(&vec![0, 9]), Ok(Encoding::Latin1));
    assert_eq!(Encoding::extract_from_vec(&vec![2, 9]), Ok(Encoding::UTF16BE));
    assert_eq!(Encoding::extract_from_vec(&vec![3, 9]), Ok(Encoding::UTF8));
}

#[test]
fn selector_failures() {
    assert_eq!(
        Encoding::extract_from_vec(&vec![]),
        Err(EncodingError::MissingEncoding)
    );
    assert_eq!(
        Encoding::extract_from_vec(&vec![9]),
        Err(EncodingError::UnknownEncoding(9))
    );
    assert_eq!(
        Encoding::extract_from_vec(&vec![1, 0xFE]),
        Err(EncodingError::MissingBOM)
    );
}

#[test]
fn utf16_byte_order_marks() {
    assert_eq!(
        Encoding::extract_from_vec(&vec![1, 0xFE, 0xFF]),
        Ok(Encoding::UTF16(ByteOrder::BigEndian))
    );
    assert_eq!(
        Encoding::extract_from_vec(&vec![1, 0xFF, 0xFE]),
        Ok(Encoding::UTF16(ByteOrder::LittleEndian))
    );
    assert_eq!(
        Encoding::extract_from_vec(&vec![1, 0xAB, 0xCD]),
        Err(EncodingError::InvalidBOM(0xAB, 0xCD))
    );
}

#[test]
fn separators_and_header_lengths() {
    assert_eq!(Encoding::Latin1.string_separator(), vec![0u8]);
    assert_eq!(Encoding::UTF8.string_separator(), vec![0u8]);
    assert_eq!(Encoding::UTF16BE.string_separator(), vec![0u8, 0u8]);
    assert_eq!(
        Encoding::UTF16(ByteOrder::BigEndian).string_separator(),
        vec![0u8, 0u8]
    );
    assert_eq!(Encoding::Latin1.bytes_length(), 1);
    assert_eq!(Encoding::UTF8.bytes_length(), 1);
    assert_eq!(Encoding::UTF16BE.bytes_length(), 1);
    assert_eq!(Encoding::UTF16(ByteOrder::LittleEndian).bytes_length(), 3);
}

#[test]
fn split_keeps_terminated_pieces_in_order() {
    let pieces = Encoding::Latin1.split_bytes_by_string_separator(&[65, 0, 66, 0]);
    assert_eq!(pieces, vec![vec![65u8], vec![66u8]]);
    let pieces = Encoding::UTF16BE.split_bytes_by_string_separator(&[65, 66, 0, 0, 67, 0, 0]);
    assert_eq!(pieces, vec![vec![65u8, 66], vec![67u8]]);
}

#[test]
fn split_without_separator_yields_nothing() {
    let pieces = Encoding::Latin1.split_bytes_by_string_separator(&[65, 66, 67]);
    assert_eq!(pieces, Vec::<Vec<u8>>::new());
}

#[test]
fn split_drops_unterminated_tail() {
    let pieces = Encoding::Latin1.split_bytes_by_string_separator(&[65, 0, 66, 66]);
    assert_eq!(pieces, vec![vec![65u8]]);
}

#[test]
fn make_string_latin1() {
    assert_eq!(Encoding::Latin1.make_string(&[72, 0xE9]), "H\u{e9}");
}

#[test]
fn make_string_utf8_is_lossy() {
    assert_eq!(Encoding::UTF8.make_string(b"Hi"), "Hi");
    assert_eq!(Encoding::UTF8.make_string(&[0xFF]), "\u{FFFD}");
}

#[test]
fn make_string_utf16_pairs_bytes_by_order() {
    assert_eq!(Encoding::UTF16BE.make_string(&[0x00, 0x41, 0x00, 0x42]), "AB");
    assert_eq!(
        Encoding::UTF16(ByteOrder::BigEndian).make_string(&[0x00, 0x41]),
        "A"
    );
    assert_eq!(
        Encoding::UTF16(ByteOrder::LittleEndian).make_string(&[0x41, 0x00, 0x42, 0x00]),
        "AB"
    );
}
