use id3v2::encoding::Encoding;
use id3v2::encoding::EncodingError;
use id3v2::extended_header::ExtendedHeader;
use id3v2::extended_header::ExtendedHeaderFlagDataType;
use id3v2::extended_header::ExtendedHeaderReadError;
use id3v2::extended_header::ImageEncodingRestrictions;
use id3v2::extended_header::ImageSizeRestrictions;
use id3v2::extended_header::TagRestrictions;
use id3v2::extended_header::TagSizeRestrictions;
use id3v2::extended_header::TextEncodingRestrictions;
use id3v2::extended_header::TextFieldSizeRestrictions;
use id3v2::frame::Frame;
use id3v2::frame::FrameReadError;
use id3v2::frame_id::FrameID;
use id3v2::frame_type::FrameType;
use id3v2::frame_type::TextInformationError;
use id3v2::header::Header;
use id3v2::header::HeaderFlagType;
use id3v2::header::HeaderReadError;
use id3v2::tag::Tag;
use id3v2::tag::TagReadError;
use id3v2::utils::BitPosition;

#[test]
fn simple_header() {
    let bytes: [u8; 10] = [
        b'I', b'D', b'3', 4, 0, 0b01010000, 0, 0, 0b00000001, 0b01111111,
    ];
    let header = Header::read(&bytes, 0);
    assert_eq!(
        header,
        Ok(Header {
            version: 4,
            flags_byte: 0b01010000,
            tag_size: 255
        })
    );
    let header = header.unwrap();
    assert!(!header.is_flag_set(&HeaderFlagType::Unsynchronisation));
    assert!(header.is_flag_set(&HeaderFlagType::FooterPresent));
    assert!(header.is_flag_set(&HeaderFlagType::ExtendedHeader));
    assert!(!header.is_flag_set(&HeaderFlagType::ExperimentalIndicator));
    assert_eq!(header.bytes_size(), 10);
    assert_eq!(header.tag_size(), 255);
}

#[test]
fn header_failures() {
    assert_eq!(
        Header::read(&[b'I', b'D', b'3', 4, 0], 0),
        Err(HeaderReadError::NotEnoughBytes)
    );
    assert_eq!(
        Header::read(&[b'X', b'D', b'3', 4, 0, 0, 0, 0, 0, 0], 0),
        Err(HeaderReadError::ID3NotFound)
    );
}

#[test]
fn frame_id_accepts_capitals_and_digits() {
    assert!(FrameID(*b"TIT2").is_valid());
    assert!(FrameID(*b"UFID").is_valid());
    assert!(FrameID(*b"1234").is_valid());
    assert!(FrameID::try_from(*b"TALB").is_ok());
}

#[test]
fn frame_id_rejects_everything_else() {
    assert!(!FrameID(*b"tIT2").is_valid());
    assert!(!FrameID(*b"TI-2").is_valid());
    assert!(!FrameID(*b"TI 2").is_valid());
    assert!(!FrameID([b'T', b'I', b'T', 0xFF]).is_valid());
    assert!(!FrameID([0, 0, 0, 0]).is_valid());
    assert!(FrameID::try_from(*b"tIT2").is_err());
}

fn text_frame_bytes(id: &[u8; 4], payload: &[u8]) -> Vec<u8> {
    let mut bytes = id.to_vec();
    assert!(payload.len() < 128);
    bytes.extend_from_slice(&[0, 0, 0, payload.len() as u8, 0, 0]);
    bytes.extend_from_slice(payload);
    bytes
}

#[test]
fn frame_read_round() {
    let bytes = text_frame_bytes(b"TIT2", &[3, b'H', b'i', 0]);
    let (frame, end) = Frame::read(&bytes, 0).unwrap();
    assert_eq!(end, bytes.len());
    assert_eq!(frame.frame_id.bytes(), b"TIT2");
    assert_eq!(frame.frame_size, 4);
    assert_eq!(frame.flags_byte, (0, 0));
    assert_eq!(*frame.data, vec![3, b'H', b'i', 0]);
    assert_eq!(frame.bytes_size(), 14);
    assert!(matches!(frame.frame_type, FrameType::Unknown));
}

#[test]
fn frame_read_failures() {
    assert!(matches!(
        Frame::read(b"TI", 0),
        Err(FrameReadError::NotEnoughBytes)
    ));
    let invalid = Frame::read(b"ti99\x00\x00\x00\x00\x00\x00", 0);
    assert!(matches!(
        invalid,
        Err(FrameReadError::InvalidFrameID(id)) if id.bytes() == b"ti99"
    ));
    let short_payload = Frame::read(b"TIT2\x00\x00\x00\x05\x00\x00ab", 0);
    assert!(matches!(short_payload, Err(FrameReadError::NotEnoughBytes)));
}

#[test]
fn classify_unique_file_identifier() {
    let bytes = text_frame_bytes(b"UFID", b"owner\0id99");
    let (frame, _) = Frame::read(&bytes, 0).unwrap();
    match FrameType::from(frame) {
        FrameType::UniqueFileIdentifier {
            owner_identifier,
            identifier,
        } => {
            assert_eq!(owner_identifier, "owner");
            assert_eq!(identifier, b"id99".to_vec());
        }
        other => panic!("{:?}", other),
    }
}

#[test]
fn classify_ufid_without_zero_byte() {
    let bytes = text_frame_bytes(b"UFID", b"owner");
    let (frame, _) = Frame::read(&bytes, 0).unwrap();
    match FrameType::from(frame) {
        FrameType::UniqueFileIdentifier {
            owner_identifier,
            identifier,
        } => {
            assert_eq!(owner_identifier, "owner");
            assert_eq!(identifier, Vec::<u8>::new());
        }
        other => panic!("{:?}", other),
    }
}

#[test]
fn classify_experimental_and_unknown() {
    for id in [b"XABC", b"YABC", b"ZABC"] {
        let bytes = text_frame_bytes(id, &[]);
        let (frame, _) = Frame::read(&bytes, 0).unwrap();
        assert!(matches!(FrameType::from(frame), FrameType::Experimental));
    }
    let bytes = text_frame_bytes(b"ABCD", &[1, 2, 3]);
    let (frame, _) = Frame::read(&bytes, 0).unwrap();
    assert!(matches!(FrameType::from(frame), FrameType::Unknown));
}

#[test]
fn classify_text_information() {
    let bytes = text_frame_bytes(b"TIT2", &[3, b'T', b'i', b't', 0]);
    let (frame, _) = Frame::read(&bytes, 0).unwrap();
    match FrameType::from(frame) {
        FrameType::TextInformation(Ok(info)) => {
            assert_eq!(info.encoding, Encoding::UTF8);
            assert_eq!(info.strings, vec!["Tit".to_string()]);
        }
        other => panic!("{:?}", other),
    }
}

#[test]
fn classify_text_information_bad_encoding() {
    let bytes = text_frame_bytes(b"TIT2", &[9, b'T']);
    let (frame, _) = Frame::read(&bytes, 0).unwrap();
    assert_eq!(
        FrameType::from(frame),
        FrameType::TextInformation(Err(TextInformationError::EncodingError(
            EncodingError::UnknownEncoding(9)
        )))
    );
}

#[test]
fn extended_header_update_flag() {
    // syncsafe size, one flag byte, bit 6 set, one empty data block
    let bytes: Vec<u8> = vec![0, 0, 0, 7, 1, 0x40, 0];
    let (xh, end) = ExtendedHeader::read(&bytes, 0).unwrap();
    assert_eq!(end, 7);
    assert_eq!(xh.extended_header_size, 7);
    assert_eq!(xh.number_of_flag_bytes, 1);
    assert_eq!(xh.flag_bytes, vec![0x40u8]);
    assert_eq!(xh.flag_data.len(), 1);
    assert_eq!(xh.flag_data[0].size, 0);
    assert_eq!(
        xh.flag_data[0].typ,
        ExtendedHeaderFlagDataType::TagIsAnUpdate
    );
    assert_eq!(xh.bytes_size(), 7);
}

#[test]
fn extended_header_restrictions_decoded() {
    let bytes: Vec<u8> = vec![0, 0, 0, 8, 1, 0x10, 1, 0xB6];
    let (xh, end) = ExtendedHeader::read(&bytes, 0).unwrap();
    assert_eq!(end, 8);
    assert_eq!(xh.bytes_size(), 8);
    assert_eq!(
        xh.flag_data[0].typ,
        ExtendedHeaderFlagDataType::TagRestrictions(TagRestrictions {
            tag_size_restrictions: TagSizeRestrictions::Max32Frames40KB,
            text_encoding_restrictions: TextEncodingRestrictions::ISO88591OrUTF8,
            text_field_size_restrictions: TextFieldSizeRestrictions::Max128Chars,
            image_encoding_restrictions: ImageEncodingRestrictions::PngOrJpeg,
            image_size_restrictions: ImageSizeRestrictions::Max64x64Pixels,
        })
    );
}

#[test]
fn extended_header_crc_flag() {
    let bytes: Vec<u8> = vec![0, 0, 0, 12, 1, 0x20, 5, 1, 2, 3, 4, 5];
    let (xh, _) = ExtendedHeader::read(&bytes, 0).unwrap();
    assert_eq!(
        xh.flag_data[0].typ,
        ExtendedHeaderFlagDataType::CrcDataPresent
    );
    assert_eq!(xh.flag_data[0].data, vec![1, 2, 3, 4, 5]);
}

#[test]
fn extended_header_size_mismatches() {
    let crc = ExtendedHeader::read(&[0, 0, 0, 11, 1, 0x20, 4, 1, 2, 3, 4], 0);
    assert_eq!(crc, Err(ExtendedHeaderReadError::InvalidTagCRCSize(4)));
    let restrictions = ExtendedHeader::read(&[0, 0, 0, 9, 1, 0x10, 2, 0, 0], 0);
    assert_eq!(
        restrictions,
        Err(ExtendedHeaderReadError::InvalidFlagTagRestrictionSize(2))
    );
}

#[test]
fn extended_header_unknown_flag_keeps_data() {
    let bytes: Vec<u8> = vec![0, 0, 0, 9, 1, 0x01, 2, 9, 8];
    let (xh, _) = ExtendedHeader::read(&bytes, 0).unwrap();
    assert_eq!(
        xh.flag_data[0].typ,
        ExtendedHeaderFlagDataType::Unknown(0, BitPosition::LSB)
    );
    assert_eq!(xh.flag_data[0].data, vec![9, 8]);
}

#[test]
fn extended_header_walks_bits_in_order() {
    // bits 4, 5 and 6 set: blocks come in ascending bit order
    let bytes: Vec<u8> = vec![0, 0, 0, 15, 1, 0x70, 1, 0x00, 5, 1, 2, 3, 4, 5, 0];
    let (xh, _) = ExtendedHeader::read(&bytes, 0).unwrap();
    assert_eq!(xh.flag_data.len(), 3);
    assert!(matches!(
        xh.flag_data[0].typ,
        ExtendedHeaderFlagDataType::TagRestrictions(_)
    ));
    assert_eq!(
        xh.flag_data[1].typ,
        ExtendedHeaderFlagDataType::CrcDataPresent
    );
    assert_eq!(
        xh.flag_data[2].typ,
        ExtendedHeaderFlagDataType::TagIsAnUpdate
    );
}

#[test]
fn extended_header_too_short() {
    assert_eq!(
        ExtendedHeader::read(&[0, 0, 0], 0),
        Err(ExtendedHeaderReadError::NotEnoughBytes)
    );
    assert_eq!(
        ExtendedHeader::read(&[0, 0, 0, 6, 2, 0], 0),
        Err(ExtendedHeaderReadError::NotEnoughBytes)
    );
}

fn tag_header_bytes(flags: u8, tag_size: u8) -> Vec<u8> {
    assert!(tag_size < 128);
    vec![b'I', b'D', b'3', 4, 0, flags, 0, 0, 0, tag_size]
}

#[test]
fn tag_end_to_end_single_title_frame() {
    let frame = text_frame_bytes(b"TIT2", &[3, b'T', b'i', b't', b'l', b'e', 0]);
    let padding = vec![0u8; 10];
    let mut bytes = tag_header_bytes(0, (frame.len() + padding.len()) as u8);
    bytes.extend_from_slice(&frame);
    bytes.extend_from_slice(&padding);
    let mut tag = Tag::read(&bytes).unwrap();
    assert!(tag.extended_header.is_none());
    assert!(tag.footer.is_none());
    assert_eq!(tag.frames.len(), 1);
    assert_eq!(tag.frames[0].frame_id.bytes(), b"TIT2");
    let info = match FrameType::from(tag.frames.remove(0)) {
        FrameType::TextInformation(Ok(info)) => info,
        other => panic!("{:?}", other),
    };
    assert_eq!(info.encoding, Encoding::UTF8);
    assert_eq!(info.strings, vec!["Title".to_string()]);
}

#[test]
fn tag_frame_loop_stops_at_declared_size() {
    // the tag size covers the header and the frame exactly; the buffer ends
    // with the frame, so any further read attempt would fail
    let frame = text_frame_bytes(b"TALB", &[3, b'A', 0]);
    let mut bytes = tag_header_bytes(0, (10 + frame.len()) as u8);
    bytes.extend_from_slice(&frame);
    let tag = Tag::read(&bytes).unwrap();
    assert_eq!(tag.frames.len(), 1);
}

#[test]
fn tag_frame_loop_stops_on_padding() {
    let frame = text_frame_bytes(b"TALB", &[3, b'A', 0]);
    let padding = vec![0u8; 20];
    let mut bytes = tag_header_bytes(0, 120);
    bytes.extend_from_slice(&frame);
    bytes.extend_from_slice(&padding);
    let tag = Tag::read(&bytes).unwrap();
    assert_eq!(tag.frames.len(), 1);
}

#[test]
fn tag_with_extended_header() {
    let xheader: Vec<u8> = vec![0, 0, 0, 7, 1, 0x40, 0];
    let frame = text_frame_bytes(b"TALB", &[3, b'A', 0]);
    let mut bytes = tag_header_bytes(0x40, (xheader.len() + frame.len()) as u8 + 10);
    bytes.extend_from_slice(&xheader);
    bytes.extend_from_slice(&frame);
    let tag = Tag::read(&bytes).unwrap();
    let xh = tag.extended_header.unwrap();
    assert_eq!(
        xh.flag_data[0].typ,
        ExtendedHeaderFlagDataType::TagIsAnUpdate
    );
    assert_eq!(tag.frames.len(), 1);
}

#[test]
fn tag_refuses_footer() {
    let bytes = tag_header_bytes(0x10, 0);
    assert_eq!(Tag::read(&bytes).unwrap_err(), TagReadError::FooterNotSupported);
}

#[test]
fn tag_header_errors_abort() {
    assert_eq!(
        Tag::read(b"MP3garbage").unwrap_err(),
        TagReadError::HeaderError(HeaderReadError::ID3NotFound)
    );
    assert_eq!(
        Tag::read(b"ID3").unwrap_err(),
        TagReadError::HeaderError(HeaderReadError::NotEnoughBytes)
    );
}

#[test]
fn tag_frame_error_carries_frame_number() {
    // first frame declares a payload that runs past the buffer
    let mut bytes = tag_header_bytes(0, 100);
    bytes.extend_from_slice(b"TIT2\x00\x00\x00\x50\x00\x00ab");
    assert_eq!(
        Tag::read(&bytes).unwrap_err(),
        TagReadError::FrameReadError(1, FrameReadError::NotEnoughBytes)
    );
}

#[test]
fn tag_error_conversions() {
    assert_eq!(
        TagReadError::from(HeaderReadError::ID3NotFound),
        TagReadError::HeaderError(HeaderReadError::ID3NotFound)
    );
    assert_eq!(
        TagReadError::from(ExtendedHeaderReadError::NotEnoughBytes),
        TagReadError::ExtendedHeaderError(ExtendedHeaderReadError::NotEnoughBytes)
    );
}

#[test]
fn default_values() {
    assert_eq!(
        Header::default(),
        Header {
            version: 4,
            flags_byte: 0,
            tag_size: 10
        }
    );
    let xh = ExtendedHeader::default();
    assert_eq!(xh.extended_header_size, 5);
    assert_eq!(xh.number_of_flag_bytes, 0);
    assert_eq!(xh.flag_bytes, vec![0u8]);
    assert!(xh.flag_data.is_empty());
    assert_eq!(FrameID::default(), FrameID([0, 0, 0, 0]));
}
