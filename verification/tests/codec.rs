use ws_frame::error::Error;
use ws_frame::frame::{echo_reply, Frame};
use ws_frame::header::FrameHeader;
use ws_frame::length::LengthFormat;
use ws_frame::mask::apply_mask;
use ws_frame::message::Message;
use ws_frame::opcode::{Control, Data, OpCode};

fn plain(opcode: OpCode) -> FrameHeader {
    FrameHeader {
        is_final: true,
        rsv1: false,
        rsv2: false,
        rsv3: false,
        opcode,
        mask: None,
    }
}

fn header_bytes(header: &FrameHeader, length: u64) -> Vec<u8> {
    let mut out = Vec::new();
    header.format(length, &mut out);
    out
}

#[test]
fn length_format_classes() {
    assert_eq!(LengthFormat::for_length(0), LengthFormat::U8(0));
    assert_eq!(LengthFormat::for_length(125), LengthFormat::U8(125));
    assert_eq!(LengthFormat::for_length(126), LengthFormat::U16);
    assert_eq!(LengthFormat::for_length(65535), LengthFormat::U16);
    assert_eq!(LengthFormat::for_length(65536), LengthFormat::U64);
    assert_eq!(LengthFormat::for_length(u64::MAX), LengthFormat::U64);
}

#[test]
fn length_format_bytes() {
    assert_eq!(LengthFormat::U8(17).length_byte(), 17);
    assert_eq!(LengthFormat::U16.length_byte(), 126);
    assert_eq!(LengthFormat::U64.length_byte(), 127);
    assert_eq!(LengthFormat::U8(17).extra_bytes(), 0);
    assert_eq!(LengthFormat::U16.extra_bytes(), 2);
    assert_eq!(LengthFormat::U64.extra_bytes(), 8);
}

#[test]
fn length_format_for_byte_ignores_mask_flag() {
    assert_eq!(LengthFormat::for_byte(5), LengthFormat::U8(5));
    assert_eq!(LengthFormat::for_byte(0x85), LengthFormat::U8(5));
    assert_eq!(LengthFormat::for_byte(126), LengthFormat::U16);
    assert_eq!(LengthFormat::for_byte(0xfe), LengthFormat::U16);
    assert_eq!(LengthFormat::for_byte(127), LengthFormat::U64);
    assert_eq!(LengthFormat::for_byte(0xff), LengthFormat::U64);
    assert_eq!(LengthFormat::for_byte(0x7d), LengthFormat::U8(125));
}

#[test]
fn opcode_named_values() {
    assert_eq!(OpCode::from(0), OpCode::Data(Data::Continue));
    assert_eq!(OpCode::from(1), OpCode::Data(Data::Text));
    assert_eq!(OpCode::from(2), OpCode::Data(Data::Binary));
    assert_eq!(OpCode::from(3), OpCode::Data(Data::Reserved(3)));
    assert_eq!(OpCode::from(7), OpCode::Data(Data::Reserved(7)));
    assert_eq!(OpCode::from(8), OpCode::Control(Control::Close));
    assert_eq!(OpCode::from(9), OpCode::Control(Control::Ping));
    assert_eq!(OpCode::from(10), OpCode::Control(Control::Pong));
    assert_eq!(OpCode::from(11), OpCode::Control(Control::Reserved(11)));
    assert_eq!(OpCode::from(15), OpCode::Control(Control::Reserved(15)));
}

#[test]
fn opcode_bijection_on_four_bits() {
    for b in 0u8..=15 {
        let opcode = OpCode::from(b);
        assert!(opcode.canonical());
        assert_eq!(u8::from(opcode), b);
    }
}

#[test]
fn opcode_from_drops_high_bits() {
    assert_eq!(OpCode::from(0x81), OpCode::Data(Data::Text));
    assert_eq!(OpCode::from(0xff), OpCode::Control(Control::Reserved(15)));
    assert_eq!(OpCode::from(0x10), OpCode::Data(Data::Continue));
}

#[test]
fn opcode_canonical_ranges() {
    assert!(OpCode::Data(Data::Reserved(3)).canonical());
    assert!(!OpCode::Data(Data::Reserved(2)).canonical());
    assert!(!OpCode::Data(Data::Reserved(8)).canonical());
    assert!(OpCode::Control(Control::Reserved(11)).canonical());
    assert!(!OpCode::Control(Control::Reserved(10)).canonical());
    assert!(!OpCode::Control(Control::Reserved(16)).canonical());
    assert!(OpCode::Control(Control::Ping).canonical());
    assert_eq!(u8::from(OpCode::Data(Data::Reserved(200))), 200);
}

#[test]
fn parse_hello_frame() {
    let input = [0x81, 0x05, b'H', b'e', b'l', b'l', b'o'];
    let (header, length) = FrameHeader::parse(&input).unwrap().unwrap();
    assert_eq!(header, plain(OpCode::Data(Data::Text)));
    assert!(header.is_final);
    assert_eq!(header.mask, None);
    assert_eq!(length, 5);
    let start = FrameHeader::encoded_len(input[1]);
    assert_eq!(start, 2);
    assert_eq!(&input[start..start + length as usize], b"Hello");

    let (frame, used) = Frame::parse(&input).unwrap().unwrap();
    assert_eq!(used, 7);
    assert_eq!(frame.header(), &header);
    assert_eq!(frame.payload().as_slice(), b"Hello");
}

#[test]
fn mask_rfc_example() {
    let mut payload = [0x7f, 0x9f, 0x4d, 0x51, 0x58];
    apply_mask(&mut payload, [0x37, 0xfa, 0x21, 0x3d]);
    assert_eq!(payload, [0x48, 0x65, 0x6c, 0x6c, 0x6f]);
    assert_eq!(&payload, b"Hello");
}

#[test]
fn mask_is_self_inverse() {
    let bytes: Vec<u8> = (0u8..=255).collect();
    let key = [0xde, 0xad, 0xbe, 0xef];
    let mut buf = bytes.clone();
    apply_mask(&mut buf, key);
    assert_ne!(buf, bytes);
    assert_eq!(buf[0], 0x00 ^ 0xde);
    assert_eq!(buf[5], 0x05 ^ 0xad);
    apply_mask(&mut buf, key);
    assert_eq!(buf, bytes);
}

#[test]
fn mask_empty_buffer() {
    let mut buf: [u8; 0] = [];
    apply_mask(&mut buf, [1, 2, 3, 4]);
    assert_eq!(buf.len(), 0);
}

#[test]
fn payload_of_65536_takes_the_long_form() {
    let payload = vec![0u8; 65536];
    let frame = Frame::message(payload, OpCode::Data(Data::Binary));
    assert_eq!(frame.len(), 10 + 65536);
    assert_eq!(frame.header().len(65536), 10);
    let mut out = Vec::new();
    frame.format(&mut out);
    assert_eq!(out.len(), 10 + 65536);
    assert_eq!(out[0], 0x82);
    assert_eq!(out[1], 127);
    assert_eq!(&out[2..10], &[0, 0, 0, 0, 0, 1, 0, 0]);
    assert!(out[10..].iter().all(|b| *b == 0));
}

#[test]
fn format_short_length() {
    let header = plain(OpCode::Data(Data::Text));
    assert_eq!(header_bytes(&header, 5), vec![0x81, 0x05]);
    assert_eq!(header_bytes(&header, 0), vec![0x81, 0x00]);
    assert_eq!(header_bytes(&header, 125), vec![0x81, 125]);
}

#[test]
fn format_two_byte_length() {
    let header = plain(OpCode::Data(Data::Binary));
    assert_eq!(header_bytes(&header, 126), vec![0x82, 126, 0x00, 0x7e]);
    assert_eq!(header_bytes(&header, 300), vec![0x82, 126, 0x01, 0x2c]);
    assert_eq!(header_bytes(&header, 65535), vec![0x82, 126, 0xff, 0xff]);
}

#[test]
fn format_eight_byte_length() {
    let header = plain(OpCode::Control(Control::Ping));
    assert_eq!(
        header_bytes(&header, 0x0102_0304_0506_0708),
        vec![0x89, 127, 1, 2, 3, 4, 5, 6, 7, 8]
    );
    assert_eq!(
        header_bytes(&header, u64::MAX),
        vec![0x89, 127, 0xff, 0xff, 0xff, 0xff, 0xff, 0xff, 0xff, 0xff]
    );
}

#[test]
fn format_flags_and_mask() {
    let header = FrameHeader {
        is_final: false,
        rsv1: true,
        rsv2: false,
        rsv3: true,
        opcode: OpCode::Data(Data::Continue),
        mask: Some([9, 8, 7, 6]),
    };
    assert_eq!(header_bytes(&header, 3), vec![0x50, 0x83, 9, 8, 7, 6]);
    let not_final = FrameHeader {
        is_final: false,
        ..plain(OpCode::Data(Data::Text))
    };
    assert_eq!(header_bytes(&not_final, 1), vec![0x01, 0x01]);
}

#[test]
fn format_appends_to_output() {
    let mut out = vec![0xaa, 0xbb];
    plain(OpCode::Data(Data::Text)).format(2, &mut out);
    assert_eq!(out, vec![0xaa, 0xbb, 0x81, 0x02]);
}

#[test]
fn header_len_accounting() {
    let unmasked = plain(OpCode::Data(Data::Text));
    let masked = FrameHeader {
        mask: Some([1, 2, 3, 4]),
        ..plain(OpCode::Data(Data::Text))
    };
    for (length, extension) in [
        (0u64, 0usize),
        (125, 0),
        (126, 2),
        (65535, 2),
        (65536, 8),
        (u64::MAX, 8),
    ] {
        assert_eq!(unmasked.len(length), 2 + extension);
        assert_eq!(masked.len(length), 2 + extension + 4);
        assert_eq!(header_bytes(&unmasked, length).len(), unmasked.len(length));
        assert_eq!(header_bytes(&masked, length).len(), masked.len(length));
    }
}

#[test]
fn header_round_trip_recovers_length() {
    for length in [0u64, 1, 125, 126, 127, 65535, 65536, 1 << 32, u64::MAX] {
        let header = FrameHeader {
            is_final: length % 2 == 0,
            rsv1: true,
            rsv2: false,
            rsv3: true,
            opcode: OpCode::Control(Control::Reserved(12)),
            mask: Some([0x37, 0xfa, 0x21, 0x3d]),
        };
        let bytes = header_bytes(&header, length);
        let parsed = FrameHeader::parse(&bytes);
        assert_eq!(parsed, Ok(Some((header, length))));
        assert_eq!(FrameHeader::encoded_len(bytes[1]), bytes.len());
    }
}

#[test]
fn frame_round_trip_masked() {
    let header = FrameHeader {
        is_final: true,
        rsv1: false,
        rsv2: true,
        rsv3: false,
        opcode: OpCode::Data(Data::Binary),
        mask: Some([0x37, 0xfa, 0x21, 0x3d]),
    };
    let payload: Vec<u8> = (0..300u32).map(|i| (i * 7) as u8).collect();
    let frame = Frame::new(header.clone(), payload.clone());
    assert_eq!(frame.len(), 2 + 2 + 4 + 300);
    let mut wire = Vec::new();
    frame.clone().format(&mut wire);
    assert_eq!(wire.len(), frame.len());
    wire.extend_from_slice(&[1, 2, 3]);

    let (parsed_header, length) = FrameHeader::parse(&wire).unwrap().unwrap();
    assert_eq!(parsed_header, header);
    assert_eq!(length, 300);
    let start = FrameHeader::encoded_len(wire[1]);
    let mut body = wire[start..start + 300].to_vec();
    assert_ne!(body, payload);
    apply_mask(&mut body, parsed_header.mask.unwrap());
    assert_eq!(body, payload);

    let (parsed, used) = Frame::parse(&wire).unwrap().unwrap();
    assert_eq!(used, wire.len() - 3);
    assert_eq!(parsed, frame);
}

#[test]
fn frame_format_masks_the_payload() {
    let header = FrameHeader {
        mask: Some([0x37, 0xfa, 0x21, 0x3d]),
        ..plain(OpCode::Data(Data::Text))
    };
    let frame = Frame::new(header, b"Hello".to_vec());
    let mut out = Vec::new();
    frame.format(&mut out);
    assert_eq!(
        out,
        vec![0x81, 0x85, 0x37, 0xfa, 0x21, 0x3d, 0x7f, 0x9f, 0x4d, 0x51, 0x58]
    );
}

#[test]
fn frame_parse_unmasks_the_payload() {
    let wire = [0x81, 0x85, 0x37, 0xfa, 0x21, 0x3d, 0x7f, 0x9f, 0x4d, 0x51, 0x58];
    let (frame, used) = Frame::parse(&wire).unwrap().unwrap();
    assert_eq!(used, 11);
    assert_eq!(frame.payload().as_slice(), b"Hello");
    assert_eq!(frame.header().mask, Some([0x37, 0xfa, 0x21, 0x3d]));
}

#[test]
fn frame_parse_incomplete_payload() {
    let wire = [0x81, 0x05, b'H', b'e', b'l', b'l'];
    assert_eq!(Frame::parse(&wire), Ok(None));
    assert_eq!(Frame::parse(&[0x81]), Ok(None));
    assert_eq!(
        Frame::parse(&[0x81, 0x85, 1, 2]),
        Err(Error::TruncatedMask)
    );
    let huge = [0x82, 127, 0xff, 0xff, 0xff, 0xff, 0xff, 0xff, 0xff, 0xff, 0];
    assert_eq!(Frame::parse(&huge), Ok(None));
}

#[test]
fn frame_message_is_final_and_unmasked() {
    let frame = Frame::message(b"hi".to_vec(), OpCode::Data(Data::Text));
    assert_eq!(frame.header(), &plain(OpCode::Data(Data::Text)));
    assert_eq!(frame.payload(), &b"hi".to_vec());
    assert_eq!(frame.len(), 4);
    let mut out = Vec::new();
    frame.format(&mut out);
    assert_eq!(out, vec![0x81, 0x02, b'h', b'i']);
}

#[test]
fn frame_apply_mask_clears_the_key() {
    let header = FrameHeader {
        mask: Some([0x37, 0xfa, 0x21, 0x3d]),
        ..plain(OpCode::Data(Data::Text))
    };
    let mut frame = Frame::new(header, b"Hello".to_vec());
    frame.apply_mask();
    assert_eq!(frame.header().mask, None);
    assert_eq!(frame.payload(), &vec![0x7f, 0x9f, 0x4d, 0x51, 0x58]);
    frame.apply_mask();
    assert_eq!(frame.payload(), &vec![0x7f, 0x9f, 0x4d, 0x51, 0x58]);
}

#[test]
fn frame_len_of_empty_payload() {
    let frame = Frame::message(Vec::new(), OpCode::Control(Control::Pong));
    assert_eq!(frame.len(), 2);
    let mut out = Vec::new();
    frame.format(&mut out);
    assert_eq!(out, vec![0x8a, 0x00]);
}

#[test]
fn parse_needs_two_bytes() {
    assert_eq!(FrameHeader::parse(&[]), Ok(None));
    assert_eq!(FrameHeader::parse(&[0x81]), Ok(None));
}

#[test]
fn parse_short_extension_is_no_frame() {
    assert_eq!(FrameHeader::parse(&[0x81, 126]), Ok(None));
    assert_eq!(FrameHeader::parse(&[0x81, 126, 0x01]), Ok(None));
    assert_eq!(FrameHeader::parse(&[0x81, 127, 0, 0, 0, 0, 0, 0, 1]), Ok(None));
    assert_eq!(FrameHeader::parse(&[0x81, 0xfe, 0x01]), Ok(None));
}

#[test]
fn parse_truncated_mask_is_an_error() {
    assert_eq!(FrameHeader::parse(&[0x81, 0x85]), Err(Error::TruncatedMask));
    assert_eq!(
        FrameHeader::parse(&[0x81, 0x85, 1, 2, 3]),
        Err(Error::TruncatedMask)
    );
    assert_eq!(
        FrameHeader::parse(&[0x81, 0xfe, 0x01, 0x00, 9, 9, 9]),
        Err(Error::TruncatedMask)
    );
}

#[test]
fn parse_reads_big_endian_lengths() {
    let (_, length) = FrameHeader::parse(&[0x82, 126, 0x01, 0x02]).unwrap().unwrap();
    assert_eq!(length, 258);
    let (_, length) = FrameHeader::parse(&[0x82, 127, 1, 2, 3, 4, 5, 6, 7, 8])
        .unwrap()
        .unwrap();
    assert_eq!(length, 0x0102_0304_0506_0708);
    let (header, length) = FrameHeader::parse(&[0x82, 0xfe, 0x12, 0x34, 4, 3, 2, 1, 0xee])
        .unwrap()
        .unwrap();
    assert_eq!(length, 0x1234);
    assert_eq!(header.mask, Some([4, 3, 2, 1]));
}

#[test]
fn parse_accepts_a_longer_encoding_than_needed() {
    let (header, length) = FrameHeader::parse(&[0x81, 126, 0x00, 0x05]).unwrap().unwrap();
    assert_eq!(length, 5);
    assert_eq!(header, plain(OpCode::Data(Data::Text)));
    assert_eq!(FrameHeader::encoded_len(126), 4);
    assert_eq!(header.len(length), 2);
    let (_, length) = FrameHeader::parse(&[0x81, 127, 0, 0, 0, 0, 0, 0, 0, 5])
        .unwrap()
        .unwrap();
    assert_eq!(length, 5);
}

#[test]
fn parse_reads_every_flag() {
    let (header, length) = FrameHeader::parse(&[0x7a, 0x00]).unwrap().unwrap();
    assert_eq!(
        header,
        FrameHeader {
            is_final: false,
            rsv1: true,
            rsv2: true,
            rsv3: true,
            opcode: OpCode::Control(Control::Pong),
            mask: None,
        }
    );
    assert_eq!(length, 0);
}

#[test]
fn encoded_len_by_second_byte() {
    assert_eq!(FrameHeader::encoded_len(0), 2);
    assert_eq!(FrameHeader::encoded_len(125), 2);
    assert_eq!(FrameHeader::encoded_len(126), 4);
    assert_eq!(FrameHeader::encoded_len(127), 10);
    assert_eq!(FrameHeader::encoded_len(0x80), 6);
    assert_eq!(FrameHeader::encoded_len(0xfe), 8);
    assert_eq!(FrameHeader::encoded_len(0xff), 14);
}

#[test]
fn set_mask_keeps_the_other_fields() {
    let mut header = FrameHeader {
        is_final: false,
        rsv1: true,
        rsv2: false,
        rsv3: false,
        opcode: OpCode::Data(Data::Binary),
        mask: None,
    };
    header.set_mask([1, 2, 3, 4]);
    assert_eq!(header.mask, Some([1, 2, 3, 4]));
    assert!(!header.is_final);
    assert!(header.rsv1);
    assert_eq!(header.opcode, OpCode::Data(Data::Binary));
}

#[test]
fn set_random_mask_sets_a_key() {
    let mut header = plain(OpCode::Data(Data::Text));
    header.set_random_mask();
    assert!(header.mask.is_some());
    assert_eq!(header.len(0), 6);
    assert_eq!(
        FrameHeader {
            mask: None,
            ..header
        },
        plain(OpCode::Data(Data::Text))
    );
}

#[test]
fn error_messages() {
    assert_eq!(Error::Utf8.message(), "UTF-8 encoding error");
    assert_eq!(Error::TruncatedMask.message(), "masking key is truncated");
}

#[test]
fn text_message_needs_utf8() {
    assert_eq!(
        Message::text(b"Hello".to_vec()),
        Ok(Message::Text(String::from("Hello")))
    );
    assert_eq!(
        Message::text(vec![0xe2, 0x82, 0xac]),
        Ok(Message::Text(String::from("\u{20ac}")))
    );
    assert_eq!(Message::text(vec![0xff, 0xfe]), Err(Error::Utf8));
    assert_eq!(Message::text(vec![0xe2, 0x82]), Err(Error::Utf8));
    assert_eq!(Message::text(Vec::new()), Ok(Message::Text(String::new())));
}

#[test]
fn binary_message_holds_the_bytes() {
    assert_eq!(Message::binary(vec![1, 2, 3]), Message::Binary(vec![1, 2, 3]));
}

#[test]
fn echo_reply_wraps_the_payload_in_a_text_frame() {
    let wire = [0x82, 0x85, 0x37, 0xfa, 0x21, 0x3d, 0x7f, 0x9f, 0x4d, 0x51, 0x58, 0, 0];
    assert_eq!(
        echo_reply(&wire),
        Ok(Some(vec![0x81, 0x05, b'H', b'e', b'l', b'l', b'o']))
    );
    assert_eq!(echo_reply(&[0x81, 0x03, b'a']), Ok(None));
    assert_eq!(echo_reply(&[0x81, 0x83, 1]), Err(Error::TruncatedMask));
    assert_eq!(echo_reply(&[0x81, 0x00]), Ok(Some(vec![0x81, 0x00])));
}

#[test]
fn error_from_decoding_errors() {
    let e = std::str::from_utf8(&[0xff]).unwrap_err();
    assert_eq!(Error::from(e), Error::Utf8);
    let e = String::from_utf8(vec![0xc0]).unwrap_err();
    assert_eq!(Error::from(e), Error::Utf8);
    let value = http::header::HeaderValue::from_bytes(&[0xfa]).unwrap();
    let e = value.to_str().unwrap_err();
    assert_eq!(Error::from(e), Error::Utf8);
}
