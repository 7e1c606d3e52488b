use bytes::{Bytes, BytesMut};
use frame_mapper::endian::{read_be_u32, u64_be_bytes};
use frame_mapper::error::StreamError;
use frame_mapper::video::{
    next_item, parse_frame, parse_item, serialize_frame, serialize_frame_info, Frame, FrameInfo,
    FrameType, MediaStreamItem, FRAME_HEADER, INIT_HEADER, TAG_FRAME, TAG_INIT,
};

fn init_segment(payload: &[u8]) -> Vec<u8> {
    let mut out = vec![0x00];
    out.extend_from_slice(&(payload.len() as u32).to_be_bytes());
    out.extend_from_slice(payload);
    out
}

fn frame_segment(
    keyframe: u8,
    frame_type: u8,
    availability: u64,
    decode: u64,
    presentation: u64,
    payload: &[u8],
) -> Vec<u8> {
    let mut out = vec![0x01, keyframe, frame_type];
    out.extend_from_slice(&availability.to_be_bytes());
    out.extend_from_slice(&decode.to_be_bytes());
    out.extend_from_slice(&presentation.to_be_bytes());
    out.extend_from_slice(&(payload.len() as u32).to_be_bytes());
    out.extend_from_slice(payload);
    out
}

fn expect_frame(item: Result<MediaStreamItem, StreamError>) -> Frame {
    match item {
        Ok(MediaStreamItem::Frame(frame)) => frame,
        Ok(MediaStreamItem::InitSegment(_)) => panic!("an init segment came out"),
        Err(e) => panic!("{}", e.message()),
    }
}

fn expect_init(item: Result<MediaStreamItem, StreamError>) -> Bytes {
    match item {
        Ok(MediaStreamItem::InitSegment(data)) => data,
        Ok(MediaStreamItem::Frame(_)) => panic!("a frame came out"),
        Err(e) => panic!("{}", e.message()),
    }
}

#[test]
fn empty_buffer_holds_no_item() {
    let mut buf = BytesMut::new();
    assert_eq!(next_item(&mut buf), Ok(false));
    assert_eq!(buf.len(), 0);
}

#[test]
fn tag_alone_is_not_an_item() {
    let mut buf = BytesMut::from(&[0x00u8][..]);
    assert_eq!(next_item(&mut buf), Ok(false));
    let mut buf = BytesMut::from(&[0x01u8][..]);
    assert_eq!(next_item(&mut buf), Ok(false));
    assert_eq!(&buf[..], &[0x01u8][..]);
}

#[test]
fn init_header_without_payload_is_not_an_item() {
    let whole = init_segment(b"abcdef");
    let mut buf = BytesMut::from(&whole[..5]);
    assert_eq!(next_item(&mut buf), Ok(false));
    let mut buf = BytesMut::from(&whole[..10]);
    assert_eq!(next_item(&mut buf), Ok(false));
    assert_eq!(&buf[..], &whole[..10]);
}

#[test]
fn frame_header_without_payload_is_not_an_item() {
    let whole = frame_segment(1, 2, 7, 8, 9, b"picture");
    let mut buf = BytesMut::from(&whole[..30]);
    assert_eq!(next_item(&mut buf), Ok(false));
    let mut buf = BytesMut::from(&whole[..31]);
    assert_eq!(next_item(&mut buf), Ok(false));
    let mut buf = BytesMut::from(&whole[..whole.len() - 1]);
    assert_eq!(next_item(&mut buf), Ok(false));
}

#[test]
fn empty_init_segment_is_an_item() {
    let whole = init_segment(b"");
    assert_eq!(whole.len(), INIT_HEADER);
    let mut buf = BytesMut::from(&whole[..]);
    assert_eq!(next_item(&mut buf), Ok(true));
    let data = expect_init(parse_item(&mut buf));
    assert_eq!(data.len(), 0);
    assert_eq!(buf.len(), 0);
}

#[test]
fn init_segment_is_taken_whole() {
    let mut bytes = init_segment(b"codec setup");
    bytes.extend_from_slice(&[0x01, 0x00]);
    let mut buf = BytesMut::from(&bytes[..]);
    assert_eq!(next_item(&mut buf), Ok(true));
    let data = expect_init(parse_item(&mut buf));
    assert_eq!(&data[..], b"codec setup");
    assert_eq!(&buf[..], &[0x01, 0x00]);
    assert_eq!(next_item(&mut buf), Ok(false));
}

#[test]
fn frame_is_taken_whole() {
    let mut bytes = frame_segment(
        1,
        2,
        0x0102_0304_0506_0708,
        0x1112_1314_1516_1718,
        0x2122_2324_2526_2728,
        b"picture",
    );
    assert_eq!(bytes.len(), 1 + FRAME_HEADER + 7);
    bytes.extend_from_slice(&[0x00, 0x00, 0x00]);
    let mut buf = BytesMut::from(&bytes[..]);
    assert_eq!(next_item(&mut buf), Ok(true));
    let frame = expect_frame(parse_item(&mut buf));
    assert!(frame.is_keyframe);
    assert_eq!(frame.frame_type, FrameType::I);
    assert_eq!(frame.availability_time, 0x0102_0304_0506_0708);
    assert_eq!(frame.decode_time, 0x1112_1314_1516_1718);
    assert_eq!(frame.presentation_time, 0x2122_2324_2526_2728);
    assert_eq!(&frame.data[..], b"picture");
    assert_eq!(&buf[..], &[0x00, 0x00, 0x00]);
}

#[test]
fn keyframe_flag_is_any_byte_but_zero() {
    let bytes = frame_segment(0, 0, 1, 2, 3, b"p");
    let mut buf = BytesMut::from(&bytes[..]);
    assert!(!expect_frame(parse_item(&mut buf)).is_keyframe);
    let bytes = frame_segment(0xff, 1, 1, 2, 3, b"b");
    let mut buf = BytesMut::from(&bytes[..]);
    let frame = expect_frame(parse_item(&mut buf));
    assert!(frame.is_keyframe);
    assert_eq!(frame.frame_type, FrameType::B);
}

#[test]
fn greatest_times_are_read_exactly() {
    let bytes = frame_segment(0, 0, u64::MAX, u64::MAX - 1, u64::MAX - 2, b"");
    let mut buf = BytesMut::from(&bytes[..]);
    assert_eq!(next_item(&mut buf), Ok(true));
    let frame = expect_frame(parse_item(&mut buf));
    assert_eq!(frame.frame_type, FrameType::P);
    assert_eq!(frame.availability_time, u64::MAX);
    assert_eq!(frame.decode_time, u64::MAX - 1);
    assert_eq!(frame.presentation_time, u64::MAX - 2);
    assert_eq!(frame.data.len(), 0);
    assert_eq!(buf.len(), 0);
}

#[test]
fn payload_length_is_read_big_endian() {
    let payload = vec![0xabu8; 0x0102];
    let whole = init_segment(&payload);
    assert_eq!(&whole[1..5], &[0x00, 0x00, 0x01, 0x02]);
    let mut buf = BytesMut::from(&whole[..whole.len() - 1]);
    assert_eq!(next_item(&mut buf), Ok(false));
    let mut buf = BytesMut::from(&whole[..]);
    assert_eq!(next_item(&mut buf), Ok(true));
    assert_eq!(&expect_init(parse_item(&mut buf))[..], &payload[..]);
}

#[test]
fn looking_never_changes_the_buffer() {
    let whole = frame_segment(1, 2, 5, 6, 7, b"abc");
    for bytes in [&whole[..], &whole[..17], &[0x02u8, 1, 2, 3][..], &[][..]] {
        let mut buf = BytesMut::from(bytes);
        let _ = next_item(&mut buf);
        let _ = next_item(&mut buf);
        assert_eq!(&buf[..], bytes);
    }
}

#[test]
fn taking_shortens_the_buffer_by_the_segment() {
    let first = frame_segment(1, 2, 5, 6, 7, b"abc");
    let second = init_segment(b"xy");
    let mut all = first.clone();
    all.extend_from_slice(&second);
    let mut buf = BytesMut::from(&all[..]);
    assert_eq!(next_item(&mut buf), Ok(true));
    assert_eq!(buf.len(), all.len());
    let _ = expect_frame(parse_item(&mut buf));
    assert_eq!(buf.len(), all.len() - first.len());
    assert_eq!(&buf[..], &second[..]);
}

#[test]
fn segment_fed_byte_by_byte_is_there_with_its_last_byte() {
    for whole in [frame_segment(1, 2, 11, 22, 33, b"some picture"), init_segment(b"setup")] {
        let mut buf = BytesMut::new();
        for (i, byte) in whole.iter().enumerate() {
            assert_eq!(next_item(&mut buf), Ok(false), "after {} bytes", i);
            buf.extend_from_slice(&[*byte]);
        }
        assert_eq!(next_item(&mut buf), Ok(true));
        assert_eq!(&buf[..], &whole[..]);
    }
}

#[test]
fn frame_fed_byte_by_byte_reads_as_fed_at_once() {
    let whole = frame_segment(1, 1, 11, 22, 33, b"some picture");
    let mut slow = BytesMut::new();
    for byte in whole.iter() {
        slow.extend_from_slice(&[*byte]);
    }
    let mut fast = BytesMut::from(&whole[..]);
    let a = expect_frame(parse_item(&mut slow));
    let b = expect_frame(parse_item(&mut fast));
    assert_eq!(a.is_keyframe, b.is_keyframe);
    assert_eq!(a.frame_type, b.frame_type);
    assert_eq!(a.availability_time, b.availability_time);
    assert_eq!(a.decode_time, b.decode_time);
    assert_eq!(a.presentation_time, b.presentation_time);
    assert_eq!(a.data, b.data);
    assert_eq!(slow.len(), 0);
    assert_eq!(fast.len(), 0);
}

#[test]
fn unknown_tag_is_refused() {
    let mut buf = BytesMut::from(&[0x02u8][..]);
    assert_eq!(next_item(&mut buf), Err(StreamError::UnknownSegmentType));
}

#[test]
fn unknown_tag_is_refused_whatever_follows() {
    let mut bytes = frame_segment(1, 2, 5, 6, 7, b"abc");
    bytes[0] = 0x02;
    for len in 1..=bytes.len() {
        let mut buf = BytesMut::from(&bytes[..len]);
        assert_eq!(next_item(&mut buf), Err(StreamError::UnknownSegmentType));
        assert_eq!(buf.len(), len);
    }
    let mut buf = BytesMut::from(&[0xffu8, 0, 0, 0, 0][..]);
    assert_eq!(next_item(&mut buf), Err(StreamError::UnknownSegmentType));
}

#[test]
fn unknown_frame_type_is_refused() {
    let mut bytes = frame_segment(1, 3, 5, 6, 7, b"abc");
    bytes.extend_from_slice(&[9, 9]);
    let mut buf = BytesMut::from(&bytes[..]);
    assert_eq!(next_item(&mut buf), Ok(true));
    match parse_item(&mut buf) {
        Err(e) => assert_eq!(e, StreamError::InvalidFrameType),
        Ok(_) => panic!("an item came out"),
    }
    assert_eq!(&buf[..], &bytes[3..]);
}

#[test]
fn frame_body_is_read_behind_the_tag() {
    let bytes = frame_segment(1, 0, 5, 6, 7, b"abc");
    let mut buf = BytesMut::from(&bytes[1..]);
    let frame = match parse_frame(&mut buf) {
        Ok(frame) => frame,
        Err(e) => panic!("{}", e.message()),
    };
    assert!(frame.is_keyframe);
    assert_eq!(frame.frame_type, FrameType::P);
    assert_eq!(frame.availability_time, 5);
    assert_eq!(frame.decode_time, 6);
    assert_eq!(frame.presentation_time, 7);
    assert_eq!(&frame.data[..], b"abc");
    assert_eq!(buf.len(), 0);
}

#[test]
fn frame_body_with_unknown_type_loses_two_bytes() {
    let bytes = frame_segment(1, 200, 5, 6, 7, b"abc");
    let mut buf = BytesMut::from(&bytes[1..]);
    match parse_frame(&mut buf) {
        Err(e) => assert_eq!(e, StreamError::InvalidFrameType),
        Ok(_) => panic!("a frame came out"),
    }
    assert_eq!(&buf[..], &bytes[3..]);
}

#[test]
fn frame_type_codes() {
    assert_eq!(FrameType::P.code(), 0);
    assert_eq!(FrameType::B.code(), 1);
    assert_eq!(FrameType::I.code(), 2);
    assert_eq!(FrameType::try_from(0u8), Ok(FrameType::P));
    assert_eq!(FrameType::try_from(1u8), Ok(FrameType::B));
    assert_eq!(FrameType::try_from(2u8), Ok(FrameType::I));
    assert_eq!(FrameType::try_from(3u8), Err(StreamError::InvalidFrameType));
    assert_eq!(FrameType::try_from(255u8), Err(StreamError::InvalidFrameType));
    assert_eq!(TAG_INIT, 0);
    assert_eq!(TAG_FRAME, 1);
}

#[test]
fn frame_is_forwarded_without_tag_flag_and_length() {
    let frame = Frame {
        is_keyframe: true,
        frame_type: FrameType::I,
        availability_time: 0x0102_0304_0506_0708,
        decode_time: 0x1112_1314_1516_1718,
        presentation_time: 0x2122_2324_2526_2728,
        data: Bytes::from_static(b"picture"),
    };
    let mut out = BytesMut::from(&b"<"[..]);
    assert_eq!(serialize_frame(&frame, &mut out), Ok(()));
    let mut expected = vec![b'<', 2];
    expected.extend_from_slice(&[0x01, 0x02, 0x03, 0x04, 0x05, 0x06, 0x07, 0x08]);
    expected.extend_from_slice(&[0x11, 0x12, 0x13, 0x14, 0x15, 0x16, 0x17, 0x18]);
    expected.extend_from_slice(&[0x21, 0x22, 0x23, 0x24, 0x25, 0x26, 0x27, 0x28]);
    expected.extend_from_slice(b"picture");
    assert_eq!(&out[..], &expected[..]);
}

#[test]
fn frame_info_is_type_and_decode_time() {
    let mut out = BytesMut::new();
    let info = FrameInfo { ftype: FrameType::B, dts: 0x0a0b_0c0d_0e0f_1011 };
    assert_eq!(serialize_frame_info(info, &mut out), Ok(()));
    assert_eq!(&out[..], &[1, 0x0a, 0x0b, 0x0c, 0x0d, 0x0e, 0x0f, 0x10, 0x11]);
}

#[test]
fn forwarded_frame_reads_back() {
    for (key, frame_type) in [(true, FrameType::I), (false, FrameType::P), (false, FrameType::B)] {
        let frame = Frame {
            is_keyframe: key,
            frame_type,
            availability_time: 1_700_000_000_123_456_789,
            decode_time: 90_000,
            presentation_time: 93_003,
            data: Bytes::from_static(b"\x00\x01\x02 payload \xff"),
        };
        let mut record = BytesMut::new();
        assert_eq!(serialize_frame(&frame, &mut record), Ok(()));
        // Put the record into a frame segment again: tag, a keyframe flag of
        // our choice, the fixed fields, the payload length, the payload.
        let mut segment = vec![0x01, 0x00];
        segment.extend_from_slice(&record[..25]);
        segment.extend_from_slice(&((record.len() - 25) as u32).to_be_bytes());
        segment.extend_from_slice(&record[25..]);
        let mut buf = BytesMut::from(&segment[..]);
        assert_eq!(next_item(&mut buf), Ok(true));
        let back = expect_frame(parse_item(&mut buf));
        assert_eq!(back.frame_type, frame.frame_type);
        assert_eq!(back.availability_time, frame.availability_time);
        assert_eq!(back.decode_time, frame.decode_time);
        assert_eq!(back.presentation_time, frame.presentation_time);
        assert_eq!(back.data, frame.data);
        assert!(!back.is_keyframe);
        assert_eq!(buf.len(), 0);
    }
}

#[test]
fn big_endian_reads_and_writes() {
    assert_eq!(read_be_u32(&[0x08, 0x09, 0xa0, 0xa1], 0), 0x0809_a0a1);
    assert_eq!(read_be_u32(&[0xee, 0xff, 0xff, 0xff, 0xff], 1), u32::MAX);
    assert_eq!(read_be_u32(&[0, 0, 0, 0], 0), 0);
    assert_eq!(u64_be_bytes(0x0102_0304_0506_0708), [1, 2, 3, 4, 5, 6, 7, 8]);
    assert_eq!(u64_be_bytes(0), [0; 8]);
    assert_eq!(u64_be_bytes(u64::MAX), [0xff; 8]);
    assert_eq!(u64_be_bytes(258), 258u64.to_be_bytes());
}

#[test]
fn error_messages() {
    assert_eq!(StreamError::UnknownSegmentType.message(), "Unknown segment type");
    assert_eq!(StreamError::InvalidFrameType.message(), "Invalid frame type");
    assert_eq!(
        StreamError::TimestampOverflow.message(),
        "Timestamp overflow in priority calculation"
    );
    assert_eq!(StreamError::PGroupOverflow.message(), "Max value for P-group exceeded");
    assert_eq!(
        StreamError::BFrameIndexOverflow.message(),
        "Max value for b-frame index exceeded"
    );
    assert_eq!(StreamError::NoCurrentGroup.message(), "No current group");
}
