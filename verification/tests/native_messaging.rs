use serde::ser::SerializeStruct;
use stop_it::native_messaging::{
    announced_length, byte_order_of, decode_frame, decode_header, encode_frame, encode_header,
    native_byte_order, read_message, write_response, ByteOrder, FrameError, NativeResponse,
    TabUpdateMessage,
};

struct Wire<'a>(&'a NativeResponse);

impl<'a> serde::Serialize for Wire<'a> {
    fn serialize<S: serde::Serializer>(&self, serializer: S) -> Result<S::Ok, S::Error> {
        let mut fields = serializer.serialize_struct("NativeResponse", 2)?;
        fields.serialize_field("success", &self.0.success)?;
        fields.serialize_field("message", &self.0.message)?;
        fields.end()
    }
}

#[test]
fn test_response_serialization() {
    let response = NativeResponse {
        success: true,
        message: Some("Test message".to_string()),
    };
    let json = serde_json::to_string(&Wire(&response)).unwrap();
    assert!(json.contains("\"success\":true"));
    assert!(json.contains("\"message\":\"Test message\""));
}

#[test]
fn response_round_trip_through_the_framing() {
    let response = NativeResponse { success: false, message: None };
    let json = serde_json::to_string(&Wire(&response)).unwrap();
    let frame = write_response(&json).unwrap();
    assert_eq!(frame[..4], (json.len() as u32).to_ne_bytes());
    assert_eq!(&frame[4..], json.as_bytes());
    assert_eq!(read_message(&frame), Ok(Some(json.as_bytes().to_vec())));
}

#[test]
fn headers_in_both_orders() {
    assert_eq!(encode_header(0x0102_0304, ByteOrder::LittleEndian), [4, 3, 2, 1]);
    assert_eq!(encode_header(0x0102_0304, ByteOrder::BigEndian), [1, 2, 3, 4]);
    assert_eq!(decode_header(&[4, 3, 2, 1, 9], ByteOrder::LittleEndian), 0x0102_0304);
    assert_eq!(decode_header(&[1, 2, 3, 4], ByteOrder::BigEndian), 0x0102_0304);
    assert_eq!(encode_header(u32::MAX, ByteOrder::BigEndian), [255, 255, 255, 255]);
    assert_eq!(decode_header(&[255, 255, 255, 255], ByteOrder::LittleEndian), u32::MAX);
    for n in [0u32, 1, 255, 256, 65535, 65536, 16777215, 16777216, 4000000000] {
        assert_eq!(encode_header(n, ByteOrder::LittleEndian), n.to_le_bytes());
        assert_eq!(encode_header(n, ByteOrder::BigEndian), n.to_be_bytes());
        assert_eq!(encode_header(n, native_byte_order()), n.to_ne_bytes());
    }
}

#[test]
fn native_order_is_the_hosts() {
    let expected = if 1u32.to_ne_bytes()[0] == 1 {
        ByteOrder::LittleEndian
    } else {
        ByteOrder::BigEndian
    };
    assert_eq!(native_byte_order(), expected);
    assert_eq!(byte_order_of(&[1, 0, 0, 0]), ByteOrder::LittleEndian);
    assert_eq!(byte_order_of(&[0, 0, 0, 1]), ByteOrder::BigEndian);
}

#[test]
fn frames_round_trip() {
    for order in [ByteOrder::LittleEndian, ByteOrder::BigEndian] {
        for body in [&b""[..], &b"{}"[..], &[7u8; 300][..]] {
            let frame = encode_frame(body, order).unwrap();
            assert_eq!(frame.len(), body.len() + 4);
            assert_eq!(decode_frame(&frame, order), Ok(Some(body.to_vec())));
            let mut longer = frame.clone();
            longer.extend_from_slice(b"rest");
            assert_eq!(decode_frame(&longer, order), Ok(Some(body.to_vec())));
        }
    }
}

#[test]
fn end_of_input_and_truncation() {
    let order = ByteOrder::LittleEndian;
    assert_eq!(decode_frame(&[], order), Ok(None));
    assert_eq!(decode_frame(&[2], order), Err(FrameError::TruncatedHeader));
    assert_eq!(decode_frame(&[2, 0, 0], order), Err(FrameError::TruncatedHeader));
    assert_eq!(decode_frame(&[2, 0, 0, 0], order), Err(FrameError::TruncatedBody));
    assert_eq!(decode_frame(&[2, 0, 0, 0, b'{'], order), Err(FrameError::TruncatedBody));
    assert_eq!(decode_frame(&[2, 0, 0, 0, b'{', b'}'], order), Ok(Some(b"{}".to_vec())));
    assert_eq!(decode_frame(&[0, 0, 0, 0], order), Ok(Some(vec![])));
    assert_eq!(decode_frame(&[0, 0, 0, 2, b'{', b'}'], ByteOrder::BigEndian), Ok(Some(b"{}".to_vec())));
    assert_eq!(decode_frame(&[0, 0, 0, 2, b'{', b'}'], order), Err(FrameError::TruncatedBody));
    assert_eq!(read_message(&[]), Ok(None));
    assert_eq!(read_message(&[1, 2]), Err(FrameError::TruncatedHeader));
}

#[test]
fn announced_lengths() {
    let order = ByteOrder::BigEndian;
    assert_eq!(announced_length(&[], order), Ok(None));
    assert_eq!(announced_length(&[0, 0, 1], order), Err(FrameError::TruncatedHeader));
    assert_eq!(announced_length(&[0, 0, 1, 2], order), Ok(Some(258)));
    assert_eq!(announced_length(&[0, 0, 1, 2, 77], order), Ok(Some(258)));
}

#[test]
fn pipe_message_becomes_an_activity_message() {
    let message = TabUpdateMessage {
        msg_type: "tab_update".to_string(),
        url: "https://a.com/x".to_string(),
        title: "A".to_string(),
        domain: Some("a.com".to_string()),
        timestamp: 17,
    };
    let activity = message.into_activity();
    assert_eq!(activity.url, "https://a.com/x");
    assert_eq!(activity.title, "A");
    assert_eq!(activity.domain, Some("a.com".to_string()));
    assert_eq!(activity.category, None);
}
