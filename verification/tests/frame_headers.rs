//! Tests of the frame envelope: header interpretation, the payload split,
//! and the encoder round trip.

use bluesky_firehose_stream::frame::{encode_header, Error, Frame, FrameHeader, MessageFrame};

fn serialized_data(s: &str) -> Vec<u8> {
    assert!(s.len() % 2 == 0);
    let b2u = |b: u8| match b {
        b'0'..=b'9' => b - b'0',
        b'a'..=b'f' => b - b'a' + 10,
        _ => unreachable!(),
    };
    s.as_bytes()
        .chunks(2)
        .map(|b| (b2u(b[0]) << 4) + b2u(b[1]))
        .collect()
}

#[test]
fn frame_deserialize_message_frame_header() {
    // {"op": 1, "t": "#commit"}
    let data = serialized_data("a2626f700161746723636f6d6d6974");
    let result = FrameHeader::try_from(&data);
    assert_eq!(
        result.expect("failed to deserialize"),
        FrameHeader::Message(Some(String::from("#commit")))
    );
}

#[test]
fn frame_deserialize_error_frame_header() {
    // {"op": -1}
    let data = serialized_data("a1626f7020");
    let result = FrameHeader::try_from(&data);
    assert_eq!(result.expect("failed to deserialize"), FrameHeader::Error);
}

#[test]
fn frame_deserialize_invalid_frame_header() {
    {
        // {"op": 2, "t": "#commit"}
        let data = serialized_data("a2626f700261746723636f6d6d6974");
        let result = FrameHeader::try_from(&data);
        assert!(result.is_err());
    }
    {
        // {"op": -2}
        let data = serialized_data("a1626f7021");
        let result = FrameHeader::try_from(&data);
        assert!(result.is_err());
    }
}

#[test]
fn types_deserialize_message_frame_header() {
    // {"op": 1, "t": "#commit"}
    let data = serialized_data("a2626f700161746723636f6d6d6974");
    let result = FrameHeader::try_from(&data);
    assert_eq!(
        result.expect("failed to deserialize"),
        FrameHeader::Message(Some(String::from("#commit")))
    );
}

#[test]
fn types_deserialize_error_frame_header() {
    // {"op": -1}
    let data = serialized_data("a1626f7020");
    let result = FrameHeader::try_from(&data);
    assert_eq!(result.expect("failed to deserialize"), FrameHeader::Error);
}

#[test]
fn types_deserialize_invalid_frame_header() {
    {
        // {"op": 2, "t": "#commit"}
        let data = serialized_data("a2626f700261746723636f6d6d6974");
        let result = FrameHeader::try_from(&data);
        assert!(result.is_err());
    }
    {
        // {"op": -2}
        let data = serialized_data("a1626f7021");
        let result = FrameHeader::try_from(&data);
        assert!(result.is_err());
    }
}

#[test]
fn message_frame_with_body_splits_header_and_body() {
    // {"op": 1, "t": "#commit"} followed by three body bytes
    let mut data = serialized_data("a2626f700161746723636f6d6d6974");
    data.extend_from_slice(&[0xde, 0xad, 0xbe]);
    let frame = Frame::try_from(data.as_slice()).expect("failed to decode");
    assert_eq!(
        frame,
        Frame::Message(
            Some(String::from("#commit")),
            MessageFrame { body: vec![0xde, 0xad, 0xbe] }
        )
    );
}

#[test]
fn error_frame_with_body_decodes_as_error() {
    let mut data = serialized_data("a1626f7020");
    data.push(0x00);
    let frame = Frame::try_from(data.as_slice()).expect("failed to decode");
    assert!(matches!(frame, Frame::Error(_)));
}

#[test]
fn invalid_op_value_is_invalid_frame_type() {
    // {"op": 2, "t": "#commit"} with a body byte
    let mut data = serialized_data("a2626f700261746723636f6d6d6974");
    data.push(0x00);
    let result = Frame::try_from(data.as_slice());
    assert!(matches!(result, Err(Error::InvalidFrameType(_))));
}

#[test]
fn missing_op_key_is_invalid_frame_type() {
    // {"x": 1} with a body byte
    let mut data = serialized_data("a1617801");
    data.push(0x00);
    let result = Frame::try_from(data.as_slice());
    assert!(matches!(result, Err(Error::InvalidFrameType(_))));
}

#[test]
fn non_map_header_is_invalid_frame_data() {
    // the array [1] followed by a body byte
    let mut data = serialized_data("8101");
    data.push(0x00);
    let result = Frame::try_from(data.as_slice());
    assert!(matches!(result, Err(Error::InvalidFrameData(_))));
}

#[test]
fn payload_without_body_is_invalid_frame_data() {
    // exactly one header item and nothing after it
    let data = serialized_data("a2626f700161746723636f6d6d6974");
    let result = Frame::try_from(data.as_slice());
    assert!(matches!(result, Err(Error::InvalidFrameData(_))));
}

#[test]
fn truncated_header_is_invalid_frame_data() {
    // a map of two entries that ends after the first key
    let data = serialized_data("a2626f70");
    let result = Frame::try_from(data.as_slice());
    assert!(matches!(result, Err(Error::InvalidFrameData(_))));
}

#[test]
fn empty_payload_is_invalid_frame_data() {
    let data: Vec<u8> = Vec::new();
    let result = Frame::try_from(data.as_slice());
    assert!(matches!(result, Err(Error::InvalidFrameData(_))));
}

#[test]
fn non_string_type_field_yields_no_type() {
    // {"op": 1, "t": 7} with a body byte
    let mut data = serialized_data("a2626f7001617407");
    data.push(0x00);
    let frame = Frame::try_from(data.as_slice()).expect("failed to decode");
    assert_eq!(frame, Frame::Message(None, MessageFrame { body: vec![0x00] }));
}

#[test]
fn extra_header_keys_are_ignored() {
    // {"op": 1, "t": "#commit", "x": [1, 2]} with a body byte
    let data = serialized_data("a3626f700161746723636f6d6d697461788201020a");
    let frame = Frame::try_from(data.as_slice()).expect("failed to decode");
    assert_eq!(
        frame,
        Frame::Message(Some(String::from("#commit")), MessageFrame { body: vec![0x0a] })
    );
}

#[test]
fn duplicate_op_keys_use_the_first() {
    // {"op": 1, "op": -1} with a body byte. Duplicate keys are outside
    // DAG-CBOR; the envelope pins the deterministic choice that the first
    // binding decides.
    let data = serialized_data("a2626f7001626f702000");
    let frame = Frame::try_from(data.as_slice()).expect("failed to decode");
    assert_eq!(frame, Frame::Message(None, MessageFrame { body: vec![0x00] }));
}

#[test]
fn nested_header_values_are_skipped_structurally() {
    // {"op": 1, "z": {"a": [1, -5], "b": h'00ff'}} with a body byte
    let data = serialized_data("a2626f7001617aa2616182012461624200ff01");
    let frame = Frame::try_from(data.as_slice()).expect("failed to decode");
    assert_eq!(frame, Frame::Message(None, MessageFrame { body: vec![0x01] }));
}

#[test]
fn encode_message_header_is_canonical() {
    let header = FrameHeader::Message(Some(String::from("#commit")));
    let bytes = encode_header(&header);
    assert_eq!(bytes, serialized_data("a2626f700161746723636f6d6d6974"));
}

#[test]
fn encode_error_header_is_canonical() {
    let bytes = encode_header(&FrameHeader::Error);
    assert_eq!(bytes, serialized_data("a1626f7020"));
}

#[test]
fn header_encode_then_decode_is_identity() {
    let headers = vec![
        FrameHeader::Message(Some(String::from("#commit"))),
        FrameHeader::Message(Some(String::from("#identity"))),
        FrameHeader::Message(Some(String::from(""))),
        FrameHeader::Message(None),
        FrameHeader::Error,
    ];
    for header in headers {
        let bytes = encode_header(&header);
        let decoded = FrameHeader::try_from(&bytes).expect("failed to decode");
        assert_eq!(decoded, header);
    }
}

#[test]
fn long_type_string_round_trips() {
    // a type name longer than 23 bytes exercises the longer length heads
    let name: String = std::iter::repeat('x').take(300).collect();
    let header = FrameHeader::Message(Some(name.clone()));
    let bytes = encode_header(&header);
    let decoded = FrameHeader::try_from(&bytes).expect("failed to decode");
    assert_eq!(decoded, FrameHeader::Message(Some(name)));
}
