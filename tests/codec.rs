use my_chat::codec::{decode_command, decode_event, ClientCodec, CodecError, Decoded, ServerCodec};
use my_chat::message::{ChatMessage, NetworkCommand, NetworkEvent};

fn hello_from_alice() -> NetworkEvent {
    NetworkEvent::ReceivedMessage(ChatMessage {
        contents: "hello".to_string(),
        sender: "alice".to_string(),
    })
}

fn command_frame(text: &str) -> Vec<u8> {
    let mut buf = Vec::new();
    ClientCodec
        .encode(NetworkCommand::SendMessage(text.to_string()), &mut buf)
        .unwrap();
    buf
}

fn event_frame(e: NetworkEvent) -> Vec<u8> {
    let mut buf = Vec::new();
    ServerCodec.encode(e, &mut buf).unwrap();
    buf
}

#[test]
fn command_frame_bytes() {
    assert_eq!(command_frame("hi"), vec![0x04, 0x0A, 0x02, b'h', b'i']);
}

#[test]
fn event_frame_bytes() {
    let mut expected = vec![16, 0x0A, 14, 0x0A, 5];
    expected.extend_from_slice(b"hello");
    expected.extend_from_slice(&[0x12, 5]);
    expected.extend_from_slice(b"alice");
    assert_eq!(event_frame(hello_from_alice()), expected);
}

#[test]
fn empty_texts_still_frame_every_field() {
    let e = NetworkEvent::ReceivedMessage(ChatMessage {
        contents: String::new(),
        sender: String::new(),
    });
    assert_eq!(event_frame(e.clone()), vec![6, 0x0A, 4, 0x0A, 0, 0x12, 0]);
    let mut buf = event_frame(e.clone());
    assert_eq!(ClientCodec.decode(&mut buf), Ok(Some(e)));
    assert!(buf.is_empty());
}

#[test]
fn command_round_trip() {
    for text in ["hi", "", "héllo ✓ 日本語", "a longer message, with punctuation!"] {
        let mut buf = command_frame(text);
        let decoded = ServerCodec.decode(&mut buf);
        assert_eq!(decoded, Ok(Some(NetworkCommand::SendMessage(text.to_string()))));
        assert!(buf.is_empty());
    }
}

#[test]
fn event_round_trip() {
    let mut buf = event_frame(hello_from_alice());
    assert_eq!(ClientCodec.decode(&mut buf), Ok(Some(hello_from_alice())));
    assert!(buf.is_empty());
}

#[test]
fn long_message_takes_a_two_byte_prefix() {
    let text = "x".repeat(200);
    let buf = command_frame(&text);
    // 1 tag byte + 2 length bytes + 200 bytes of text = 203 = 0b1_1001011.
    assert_eq!(&buf[..5], &[0xCB, 0x01, 0x0A, 0xC8, 0x01]);
    assert_eq!(buf.len(), 2 + 203);
    let mut src = buf.clone();
    assert_eq!(ServerCodec.decode(&mut src), Ok(Some(NetworkCommand::SendMessage(text))));
}

#[test]
fn every_split_point_needs_more_data_until_the_last_byte() {
    let frame = event_frame(hello_from_alice());
    let mut buf = Vec::new();
    for (i, byte) in frame.iter().enumerate() {
        buf.push(*byte);
        let decoded = ClientCodec.decode(&mut buf);
        if i + 1 < frame.len() {
            assert_eq!(decoded, Ok(None));
            assert_eq!(buf.len(), i + 1);
        } else {
            assert_eq!(decoded, Ok(Some(hello_from_alice())));
            assert!(buf.is_empty());
        }
    }
}

#[test]
fn chunks_of_any_size_give_the_message_once() {
    let frame = command_frame("chunked");
    for chunk in 1..=frame.len() {
        let mut buf = Vec::new();
        let mut got = Vec::new();
        for piece in frame.chunks(chunk) {
            buf.extend_from_slice(piece);
            if let Some(c) = ServerCodec.decode(&mut buf).unwrap() {
                got.push(c);
            }
        }
        assert_eq!(got, vec![NetworkCommand::SendMessage("chunked".to_string())]);
    }
}

#[test]
fn two_frames_back_to_back() {
    let mut buf = command_frame("one");
    buf.extend(command_frame("two"));
    let second = command_frame("two");
    assert_eq!(ServerCodec.decode(&mut buf), Ok(Some(NetworkCommand::SendMessage("one".to_string()))));
    assert_eq!(buf, second);
    assert_eq!(ServerCodec.decode(&mut buf), Ok(Some(NetworkCommand::SendMessage("two".to_string()))));
    assert_eq!(ServerCodec.decode(&mut buf), Ok(None));
}

#[test]
fn pure_decode_reports_the_bytes_consumed() {
    let mut buf = command_frame("hi");
    buf.extend_from_slice(&[0x01, 0x02]);
    assert_eq!(
        decode_command(&buf),
        Decoded::Frame(NetworkCommand::SendMessage("hi".to_string()), 5)
    );
    assert_eq!(decode_command(&buf[..3]), Decoded::Incomplete);
    assert_eq!(decode_event(&[]), Decoded::Incomplete);
}

#[test]
fn ten_continuation_bytes_are_corrupt() {
    let mut buf = vec![0xFF; 10];
    assert_eq!(ClientCodec.decode(&mut buf), Err(CodecError::InvalidLengthPrefix));
    assert_eq!(buf.len(), 10);
    let mut short = vec![0xFF; 9];
    assert_eq!(ClientCodec.decode(&mut short), Ok(None));
}

#[test]
fn tenth_prefix_byte_above_one_is_corrupt() {
    let mut buf = vec![0x80; 9];
    buf.push(0x02);
    assert_eq!(decode_event(&buf), Decoded::Corrupt(CodecError::InvalidLengthPrefix));
}

#[test]
fn shortened_length_prefix_is_corrupt() {
    let mut buf = command_frame("hi");
    buf[0] = 0x03;
    assert_eq!(ServerCodec.decode(&mut buf), Err(CodecError::MalformedPayload));
}

#[test]
fn lengthened_length_prefix_waits_then_is_corrupt() {
    let mut buf = command_frame("hi");
    buf[0] = 0x05;
    assert_eq!(ServerCodec.decode(&mut buf), Ok(None));
    buf.push(b'!');
    assert_eq!(ServerCodec.decode(&mut buf), Err(CodecError::MalformedPayload));
}

#[test]
fn flipped_inner_length_is_corrupt() {
    let mut buf = command_frame("hi");
    buf[2] = 0x01;
    assert_eq!(ServerCodec.decode(&mut buf), Err(CodecError::MalformedPayload));
}

#[test]
fn padded_inner_length_is_corrupt() {
    // The inner length 2 written in two bytes instead of one.
    let mut buf = vec![0x05, 0x0A, 0x82, 0x00, b'h', b'i'];
    assert_eq!(ServerCodec.decode(&mut buf), Err(CodecError::MalformedPayload));
}

#[test]
fn wrong_tag_is_corrupt() {
    let mut buf = vec![0x04, 0x12, 0x02, b'h', b'i'];
    assert_eq!(ServerCodec.decode(&mut buf), Err(CodecError::MalformedPayload));
}

#[test]
fn empty_payload_is_corrupt() {
    let mut buf = vec![0x00];
    assert_eq!(ServerCodec.decode(&mut buf), Err(CodecError::MalformedPayload));
    let mut buf = vec![0x00];
    assert_eq!(ClientCodec.decode(&mut buf), Err(CodecError::MalformedPayload));
}

#[test]
fn invalid_utf8_is_corrupt() {
    let mut buf = vec![0x04, 0x0A, 0x02, 0xC3, 0x28];
    assert_eq!(ServerCodec.decode(&mut buf), Err(CodecError::MalformedPayload));
}

#[test]
fn command_frame_is_no_event() {
    let mut buf = command_frame("hi");
    assert_eq!(ClientCodec.decode(&mut buf), Err(CodecError::MalformedPayload));
}

#[test]
fn stream_ending_inside_a_frame_is_truncated() {
    let frame = event_frame(hello_from_alice());
    let mut buf = frame[..frame.len() - 1].to_vec();
    assert_eq!(ClientCodec.decode_eof(&mut buf), Err(CodecError::Truncated));
    let mut empty = Vec::new();
    assert_eq!(ClientCodec.decode_eof(&mut empty), Ok(None));
    let mut whole = frame.clone();
    assert_eq!(ClientCodec.decode_eof(&mut whole), Ok(Some(hello_from_alice())));
    let mut partial_command = command_frame("hi");
    partial_command.truncate(1);
    assert_eq!(ServerCodec.decode_eof(&mut partial_command), Err(CodecError::Truncated));
}

#[test]
fn encode_appends_to_what_is_there() {
    let mut buf = vec![0xAA];
    ClientCodec
        .encode(NetworkCommand::SendMessage("hi".to_string()), &mut buf)
        .unwrap();
    assert_eq!(buf, vec![0xAA, 0x04, 0x0A, 0x02, b'h', b'i']);
}

#[test]
fn large_message_takes_a_three_byte_prefix() {
    let text = "é".repeat(10_000);
    let buf = command_frame(&text);
    // 20000 bytes of text behind a 3-byte inner length and a tag: 20004 = 0b1_0011100_0100100.
    assert_eq!(&buf[..3], &[0xA4, 0x9C, 0x01]);
    assert_eq!(&buf[3..7], &[0x0A, 0xA0, 0x9C, 0x01]);
    assert_eq!(buf.len(), 3 + 20_004);
    let mut src = buf.clone();
    assert_eq!(ServerCodec.decode(&mut src), Ok(Some(NetworkCommand::SendMessage(text))));
    assert!(src.is_empty());
}
