use chatr::codec::{decode, encode, is_encodable, DecodeError};
use chatr::connection::{ConnectionReader, ConnectionWriter};
use chatr::frame::{encode_frame, FrameReader};

use chatr::ChatrMessage;

fn s(x: &str) -> String {
    x.to_string()
}

fn all_variants() -> Vec<ChatrMessage> {
    vec![
        ChatrMessage::LoginRequest { username: s("alice") },
        ChatrMessage::LoginRequest { username: s("") },
        ChatrMessage::LoginAccepted,
        ChatrMessage::LoginRejected { reason: s("eve is not allowed") },
        ChatrMessage::SentMessage { content: s("héllo wörld ✓ 🚀") },
        ChatrMessage::SentMessage { content: s("") },
        ChatrMessage::ReceivedMessage { username: s("bob"), content: s("hi") },
        ChatrMessage::ReceivedMessage { username: s(""), content: s("") },
        ChatrMessage::UserConnected { username: s("日本") },
        ChatrMessage::UserDisconnected { username: s("alice") },
        ChatrMessage::Disconnect,
    ]
}

#[test]
fn round_trip_every_variant() {
    for m in all_variants() {
        assert!(is_encodable(&m));
        let bytes = encode(&m);
        assert_eq!(decode(&bytes), Ok(m.clone()));
        assert_eq!(encode(&m), bytes);
    }
}

#[test]
fn record_layout_is_tag_then_borsh_strings() {
    let m = ChatrMessage::LoginRequest { username: s("alice") };
    assert_eq!(encode(&m), vec![0, 5, 0, 0, 0, b'a', b'l', b'i', b'c', b'e']);
    assert_eq!(encode(&ChatrMessage::LoginAccepted), vec![1]);
    assert_eq!(encode(&ChatrMessage::Disconnect), vec![7]);
    let r = ChatrMessage::ReceivedMessage { username: s("al"), content: s("é") };
    assert_eq!(encode(&r), vec![4, 2, 0, 0, 0, b'a', b'l', 2, 0, 0, 0, 0xc3, 0xa9]);
}

#[test]
fn record_matches_borsh_enum_layout() {
    let m = ChatrMessage::ReceivedMessage { username: s("bob"), content: s("ça va") };
    let expected = borsh::to_vec(&(4u8, s("bob"), s("ça va"))).unwrap();
    assert_eq!(encode(&m), expected);
    let m = ChatrMessage::UserDisconnected { username: s("alice") };
    assert_eq!(encode(&m), borsh::to_vec(&(6u8, s("alice"))).unwrap());
}

#[test]
fn decode_rejects_malformed_records() {
    assert_eq!(decode(&[]), Err(DecodeError));
    assert_eq!(decode(&[8]), Err(DecodeError));
    assert_eq!(decode(&[1, 0]), Err(DecodeError));
    assert_eq!(decode(&[0, 5, 0, 0, 0, b'a']), Err(DecodeError));
    assert_eq!(decode(&[0, 1, 0, 0]), Err(DecodeError));
    assert_eq!(decode(&[3, 1, 0, 0, 0, 0xff]), Err(DecodeError));
    assert_eq!(decode(&[3, 1, 0, 0, 0, b'x', b'y']), Err(DecodeError));
    assert_eq!(decode(&[4, 1, 0, 0, 0, b'x']), Err(DecodeError));
    assert_eq!(decode(&[3, 1, 0, 0, 0, b'x']), Ok(ChatrMessage::SentMessage { content: s("x") }));
}

#[test]
fn frame_has_big_endian_length() {
    let m = ChatrMessage::SentMessage { content: s("hi") };
    assert_eq!(encode_frame(&m), vec![0, 0, 0, 7, 3, 2, 0, 0, 0, b'h', b'i']);
}

fn stream_of(msgs: &[ChatrMessage]) -> Vec<u8> {
    let mut out = Vec::new();
    for m in msgs {
        out.extend(encode_frame(m));
    }
    out
}

#[test]
fn one_message_split_across_three_reads() {
    let m = ChatrMessage::ReceivedMessage { username: s("alice"), content: s("hello there") };
    let bytes = encode_frame(&m);
    let mut reader = FrameReader::new();
    assert!(reader.feed(&bytes[..2]).is_empty());
    assert!(reader.feed(&bytes[2..9]).is_empty());
    let frames = reader.feed(&bytes[9..]);
    assert_eq!(frames.len(), 1);
    assert_eq!(decode(&frames[0]), Ok(m));
}

#[test]
fn three_messages_coalesced_in_one_read() {
    let msgs = vec![
        ChatrMessage::SentMessage { content: s("one") },
        ChatrMessage::UserConnected { username: s("bob") },
        ChatrMessage::Disconnect,
    ];
    let mut reader = FrameReader::new();
    let frames = reader.feed(&stream_of(&msgs));
    let decoded: Vec<ChatrMessage> = frames.iter().map(|f| decode(f).unwrap()).collect();
    assert_eq!(decoded, msgs);
}

#[test]
fn any_cut_of_the_stream_gives_the_same_frames() {
    let msgs = all_variants();
    let bytes = stream_of(&msgs);
    for step in [1usize, 2, 3, 5, 7, 64] {
        let mut reader = FrameReader::new();
        let mut got = Vec::new();
        for chunk in bytes.chunks(step) {
            for f in reader.feed(chunk) {
                got.push(decode(&f).unwrap());
            }
        }
        assert_eq!(got, msgs);
    }
}

#[test]
fn reader_forwards_messages_and_keeps_partial_frames() {
    let msgs = vec![
        ChatrMessage::SentMessage { content: s("a") },
        ChatrMessage::SentMessage { content: s("b") },
    ];
    let bytes = stream_of(&msgs);
    let mut reader = ConnectionReader::new();
    let first = reader.on_bytes(&bytes[..12]);
    assert_eq!(first.forward, vec![msgs[0].clone()]);
    assert!(!first.cancel);
    let second = reader.on_bytes(&bytes[12..]);
    assert_eq!(second.forward, vec![msgs[1].clone()]);
    assert!(reader.is_open());
}

#[test]
fn unreadable_record_ends_the_connection() {
    let mut bytes = encode_frame(&ChatrMessage::SentMessage { content: s("ok") });
    bytes.extend([0, 0, 0, 1, 9]);
    bytes.extend(encode_frame(&ChatrMessage::SentMessage { content: s("late") }));
    let mut reader = ConnectionReader::new();
    let step = reader.on_bytes(&bytes);
    assert_eq!(
        step.forward,
        vec![ChatrMessage::SentMessage { content: s("ok") }, ChatrMessage::Disconnect]
    );
    assert!(step.cancel);
    assert!(!reader.is_open());
    let after = reader.on_bytes(&encode_frame(&ChatrMessage::LoginAccepted));
    assert!(after.forward.is_empty());
    assert!(!after.cancel);
}

#[test]
fn end_of_stream_forwards_disconnect_once() {
    let mut reader = ConnectionReader::new();
    let step = reader.on_closed();
    assert_eq!(step.forward, vec![ChatrMessage::Disconnect]);
    assert!(step.cancel);
    let again = reader.on_closed();
    assert!(again.forward.is_empty());
    assert!(!again.cancel);
}

#[test]
fn cancelled_reader_ignores_input() {
    let mut reader = ConnectionReader::new();
    reader.cancel();
    let step = reader.on_bytes(&encode_frame(&ChatrMessage::LoginAccepted));
    assert!(step.forward.is_empty());
    assert!(!reader.is_open());
}

#[test]
fn cancelling_twice_is_a_no_op_and_drops_sends() {
    let mut writer = ConnectionWriter::new();
    let m = ChatrMessage::SentMessage { content: s("hi") };
    assert_eq!(writer.on_outbound(&m), Some(encode_frame(&m)));
    assert!(writer.cancel());
    assert!(!writer.is_open());
    assert!(!writer.cancel());
    assert!(!writer.is_open());
    assert_eq!(writer.on_outbound(&m), None);
    assert_eq!(writer.on_outbound(&ChatrMessage::Disconnect), None);
}

#[test]
fn reader_forwards_the_same_messages_for_any_cut() {
    let msgs = all_variants();
    let bytes = stream_of(&msgs);
    for step in [1usize, 4, 11, 1000] {
        let mut reader = ConnectionReader::new();
        let mut got = Vec::new();
        for chunk in bytes.chunks(step) {
            let out = reader.on_bytes(chunk);
            assert!(!out.cancel);
            got.extend(out.forward);
        }
        assert_eq!(got, msgs);
    }
}

#[test]
fn next_frame_hands_out_one_record_and_resume_continues() {
    let first = ChatrMessage::LoginAccepted;
    let second = ChatrMessage::UserConnected { username: s("alice") };
    let third = ChatrMessage::SentMessage { content: s("x") };
    let mut bytes = stream_of(&[first.clone(), second.clone()]);
    let tail = encode_frame(&third);
    bytes.extend(&tail[..3]);
    let mut frames = FrameReader::new();
    assert_eq!(frames.next_frame(), None);
    frames.push(&bytes[..2]);
    assert_eq!(frames.next_frame(), None);
    frames.push(&bytes[2..]);
    let record = frames.next_frame().unwrap();
    assert_eq!(decode(&record), Ok(first));
    let mut reader = ConnectionReader::resume(frames);
    assert_eq!(reader.on_bytes(&[]).forward, vec![second]);
    assert_eq!(reader.on_bytes(&tail[3..]).forward, vec![third]);
}
