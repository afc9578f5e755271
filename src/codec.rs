//! The binary record of one message: a one-byte variant tag followed by its
//! string fields, each in borsh's layout (its UTF-8 length as four
//! little-endian bytes, then the UTF-8 bytes).
use vstd::prelude::*;
use vstd::slice::slice_subrange;
use vstd::utf8::{decode_utf8, decode_utf8_encode_utf8, encode_utf8, valid_utf8};

use crate::message::{ChatrMessage, MessageView};

verus! {

broadcast use vstd::utf8::encode_utf8_valid_utf8, vstd::utf8::encode_utf8_decode_utf8;

/// The four little-endian bytes of `n`.
pub open spec fn le32_bytes(n: u32) -> Seq<u8> {
    seq![(n & 0xff) as u8, ((n >> 8) & 0xff) as u8, ((n >> 16) & 0xff) as u8, ((n >> 24) & 0xff) as u8]
}

/// The integer held by four little-endian bytes.
pub open spec fn le32_value(b0: u8, b1: u8, b2: u8, b3: u8) -> u32 {
    (b0 as u32) | ((b1 as u32) << 8u32) | ((b2 as u32) << 16u32) | ((b3 as u32) << 24u32)
}

/// The bytes that borsh writes for a string: its UTF-8 length, then its UTF-8 bytes.
pub open spec fn string_record(s: Seq<char>) -> Seq<u8> {
    le32_bytes(encode_utf8(s).len() as u32) + encode_utf8(s)
}

/// What borsh reads as a string from the front of `b`: the string and the bytes after it,
/// or `None` where the length is cut short or the bytes are not UTF-8.
pub open spec fn read_string(b: Seq<u8>) -> Option<(Seq<char>, Seq<u8>)> {
    if b.len() < 4 {
        None
    } else {
        let n = le32_value(b[0], b[1], b[2], b[3]) as int;
        if b.len() < 4 + n {
            None
        } else if !valid_utf8(b.subrange(4, 4 + n)) {
            None
        } else {
            Some((decode_utf8(b.subrange(4, 4 + n)), b.subrange(4 + n, b.len() as int)))
        }
    }
}

/// The tag byte of each variant, in declaration order.
pub open spec fn tag_of(m: MessageView) -> u8 {
    match m {
        MessageView::LoginRequest { .. } => 0,
        MessageView::LoginAccepted => 1,
        MessageView::LoginRejected { .. } => 2,
        MessageView::SentMessage { .. } => 3,
        MessageView::ReceivedMessage { .. } => 4,
        MessageView::UserConnected { .. } => 5,
        MessageView::UserDisconnected { .. } => 6,
        MessageView::Disconnect => 7,
    }
}

/// The record of a message.
pub open spec fn wire(m: MessageView) -> Seq<u8> {
    seq![tag_of(m)] + match m {
        MessageView::LoginRequest { username } => string_record(username),
        MessageView::LoginAccepted => Seq::empty(),
        MessageView::LoginRejected { reason } => string_record(reason),
        MessageView::SentMessage { content } => string_record(content),
        MessageView::ReceivedMessage { username, content } => string_record(username)
            + string_record(content),
        MessageView::UserConnected { username } => string_record(username),
        MessageView::UserDisconnected { username } => string_record(username),
        MessageView::Disconnect => Seq::empty(),
    }
}

/// A message can be written when its record's length fits in four bytes, which
/// also bounds each string field.
pub open spec fn encodable(m: MessageView) -> bool {
    wire(m).len() <= u32::MAX
}

/// The message of a variant with one string field, by tag.
pub open spec fn with_one_field(tag: u8, s: Seq<char>) -> MessageView {
    if tag == 0 {
        MessageView::LoginRequest { username: s }
    } else if tag == 2 {
        MessageView::LoginRejected { reason: s }
    } else if tag == 3 {
        MessageView::SentMessage { content: s }
    } else if tag == 5 {
        MessageView::UserConnected { username: s }
    } else {
        MessageView::UserDisconnected { username: s }
    }
}

/// The message that a record holds: a known tag, the fields of its variant, and
/// nothing after them.
pub open spec fn parse(b: Seq<u8>) -> Option<MessageView> {
    if b.len() == 0 {
        None
    } else {
        let tag = b[0];
        let body = b.drop_first();
        if tag == 1 || tag == 7 {
            if body.len() == 0 {
                Some(
                    if tag == 1 {
                        MessageView::LoginAccepted
                    } else {
                        MessageView::Disconnect
                    },
                )
            } else {
                None
            }
        } else if tag == 0 || tag == 2 || tag == 3 || tag == 5 || tag == 6 {
            match read_string(body) {
                Some((s, rest)) => if rest.len() == 0 {
                    Some(with_one_field(tag, s))
                } else {
                    None
                },
                None => None,
            }
        } else if tag == 4 {
            match read_string(body) {
                Some((u, rest)) => match read_string(rest) {
                    Some((c, rest2)) => if rest2.len() == 0 {
                        Some(MessageView::ReceivedMessage { username: u, content: c })
                    } else {
                        None
                    },
                    None => None,
                },
                None => None,
            }
        } else {
            None
        }
    }
}

/// A record that does not hold a message.
#[derive(Debug, Clone, Copy, PartialEq, Eq)]
pub struct DecodeError;

/// Relies on borsh's `to_vec` for `String`: the UTF-8 length as four
/// little-endian bytes, then the UTF-8 bytes. It fails only when the length
/// does not fit in four bytes, which `requires` rules out.
#[verifier::external_body]
fn borsh_string(s: &String) -> (r: Vec<u8>)
    requires
        encode_utf8(s@).len() <= u32::MAX,
    ensures
        r@ == string_record(s@),
{
    borsh::to_vec(s).unwrap()
}

/// Relies on borsh's `BorshDeserialize::deserialize` for `String` on a slice:
/// it reads the four-byte length, that many bytes, and checks them as UTF-8;
/// on success the slice is left at the bytes after the string, of which the
/// count is returned.
#[verifier::external_body]
fn borsh_read_string(b: &[u8]) -> (r: Option<(String, usize)>)
    ensures
        r matches Some((s, left)) ==> left <= b@.len() && read_string(b@) == Some(
            (s@, b@.subrange(b@.len() - left, b@.len() as int)),
        ),
        r is None ==> read_string(b@) is None,
{
    let mut rest = b;
    match <String as borsh::BorshDeserialize>::deserialize(&mut rest) {
        Ok(s) => Some((s, rest.len())),
        Err(_) => None,
    }
}

proof fn lemma_le32_round_trip(n: u32)
    ensures
        le32_value(le32_bytes(n)[0], le32_bytes(n)[1], le32_bytes(n)[2], le32_bytes(n)[3]) == n,
{
    let b0 = (n & 0xff) as u8;
    let b1 = ((n >> 8) & 0xff) as u8;
    let b2 = ((n >> 16) & 0xff) as u8;
    let b3 = ((n >> 24) & 0xff) as u8;
    assert((b0 as u32) | ((b1 as u32) << 8u32) | ((b2 as u32) << 16u32) | ((b3 as u32) << 24u32)
        == n) by (bit_vector)
        requires
            b0 == (n & 0xff) as u8,
            b1 == ((n >> 8) & 0xff) as u8,
            b2 == ((n >> 16) & 0xff) as u8,
            b3 == ((n >> 24) & 0xff) as u8,
    ;
}

proof fn lemma_le32_bytes_of_value(b0: u8, b1: u8, b2: u8, b3: u8)
    ensures
        le32_bytes(le32_value(b0, b1, b2, b3)) == seq![b0, b1, b2, b3],
{
    let v = le32_value(b0, b1, b2, b3);
    assert(((v & 0xff) as u8) == b0 && (((v >> 8) & 0xff) as u8) == b1 && (((v >> 16) & 0xff) as u8)
        == b2 && (((v >> 24) & 0xff) as u8) == b3) by (bit_vector)
        requires
            v == (b0 as u32) | ((b1 as u32) << 8u32) | ((b2 as u32) << 16u32) | ((b3 as u32)
                << 24u32),
    ;
    assert(le32_bytes(v) =~= seq![b0, b1, b2, b3]);
}

/// A string that borsh reads from the front of `b` stands there as its
/// record, followed by the bytes left over.
pub proof fn lemma_read_string_inverse(b: Seq<u8>)
    requires
        read_string(b) is Some,
    ensures
        (read_string(b) matches Some((s, rest)) && b == string_record(s) + rest && encode_utf8(
            s,
        ).len() <= u32::MAX),
{
    let n = le32_value(b[0], b[1], b[2], b[3]);
    let body = b.subrange(4, 4 + n as int);
    decode_utf8_encode_utf8(body);
    lemma_le32_bytes_of_value(b[0], b[1], b[2], b[3]);
    assert(b.subrange(0, 4) =~= seq![b[0], b[1], b[2], b[3]]);
    assert(b =~= b.subrange(0, 4) + body + b.subrange(4 + n as int, b.len() as int));
}

/// A record that decodes is exactly the record of the message it decodes to.
pub proof fn lemma_parse_is_wire(b: Seq<u8>)
    requires
        parse(b) is Some,
    ensures
        wire(parse(b)->0) == b,
{
    let tag = b[0];
    let body = b.drop_first();
    assert(b =~= seq![tag] + body);
    if tag == 1 || tag == 7 {
        assert(body =~= Seq::<u8>::empty());
        assert(wire(parse(b)->0) =~= seq![tag]);
    } else if tag == 0 || tag == 2 || tag == 3 || tag == 5 || tag == 6 {
        lemma_read_string_inverse(body);
        let (str1, rest) = read_string(body)->0;
        assert(body =~= string_record(str1));
        assert(wire(parse(b)->0) =~= seq![tag] + string_record(str1));
    } else {
        lemma_read_string_inverse(body);
        let (u, rest) = read_string(body)->0;
        lemma_read_string_inverse(rest);
        let (c, rest2) = read_string(rest)->0;
        assert(rest =~= string_record(c));
        assert(wire(parse(b)->0) =~= seq![tag] + (string_record(u) + string_record(c)));
    }
}

/// Reading a string from its record followed by any bytes gives back the
/// string and those bytes.
pub proof fn lemma_read_string_record(s: Seq<char>, tail: Seq<u8>)
    requires
        encode_utf8(s).len() <= u32::MAX,
    ensures
        read_string(string_record(s) + tail) == Some((s, tail)),
{
    let e = encode_utf8(s);
    let b = string_record(s) + tail;
    lemma_le32_round_trip(e.len() as u32);
    assert(b.subrange(4, 4 + e.len() as int) =~= e);
    assert(b.subrange(4 + e.len() as int, b.len() as int) =~= tail);
}

/// Decoding the record of a writable message gives back that message.
pub proof fn lemma_parse_wire(m: MessageView)
    requires
        encodable(m),
    ensures
        parse(wire(m)) == Some(m),
{
    let b = wire(m);
    let empty = Seq::<u8>::empty();
    assert(b[0] == tag_of(m));
    match m {
        MessageView::LoginRequest { username: s } | MessageView::LoginRejected { reason: s }
        | MessageView::SentMessage { content: s } | MessageView::UserConnected { username: s }
        | MessageView::UserDisconnected { username: s } => {
            assert(b.drop_first() =~= string_record(s) + empty);
            lemma_read_string_record(s, empty);
        },
        MessageView::ReceivedMessage { username, content } => {
            assert(b.drop_first() =~= string_record(username) + string_record(content));
            lemma_read_string_record(username, string_record(content));
            assert(string_record(content) =~= string_record(content) + empty);
            lemma_read_string_record(content, empty);
        },
        MessageView::LoginAccepted | MessageView::Disconnect => {
            assert(b.drop_first() =~= empty);
        },
    }
}

fn push_string(out: &mut Vec<u8>, s: &String)
    requires
        encode_utf8(s@).len() <= u32::MAX,
    ensures
        final(out)@ == old(out)@ + string_record(s@),
{
    let mut bytes = borsh_string(s);
    out.append(&mut bytes);
}

/// Writes the record of a message.
pub fn encode(m: &ChatrMessage) -> (r: Vec<u8>)
    requires
        encodable(m@),
    ensures
        r@ == wire(m@),
{
    let mut out: Vec<u8> = Vec::new();
    match m {
        ChatrMessage::LoginRequest { username } => {
            out.push(0u8);
            push_string(&mut out, username);
        },
        ChatrMessage::LoginAccepted => {
            out.push(1u8);
        },
        ChatrMessage::LoginRejected { reason } => {
            out.push(2u8);
            push_string(&mut out, reason);
        },
        ChatrMessage::SentMessage { content } => {
            out.push(3u8);
            push_string(&mut out, content);
        },
        ChatrMessage::ReceivedMessage { username, content } => {
            out.push(4u8);
            push_string(&mut out, username);
            push_string(&mut out, content);
        },
        ChatrMessage::UserConnected { username } => {
            out.push(5u8);
            push_string(&mut out, username);
        },
        ChatrMessage::UserDisconnected { username } => {
            out.push(6u8);
            push_string(&mut out, username);
        },
        ChatrMessage::Disconnect => {
            out.push(7u8);
        },
    }
    assert(out@ =~= wire(m@));
    out
}

/// Whether a message can be written: `encode` asks for it.
pub fn is_encodable(m: &ChatrMessage) -> (r: bool)
    ensures
        r == encodable(m@),
{
    let limit: u64 = 0xffff_ffff;
    match m {
        ChatrMessage::LoginRequest { username: s } | ChatrMessage::LoginRejected { reason: s }
        | ChatrMessage::SentMessage { content: s } | ChatrMessage::UserConnected { username: s }
        | ChatrMessage::UserDisconnected { username: s } => {
            let n = s.as_str().as_bytes().len() as u64;
            assert(wire(m@).len() == 5 + encode_utf8(s@).len());
            n <= limit - 5
        },
        ChatrMessage::ReceivedMessage { username, content } => {
            let a = username.as_str().as_bytes().len() as u64;
            let c = content.as_str().as_bytes().len() as u64;
            assert(wire(m@).len() == 9 + encode_utf8(username@).len() + encode_utf8(content@).len());
            a <= limit - 9 && c <= limit - 9 - a
        },
        ChatrMessage::LoginAccepted | ChatrMessage::Disconnect => true,
    }
}

fn with_one_field_exec(tag: u8, s: String) -> (r: ChatrMessage)
    ensures
        r@ == with_one_field(tag, s@),
{
    if tag == 0 {
        ChatrMessage::LoginRequest { username: s }
    } else if tag == 2 {
        ChatrMessage::LoginRejected { reason: s }
    } else if tag == 3 {
        ChatrMessage::SentMessage { content: s }
    } else if tag == 5 {
        ChatrMessage::UserConnected { username: s }
    } else {
        ChatrMessage::UserDisconnected { username: s }
    }
}

/// Reads the message that a record holds; every other record is an error.
pub fn decode(b: &[u8]) -> (r: Result<ChatrMessage, DecodeError>)
    ensures
        r matches Ok(m) ==> parse(b@) == Some(m@),
        r is Err ==> parse(b@) is None,
{
    if b.len() == 0 {
        return Err(DecodeError);
    }
    let tag = b[0];
    let body = slice_subrange(b, 1, b.len());
    assert(body@ =~= b@.drop_first());
    if tag == 1 || tag == 7 {
        if body.len() == 0 {
            if tag == 1 {
                Ok(ChatrMessage::LoginAccepted)
            } else {
                Ok(ChatrMessage::Disconnect)
            }
        } else {
            Err(DecodeError)
        }
    } else if tag == 0 || tag == 2 || tag == 3 || tag == 5 || tag == 6 {
        match borsh_read_string(body) {
            Some((s, left)) => {
                if left == 0 {
                    Ok(with_one_field_exec(tag, s))
                } else {
                    Err(DecodeError)
                }
            },
            None => Err(DecodeError),
        }
    } else if tag == 4 {
        match borsh_read_string(body) {
            Some((username, left)) => {
                let rest = slice_subrange(body, body.len() - left, body.len());
                match borsh_read_string(rest) {
                    Some((content, left2)) => {
                        if left2 == 0 {
                            Ok(ChatrMessage::ReceivedMessage { username, content })
                        } else {
                            Err(DecodeError)
                        }
                    },
                    None => Err(DecodeError),
                }
            },
            None => Err(DecodeError),
        }
    } else {
        Err(DecodeError)
    }
}

} // verus!
