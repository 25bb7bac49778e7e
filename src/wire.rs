//! The payload of a frame: a sequence of fields, each a tag byte, the length of its body as a
//! base-128 prefix, and the body. Text travels as UTF-8. Every field is always written, in a
//! fixed order, with the shortest length prefix, so each message has exactly one payload.
use vstd::prelude::*;
use vstd::utf8::{decode_utf8, encode_utf8, valid_utf8};
use vstd::utf8::{decode_utf8_encode_utf8, encode_utf8_decode_utf8, encode_utf8_valid_utf8};

use crate::delimiter::{
    MAX_DELIMITER_LEN,
    length_delimiter,
    length_delimiter_len,
    lemma_length_delimiter_round_trip,
    lemma_leb128_canonical,
    lemma_leb128_varint_bytes,
    lemma_leb128_width,
    read_length_delimiter,
    varint_bytes,
    write_length_delimiter,
};
use crate::message::{ChatMessage, ChatMessageView, CommandView, EventView, NetworkCommand, NetworkEvent};

verus! {

broadcast use {encode_utf8_valid_utf8, encode_utf8_decode_utf8};

/// Tag of the first field of a message (field number 1, length-delimited).
pub const TAG_FIRST: u8 = 0x0A;

/// Tag of the second field of a message (field number 2, length-delimited).
pub const TAG_SECOND: u8 = 0x12;

/// One field: its tag, the length of its body, and the body.
pub open spec fn field(tag: u8, body: Seq<u8>) -> Seq<u8> {
    seq![tag] + varint_bytes(body.len()) + body
}

/// The payload of a chat message: its contents, then its sender.
pub open spec fn message_payload(m: ChatMessageView) -> Seq<u8> {
    field(TAG_FIRST, encode_utf8(m.contents)) + field(TAG_SECOND, encode_utf8(m.sender))
}

/// The payload of a command.
pub open spec fn command_payload(c: CommandView) -> Seq<u8> {
    match c {
        CommandView::SendMessage(text) => field(TAG_FIRST, encode_utf8(text)),
    }
}

/// The payload of an event.
pub open spec fn event_payload(e: EventView) -> Seq<u8> {
    match e {
        EventView::ReceivedMessage(m) => field(TAG_FIRST, message_payload(m)),
    }
}

/// A field followed by anything can be split in one way only.
pub proof fn lemma_field_unique(tag: u8, b1: Seq<u8>, r1: Seq<u8>, b2: Seq<u8>, r2: Seq<u8>)
    requires
        field(tag, b1) + r1 == field(tag, b2) + r2,
    ensures
        b1 == b2,
        r1 == r2,
{
    let x = field(tag, b1) + r1;
    let limit = varint_bytes(b1.len()).len() + varint_bytes(b2.len()).len();
    assert(x.drop_first() == varint_bytes(b1.len()) + (b1 + r1));
    assert(x.drop_first() == varint_bytes(b2.len()) + (b2 + r2));
    lemma_leb128_varint_bytes(b1.len(), b1 + r1, limit);
    lemma_leb128_varint_bytes(b2.len(), b2 + r2, limit);
    let w = varint_bytes(b1.len()).len() as int;
    assert(b1 == x.subrange(1 + w, 1 + w + b1.len() as int));
    assert(b2 == x.subrange(1 + w, 1 + w + b2.len() as int));
    assert(r1 == x.subrange(1 + w + b1.len() as int, x.len() as int));
    assert(r2 == x.subrange(1 + w + b2.len() as int, x.len() as int));
}

/// Relies on std::str::from_utf8: it accepts exactly the byte strings that are valid UTF-8,
/// and then yields the characters that they encode.
#[verifier::external_body]
fn utf8_str(b: &[u8]) -> (r: Option<&str>)
    ensures
        r is Some <==> valid_utf8(b@),
        r matches Some(s) ==> s@ == decode_utf8(b@),
{
    std::str::from_utf8(b).ok()
}

/// Appends one field to `out`.
fn push_field(out: &mut Vec<u8>, tag: u8, body: &[u8])
    ensures
        final(out)@ == old(out)@ + field(tag, body@),
{
    proof {
        lemma_length_delimiter_round_trip(body@.len() as usize, Seq::empty());
    }
    let mut f: Vec<u8> = Vec::new();
    f.push(tag);
    let written = write_length_delimiter(body.len(), &mut f);
    assert(written);
    f.extend_from_slice(body);
    assert(f@ == field(tag, body@));
    out.append(&mut f);
}

/// The payload of a chat message.
pub fn encode_message_payload(m: &ChatMessage) -> (r: Vec<u8>)
    ensures
        r@ == message_payload(m@),
{
    let mut out: Vec<u8> = Vec::new();
    push_field(&mut out, TAG_FIRST, m.contents.as_str().as_bytes());
    push_field(&mut out, TAG_SECOND, m.sender.as_str().as_bytes());
    assert(out@ == message_payload(m@));
    out
}

/// The payload of a command.
pub fn encode_command_payload(c: &NetworkCommand) -> (r: Vec<u8>)
    ensures
        r@ == command_payload(c@),
{
    let mut out: Vec<u8> = Vec::new();
    match c {
        NetworkCommand::SendMessage(text) => {
            push_field(&mut out, TAG_FIRST, text.as_str().as_bytes());
        },
    }
    assert(out@ == command_payload(c@));
    out
}

/// The payload of an event.
pub fn encode_event_payload(e: &NetworkEvent) -> (r: Vec<u8>)
    ensures
        r@ == event_payload(e@),
{
    let mut out: Vec<u8> = Vec::new();
    match e {
        NetworkEvent::ReceivedMessage(m) => {
            let inner = encode_message_payload(m);
            push_field(&mut out, TAG_FIRST, inner.as_slice());
        },
    }
    assert(out@ == event_payload(e@));
    out
}

/// Finds the field with tag `tag` that starts at `start`: where its body starts and ends.
fn read_field(p: &[u8], start: usize, tag: u8) -> (r: Option<(usize, usize)>)
    requires
        start <= p@.len(),
    ensures
        r matches Some((s, e)) ==> start < s <= e <= p@.len() && p@.subrange(start as int, e as int)
            == field(tag, p@.subrange(s as int, e as int)),
        r is None ==> forall|body: Seq<u8>| !(#[trigger] field(tag, body)).is_prefix_of(
            p@.subrange(start as int, p@.len() as int),
        ),
{
    let ghost q = p@.subrange(start as int, p@.len() as int);
    if start >= p.len() || p[start] != tag {
        assert forall|body: Seq<u8>| !(#[trigger] field(tag, body)).is_prefix_of(q) by {
            if field(tag, body).is_prefix_of(q) {
                assert(q[0] == field(tag, body)[0]);
            }
        }
        return None;
    }
    let after = &p[start + 1..p.len()];
    assert(after@ == q.drop_first());
    let read = read_length_delimiter(after);
    proof {
        assert forall|body: Seq<u8>| #[trigger]
            field(tag, body).is_prefix_of(q) implies body.len() <= usize::MAX && length_delimiter(
            after@,
        ) == Some((body.len(), varint_bytes(body.len()).len())) && 1 + varint_bytes(
            body.len(),
        ).len() + body.len() <= q.len() by {
            let rest = q.subrange(field(tag, body).len() as int, q.len() as int);
            assert(q == field(tag, body) + rest);
            assert(after@ == varint_bytes(body.len()) + (body + rest));
            lemma_length_delimiter_round_trip(body.len() as usize, body + rest);
        }
    }
    match read {
        None => {
            return None;
        },
        Some((n, rest_len)) => {
            let width = after.len() - rest_len;
            if width != length_delimiter_len(n) {
                return None;
            }
            let s = start + 1 + width;
            if n > p.len() - s {
                return None;
            }
            let e = s + n;
            proof {
                lemma_leb128_width(after@, MAX_DELIMITER_LEN as nat);
                lemma_leb128_canonical(after@, MAX_DELIMITER_LEN as nat);
                assert(p@.subrange(start as int, e as int) == field(
                    tag,
                    p@.subrange(s as int, e as int),
                ));
            }
            Some((s, e))
        },
    }
}

/// The chat message whose payload is `q`, if there is one.
pub fn decode_message_payload(q: &[u8]) -> (r: Option<ChatMessage>)
    ensures
        match r {
            Some(m) => message_payload(m@) == q@,
            None => forall|m: ChatMessageView| message_payload(m) != q@,
        },
{
    let first = read_field(q, 0, TAG_FIRST);
    let (s1, e1) = match first {
        Some(f) => f,
        None => {
            assert forall|m: ChatMessageView| message_payload(m) != q@ by {
                if message_payload(m) == q@ {
                    assert(q@.subrange(0, q@.len() as int) == q@);
                    assert(field(TAG_FIRST, encode_utf8(m.contents)).is_prefix_of(q@));
                }
            }
            return None;
        },
    };
    let ghost head = q@.subrange(0, e1 as int);
    let ghost tail = q@.subrange(e1 as int, q@.len() as int);
    let ghost body1 = q@.subrange(s1 as int, e1 as int);
    assert(q@ == field(TAG_FIRST, body1) + tail);
    // Any message whose payload is `q` has `body1` as the bytes of its contents.
    assert forall|m: ChatMessageView| message_payload(m) == q@ implies encode_utf8(m.contents)
        == body1 && field(TAG_SECOND, encode_utf8(m.sender)) == tail by {
        lemma_field_unique(
            TAG_FIRST,
            encode_utf8(m.contents),
            field(TAG_SECOND, encode_utf8(m.sender)),
            body1,
            tail,
        );
    }
    let second = read_field(q, e1, TAG_SECOND);
    let (s2, e2) = match second {
        Some(f) => f,
        None => {
            assert forall|m: ChatMessageView| message_payload(m) != q@ by {
                if message_payload(m) == q@ {
                    assert(field(TAG_SECOND, encode_utf8(m.sender)).is_prefix_of(tail));
                }
            }
            return None;
        },
    };
    let ghost body2 = q@.subrange(s2 as int, e2 as int);
    let ghost after = q@.subrange(e2 as int, q@.len() as int);
    assert(tail == field(TAG_SECOND, body2) + after);
    assert forall|m: ChatMessageView| message_payload(m) == q@ implies encode_utf8(m.sender)
        == body2 && after.len() == 0 by {
        lemma_field_unique(TAG_SECOND, encode_utf8(m.sender), Seq::empty(), body2, after);
    }
    if e2 != q.len() {
        return None;
    }
    let contents = utf8_str(&q[s1..e1]);
    let sender = utf8_str(&q[s2..e2]);
    match (contents, sender) {
        (Some(c), Some(s)) => {
            let m = ChatMessage { contents: c.to_owned(), sender: s.to_owned() };
            proof {
                decode_utf8_encode_utf8(body1);
                decode_utf8_encode_utf8(body2);
                assert(message_payload(m@) == field(TAG_FIRST, body1) + field(TAG_SECOND, body2));
                assert(after == Seq::<u8>::empty());
                assert(q@ == field(TAG_FIRST, body1) + field(TAG_SECOND, body2));
            }
            Some(m)
        },
        _ => None,
    }
}

/// The command whose payload is `p`, if there is one.
pub fn decode_command_payload(p: &[u8]) -> (r: Option<NetworkCommand>)
    ensures
        match r {
            Some(c) => command_payload(c@) == p@,
            None => forall|c: CommandView| command_payload(c) != p@,
        },
{
    let found = read_field(p, 0, TAG_FIRST);
    let (s, e) = match found {
        Some(f) => f,
        None => {
            assert forall|c: CommandView| command_payload(c) != p@ by {
                if command_payload(c) == p@ {
                    assert(p@.subrange(0, p@.len() as int) == p@);
                    assert(field(TAG_FIRST, encode_utf8(c->SendMessage_0)).is_prefix_of(p@));
                }
            }
            return None;
        },
    };
    let ghost body = p@.subrange(s as int, e as int);
    let ghost tail = p@.subrange(e as int, p@.len() as int);
    assert(p@ == field(TAG_FIRST, body) + tail);
    assert forall|c: CommandView| command_payload(c) == p@ implies encode_utf8(c->SendMessage_0)
        == body && tail.len() == 0 by {
        lemma_field_unique(TAG_FIRST, encode_utf8(c->SendMessage_0), Seq::empty(), body, tail);
    }
    if e != p.len() {
        return None;
    }
    match utf8_str(&p[s..e]) {
        Some(text) => {
            let c = NetworkCommand::SendMessage(text.to_owned());
            proof {
                decode_utf8_encode_utf8(body);
                assert(tail == Seq::<u8>::empty());
                assert(p@ == field(TAG_FIRST, body));
            }
            Some(c)
        },
        None => None,
    }
}

/// The event whose payload is `p`, if there is one.
pub fn decode_event_payload(p: &[u8]) -> (r: Option<NetworkEvent>)
    ensures
        match r {
            Some(e) => event_payload(e@) == p@,
            None => forall|e: EventView| event_payload(e) != p@,
        },
{
    let found = read_field(p, 0, TAG_FIRST);
    let (s, e) = match found {
        Some(f) => f,
        None => {
            assert forall|ev: EventView| event_payload(ev) != p@ by {
                if event_payload(ev) == p@ {
                    assert(p@.subrange(0, p@.len() as int) == p@);
                    assert(field(TAG_FIRST, message_payload(ev->ReceivedMessage_0)).is_prefix_of(
                        p@,
                    ));
                }
            }
            return None;
        },
    };
    let ghost body = p@.subrange(s as int, e as int);
    let ghost tail = p@.subrange(e as int, p@.len() as int);
    assert(p@ == field(TAG_FIRST, body) + tail);
    assert forall|ev: EventView| event_payload(ev) == p@ implies message_payload(
        ev->ReceivedMessage_0,
    ) == body && tail.len() == 0 by {
        lemma_field_unique(
            TAG_FIRST,
            message_payload(ev->ReceivedMessage_0),
            Seq::empty(),
            body,
            tail,
        );
    }
    if e != p.len() {
        return None;
    }
    match decode_message_payload(&p[s..e]) {
        Some(m) => {
            proof {
                assert(tail == Seq::<u8>::empty());
                assert(p@ == field(TAG_FIRST, body));
            }
            Some(NetworkEvent::ReceivedMessage(m))
        },
        None => None,
    }
}

} // verus!
