//! Frames on a byte stream: a length prefix, then exactly that many bytes of payload. Decoding
//! looks at the front of a buffer and tells apart three outcomes: more bytes are needed, a
//! whole frame is there, or the stream is corrupt.
use vstd::prelude::*;
use vstd::utf8::{encode_utf8, encode_utf8_decode_utf8};

use crate::delimiter::{
    MAX_DELIMITER_LEN,
    leb128,
    length_delimiter,
    lemma_length_delimiter_round_trip,
    lemma_leb128_partial,
    read_length_delimiter,
    varint_bytes,
    write_length_delimiter,
};
use crate::message::{CommandView, EventView, NetworkCommand, NetworkEvent};
use crate::wire::{
    command_payload,
    decode_command_payload,
    decode_event_payload,
    encode_command_payload,
    encode_event_payload,
    event_payload,
    field,
    lemma_field_unique,
    message_payload,
    TAG_FIRST,
    TAG_SECOND,
};

verus! {

broadcast use encode_utf8_decode_utf8;

/// Why a stream of frames cannot be trusted, or a frame not written.
#[derive(Debug, Clone, Copy, PartialEq, Eq, Structural)]
pub enum CodecError {
    /// Ten bytes or more are there, and they do not begin with a valid length prefix.
    InvalidLengthPrefix,
    /// The prefix is valid, but the bytes it announces are not the payload of any message.
    MalformedPayload,
    /// The stream ended in the middle of a frame.
    Truncated,
    /// The output buffer cannot grow by the length prefix.
    BufferFull,
}

/// What decoding found at the front of a buffer.
#[derive(Debug, Clone, PartialEq, Eq)]
pub enum Decoded<T> {
    /// No whole frame yet: more bytes may still arrive. Nothing is consumed.
    Incomplete,
    /// A whole frame: its message, and how many bytes it spans.
    Frame(T, usize),
    /// The stream is corrupt.
    Corrupt(CodecError),
}

impl<T: View> View for Decoded<T> {
    type V = Decoded<T::V>;

    open spec fn view(&self) -> Decoded<T::V> {
        match self {
            Decoded::Incomplete => Decoded::Incomplete,
            Decoded::Frame(t, n) => Decoded::Frame(t@, *n),
            Decoded::Corrupt(e) => Decoded::Corrupt(*e),
        }
    }
}

/// A frame around `payload`: its length, then the payload.
pub open spec fn frame(payload: Seq<u8>) -> Seq<u8> {
    varint_bytes(payload.len()) + payload
}

/// The frame of a command.
pub open spec fn command_frame(c: CommandView) -> Seq<u8> {
    frame(command_payload(c))
}

/// The frame of an event.
pub open spec fn event_frame(e: EventView) -> Seq<u8> {
    frame(event_payload(e))
}

/// The command whose payload is `p`, if any.
pub open spec fn command_of(p: Seq<u8>) -> Option<CommandView> {
    if exists|c: CommandView| command_payload(c) == p {
        Some(choose|c: CommandView| command_payload(c) == p)
    } else {
        None
    }
}

/// The event whose payload is `p`, if any.
pub open spec fn event_of(p: Seq<u8>) -> Option<EventView> {
    if exists|e: EventView| event_payload(e) == p {
        Some(choose|e: EventView| event_payload(e) == p)
    } else {
        None
    }
}

/// Where the first frame of `b` lies, before its payload is read.
pub enum FrameBounds {
    /// Not enough bytes to tell.
    Incomplete,
    /// Ten bytes or more that do not begin with a valid length prefix.
    BadPrefix,
    /// The payload is `b[start..end]`.
    Complete { start: nat, end: nat },
}

/// Where the first frame of `b` lies.
pub open spec fn frame_bounds(b: Seq<u8>) -> FrameBounds {
    match length_delimiter(b) {
        None => if b.len() < MAX_DELIMITER_LEN {
            FrameBounds::Incomplete
        } else {
            FrameBounds::BadPrefix
        },
        Some((n, w)) => if b.len() < w + n {
            FrameBounds::Incomplete
        } else {
            FrameBounds::Complete { start: w, end: w + n }
        },
    }
}

/// What decoding a command at the front of `b` gives.
pub open spec fn decode_command_spec(b: Seq<u8>) -> Decoded<CommandView> {
    match frame_bounds(b) {
        FrameBounds::Incomplete => Decoded::Incomplete,
        FrameBounds::BadPrefix => Decoded::Corrupt(CodecError::InvalidLengthPrefix),
        FrameBounds::Complete { start, end } => match command_of(b.subrange(start as int, end as int)) {
            Some(c) => Decoded::Frame(c, end as usize),
            None => Decoded::Corrupt(CodecError::MalformedPayload),
        },
    }
}

/// What decoding an event at the front of `b` gives.
pub open spec fn decode_event_spec(b: Seq<u8>) -> Decoded<EventView> {
    match frame_bounds(b) {
        FrameBounds::Incomplete => Decoded::Incomplete,
        FrameBounds::BadPrefix => Decoded::Corrupt(CodecError::InvalidLengthPrefix),
        FrameBounds::Complete { start, end } => match event_of(b.subrange(start as int, end as int)) {
            Some(e) => Decoded::Frame(e, end as usize),
            None => Decoded::Corrupt(CodecError::MalformedPayload),
        },
    }
}

/// Once the stream has ended: a buffer left holding part of a frame is truncated.
pub open spec fn at_end<T>(d: Decoded<T>, b: Seq<u8>) -> Decoded<T> {
    if d is Incomplete && b.len() > 0 {
        Decoded::Corrupt(CodecError::Truncated)
    } else {
        d
    }
}

/// Two commands with the same payload are the same command.
pub proof fn lemma_command_payload_injective(a: CommandView, b: CommandView)
    requires
        command_payload(a) == command_payload(b),
    ensures
        a == b,
{
    let (CommandView::SendMessage(x), CommandView::SendMessage(y)) = (a, b);
    lemma_field_unique(TAG_FIRST, encode_utf8(x), Seq::empty(), encode_utf8(y), Seq::empty());
    encode_utf8_decode_utf8(x);
    encode_utf8_decode_utf8(y);
}

/// Two events with the same payload are the same event.
pub proof fn lemma_event_payload_injective(a: EventView, b: EventView)
    requires
        event_payload(a) == event_payload(b),
    ensures
        a == b,
{
    let (EventView::ReceivedMessage(x), EventView::ReceivedMessage(y)) = (a, b);
    lemma_field_unique(
        TAG_FIRST,
        message_payload(x),
        Seq::empty(),
        message_payload(y),
        Seq::empty(),
    );
    lemma_field_unique(
        TAG_FIRST,
        encode_utf8(x.contents),
        field(TAG_SECOND, encode_utf8(x.sender)),
        encode_utf8(y.contents),
        field(TAG_SECOND, encode_utf8(y.sender)),
    );
    lemma_field_unique(
        TAG_SECOND,
        encode_utf8(x.sender),
        Seq::empty(),
        encode_utf8(y.sender),
        Seq::empty(),
    );
    encode_utf8_decode_utf8(x.contents);
    encode_utf8_decode_utf8(y.contents);
    encode_utf8_decode_utf8(x.sender);
    encode_utf8_decode_utf8(y.sender);
}

/// Bytes that all carry the continuation bit never end a base-128 integer.
proof fn lemma_leb128_unterminated(b: Seq<u8>, limit: nat)
    requires
        forall|i: int| 0 <= i < limit && i < b.len() ==> b[i] >= 128,
    ensures
        leb128(b, limit) is None,
    decreases limit,
{
    if limit > 0 && b.len() > 0 {
        assert(b[0] >= 128);
        lemma_leb128_unterminated(b.drop_first(), (limit - 1) as nat);
    }
}

/// The frame of a payload `p` followed by anything: the payload is the bytes that the prefix
/// announces.
proof fn lemma_frame_bounds_of_frame(p: Seq<u8>, rest: Seq<u8>)
    requires
        p.len() <= usize::MAX,
    ensures
        frame_bounds(frame(p) + rest) == (FrameBounds::Complete {
            start: varint_bytes(p.len()).len(),
            end: frame(p).len(),
        }),
        (frame(p) + rest).subrange(varint_bytes(p.len()).len() as int, frame(p).len() as int) == p,
{
    let b = frame(p) + rest;
    assert(b == varint_bytes(p.len()) + (p + rest));
    lemma_length_delimiter_round_trip(p.len() as usize, p + rest);
    assert(b.subrange(varint_bytes(p.len()).len() as int, frame(p).len() as int) == p);
}

/// A proper prefix of the frame of `p` does not yet hold a whole frame.
proof fn lemma_frame_bounds_of_prefix(p: Seq<u8>, j: int)
    requires
        p.len() <= usize::MAX,
        0 <= j < frame(p).len(),
    ensures
        frame_bounds(frame(p).subrange(0, j)) is Incomplete,
{
    let n = p.len();
    let w = varint_bytes(n).len() as int;
    let b = frame(p).subrange(0, j);
    lemma_length_delimiter_round_trip(n as usize, Seq::empty());
    if j < w {
        assert(b == varint_bytes(n).subrange(0, j));
        lemma_leb128_partial(n, j, MAX_DELIMITER_LEN as nat);
    } else {
        assert(b == varint_bytes(n) + p.subrange(0, j - w));
        lemma_length_delimiter_round_trip(n as usize, p.subrange(0, j - w));
    }
}

/// A prefix that announces `k` bytes in front of the payload `p`, once all `k` are there.
proof fn lemma_frame_bounds_announced(k: nat, p: Seq<u8>, rest: Seq<u8>)
    requires
        k <= usize::MAX,
        k <= p.len() + rest.len(),
    ensures
        frame_bounds(varint_bytes(k) + p + rest) == (FrameBounds::Complete {
            start: varint_bytes(k).len(),
            end: varint_bytes(k).len() + k,
        }),
        (varint_bytes(k) + p + rest).subrange(
            varint_bytes(k).len() as int,
            (varint_bytes(k).len() + k) as int,
        ) == (p + rest).subrange(0, k as int),
{
    let b = varint_bytes(k) + p + rest;
    assert(b == varint_bytes(k) + (p + rest));
    lemma_length_delimiter_round_trip(k as usize, p + rest);
    assert(b.subrange(varint_bytes(k).len() as int, (varint_bytes(k).len() + k) as int) == (p
        + rest).subrange(0, k as int));
}

/// Decoding the frame of a command gives back exactly that command and consumes exactly its
/// frame, whatever bytes follow it on the stream.
pub proof fn lemma_command_round_trip(c: CommandView, rest: Seq<u8>)
    requires
        command_payload(c).len() <= usize::MAX,
    ensures
        decode_command_spec(command_frame(c) + rest) == Decoded::Frame(
            c,
            command_frame(c).len() as usize,
        ),
{
    lemma_frame_bounds_of_frame(command_payload(c), rest);
    let x = choose|x: CommandView| command_payload(x) == command_payload(c);
    lemma_command_payload_injective(x, c);
}

/// Decoding the frame of an event gives back exactly that event and consumes exactly its
/// frame, whatever bytes follow it on the stream.
pub proof fn lemma_event_round_trip(e: EventView, rest: Seq<u8>)
    requires
        event_payload(e).len() <= usize::MAX,
    ensures
        decode_event_spec(event_frame(e) + rest) == Decoded::Frame(e, event_frame(e).len() as usize),
{
    lemma_frame_bounds_of_frame(event_payload(e), rest);
    let x = choose|x: EventView| event_payload(x) == event_payload(e);
    lemma_event_payload_injective(x, e);
}

/// Fed a command's frame a piece at a time, the decoder asks for more data at every proper
/// prefix (consuming nothing), and the whole frame gives the command.
pub proof fn lemma_command_partial_reads(c: CommandView, j: int)
    requires
        command_payload(c).len() <= usize::MAX,
        0 <= j <= command_frame(c).len(),
    ensures
        j < command_frame(c).len() ==> decode_command_spec(command_frame(c).subrange(0, j))
            == Decoded::<CommandView>::Incomplete,
        j == command_frame(c).len() ==> decode_command_spec(command_frame(c).subrange(0, j))
            == Decoded::Frame(c, j as usize),
{
    if j < command_frame(c).len() {
        lemma_frame_bounds_of_prefix(command_payload(c), j);
    } else {
        assert(command_frame(c).subrange(0, j) == command_frame(c) + Seq::<u8>::empty());
        lemma_command_round_trip(c, Seq::empty());
    }
}

/// Fed an event's frame a piece at a time, the decoder asks for more data at every proper
/// prefix (consuming nothing), and the whole frame gives the event.
pub proof fn lemma_event_partial_reads(e: EventView, j: int)
    requires
        event_payload(e).len() <= usize::MAX,
        0 <= j <= event_frame(e).len(),
    ensures
        j < event_frame(e).len() ==> decode_event_spec(event_frame(e).subrange(0, j))
            == Decoded::<EventView>::Incomplete,
        j == event_frame(e).len() ==> decode_event_spec(event_frame(e).subrange(0, j))
            == Decoded::Frame(e, j as usize),
{
    if j < event_frame(e).len() {
        lemma_frame_bounds_of_prefix(event_payload(e), j);
    } else {
        assert(event_frame(e).subrange(0, j) == event_frame(e) + Seq::<u8>::empty());
        lemma_event_round_trip(e, Seq::empty());
    }
}

/// If the stream ends inside a frame, the bytes left over are reported as a truncated stream.
pub proof fn lemma_truncated_frame_at_end(e: EventView, c: CommandView, j: int)
    requires
        event_payload(e).len() <= usize::MAX,
        command_payload(c).len() <= usize::MAX,
    ensures
        0 < j < event_frame(e).len() ==> at_end(
            decode_event_spec(event_frame(e).subrange(0, j)),
            event_frame(e).subrange(0, j),
        ) == Decoded::<EventView>::Corrupt(CodecError::Truncated),
        0 < j < command_frame(c).len() ==> at_end(
            decode_command_spec(command_frame(c).subrange(0, j)),
            command_frame(c).subrange(0, j),
        ) == Decoded::<CommandView>::Corrupt(CodecError::Truncated),
{
    if 0 < j < event_frame(e).len() {
        lemma_event_partial_reads(e, j);
    }
    if 0 < j < command_frame(c).len() {
        lemma_command_partial_reads(c, j);
    }
}

/// Ten bytes that do not end a length prefix make the stream corrupt, whatever follows.
pub proof fn lemma_unterminated_prefix_is_corrupt(b: Seq<u8>)
    requires
        b.len() >= MAX_DELIMITER_LEN,
        forall|i: int| 0 <= i < MAX_DELIMITER_LEN ==> b[i] >= 128,
    ensures
        decode_command_spec(b) == Decoded::<CommandView>::Corrupt(CodecError::InvalidLengthPrefix),
        decode_event_spec(b) == Decoded::<EventView>::Corrupt(CodecError::InvalidLengthPrefix),
{
    lemma_leb128_unterminated(b, MAX_DELIMITER_LEN as nat);
}

/// A command's payload behind a length prefix that announces any other length gives a corrupt
/// stream, never a message, once the announced bytes are there.
pub proof fn lemma_command_wrong_length_is_corrupt(c: CommandView, k: nat, rest: Seq<u8>)
    requires
        k != command_payload(c).len(),
        k <= usize::MAX,
        k <= command_payload(c).len() + rest.len(),
    ensures
        decode_command_spec(varint_bytes(k) + command_payload(c) + rest)
            == Decoded::<CommandView>::Corrupt(CodecError::MalformedPayload),
{
    let p = command_payload(c);
    lemma_frame_bounds_announced(k, p, rest);
    let zone = (p + rest).subrange(0, k as int);
    let CommandView::SendMessage(t) = c;
    assert forall|x: CommandView| command_payload(x) != zone by {
        if command_payload(x) == zone {
            let CommandView::SendMessage(u) = x;
            if k < p.len() {
                let tail = p.subrange(k as int, p.len() as int);
                assert(p == zone + tail);
                assert(field(TAG_FIRST, encode_utf8(t)) + Seq::<u8>::empty() == field(
                    TAG_FIRST,
                    encode_utf8(u),
                ) + tail);
                lemma_field_unique(
                    TAG_FIRST,
                    encode_utf8(t),
                    Seq::empty(),
                    encode_utf8(u),
                    tail,
                );
            } else {
                let extra = rest.subrange(0, k - p.len());
                assert(zone == p + extra);
                assert(field(TAG_FIRST, encode_utf8(t)) + extra == field(TAG_FIRST, encode_utf8(u))
                    + Seq::<u8>::empty());
                lemma_field_unique(
                    TAG_FIRST,
                    encode_utf8(t),
                    extra,
                    encode_utf8(u),
                    Seq::empty(),
                );
            }
        }
    }
}

/// An event's payload behind a length prefix that announces any other length gives a corrupt
/// stream, never a message, once the announced bytes are there.
pub proof fn lemma_event_wrong_length_is_corrupt(e: EventView, k: nat, rest: Seq<u8>)
    requires
        k != event_payload(e).len(),
        k <= usize::MAX,
        k <= event_payload(e).len() + rest.len(),
    ensures
        decode_event_spec(varint_bytes(k) + event_payload(e) + rest)
            == Decoded::<EventView>::Corrupt(CodecError::MalformedPayload),
{
    let p = event_payload(e);
    lemma_frame_bounds_announced(k, p, rest);
    let zone = (p + rest).subrange(0, k as int);
    let EventView::ReceivedMessage(m) = e;
    assert forall|x: EventView| event_payload(x) != zone by {
        if event_payload(x) == zone {
            let EventView::ReceivedMessage(n) = x;
            if k < p.len() {
                let tail = p.subrange(k as int, p.len() as int);
                assert(p == zone + tail);
                assert(field(TAG_FIRST, message_payload(m)) + Seq::<u8>::empty() == field(
                    TAG_FIRST,
                    message_payload(n),
                ) + tail);
                lemma_field_unique(
                    TAG_FIRST,
                    message_payload(m),
                    Seq::empty(),
                    message_payload(n),
                    tail,
                );
            } else {
                let extra = rest.subrange(0, k - p.len());
                assert(zone == p + extra);
                assert(field(TAG_FIRST, message_payload(m)) + extra == field(
                    TAG_FIRST,
                    message_payload(n),
                ) + Seq::<u8>::empty());
                lemma_field_unique(
                    TAG_FIRST,
                    message_payload(m),
                    extra,
                    message_payload(n),
                    Seq::empty(),
                );
            }
        }
    }
}

/// Whatever the bytes, a decoded command is never a silently wrong one: its payload is exactly
/// the bytes that the length prefix announces, and the frame ends where that payload ends.
pub proof fn lemma_decoded_command_is_announced(b: Seq<u8>)
    requires
        b.len() <= usize::MAX,
    ensures
        decode_command_spec(b) matches Decoded::Frame(c, k) ==> k <= b.len() && length_delimiter(
            b,
        ) == Some((command_payload(c).len(), (k - command_payload(c).len()) as nat))
            && b.subrange(k - command_payload(c).len(), k as int) == command_payload(c),
{
    if let Some((n, w)) = length_delimiter(b) {
        if b.len() >= w + n {
            let zone = b.subrange(w as int, (w + n) as int);
            if let Some(x) = command_of(zone) {
                assert(command_payload(x) == zone);
            }
        }
    }
}

/// Whatever the bytes, a decoded event is never a silently wrong one: its payload is exactly
/// the bytes that the length prefix announces, and the frame ends where that payload ends.
pub proof fn lemma_decoded_event_is_announced(b: Seq<u8>)
    requires
        b.len() <= usize::MAX,
    ensures
        decode_event_spec(b) matches Decoded::Frame(e, k) ==> k <= b.len() && length_delimiter(
            b,
        ) == Some((event_payload(e).len(), (k - event_payload(e).len()) as nat))
            && b.subrange(k - event_payload(e).len(), k as int) == event_payload(e),
{
    if let Some((n, w)) = length_delimiter(b) {
        if b.len() >= w + n {
            let zone = b.subrange(w as int, (w + n) as int);
            if let Some(x) = event_of(zone) {
                assert(event_payload(x) == zone);
            }
        }
    }
}

/// Writes the frame of `item` at the end of `dst`. It fails, writing nothing, only when `dst`
/// cannot grow by the length prefix.
pub fn encode_command(item: &NetworkCommand, dst: &mut Vec<u8>) -> (r: Result<(), CodecError>)
    ensures
        r is Ok <==> old(dst)@.len() + varint_bytes(command_payload(item@).len()).len()
            <= isize::MAX,
        r is Ok ==> final(dst)@ == old(dst)@ + command_frame(item@),
        r is Err ==> r == Err::<(), CodecError>(CodecError::BufferFull) && final(dst)@ == old(
            dst,
        )@,
{
    let mut payload = encode_command_payload(item);
    if write_length_delimiter(payload.len(), dst) {
        dst.append(&mut payload);
        Ok(())
    } else {
        Err(CodecError::BufferFull)
    }
}

/// Writes the frame of `item` at the end of `dst`. It fails, writing nothing, only when `dst`
/// cannot grow by the length prefix.
pub fn encode_event(item: &NetworkEvent, dst: &mut Vec<u8>) -> (r: Result<(), CodecError>)
    ensures
        r is Ok <==> old(dst)@.len() + varint_bytes(event_payload(item@).len()).len()
            <= isize::MAX,
        r is Ok ==> final(dst)@ == old(dst)@ + event_frame(item@),
        r is Err ==> r == Err::<(), CodecError>(CodecError::BufferFull) && final(dst)@ == old(
            dst,
        )@,
{
    let mut payload = encode_event_payload(item);
    if write_length_delimiter(payload.len(), dst) {
        dst.append(&mut payload);
        Ok(())
    } else {
        Err(CodecError::BufferFull)
    }
}

/// Where the payload of the first frame of `b` lies (see `frame_bounds`).
fn locate_frame(b: &[u8]) -> (r: Result<Option<(usize, usize)>, CodecError>)
    ensures
        match frame_bounds(b@) {
            FrameBounds::Incomplete => r == Ok::<Option<(usize, usize)>, CodecError>(None),
            FrameBounds::BadPrefix => r == Err::<Option<(usize, usize)>, CodecError>(
                CodecError::InvalidLengthPrefix,
            ),
            FrameBounds::Complete { start, end } => r matches Ok(Some((s, e))) && s == start
                && e == end,
        },
{
    match read_length_delimiter(b) {
        None => {
            if b.len() < MAX_DELIMITER_LEN {
                Ok(None)
            } else {
                Err(CodecError::InvalidLengthPrefix)
            }
        },
        Some((n, rest)) => {
            if n > rest {
                Ok(None)
            } else {
                let start = b.len() - rest;
                Ok(Some((start, start + n)))
            }
        },
    }
}

/// Decodes the command at the front of `b`.
pub fn decode_command(b: &[u8]) -> (r: Decoded<NetworkCommand>)
    ensures
        r@ == decode_command_spec(b@),
{
    match locate_frame(b) {
        Err(e) => Decoded::Corrupt(e),
        Ok(None) => Decoded::Incomplete,
        Ok(Some((start, end))) => {
            let payload = &b[start..end];
            match decode_command_payload(payload) {
                Some(c) => {
                    proof {
                        let chosen = choose|x: CommandView| command_payload(x) == payload@;
                        lemma_command_payload_injective(chosen, c@);
                    }
                    Decoded::Frame(c, end)
                },
                None => Decoded::Corrupt(CodecError::MalformedPayload),
            }
        },
    }
}

/// Decodes the event at the front of `b`.
pub fn decode_event(b: &[u8]) -> (r: Decoded<NetworkEvent>)
    ensures
        r@ == decode_event_spec(b@),
{
    match locate_frame(b) {
        Err(e) => Decoded::Corrupt(e),
        Ok(None) => Decoded::Incomplete,
        Ok(Some((start, end))) => {
            let payload = &b[start..end];
            match decode_event_payload(payload) {
                Some(ev) => {
                    proof {
                        let chosen = choose|x: EventView| event_payload(x) == payload@;
                        lemma_event_payload_injective(chosen, ev@);
                    }
                    Decoded::Frame(ev, end)
                },
                None => Decoded::Corrupt(CodecError::MalformedPayload),
            }
        },
    }
}

/// Decodes the command at the front of `b` once the stream has ended: part of a frame left
/// over is a truncated stream.
pub fn decode_command_eof(b: &[u8]) -> (r: Decoded<NetworkCommand>)
    ensures
        r@ == at_end(decode_command_spec(b@), b@),
{
    match decode_command(b) {
        Decoded::Incomplete => if b.len() > 0 {
            Decoded::Corrupt(CodecError::Truncated)
        } else {
            Decoded::Incomplete
        },
        other => other,
    }
}

/// Decodes the event at the front of `b` once the stream has ended: part of a frame left over
/// is a truncated stream.
pub fn decode_event_eof(b: &[u8]) -> (r: Decoded<NetworkEvent>)
    ensures
        r@ == at_end(decode_event_spec(b@), b@),
{
    match decode_event(b) {
        Decoded::Incomplete => if b.len() > 0 {
            Decoded::Corrupt(CodecError::Truncated)
        } else {
            Decoded::Incomplete
        },
        other => other,
    }
}

/// Takes what `d` says was decoded off the front of `src`: the item of a whole frame, or the
/// error of a corrupt stream. `src` keeps the bytes after the frame.
fn take_decoded<T: View>(d: Decoded<T>, src: &mut Vec<u8>) -> (r: Result<Option<T>, CodecError>)
    requires
        d matches Decoded::Frame(_, k) ==> k <= old(src)@.len(),
    ensures
        match d {
            Decoded::Incomplete => r is Ok && r->Ok_0 is None && final(src)@ == old(src)@,
            Decoded::Frame(t, k) => r is Ok && r->Ok_0 == Some(t) && final(src)@ == old(
                src,
            )@.subrange(k as int, old(src)@.len() as int),
            Decoded::Corrupt(e) => r == Err::<Option<T>, CodecError>(e) && final(src)@ == old(
                src,
            )@,
        },
{
    match d {
        Decoded::Incomplete => Ok(None),
        Decoded::Frame(t, k) => {
            let rest = src.split_off(k);
            *src = rest;
            Ok(Some(t))
        },
        Decoded::Corrupt(e) => Err(e),
    }
}

/// The codec of a client's end of a connection: it writes commands and reads events.
#[derive(Debug, Clone, Copy)]
pub struct ClientCodec;

/// The codec of the server's end of a connection: it writes events and reads commands.
#[derive(Debug, Clone, Copy)]
pub struct ServerCodec;

impl ClientCodec {
    /// Writes the frame of `item` at the end of `dst` (see `encode_command`).
    pub fn encode(&mut self, item: NetworkCommand, dst: &mut Vec<u8>) -> (r: Result<
        (),
        CodecError,
    >)
        ensures
            r is Ok <==> old(dst)@.len() + varint_bytes(command_payload(item@).len()).len()
                <= isize::MAX,
            r is Ok ==> final(dst)@ == old(dst)@ + command_frame(item@),
            r is Err ==> r == Err::<(), CodecError>(CodecError::BufferFull) && final(dst)@ == old(
                dst,
            )@,
    {
        encode_command(&item, dst)
    }

    /// Takes the event at the front of `src`, if a whole frame is there; the bytes after it
    /// stay in `src`. On a corrupt stream `src` is left as it was.
    pub fn decode(&mut self, src: &mut Vec<u8>) -> (r: Result<Option<NetworkEvent>, CodecError>)
        ensures
            match decode_event_spec(old(src)@) {
                Decoded::Incomplete => r is Ok && r->Ok_0 is None && final(src)@ == old(src)@,
                Decoded::Frame(e, k) => r matches Ok(Some(ev)) && ev@ == e && final(src)@ == old(
                    src,
                )@.subrange(k as int, old(src)@.len() as int),
                Decoded::Corrupt(err) => r == Err::<Option<NetworkEvent>, CodecError>(err)
                    && final(src)@ == old(src)@,
            },
    {
        let d = decode_event(src.as_slice());
        take_decoded(d, src)
    }

    /// As `decode`, once the stream has ended: part of a frame left in `src` is an error.
    pub fn decode_eof(&mut self, src: &mut Vec<u8>) -> (r: Result<Option<NetworkEvent>, CodecError>)
        ensures
            match at_end(decode_event_spec(old(src)@), old(src)@) {
                Decoded::Incomplete => r is Ok && r->Ok_0 is None && final(src)@ == old(src)@,
                Decoded::Frame(e, k) => r matches Ok(Some(ev)) && ev@ == e && final(src)@ == old(
                    src,
                )@.subrange(k as int, old(src)@.len() as int),
                Decoded::Corrupt(err) => r == Err::<Option<NetworkEvent>, CodecError>(err)
                    && final(src)@ == old(src)@,
            },
    {
        let d = decode_event_eof(src.as_slice());
        take_decoded(d, src)
    }
}

impl ServerCodec {
    /// Writes the frame of `item` at the end of `dst` (see `encode_event`).
    pub fn encode(&mut self, item: NetworkEvent, dst: &mut Vec<u8>) -> (r: Result<
        (),
        CodecError,
    >)
        ensures
            r is Ok <==> old(dst)@.len() + varint_bytes(event_payload(item@).len()).len()
                <= isize::MAX,
            r is Ok ==> final(dst)@ == old(dst)@ + event_frame(item@),
            r is Err ==> r == Err::<(), CodecError>(CodecError::BufferFull) && final(dst)@ == old(
                dst,
            )@,
    {
        encode_event(&item, dst)
    }

    /// Takes the command at the front of `src`, if a whole frame is there; the bytes after it
    /// stay in `src`. On a corrupt stream `src` is left as it was.
    pub fn decode(&mut self, src: &mut Vec<u8>) -> (r: Result<Option<NetworkCommand>, CodecError>)
        ensures
            match decode_command_spec(old(src)@) {
                Decoded::Incomplete => r is Ok && r->Ok_0 is None && final(src)@ == old(src)@,
                Decoded::Frame(c, k) => r matches Ok(Some(cmd)) && cmd@ == c && final(src)@ == old(
                    src,
                )@.subrange(k as int, old(src)@.len() as int),
                Decoded::Corrupt(err) => r == Err::<Option<NetworkCommand>, CodecError>(err)
                    && final(src)@ == old(src)@,
            },
    {
        let d = decode_command(src.as_slice());
        take_decoded(d, src)
    }

    /// As `decode`, once the stream has ended: part of a frame left in `src` is an error.
    pub fn decode_eof(&mut self, src: &mut Vec<u8>) -> (r: Result<Option<NetworkCommand>, CodecError>)
        ensures
            match at_end(decode_command_spec(old(src)@), old(src)@) {
                Decoded::Incomplete => r is Ok && r->Ok_0 is None && final(src)@ == old(src)@,
                Decoded::Frame(c, k) => r matches Ok(Some(cmd)) && cmd@ == c && final(src)@ == old(
                    src,
                )@.subrange(k as int, old(src)@.len() as int),
                Decoded::Corrupt(err) => r == Err::<Option<NetworkCommand>, CodecError>(err)
                    && final(src)@ == old(src)@,
            },
    {
        let d = decode_command_eof(src.as_slice());
        take_decoded(d, src)
    }
}

} // verus!
