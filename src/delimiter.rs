//! The length prefix in front of every frame: an unsigned base-128 integer (LEB128), read and
//! written by prost.
use vstd::prelude::*;

verus! {

/// The longest length prefix that can stand in front of a frame.
pub const MAX_DELIMITER_LEN: usize = 10;

/// `128` to the power `k`.
pub open spec fn pow128(k: nat) -> nat
    decreases k,
{
    if k == 0 {
        1
    } else {
        128 * pow128((k - 1) as nat)
    }
}

/// The shortest base-128 form of `n`: seven bits per byte, lowest group first, the high bit set
/// on every byte but the last.
pub open spec fn varint_bytes(n: nat) -> Seq<u8>
    decreases n,
{
    if n < 128 {
        seq![n as u8]
    } else {
        seq![(n % 128 + 128) as u8] + varint_bytes(n / 128)
    }
}

/// Reads a base-128 integer from the front of `b`, looking at no more than `limit` bytes: its
/// value and the number of bytes it spans, or `None` when no byte among those ends it.
pub open spec fn leb128(b: Seq<u8>, limit: nat) -> Option<(nat, nat)>
    decreases limit,
{
    if limit == 0 || b.len() == 0 {
        None
    } else if b[0] < 128 {
        Some((b[0] as nat, 1))
    } else {
        match leb128(b.drop_first(), (limit - 1) as nat) {
            Some((v, w)) => Some((((b[0] - 128) + 128 * v) as nat, w + 1)),
            None => None,
        }
    }
}

/// The length prefix at the front of `b`, as prost reads it: at most ten bytes, a tenth byte no
/// larger than 1 (so that the value fits in 64 bits), and a value that fits in `usize`.
/// Gives the value and the width of the prefix.
pub open spec fn length_delimiter(b: Seq<u8>) -> Option<(nat, nat)> {
    match leb128(b, MAX_DELIMITER_LEN as nat) {
        Some((v, w)) => if (w == MAX_DELIMITER_LEN && b[9] >= 2) || v > usize::MAX {
            None
        } else {
            Some((v, w))
        },
        None => None,
    }
}

/// Relies on prost::encode_length_delimiter: it appends the shortest base-128 form of `n` when
/// the vector can still grow by that many bytes (its `remaining_mut` is `isize::MAX` minus its
/// length), and fails, writing nothing, otherwise.
#[verifier::external_body]
pub(crate) fn write_length_delimiter(n: usize, buf: &mut Vec<u8>) -> (r: bool)
    ensures
        r <==> old(buf)@.len() + varint_bytes(n as nat).len() <= isize::MAX,
        r ==> final(buf)@ == old(buf)@ + varint_bytes(n as nat),
        !r ==> final(buf)@ == old(buf)@,
{
    prost::encode_length_delimiter(n, buf).is_ok()
}

/// Relies on prost::decode_length_delimiter: it reads the length prefix at the front of the
/// slice (see `length_delimiter`) and advances the slice past it; the result here is the value
/// and how many bytes follow the prefix.
#[verifier::external_body]
pub(crate) fn read_length_delimiter(b: &[u8]) -> (r: Option<(usize, usize)>)
    ensures
        match r {
            Some((n, rest)) => rest <= b@.len() && length_delimiter(b@) == Some(
                (n as nat, (b@.len() - rest) as nat),
            ),
            None => length_delimiter(b@) is None,
        },
{
    let mut rest = b;
    match prost::decode_length_delimiter(&mut rest) {
        Ok(n) => Some((n, rest.len())),
        Err(_) => None,
    }
}

/// Relies on prost::length_delimiter_len: the number of bytes that encode_length_delimiter
/// writes for `n`.
#[verifier::external_body]
pub(crate) fn length_delimiter_len(n: usize) -> (r: usize)
    ensures
        r == varint_bytes(n as nat).len(),
{
    prost::length_delimiter_len(n)
}

/// A value below `2 * 128^(k-1)` takes at most `k` bytes, and when it takes exactly `k` its
/// last byte is 0 or 1.
pub proof fn lemma_varint_bytes_bound(n: nat, k: nat)
    requires
        k >= 1,
        n < 2 * pow128((k - 1) as nat),
    ensures
        varint_bytes(n).len() <= k,
        varint_bytes(n).len() == k ==> varint_bytes(n)[k - 1] < 2,
    decreases k,
{
    if n >= 128 {
        let p = pow128((k - 2) as nat);
        if k == 1 {
            assert(pow128(0) == 1);
        } else {
            assert(pow128((k - 1) as nat) == 128 * p);
            assert(n / 128 < 2 * p) by (nonlinear_arith)
                requires
                    n < 2 * (128 * p),
            ;
            lemma_varint_bytes_bound(n / 128, (k - 1) as nat);
            let t = varint_bytes(n / 128);
            assert(varint_bytes(n) == seq![(n % 128 + 128) as u8] + t);
            if varint_bytes(n).len() == k {
                assert(varint_bytes(n)[k - 1] == t[k - 2]);
            }
        }
    }
}

/// Reading the base-128 form of `n`, whatever follows it, gives back `n` and the form's width.
pub proof fn lemma_leb128_varint_bytes(n: nat, rest: Seq<u8>, limit: nat)
    requires
        varint_bytes(n).len() <= limit,
    ensures
        leb128(varint_bytes(n) + rest, limit) == Some((n, varint_bytes(n).len())),
    decreases n,
{
    let b = varint_bytes(n) + rest;
    if n < 128 {
        assert(b[0] == n as u8);
    } else {
        let t = varint_bytes(n / 128);
        assert(varint_bytes(n) == seq![(n % 128 + 128) as u8] + t);
        assert(b.drop_first() == t + rest);
        lemma_leb128_varint_bytes(n / 128, rest, (limit - 1) as nat);
        assert(n == n % 128 + 128 * (n / 128)) by (nonlinear_arith);
    }
}

/// The length prefix written for `n` reads back as `n`, whatever follows it.
pub proof fn lemma_length_delimiter_round_trip(n: usize, rest: Seq<u8>)
    ensures
        varint_bytes(n as nat).len() <= MAX_DELIMITER_LEN,
        length_delimiter(varint_bytes(n as nat) + rest) == Some(
            (n as nat, varint_bytes(n as nat).len()),
        ),
{
    reveal_with_fuel(pow128, 10);
    assert(2 * pow128(9) == 0x1_0000_0000_0000_0000);
    lemma_varint_bytes_bound(n as nat, 10);
    lemma_leb128_varint_bytes(n as nat, rest, 10);
    let b = varint_bytes(n as nat) + rest;
    if varint_bytes(n as nat).len() == 10 {
        assert(b[9] == varint_bytes(n as nat)[9]);
    }
}

/// A proper prefix of a base-128 form does not yet hold a complete integer.
pub proof fn lemma_leb128_partial(n: nat, j: int, limit: nat)
    requires
        0 <= j < varint_bytes(n).len(),
    ensures
        leb128(varint_bytes(n).subrange(0, j), limit) is None,
    decreases n,
{
    let p = varint_bytes(n).subrange(0, j);
    if j > 0 && limit > 0 && n >= 128 {
        let t = varint_bytes(n / 128);
        assert(varint_bytes(n) == seq![(n % 128 + 128) as u8] + t);
        assert(p.drop_first() == t.subrange(0, j - 1));
        lemma_leb128_partial(n / 128, j - 1, (limit - 1) as nat);
    }
}

/// A complete integer spans at least one byte, and no more than the bytes given and the limit.
pub proof fn lemma_leb128_width(b: Seq<u8>, limit: nat)
    ensures
        leb128(b, limit) matches Some((v, w)) ==> 1 <= w <= b.len() && w <= limit,
    decreases limit,
{
    if limit > 0 && b.len() > 0 && b[0] >= 128 {
        lemma_leb128_width(b.drop_first(), (limit - 1) as nat);
    }
}

/// A prefix that reads as `v` and is exactly as wide as the shortest form of `v` is that form.
pub proof fn lemma_leb128_canonical(b: Seq<u8>, limit: nat)
    requires
        leb128(b, limit) matches Some((v, w)) && w == varint_bytes(v).len(),
    ensures
        leb128(b, limit) matches Some((v, w)) && b.subrange(0, w as int) == varint_bytes(v),
    decreases limit,
{
    let (v, w) = leb128(b, limit).unwrap();
    if b[0] < 128 {
        assert(b.subrange(0, 1) == seq![b[0]]);
    } else {
        let (v1, w1) = leb128(b.drop_first(), (limit - 1) as nat).unwrap();
        assert(v == (b[0] - 128) + 128 * v1);
        if v < 128 {
            assert(w == 1);
            assert(false);
        } else {
            assert(v / 128 == v1 && v % 128 == b[0] - 128) by (nonlinear_arith)
                requires
                    v == (b[0] - 128) + 128 * v1,
                    0 <= b[0] - 128 < 128,
            ;
            assert(varint_bytes(v) == seq![(v % 128 + 128) as u8] + varint_bytes(v1));
            lemma_leb128_canonical(b.drop_first(), (limit - 1) as nat);
            lemma_leb128_width(b.drop_first(), (limit - 1) as nat);
            assert(b.subrange(0, w as int) == seq![b[0]] + b.drop_first().subrange(
                0,
                w1 as int,
            ));
        }
    }
}

} // verus!
