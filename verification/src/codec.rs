//! Deterministic codec for the persisted state record.
//!
//! The record is encoded as the canonical binary form of a one-element array
//! holding the counter: the array header byte `0x81` followed by the counter
//! as an unsigned integer in its shortest header form. Because the encoding
//! is canonical — field order fixed, exactly one representation per value —
//! two independent encoders produce byte-identical output for equal inputs,
//! which is what makes the output usable as input to a content address.
//!
//! Decoding accepts exactly the canonical encodings and rejects everything
//! else (truncated input, a wrong field count, a non-shortest integer form)
//! with [`AbortCode::MalformedRecord`]; missing fields are never defaulted.

use vstd::prelude::*;

use crate::abort::AbortCode;
use crate::state::State;

verus! {

/// Canonical unsigned-integer encoding: the value in its shortest form, as a
/// one-byte immediate or behind one of the `0x18`/`0x19`/`0x1a`/`0x1b`
/// headers with the value in big-endian order.
pub open spec fn spec_encode_uint(n: u64) -> Seq<u8> {
    if n < 24 {
        seq![n as u8]
    } else if n < 0x100 {
        seq![0x18u8, n as u8]
    } else if n < 0x10000 {
        seq![0x19u8, (n / 0x100) as u8, (n % 0x100) as u8]
    } else if n < 0x100000000 {
        seq![
            0x1au8,
            (n / 0x1000000) as u8,
            ((n / 0x10000) % 0x100) as u8,
            ((n / 0x100) % 0x100) as u8,
            (n % 0x100) as u8,
        ]
    } else {
        seq![
            0x1bu8,
            (n / 0x100000000000000) as u8,
            ((n / 0x1000000000000) % 0x100) as u8,
            ((n / 0x10000000000) % 0x100) as u8,
            ((n / 0x100000000) % 0x100) as u8,
            ((n / 0x1000000) % 0x100) as u8,
            ((n / 0x10000) % 0x100) as u8,
            ((n / 0x100) % 0x100) as u8,
            (n % 0x100) as u8,
        ]
    }
}

/// The canonical encoding of a state record: a one-element array (`0x81`)
/// holding the counter.
pub open spec fn spec_encode_state(s: State) -> Seq<u8> {
    seq![0x81u8] + spec_encode_uint(s.count)
}

/// Parse a canonical unsigned integer; `None` on anything that is not the
/// shortest form of some value (wrong length, wrong header, or a value whose
/// shortest form is shorter).
pub open spec fn spec_decode_uint(b: Seq<u8>) -> Option<u64> {
    if b.len() == 1 && b[0] < 24 {
        Some(b[0] as u64)
    } else if b.len() == 2 && b[0] == 0x18 && b[1] >= 24 {
        Some(b[1] as u64)
    } else if b.len() == 3 && b[0] == 0x19 && b[1] >= 1 {
        Some(((b[1] as u64) * 0x100 + (b[2] as u64)) as u64)
    } else if b.len() == 5 && b[0] == 0x1a && (b[1] >= 1 || b[2] >= 1) {
        Some(
            ((b[1] as u64) * 0x1000000 + (b[2] as u64) * 0x10000 + (b[3] as u64) * 0x100 + (
            b[4] as u64)) as u64,
        )
    } else if b.len() == 9 && b[0] == 0x1b && (b[1] >= 1 || b[2] >= 1 || b[3] >= 1 || b[4] >= 1) {
        Some(
            ((b[1] as u64) * 0x100000000000000 + (b[2] as u64) * 0x1000000000000 + (b[3] as u64)
                * 0x10000000000 + (b[4] as u64) * 0x100000000 + (b[5] as u64) * 0x1000000 + (
            b[6] as u64) * 0x10000 + (b[7] as u64) * 0x100 + (b[8] as u64)) as u64,
        )
    } else {
        None
    }
}

/// Parse a canonical state record; `None` unless the bytes are exactly the
/// canonical encoding of some record.
pub open spec fn spec_decode_state(b: Seq<u8>) -> Option<State> {
    if b.len() >= 1 && b[0] == 0x81 {
        match spec_decode_uint(b.skip(1)) {
            Some(n) => Some(State { count: n }),
            None => None,
        }
    } else {
        None
    }
}

/// Shortest-form parsing inverts shortest-form encoding.
proof fn lemma_uint_round_trip(n: u64)
    ensures
        spec_decode_uint(spec_encode_uint(n)) == Some(n),
{
    if n < 24 {
    } else if n < 0x100 {
    } else if n < 0x10000 {
        assert(n / 0x100 >= 1 && n / 0x100 < 0x100 && (n / 0x100) * 0x100 + n % 0x100 == n)
            by (bit_vector)
            requires
                0x100 <= n < 0x10000,
        ;
    } else if n < 0x100000000 {
        assert((n / 0x1000000 >= 1 || (n / 0x10000) % 0x100 >= 1) && n / 0x1000000 < 0x100 && (n
            / 0x1000000) * 0x1000000 + ((n / 0x10000) % 0x100) * 0x10000 + ((n / 0x100) % 0x100)
            * 0x100 + n % 0x100 == n)
            by (bit_vector)
            requires
                0x10000 <= n < 0x100000000,
        ;
    } else {
        assert((n / 0x100000000000000 >= 1 || (n / 0x1000000000000) % 0x100 >= 1 || (n
            / 0x10000000000) % 0x100 >= 1 || (n / 0x100000000) % 0x100 >= 1) && n
            / 0x100000000000000 < 0x100 && (n / 0x100000000000000) * 0x100000000000000 + ((n
            / 0x1000000000000) % 0x100) * 0x1000000000000 + ((n / 0x10000000000) % 0x100)
            * 0x10000000000 + ((n / 0x100000000) % 0x100) * 0x100000000 + ((n / 0x1000000) % 0x100)
            * 0x1000000 + ((n / 0x10000) % 0x100) * 0x10000 + ((n / 0x100) % 0x100) * 0x100 + n
            % 0x100 == n)
            by (bit_vector)
            requires
                n >= 0x100000000,
        ;
    }
}

/// Only the shortest form parses: a parsed buffer is the encoding of its
/// value, so each value has exactly one accepted representation.
proof fn lemma_uint_canonical(b: Seq<u8>, n: u64)
    requires
        spec_decode_uint(b) == Some(n),
    ensures
        b == spec_encode_uint(n),
{
    if b.len() == 1 && b[0] < 24 {
        assert(b =~= spec_encode_uint(n));
    } else if b.len() == 2 && b[0] == 0x18 && b[1] >= 24 {
        assert(b =~= spec_encode_uint(n));
    } else if b.len() == 3 && b[0] == 0x19 && b[1] >= 1 {
        let hi = b[1] as u64;
        let lo = b[2] as u64;
        assert(hi >= 1 && hi < 0x100 && lo < 0x100 ==> 0x100 <= hi * 0x100 + lo < 0x10000 && (hi
            * 0x100 + lo) / 0x100 == hi && (hi * 0x100 + lo) % 0x100 == lo) by (bit_vector);
        assert(b =~= spec_encode_uint(n));
    } else if b.len() == 5 && b[0] == 0x1a && (b[1] >= 1 || b[2] >= 1) {
        let d1 = b[1] as u64;
        let d2 = b[2] as u64;
        let d3 = b[3] as u64;
        let d4 = b[4] as u64;
        assert(d1 < 0x100 && d2 < 0x100 && d3 < 0x100 && d4 < 0x100 && (d1 >= 1 || d2 >= 1)
            ==> 0x10000 <= d1 * 0x1000000 + d2 * 0x10000 + d3 * 0x100 + d4 < 0x100000000 && (d1
            * 0x1000000 + d2 * 0x10000 + d3 * 0x100 + d4) / 0x1000000 == d1 && ((d1 * 0x1000000 + d2
            * 0x10000 + d3 * 0x100 + d4) / 0x10000) % 0x100 == d2 && ((d1 * 0x1000000 + d2 * 0x10000
            + d3 * 0x100 + d4) / 0x100) % 0x100 == d3 && (d1 * 0x1000000 + d2 * 0x10000 + d3 * 0x100
            + d4) % 0x100 == d4) by (bit_vector);
        assert(b =~= spec_encode_uint(n));
    } else if b.len() == 9 && b[0] == 0x1b && (b[1] >= 1 || b[2] >= 1 || b[3] >= 1 || b[4] >= 1) {
        let d1 = b[1] as u64;
        let d2 = b[2] as u64;
        let d3 = b[3] as u64;
        let d4 = b[4] as u64;
        let d5 = b[5] as u64;
        let d6 = b[6] as u64;
        let d7 = b[7] as u64;
        let d8 = b[8] as u64;
        assert(d1 < 0x100 && d2 < 0x100 && d3 < 0x100 && d4 < 0x100 && d5 < 0x100 && d6 < 0x100
            && d7 < 0x100 && d8 < 0x100 && (d1 >= 1 || d2 >= 1 || d3 >= 1 || d4 >= 1)
            ==> 0x100000000 <= d1 * 0x100000000000000 + d2 * 0x1000000000000 + d3 * 0x10000000000
            + d4 * 0x100000000 + d5 * 0x1000000 + d6 * 0x10000 + d7 * 0x100 + d8 && (d1
            * 0x100000000000000 + d2 * 0x1000000000000 + d3 * 0x10000000000 + d4 * 0x100000000 + d5
            * 0x1000000 + d6 * 0x10000 + d7 * 0x100 + d8) / 0x100000000000000 == d1 && ((d1
            * 0x100000000000000 + d2 * 0x1000000000000 + d3 * 0x10000000000 + d4 * 0x100000000 + d5
            * 0x1000000 + d6 * 0x10000 + d7 * 0x100 + d8) / 0x1000000000000) % 0x100 == d2 && ((d1
            * 0x100000000000000 + d2 * 0x1000000000000 + d3 * 0x10000000000 + d4 * 0x100000000 + d5
            * 0x1000000 + d6 * 0x10000 + d7 * 0x100 + d8) / 0x10000000000) % 0x100 == d3 && ((d1
            * 0x100000000000000 + d2 * 0x1000000000000 + d3 * 0x10000000000 + d4 * 0x100000000 + d5
            * 0x1000000 + d6 * 0x10000 + d7 * 0x100 + d8) / 0x100000000) % 0x100 == d4 && ((d1
            * 0x100000000000000 + d2 * 0x1000000000000 + d3 * 0x10000000000 + d4 * 0x100000000 + d5
            * 0x1000000 + d6 * 0x10000 + d7 * 0x100 + d8) / 0x1000000) % 0x100 == d5 && ((d1
            * 0x100000000000000 + d2 * 0x1000000000000 + d3 * 0x10000000000 + d4 * 0x100000000 + d5
            * 0x1000000 + d6 * 0x10000 + d7 * 0x100 + d8) / 0x10000) % 0x100 == d6 && ((d1
            * 0x100000000000000 + d2 * 0x1000000000000 + d3 * 0x10000000000 + d4 * 0x100000000 + d5
            * 0x1000000 + d6 * 0x10000 + d7 * 0x100 + d8) / 0x100) % 0x100 == d7 && (d1
            * 0x100000000000000 + d2 * 0x1000000000000 + d3 * 0x10000000000 + d4 * 0x100000000 + d5
            * 0x1000000 + d6 * 0x10000 + d7 * 0x100 + d8) % 0x100 == d8) by (bit_vector);
        assert(b =~= spec_encode_uint(n));
    }
}

/// Round-trip law: decoding the canonical encoding of any record yields that
/// record back. In particular the encoding is injective: equal encodings come
/// from equal records.
pub proof fn lemma_round_trip(x: State)
    ensures
        spec_decode_state(spec_encode_state(x)) == Some(x),
{
    lemma_uint_round_trip(x.count);
    assert(spec_encode_state(x).skip(1) =~= spec_encode_uint(x.count));
}

/// Canonicality law: any buffer that decodes at all is byte-identical to the
/// canonical encoding of the record it decodes to — no logical value has a
/// second accepted representation.
pub proof fn lemma_decode_canonical(b: Seq<u8>, x: State)
    requires
        spec_decode_state(b) == Some(x),
    ensures
        b == spec_encode_state(x),
{
    lemma_uint_canonical(b.skip(1), x.count);
    assert(b =~= spec_encode_state(x));
}

/// Determinism law: the encoding is a pure function of the record, so two
/// independent encodings of equal records are byte-identical.
pub proof fn lemma_encode_deterministic(x: State, y: State)
    requires
        x == y,
    ensures
        spec_encode_state(x) == spec_encode_state(y),
{
}

/// Append the canonical unsigned-integer form of `n`.
fn push_uint(r: &mut Vec<u8>, n: u64)
    ensures
        final(r)@ == old(r)@ + spec_encode_uint(n),
{
    if n < 24 {
        r.push(n as u8);
        assert(r@ =~= old(r)@ + spec_encode_uint(n));
    } else if n < 0x100 {
        r.push(0x18);
        r.push(n as u8);
        assert(r@ =~= old(r)@ + spec_encode_uint(n));
    } else if n < 0x10000 {
        r.push(0x19);
        r.push((n / 0x100) as u8);
        r.push((n % 0x100) as u8);
        assert(r@ =~= old(r)@ + spec_encode_uint(n));
    } else if n < 0x100000000 {
        r.push(0x1a);
        r.push((n / 0x1000000) as u8);
        r.push(((n / 0x10000) % 0x100) as u8);
        r.push(((n / 0x100) % 0x100) as u8);
        r.push((n % 0x100) as u8);
        assert(r@ =~= old(r)@ + spec_encode_uint(n));
    } else {
        r.push(0x1b);
        r.push((n / 0x100000000000000) as u8);
        r.push(((n / 0x1000000000000) % 0x100) as u8);
        r.push(((n / 0x10000000000) % 0x100) as u8);
        r.push(((n / 0x100000000) % 0x100) as u8);
        r.push(((n / 0x1000000) % 0x100) as u8);
        r.push(((n / 0x10000) % 0x100) as u8);
        r.push(((n / 0x100) % 0x100) as u8);
        r.push((n % 0x100) as u8);
        assert(r@ =~= old(r)@ + spec_encode_uint(n));
    }
}

/// Encode a state record into its canonical byte form.
pub fn encode(s: &State) -> (r: Vec<u8>)
    ensures
        r@ == spec_encode_state(*s),
{
    let mut r: Vec<u8> = Vec::new();
    r.push(0x81);
    push_uint(&mut r, s.count);
    proof {
        assert(r@ =~= spec_encode_state(*s));
    }
    r
}

/// Parse the canonical unsigned-integer form starting at `start` and running
/// to the end of the buffer.
fn decode_uint_at(b: &[u8], start: usize) -> (r: Option<u64>)
    requires
        start <= b@.len(),
    ensures
        r == spec_decode_uint(b@.skip(start as int)),
{
    let n = b.len() - start;
    if n == 1 {
        let b0 = b[start];
        if b0 < 24 {
            Some(b0 as u64)
        } else {
            None
        }
    } else if n == 2 {
        let b0 = b[start];
        let b1 = b[start + 1];
        if b0 == 0x18 && b1 >= 24 {
            Some(b1 as u64)
        } else {
            None
        }
    } else if n == 3 {
        let b0 = b[start];
        let b1 = b[start + 1];
        let b2 = b[start + 2];
        if b0 == 0x19 && b1 >= 1 {
            Some((b1 as u64) * 0x100 + (b2 as u64))
        } else {
            None
        }
    } else if n == 5 {
        let b0 = b[start];
        let b1 = b[start + 1];
        let b2 = b[start + 2];
        let b3 = b[start + 3];
        let b4 = b[start + 4];
        if b0 == 0x1a && (b1 >= 1 || b2 >= 1) {
            Some((b1 as u64) * 0x1000000 + (b2 as u64) * 0x10000 + (b3 as u64) * 0x100 + (
            b4 as u64))
        } else {
            None
        }
    } else if n == 9 {
        let b0 = b[start];
        let b1 = b[start + 1];
        let b2 = b[start + 2];
        let b3 = b[start + 3];
        let b4 = b[start + 4];
        let b5 = b[start + 5];
        let b6 = b[start + 6];
        let b7 = b[start + 7];
        let b8 = b[start + 8];
        if b0 == 0x1b && (b1 >= 1 || b2 >= 1 || b3 >= 1 || b4 >= 1) {
            Some(
                (b1 as u64) * 0x100000000000000 + (b2 as u64) * 0x1000000000000 + (b3 as u64)
                    * 0x10000000000 + (b4 as u64) * 0x100000000 + (b5 as u64) * 0x1000000 + (
                b6 as u64) * 0x10000 + (b7 as u64) * 0x100 + (b8 as u64),
            )
        } else {
            None
        }
    } else {
        None
    }
}

/// Decode a canonical state record, rejecting any other input with
/// `MalformedRecord`: truncated buffers, a wrong field count, and
/// non-shortest integer forms all fail.
pub fn decode(b: &[u8]) -> (r: Result<State, AbortCode>)
    ensures
        match r {
            Ok(s) => spec_decode_state(b@) == Some(s),
            Err(c) => c == AbortCode::MalformedRecord && spec_decode_state(b@) is None,
        },
{
    if b.len() >= 1 && b[0] == 0x81 {
        match decode_uint_at(b, 1) {
            Some(n) => Ok(State { count: n }),
            None => Err(AbortCode::MalformedRecord),
        }
    } else {
        Err(AbortCode::MalformedRecord)
    }
}

/// Decimal digits of `n`, most significant first, as ASCII bytes.
pub open spec fn spec_decimal_digits(n: u64) -> Seq<u8>
    decreases n,
{
    if n < 10 {
        seq![(0x30 + n) as u8]
    } else {
        spec_decimal_digits((n / 10) as u64).push((0x30 + n % 10) as u8)
    }
}

/// The greeting text for a given counter value: `Hello world #`, the counter
/// in decimal, and `!`, as ASCII bytes.
pub open spec fn spec_greeting(n: u64) -> Seq<u8> {
    seq![0x48u8, 0x65u8, 0x6cu8, 0x6cu8, 0x6fu8, 0x20u8, 0x77u8, 0x6fu8, 0x72u8, 0x6cu8, 0x64u8, 0x20u8, 0x23u8]
        + spec_decimal_digits(n) + seq![0x21u8]
}

/// Canonical text-string encoding: the length in its shortest header form
/// (one-byte immediate below 24, else behind `0x78`) followed by the bytes.
pub open spec fn spec_encode_text(s: Seq<u8>) -> Seq<u8> {
    if s.len() < 24 {
        seq![(0x60 + s.len()) as u8] + s
    } else {
        seq![0x78u8, s.len() as u8] + s
    }
}

/// Powers of ten, for bounding digit counts.
spec fn pow10(k: nat) -> int
    decreases k,
{
    if k == 0 {
        1
    } else {
        10 * pow10((k - 1) as nat)
    }
}

proof fn lemma_pow10_pos(k: nat)
    ensures
        pow10(k) >= 1,
    decreases k,
{
    if k > 0 {
        lemma_pow10_pos((k - 1) as nat);
    }
}

/// A value below the `k`-th power of ten has at most `k` decimal digits.
proof fn lemma_digits_len_below(n: u64, k: nat)
    requires
        k >= 1,
        n < pow10(k),
    ensures
        spec_decimal_digits(n).len() <= k,
    decreases k,
{
    if n >= 10 {
        lemma_pow10_pos((k - 1) as nat);
        assert(n / 10 < pow10((k - 1) as nat)) by (nonlinear_arith)
            requires
                n < 10 * pow10((k - 1) as nat),
                pow10((k - 1) as nat) >= 1,
        ;
        lemma_digits_len_below(n / 10, (k - 1) as nat);
    }
}

/// The greeting text is short: at most 13 prefix bytes, 20 digits and the
/// final mark — so its length always fits the headers `spec_encode_text`
/// uses, and the text encoding never loses length information.
pub proof fn lemma_greeting_fits(n: u64)
    ensures
        spec_greeting(n).len() <= 34,
{
    assert(pow10(20) == 100000000000000000000) by {
        reveal_with_fuel(pow10, 21);
    }
    lemma_digits_len_below(n, 20);
}

/// The counter in decimal, most significant digit first.
pub fn decimal_digits(n: u64) -> (r: Vec<u8>)
    ensures
        r@ == spec_decimal_digits(n),
    decreases n,
{
    if n < 10 {
        let mut r: Vec<u8> = Vec::new();
        r.push(0x30 + n as u8);
        proof {
            assert(r@ =~= spec_decimal_digits(n));
        }
        r
    } else {
        let mut r = decimal_digits(n / 10);
        r.push(0x30 + (n % 10) as u8);
        proof {
            assert(r@ =~= spec_decimal_digits(n));
        }
        r
    }
}

/// The encoded return payload of the business method: the greeting for the
/// post-increment counter as a canonical text string.
pub fn greeting_payload(n: u64) -> (r: Vec<u8>)
    ensures
        r@ == spec_encode_text(spec_greeting(n)),
{
    let mut msg: Vec<u8> = Vec::new();
    msg.push(0x48);
    msg.push(0x65);
    msg.push(0x6c);
    msg.push(0x6c);
    msg.push(0x6f);
    msg.push(0x20);
    msg.push(0x77);
    msg.push(0x6f);
    msg.push(0x72);
    msg.push(0x6c);
    msg.push(0x64);
    msg.push(0x20);
    msg.push(0x23);
    let mut digits = decimal_digits(n);
    msg.append(&mut digits);
    msg.push(0x21);
    proof {
        assert(msg@ =~= spec_greeting(n));
    }
    let mut r: Vec<u8> = Vec::new();
    let len = msg.len();
    if len < 24 {
        r.push(0x60 + len as u8);
    } else {
        r.push(0x78);
        r.push(#[verifier::truncate] (len as u8));
    }
    r.append(&mut msg);
    proof {
        assert(r@ =~= spec_encode_text(spec_greeting(n)));
    }
    r
}

} // verus!
