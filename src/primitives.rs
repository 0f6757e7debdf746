use vstd::prelude::*;

use crate::error::DecoderError;

verus! {

/// `2^n` for a prefix of `n` bits, `n` from 1 to 8.
pub open spec fn prefix_modulus(n: nat) -> nat {
    if n == 1 {
        2
    } else if n == 2 {
        4
    } else if n == 3 {
        8
    } else if n == 4 {
        16
    } else if n == 5 {
        32
    } else if n == 6 {
        64
    } else if n == 7 {
        128
    } else {
        256
    }
}

pub open spec fn pow128(k: nat) -> nat
    decreases k,
{
    if k == 0 {
        1
    } else {
        128 * pow128((k - 1) as nat)
    }
}

/// The continuation octets of a prefix integer, read from `pos`, where `acc`
/// is the value so far and `k` the number of continuation octets already
/// read: each adds its low seven bits at weight `128^k`, a clear high bit
/// ends the integer, and a fourth continuation octet must end it.
pub open spec fn int_tail(b: Seq<u8>, pos: int, acc: nat, k: nat) -> Result<(nat, int), DecoderError>
    decreases b.len() - pos,
{
    if pos < 0 || pos >= b.len() {
        Err(DecoderError::IntegerUnderflow)
    } else {
        let c = b[pos];
        let next = acc + (c % 128) as nat * pow128(k);
        if c < 128 {
            Ok((next, pos + 1))
        } else if k >= 3 {
            Err(DecoderError::IntegerOverflow)
        } else {
            int_tail(b, pos + 1, next, k + 1)
        }
    }
}

/// The integer with an `n`-bit prefix that starts at `pos` of `b`, with the
/// position just past it (RFC 7541, section 5.1).
pub open spec fn decode_int_spec(b: Seq<u8>, pos: int, n: nat) -> Result<(nat, int), DecoderError> {
    if n < 1 || n > 8 {
        Err(DecoderError::InvalidIntegerPrefix)
    } else if pos < 0 || pos >= b.len() {
        Err(DecoderError::IntegerUnderflow)
    } else {
        let v = b[pos] as nat % prefix_modulus(n);
        if v + 1 < prefix_modulus(n) {
            Ok((v, pos + 1))
        } else {
            int_tail(b, pos + 1, v, 0)
        }
    }
}

/// What the Huffman decoder of RFC 7541, Appendix B, makes of the bytes:
/// `None` where they are no valid code.
pub uninterp spec fn huffman_decoded(s: Seq<u8>) -> Option<Seq<u8>>;

/// The string literal that starts at `pos` of `b`, with the position just
/// past it (RFC 7541, section 5.2).
pub open spec fn decode_string_spec(b: Seq<u8>, pos: int) -> Result<(Seq<u8>, int), DecoderError> {
    match decode_int_spec(b, pos, 7) {
        Err(e) => Err(e),
        Ok((len, p)) => if len > b.len() - p {
            Err(DecoderError::StringUnderflow)
        } else {
            let raw = b.subrange(p, p + len);
            if b[pos] >= 128 {
                match huffman_decoded(raw) {
                    Some(s) => Ok((s, p + len)),
                    None => Err(DecoderError::InvalidHuffmanCode),
                }
            } else {
                Ok((raw, p + len))
            }
        },
    }
}

pub open spec fn int_result(r: Result<(usize, usize), DecoderError>) -> Result<(nat, int), DecoderError> {
    match r {
        Ok((v, p)) => Ok((v as nat, p as int)),
        Err(e) => Err(e),
    }
}

pub open spec fn string_result(r: Result<(Vec<u8>, usize), DecoderError>) -> Result<
    (Seq<u8>, int),
    DecoderError,
> {
    match r {
        Ok((v, p)) => Ok((v@, p as int)),
        Err(e) => Err(e),
    }
}

/// Relies on hpack::huffman::HuffmanDecoder::decode: the decoded bytes, or an
/// error where the input is no valid code; the outcome depends on the input
/// alone.
#[verifier::external_body]
fn huffman_decode(b: &[u8]) -> (r: Option<Vec<u8>>)
    ensures
        match r {
            Some(v) => huffman_decoded(b@) == Some(v@),
            None => huffman_decoded(b@) is None,
        },
{
    hpack::huffman::HuffmanDecoder::new().decode(b).ok()
}

/// Decodes the integer with a `prefix_size`-bit prefix that starts at `pos`;
/// returns it with the position just past it.
pub fn decode_int(buf: &[u8], pos: usize, prefix_size: u8) -> (r: Result<(usize, usize), DecoderError>)
    ensures
        int_result(r) == decode_int_spec(buf@, pos as int, prefix_size as nat),
        r is Ok ==> pos < r->Ok_0.1 <= buf.len(),
{
    if prefix_size < 1 || prefix_size > 8 {
        return Err(DecoderError::InvalidIntegerPrefix);
    }
    if pos >= buf.len() {
        return Err(DecoderError::IntegerUnderflow);
    }
    let modulus: u16 = match prefix_size {
        1 => 2,
        2 => 4,
        3 => 8,
        4 => 16,
        5 => 32,
        6 => 64,
        7 => 128,
        _ => 256,
    };
    let first: u16 = buf[pos] as u16 % modulus;
    let mut ret: usize = first as usize;
    if first + 1 < modulus {
        return Ok((ret, pos + 1));
    }
    let mut p: usize = pos + 1;
    let mut k: usize = 0;
    let mut mult: usize = 1;
    while p < buf.len()
        invariant
            pos < p <= buf.len(),
            k <= 3,
            mult == pow128(k as nat),
            k == 0 ==> mult == 1,
            k == 1 ==> mult == 128,
            k == 2 ==> mult == 16384,
            k == 3 ==> mult == 2097152,
            ret < 256 * mult,
            decode_int_spec(buf@, pos as int, prefix_size as nat) == int_tail(
                buf@,
                p as int,
                ret as nat,
                k as nat,
            ),
        decreases buf.len() - p,
    {
        let c = buf[p];
        let low: usize = (c % 128) as usize;
        assert(low * mult <= 127 * mult) by (nonlinear_arith)
            requires
                low <= 127,
        ;
        ret = ret + low * mult;
        p = p + 1;
        if c < 128 {
            return Ok((ret, p));
        }
        if k >= 3 {
            return Err(DecoderError::IntegerOverflow);
        }
        k = k + 1;
        mult = mult * 128;
    }
    Err(DecoderError::IntegerUnderflow)
}

/// The `n` bytes that start at `pos`, in a fresh vector.
fn take(buf: &[u8], pos: usize, n: usize) -> (r: Vec<u8>)
    requires
        pos + n <= buf.len(),
    ensures
        r@ == buf@.subrange(pos as int, pos + n),
{
    let mut r: Vec<u8> = Vec::new();
    let mut i: usize = 0;
    while i < n
        invariant
            pos + n <= buf.len(),
            i <= n,
            r@ == buf@.subrange(pos as int, pos + i),
        decreases n - i,
    {
        r.push(buf[pos + i]);
        i = i + 1;
        assert(r@ =~= buf@.subrange(pos as int, pos + i));
    }
    r
}

/// Decodes the string literal that starts at `pos`, Huffman-coded where the
/// high bit of its first byte is set; returns it with the position just past
/// it.
pub fn decode_string(buf: &[u8], pos: usize) -> (r: Result<(Vec<u8>, usize), DecoderError>)
    ensures
        string_result(r) == decode_string_spec(buf@, pos as int),
        r is Ok ==> pos < r->Ok_0.1 <= buf.len(),
{
    let (len, p) = match decode_int(buf, pos, 7) {
        Ok(x) => x,
        Err(e) => {
            return Err(e);
        },
    };
    let huff = buf[pos] >= 128;
    if len > buf.len() - p {
        return Err(DecoderError::StringUnderflow);
    }
    let raw = take(buf, p, len);
    if huff {
        match huffman_decode(raw.as_slice()) {
            Some(s) => Ok((s, p + len)),
            None => Err(DecoderError::InvalidHuffmanCode),
        }
    } else {
        Ok((raw, p + len))
    }
}

/// The continuation octets that encode `x`: seven bits each, lowest first,
/// the high bit set on all but the last.
pub open spec fn encode_tail(x: nat) -> Seq<u8>
    decreases x,
{
    if x < 128 {
        seq![x as u8]
    } else {
        seq![(x % 128 + 128) as u8] + encode_tail(x / 128)
    }
}

/// The encoding of `v` as an integer with an `n`-bit prefix, the other bits
/// of the prefix byte clear (RFC 7541, section 5.1).
pub open spec fn encode_int(v: nat, n: nat) -> Seq<u8> {
    let mask = (prefix_modulus(n) - 1) as nat;
    if v < mask {
        seq![v as u8]
    } else {
        seq![mask as u8] + encode_tail((v - mask) as nat)
    }
}

proof fn lemma_tail_round_trip(pre: Seq<u8>, x: nat, acc: nat, k: nat)
    requires
        k <= 3,
        x < pow128((4 - k) as nat),
    ensures
        int_tail(pre + encode_tail(x), pre.len() as int, acc, k) == Ok::<(nat, int), DecoderError>(
            (acc + x * pow128(k), (pre + encode_tail(x)).len() as int),
        ),
    decreases x,
{
    let b = pre + encode_tail(x);
    let pos = pre.len() as int;
    if x < 128 {
        assert(b[pos] == x as u8);
    } else {
        let c = (x % 128 + 128) as u8;
        assert(b[pos] == c);
        assert(k < 3) by {
            if k == 3 {
                assert(pow128(1) == 128 * pow128(0));
            }
        }
        let p = pow128(k);
        let q = pow128((3 - k) as nat);
        assert(pow128((4 - k) as nat) == 128 * q);
        assert(x / 128 < q) by (nonlinear_arith)
            requires
                x < 128 * q,
        ;
        let pre2 = pre + seq![c];
        assert(b =~= pre2 + encode_tail(x / 128));
        assert((c % 128) as nat == x % 128);
        let next = acc + (x % 128) * p;
        assert(pow128(k + 1) == 128 * p);
        lemma_tail_round_trip(pre2, x / 128, next, k + 1);
        assert(next + (x / 128) * (128 * p) == acc + x * p) by (nonlinear_arith)
            requires
                next == acc + (x % 128) * p,
        ;
    }
}

/// Encoding an integer below `2^28` with any prefix width from 1 to 8 and
/// decoding it gives it back, with every byte consumed.
pub proof fn lemma_int_round_trip(v: nat, n: nat)
    requires
        1 <= n <= 8,
        v < 268435456,
    ensures
        decode_int_spec(encode_int(v, n), 0, n) == Ok::<(nat, int), DecoderError>(
            (v, encode_int(v, n).len() as int),
        ),
{
    let m = prefix_modulus(n);
    let mask = (m - 1) as nat;
    let b = encode_int(v, n);
    if v < mask {
        assert(b[0] as nat == v);
        assert(v % m == v) by (nonlinear_arith)
            requires
                v < m,
        ;
    } else {
        assert(b[0] as nat % m == mask);
        reveal_with_fuel(pow128, 5);
        assert(pow128(4) == 268435456);
        let pre = seq![mask as u8];
        assert(b == pre + encode_tail((v - mask) as nat));
        lemma_tail_round_trip(pre, (v - mask) as nat, mask, 0);
        assert(mask + (v - mask) as nat * pow128(0) == v);
    }
}

/// A prefix byte whose prefix bits are all set, followed by a single zero
/// octet, decodes to the prefix mask.
pub proof fn lemma_int_mask_then_zero(n: nat)
    requires
        1 <= n <= 8,
    ensures
        decode_int_spec(seq![(prefix_modulus(n) - 1) as u8, 0u8], 0, n) == Ok::<
            (nat, int),
            DecoderError,
        >(((prefix_modulus(n) - 1) as nat, 2)),
{
    let b = seq![(prefix_modulus(n) - 1) as u8, 0u8];
    assert(b[0] as nat % prefix_modulus(n) == (prefix_modulus(n) - 1) as nat);
    assert(b[1] == 0u8);
}

/// An integer takes at most five octets: one whose fifth octet ends it
/// decodes, and one that would need a sixth fails with an overflow.
pub proof fn lemma_int_five_octets(b: Seq<u8>, n: nat)
    requires
        1 <= n <= 8,
        b.len() >= 5,
        b[0] as nat % prefix_modulus(n) + 1 == prefix_modulus(n),
        b[1] >= 128,
        b[2] >= 128,
        b[3] >= 128,
    ensures
        b[4] < 128 ==> decode_int_spec(b, 0, n) is Ok && decode_int_spec(b, 0, n)->Ok_0.1 == 5,
        b[4] >= 128 ==> decode_int_spec(b, 0, n) == Err::<(nat, int), DecoderError>(
            DecoderError::IntegerOverflow,
        ),
{
    reveal_with_fuel(int_tail, 5);
}

} // verus!
