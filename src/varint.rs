//! LEB128 variable-length integers, as used by the protobuf wire format.
use vstd::arithmetic::power2::{lemma2_to64, lemma_pow2_adds, pow2};
use vstd::prelude::*;

verus! {

/// The bytes of `v` in LEB128: seven bits per byte, least significant group
/// first, the high bit set on every byte but the last.
pub open spec fn varint_bytes(v: nat) -> Seq<u8>
    decreases v,
{
    if v < 128 {
        seq![v as u8]
    } else {
        seq![((v % 128) + 128) as u8] + varint_bytes(v / 128)
    }
}

/// The varint at the front of `s`, read as if `d` of its bytes had already
/// been consumed: its value and its length in bytes. A varint has at most ten
/// bytes, and the tenth may only carry the lowest bit, so that the value fits
/// in 64 bits.
pub open spec fn varint_value(s: Seq<u8>, d: nat) -> Option<(nat, nat)>
    decreases 10 - d,
{
    if d >= 10 || s.len() == 0 {
        None
    } else if s[0] < 128 {
        if d == 9 && s[0] >= 2 {
            None
        } else {
            Some((s[0] as nat, 1nat))
        }
    } else {
        match varint_value(s.drop_first(), d + 1) {
            Some((v, n)) => Some(((s[0] - 128) as nat + 128 * v, n + 1)),
            None => None,
        }
    }
}

/// The varint that starts at `pos` in `s`.
pub open spec fn varint_at(s: Seq<u8>, pos: int) -> Option<(nat, nat)> {
    varint_value(s.subrange(pos, s.len() as int), 0)
}

/// Relies on prost::encoding::encode_varint: appends the LEB128 bytes of `v`.
#[verifier::external_body]
pub(crate) fn write_varint(v: u64, buf: &mut Vec<u8>)
    ensures
        final(buf)@ == old(buf)@ + varint_bytes(v as nat),
{
    prost::encoding::encode_varint(v, buf)
}

/// Relies on prost::encoding::decode_varint: reads one varint from the front
/// of `b[pos..]`, and gives its value and the number of bytes left after it.
#[verifier::external_body]
pub(crate) fn read_varint(b: &[u8], pos: usize) -> (r: Option<(u64, usize)>)
    requires
        pos <= b@.len(),
    ensures
        match varint_at(b@, pos as int) {
            Some((v, n)) => r == Some((v as u64, (b@.len() - pos - n) as usize)),
            None => r is None,
        },
{
    let mut rest = &b[pos..];
    match prost::encoding::decode_varint(&mut rest) {
        Ok(v) => Some((v, rest.len())),
        Err(_) => None,
    }
}

/// A varint is at least one byte long and no longer than its input.
pub proof fn lemma_varint_len(s: Seq<u8>, d: nat)
    ensures
        varint_value(s, d) matches Some((v, n)) ==> 1 <= n <= s.len(),
    decreases 10 - d,
{
    if d < 10 && s.len() > 0 && s[0] >= 128 {
        lemma_varint_len(s.drop_first(), d + 1);
    }
}

/// The value read from depth `d` fits in the bits that are left.
pub proof fn lemma_varint_bound(s: Seq<u8>, d: nat)
    requires
        d <= 9,
    ensures
        varint_value(s, d) matches Some((v, n)) ==> v < pow2((64 - 7 * d) as nat),
    decreases 10 - d,
{
    if s.len() > 0 {
        lemma2_to64();
        if s[0] >= 128 && d < 9 {
            lemma_varint_bound(s.drop_first(), d + 1);
            let k = (64 - 7 * (d + 1)) as nat;
            lemma_pow2_adds(k, 7);
            assert(k + 7 == (64 - 7 * d) as nat);
            if let Some((w, m)) = varint_value(s.drop_first(), d + 1) {
                let p = pow2(k);
                let b = (s[0] - 128) as nat;
                assert(b + 128 * w < p * 128) by (nonlinear_arith)
                    requires w < p, b < 128;
            }
        } else if s[0] < 128 && d < 9 {
            lemma_pow2_adds((64 - 7 * d - 7) as nat, 7);
            vstd::arithmetic::power2::lemma_pow2_pos((64 - 7 * d - 7) as nat);
        }
    }
}

/// Reading back the bytes of `v`, whatever follows them, gives `v` and the
/// length of its encoding.
pub proof fn lemma_varint_round_trip(v: nat, rest: Seq<u8>, d: nat)
    requires
        d <= 9,
        v < pow2((64 - 7 * d) as nat),
    ensures
        varint_value(varint_bytes(v) + rest, d) == Some((v, varint_bytes(v).len())),
    decreases v,
{
    lemma2_to64();
    let s = varint_bytes(v) + rest;
    if v < 128 {
        if d == 9 {
            assert(v < 2);
        }
        assert(s[0] == v as u8);
    } else {
        if d == 9 {
            assert(false);
        }
        let k = (64 - 7 * (d + 1)) as nat;
        lemma_pow2_adds(k, 7);
        assert(k + 7 == (64 - 7 * d) as nat);
        let p = pow2(k);
        assert(v / 128 < p) by (nonlinear_arith)
            requires v < p * 128;
        lemma_varint_round_trip(v / 128, rest, d + 1);
        assert(s.drop_first() =~= varint_bytes(v / 128) + rest);
        assert(s[0] == ((v % 128) + 128) as u8);
    }
}

/// The bytes of a 64-bit value, read back at `pos`, give the value again.
pub proof fn lemma_varint_at(v: u64, s: Seq<u8>, pos: int, rest: Seq<u8>)
    requires
        0 <= pos <= s.len(),
        s.subrange(pos, s.len() as int) == varint_bytes(v as nat) + rest,
    ensures
        varint_at(s, pos) == Some((v as nat, varint_bytes(v as nat).len())),
{
    lemma2_to64();
    lemma_varint_round_trip(v as nat, rest, 0);
}

} // verus!
