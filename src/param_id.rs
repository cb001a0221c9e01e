//! The host-compatible string hash that turns a parameter name into a
//! stable 32-bit identifier.
use vstd::arithmetic::div_mod::{lemma_add_mod_noop, lemma_mod_mod, lemma_mul_mod_noop_left};
use vstd::arithmetic::power::pow;
use vstd::prelude::*;
use vstd::string::StringSliceAdditionalSpecFns;
use vstd::utf8::encode_utf8;

verus! {

/// Multiplier of the polynomial (Rabin fingerprint) hash.
pub const HASH_MULTIPLIER: u32 = 31;

/// Mask that clears the sign bit of an identifier.
pub const SIGN_BIT_CLEAR_MASK: u32 = 0x7FFF_FFFF;

/// The accumulator after folding `bytes` left to right with
/// `acc = acc * 31 + byte`, all modulo 2^32.
pub open spec fn rabin_acc(bytes: Seq<u8>) -> u32
    decreases bytes.len(),
{
    if bytes.len() == 0 {
        0
    } else {
        ((rabin_acc(bytes.drop_last()) * 31 + bytes.last()) % 0x1_0000_0000) as u32
    }
}

/// The identifier of a byte string: its accumulator with bit 31 cleared.
pub open spec fn param_id_of_bytes(bytes: Seq<u8>) -> u32 {
    rabin_acc(bytes) & 0x7FFF_FFFF
}

/// The identifier of a string: that of its UTF-8 encoding.
pub open spec fn param_id_of(s: Seq<char>) -> u32 {
    param_id_of_bytes(encode_utf8(s))
}

/// Hashes a parameter name into the identifier that the host computes for it.
pub fn hash_param_id(id: &str) -> (r: u32)
    ensures
        r == param_id_of(id@),
        r & 0x8000_0000 == 0,
{
    let bytes: &[u8] = id.as_bytes();
    let mut hash: u32 = 0;
    let mut i: usize = 0;
    while i < bytes.len()
        invariant
            bytes@ == encode_utf8(id@),
            i <= bytes@.len(),
            hash == rabin_acc(bytes@.subrange(0, i as int)),
        decreases bytes@.len() - i,
    {
        assert(bytes@.subrange(0, i + 1).drop_last() == bytes@.subrange(0, i as int));
        hash = hash.wrapping_mul(HASH_MULTIPLIER).wrapping_add(bytes[i] as u32);
        i = i + 1;
    }
    assert(bytes@.subrange(0, bytes@.len() as int) == bytes@);
    let r = hash & SIGN_BIT_CLEAR_MASK;
    proof {
        lemma_param_id_sign_bit_clear(bytes@);
    }
    r
}

/// The identifier never has its sign bit set, whatever the input.
pub proof fn lemma_param_id_sign_bit_clear(bytes: Seq<u8>)
    ensures
        param_id_of_bytes(bytes) & 0x8000_0000 == 0,
{
    let a = rabin_acc(bytes);
    assert(a & 0x7FFF_FFFF & 0x8000_0000 == 0) by (bit_vector);
}

/// Equal strings get equal identifiers: the identifier depends on the
/// characters alone.
pub proof fn lemma_param_id_deterministic(s1: Seq<char>, s2: Seq<char>)
    requires
        s1 == s2,
    ensures
        param_id_of(s1) == param_id_of(s2),
{
}

/// The polynomial `bytes[0] * 31^(n-1) + ... + bytes[n-1] * 31^0` over the
/// integers, with no wraparound.
pub open spec fn poly_hash(bytes: Seq<u8>) -> int
    decreases bytes.len(),
{
    if bytes.len() == 0 {
        0
    } else {
        bytes[0] * pow(31, (bytes.len() - 1) as nat) + poly_hash(bytes.drop_first())
    }
}

/// Appending a byte multiplies the polynomial by 31 and adds the byte.
proof fn lemma_poly_hash_push(bytes: Seq<u8>)
    requires
        bytes.len() >= 1,
    ensures
        poly_hash(bytes) == 31 * poly_hash(bytes.drop_last()) + bytes.last(),
    decreases bytes.len(),
{
    reveal(pow);
    let n = bytes.len();
    if n == 1 {
        assert(bytes.drop_first().len() == 0);
        assert(bytes.drop_last().len() == 0);
        assert(pow(31, 0) == 1);
        assert(poly_hash(bytes) == bytes[0] * pow(31, 0) + poly_hash(bytes.drop_first()));
        assert(poly_hash(bytes.drop_last()) == 0);
    } else {
        let t = bytes.drop_first();
        lemma_poly_hash_push(t);
        let front = bytes.drop_last();
        assert(front.drop_first() =~= t.drop_last());
        assert(front[0] == bytes[0]);
        assert(t.last() == bytes.last());
        let p = pow(31, (n - 2) as nat);
        assert(pow(31, (n - 1) as nat) == 31 * p);
        let b0: int = bytes[0] as int;
        let rest = poly_hash(t.drop_last());
        assert(poly_hash(front) == b0 * p + rest);
        assert(poly_hash(t) == 31 * rest + bytes.last());
        assert(poly_hash(bytes) == b0 * pow(31, (n - 1) as nat) + poly_hash(t));
        assert(31 * (b0 * p + rest) == b0 * (31 * p) + 31 * rest) by (nonlinear_arith);
    }
}

/// The accumulator is the polynomial hash modulo 2^32.
pub proof fn lemma_rabin_acc_closed_form(bytes: Seq<u8>)
    ensures
        rabin_acc(bytes) == poly_hash(bytes) % 0x1_0000_0000,
    decreases bytes.len(),
{
    if bytes.len() > 0 {
        let front = bytes.drop_last();
        lemma_rabin_acc_closed_form(front);
        lemma_poly_hash_push(bytes);
        let m: int = 0x1_0000_0000;
        let h = poly_hash(front);
        let b: int = bytes.last() as int;
        lemma_mul_mod_noop_left(h, 31, m);
        lemma_add_mod_noop((h % m) * 31, b, m);
        lemma_add_mod_noop(h * 31, b, m);
    }
}

/// The identifier is the polynomial hash of the bytes modulo 2^31.
pub proof fn lemma_param_id_closed_form(bytes: Seq<u8>)
    ensures
        param_id_of_bytes(bytes) == poly_hash(bytes) % 0x8000_0000,
{
    lemma_rabin_acc_closed_form(bytes);
    let a = rabin_acc(bytes);
    assert(a & 0x7FFF_FFFF == a % 0x8000_0000) by (bit_vector);
    lemma_mod_mod(poly_hash(bytes), 0x8000_0000, 2);
}

} // verus!
