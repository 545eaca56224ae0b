use vstd::prelude::*;
use vstd::arithmetic::div_mod::{lemma_fundamental_div_mod, lemma_fundamental_div_mod_converse};
use vstd::arithmetic::power2::{pow2, lemma_pow2_adds, lemma2_to64, lemma2_to64_rest};
use sha2::Digest;

verus! {

/// The remainder of `x` divided by `y` that takes the sign of `y`
/// (the remainder of the division rounded towards negative infinity).
pub open spec fn floor_mod_spec(x: int, y: int) -> int
    recommends
        y != 0,
{
    if y > 0 {
        x % y
    } else {
        -((-x) % (-y))
    }
}

proof fn lemma_mod_of_negation(x: int, d: int)
    requires
        d > 0,
    ensures
        (-x) % d == (if x % d == 0 { 0 } else { d - x % d }),
{
    lemma_fundamental_div_mod(x, d);
    let (q, a) = (x / d, x % d);
    assert(-x == (-q) * d - a) by (nonlinear_arith)
        requires
            x == d * q + a,
    ;
    assert((-q) * d - a == (-q - 1) * d + (d - a)) by (nonlinear_arith);
    if a == 0 {
        lemma_fundamental_div_mod_converse(-x, d, -q, 0);
    } else {
        lemma_fundamental_div_mod_converse(-x, d, -q - 1, d - a);
    }
}

/// Floor modulo: the result is zero or has the sign of `y`, and its magnitude
/// is below that of `y`.
pub fn floor_mod(x: i64, y: i64) -> (r: i64)
    requires
        y != 0,
        !(x == i64::MIN && y == -1),
    ensures
        r == floor_mod_spec(x as int, y as int),
        y > 0 ==> 0 <= r < y,
        y < 0 ==> y < r <= 0,
{
    let mut modulo: i64 = match x.checked_rem(y) {
        Some(m) => m,
        None => 0,
    };
    assert((x ^ y) < 0 <==> ((x < 0) != (y < 0))) by (bit_vector);
    proof {
        let (xi, yi) = (x as int, y as int);
        if xi == 0 {
            lemma_fundamental_div_mod_converse(0, if yi > 0 { yi } else { -yi }, 0, 0);
        } else if yi > 0 && xi < 0 {
            assert(modulo == -((-xi) % yi));
            lemma_mod_of_negation(-xi, yi);
        } else if yi < 0 && xi > 0 {
            assert(modulo == xi % (-yi));
            lemma_mod_of_negation(xi, -yi);
        } else if yi < 0 {
            assert(modulo == -((-xi) % (-yi)));
        } else {
            assert(modulo == xi % yi);
        }
    }
    if (x ^ y) < 0 && modulo != 0 {
        modulo += y;
    }
    modulo
}

/// The direction of gradient `i` of the sixteen-entry table, whose last four
/// entries repeat earlier ones.
pub open spec fn gradient_spec(i: int) -> (int, int, int) {
    if i == 0 { (1, 1, 0) }
    else if i == 1 { (-1, 1, 0) }
    else if i == 2 { (1, -1, 0) }
    else if i == 3 { (-1, -1, 0) }
    else if i == 4 { (1, 0, 1) }
    else if i == 5 { (-1, 0, 1) }
    else if i == 6 { (1, 0, -1) }
    else if i == 7 { (-1, 0, -1) }
    else if i == 8 { (0, 1, 1) }
    else if i == 9 { (0, -1, 1) }
    else if i == 10 { (0, 1, -1) }
    else if i == 11 { (0, -1, -1) }
    else if i == 12 { (1, 1, 0) }
    else if i == 13 { (0, -1, 1) }
    else if i == 14 { (-1, 1, 0) }
    else { (0, -1, -1) }
}

/// The gradient direction selected by the low four bits of `hash`.
pub fn gradient(hash: u8) -> (r: (i32, i32, i32))
    ensures
        (r.0 as int, r.1 as int, r.2 as int) == gradient_spec((hash % 16) as int),
{
    match hash % 16 {
        0 => (1, 1, 0),
        1 => (-1, 1, 0),
        2 => (1, -1, 0),
        3 => (-1, -1, 0),
        4 => (1, 0, 1),
        5 => (-1, 0, 1),
        6 => (1, 0, -1),
        7 => (-1, 0, -1),
        8 => (0, 1, 1),
        9 => (0, -1, 1),
        10 => (0, 1, -1),
        11 => (0, -1, -1),
        12 => (1, 1, 0),
        13 => (0, -1, 1),
        14 => (-1, 1, 0),
        _ => (0, -1, -1),
    }
}

/// The SHA-256 digest of a message.
pub uninterp spec fn sha256_of(data: Seq<u8>) -> Seq<u8>;

/// Relies on `sha2::Sha256::digest`: the 32-byte SHA-256 digest of `data`.
#[verifier::external_body]
fn sha256(data: &[u8]) -> (r: Vec<u8>)
    ensures
        r@ == sha256_of(data@),
        r@.len() == 32,
{
    sha2::Sha256::digest(data).to_vec()
}

/// The eight bytes of `v`, least significant first.
pub open spec fn le_bytes(v: u64) -> Seq<u8> {
    Seq::new(8, |i: int| ((v >> (8 * i) as u64) & 255) as u8)
}

/// The number whose little-endian base-256 digits are `b`.
pub open spec fn le_value(b: Seq<u8>) -> nat
    decreases b.len(),
{
    if b.len() == 0 {
        0
    } else {
        b[0] as nat + 256 * le_value(b.drop_first())
    }
}

/// The number whose little-endian bytes are the first eight of `digest`.
pub fn u64_from_le_prefix(digest: &[u8]) -> (r: u64)
    requires
        digest@.len() >= 8,
    ensures
        r == le_value(digest@.take(8)),
{
    let mut r: u64 = 0;
    let mut i: usize = 8;
    proof {
        lemma2_to64();
        lemma2_to64_rest();
    }
    while i > 0
        invariant
            i <= 8,
            digest@.len() >= 8,
            r == le_value(digest@.subrange(i as int, 8)),
            r < pow2((8 * (8 - i)) as nat),
            pow2(8) == 256,
            pow2(64) == 0x1_0000_0000_0000_0000,
        decreases i,
    {
        let ghost tail = digest@.subrange(i as int, 8);
        let ghost ext = digest@.subrange(i - 1, 8);
        assert(ext.drop_first() =~= tail);
        proof {
            lemma_pow2_adds((8 * (8 - i)) as nat, 8);
            assert(8 * (8 - i) + 8 <= 64);
            vstd::arithmetic::power2::lemma_pow2_strictly_increases((8 * (8 - i) + 8) as nat, 65);
            if 8 * (8 - i) + 8 < 64 {
                vstd::arithmetic::power2::lemma_pow2_strictly_increases((8 * (8 - i) + 8) as nat, 64);
            }
            assert(r * 256 + digest@[i - 1] < pow2((8 * (8 - i)) as nat) * 256) by (nonlinear_arith)
                requires
                    r < pow2((8 * (8 - i)) as nat),
                    digest@[i - 1] < 256,
            ;
        }
        r = r * 256 + digest[i - 1] as u64;
        i = i - 1;
    }
    assert(digest@.subrange(0, 8) =~= digest@.take(8));
    r
}

/// Hashes a 64-bit seed: SHA-256 of its eight little-endian bytes, of which
/// the first eight bytes of the digest, read little-endian, are the result.
pub fn sha2long(seed: u64) -> (r: u64)
    ensures
        r == le_value(sha256_of(le_bytes(seed)).take(8)),
{
    let mut bytes: Vec<u8> = Vec::new();
    let mut rest: u64 = seed;
    let mut i: u64 = 0;
    assert(seed >> 0u64 == seed) by (bit_vector);
    while i < 8
        invariant
            i <= 8,
            rest == seed >> ((8 * i) as u64),
            bytes@ == le_bytes(seed).take(i as int),
        decreases 8 - i,
    {
        bytes.push((rest & 255) as u8);
        assert(bytes@ =~= le_bytes(seed).take(i as int + 1));
        assert((seed >> ((8 * i) as u64)) >> 8u64 == seed >> ((8 * (i + 1)) as u64)) by (bit_vector)
            requires
                i < 8,
        ;
        rest = rest >> 8;
        i = i + 1;
    }
    assert(bytes@ =~= le_bytes(seed));
    let digest = sha256(bytes.as_slice());
    u64_from_le_prefix(digest.as_slice())
}

} // verus!
