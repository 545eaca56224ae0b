use vstd::prelude::*;
use vstd::arithmetic::power2::{pow2, lemma2_to64, lemma2_to64_rest, lemma_pow2_adds};
use java_random::{Random, LCG};

verus! {

/// The 48-bit linear congruential generator of `java.util.Random`.
#[verifier::external_type_specification]
#[verifier::external_body]
pub struct ExRandom(Random);

/// A composed generator transition: a multiplier and an addend.
#[verifier::external_type_specification]
#[verifier::external_body]
pub struct ExLcg(LCG);

/// The multiplier of the Java generator.
pub const JAVA_MULTIPLIER: u64 = 0x5DEECE66D;

/// The addend of the Java generator.
pub const JAVA_ADDEND: u64 = 0xB;

/// One step of the 48-bit Java generator.
pub open spec fn lcg_step(s: nat) -> nat {
    ((s * JAVA_MULTIPLIER + JAVA_ADDEND) as nat % pow2(48)) as nat
}

/// The state `k` steps after `s`.
pub open spec fn lcg_skip(s: nat, k: nat) -> nat
    decreases k,
{
    if k == 0 {
        s
    } else {
        lcg_step(lcg_skip(s, (k - 1) as nat))
    }
}

/// The top `bits` bits of a 48-bit state.
pub open spec fn top_bits(s: nat, bits: nat) -> nat {
    s / pow2((48 - bits) as nat)
}

/// The state that seeding with `seed` gives: the seed scrambled with the
/// multiplier, cut to 48 bits.
pub open spec fn scrambled(seed: u64) -> nat {
    ((seed ^ JAVA_MULTIPLIER) as nat) % pow2(48)
}

/// `n` is a power of two.
pub open spec fn is_power_of_two(n: int) -> bool {
    exists|e: nat| n == pow2(e)
}

/// A bounded draw of `0..n` keeps the 31 top bits of state `s`: they do not
/// fall in the last, incomplete run of `n` values.
pub open spec fn accepts(s: nat, n: int) -> bool {
    let b = top_bits(s, 31) as int;
    b - b % n + (n - 1) < pow2(31)
}

/// Step `k` is the first, counting from 1, whose top bits a bounded draw of
/// `0..n` from state `s` keeps.
pub open spec fn first_accepted(s: nat, n: int, k: nat) -> bool {
    &&& k >= 1
    &&& accepts(lcg_skip(s, k), n)
    &&& forall|j: nat| 1 <= j < k ==> !accepts(#[trigger] lcg_skip(s, j), n)
}

/// The value and the state after a bounded draw of `0..n` from state `s`:
/// for a power of two, the top bits of one step scaled to `n`; otherwise the
/// top 31 bits modulo `n` of the first step whose bits are kept.
pub open spec fn bounded_draw(s: nat, n: int) -> (int, nat) {
    if is_power_of_two(n) {
        ((n * top_bits(lcg_step(s), 31)) / pow2(31) as int, lcg_step(s))
    } else {
        let k = choose|k: nat| first_accepted(s, n, k);
        ((top_bits(lcg_skip(s, k), 31) as int) % n, lcg_skip(s, k))
    }
}

/// The numerator, in units of `2^-53`, of a `nextDouble()` draw from state
/// `s`, and the state after it: 26 bits from one step, then 27 from the next.
pub open spec fn double_draw(s: nat) -> (nat, nat) {
    let s1 = lcg_step(s);
    let s2 = lcg_step(s1);
    (top_bits(s1, 26) * pow2(27) + top_bits(s2, 27), s2)
}

/// A Java generator: `java_random`'s generator with the Java multiplier and
/// addend, and its 48-bit state.
pub struct JavaRandom {
    random: Random,
    state: Ghost<nat>,
}

/// A precomposed run of generator steps.
pub struct Skip {
    lcg: LCG,
    steps: Ghost<nat>,
}

impl Skip {
    /// The number of steps that the transition stands for.
    pub closed spec fn steps(&self) -> nat {
        self.steps@
    }
}

/// Relies on `java_random::Random::with_seed`: the state is the seed XOR the
/// Java multiplier, and the transition is the Java one.
#[verifier::external_body]
fn seeded(seed: u64) -> (r: JavaRandom)
    ensures
        r.state() == scrambled(seed),
{
    // The ghost state is erased when compiled; the contract gives its value.
    JavaRandom { random: Random::with_seed(seed), state: Ghost(0) }
}

/// Relies on `java_random::LCG::combine_java`: the multiplier and addend of
/// `steps` Java steps composed, by repeated squaring.
#[verifier::external_body]
pub(crate) fn combine_java(steps: u64) -> (r: Skip)
    ensures
        r.steps() == steps,
{
    // The ghost count is erased when compiled; the contract gives its value.
    Skip { lcg: LCG::combine_java(steps), steps: Ghost(0) }
}

proof fn lemma_top_bits_bound(s: nat, bits: nat)
    requires
        s < pow2(48),
        bits <= 48,
    ensures
        top_bits(s, bits) < pow2(bits),
{
    let d = pow2((48 - bits) as nat);
    lemma_pow2_adds((48 - bits) as nat, bits);
    vstd::arithmetic::power2::lemma_pow2_pos((48 - bits) as nat);
    vstd::arithmetic::div_mod::lemma_fundamental_div_mod(s as int, d as int);
    let q = s / d;
    assert(q < pow2(bits)) by (nonlinear_arith)
        requires
            d > 0,
            s == d * q + s % d,
            s % d >= 0,
            s < d * pow2(bits),
    ;
}

impl JavaRandom {
    /// The 48-bit state.
    pub closed spec fn state(&self) -> nat {
        self.state@
    }

    /// A generator seeded with `seed`, as `new Random(seed)`.
    pub fn with_seed(seed: u64) -> (r: JavaRandom)
        ensures
            r.state() == scrambled(seed),
    {
        seeded(seed)
    }

    /// Relies on `java_random::Random::next`: one step, then the top `bits`
    /// bits of the 48-bit state.
    #[verifier::external_body]
    fn next_bits(&mut self, bits: u8) -> (r: i32)
        requires
            1 <= bits <= 31,
        ensures
            final(self).state() == lcg_step(old(self).state()),
            r == top_bits(final(self).state(), bits as nat),
    {
        self.random.next(bits)
    }

    /// Relies on `java_random::Random::next_int_n`: a draw in `0..n` by the
    /// rule of `java.util.Random.nextInt(int)`. With the Java transition the
    /// generator runs through every 48-bit state, so a kept step comes.
    #[verifier::external_body]
    pub(crate) fn next_int_n(&mut self, n: i32) -> (r: i32)
        requires
            n > 0,
        ensures
            (r as int, final(self).state()) == bounded_draw(old(self).state(), n as int),
            0 <= r < n,
            !is_power_of_two(n as int) ==> exists|k: nat| first_accepted(old(self).state(), n as int, k),
    {
        self.random.next_int_n(n)
    }

    /// Relies on `java_random::Random::set_seed`: the state becomes the seed
    /// XOR the Java multiplier.
    #[verifier::external_body]
    pub(crate) fn set_seed(&mut self, seed: u64)
        ensures
            final(self).state() == scrambled(seed),
    {
        self.random.set_seed(seed)
    }

    /// Relies on `java_random::Random::advance`: one multiply-add with the
    /// composed transition, which moves the state as many steps as it stands for.
    #[verifier::external_body]
    pub(crate) fn advance(&mut self, skip: &Skip)
        ensures
            final(self).state() == lcg_skip(old(self).state(), skip.steps()),
    {
        self.random.advance(skip.lcg);
    }

    /// The numerator of the next `nextDouble()` draw, in units of `2^-53`.
    pub fn next_double_bits(&mut self) -> (r: u64)
        ensures
            (r as nat, final(self).state()) == double_draw(old(self).state()),
            r < pow2(53),
    {
        let hi = self.next_bits(26);
        let lo = self.next_bits(27);
        proof {
            let s1 = lcg_step(old(self).state());
            let s2 = self.state();
            assert(s1 < pow2(48)) by { lemma2_to64(); lemma2_to64_rest(); }
            assert(s2 < pow2(48)) by { lemma2_to64(); lemma2_to64_rest(); }
            lemma_top_bits_bound(s1, 26);
            lemma_top_bits_bound(s2, 27);
            lemma2_to64();
            lemma2_to64_rest();
        }
        (hi as u64) * 134217728u64 + lo as u64
    }
}

} // verus!
