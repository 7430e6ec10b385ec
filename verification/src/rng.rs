//! A small seedable xorshift generator for the synthetic market-data
//! fixture, and the seed derivation that makes a `(symbol, time bucket)`
//! pair always produce the same path.

use vstd::prelude::*;
use crate::text::{chars_of, to_uppercase, unicode_uppercase};

verus! {

/// The state used for seed 0, which xorshift could never leave.
pub open spec fn zero_seed_state() -> u64 {
    0x9E3779B97F4A7C15
}

/// One xorshift step: `x ^= x >> 12; x ^= x << 25; x ^= x >> 27`.
pub open spec fn xorshift(x: u64) -> u64 {
    let a = x ^ (x >> 12u64);
    let b = a ^ ((a << 25u64) & 0xffff_ffff_ffff_ffff);
    b ^ (b >> 27u64)
}

/// The multiplier applied to the state to produce an output.
pub open spec fn output_multiplier() -> u64 {
    0x2545_F491_4F6C_DD1D
}

/// A seedable xorshift generator. Its state is never zero.
pub struct Rng(u64);

impl Rng {
    /// The generator's state.
    pub closed spec fn state(&self) -> u64 {
        self.0
    }

    #[verifier::type_invariant]
    closed spec fn state_is_nonzero(&self) -> bool {
        self.0 != 0
    }

    /// A generator seeded with `seed`; seed 0 is replaced by a fixed
    /// non-zero state.
    pub fn new(seed: u64) -> (r: Rng)
        ensures
            r.state() == (if seed == 0 { zero_seed_state() } else { seed }),
    {
        Rng(if seed == 0 { 0x9E3779B97F4A7C15 } else { seed })
    }

    /// Advances the state by one xorshift step and returns the new state
    /// times the output multiplier (wrapping).
    pub fn next_u64(&mut self) -> (r: u64)
        ensures
            final(self).state() == xorshift(old(self).state()),
            r == ((xorshift(old(self).state()) as nat * output_multiplier() as nat) % 0x1_0000_0000_0000_0000) as u64,
    {
        proof { use_type_invariant(&*self); }
        let mut x = self.0;
        x = x ^ (x >> 12u64);
        x = x ^ (x << 25u64);
        x = x ^ (x >> 27u64);
        proof {
            lemma_xorshift_nonzero(self.0);
            let s = self.0;
            assert(x == xorshift(s)) by (bit_vector)
                requires
                    ({
                        let a = s ^ (s >> 12u64);
                        let b = a ^ (a << 25u64);
                        x == b ^ (b >> 27u64)
                    });
        }
        self.0 = x;
        x.wrapping_mul(0x2545_F491_4F6C_DD1D)
    }
}

impl Rng {
    /// The top 53 bits of the next output: the integer `k` of a uniform
    /// draw `k / 2^53` in `[0, 1)`.
    pub fn next_bits53(&mut self) -> (r: u64)
        ensures
            final(self).state() == xorshift(old(self).state()),
            r == ((xorshift(old(self).state()) as nat * output_multiplier() as nat) % 0x1_0000_0000_0000_0000) as u64 >> 11u64,
            r < 0x20_0000_0000_0000,
    {
        let x = self.next_u64();
        assert(x >> 11u64 < 0x20_0000_0000_0000u64) by (bit_vector);
        x >> 11
    }
}

/// A xorshift step never maps a non-zero state to zero.
pub proof fn lemma_xorshift_nonzero(x: u64)
    requires
        x != 0,
    ensures
        xorshift(x) != 0,
{
    let a = x ^ (x >> 12u64);
    let b = a ^ ((a << 25u64) & 0xffff_ffff_ffff_ffff);
    assert(x != 0 ==> x ^ (x >> 12u64) != 0) by (bit_vector);
    assert(a != 0 ==> a ^ ((a << 25u64) & 0xffff_ffff_ffff_ffff) != 0) by (bit_vector);
    assert(b != 0 ==> b ^ (b >> 27u64) != 0) by (bit_vector);
}

/// The generator never reaches the all-zero state: every seed gives a
/// non-zero state, and every step keeps it non-zero.
pub proof fn law_state_never_zero(seed: u64, x: u64)
    ensures
        (if seed == 0 { zero_seed_state() } else { seed }) != 0,
        x != 0 ==> xorshift(x) != 0,
{
    if x != 0 {
        lemma_xorshift_nonzero(x);
    }
}


/// `sum((i + 1) * code(s[i]))` over the characters of `s`.
pub open spec fn char_weight_sum(s: Seq<char>) -> int
    decreases s.len(),
{
    if s.len() == 0 {
        0
    } else {
        char_weight_sum(s.drop_last()) + s.len() * ((s.last() as u32) as int)
    }
}

/// The seed of an (uppercased) symbol in a time bucket: the weighted
/// character sum plus the bucket, floored at 0.
pub open spec fn seed_of(upper: Seq<char>, bucket: int) -> int {
    if char_weight_sum(upper) + bucket < 0 {
        0
    } else {
        char_weight_sum(upper) + bucket
    }
}

proof fn lemma_char_weight_sum_prefix(s: Seq<char>, i: int)
    requires
        0 <= i <= s.len(),
    ensures
        0 <= char_weight_sum(s.subrange(0, i)) <= char_weight_sum(s),
    decreases s.len() - i,
{
    if i < s.len() {
        lemma_char_weight_sum_prefix(s, i + 1);
        let pre = s.subrange(0, i + 1);
        assert(pre.drop_last() =~= s.subrange(0, i));
        assert(pre.last() == s[i]);
        lemma_char_weight_sum_nonneg(s.subrange(0, i));
        let cv: u32 = s[i] as u32;
        assert((i + 1) * (cv as int) >= 0) by (nonlinear_arith)
            requires
                i >= 0,
                cv >= 0;
    } else {
        assert(s.subrange(0, i) =~= s);
        lemma_char_weight_sum_nonneg(s);
    }
}

proof fn lemma_char_weight_sum_nonneg(s: Seq<char>)
    ensures
        char_weight_sum(s) >= 0,
    decreases s.len(),
{
    if s.len() > 0 {
        lemma_char_weight_sum_nonneg(s.drop_last());
        let cv: u32 = s.last() as u32;
        assert(s.len() * (cv as int) >= 0) by (nonlinear_arith)
            requires
                s.len() >= 0,
                cv >= 0;
    }
}

/// The seed of an already uppercased symbol in a time bucket.
pub fn seed_from_chars(upper: &[char], bucket: i64) -> (r: u64)
    requires
        upper@.len() < i64::MAX,
        char_weight_sum(upper@) <= i64::MAX,
        char_weight_sum(upper@) + bucket <= i64::MAX,
    ensures
        r == seed_of(upper@, bucket as int),
{
    let n = upper.len();
    let mut sum: i64 = 0;
    let mut i: usize = 0;
    proof { lemma_char_weight_sum_nonneg(upper@); }
    assert(upper@.subrange(0, 0) =~= Seq::<char>::empty());
    while i < n
        invariant
            upper@.len() == n,
            n < i64::MAX,
            i <= n,
            char_weight_sum(upper@) <= i64::MAX,
            sum == char_weight_sum(upper@.subrange(0, i as int)),
        decreases n - i,
    {
        let c = upper[i];
        let k: i64 = i as i64 + 1;
        let cu: i64 = c as u32 as i64;
        proof {
            lemma_char_weight_sum_prefix(upper@, i + 1);
            let pre = upper@.subrange(0, i + 1);
            assert(pre.drop_last() =~= upper@.subrange(0, i as int));
            assert(pre.last() == c);
            lemma_char_weight_sum_nonneg(upper@.subrange(0, i as int));
            assert(char_weight_sum(pre) == sum + k * cu);
        }
        let w: i64 = k * cu;
        sum = sum + w;
        i = i + 1;
    }
    assert(upper@.subrange(0, n as int) =~= upper@);
    let total = sum + bucket;
    if total < 0 { 0 } else { total as u64 }
}

/// Whether the seed of `symbol` in `bucket` can be computed without
/// overflow.
pub open spec fn seed_fits(symbol: Seq<char>, bucket: int) -> bool {
    let upper = unicode_uppercase(symbol);
    upper.len() < i64::MAX && char_weight_sum(upper) <= i64::MAX && char_weight_sum(upper) + bucket
        <= i64::MAX
}

/// The seed for `symbol` (uppercased) in time bucket `bucket`: the same
/// `(symbol, bucket)` always gives the same seed.
pub fn derive_seed(symbol: &str, bucket: i64) -> (r: u64)
    requires
        seed_fits(symbol@, bucket as int),
    ensures
        r == seed_of(unicode_uppercase(symbol@), bucket as int),
{
    let upper = to_uppercase(symbol);
    let chars = chars_of(upper.as_str());
    seed_from_chars(&chars, bucket)
}

/// The seed for `symbol` in `bucket`, or `None` when computing it would
/// overflow.
pub fn try_derive_seed(symbol: &str, bucket: i64) -> (r: Option<u64>)
    ensures
        match r {
            Some(v) => seed_fits(symbol@, bucket as int) && v == seed_of(unicode_uppercase(symbol@), bucket as int),
            None => !seed_fits(symbol@, bucket as int),
        },
{
    let upper = to_uppercase(symbol);
    let chars = chars_of(upper.as_str());
    let n = chars.len();
    if n as u64 >= i64::MAX as u64 {
        return None;
    }
    let mut sum: i128 = 0;
    let mut i: usize = 0;
    proof { lemma_char_weight_sum_nonneg(chars@); }
    assert(chars@.subrange(0, 0) =~= Seq::<char>::empty());
    while i < n
        invariant
            chars@.len() == n,
            chars@ == unicode_uppercase(symbol@),
            n < i64::MAX,
            i <= n,
            sum == char_weight_sum(chars@.subrange(0, i as int)),
            sum <= i64::MAX,
        decreases n - i,
    {
        let c = chars[i];
        let k: i128 = i as i128 + 1;
        let cu: i128 = c as u32 as i128;
        proof {
            let pre = chars@.subrange(0, i + 1);
            assert(pre.drop_last() =~= chars@.subrange(0, i as int));
            assert(pre.last() == c);
            assert(k * cu <= 0x8000_0000_0000_0000 * 0x1_0000_0000) by (nonlinear_arith)
                requires
                    0 <= k <= 0x8000_0000_0000_0000,
                    0 <= cu < 0x1_0000_0000;
            assert(char_weight_sum(pre) == sum + k * cu);
        }
        let w: i128 = k * cu;
        sum = sum + w;
        if sum > i64::MAX as i128 {
            proof {
                lemma_char_weight_sum_prefix(chars@, i + 1);
            }
            return None;
        }
        i = i + 1;
    }
    assert(chars@.subrange(0, n as int) =~= chars@);
    if sum + bucket as i128 > i64::MAX as i128 {
        return None;
    }
    Some(derive_seed(symbol, bucket))
}

/// The five-second bucket of a time in Unix seconds (rounding down), which
/// together with the symbol fixes a synthetic snapshot.
pub fn time_bucket(unix_seconds: i64) -> (r: i64)
    ensures
        r == unix_seconds / 5,
{
    assert(i64::MIN <= unix_seconds / 5 <= i64::MAX) by (nonlinear_arith)
        requires
            i64::MIN <= unix_seconds <= i64::MAX,
    ;
    match unix_seconds.checked_div_euclid(5) {
        Some(q) => q,
        None => 0,
    }
}

} // verus!
