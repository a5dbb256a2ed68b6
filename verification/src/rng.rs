use vstd::prelude::*;
use vstd::arithmetic::div_mod::{
    lemma_add_mod_noop, lemma_fundamental_div_mod, lemma_fundamental_div_mod_converse_mod,
    lemma_mod_multiples_basic,
};
use vstd::bytes::{spec_u64_to_le_bytes, u64_to_le_bytes};
use vstd::wrapping::u64_specs::{wrapping_add, wrapping_mul};

verus! {

/// The increment that SplitMix64 adds to its state at every step.
pub const GOLDEN_GAMMA: u64 = 0x9E37_79B9_7F4A_7C15;

/// The first multiplier of the SplitMix64 output function.
pub const MIX_MUL_1: u64 = 0xBF58_476D_1CE4_E5B9;

/// The second multiplier of the SplitMix64 output function.
pub const MIX_MUL_2: u64 = 0x94D0_49BB_1331_11EB;

/// The SplitMix64 output function applied to an advanced state.
pub open spec fn splitmix_mix(z: u64) -> u64 {
    let a = wrapping_mul(z ^ (z >> 30u64), MIX_MUL_1);
    let b = wrapping_mul(a ^ (a >> 27u64), MIX_MUL_2);
    b ^ (b >> 31u64)
}

/// The generator's state after `k` steps from `seed`.
pub open spec fn splitmix_state(seed: u64, k: nat) -> u64
    decreases k,
{
    if k == 0 {
        seed
    } else {
        wrapping_add(splitmix_state(seed, (k - 1) as nat), GOLDEN_GAMMA)
    }
}

/// The value that the `k`-th call (counting from 1) of `next_u64` returns
/// from a generator seeded with `seed`.
pub open spec fn splitmix_output(seed: u64, k: nat) -> u64 {
    splitmix_mix(splitmix_state(seed, k))
}

/// How many 64-bit outputs it takes to fill `len` bytes.
pub open spec fn words_for(len: nat) -> nat {
    (len + 7) / 8
}

/// The first `len` bytes of the generator's output stream from `seed`: each
/// output contributes its eight bytes in little-endian order.
pub open spec fn random_bytes(seed: u64, len: nat) -> Seq<u8> {
    Seq::new(len, |j: int| spec_u64_to_le_bytes(splitmix_output(seed, (j / 8 + 1) as nat))[j % 8])
}

/// The seed taken from the wall clock: the nanoseconds since the Unix epoch
/// truncated to 64 bits, a fixed fallback when the clock reads before the
/// epoch, and the low bit always set.
pub open spec fn clock_seed(nanos: Option<u128>) -> u64 {
    match nanos {
        Some(n) => (n as u64) | 1u64,
        None => 0x1234_5678u64 | 1u64,
    }
}

/// The seed for a clock reading of `n` nanoseconds is `n` modulo 2^64 with
/// its lowest bit set: it keeps all of bits 1 to 63 of the reading.
pub proof fn lemma_clock_seed_value(n: u128)
    ensures
        clock_seed(Some(n)) as int == n as int % 0x1_0000_0000_0000_0000int + (if n % 2 == 0 {
            1int
        } else {
            0int
        }),
        clock_seed(None) == 0x1234_5679u64,
{
    assert(n % 2 == 0 ==> ((n as u64) | 1u64) as u128 == n % 0x1_0000_0000_0000_0000u128 + 1)
        by (bit_vector);
    assert(n % 2 == 1 ==> ((n as u64) | 1u64) as u128 == n % 0x1_0000_0000_0000_0000u128)
        by (bit_vector);
    assert(0x1234_5678u64 | 1u64 == 0x1234_5679u64) by (bit_vector);
}

/// Picks the generator's seed from a clock reading (`None` when the clock
/// stands before the Unix epoch).
pub fn seed_from_clock(nanos: Option<u128>) -> (seed: u64)
    ensures
        seed == clock_seed(nanos),
        seed & 1u64 == 1u64,
        nanos matches Some(n) ==> seed as int == n as int % 0x1_0000_0000_0000_0000int + (if n
            % 2 == 0 {
            1int
        } else {
            0int
        }),
        nanos is None ==> seed == 0x1234_5679u64,
{
    proof {
        match nanos {
            Some(n) => lemma_clock_seed_value(n),
            None => lemma_clock_seed_value(0),
        }
    }
    let base: u64 = match nanos {
        Some(n) => n as u64,
        None => 0x1234_5678u64,
    };
    let seed = base | 1u64;
    assert(seed & 1u64 == 1u64) by (bit_vector)
        requires
            seed == base | 1u64,
    ;
    seed
}

/// After `k` steps the state is `seed + k * GOLDEN_GAMMA` modulo 2^64.
pub proof fn lemma_state_closed_form(seed: u64, k: nat)
    ensures
        splitmix_state(seed, k) as int == (seed + k * GOLDEN_GAMMA) % 0x1_0000_0000_0000_0000int,
    decreases k,
{
    let m = 0x1_0000_0000_0000_0000int;
    if k == 0 {
        assert(seed + 0 * GOLDEN_GAMMA == seed);
    } else {
        let j = (k - 1) as nat;
        lemma_state_closed_form(seed, j);
        let prev = splitmix_state(seed, j);
        assert(wrapping_add(prev, GOLDEN_GAMMA) as int == (prev + GOLDEN_GAMMA) % m);
        lemma_add_mod_noop(seed + j * GOLDEN_GAMMA, GOLDEN_GAMMA as int, m);
        assert((GOLDEN_GAMMA as int) % m == GOLDEN_GAMMA);
        assert(seed + j * GOLDEN_GAMMA + GOLDEN_GAMMA == seed + k * GOLDEN_GAMMA) by (nonlinear_arith)
            requires
                j + 1 == k,
        ;
    }
}

/// Running the generator `a` steps and then `b` steps is running it
/// `a + b` steps.
pub proof fn lemma_state_steps_add(seed: u64, a: nat, b: nat)
    ensures
        splitmix_state(splitmix_state(seed, a), b) == splitmix_state(seed, a + b),
    decreases b,
{
    if b > 0 {
        lemma_state_steps_add(seed, a, (b - 1) as nat);
        assert((a + b - 1) as nat == a + (b - 1) as nat);
    }
}

/// Filling `a` bytes, `a` a multiple of eight, and then `b` more bytes
/// from where the generator stopped gives the first `a + b` bytes of the
/// same stream: the output does not depend on how it is requested.
pub proof fn lemma_fill_concat(seed: u64, a: nat, b: nat)
    requires
        a % 8 == 0,
    ensures
        random_bytes(seed, a) + random_bytes(splitmix_state(seed, words_for(a)), b)
            == random_bytes(seed, a + b),
{
    let mid = splitmix_state(seed, words_for(a));
    assert(words_for(a) == a / 8);
    let lhs = random_bytes(seed, a) + random_bytes(mid, b);
    let rhs = random_bytes(seed, a + b);
    assert forall|j: int| 0 <= j < a + b implies #[trigger] lhs[j] == rhs[j] by {
        if j >= a {
            let t = j - a;
            assert((j / 8 + 1) as nat == a / 8 + (t / 8 + 1) as nat);
            assert(j % 8 == t % 8);
            lemma_state_steps_add(seed, a / 8, (t / 8 + 1) as nat);
        }
    }
    assert(lhs =~= rhs);
}

/// The number of distinct 64-bit words, 2^64.
pub open spec fn word_count() -> int {
    0x1_0000_0000_0000_0000int
}

/// Multiplying by an odd `c` with inverse `c_inv` modulo 2^64 loses
/// nothing: if `x * c` is a multiple of 2^64, so is `x`.
proof fn lemma_odd_factor_cancels(x: int, c: int, c_inv: int, t: int, q: int)
    requires
        c * c_inv == 1 + t * word_count(),
        x * c == q * word_count(),
    ensures
        x == (q * c_inv - x * t) * word_count(),
{
    let m = word_count();
    assert(x * (c * c_inv) == x + x * t * m) by (nonlinear_arith)
        requires
            c * c_inv == 1 + t * m,
    ;
    assert(x * (c * c_inv) == (x * c) * c_inv) by (nonlinear_arith);
    assert(x == (q * c_inv - x * t) * m) by (nonlinear_arith)
        requires
            x * (c * c_inv) == x + x * t * m,
            x * (c * c_inv) == (x * c) * c_inv,
            x * c == q * m,
    ;
}

/// A multiple of 2^64 that lies strictly between -2^64 and 2^64 is zero.
proof fn lemma_small_multiple_is_zero(x: int, k: int)
    requires
        -word_count() < x < word_count(),
        x == k * word_count(),
    ensures
        x == 0,
{
    let m = word_count();
    if k >= 1 {
        assert(k * m >= m) by (nonlinear_arith)
            requires
                k >= 1,
                m > 0,
        ;
    } else if k <= -1 {
        assert(k * m <= -m) by (nonlinear_arith)
            requires
                k <= -1,
                m > 0,
        ;
    }
}

/// The state returns to the seed after `k` steps exactly when `k` is a
/// multiple of 2^64: the generator's period is the full 2^64, because the
/// increment is odd.
pub proof fn lemma_state_period(seed: u64, k: nat)
    ensures
        splitmix_state(seed, k) == seed <==> k as int % word_count() == 0,
{
    let m = word_count();
    lemma_state_closed_form(seed, k);
    let x = seed + k * GOLDEN_GAMMA;
    let r = x % m;
    lemma_fundamental_div_mod(x, m);
    if k as int % m == 0 {
        lemma_fundamental_div_mod(k as int, m);
        let j = k as int / m;
        assert(k * GOLDEN_GAMMA == (j * GOLDEN_GAMMA) * m) by (nonlinear_arith)
            requires
                k == m * j + 0,
        ;
        lemma_fundamental_div_mod_converse_mod(x, m, j * GOLDEN_GAMMA, seed as int);
    }
    if splitmix_state(seed, k) == seed {
        let q = x / m;
        assert(k * GOLDEN_GAMMA == q * m) by (nonlinear_arith)
            requires
                x == m * q + seed,
                x == seed + k * GOLDEN_GAMMA,
        ;
        let g_inv = 0xf1de83e19937733dint;
        let t = 10771413168148108919int;
        assert(GOLDEN_GAMMA * g_inv == 1 + t * m);
        lemma_odd_factor_cancels(k as int, GOLDEN_GAMMA as int, g_inv, t, q);
        lemma_mod_multiples_basic(q * g_inv - k * t, m);
    }
}

/// Any 2^64 consecutive states are all different.
pub proof fn lemma_states_distinct(seed: u64, i: nat, j: nat)
    requires
        i < j < i + word_count(),
    ensures
        splitmix_state(seed, i) != splitmix_state(seed, j),
{
    let d = (j - i) as nat;
    lemma_state_steps_add(seed, i, d);
    assert(i + d == j);
    lemma_state_period(splitmix_state(seed, i), d);
    vstd::arithmetic::div_mod::lemma_small_mod(d, word_count() as nat);
}

/// `x ^ (x >> s)` loses nothing for the three shifts that SplitMix64 uses.
proof fn lemma_xorshift_injective(a: u64, b: u64)
    ensures
        a ^ (a >> 30u64) == b ^ (b >> 30u64) ==> a == b,
        a ^ (a >> 27u64) == b ^ (b >> 27u64) ==> a == b,
        a ^ (a >> 31u64) == b ^ (b >> 31u64) ==> a == b,
{
    assert(a ^ (a >> 30u64) == b ^ (b >> 30u64) ==> a == b) by (bit_vector);
    assert(a ^ (a >> 27u64) == b ^ (b >> 27u64) ==> a == b) by (bit_vector);
    assert(a ^ (a >> 31u64) == b ^ (b >> 31u64) ==> a == b) by (bit_vector);
}

/// Wrapping multiplication by an odd constant with inverse `c_inv` modulo
/// 2^64 is one-to-one.
proof fn lemma_wrapping_mul_injective(a: u64, b: u64, c: u64, c_inv: int, t: int)
    requires
        c * c_inv == 1 + t * word_count(),
        wrapping_mul(a, c) == wrapping_mul(b, c),
    ensures
        a == b,
{
    let m = word_count();
    let ra = (a as nat * c as nat) % (m as nat);
    let rb = (b as nat * c as nat) % (m as nat);
    assert(ra == rb);
    let xa = a * c;
    let xb = b * c;
    lemma_fundamental_div_mod(xa, m);
    lemma_fundamental_div_mod(xb, m);
    let qa = xa / m;
    let qb = xb / m;
    assert((a - b) * c == (qa - qb) * m) by (nonlinear_arith)
        requires
            xa == m * qa + ra,
            xb == m * qb + rb,
            ra == rb,
            xa == a * c,
            xb == b * c,
    ;
    lemma_odd_factor_cancels(a - b, c as int, c_inv, t, qa - qb);
    lemma_small_multiple_is_zero(a - b, (qa - qb) * c_inv - (a - b) * t);
}

/// The SplitMix64 output function is one-to-one on 64-bit words (and so a
/// bijection): different states never give the same output.
pub proof fn lemma_mix_injective(a: u64, b: u64)
    ensures
        splitmix_mix(a) == splitmix_mix(b) <==> a == b,
{
    if splitmix_mix(a) == splitmix_mix(b) {
        let m = word_count();
        let a1 = wrapping_mul(a ^ (a >> 30u64), MIX_MUL_1);
        let b1 = wrapping_mul(b ^ (b >> 30u64), MIX_MUL_1);
        let a2 = wrapping_mul(a1 ^ (a1 >> 27u64), MIX_MUL_2);
        let b2 = wrapping_mul(b1 ^ (b1 >> 27u64), MIX_MUL_2);
        lemma_xorshift_injective(a2, b2);
        assert(MIX_MUL_2 * 0x319642b2d24d8ec3int == 1 + 2077064247507883091int * m);
        lemma_wrapping_mul_injective(
            a1 ^ (a1 >> 27u64),
            b1 ^ (b1 >> 27u64),
            MIX_MUL_2,
            0x319642b2d24d8ec3int,
            2077064247507883091int,
        );
        lemma_xorshift_injective(a1, b1);
        assert(MIX_MUL_1 * 0x96de1b173f119089int == 1 + 8125545580553827436int * m);
        lemma_wrapping_mul_injective(
            a ^ (a >> 30u64),
            b ^ (b >> 30u64),
            MIX_MUL_1,
            0x96de1b173f119089int,
            8125545580553827436int,
        );
        lemma_xorshift_injective(a, b);
    }
}

/// One call of `next_u64` from state `sa` and one from state `sb` return
/// the same word exactly when the two states are equal.
pub proof fn lemma_next_output_injective(sa: u64, sb: u64)
    ensures
        splitmix_mix(wrapping_add(sa, GOLDEN_GAMMA)) == splitmix_mix(wrapping_add(sb, GOLDEN_GAMMA))
            <==> sa == sb,
{
    lemma_mix_injective(wrapping_add(sa, GOLDEN_GAMMA), wrapping_add(sb, GOLDEN_GAMMA));
}

/// Any 2^64 consecutive outputs of the generator are all different, so
/// they take every 64-bit value exactly once.
pub proof fn lemma_outputs_distinct(seed: u64, i: nat, j: nat)
    requires
        i < j < i + word_count(),
    ensures
        splitmix_output(seed, i) != splitmix_output(seed, j),
{
    lemma_states_distinct(seed, i, j);
    lemma_mix_injective(splitmix_state(seed, i), splitmix_state(seed, j));
}

/// Per-store host state: the generator that backs `crypto.getRandomValues`.
pub struct HostState {
    pub rng: u64,
}

impl HostState {
    /// Advances the generator by one step and returns the next 64 random bits.
    pub fn next_u64(&mut self) -> (r: u64)
        ensures
            final(self).rng == wrapping_add(old(self).rng, GOLDEN_GAMMA),
            r == splitmix_mix(final(self).rng),
    {
        self.rng = self.rng.wrapping_add(GOLDEN_GAMMA);
        let mut z = self.rng;
        z = (z ^ (z >> 30u64)).wrapping_mul(MIX_MUL_1);
        z = (z ^ (z >> 27u64)).wrapping_mul(MIX_MUL_2);
        z ^ (z >> 31u64)
    }

    /// Fills `len` bytes from the generator, eight bytes per output in
    /// little-endian order, the last output cut short where `len` is not a
    /// multiple of eight.
    pub fn fill_random(&mut self, len: usize) -> (bytes: Vec<u8>)
        ensures
            bytes@ == random_bytes(old(self).rng, len as nat),
            final(self).rng == splitmix_state(old(self).rng, words_for(len as nat)),
    {
        let ghost seed = self.rng;
        let mut buf: Vec<u8> = Vec::new();
        let mut i: usize = 0;
        while i < len
            invariant
                i <= len,
                i % 8 == 0 || i == len,
                buf@ == random_bytes(seed, i as nat),
                self.rng == splitmix_state(seed, words_for(i as nat)),
            decreases len - i,
        {
            let ghost before = self.rng;
            let r = self.next_u64();
            proof {
                assert(words_for((i + 1) as nat) == words_for(i as nat) + 1);
                assert(splitmix_state(seed, words_for(i as nat) + 1) == wrapping_add(before, GOLDEN_GAMMA));
            }
            let word = u64_to_le_bytes(r);
            let n: usize = if len - i < 8 { len - i } else { 8 };
            let mut k: usize = 0;
            while k < n
                invariant
                    n <= 8,
                    i + n <= len,
                    i % 8 == 0,
                    k <= n,
                    word@ == spec_u64_to_le_bytes(r),
                    word@.len() == 8,
                    r == splitmix_output(seed, (i / 8 + 1) as nat),
                    buf@ == random_bytes(seed, (i + k) as nat),
                decreases n - k,
            {
                buf.push(word[k]);
                k = k + 1;
                proof {
                    assert(buf@ =~= random_bytes(seed, (i + k) as nat)) by {
                        assert forall|j: int| 0 <= j < i + k implies #[trigger] buf@[j]
                            == random_bytes(seed, (i + k) as nat)[j] by {
                            if j == i + k - 1 {
                                assert(j / 8 == i / 8);
                                assert(j % 8 == k - 1);
                            }
                        }
                    }
                }
            }
            i = i + n;
            proof {
                assert(words_for(i as nat) == words_for((i - n) as nat) + 1);
            }
        }
        buf
    }
}

} // verus!
