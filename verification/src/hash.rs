//! Hashing for stable, deterministic color assignment.
//!
//! FNV-1a accumulation over the input bytes, started from a seed-dependent
//! offset (Fibonacci hashing of the seed) and followed by the SplitMix64
//! finalizer.  Every step of the pipeline is a bijection on `u64`, which is
//! what the laws at the end of this file establish.

use vstd::prelude::*;
use vstd::arithmetic::div_mod::{lemma_mul_mod_noop_left, lemma_mul_mod_noop_right, lemma_small_mod};
use vstd::arithmetic::mul::lemma_mul_is_associative;
use vstd::wrapping::u64_specs;

verus! {

/// 2^64, the modulus of wrapping `u64` arithmetic.
pub open spec fn word() -> nat {
    0x1_0000_0000_0000_0000nat
}

/// FNV-1a 64-bit offset basis.
pub const FNV_OFFSET: u64 = 14695981039346656037;

/// FNV-1a 64-bit prime.
pub const FNV_PRIME: u64 = 1099511628211;

/// The golden-ratio constant used to spread the seed over all 64 bits.
pub const SEED_SPREAD: u64 = 0x9e3779b97f4a7c15;

/// First SplitMix64 multiplier.
pub const MIX_MUL_1: u64 = 0xbf58476d1ce4e5b9;

/// Second SplitMix64 multiplier.
pub const MIX_MUL_2: u64 = 0x94d049bb133111eb;

/// The SplitMix64 finalizer.
pub open spec fn spec_finalize(h: u64) -> u64 {
    let h1 = h ^ (h >> 30u64);
    let h2 = u64_specs::wrapping_mul(h1, MIX_MUL_1);
    let h3 = h2 ^ (h2 >> 27u64);
    let h4 = u64_specs::wrapping_mul(h3, MIX_MUL_2);
    h4 ^ (h4 >> 31u64)
}

/// One FNV-1a step: xor the byte in, then multiply by the prime.
pub open spec fn fnv_step(hash: u64, byte: u8) -> u64 {
    u64_specs::wrapping_mul(hash ^ (byte as u64), FNV_PRIME)
}

/// FNV-1a accumulation of `data` from the state `initial`, without finalizer.
pub open spec fn spec_fnv_raw(data: Seq<u8>, initial: u64) -> u64
    decreases data.len(),
{
    if data.len() == 0 {
        initial
    } else {
        fnv_step(spec_fnv_raw(data.drop_last(), initial), data.last())
    }
}

/// The state the FNV pass starts from for a given seed.
pub open spec fn seed_initial(seed: u64) -> u64 {
    u64_specs::wrapping_add(FNV_OFFSET, u64_specs::wrapping_mul(seed, SEED_SPREAD))
}

/// The seeded hash of `data`.
pub open spec fn spec_hash(data: Seq<u8>, seed: u64) -> u64 {
    spec_finalize(spec_fnv_raw(data, seed_initial(seed)))
}

/// SplitMix64 finalizer: excellent avalanche, reversible, branch-free.
fn finalize(h: u64) -> (r: u64)
    ensures
        r == spec_finalize(h),
{
    let mut h = h;
    h = h ^ (h >> 30u64);
    h = h.wrapping_mul(MIX_MUL_1);
    h = h ^ (h >> 27u64);
    h = h.wrapping_mul(MIX_MUL_2);
    h = h ^ (h >> 31u64);
    h
}

/// FNV-1a accumulation without finalizer.
fn fnv1a_raw(data: &[u8], initial: u64) -> (r: u64)
    ensures
        r == spec_fnv_raw(data@, initial),
{
    let mut hash = initial;
    let mut i: usize = 0;
    while i < data.len()
        invariant
            i <= data@.len(),
            hash == spec_fnv_raw(data@.take(i as int), initial),
        decreases data@.len() - i,
    {
        let byte = data[i];
        assert(data@.take(i + 1).drop_last() =~= data@.take(i as int));
        hash = hash ^ (byte as u64);
        hash = hash.wrapping_mul(FNV_PRIME);
        i = i + 1;
    }
    assert(data@.take(data@.len() as int) =~= data@);
    hash
}

/// Compute a deterministic 64-bit hash of `data` (the seeded hash with seed 0).
pub fn fnv1a_64(data: &[u8]) -> (r: u64)
    ensures
        r == spec_hash(data@, 0),
{
    fnv1a_64_seeded(data, 0)
}

/// Compute a deterministic 64-bit hash of `data` with an explicit `seed`.
pub fn fnv1a_64_seeded(data: &[u8], seed: u64) -> (r: u64)
    ensures
        r == spec_hash(data@, seed),
{
    let seed_spread = seed.wrapping_mul(SEED_SPREAD);
    let initial = FNV_OFFSET.wrapping_add(seed_spread);
    finalize(fnv1a_raw(data, initial))
}

// ─── laws ─────────────────────────────────────────────────────────────────────

/// Multiplying by `c` and then by `c_inv` modulo 2^64 gives back `x` when
/// `c * c_inv` is 1 modulo 2^64.
proof fn lemma_wrapping_mul_cancel(x: u64, c: u64, c_inv: u64)
    requires
        (c as int * c_inv as int) % (word() as int) == 1,
    ensures
        u64_specs::wrapping_mul(u64_specs::wrapping_mul(x, c), c_inv) == x,
{
    let m = word() as int;
    let xc = x as int * c as int;
    lemma_mul_mod_noop_left(xc, c_inv as int, m);
    lemma_mul_is_associative(x as int, c as int, c_inv as int);
    lemma_mul_mod_noop_right(x as int, c as int * c_inv as int, m);
    lemma_small_mod(x as nat, word());
}

/// Wrapping multiplication by an odd constant with a known inverse is injective.
proof fn lemma_wrapping_mul_injective(x: u64, y: u64, c: u64, c_inv: u64)
    requires
        (c as int * c_inv as int) % (word() as int) == 1,
        u64_specs::wrapping_mul(x, c) == u64_specs::wrapping_mul(y, c),
    ensures
        x == y,
{
    lemma_wrapping_mul_cancel(x, c, c_inv);
    lemma_wrapping_mul_cancel(y, c, c_inv);
}

/// Inverse of the SplitMix64 finalizer.
pub open spec fn spec_unfinalize(r: u64) -> u64 {
    let h4 = r ^ (r >> 31u64) ^ (r >> 62u64);
    let h3 = u64_specs::wrapping_mul(h4, 0x319642b2d24d8ec3u64);
    let h2 = h3 ^ (h3 >> 27u64) ^ (h3 >> 54u64);
    let h1 = u64_specs::wrapping_mul(h2, 0x96de1b173f119089u64);
    h1 ^ (h1 >> 30u64) ^ (h1 >> 60u64)
}

/// The finalizer is reversible: `spec_unfinalize` undoes it.
pub proof fn lemma_finalize_reversible(h: u64)
    ensures
        spec_unfinalize(spec_finalize(h)) == h,
{
    let h1 = h ^ (h >> 30u64);
    let h2 = u64_specs::wrapping_mul(h1, MIX_MUL_1);
    let h3 = h2 ^ (h2 >> 27u64);
    let h4 = u64_specs::wrapping_mul(h3, MIX_MUL_2);
    let r = h4 ^ (h4 >> 31u64);
    assert(r ^ (r >> 31u64) ^ (r >> 62u64) == h4) by (bit_vector)
        requires
            r == h4 ^ (h4 >> 31u64),
    ;
    assert((MIX_MUL_2 as int * 0x319642b2d24d8ec3int) % (word() as int) == 1);
    lemma_wrapping_mul_cancel(h3, MIX_MUL_2, 0x319642b2d24d8ec3u64);
    assert(h3 ^ (h3 >> 27u64) ^ (h3 >> 54u64) == h2) by (bit_vector)
        requires
            h3 == h2 ^ (h2 >> 27u64),
    ;
    assert((MIX_MUL_1 as int * 0x96de1b173f119089int) % (word() as int) == 1);
    lemma_wrapping_mul_cancel(h1, MIX_MUL_1, 0x96de1b173f119089u64);
    assert(h1 ^ (h1 >> 30u64) ^ (h1 >> 60u64) == h) by (bit_vector)
        requires
            h1 == h ^ (h >> 30u64),
    ;
}

/// Distinct states stay distinct under the finalizer.
pub proof fn lemma_finalize_injective(a: u64, b: u64)
    requires
        a != b,
    ensures
        spec_finalize(a) != spec_finalize(b),
{
    lemma_finalize_reversible(a);
    lemma_finalize_reversible(b);
}

/// For fixed data, distinct starting states give distinct FNV states.
proof fn lemma_fnv_raw_injective(data: Seq<u8>, a: u64, b: u64)
    requires
        a != b,
    ensures
        spec_fnv_raw(data, a) != spec_fnv_raw(data, b),
    decreases data.len(),
{
    if data.len() > 0 {
        lemma_fnv_raw_injective(data.drop_last(), a, b);
        lemma_fnv_step_injective_state(
            spec_fnv_raw(data.drop_last(), a),
            spec_fnv_raw(data.drop_last(), b),
            data.last(),
        );
    }
}

/// Distinct seeds give distinct starting states.
proof fn lemma_seed_initial_injective(s1: u64, s2: u64)
    requires
        s1 != s2,
    ensures
        seed_initial(s1) != seed_initial(s2),
{
    assert((SEED_SPREAD as int * 0xf1de83e19937733dint) % (word() as int) == 1);
    let m1 = u64_specs::wrapping_mul(s1, SEED_SPREAD);
    let m2 = u64_specs::wrapping_mul(s2, SEED_SPREAD);
    if m1 == m2 {
        lemma_wrapping_mul_injective(s1, s2, SEED_SPREAD, 0xf1de83e19937733du64);
    }
}

/// Changing the seed always changes the hash: for any fixed input, distinct
/// seeds give distinct hash values (in particular adjacent seeds do).
pub proof fn lemma_seed_changes_hash(data: Seq<u8>, s1: u64, s2: u64)
    requires
        s1 != s2,
    ensures
        spec_hash(data, s1) != spec_hash(data, s2),
{
    lemma_seed_initial_injective(s1, s2);
    lemma_fnv_raw_injective(data, seed_initial(s1), seed_initial(s2));
    lemma_finalize_injective(
        spec_fnv_raw(data, seed_initial(s1)),
        spec_fnv_raw(data, seed_initial(s2)),
    );
}

/// Seed zero is the identity perturbation: the unseeded hash is the seeded
/// hash with seed 0, and seed 0 starts the FNV pass from the offset basis.
pub proof fn lemma_seed_zero_is_unseeded(data: Seq<u8>)
    ensures
        seed_initial(0) == FNV_OFFSET,
        spec_hash(data, 0) == spec_finalize(spec_fnv_raw(data, FNV_OFFSET)),
{
}

/// One FNV step is injective in the state for a fixed byte.
proof fn lemma_fnv_step_injective_state(a: u64, b: u64, byte: u8)
    requires
        a != b,
    ensures
        fnv_step(a, byte) != fnv_step(b, byte),
{
    let x = byte as u64;
    assert((a ^ x) != (b ^ x)) by (bit_vector)
        requires
            a != b,
    ;
    assert((FNV_PRIME as int * 0xce965057aff6957bint) % (word() as int) == 1);
    if fnv_step(a, byte) == fnv_step(b, byte) {
        lemma_wrapping_mul_injective(a ^ x, b ^ x, FNV_PRIME, 0xce965057aff6957bu64);
    }
}

/// One FNV step is injective in the byte for a fixed state.
proof fn lemma_fnv_step_injective_byte(h: u64, b1: u8, b2: u8)
    requires
        b1 != b2,
    ensures
        fnv_step(h, b1) != fnv_step(h, b2),
{
    let x1 = b1 as u64;
    let x2 = b2 as u64;
    assert(x1 != x2);
    assert((h ^ x1) != (h ^ x2)) by (bit_vector)
        requires
            x1 != x2,
    ;
    assert((FNV_PRIME as int * 0xce965057aff6957bint) % (word() as int) == 1);
    if fnv_step(h, b1) == fnv_step(h, b2) {
        lemma_wrapping_mul_injective(h ^ x1, h ^ x2, FNV_PRIME, 0xce965057aff6957bu64);
    }
}

/// Inputs of equal length that differ in exactly one byte reach different
/// FNV states from the same start.
proof fn lemma_fnv_raw_one_byte(a: Seq<u8>, b: Seq<u8>, p: int, initial: u64)
    requires
        a.len() == b.len(),
        0 <= p < a.len(),
        a[p] != b[p],
        forall|i: int| 0 <= i < a.len() && i != p ==> a[i] == b[i],
    ensures
        spec_fnv_raw(a, initial) != spec_fnv_raw(b, initial),
    decreases a.len(),
{
    let n = a.len() - 1;
    if p == n {
        assert(a.drop_last() =~= b.drop_last());
        lemma_fnv_step_injective_byte(spec_fnv_raw(a.drop_last(), initial), a.last(), b.last());
    } else {
        lemma_fnv_raw_one_byte(a.drop_last(), b.drop_last(), p, initial);
        assert(a.last() == b.last());
        lemma_fnv_step_injective_state(
            spec_fnv_raw(a.drop_last(), initial),
            spec_fnv_raw(b.drop_last(), initial),
            a.last(),
        );
    }
}

/// Changing a single byte of the input always changes the hash, whatever the
/// seed (e.g. `"web-01"` and `"web-02"` never collide).
pub proof fn lemma_one_byte_change_changes_hash(a: Seq<u8>, b: Seq<u8>, p: int, seed: u64)
    requires
        a.len() == b.len(),
        0 <= p < a.len(),
        a[p] != b[p],
        forall|i: int| 0 <= i < a.len() && i != p ==> a[i] == b[i],
    ensures
        spec_hash(a, seed) != spec_hash(b, seed),
{
    lemma_fnv_raw_one_byte(a, b, p, seed_initial(seed));
    lemma_finalize_injective(spec_fnv_raw(a, seed_initial(seed)), spec_fnv_raw(b, seed_initial(seed)));
}

/// The raw FNV pass is a left fold of `fnv_step`: the empty input leaves the
/// state unchanged, one more byte is one more step, and hashing `a` then `b`
/// from a state is hashing `a + b` from it.
pub proof fn lemma_fnv_raw_concat(a: Seq<u8>, b: Seq<u8>, initial: u64)
    ensures
        spec_fnv_raw(Seq::<u8>::empty(), initial) == initial,
        forall|x: u8| #[trigger] spec_fnv_raw(a.push(x), initial) == fnv_step(spec_fnv_raw(a, initial), x),
        spec_fnv_raw(a + b, initial) == spec_fnv_raw(b, spec_fnv_raw(a, initial)),
    decreases b.len(),
{
    assert forall|x: u8| #[trigger] spec_fnv_raw(a.push(x), initial) == fnv_step(
        spec_fnv_raw(a, initial),
        x,
    ) by {
        assert(a.push(x).drop_last() =~= a);
    }
    if b.len() == 0 {
        assert(a + b =~= a);
    } else {
        lemma_fnv_raw_concat(a, b.drop_last(), initial);
        assert((a + b).drop_last() =~= a + b.drop_last());
        assert((a + b).last() == b.last());
    }
}

} // verus!
