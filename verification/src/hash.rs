//! A deterministic, seedable 64-bit hash over byte strings.
//!
//! The hash drives the feature-id scheme: a namespace name is hashed with the
//! caller's global seed, and each feature name inside it is hashed with the
//! namespace hash as its seed, chaining the two levels so that the same
//! feature name in two namespaces gets two different ids.
//!
//! The function is pure: the result is fixed by the bytes and the seed alone,
//! which `uniform_hash`'s contract states by equating it with a spec function
//! of those two arguments.

use vstd::prelude::*;

verus! {

/// Multiplier for the per-byte mixing rounds.
pub const MIX_MULTIPLIER: u64 = 0xc6a4_a793_5bd1_e995;

/// First multiplier of the finalizer.
pub const FINAL_MULTIPLIER_1: u64 = 0xff51_afd7_ed55_8ccd;

/// Second multiplier of the finalizer.
pub const FINAL_MULTIPLIER_2: u64 = 0xc4ce_b9fe_1a85_ec53;

/// One mixing round: fold a byte into the running state.
pub open spec fn mix_byte(h: u64, b: u8) -> u64 {
    vstd::wrapping::u64_specs::wrapping_mul(h ^ (b as u64), MIX_MULTIPLIER)
}

/// The running state after folding every byte of `s` into `h0`, in order.
pub open spec fn mix_bytes(s: Seq<u8>, h0: u64) -> u64
    decreases s.len(),
{
    if s.len() == 0 {
        h0
    } else {
        mix_byte(mix_bytes(s.drop_last(), h0), s.last())
    }
}

/// The initial state: the seed perturbed by the input length, so that byte
/// strings of different lengths start from different states.
pub open spec fn initial_state(seed: u64, len: u64) -> u64 {
    seed ^ vstd::wrapping::u64_specs::wrapping_mul(len, MIX_MULTIPLIER)
}

/// The avalanche finalizer: three xor-shift-multiply rounds that spread each
/// state bit over the whole output word.
pub open spec fn finalize(h: u64) -> u64 {
    let a = h ^ (h >> 33);
    let b = vstd::wrapping::u64_specs::wrapping_mul(a, FINAL_MULTIPLIER_1);
    let c = b ^ (b >> 33);
    let d = vstd::wrapping::u64_specs::wrapping_mul(c, FINAL_MULTIPLIER_2);
    d ^ (d >> 33)
}

/// The hash of `s` under `seed`, as a function of those two values alone.
pub open spec fn uniform_hash_spec(s: Seq<u8>, seed: u64) -> u64 {
    finalize(mix_bytes(s, initial_state(seed, s.len() as u64)))
}

/// Hashes a byte string under a seed.
///
/// The result equals `uniform_hash_spec(bytes@, seed)`, a pure function of
/// the input bytes and the seed: repeated calls on equal inputs return the
/// identical output, across calls and across processes.
pub fn uniform_hash(bytes: &[u8], seed: u64) -> (r: u64)
    ensures
        r == uniform_hash_spec(bytes@, seed),
{
    let n = bytes.len();
    let mut h: u64 = seed ^ (n as u64).wrapping_mul(MIX_MULTIPLIER);
    assert(bytes@.take(0) =~= Seq::<u8>::empty());
    for i in 0..n
        invariant
            n == bytes@.len(),
            h == mix_bytes(bytes@.take(i as int), initial_state(seed, n as u64)),
    {
        h = (h ^ (bytes[i] as u64)).wrapping_mul(MIX_MULTIPLIER);
        proof {
            assert(bytes@.take(i + 1).drop_last() =~= bytes@.take(i as int));
            assert(bytes@.take(i + 1).last() == bytes@[i as int]);
        }
    }
    proof {
        assert(bytes@.take(n as int) =~= bytes@);
    }
    let a = h ^ (h >> 33);
    let b = a.wrapping_mul(FINAL_MULTIPLIER_1);
    let c = b ^ (b >> 33);
    let d = c.wrapping_mul(FINAL_MULTIPLIER_2);
    d ^ (d >> 33)
}

} // verus!
