//! Integer encodings used when shipping feature data to a learner:
//! a base-128 run-length (varint) encoding of unsigned integers, and the
//! zigzag mapping of signed integers onto unsigned ones.

use vstd::prelude::*;

verus! {

/// The base-128 encoding of `n`, least significant group first; every byte
/// but the last carries a continuation marker in its high bit.
pub open spec fn run_len_encode_spec(n: u64) -> Seq<u8>
    decreases n,
    via run_len_encode_spec_decreases
{
    if n < 128 {
        seq![n as u8]
    } else {
        seq![(n % 128 + 128) as u8] + run_len_encode_spec(n / 128)
    }
}

#[via_fn]
proof fn run_len_encode_spec_decreases(n: u64) {
    if n >= 128 {
        assert(n / 128 < n) by (nonlinear_arith)
            requires n >= 128,
        ;
    }
}

/// Encodes `n` in base-128 groups of 7 bits, least significant first, with
/// the high bit of each byte marking that another byte follows.
pub fn run_len_encode(input: u64) -> (buf: Vec<u8>)
    ensures
        buf@ == run_len_encode_spec(input),
{
    let mut buf: Vec<u8> = Vec::new();
    let mut x = input;
    while x >= 128
        invariant
            run_len_encode_spec(input) =~= buf@ + run_len_encode_spec(x),
        decreases x,
    {
        buf.push(((x % 128) + 128) as u8);
        proof {
            assert(run_len_encode_spec(input) =~= buf@ + run_len_encode_spec(x / 128));
            assert(x / 128 < x) by (nonlinear_arith)
                requires x >= 128,
            ;
        }
        x = x / 128;
    }
    buf.push(x as u8);
    proof {
        assert(buf@ =~= run_len_encode_spec(input));
    }
    buf
}

/// The zigzag image of `n`: non-negative integers go to the even numbers in
/// order, negative ones to the odd numbers in order of distance from zero.
pub open spec fn zigzag_encode_spec(n: i64) -> u64 {
    if n >= 0 {
        (2 * n) as u64
    } else {
        (-2 * n - 1) as u64
    }
}

/// Maps a signed integer onto an unsigned one: `0, -1, 1, -2, 2, ...` go to
/// `0, 1, 2, 3, 4, ...`, so that integers near zero stay small.
pub fn zigzag_encode(input: i64) -> (r: u64)
    ensures
        r == zigzag_encode_spec(input),
{
    if input >= 0 {
        2 * (input as u64)
    } else {
        2 * ((-(input + 1)) as u64) + 1
    }
}

} // verus!
