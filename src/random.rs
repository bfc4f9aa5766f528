//! A small deterministic source of pseudo-random numbers (xorshift64).
//!
//! The generator's whole state is one `u64`, owned by its caller, so a game
//! seeded with the same value places its food in the same cells every run.
use vstd::prelude::*;

verus! {

/// One xorshift64 step: the state that follows `s`.
pub open spec fn next_state(s: u64) -> u64 {
    let a = s ^ (s << 13u64);
    let b = a ^ (a >> 7u64);
    b ^ (b << 17u64)
}

/// The raw draw taken from a state: its upper 31 bits.
pub open spec fn draw(s: u64) -> u64 {
    s >> 33u64
}

/// The value that `random_range(s, low, high)` returns.
pub open spec fn range_value(s: u64, low: int, high: int) -> int {
    low + (draw(next_state(s)) as int) % (high - low)
}

/// `range_value(s, low, high)` lies in `[low, high)`.
pub proof fn lemma_range_value_bounds(s: u64, low: int, high: int)
    requires
        low < high,
    ensures
        low <= range_value(s, low, high) < high,
{
    let d = draw(next_state(s)) as int;
    assert(0 <= d % (high - low) < high - low) by (nonlinear_arith)
        requires
            d >= 0,
            high - low > 0,
    ;
}

/// Advances `state` once and returns a value in `[low, high)` taken from it.
pub fn random_range(state: &mut u64, low: usize, high: usize) -> (r: usize)
    requires
        low < high,
    ensures
        *final(state) == next_state(*old(state)),
        r == range_value(*old(state), low as int, high as int),
        low <= r < high,
{
    let s = *state;
    let a = s ^ (s << 13u64);
    let b = a ^ (a >> 7u64);
    let n = b ^ (b << 17u64);
    *state = n;
    let d = n >> 33u64;
    assert(d <= 0x7fff_ffffu64) by (bit_vector)
        requires d == n >> 33u64;
    let d = d as usize;
    low + d % (high - low)
}

} // verus!
