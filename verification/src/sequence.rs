//! Arithmetic of the sequence counter.
//!
//! The counter is a `usize` that only ever moves forward by one, wrapping at
//! the top. Its parity is the whole of what it tells a reader: an even value
//! means that no write is under way, an odd value that one is.

use vstd::prelude::*;

verus! {

/// The number of distinct counter values: one more than the largest.
pub open spec fn modulus() -> int {
    usize::MAX + 1
}

/// Whether a counter value says that a write is under way: whether it is odd.
pub open spec fn write_in_progress(seq: usize) -> bool {
    seq % 2 == 1
}

/// The counter value that follows `seq`: one more, with the largest value
/// followed by zero.
pub open spec fn advanced(seq: usize) -> usize {
    if seq == usize::MAX {
        0
    } else {
        (seq + 1) as usize
    }
}

/// The counter value after `ticks` advances from zero.
pub open spec fn counter_after(ticks: nat) -> usize {
    (ticks as int % modulus()) as usize
}

/// Tells whether `seq` is the counter of a write under way.
pub fn is_write_in_progress(seq: usize) -> (odd: bool)
    ensures
        odd == write_in_progress(seq),
{
    assert(seq & 1 != 0 <==> seq % 2 == 1) by (bit_vector);
    seq & 1 != 0
}

/// Moves a counter value one step forward, wrapping at the top.
pub fn advance(seq: usize) -> (next: usize)
    ensures
        next == advanced(seq),
    opens_invariants none
    no_unwind
{
    if seq == usize::MAX {
        0
    } else {
        seq + 1
    }
}

/// One advance turns an even counter odd and an odd counter even, also where
/// it wraps: the largest value is odd and zero is even.
pub proof fn advance_flips_parity(seq: usize)
    ensures
        write_in_progress(advanced(seq)) == !write_in_progress(seq),
{
    assert(usize::MAX % 2 == 1) by {
        assert(usize::MAX == 0xffff_ffff || usize::MAX == 0xffff_ffff_ffff_ffff);
    }
}

/// Two advances, the one that begins a write and the one that ends it, move
/// the counter by exactly two modulo the number of counter values.
pub proof fn two_advances_add_two(seq: usize)
    ensures
        advanced(advanced(seq)) == (seq + 2) % modulus(),
        write_in_progress(advanced(advanced(seq))) == write_in_progress(seq),
{
    advance_flips_parity(seq);
    advance_flips_parity(advanced(seq));
    let m = modulus();
    let sum = seq + 2;
    if sum < m {
        assert(sum % m == sum) by (nonlinear_arith)
            requires
                0 <= sum < m,
        ;
    } else {
        assert(sum % m == sum - m) by (nonlinear_arith)
            requires
                m <= sum < 2 * m,
        ;
    }
}

/// A counter that has advanced `ticks` times from zero advances once more to
/// the value after `ticks + 1` advances.
pub proof fn counter_after_next(ticks: nat)
    ensures
        counter_after(ticks + 1) == advanced(counter_after(ticks)),
        write_in_progress(counter_after(ticks)) == (ticks % 2 == 1),
{
    let m = modulus();
    assert(m == 0x1_0000_0000 || m == 0x1_0000_0000_0000_0000) by {
        assert(usize::MAX == 0xffff_ffff || usize::MAX == 0xffff_ffff_ffff_ffff);
    }
    let q = ticks as int / m;
    let r = ticks as int % m;
    assert(ticks as int == q * m + r && 0 <= r < m) by (nonlinear_arith)
        requires
            q == ticks as int / m,
            r == ticks as int % m,
            m > 0,
    ;
    if r + 1 < m {
        assert((ticks as int + 1) % m == r + 1) by (nonlinear_arith)
            requires
                ticks as int == q * m + r,
                0 <= r,
                r + 1 < m,
        ;
    } else {
        assert((ticks as int + 1) % m == 0) by (nonlinear_arith)
            requires
                ticks as int == q * m + r,
                r + 1 == m,
                m > 0,
        ;
    }
    assert(r % 2 == ticks as int % 2) by (nonlinear_arith)
        requires
            ticks as int == q * m + r,
            m == 0x1_0000_0000 || m == 0x1_0000_0000_0000_0000,
    ;
}

/// Two tick counts that give the same counter value and lie less than one
/// full turn of the counter apart are the same tick count.
pub proof fn same_counter_same_ticks(earlier: nat, later: nat)
    requires
        earlier <= later,
        later - earlier < modulus(),
        counter_after(earlier) == counter_after(later),
    ensures
        earlier == later,
{
    let m = modulus();
    assert(m > 0);
    assert(earlier == later) by (nonlinear_arith)
        requires
            m > 0,
            earlier <= later,
            later - earlier < m,
            earlier as int % m == later as int % m,
    ;
}

} // verus!
