//! Arithmetic between playing positions and semitone shifts.
//!
//! A playing position is an integer in `[1, 12]` naming a performance
//! convention (1st position, 2nd position, ...). Moving up one semitone moves
//! the position seven steps around the circle of fifths, so position and
//! semitone shift are related by a fixed permutation of the twelve residue
//! classes. Positions are an octave-invariant concept: the two directions of
//! the conversion are mutual inverses only modulo twelve semitones.

use vstd::prelude::*;

verus! {

/// Position reached from 1st position after shifting by `i` semitones,
/// minus one, for each residue class `i` of a semitone shift.
pub open spec fn position_diff_table(i: int) -> int {
    seq![0int, 7, 2, 9, 4, 11, 6, 1, 8, 3, 10, 5][i]
}

pub open spec fn spec_semitones_to_position(starting_pos: int, semitones: int) -> int {
    (position_diff_table(semitones % 12) + starting_pos - 1) % 12 + 1
}

pub open spec fn spec_positions_to_semitones(
    from_position: int,
    to_position: int,
    octave_shift: int,
) -> int {
    ((to_position - from_position) * 7) % 12 + 12 * octave_shift
}

/// Remainder of `x` modulo 12 in Euclidean form: the result is in `[0, 12)`
/// whatever the sign of `x`.
fn euclid_rem_12(x: i64) -> (r: u32)
    requires
        -0x4000_0000_0000_0000 <= x <= 0x4000_0000_0000_0000,
    ensures
        r == x as int % 12,
        r < 12,
{
    let m: i64 = x % 12;
    if m < 0 {
        (m + 12) as u32
    } else {
        m as u32
    }
}

/// Entry of `position_diff_table` as an executable value.
fn position_diff_entry(i: u32) -> (r: u32)
    requires
        i < 12,
    ensures
        r == position_diff_table(i as int),
        r < 12,
{
    match i {
        0 => 0,
        1 => 7,
        2 => 2,
        3 => 9,
        4 => 4,
        5 => 11,
        6 => 6,
        7 => 1,
        8 => 8,
        9 => 3,
        10 => 10,
        _ => 5,
    }
}

/// Position reached when a tab played in `starting_pos` is transposed by
/// `semitones`; total over every semitone shift by modular arithmetic.
pub fn semitones_to_position(starting_pos: u32, semitones: i32) -> (r: u32)
    requires
        1 <= starting_pos <= 12,
    ensures
        r == spec_semitones_to_position(starting_pos as int, semitones as int),
        1 <= r <= 12,
{
    let index = euclid_rem_12(semitones as i64);
    let diff = position_diff_entry(index);
    (diff + starting_pos - 1) % 12 + 1
}

/// Semitone shift that moves a tab from `from_position` to `to_position`,
/// raised or lowered by whole octaves; the in-octave part is never negative.
/// The bound on `octave_shift` only keeps the result inside `i32`.
pub fn positions_to_semitones(
    from_position: i32,
    to_position: i32,
    octave_shift: i32,
) -> (r: i32)
    requires
        -178_956_970 <= octave_shift <= 178_956_969,
    ensures
        r == spec_positions_to_semitones(
            from_position as int,
            to_position as int,
            octave_shift as int,
        ),
{
    let diff: i64 = to_position as i64 - from_position as i64;
    let rem: u32 = euclid_rem_12(diff * 7);
    (rem as i64 + 12 * octave_shift as i64) as i32
}

/// The two conversions are mutual inverses modulo the octave: converting a
/// shift to the position it reaches and back recovers the shift's residue
/// class, never more.
pub proof fn lemma_position_round_trip(p: int, shift: int)
    requires
        1 <= p <= 12,
    ensures
        spec_positions_to_semitones(p, spec_semitones_to_position(p, shift), 0) == shift % 12,
{
    let k = shift % 12;
    vstd::arithmetic::div_mod::lemma_mod_bound(shift, 12);
    assert(0 <= k < 12);
    let t = position_diff_table(k);
    assert((t * 7) % 12 == k) by {
        if k == 0 {
            assert(position_diff_table(0) == 0);
        } else if k == 1 {
            assert(position_diff_table(1) == 7);
        } else if k == 2 {
            assert(position_diff_table(2) == 2);
        } else if k == 3 {
            assert(position_diff_table(3) == 9);
        } else if k == 4 {
            assert(position_diff_table(4) == 4);
        } else if k == 5 {
            assert(position_diff_table(5) == 11);
        } else if k == 6 {
            assert(position_diff_table(6) == 6);
        } else if k == 7 {
            assert(position_diff_table(7) == 1);
        } else if k == 8 {
            assert(position_diff_table(8) == 8);
        } else if k == 9 {
            assert(position_diff_table(9) == 3);
        } else if k == 10 {
            assert(position_diff_table(10) == 10);
        } else {
            assert(position_diff_table(11) == 5);
        }
    }
    let q = (t + p - 1) % 12 + 1;
    vstd::arithmetic::div_mod::lemma_fundamental_div_mod(t + p - 1, 12);
    let quo = (t + p - 1) / 12;
    assert(q - p == t - 12 * quo);
    assert((q - p) * 7 == t * 7 - 12 * (quo * 7)) by (nonlinear_arith)
        requires
            q - p == t - 12 * quo,
    ;
    vstd::arithmetic::div_mod::lemma_mod_multiples_vanish(-(quo * 7), t * 7, 12);
    assert(((q - p) * 7) % 12 == (t * 7) % 12);
}

} // verus!
