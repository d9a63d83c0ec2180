//! The options a command-line caller hands the engine, and the rule that
//! resolves them to one semitone shift.

use vstd::prelude::*;
use crate::position::{positions_to_semitones, spec_positions_to_semitones};
use crate::style::Style;

verus! {

/// One transposition request as a command-line caller states it.
pub struct RunOptions<'a> {
    pub filename: &'a str,
    pub semitones: i32,
    pub from_position: i32,
    pub to_position: Option<i32>,
    pub octave_shift: i32,
    pub keep_errors: bool,
    pub style: Style,
    pub input_tuning: &'a str,
    pub output_tuning: &'a str,
    pub play_audio: bool,
    pub playable_positions: bool,
    pub allow_bends: bool,
}

/// The shift the options call for: a target position wins over an explicit
/// shift, an octave shift alone moves relative to first position, and
/// otherwise the explicit shift stands.
pub open spec fn spec_effective_semitones(
    semitones: int,
    from_position: int,
    to_position: Option<i32>,
    octave_shift: int,
) -> int {
    match to_position {
        Some(t) => spec_positions_to_semitones(from_position, t as int, octave_shift),
        None => if octave_shift != 0 {
            spec_positions_to_semitones(from_position, 1, octave_shift)
        } else {
            semitones
        },
    }
}

impl<'a> RunOptions<'a> {
    /// The semitone shift these options resolve to. The bound on
    /// `octave_shift` only keeps the result inside `i32`.
    pub fn effective_semitones(&self) -> (r: i32)
        requires
            -178_956_970 <= self.octave_shift <= 178_956_969,
        ensures
            r == spec_effective_semitones(
                self.semitones as int,
                self.from_position as int,
                self.to_position,
                self.octave_shift as int,
            ),
    {
        match self.to_position {
            Some(t) => positions_to_semitones(self.from_position, t, self.octave_shift),
            None => {
                if self.octave_shift != 0 {
                    positions_to_semitones(self.from_position, 1, self.octave_shift)
                } else {
                    self.semitones
                }
            },
        }
    }
}

} // verus!
