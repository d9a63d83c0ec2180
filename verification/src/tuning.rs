//! The tuning registry: each supported tuning's per-hole note data.
//!
//! A tuning gives, for each hole, the pitch of the plain blow and draw notes
//! (in semitones above the tuning's lowest written note) and flags saying
//! which bends, overblows and overdraws the tuning defines for that hole.
//! Absence of a bend row entry is legitimate data, not an error. The pitch of
//! each bend is fixed by its kind: a draw bend flattens the draw note by one
//! semitone per marker, a blow bend flattens the blow note, an overblow
//! sounds one semitone above the draw note and an overdraw one semitone
//! above the blow note.

use vstd::prelude::*;
use crate::text::str_eq;

verus! {

/// An instrument tuning: seven per-hole attribute rows beside the blow and
/// draw notes. All nine rows have one entry per hole.
pub struct Tuning {
    pub blow: Vec<i32>,
    pub draw: Vec<i32>,
    pub bends_half: Vec<bool>,
    pub bends_full: Vec<bool>,
    pub bends_one_and_half: Vec<bool>,
    pub blow_bends_half: Vec<bool>,
    pub blow_bends_full: Vec<bool>,
    pub overblows: Vec<bool>,
    pub overdraws: Vec<bool>,
}

/// The mathematical content of a `Tuning`.
#[verifier::ext_equal]
pub struct TuningModel {
    pub blow: Seq<i32>,
    pub draw: Seq<i32>,
    pub bends_half: Seq<bool>,
    pub bends_full: Seq<bool>,
    pub bends_one_and_half: Seq<bool>,
    pub blow_bends_half: Seq<bool>,
    pub blow_bends_full: Seq<bool>,
    pub overblows: Seq<bool>,
    pub overdraws: Seq<bool>,
}

impl View for Tuning {
    type V = TuningModel;

    open spec fn view(&self) -> TuningModel {
        TuningModel {
            blow: self.blow@,
            draw: self.draw@,
            bends_half: self.bends_half@,
            bends_full: self.bends_full@,
            bends_one_and_half: self.bends_one_and_half@,
            blow_bends_half: self.blow_bends_half@,
            blow_bends_full: self.blow_bends_full@,
            overblows: self.overblows@,
            overdraws: self.overdraws@,
        }
    }
}

/// The per-hole conditions a well-formed tuning meets: pitches stay in a
/// small fixed range, and a bend is only defined where flattening keeps the
/// pitch non-negative.
pub open spec fn hole_ok(t: TuningModel, h: int) -> bool {
    &&& 0 <= t.blow[h] <= 120
    &&& 0 <= t.draw[h] <= 120
    &&& (t.bends_half[h] ==> t.draw[h] >= 1)
    &&& (t.bends_full[h] ==> t.draw[h] >= 2)
    &&& (t.bends_one_and_half[h] ==> t.draw[h] >= 3)
    &&& (t.blow_bends_half[h] ==> t.blow[h] >= 1)
    &&& (t.blow_bends_full[h] ==> t.blow[h] >= 2)
}

pub open spec fn holes_ok_from(t: TuningModel, h: int) -> bool
    decreases t.blow.len() - h when 0 <= h <= t.blow.len()
{
    if h >= t.blow.len() {
        true
    } else {
        hole_ok(t, h) && holes_ok_from(t, h + 1)
    }
}

/// Well-formedness of a tuning: every attribute row has one entry per hole,
/// every hole meets `hole_ok`, and pitches are anchored so that the blow
/// note of the first hole is the tuning's lowest written note.
pub open spec fn wf_model(t: TuningModel) -> bool {
    &&& 1 <= t.blow.len() <= 100
    &&& t.blow[0] == 0
    &&& t.draw.len() == t.blow.len()
    &&& t.bends_half.len() == t.blow.len()
    &&& t.bends_full.len() == t.blow.len()
    &&& t.bends_one_and_half.len() == t.blow.len()
    &&& t.blow_bends_half.len() == t.blow.len()
    &&& t.blow_bends_full.len() == t.blow.len()
    &&& t.overblows.len() == t.blow.len()
    &&& t.overdraws.len() == t.blow.len()
    &&& holes_ok_from(t, 0)
}

proof fn lemma_holes_ok_step(t: TuningModel, from: int, h: int)
    requires
        holes_ok_from(t, from),
        0 <= from <= h < t.blow.len(),
    ensures
        hole_ok(t, h),
    decreases h - from,
{
    if from < h {
        lemma_holes_ok_step(t, from + 1, h);
    }
}

pub proof fn lemma_wf_hole_ok(t: TuningModel, h: int)
    requires
        wf_model(t),
        0 <= h < t.blow.len(),
    ensures
        hole_ok(t, h),
{
    lemma_holes_ok_step(t, 0, h);
}

pub open spec fn spec_richter() -> TuningModel {
    TuningModel {
        blow: seq![0i32, 4, 7, 12, 16, 19, 24, 28, 31, 36],
        draw: seq![2i32, 7, 11, 14, 17, 21, 23, 26, 29, 33],
        bends_half: seq![true, true, true, true, false, true, false, false, false, false],
        bends_full: seq![false, true, true, false, false, false, false, false, false, false],
        bends_one_and_half: seq![false, false, true, false, false, false, false, false, false, false],
        blow_bends_half: seq![false, false, false, false, false, false, false, true, true, true],
        blow_bends_full: seq![false, false, false, false, false, false, false, false, false, true],
        overblows: seq![true, false, false, true, true, true, false, false, false, false],
        overdraws: seq![false, false, false, false, false, false, true, false, true, true],
    }
}

fn richter_tuning() -> (t: Tuning)
    ensures
        t@ == spec_richter(),
{
    let t = Tuning {
        blow: vec![0i32, 4, 7, 12, 16, 19, 24, 28, 31, 36],
        draw: vec![2i32, 7, 11, 14, 17, 21, 23, 26, 29, 33],
        bends_half: vec![true, true, true, true, false, true, false, false, false, false],
        bends_full: vec![false, true, true, false, false, false, false, false, false, false],
        bends_one_and_half: vec![false, false, true, false, false, false, false, false, false, false],
        blow_bends_half: vec![false, false, false, false, false, false, false, true, true, true],
        blow_bends_full: vec![false, false, false, false, false, false, false, false, false, true],
        overblows: vec![true, false, false, true, true, true, false, false, false, false],
        overdraws: vec![false, false, false, false, false, false, true, false, true, true],
    };
    proof {
        assert(t@ =~~= spec_richter());
    }
    t
}

pub open spec fn spec_paddy_richter() -> TuningModel {
    TuningModel {
        blow: seq![0i32, 4, 9, 12, 16, 19, 24, 28, 31, 36],
        draw: seq![2i32, 7, 11, 14, 17, 21, 23, 26, 29, 33],
        bends_half: seq![true, true, true, true, false, true, false, false, false, false],
        bends_full: seq![false, true, false, false, false, false, false, false, false, false],
        bends_one_and_half: seq![false, false, false, false, false, false, false, false, false, false],
        blow_bends_half: seq![false, false, false, false, false, false, false, true, true, true],
        blow_bends_full: seq![false, false, false, false, false, false, false, false, false, true],
        overblows: seq![true, false, false, true, true, true, false, false, false, false],
        overdraws: seq![false, false, false, false, false, false, true, false, true, true],
    }
}

fn paddy_richter_tuning() -> (t: Tuning)
    ensures
        t@ == spec_paddy_richter(),
{
    let t = Tuning {
        blow: vec![0i32, 4, 9, 12, 16, 19, 24, 28, 31, 36],
        draw: vec![2i32, 7, 11, 14, 17, 21, 23, 26, 29, 33],
        bends_half: vec![true, true, true, true, false, true, false, false, false, false],
        bends_full: vec![false, true, false, false, false, false, false, false, false, false],
        bends_one_and_half: vec![false, false, false, false, false, false, false, false, false, false],
        blow_bends_half: vec![false, false, false, false, false, false, false, true, true, true],
        blow_bends_full: vec![false, false, false, false, false, false, false, false, false, true],
        overblows: vec![true, false, false, true, true, true, false, false, false, false],
        overdraws: vec![false, false, false, false, false, false, true, false, true, true],
    };
    proof {
        assert(t@ =~~= spec_paddy_richter());
    }
    t
}

pub open spec fn spec_country() -> TuningModel {
    TuningModel {
        blow: seq![0i32, 4, 7, 12, 16, 19, 24, 28, 31, 36],
        draw: seq![2i32, 7, 11, 14, 18, 21, 23, 26, 29, 33],
        bends_half: seq![true, true, true, true, true, true, false, false, false, false],
        bends_full: seq![false, true, true, false, false, false, false, false, false, false],
        bends_one_and_half: seq![false, false, true, false, false, false, false, false, false, false],
        blow_bends_half: seq![false, false, false, false, false, false, false, true, true, true],
        blow_bends_full: seq![false, false, false, false, false, false, false, false, false, true],
        overblows: seq![true, false, false, true, false, true, false, false, false, false],
        overdraws: seq![false, false, false, false, false, false, true, false, true, true],
    }
}

fn country_tuning() -> (t: Tuning)
    ensures
        t@ == spec_country(),
{
    let t = Tuning {
        blow: vec![0i32, 4, 7, 12, 16, 19, 24, 28, 31, 36],
        draw: vec![2i32, 7, 11, 14, 18, 21, 23, 26, 29, 33],
        bends_half: vec![true, true, true, true, true, true, false, false, false, false],
        bends_full: vec![false, true, true, false, false, false, false, false, false, false],
        bends_one_and_half: vec![false, false, true, false, false, false, false, false, false, false],
        blow_bends_half: vec![false, false, false, false, false, false, false, true, true, true],
        blow_bends_full: vec![false, false, false, false, false, false, false, false, false, true],
        overblows: vec![true, false, false, true, false, true, false, false, false, false],
        overdraws: vec![false, false, false, false, false, false, true, false, true, true],
    };
    proof {
        assert(t@ =~~= spec_country());
    }
    t
}

pub open spec fn spec_natural_minor() -> TuningModel {
    TuningModel {
        blow: seq![0i32, 3, 7, 12, 15, 19, 24, 27, 31, 36],
        draw: seq![2i32, 7, 10, 14, 17, 21, 22, 26, 29, 33],
        bends_half: seq![true, true, true, true, true, true, false, false, false, false],
        bends_full: seq![false, true, true, false, false, false, false, false, false, false],
        bends_one_and_half: seq![false, true, false, false, false, false, false, false, false, false],
        blow_bends_half: seq![false, false, false, false, false, false, true, false, true, true],
        blow_bends_full: seq![false, false, false, false, false, false, false, false, false, true],
        overblows: seq![false, false, false, false, false, false, false, false, false, false],
        overdraws: seq![false, false, false, false, false, false, false, false, false, false],
    }
}

fn natural_minor_tuning() -> (t: Tuning)
    ensures
        t@ == spec_natural_minor(),
{
    let t = Tuning {
        blow: vec![0i32, 3, 7, 12, 15, 19, 24, 27, 31, 36],
        draw: vec![2i32, 7, 10, 14, 17, 21, 22, 26, 29, 33],
        bends_half: vec![true, true, true, true, true, true, false, false, false, false],
        bends_full: vec![false, true, true, false, false, false, false, false, false, false],
        bends_one_and_half: vec![false, true, false, false, false, false, false, false, false, false],
        blow_bends_half: vec![false, false, false, false, false, false, true, false, true, true],
        blow_bends_full: vec![false, false, false, false, false, false, false, false, false, true],
        overblows: vec![false, false, false, false, false, false, false, false, false, false],
        overdraws: vec![false, false, false, false, false, false, false, false, false, false],
    };
    proof {
        assert(t@ =~~= spec_natural_minor());
    }
    t
}

pub open spec fn spec_harmonic_minor() -> TuningModel {
    TuningModel {
        blow: seq![0i32, 3, 7, 12, 15, 19, 24, 27, 31, 36],
        draw: seq![2i32, 7, 11, 14, 17, 20, 23, 26, 29, 32],
        bends_half: seq![true, true, true, true, true, false, false, false, false, false],
        bends_full: seq![false, true, true, false, false, false, false, false, false, false],
        bends_one_and_half: seq![false, true, true, false, false, false, false, false, false, false],
        blow_bends_half: seq![false, false, false, false, false, false, false, false, true, true],
        blow_bends_full: seq![false, false, false, false, false, false, false, false, false, true],
        overblows: seq![false, false, false, false, false, false, false, false, false, false],
        overdraws: seq![false, false, false, false, false, false, false, false, false, false],
    }
}

fn harmonic_minor_tuning() -> (t: Tuning)
    ensures
        t@ == spec_harmonic_minor(),
{
    let t = Tuning {
        blow: vec![0i32, 3, 7, 12, 15, 19, 24, 27, 31, 36],
        draw: vec![2i32, 7, 11, 14, 17, 20, 23, 26, 29, 32],
        bends_half: vec![true, true, true, true, true, false, false, false, false, false],
        bends_full: vec![false, true, true, false, false, false, false, false, false, false],
        bends_one_and_half: vec![false, true, true, false, false, false, false, false, false, false],
        blow_bends_half: vec![false, false, false, false, false, false, false, false, true, true],
        blow_bends_full: vec![false, false, false, false, false, false, false, false, false, true],
        overblows: vec![false, false, false, false, false, false, false, false, false, false],
        overdraws: vec![false, false, false, false, false, false, false, false, false, false],
    };
    proof {
        assert(t@ =~~= spec_harmonic_minor());
    }
    t
}

pub open spec fn spec_wilde() -> TuningModel {
    TuningModel {
        blow: seq![0i32, 4, 7, 12, 16, 16, 19, 24, 28, 31],
        draw: seq![2i32, 7, 11, 14, 17, 19, 23, 26, 31, 34],
        bends_half: seq![true, true, true, true, false, true, true, true, true, true],
        bends_full: seq![false, true, true, false, false, true, true, false, true, true],
        bends_one_and_half: seq![false, false, true, false, false, false, true, false, false, false],
        blow_bends_half: seq![false, false, false, false, false, false, false, false, false, false],
        blow_bends_full: seq![false, false, false, false, false, false, false, false, false, false],
        overblows: seq![true, false, false, true, false, false, false, true, true, true],
        overdraws: seq![false, false, false, false, false, false, false, false, false, false],
    }
}

fn wilde_tuning() -> (t: Tuning)
    ensures
        t@ == spec_wilde(),
{
    let t = Tuning {
        blow: vec![0i32, 4, 7, 12, 16, 16, 19, 24, 28, 31],
        draw: vec![2i32, 7, 11, 14, 17, 19, 23, 26, 31, 34],
        bends_half: vec![true, true, true, true, false, true, true, true, true, true],
        bends_full: vec![false, true, true, false, false, true, true, false, true, true],
        bends_one_and_half: vec![false, false, true, false, false, false, true, false, false, false],
        blow_bends_half: vec![false, false, false, false, false, false, false, false, false, false],
        blow_bends_full: vec![false, false, false, false, false, false, false, false, false, false],
        overblows: vec![true, false, false, true, false, false, false, true, true, true],
        overdraws: vec![false, false, false, false, false, false, false, false, false, false],
    };
    proof {
        assert(t@ =~~= spec_wilde());
    }
    t
}

pub open spec fn spec_wilde_minor() -> TuningModel {
    TuningModel {
        blow: seq![0i32, 3, 7, 12, 15, 15, 19, 24, 27, 31],
        draw: seq![2i32, 7, 10, 14, 17, 19, 22, 26, 31, 34],
        bends_half: seq![true, true, true, true, true, true, true, true, true, true],
        bends_full: seq![false, true, true, false, false, true, true, false, true, true],
        bends_one_and_half: seq![false, true, false, false, false, true, false, false, true, false],
        blow_bends_half: seq![false, false, false, false, false, false, false, false, false, false],
        blow_bends_full: seq![false, false, false, false, false, false, false, false, false, false],
        overblows: seq![false, false, false, false, false, false, false, false, false, false],
        overdraws: seq![false, false, false, false, false, false, false, false, false, false],
    }
}

fn wilde_minor_tuning() -> (t: Tuning)
    ensures
        t@ == spec_wilde_minor(),
{
    let t = Tuning {
        blow: vec![0i32, 3, 7, 12, 15, 15, 19, 24, 27, 31],
        draw: vec![2i32, 7, 10, 14, 17, 19, 22, 26, 31, 34],
        bends_half: vec![true, true, true, true, true, true, true, true, true, true],
        bends_full: vec![false, true, true, false, false, true, true, false, true, true],
        bends_one_and_half: vec![false, true, false, false, false, true, false, false, true, false],
        blow_bends_half: vec![false, false, false, false, false, false, false, false, false, false],
        blow_bends_full: vec![false, false, false, false, false, false, false, false, false, false],
        overblows: vec![false, false, false, false, false, false, false, false, false, false],
        overdraws: vec![false, false, false, false, false, false, false, false, false, false],
    };
    proof {
        assert(t@ =~~= spec_wilde_minor());
    }
    t
}

pub open spec fn spec_pentaharp() -> TuningModel {
    TuningModel {
        blow: seq![0i32, 3, 5, 7, 10, 12, 15, 17, 19, 22],
        draw: seq![3i32, 5, 7, 10, 12, 15, 17, 19, 22, 24],
        bends_half: seq![true, true, true, true, true, true, true, true, true, true],
        bends_full: seq![true, false, false, true, false, true, false, false, true, false],
        bends_one_and_half: seq![false, false, false, false, false, false, false, false, false, false],
        blow_bends_half: seq![false, false, false, false, false, false, false, false, false, false],
        blow_bends_full: seq![false, false, false, false, false, false, false, false, false, false],
        overblows: seq![false, false, false, false, false, false, false, false, false, false],
        overdraws: seq![false, false, false, false, false, false, false, false, false, false],
    }
}

fn pentaharp_tuning() -> (t: Tuning)
    ensures
        t@ == spec_pentaharp(),
{
    let t = Tuning {
        blow: vec![0i32, 3, 5, 7, 10, 12, 15, 17, 19, 22],
        draw: vec![3i32, 5, 7, 10, 12, 15, 17, 19, 22, 24],
        bends_half: vec![true, true, true, true, true, true, true, true, true, true],
        bends_full: vec![true, false, false, true, false, true, false, false, true, false],
        bends_one_and_half: vec![false, false, false, false, false, false, false, false, false, false],
        blow_bends_half: vec![false, false, false, false, false, false, false, false, false, false],
        blow_bends_full: vec![false, false, false, false, false, false, false, false, false, false],
        overblows: vec![false, false, false, false, false, false, false, false, false, false],
        overdraws: vec![false, false, false, false, false, false, false, false, false, false],
    };
    proof {
        assert(t@ =~~= spec_pentaharp());
    }
    t
}

pub open spec fn spec_powerbender() -> TuningModel {
    TuningModel {
        blow: seq![0i32, 4, 7, 12, 14, 17, 21, 24, 28, 33],
        draw: seq![2i32, 7, 11, 14, 17, 21, 23, 26, 31, 36],
        bends_half: seq![true, true, true, true, true, true, true, true, true, true],
        bends_full: seq![false, true, true, false, true, true, false, false, true, true],
        bends_one_and_half: seq![false, false, true, false, false, true, false, false, false, false],
        blow_bends_half: seq![false, false, false, false, false, false, false, false, false, false],
        blow_bends_full: seq![false, false, false, false, false, false, false, false, false, false],
        overblows: seq![false, false, false, false, false, false, false, false, false, false],
        overdraws: seq![false, false, false, false, false, false, false, false, false, false],
    }
}

fn powerbender_tuning() -> (t: Tuning)
    ensures
        t@ == spec_powerbender(),
{
    let t = Tuning {
        blow: vec![0i32, 4, 7, 12, 14, 17, 21, 24, 28, 33],
        draw: vec![2i32, 7, 11, 14, 17, 21, 23, 26, 31, 36],
        bends_half: vec![true, true, true, true, true, true, true, true, true, true],
        bends_full: vec![false, true, true, false, true, true, false, false, true, true],
        bends_one_and_half: vec![false, false, true, false, false, true, false, false, false, false],
        blow_bends_half: vec![false, false, false, false, false, false, false, false, false, false],
        blow_bends_full: vec![false, false, false, false, false, false, false, false, false, false],
        overblows: vec![false, false, false, false, false, false, false, false, false, false],
        overdraws: vec![false, false, false, false, false, false, false, false, false, false],
    };
    proof {
        assert(t@ =~~= spec_powerbender());
    }
    t
}

pub open spec fn spec_powerdraw() -> TuningModel {
    TuningModel {
        blow: seq![0i32, 4, 7, 12, 16, 19, 21, 24, 28, 33],
        draw: seq![2i32, 7, 11, 14, 17, 21, 23, 26, 31, 36],
        bends_half: seq![true, true, true, true, false, true, true, true, true, true],
        bends_full: seq![false, true, true, false, false, false, false, false, true, true],
        bends_one_and_half: seq![false, false, true, false, false, false, false, false, false, false],
        blow_bends_half: seq![false, false, false, false, false, false, false, false, false, false],
        blow_bends_full: seq![false, false, false, false, false, false, false, false, false, false],
        overblows: seq![false, false, false, false, false, false, false, false, false, false],
        overdraws: seq![false, false, false, false, false, false, false, false, false, false],
    }
}

fn powerdraw_tuning() -> (t: Tuning)
    ensures
        t@ == spec_powerdraw(),
{
    let t = Tuning {
        blow: vec![0i32, 4, 7, 12, 16, 19, 21, 24, 28, 33],
        draw: vec![2i32, 7, 11, 14, 17, 21, 23, 26, 31, 36],
        bends_half: vec![true, true, true, true, false, true, true, true, true, true],
        bends_full: vec![false, true, true, false, false, false, false, false, true, true],
        bends_one_and_half: vec![false, false, true, false, false, false, false, false, false, false],
        blow_bends_half: vec![false, false, false, false, false, false, false, false, false, false],
        blow_bends_full: vec![false, false, false, false, false, false, false, false, false, false],
        overblows: vec![false, false, false, false, false, false, false, false, false, false],
        overdraws: vec![false, false, false, false, false, false, false, false, false, false],
    };
    proof {
        assert(t@ =~~= spec_powerdraw());
    }
    t
}

pub open spec fn spec_diminished() -> TuningModel {
    TuningModel {
        blow: seq![0i32, 3, 6, 9, 12, 15, 18, 21, 24, 27],
        draw: seq![2i32, 5, 8, 11, 14, 17, 20, 23, 26, 29],
        bends_half: seq![true, true, true, true, true, true, true, true, true, true],
        bends_full: seq![false, false, false, false, false, false, false, false, false, false],
        bends_one_and_half: seq![false, false, false, false, false, false, false, false, false, false],
        blow_bends_half: seq![false, false, false, false, false, false, false, false, false, false],
        blow_bends_full: seq![false, false, false, false, false, false, false, false, false, false],
        overblows: seq![false, false, false, false, false, false, false, false, false, false],
        overdraws: seq![false, false, false, false, false, false, false, false, false, false],
    }
}

fn diminished_tuning() -> (t: Tuning)
    ensures
        t@ == spec_diminished(),
{
    let t = Tuning {
        blow: vec![0i32, 3, 6, 9, 12, 15, 18, 21, 24, 27],
        draw: vec![2i32, 5, 8, 11, 14, 17, 20, 23, 26, 29],
        bends_half: vec![true, true, true, true, true, true, true, true, true, true],
        bends_full: vec![false, false, false, false, false, false, false, false, false, false],
        bends_one_and_half: vec![false, false, false, false, false, false, false, false, false, false],
        blow_bends_half: vec![false, false, false, false, false, false, false, false, false, false],
        blow_bends_full: vec![false, false, false, false, false, false, false, false, false, false],
        overblows: vec![false, false, false, false, false, false, false, false, false, false],
        overdraws: vec![false, false, false, false, false, false, false, false, false, false],
    };
    proof {
        assert(t@ =~~= spec_diminished());
    }
    t
}

pub open spec fn spec_lucky_13_diminished() -> TuningModel {
    TuningModel {
        blow: seq![0i32, 3, 6, 9, 12, 15, 18, 21, 24, 27, 30, 33, 36],
        draw: seq![2i32, 5, 8, 11, 14, 17, 20, 23, 26, 29, 32, 35, 38],
        bends_half: seq![true, true, true, true, true, true, true, true, true, true, true, true, true],
        bends_full: seq![false, false, false, false, false, false, false, false, false, false, false, false, false],
        bends_one_and_half: seq![false, false, false, false, false, false, false, false, false, false, false, false, false],
        blow_bends_half: seq![false, false, false, false, false, false, false, false, false, false, false, false, false],
        blow_bends_full: seq![false, false, false, false, false, false, false, false, false, false, false, false, false],
        overblows: seq![false, false, false, false, false, false, false, false, false, false, false, false, false],
        overdraws: seq![false, false, false, false, false, false, false, false, false, false, false, false, false],
    }
}

fn lucky_13_diminished_tuning() -> (t: Tuning)
    ensures
        t@ == spec_lucky_13_diminished(),
{
    let t = Tuning {
        blow: vec![0i32, 3, 6, 9, 12, 15, 18, 21, 24, 27, 30, 33, 36],
        draw: vec![2i32, 5, 8, 11, 14, 17, 20, 23, 26, 29, 32, 35, 38],
        bends_half: vec![true, true, true, true, true, true, true, true, true, true, true, true, true],
        bends_full: vec![false, false, false, false, false, false, false, false, false, false, false, false, false],
        bends_one_and_half: vec![false, false, false, false, false, false, false, false, false, false, false, false, false],
        blow_bends_half: vec![false, false, false, false, false, false, false, false, false, false, false, false, false],
        blow_bends_full: vec![false, false, false, false, false, false, false, false, false, false, false, false, false],
        overblows: vec![false, false, false, false, false, false, false, false, false, false, false, false, false],
        overdraws: vec![false, false, false, false, false, false, false, false, false, false, false, false, false],
    };
    proof {
        assert(t@ =~~= spec_lucky_13_diminished());
    }
    t
}

pub open spec fn spec_lucky_13_powerchromatic() -> TuningModel {
    TuningModel {
        blow: seq![0i32, 4, 7, 9, 12, 16, 19, 21, 24, 28, 31, 33, 36],
        draw: seq![2i32, 6, 9, 11, 14, 18, 21, 23, 26, 30, 33, 35, 38],
        bends_half: seq![true, true, true, true, true, true, true, true, true, true, true, true, true],
        bends_full: seq![false, false, false, false, false, false, false, false, false, false, false, false, false],
        bends_one_and_half: seq![false, false, false, false, false, false, false, false, false, false, false, false, false],
        blow_bends_half: seq![false, false, false, false, false, false, false, false, false, false, false, false, false],
        blow_bends_full: seq![false, false, false, false, false, false, false, false, false, false, false, false, false],
        overblows: seq![false, false, false, false, false, false, false, false, false, false, false, false, false],
        overdraws: seq![false, false, false, false, false, false, false, false, false, false, false, false, false],
    }
}

fn lucky_13_powerchromatic_tuning() -> (t: Tuning)
    ensures
        t@ == spec_lucky_13_powerchromatic(),
{
    let t = Tuning {
        blow: vec![0i32, 4, 7, 9, 12, 16, 19, 21, 24, 28, 31, 33, 36],
        draw: vec![2i32, 6, 9, 11, 14, 18, 21, 23, 26, 30, 33, 35, 38],
        bends_half: vec![true, true, true, true, true, true, true, true, true, true, true, true, true],
        bends_full: vec![false, false, false, false, false, false, false, false, false, false, false, false, false],
        bends_one_and_half: vec![false, false, false, false, false, false, false, false, false, false, false, false, false],
        blow_bends_half: vec![false, false, false, false, false, false, false, false, false, false, false, false, false],
        blow_bends_full: vec![false, false, false, false, false, false, false, false, false, false, false, false, false],
        overblows: vec![false, false, false, false, false, false, false, false, false, false, false, false, false],
        overdraws: vec![false, false, false, false, false, false, false, false, false, false, false, false, false],
    };
    proof {
        assert(t@ =~~= spec_lucky_13_powerchromatic());
    }
    t
}

pub open spec fn spec_melody_maker() -> TuningModel {
    TuningModel {
        blow: seq![0i32, 4, 9, 12, 16, 19, 24, 28, 31, 36],
        draw: seq![2i32, 7, 11, 14, 18, 21, 23, 26, 30, 33],
        bends_half: seq![true, true, true, true, true, true, false, false, false, false],
        bends_full: seq![false, true, false, false, false, false, false, false, false, false],
        bends_one_and_half: seq![false, false, false, false, false, false, false, false, false, false],
        blow_bends_half: seq![false, false, false, false, false, false, false, true, false, true],
        blow_bends_full: seq![false, false, false, false, false, false, false, false, false, true],
        overblows: seq![false, false, false, false, false, false, false, false, false, false],
        overdraws: seq![false, false, false, false, false, false, false, false, false, false],
    }
}

fn melody_maker_tuning() -> (t: Tuning)
    ensures
        t@ == spec_melody_maker(),
{
    let t = Tuning {
        blow: vec![0i32, 4, 9, 12, 16, 19, 24, 28, 31, 36],
        draw: vec![2i32, 7, 11, 14, 18, 21, 23, 26, 30, 33],
        bends_half: vec![true, true, true, true, true, true, false, false, false, false],
        bends_full: vec![false, true, false, false, false, false, false, false, false, false],
        bends_one_and_half: vec![false, false, false, false, false, false, false, false, false, false],
        blow_bends_half: vec![false, false, false, false, false, false, false, true, false, true],
        blow_bends_full: vec![false, false, false, false, false, false, false, false, false, true],
        overblows: vec![false, false, false, false, false, false, false, false, false, false],
        overdraws: vec![false, false, false, false, false, false, false, false, false, false],
    };
    proof {
        assert(t@ =~~= spec_melody_maker());
    }
    t
}

pub open spec fn spec_easy_3rd() -> TuningModel {
    TuningModel {
        blow: seq![0i32, 4, 7, 12, 16, 19, 24, 28, 31, 36],
        draw: seq![2i32, 5, 9, 14, 17, 21, 23, 26, 29, 33],
        bends_half: seq![true, false, true, true, false, true, false, false, false, false],
        bends_full: seq![false, false, false, false, false, false, false, false, false, false],
        bends_one_and_half: seq![false, false, false, false, false, false, false, false, false, false],
        blow_bends_half: seq![false, false, false, false, false, false, false, true, true, true],
        blow_bends_full: seq![false, false, false, false, false, false, false, false, false, true],
        overblows: seq![true, false, true, true, true, true, false, false, false, false],
        overdraws: seq![false, false, false, false, false, false, true, false, true, true],
    }
}

fn easy_3rd_tuning() -> (t: Tuning)
    ensures
        t@ == spec_easy_3rd(),
{
    let t = Tuning {
        blow: vec![0i32, 4, 7, 12, 16, 19, 24, 28, 31, 36],
        draw: vec![2i32, 5, 9, 14, 17, 21, 23, 26, 29, 33],
        bends_half: vec![true, false, true, true, false, true, false, false, false, false],
        bends_full: vec![false, false, false, false, false, false, false, false, false, false],
        bends_one_and_half: vec![false, false, false, false, false, false, false, false, false, false],
        blow_bends_half: vec![false, false, false, false, false, false, false, true, true, true],
        blow_bends_full: vec![false, false, false, false, false, false, false, false, false, true],
        overblows: vec![true, false, true, true, true, true, false, false, false, false],
        overdraws: vec![false, false, false, false, false, false, true, false, true, true],
    };
    proof {
        assert(t@ =~~= spec_easy_3rd());
    }
    t
}

pub open spec fn spec_richter_4_hole() -> TuningModel {
    TuningModel {
        blow: seq![0i32, 4, 7, 12],
        draw: seq![2i32, 7, 11, 14],
        bends_half: seq![true, true, true, true],
        bends_full: seq![false, true, true, false],
        bends_one_and_half: seq![false, false, true, false],
        blow_bends_half: seq![false, false, false, false],
        blow_bends_full: seq![false, false, false, false],
        overblows: seq![true, false, false, true],
        overdraws: seq![false, false, false, false],
    }
}

fn richter_4_hole_tuning() -> (t: Tuning)
    ensures
        t@ == spec_richter_4_hole(),
{
    let t = Tuning {
        blow: vec![0i32, 4, 7, 12],
        draw: vec![2i32, 7, 11, 14],
        bends_half: vec![true, true, true, true],
        bends_full: vec![false, true, true, false],
        bends_one_and_half: vec![false, false, true, false],
        blow_bends_half: vec![false, false, false, false],
        blow_bends_full: vec![false, false, false, false],
        overblows: vec![true, false, false, true],
        overdraws: vec![false, false, false, false],
    };
    proof {
        assert(t@ =~~= spec_richter_4_hole());
    }
    t
}

pub open spec fn spec_richter_5_hole() -> TuningModel {
    TuningModel {
        blow: seq![0i32, 4, 7, 12, 16],
        draw: seq![2i32, 7, 11, 14, 17],
        bends_half: seq![true, true, true, true, false],
        bends_full: seq![false, true, true, false, false],
        bends_one_and_half: seq![false, false, true, false, false],
        blow_bends_half: seq![false, false, false, false, false],
        blow_bends_full: seq![false, false, false, false, false],
        overblows: seq![true, false, false, true, true],
        overdraws: seq![false, false, false, false, false],
    }
}

fn richter_5_hole_tuning() -> (t: Tuning)
    ensures
        t@ == spec_richter_5_hole(),
{
    let t = Tuning {
        blow: vec![0i32, 4, 7, 12, 16],
        draw: vec![2i32, 7, 11, 14, 17],
        bends_half: vec![true, true, true, true, false],
        bends_full: vec![false, true, true, false, false],
        bends_one_and_half: vec![false, false, true, false, false],
        blow_bends_half: vec![false, false, false, false, false],
        blow_bends_full: vec![false, false, false, false, false],
        overblows: vec![true, false, false, true, true],
        overdraws: vec![false, false, false, false, false],
    };
    proof {
        assert(t@ =~~= spec_richter_5_hole());
    }
    t
}

/// Every registered tuning is well formed.
pub proof fn lemma_registry_wf()
    ensures
        wf_model(spec_richter()),
        wf_model(spec_paddy_richter()),
        wf_model(spec_country()),
        wf_model(spec_natural_minor()),
        wf_model(spec_harmonic_minor()),
        wf_model(spec_wilde()),
        wf_model(spec_wilde_minor()),
        wf_model(spec_pentaharp()),
        wf_model(spec_powerbender()),
        wf_model(spec_powerdraw()),
        wf_model(spec_diminished()),
        wf_model(spec_lucky_13_diminished()),
        wf_model(spec_lucky_13_powerchromatic()),
        wf_model(spec_melody_maker()),
        wf_model(spec_easy_3rd()),
        wf_model(spec_richter_4_hole()),
        wf_model(spec_richter_5_hole()),
{
    assert(wf_model(spec_richter())) by {
        reveal_with_fuel(holes_ok_from, 15);
    }
    assert(wf_model(spec_paddy_richter())) by {
        reveal_with_fuel(holes_ok_from, 15);
    }
    assert(wf_model(spec_country())) by {
        reveal_with_fuel(holes_ok_from, 15);
    }
    assert(wf_model(spec_natural_minor())) by {
        reveal_with_fuel(holes_ok_from, 15);
    }
    assert(wf_model(spec_harmonic_minor())) by {
        reveal_with_fuel(holes_ok_from, 15);
    }
    assert(wf_model(spec_wilde())) by {
        reveal_with_fuel(holes_ok_from, 15);
    }
    assert(wf_model(spec_wilde_minor())) by {
        reveal_with_fuel(holes_ok_from, 15);
    }
    assert(wf_model(spec_pentaharp())) by {
        reveal_with_fuel(holes_ok_from, 15);
    }
    assert(wf_model(spec_powerbender())) by {
        reveal_with_fuel(holes_ok_from, 15);
    }
    assert(wf_model(spec_powerdraw())) by {
        reveal_with_fuel(holes_ok_from, 15);
    }
    assert(wf_model(spec_diminished())) by {
        reveal_with_fuel(holes_ok_from, 15);
    }
    assert(wf_model(spec_lucky_13_diminished())) by {
        reveal_with_fuel(holes_ok_from, 15);
    }
    assert(wf_model(spec_lucky_13_powerchromatic())) by {
        reveal_with_fuel(holes_ok_from, 15);
    }
    assert(wf_model(spec_melody_maker())) by {
        reveal_with_fuel(holes_ok_from, 15);
    }
    assert(wf_model(spec_easy_3rd())) by {
        reveal_with_fuel(holes_ok_from, 15);
    }
    assert(wf_model(spec_richter_4_hole())) by {
        reveal_with_fuel(holes_ok_from, 15);
    }
    assert(wf_model(spec_richter_5_hole())) by {
        reveal_with_fuel(holes_ok_from, 15);
    }
}

/// The tuning registered under `name`; an unknown name falls back to the
/// richter tuning.
pub open spec fn spec_tuning_for(name: Seq<char>) -> TuningModel {
    if name == "paddy richter"@ {
        spec_paddy_richter()
    } else if name == "country"@ {
        spec_country()
    } else if name == "natural minor"@ {
        spec_natural_minor()
    } else if name == "harmonic minor"@ {
        spec_harmonic_minor()
    } else if name == "wilde tuning"@ {
        spec_wilde()
    } else if name == "wilde minor tuning"@ {
        spec_wilde_minor()
    } else if name == "pentaharp"@ {
        spec_pentaharp()
    } else if name == "powerbender"@ {
        spec_powerbender()
    } else if name == "powerdraw"@ {
        spec_powerdraw()
    } else if name == "diminished"@ {
        spec_diminished()
    } else if name == "lucky 13 diminished"@ {
        spec_lucky_13_diminished()
    } else if name == "lucky 13 powerchromatic"@ {
        spec_lucky_13_powerchromatic()
    } else if name == "melody maker"@ {
        spec_melody_maker()
    } else if name == "easy 3rd"@ {
        spec_easy_3rd()
    } else if name == "4 hole richter"@ {
        spec_richter_4_hole()
    } else if name == "5 hole richter"@ {
        spec_richter_5_hole()
    } else {
        spec_richter()
    }
}

/// Whether `name` names a registered tuning.
pub open spec fn spec_known_tuning(name: Seq<char>) -> bool {
    ||| name == "richter"@
    ||| name == "paddy richter"@
    ||| name == "country"@
    ||| name == "natural minor"@
    ||| name == "harmonic minor"@
    ||| name == "wilde tuning"@
    ||| name == "wilde minor tuning"@
    ||| name == "pentaharp"@
    ||| name == "powerbender"@
    ||| name == "powerdraw"@
    ||| name == "diminished"@
    ||| name == "lucky 13 diminished"@
    ||| name == "lucky 13 powerchromatic"@
    ||| name == "melody maker"@
    ||| name == "easy 3rd"@
    ||| name == "4 hole richter"@
    ||| name == "5 hole richter"@
}

pub fn is_known_tuning(name: &str) -> (r: bool)
    ensures
        r == spec_known_tuning(name@),
{
    str_eq(name, "richter")
        || str_eq(name, "paddy richter")
        || str_eq(name, "country")
        || str_eq(name, "natural minor")
        || str_eq(name, "harmonic minor")
        || str_eq(name, "wilde tuning")
        || str_eq(name, "wilde minor tuning")
        || str_eq(name, "pentaharp")
        || str_eq(name, "powerbender")
        || str_eq(name, "powerdraw")
        || str_eq(name, "diminished")
        || str_eq(name, "lucky 13 diminished")
        || str_eq(name, "lucky 13 powerchromatic")
        || str_eq(name, "melody maker")
        || str_eq(name, "easy 3rd")
        || str_eq(name, "4 hole richter")
        || str_eq(name, "5 hole richter")
}

/// The `Tuning` registered under `name`, falling back to richter when the
/// name is unknown.
pub fn tuning_by_name(name: &str) -> (t: Tuning)
    ensures
        t@ == spec_tuning_for(name@),
        wf_model(t@),
{
    proof {
        lemma_registry_wf();
    }
    if str_eq(name, "paddy richter") {
        paddy_richter_tuning()
    } else if str_eq(name, "country") {
        country_tuning()
    } else if str_eq(name, "natural minor") {
        natural_minor_tuning()
    } else if str_eq(name, "harmonic minor") {
        harmonic_minor_tuning()
    } else if str_eq(name, "wilde tuning") {
        wilde_tuning()
    } else if str_eq(name, "wilde minor tuning") {
        wilde_minor_tuning()
    } else if str_eq(name, "pentaharp") {
        pentaharp_tuning()
    } else if str_eq(name, "powerbender") {
        powerbender_tuning()
    } else if str_eq(name, "powerdraw") {
        powerdraw_tuning()
    } else if str_eq(name, "diminished") {
        diminished_tuning()
    } else if str_eq(name, "lucky 13 diminished") {
        lucky_13_diminished_tuning()
    } else if str_eq(name, "lucky 13 powerchromatic") {
        lucky_13_powerchromatic_tuning()
    } else if str_eq(name, "melody maker") {
        melody_maker_tuning()
    } else if str_eq(name, "easy 3rd") {
        easy_3rd_tuning()
    } else if str_eq(name, "4 hole richter") {
        richter_4_hole_tuning()
    } else if str_eq(name, "5 hole richter") {
        richter_5_hole_tuning()
    } else {
        richter_tuning()
    }
}

} // verus!
