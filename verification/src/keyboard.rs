//! The tab-keyboard layout: the rows of tokens a tuning offers, one row per
//! articulation, with an empty cell where the tuning does not define one.
//! Rows come top to bottom: full blow bends, half blow bends or overblows,
//! plain blow notes, plain draw notes, half draw bends or overdraws, full
//! draw bends, and one-and-a-half draw bends.

use vstd::prelude::*;
use crate::order::{hole_token, spec_hole_token};
use crate::tuning::{spec_tuning_for, tuning_by_name, wf_model, Tuning, TuningModel};

verus! {

/// The token shown at hole `h` of layout row `r`, or the empty string.
pub open spec fn spec_layout_cell(m: TuningModel, h: int, r: int) -> Seq<char> {
    let hole = h + 1;
    if r == 0 {
        if m.blow_bends_full[h] {
            spec_hole_token(hole, false, seq!['\'', '\''])
        } else {
            Seq::empty()
        }
    } else if r == 1 {
        if m.blow_bends_half[h] {
            spec_hole_token(hole, false, seq!['\''])
        } else if m.overblows[h] {
            spec_hole_token(hole, false, seq!['o'])
        } else {
            Seq::empty()
        }
    } else if r == 2 {
        spec_hole_token(hole, false, Seq::<char>::empty())
    } else if r == 3 {
        spec_hole_token(hole, true, Seq::<char>::empty())
    } else if r == 4 {
        if m.bends_half[h] {
            spec_hole_token(hole, true, seq!['\''])
        } else if m.overdraws[h] {
            spec_hole_token(hole, true, seq!['o'])
        } else {
            Seq::empty()
        }
    } else if r == 5 {
        if m.bends_full[h] {
            spec_hole_token(hole, true, seq!['\'', '\''])
        } else {
            Seq::empty()
        }
    } else {
        if m.bends_one_and_half[h] {
            spec_hole_token(hole, true, seq!['\'', '\'', '\''])
        } else {
            Seq::empty()
        }
    }
}

pub open spec fn spec_layout_row(m: TuningModel, r: int) -> Seq<Seq<char>> {
    Seq::new(m.blow.len(), |h: int| spec_layout_cell(m, h, r))
}

/// The keyboard layout of a tuning: seven rows, one cell per hole.
pub open spec fn spec_layout(m: TuningModel) -> Seq<Seq<Seq<char>>> {
    Seq::new(7, |r: int| spec_layout_row(m, r))
}

fn layout_cell(t: &Tuning, h: usize, r: u32) -> (cell: String)
    requires
        wf_model(t@),
        h < t@.blow.len(),
        r < 7,
    ensures
        cell@ == spec_layout_cell(t@, h as int, r as int),
{
    proof {
        reveal_strlit("");
        reveal_strlit("'");
        reveal_strlit("''");
        reveal_strlit("'''");
        reveal_strlit("o");
        assert(""@ =~= Seq::<char>::empty());
        assert("'"@ =~= seq!['\'']);
        assert("''"@ =~= seq!['\'', '\'']);
        assert("'''"@ =~= seq!['\'', '\'', '\'']);
        assert("o"@ =~= seq!['o']);
    }
    let hole = (h + 1) as u32;
    match r {
        0 => {
            if t.blow_bends_full[h] {
                hole_token(hole, false, "''")
            } else {
                String::new()
            }
        },
        1 => {
            if t.blow_bends_half[h] {
                hole_token(hole, false, "'")
            } else if t.overblows[h] {
                hole_token(hole, false, "o")
            } else {
                String::new()
            }
        },
        2 => hole_token(hole, false, ""),
        3 => hole_token(hole, true, ""),
        4 => {
            if t.bends_half[h] {
                hole_token(hole, true, "'")
            } else if t.overdraws[h] {
                hole_token(hole, true, "o")
            } else {
                String::new()
            }
        },
        5 => {
            if t.bends_full[h] {
                hole_token(hole, true, "''")
            } else {
                String::new()
            }
        },
        _ => {
            if t.bends_one_and_half[h] {
                hole_token(hole, true, "'''")
            } else {
                String::new()
            }
        },
    }
}

fn layout_row(t: &Tuning, r: u32) -> (row: Vec<String>)
    requires
        wf_model(t@),
        r < 7,
    ensures
        row.deep_view() == spec_layout_row(t@, r as int),
{
    let n = t.blow.len();
    let mut row: Vec<String> = Vec::new();
    let mut h: usize = 0;
    while h < n
        invariant
            h <= n,
            n == t@.blow.len(),
            wf_model(t@),
            r < 7,
            row@.len() == h as int,
            row.deep_view() =~= spec_layout_row(t@, r as int).subrange(0, h as int),
        decreases n - h,
    {
        let cell = layout_cell(t, h, r);
        let ghost cellv = cell@;
        row.push(cell);
        proof {
            assert(row.deep_view()[h as int] == cellv);
            assert(row.deep_view() =~= spec_layout_row(t@, r as int).subrange(0, h as int + 1));
        }
        h = h + 1;
    }
    proof {
        assert(row.deep_view() =~= spec_layout_row(t@, r as int));
    }
    row
}

/// The keyboard layout of the named tuning; an unknown name falls back to
/// the richter tuning.
pub fn get_tabkeyboard_layout(input_tuning: &str) -> (r: Vec<Vec<String>>)
    ensures
        r.deep_view() == spec_layout(spec_tuning_for(input_tuning@)),
{
    let t = tuning_by_name(input_tuning);
    let mut rows: Vec<Vec<String>> = Vec::new();
    let mut ri: u32 = 0;
    while ri < 7
        invariant
            ri <= 7,
            wf_model(t@),
            t@ == spec_tuning_for(input_tuning@),
            rows@.len() == ri as int,
            rows.deep_view() =~= spec_layout(t@).subrange(0, ri as int),
        decreases 7 - ri,
    {
        let row = layout_row(&t, ri);
        let ghost rowv = row.deep_view();
        rows.push(row);
        proof {
            assert(rows.deep_view()[ri as int] == rowv);
            assert(rows.deep_view() =~= spec_layout(t@).subrange(0, ri as int + 1));
        }
        ri = ri + 1;
    }
    proof {
        assert(rows.deep_view() =~= spec_layout(t@));
    }
    rows
}

} // verus!
