//! The notation model: from a tuning's per-hole note data to the canonical
//! ordering of its tokens and the table of enharmonic aliases.
//!
//! Every note a tuning can sound is first listed as a candidate pair of
//! pitch and token text, hole by hole, each hole's rows in a fixed order:
//! blow, draw, draw bends, blow bends, overblow, overdraw. The canonical
//! array then holds, for every pitch from the lowest note up to the highest,
//! the first candidate token at that pitch, or the unplayable sentinel where
//! the tuning has a gap. A later candidate whose pitch is already taken
//! becomes an alias of the earlier token instead: the alias table is the
//! flat list of such (alias, canonical) pairs in the order they were found.
//!
//! The load-bearing invariant is definitional here: the token at index `i`
//! of the canonical array sounds exactly `i` semitones above the lowest
//! note, so transposition is index arithmetic.

use vstd::prelude::*;
use vstd::string::StrSliceExecFns;
use vstd::string::StringExecFns;
use crate::text::{spec_nat_string, u32_string};
use crate::tuning::{
    lemma_wf_hole_ok, spec_tuning_for, tuning_by_name, wf_model, Tuning, TuningModel,
};

verus! {

/// The token text for one hole and articulation: an optional draw sign, the
/// one-based hole number, and the bend or overblow marker.
pub open spec fn spec_hole_token(hole: int, draw_side: bool, marker: Seq<char>) -> Seq<char> {
    (if draw_side {
        seq!['-']
    } else {
        Seq::<char>::empty()
    }) + spec_nat_string(hole) + marker
}

/// The candidate notes one row contributes for one hole: nothing where the
/// tuning does not define the row, else a single (pitch, token) pair.
pub open spec fn spec_row_cand(t: TuningModel, h: int, row: int) -> Seq<(i32, Seq<char>)> {
    let hole = h + 1;
    if row == 0 {
        seq![(t.blow[h], spec_hole_token(hole, false, Seq::<char>::empty()))]
    } else if row == 1 {
        seq![(t.draw[h], spec_hole_token(hole, true, Seq::<char>::empty()))]
    } else if row == 2 {
        if t.bends_half[h] {
            seq![(((t.draw[h] - 1) as i32), spec_hole_token(hole, true, seq!['\'']))]
        } else {
            Seq::empty()
        }
    } else if row == 3 {
        if t.bends_full[h] {
            seq![(((t.draw[h] - 2) as i32), spec_hole_token(hole, true, seq!['\'', '\'']))]
        } else {
            Seq::empty()
        }
    } else if row == 4 {
        if t.bends_one_and_half[h] {
            seq![(((t.draw[h] - 3) as i32), spec_hole_token(hole, true, seq!['\'', '\'', '\'']))]
        } else {
            Seq::empty()
        }
    } else if row == 5 {
        if t.blow_bends_half[h] {
            seq![(((t.blow[h] - 1) as i32), spec_hole_token(hole, false, seq!['\'']))]
        } else {
            Seq::empty()
        }
    } else if row == 6 {
        if t.blow_bends_full[h] {
            seq![(((t.blow[h] - 2) as i32), spec_hole_token(hole, false, seq!['\'', '\'']))]
        } else {
            Seq::empty()
        }
    } else if row == 7 {
        if t.overblows[h] {
            seq![(((t.draw[h] + 1) as i32), spec_hole_token(hole, false, seq!['o']))]
        } else {
            Seq::empty()
        }
    } else {
        if t.overdraws[h] {
            seq![(((t.blow[h] + 1) as i32), spec_hole_token(hole, true, seq!['o']))]
        } else {
            Seq::empty()
        }
    }
}

/// The candidates of one hole, rows `0 .. row`.
pub open spec fn spec_hole_cands_upto(t: TuningModel, h: int, row: int) -> Seq<(i32, Seq<char>)>
    decreases row,
{
    if row <= 0 {
        Seq::empty()
    } else {
        spec_hole_cands_upto(t, h, row - 1) + spec_row_cand(t, h, row - 1)
    }
}

pub open spec fn spec_hole_cands(t: TuningModel, h: int) -> Seq<(i32, Seq<char>)> {
    spec_hole_cands_upto(t, h, 9)
}

/// The candidates of holes `0 .. h`, in hole order.
pub open spec fn spec_cands_upto(t: TuningModel, h: int) -> Seq<(i32, Seq<char>)>
    decreases h,
{
    if h <= 0 {
        Seq::empty()
    } else {
        spec_cands_upto(t, h - 1) + spec_hole_cands(t, h - 1)
    }
}

/// All candidate notes of the tuning, in construction order.
pub open spec fn spec_cands(t: TuningModel) -> Seq<(i32, Seq<char>)> {
    spec_cands_upto(t, t.blow.len() as int)
}

/// The first candidate token at pitch `p`; the unplayable sentinel where no
/// candidate sounds that pitch.
pub open spec fn spec_first_tok(c: Seq<(i32, Seq<char>)>, p: int) -> Seq<char>
    decreases c.len(),
{
    if c.len() == 0 {
        seq!['X']
    } else if c[0].0 == p {
        c[0].1
    } else {
        spec_first_tok(c.drop_first(), p)
    }
}

/// Whether some candidate before index `k` sounds pitch `p`.
pub open spec fn spec_pitch_before(c: Seq<(i32, Seq<char>)>, k: int, p: i32) -> bool {
    exists|j: int| 0 <= j < k && c[j].0 == p
}

/// The greatest candidate pitch among the first `k` candidates.
pub open spec fn spec_max_pitch_upto(c: Seq<(i32, Seq<char>)>, k: int) -> int
    decreases k,
{
    if k <= 1 {
        c[0].0 as int
    } else {
        let m = spec_max_pitch_upto(c, k - 1);
        if c[k - 1].0 > m {
            c[k - 1].0 as int
        } else {
            m
        }
    }
}

pub open spec fn spec_max_pitch(c: Seq<(i32, Seq<char>)>) -> int {
    spec_max_pitch_upto(c, c.len() as int)
}

/// The canonical ordering: index `i` holds the first token whose pitch is
/// `i` semitones above the lowest note.
pub open spec fn spec_canonical_of(t: TuningModel) -> Seq<Seq<char>> {
    let c = spec_cands(t);
    if c.len() == 0 {
        Seq::empty()
    } else {
        Seq::new((spec_max_pitch(c) + 1) as nat, |i: int| spec_first_tok(c, i))
    }
}

/// The alias pairs found among the first `k` candidates, flattened in
/// construction order: each later candidate of an already-taken pitch,
/// followed by the canonical token of that pitch.
pub open spec fn spec_alias_pairs_upto(c: Seq<(i32, Seq<char>)>, k: int) -> Seq<Seq<char>>
    decreases k,
{
    if k <= 0 {
        Seq::empty()
    } else {
        spec_alias_pairs_upto(c, k - 1) + (if spec_pitch_before(c, k - 1, c[k - 1].0) {
            seq![c[k - 1].1, spec_first_tok(c, c[k - 1].0 as int)]
        } else {
            Seq::empty()
        })
    }
}

/// The alias table of the tuning.
pub open spec fn spec_aliases_of(t: TuningModel) -> Seq<Seq<char>> {
    spec_alias_pairs_upto(spec_cands(t), spec_cands(t).len() as int)
}

/// The first match of a forward scan is what `spec_first_tok` returns.
pub proof fn lemma_first_tok_found(c: Seq<(i32, Seq<char>)>, p: int, k: int)
    requires
        0 <= k < c.len(),
        c[k].0 == p,
        forall|j: int| 0 <= j < k ==> (#[trigger] c[j]).0 != p,
    ensures
        spec_first_tok(c, p) == c[k].1,
    decreases k,
{
    if k > 0 {
        lemma_first_tok_found(c.drop_first(), p, k - 1);
    }
}

/// Where no candidate sounds `p`, the slot holds the unplayable sentinel.
pub proof fn lemma_first_tok_missing(c: Seq<(i32, Seq<char>)>, p: int)
    requires
        forall|j: int| 0 <= j < c.len() ==> (#[trigger] c[j]).0 != p,
    ensures
        spec_first_tok(c, p) == seq!['X'],
    decreases c.len(),
{
    if c.len() > 0 {
        lemma_first_tok_missing(c.drop_first(), p);
    }
}

/// Candidate pitches of a well-formed tuning stay within one small range.
pub proof fn lemma_hole_cands_bounds(t: TuningModel, h: int, row: int)
    requires
        wf_model(t),
        0 <= h < t.blow.len(),
        0 <= row <= 9,
    ensures
        forall|k: int|
            0 <= k < spec_hole_cands_upto(t, h, row).len() ==> 0 <= (
            #[trigger] spec_hole_cands_upto(t, h, row)[k]).0 <= 121,
    decreases row,
{
    lemma_wf_hole_ok(t, h);
    if row > 0 {
        lemma_hole_cands_bounds(t, h, row - 1);
        let prev = spec_hole_cands_upto(t, h, row - 1);
        let rc = spec_row_cand(t, h, row - 1);
        assert forall|k: int|
            0 <= k < spec_hole_cands_upto(t, h, row).len() implies 0 <= (
        #[trigger] spec_hole_cands_upto(t, h, row)[k]).0 <= 121 by {
            if k < prev.len() {
                assert(spec_hole_cands_upto(t, h, row)[k] == prev[k]);
            } else {
                assert(spec_hole_cands_upto(t, h, row)[k] == rc[k - prev.len()]);
            }
        }
    }
}

pub proof fn lemma_cands_bounds(t: TuningModel, h: int)
    requires
        wf_model(t),
        0 <= h <= t.blow.len(),
    ensures
        forall|k: int|
            0 <= k < spec_cands_upto(t, h).len() ==> 0 <= (#[trigger] spec_cands_upto(t, h)[k]).0
                <= 121,
    decreases h,
{
    if h > 0 {
        lemma_cands_bounds(t, h - 1);
        lemma_hole_cands_bounds(t, h - 1, 9);
        let prev = spec_cands_upto(t, h - 1);
        let hc = spec_hole_cands(t, h - 1);
        assert forall|k: int|
            0 <= k < spec_cands_upto(t, h).len() implies 0 <= (#[trigger] spec_cands_upto(t, h)[
        k]).0 <= 121 by {
            if k < prev.len() {
                assert(spec_cands_upto(t, h)[k] == prev[k]);
            } else {
                assert(spec_cands_upto(t, h)[k] == hc[k - prev.len()]);
            }
        }
    }
}

/// Every candidate token is a non-empty string.
pub proof fn lemma_nat_string_nonempty(n: int)
    requires
        n >= 0,
    ensures
        spec_nat_string(n).len() >= 1,
{
    if n > 0 {
        assert(crate::text::spec_digits(n) == crate::text::spec_digits(n / 10).push(
            crate::text::digit_char(n % 10),
        ));
    }
}

pub proof fn lemma_hole_cands_tokens(t: TuningModel, h: int, row: int)
    requires
        0 <= h,
        0 <= row <= 9,
    ensures
        forall|k: int|
            0 <= k < spec_hole_cands_upto(t, h, row).len() ==> (
            #[trigger] spec_hole_cands_upto(t, h, row)[k]).1.len() >= 1,
    decreases row,
{
    lemma_nat_string_nonempty(h + 1);
    if row > 0 {
        lemma_hole_cands_tokens(t, h, row - 1);
        let prev = spec_hole_cands_upto(t, h, row - 1);
        let rc = spec_row_cand(t, h, row - 1);
        assert forall|k: int|
            0 <= k < spec_hole_cands_upto(t, h, row).len() implies (
        #[trigger] spec_hole_cands_upto(t, h, row)[k]).1.len() >= 1 by {
            if k < prev.len() {
                assert(spec_hole_cands_upto(t, h, row)[k] == prev[k]);
            } else {
                assert(spec_hole_cands_upto(t, h, row)[k] == rc[k - prev.len()]);
            }
        }
    }
}

pub proof fn lemma_cands_tokens(t: TuningModel, h: int)
    requires
        0 <= h,
    ensures
        forall|k: int|
            0 <= k < spec_cands_upto(t, h).len() ==> (#[trigger] spec_cands_upto(t, h)[k]).1.len()
                >= 1,
    decreases h,
{
    if h > 0 {
        lemma_cands_tokens(t, h - 1);
        lemma_hole_cands_tokens(t, h - 1, 9);
        let prev = spec_cands_upto(t, h - 1);
        let hc = spec_hole_cands(t, h - 1);
        assert forall|k: int|
            0 <= k < spec_cands_upto(t, h).len() implies (#[trigger] spec_cands_upto(t, h)[
        k]).1.len() >= 1 by {
            if k < prev.len() {
                assert(spec_cands_upto(t, h)[k] == prev[k]);
            } else {
                assert(spec_cands_upto(t, h)[k] == hc[k - prev.len()]);
            }
        }
    }
}

/// Every canonical slot is a non-empty token: a candidate token or the
/// sentinel.
pub proof fn lemma_first_tok_nonempty(c: Seq<(i32, Seq<char>)>, p: int)
    requires
        forall|k: int| 0 <= k < c.len() ==> (#[trigger] c[k]).1.len() >= 1,
    ensures
        spec_first_tok(c, p).len() >= 1,
    decreases c.len(),
{
    if c.len() > 0 && c[0].0 != p {
        lemma_first_tok_nonempty(c.drop_first(), p);
    }
}

/// The alias table has even length and non-empty entries.
pub proof fn lemma_alias_pairs_shape(c: Seq<(i32, Seq<char>)>, k: int)
    requires
        0 <= k <= c.len(),
        forall|j: int| 0 <= j < c.len() ==> (#[trigger] c[j]).1.len() >= 1,
    ensures
        spec_alias_pairs_upto(c, k).len() % 2 == 0,
        forall|j: int|
            0 <= j < spec_alias_pairs_upto(c, k).len() ==> (#[trigger] spec_alias_pairs_upto(c, k)[
                j
            ]).len() >= 1,
    decreases k,
{
    if k > 0 {
        lemma_alias_pairs_shape(c, k - 1);
        if spec_pitch_before(c, k - 1, c[k - 1].0) {
            lemma_first_tok_nonempty(c, c[k - 1].0 as int);
        }
    }
}

pub(crate) fn hole_token(hole: u32, draw_side: bool, marker: &str) -> (r: String)
    ensures
        r@ == spec_hole_token(hole as int, draw_side, marker@),
{
    proof {
        reveal_strlit("-");
    }
    let mut r = if draw_side {
        "-".to_owned()
    } else {
        String::new()
    };
    let digits = u32_string(hole);
    r.append(digits.as_str());
    r.append(marker);
    proof {
        assert(r@ =~= spec_hole_token(hole as int, draw_side, marker@));
    }
    r
}

/// Append the candidates of hole `h` in row order.
fn push_cand(c: &mut Vec<(i32, String)>, pitch: i32, tok: String)
    ensures
        final(c).deep_view() == old(c).deep_view().push((pitch, tok@)),
{
    let ghost tokv = tok@;
    let ghost n = old(c)@.len();
    c.push((pitch, tok));
    proof {
        assert(c@.len() == n + 1);
        assert(c.deep_view()[n as int].1 == tokv);
        assert(c.deep_view()[n as int].0 == pitch);
        assert(c.deep_view() =~= old(c).deep_view().push((pitch, tokv)));
    }
}

#[verifier::rlimit(100)]
fn push_hole_cands(c: &mut Vec<(i32, String)>, t: &Tuning, h: usize)
    requires
        wf_model(t@),
        h < t@.blow.len(),
    ensures
        final(c).deep_view() == old(c).deep_view() + spec_hole_cands(t@, h as int),
{
    proof {
        lemma_wf_hole_ok(t@, h as int);
        reveal_strlit("");
        reveal_strlit("'");
        reveal_strlit("''");
        reveal_strlit("'''");
        reveal_strlit("o");
        assert(""@ =~= Seq::<char>::empty());
        assert("'"@ =~= seq!['\'']);
        assert("''"@ =~= seq!['\'', '\'']);
        assert("'''"@ =~= seq!['\'', '\'', '\'']);
        assert("o"@ =~= seq!['o']);
    }
    let ghost base = c.deep_view();
    let hole = (h + 1) as u32;
    let blow = t.blow[h];
    let draw = t.draw[h];

    push_cand(c, blow, hole_token(hole, false, ""));
    proof {
        assert(spec_hole_cands_upto(t@, h as int, 0) =~= Seq::<(i32, Seq<char>)>::empty());
        assert(c.deep_view() =~= base + spec_hole_cands_upto(t@, h as int, 1));
    }
    push_cand(c, draw, hole_token(hole, true, ""));
    proof {
        assert(c.deep_view() =~= base + spec_hole_cands_upto(t@, h as int, 2));
    }
    if t.bends_half[h] {
        push_cand(c, draw - 1, hole_token(hole, true, "'"));
    }
    proof {
        assert(c.deep_view() =~= base + spec_hole_cands_upto(t@, h as int, 3));
    }
    if t.bends_full[h] {
        push_cand(c, draw - 2, hole_token(hole, true, "''"));
    }
    proof {
        assert(c.deep_view() =~= base + spec_hole_cands_upto(t@, h as int, 4));
    }
    if t.bends_one_and_half[h] {
        push_cand(c, draw - 3, hole_token(hole, true, "'''"));
    }
    proof {
        assert(c.deep_view() =~= base + spec_hole_cands_upto(t@, h as int, 5));
    }
    if t.blow_bends_half[h] {
        push_cand(c, blow - 1, hole_token(hole, false, "'"));
    }
    proof {
        assert(c.deep_view() =~= base + spec_hole_cands_upto(t@, h as int, 6));
    }
    if t.blow_bends_full[h] {
        push_cand(c, blow - 2, hole_token(hole, false, "''"));
    }
    proof {
        assert(c.deep_view() =~= base + spec_hole_cands_upto(t@, h as int, 7));
    }
    if t.overblows[h] {
        push_cand(c, draw + 1, hole_token(hole, false, "o"));
    }
    proof {
        assert(c.deep_view() =~= base + spec_hole_cands_upto(t@, h as int, 8));
    }
    if t.overdraws[h] {
        push_cand(c, blow + 1, hole_token(hole, true, "o"));
    }
    proof {
        assert(c.deep_view() =~= base + spec_hole_cands_upto(t@, h as int, 9));
    }
}

/// All candidate notes of the tuning, hole by hole.
fn build_cands(t: &Tuning) -> (c: Vec<(i32, String)>)
    requires
        wf_model(t@),
    ensures
        c.deep_view() == spec_cands(t@),
{
    let n = t.blow.len();
    let mut c: Vec<(i32, String)> = Vec::new();
    let mut h: usize = 0;
    while h < n
        invariant
            h <= n,
            n == t@.blow.len(),
            wf_model(t@),
            c.deep_view() =~= spec_cands_upto(t@, h as int),
        decreases n - h,
    {
        push_hole_cands(&mut c, t, h);
        proof {
            assert(c.deep_view() =~= spec_cands_upto(t@, h as int + 1));
        }
        h = h + 1;
    }
    proof {
        assert(c.deep_view() =~= spec_cands(t@));
    }
    c
}

/// First index below `bound` whose candidate sounds pitch `p`.
fn scan_pitch(cands: &Vec<(i32, String)>, p: i32, bound: usize) -> (r: Option<usize>)
    requires
        bound <= cands@.len(),
    ensures
        match r {
            Some(j) => {
                &&& j < bound
                &&& cands.deep_view()[j as int].0 == p
                &&& forall|j2: int| 0 <= j2 < j ==> (#[trigger] cands.deep_view()[j2]).0 != p
            },
            None => forall|j2: int| 0 <= j2 < bound ==> (#[trigger] cands.deep_view()[j2]).0 != p,
        },
{
    let mut j: usize = 0;
    while j < bound
        invariant
            j <= bound,
            bound <= cands@.len(),
            forall|j2: int| 0 <= j2 < j ==> (#[trigger] cands.deep_view()[j2]).0 != p,
        decreases bound - j,
    {
        if cands[j].0 == p {
            proof {
                assert(cands.deep_view()[j as int].0 == cands@[j as int].0);
            }
            return Some(j);
        }
        proof {
            assert(cands.deep_view()[j as int].0 == cands@[j as int].0);
        }
        j = j + 1;
    }
    None
}

fn unplayable_token() -> (r: String)
    ensures
        r@ == seq!['X'],
{
    proof {
        reveal_strlit("X");
    }
    let r = "X".to_owned();
    proof {
        assert(r@ =~= seq!['X']);
    }
    r
}

/// The canonical ordering and alias table built from a tuning's note data.
fn notes_in_order(t: &Tuning) -> (r: (Vec<String>, Vec<String>))
    requires
        wf_model(t@),
    ensures
        r.0.deep_view() == spec_canonical_of(t@),
        r.1.deep_view() == spec_aliases_of(t@),
{
    let cands = build_cands(t);
    let ghost cseq = spec_cands(t@);
    proof {
        lemma_cands_bounds(t@, t@.blow.len() as int);
    }
    if cands.len() == 0 {
        let r0: Vec<String> = Vec::new();
        let r1: Vec<String> = Vec::new();
        proof {
            assert(r0.deep_view() =~= spec_canonical_of(t@));
            assert(r1.deep_view() =~= spec_aliases_of(t@));
        }
        return (r0, r1);
    }

    // Highest candidate pitch.
    let clen = cands.len();
    proof {
        assert(cands.deep_view()[0].0 == cands@[0].0);
        assert(0 <= cseq[0].0 <= 121);
    }
    let mut hi: i32 = cands[0].0;
    let mut k: usize = 1;
    while k < clen
        invariant
            1 <= k <= clen,
            clen == cseq.len(),
            cseq == cands.deep_view(),
            cseq == spec_cands(t@),
            wf_model(t@),
            hi == spec_max_pitch_upto(cseq, k as int),
            0 <= hi <= 121,
        decreases clen - k,
    {
        proof {
            lemma_cands_bounds(t@, t@.blow.len() as int);
            assert(cands.deep_view()[k as int].0 == cands@[k as int].0);
        }
        if cands[k].0 > hi {
            hi = cands[k].0;
        }
        k = k + 1;
    }
    proof {
        assert(hi == spec_max_pitch(cseq));
    }

    // Canonical array: for every pitch, the first candidate at that pitch.
    let width = (hi + 1) as usize;
    let mut canonical: Vec<String> = Vec::new();
    let mut idx: usize = 0;
    while idx < width
        invariant
            idx <= width,
            width == spec_max_pitch(cseq) + 1,
            cseq == cands.deep_view(),
            cseq == spec_cands(t@),
            cseq.len() == cands@.len(),
            cseq.len() > 0,
            wf_model(t@),
            width <= 122,
            canonical@.len() == idx as int,
            canonical.deep_view() =~= spec_canonical_of(t@).subrange(0, idx as int),
        decreases width - idx,
    {
        let p = idx as i32;
        proof {
            assert(spec_canonical_of(t@).len() == width as int);
            assert(spec_canonical_of(t@)[idx as int] == spec_first_tok(cseq, idx as int));
        }
        match scan_pitch(&cands, p, cands.len()) {
            Some(j) => {
                let tok = cands[j].1.clone();
                let ghost tokv = tok@;
                canonical.push(tok);
                proof {
                    lemma_first_tok_found(cseq, p as int, j as int);
                    assert(cands.deep_view()[j as int].1 == cands@[j as int].1@);
                    assert(tokv == spec_first_tok(cseq, idx as int));
                    assert(canonical.deep_view()[idx as int] == tokv);
                    assert(canonical.deep_view() =~= spec_canonical_of(t@).subrange(
                        0,
                        idx as int + 1,
                    ));
                }
            },
            None => {
                let tok = unplayable_token();
                let ghost tokv = tok@;
                canonical.push(tok);
                proof {
                    lemma_first_tok_missing(cseq, p as int);
                    assert(tokv == spec_first_tok(cseq, idx as int));
                    assert(canonical.deep_view()[idx as int] == tokv);
                    assert(canonical.deep_view() =~= spec_canonical_of(t@).subrange(
                        0,
                        idx as int + 1,
                    ));
                }
            },
        }
        idx = idx + 1;
    }
    proof {
        assert(canonical.deep_view() =~= spec_canonical_of(t@));
    }

    // Alias table: later candidates of an already-taken pitch.
    let mut dups: Vec<String> = Vec::new();
    let mut k2: usize = 0;
    while k2 < clen
        invariant
            k2 <= clen,
            clen == cands@.len(),
            cseq == cands.deep_view(),
            cseq == spec_cands(t@),
            dups@.len() == spec_alias_pairs_upto(cseq, k2 as int).len(),
            dups.deep_view() =~= spec_alias_pairs_upto(cseq, k2 as int),
        decreases clen - k2,
    {
        let p = cands[k2].0;
        proof {
            assert(cseq[k2 as int].0 == cands@[k2 as int].0);
        }
        match scan_pitch(&cands, p, k2) {
            Some(j) => {
                let alias = cands[k2].1.clone();
                let canon = cands[j].1.clone();
                let ghost aliasv = alias@;
                let ghost canonv = canon@;
                dups.push(alias);
                dups.push(canon);
                proof {
                    assert(spec_pitch_before(cseq, k2 as int, cseq[k2 as int].0));
                    lemma_first_tok_found(cseq, p as int, j as int);
                    assert(cseq[k2 as int].1 == cands@[k2 as int].1@);
                    assert(cseq[j as int].1 == cands@[j as int].1@);
                    assert(aliasv == cseq[k2 as int].1);
                    assert(canonv == spec_first_tok(cseq, cseq[k2 as int].0 as int));
                    assert(dups.deep_view()[dups@.len() - 2] == aliasv);
                    assert(dups.deep_view()[dups@.len() - 1] == canonv);
                    assert(dups.deep_view() =~= spec_alias_pairs_upto(cseq, k2 as int + 1));
                }
            },
            None => {
                proof {
                    assert(!spec_pitch_before(cseq, k2 as int, cseq[k2 as int].0));
                    assert(dups.deep_view() =~= spec_alias_pairs_upto(cseq, k2 as int + 1));
                }
            },
        }
        k2 = k2 + 1;
    }
    proof {
        assert(dups.deep_view() =~= spec_aliases_of(t@));
    }
    (canonical, dups)
}

/// The canonical note ordering and enharmonic alias table of the named
/// tuning; an unknown name falls back to the richter tuning. Every returned
/// token is non-empty and the alias table holds whole pairs.
pub fn tuning_to_notes_in_order(tuning: &str) -> (r: (Vec<String>, Vec<String>))
    ensures
        r.0.deep_view() == spec_canonical_of(spec_tuning_for(tuning@)),
        r.1.deep_view() == spec_aliases_of(spec_tuning_for(tuning@)),
        forall|i: int| 0 <= i < r.0.deep_view().len() ==> (#[trigger] r.0.deep_view()[i]).len()
            >= 1,
        forall|i: int| 0 <= i < r.1.deep_view().len() ==> (#[trigger] r.1.deep_view()[i]).len()
            >= 1,
        r.1.deep_view().len() % 2 == 0,
{
    let t = tuning_by_name(tuning);
    let r = notes_in_order(&t);
    proof {
        let m = t@;
        lemma_cands_tokens(m, m.blow.len() as int);
        let c = spec_cands(m);
        assert forall|i: int|
            0 <= i < spec_canonical_of(m).len() implies (#[trigger] spec_canonical_of(m)[
        i]).len() >= 1 by {
            lemma_first_tok_nonempty(c, i);
        }
        lemma_alias_pairs_shape(c, c.len() as int);
    }
    r
}

} // verus!
