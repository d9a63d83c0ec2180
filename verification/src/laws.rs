//! The load-bearing law of the notation model, proved end to end: in a
//! well-formed tuning's canonical ordering every real token appears exactly
//! once, at the index of its pitch, so transposing a token by `k` semitones
//! lands exactly `k` places away. The proof goes through injectivity of the
//! token texts: the decimal hole number, the side sign and the marker can be
//! read back from the text alone.

use vstd::prelude::*;
use crate::order::{
    lemma_first_tok_missing, spec_canonical_of, spec_cands, spec_cands_upto, spec_first_tok,
    spec_hole_cands_upto, spec_hole_token, spec_max_pitch, spec_row_cand,
};
use crate::style::is_digit;
use crate::text::{digit_char, spec_digits, spec_nat_string};
use crate::transpose::{spec_find_note, spec_note_index, spec_transpose};
use crate::tuning::{lemma_wf_hole_ok, wf_model, TuningModel};

verus! {

/// Every character of a decimal rendering is a digit.
proof fn lemma_digits_are_digits(n: int)
    ensures
        forall|j: int| 0 <= j < spec_digits(n).len() ==> is_digit(#[trigger] spec_digits(n)[j]),
    decreases n,
{
    if n > 0 {
        lemma_digits_are_digits(n / 10);
        assert(spec_digits(n) == spec_digits(n / 10).push(digit_char(n % 10)));
        assert(is_digit(digit_char(n % 10)));
        assert forall|j: int| 0 <= j < spec_digits(n).len() implies is_digit(
            #[trigger] spec_digits(n)[j],
        ) by {
            if j < spec_digits(n).len() - 1 {
                assert(spec_digits(n)[j] == spec_digits(n / 10)[j]);
            }
        }
    }
}

proof fn lemma_nat_string_digits(n: int)
    requires
        n >= 0,
    ensures
        forall|j: int|
            0 <= j < spec_nat_string(n).len() ==> is_digit(#[trigger] spec_nat_string(n)[j]),
        spec_nat_string(n).len() >= 1,
{
    crate::order::lemma_nat_string_nonempty(n);
    if n > 0 {
        lemma_digits_are_digits(n);
    } else {
        assert(is_digit('0'));
    }
}

/// Decimal renderings are injective over the positive numbers.
proof fn lemma_digits_injective(n1: int, n2: int)
    requires
        n1 >= 1,
        n2 >= 1,
        spec_digits(n1) == spec_digits(n2),
    ensures
        n1 == n2,
    decreases n1,
{
    let s1 = spec_digits(n1);
    let s2 = spec_digits(n2);
    assert(s1 == spec_digits(n1 / 10).push(digit_char(n1 % 10)));
    assert(s2 == spec_digits(n2 / 10).push(digit_char(n2 % 10)));
    assert(s1[s1.len() - 1] == digit_char(n1 % 10));
    assert(s2[s2.len() - 1] == digit_char(n2 % 10));
    assert(n1 % 10 == n2 % 10) by {
        assert(digit_char(n1 % 10) == digit_char(n2 % 10));
        assert(0 <= n1 % 10 < 10);
        assert(0 <= n2 % 10 < 10);
    }
    let p1 = spec_digits(n1 / 10);
    let p2 = spec_digits(n2 / 10);
    assert(p1.len() == s1.len() - 1);
    assert(p2.len() == s2.len() - 1);
    assert(p1 =~= p2) by {
        assert forall|j: int| 0 <= j < p1.len() implies p1[j] == p2[j] by {
            assert(p1.push(digit_char(n1 % 10))[j] == p1[j]);
            assert(p2.push(digit_char(n2 % 10))[j] == p2[j]);
            assert(s1[j] == s2[j]);
        }
    }
    if n1 / 10 >= 1 && n2 / 10 >= 1 {
        lemma_digits_injective(n1 / 10, n2 / 10);
    } else if n1 / 10 == 0 && n2 / 10 == 0 {
        assert(n1 == 10 * (n1 / 10) + n1 % 10);
        assert(n2 == 10 * (n2 / 10) + n2 % 10);
    } else {
        // one quotient is zero and the other is not: the renderings would
        // have different lengths
        if n1 / 10 == 0 {
            crate::order::lemma_nat_string_nonempty(n2 / 10);
            assert(spec_digits(n1 / 10).len() == 0);
            assert(false);
        } else {
            crate::order::lemma_nat_string_nonempty(n1 / 10);
            assert(spec_digits(n2 / 10).len() == 0);
            assert(false);
        }
    }
}

proof fn lemma_nat_string_injective(n1: int, n2: int)
    requires
        n1 >= 1,
        n2 >= 1,
        spec_nat_string(n1) == spec_nat_string(n2),
    ensures
        n1 == n2,
{
    lemma_digits_injective(n1, n2);
}

/// The marker texts a token can carry.
pub open spec fn is_marker(m: Seq<char>) -> bool {
    ||| m == Seq::<char>::empty()
    ||| m == seq!['\'']
    ||| m == seq!['\'', '\'']
    ||| m == seq!['\'', '\'', '\'']
    ||| m == seq!['o']
}

proof fn lemma_marker_not_digit(m: Seq<char>)
    requires
        is_marker(m),
    ensures
        forall|j: int| 0 <= j < m.len() ==> !is_digit(#[trigger] m[j]),
{
    assert(!is_digit('\''));
    assert(!is_digit('o'));
}

/// A token text determines its hole number, side and marker.
proof fn lemma_hole_token_injective(
    h1: int,
    s1: bool,
    m1: Seq<char>,
    h2: int,
    s2: bool,
    m2: Seq<char>,
)
    requires
        h1 >= 1,
        h2 >= 1,
        is_marker(m1),
        is_marker(m2),
        spec_hole_token(h1, s1, m1) == spec_hole_token(h2, s2, m2),
    ensures
        h1 == h2,
        s1 == s2,
        m1 == m2,
{
    let t1 = spec_hole_token(h1, s1, m1);
    let n1 = spec_nat_string(h1);
    let n2 = spec_nat_string(h2);
    lemma_nat_string_digits(h1);
    lemma_nat_string_digits(h2);
    lemma_marker_not_digit(m1);
    lemma_marker_not_digit(m2);

    // The sign can be read off the first character.
    assert(s1 == s2) by {
        assert(!is_digit('-'));
        if s1 {
            assert(t1[0] == '-');
        } else {
            assert(t1[0] == n1[0]);
            assert(is_digit(t1[0]));
        }
        if s2 {
            assert(spec_hole_token(h2, s2, m2)[0] == '-');
        } else {
            assert(spec_hole_token(h2, s2, m2)[0] == n2[0]);
            assert(is_digit(spec_hole_token(h2, s2, m2)[0]));
        }
    }

    // Strip the sign: the digits and marker parts agree as one sequence.
    let off: int = if s1 {
        1
    } else {
        0
    };
    assert(n1 + m1 =~= (n2 + m2)) by {
        assert(t1.len() == off + n1.len() + m1.len());
        assert(t1.len() == off + n2.len() + m2.len());
        assert(forall|j: int| 0 <= j < n1.len() + m1.len() ==> (n1 + m1)[j] == t1[off + j]);
        assert(forall|j: int| 0 <= j < n2.len() + m2.len() ==> (n2 + m2)[j] == t1[off + j]);
    }

    // The digit run has the same length on both sides: a longer run would
    // put a digit where the other side already reads its marker.
    assert(n1.len() == n2.len()) by {
        if n1.len() < n2.len() {
            assert((n1 + m1)[n1.len() as int] == m1[0]);
            assert((n2 + m2)[n1.len() as int] == n2[n1.len() as int]);
            assert(is_digit(n2[n1.len() as int]));
            assert(!is_digit(m1[0]));
        } else if n2.len() < n1.len() {
            assert((n2 + m2)[n2.len() as int] == m2[0]);
            assert((n1 + m1)[n2.len() as int] == n1[n2.len() as int]);
            assert(is_digit(n1[n2.len() as int]));
            assert(!is_digit(m2[0]));
        }
    }

    assert(n1 =~= n2) by {
        assert(forall|j: int| 0 <= j < n1.len() ==> n1[j] == (n1 + m1)[j]);
        assert(forall|j: int| 0 <= j < n2.len() ==> n2[j] == (n2 + m2)[j]);
    }
    lemma_nat_string_injective(h1, h2);
    assert(m1.len() == m2.len());
    assert(m1 =~= m2) by {
        assert forall|j: int| 0 <= j < m1.len() implies m1[j] == m2[j] by {
            assert((n1 + m1)[n1.len() + j] == m1[j]);
            assert((n2 + m2)[n2.len() + j] == m2[j]);
        }
    }
}

/// What it means to be a candidate of tuning `t`: the entry of some present
/// row of some hole.
pub open spec fn is_cand_of(t: TuningModel, e: (i32, Seq<char>)) -> bool {
    exists|h: int, row: int|
        {
            &&& 0 <= h < t.blow.len()
            &&& 0 <= row < 9
            &&& #[trigger] spec_row_cand(t, h, row).len() == 1
            &&& e == spec_row_cand(t, h, row)[0]
        }
}

proof fn lemma_hole_cands_are_cands(t: TuningModel, h: int, row: int)
    requires
        0 <= h < t.blow.len(),
        0 <= row <= 9,
    ensures
        forall|k: int|
            0 <= k < spec_hole_cands_upto(t, h, row).len() ==> is_cand_of(
                t,
                #[trigger] spec_hole_cands_upto(t, h, row)[k],
            ),
    decreases row,
{
    if row > 0 {
        lemma_hole_cands_are_cands(t, h, row - 1);
        let prev = spec_hole_cands_upto(t, h, row - 1);
        let rc = spec_row_cand(t, h, row - 1);
        assert forall|k: int|
            0 <= k < spec_hole_cands_upto(t, h, row).len() implies is_cand_of(
            t,
            #[trigger] spec_hole_cands_upto(t, h, row)[k],
        ) by {
            if k < prev.len() {
                assert(spec_hole_cands_upto(t, h, row)[k] == prev[k]);
            } else {
                assert(spec_hole_cands_upto(t, h, row)[k] == rc[k - prev.len()]);
                assert(rc.len() == 1 && spec_hole_cands_upto(t, h, row)[k] == rc[0]);
            }
        }
    }
}

proof fn lemma_cands_are_cands(t: TuningModel, h: int)
    requires
        0 <= h <= t.blow.len(),
    ensures
        forall|k: int|
            0 <= k < spec_cands_upto(t, h).len() ==> is_cand_of(
                t,
                #[trigger] spec_cands_upto(t, h)[k],
            ),
    decreases h,
{
    if h > 0 {
        lemma_cands_are_cands(t, h - 1);
        lemma_hole_cands_are_cands(t, h - 1, 9);
        let prev = spec_cands_upto(t, h - 1);
        let hc = spec_hole_cands_upto(t, h - 1, 9);
        assert forall|k: int|
            0 <= k < spec_cands_upto(t, h).len() implies is_cand_of(
            t,
            #[trigger] spec_cands_upto(t, h)[k],
        ) by {
            if k < prev.len() {
                assert(spec_cands_upto(t, h)[k] == prev[k]);
            } else {
                assert(spec_cands_upto(t, h)[k] == hc[k - prev.len()]);
            }
        }
    }
}

/// A candidate's token text determines its pitch: two candidates spelled
/// alike are the same (hole, row) entry.
proof fn lemma_same_token_same_pitch(t: TuningModel, e1: (i32, Seq<char>), e2: (i32, Seq<char>))
    requires
        is_cand_of(t, e1),
        is_cand_of(t, e2),
        e1.1 == e2.1,
    ensures
        e1.0 == e2.0,
{
    let (h1, row1) = choose|h: int, row: int|
        {
            &&& 0 <= h < t.blow.len()
            &&& 0 <= row < 9
            &&& #[trigger] spec_row_cand(t, h, row).len() == 1
            &&& e1 == spec_row_cand(t, h, row)[0]
        };
    let (h2, row2) = choose|h: int, row: int|
        {
            &&& 0 <= h < t.blow.len()
            &&& 0 <= row < 9
            &&& #[trigger] spec_row_cand(t, h, row).len() == 1
            &&& e2 == spec_row_cand(t, h, row)[0]
        };
    let side1 = row1 == 1 || row1 == 2 || row1 == 3 || row1 == 4 || row1 == 8;
    let side2 = row2 == 1 || row2 == 2 || row2 == 3 || row2 == 4 || row2 == 8;
    let m1 = spec_row_marker(row1);
    let m2 = spec_row_marker(row2);
    assert(e1.1 == spec_hole_token(h1 + 1, side1, m1));
    assert(e2.1 == spec_hole_token(h2 + 1, side2, m2));
    assert(is_marker(m1));
    assert(is_marker(m2));
    lemma_hole_token_injective(h1 + 1, side1, m1, h2 + 1, side2, m2);
    assert(h1 == h2);
    assert(row1 == row2) by {
        assert(side1 == side2 && m1 == m2);
        assert(seq!['\''].len() == 1 && seq!['\'', '\''].len() == 2 && seq![
            '\'',
            '\'',
            '\'',
        ].len() == 3);
        assert(seq!['o'][0] == 'o' && seq!['\''][0] == '\'');
    }
}

/// The marker each candidate row writes.
pub open spec fn spec_row_marker(row: int) -> Seq<char> {
    if row == 0 || row == 1 {
        Seq::<char>::empty()
    } else if row == 2 || row == 5 {
        seq!['\'']
    } else if row == 3 || row == 6 {
        seq!['\'', '\'']
    } else if row == 4 {
        seq!['\'', '\'', '\'']
    } else {
        seq!['o']
    }
}

/// A canonical slot that is not the sentinel names a candidate at exactly
/// that pitch.
proof fn lemma_first_tok_is_cand(c: Seq<(i32, Seq<char>)>, p: int)
    requires
        spec_first_tok(c, p) != seq!['X'],
    ensures
        exists|k: int|
            0 <= k < c.len() && (#[trigger] c[k]).0 == p && c[k].1 == spec_first_tok(c, p),
    decreases c.len(),
{
    if c.len() > 0 {
        if c[0].0 == p {
            assert(c[0].0 == p && c[0].1 == spec_first_tok(c, p));
        } else {
            lemma_first_tok_is_cand(c.drop_first(), p);
            let k0 = choose|k: int|
                0 <= k < c.drop_first().len() && (#[trigger] c.drop_first()[k]).0 == p
                    && c.drop_first()[k].1 == spec_first_tok(c.drop_first(), p);
            assert(c[k0 + 1].0 == p && c[k0 + 1].1 == spec_first_tok(c, p));
        }
    }
}

/// Each slot of a well-formed tuning's canonical ordering holds either the
/// sentinel or a token that occurs nowhere else in the ordering.
pub proof fn lemma_canonical_slots_unique(t: TuningModel, i: int, j: int)
    requires
        wf_model(t),
        0 <= i < spec_canonical_of(t).len(),
        0 <= j < spec_canonical_of(t).len(),
        i != j,
        spec_canonical_of(t)[i] != seq!['X'],
    ensures
        spec_canonical_of(t)[i] != spec_canonical_of(t)[j],
{
    let c = spec_cands(t);
    if spec_canonical_of(t)[i] == spec_canonical_of(t)[j] {
        assert(spec_canonical_of(t)[i] == spec_first_tok(c, i));
        assert(spec_canonical_of(t)[j] == spec_first_tok(c, j));
        lemma_first_tok_is_cand(c, i);
        lemma_first_tok_is_cand(c, j);
        let k1 = choose|k: int|
            0 <= k < c.len() && (#[trigger] c[k]).0 == i && c[k].1 == spec_first_tok(c, i);
        let k2 = choose|k: int|
            0 <= k < c.len() && (#[trigger] c[k]).0 == j && c[k].1 == spec_first_tok(c, j);
        lemma_cands_are_cands(t, t.blow.len() as int);
        lemma_same_token_same_pitch(t, c[k1], c[k2]);
        assert(false);
    }
}

/// A real canonical token is found back at its own index.
pub proof fn lemma_canonical_find(t: TuningModel, i: int)
    requires
        wf_model(t),
        0 <= i < spec_canonical_of(t).len(),
        spec_canonical_of(t)[i] != seq!['X'],
    ensures
        spec_find_note(spec_canonical_of(t), spec_canonical_of(t)[i]) == i,
{
    let ord = spec_canonical_of(t);
    let tok = ord[i];
    assert forall|j: int| 0 <= j < i implies ord[j] != tok by {
        lemma_canonical_slots_unique(t, i, j);
    }
    lemma_note_index_first(ord, tok, 0, i);
}

proof fn lemma_note_index_first(notes: Seq<Seq<char>>, note: Seq<char>, from: int, i: int)
    requires
        0 <= from <= i < notes.len(),
        notes[i] == note,
        forall|j: int| from <= j < i ==> notes[j] != note,
    ensures
        spec_note_index(notes, note, from) == i,
    decreases i - from,
{
    if from < i {
        lemma_note_index_first(notes, note, from + 1, i);
    }
}

/// Index linearity over the canonical ordering itself: any real token of the
/// ordering, transposed by `k` semitones within range, yields exactly the
/// token `k` places away, because a token's index is its pitch.
pub proof fn lemma_canonical_index_linearity(t: TuningModel, i: int, k: int)
    requires
        wf_model(t),
        0 <= i < spec_canonical_of(t).len(),
        spec_canonical_of(t)[i] != seq!['X'],
        0 <= i + k < spec_canonical_of(t).len(),
    ensures
        spec_transpose(spec_canonical_of(t), spec_canonical_of(t), spec_canonical_of(t)[i], k)
            == Ok::<Seq<char>, Seq<char>>(spec_canonical_of(t)[i + k]),
{
    lemma_canonical_find(t, i);
}

} // verus!
