//! The transposition engine: shifting a token by a number of semitones
//! inside the canonical ordering, and transposing whole tabs.
//!
//! A token is resolved against the input tuning's canonical order (after
//! enharmonic alias rewriting) and the shifted index is read from the output
//! tuning's canonical order, so transposing between tunings of different
//! shapes is the same operation. An index outside the output ordering is a
//! valid, non-fatal outcome: it yields the unplayable sentinel, never a
//! wraparound and never a panic. A token absent from the input ordering is
//! an invalid note: a recoverable error that whole-tab transposition
//! collects instead of failing.

use vstd::prelude::*;
use vstd::string::StrSliceExecFns;
use vstd::string::StringExecFns;
use crate::order::{spec_aliases_of, spec_canonical_of, tuning_to_notes_in_order};
use crate::style::{change_tab_style, spec_change_style, Style};
use crate::text::{spec_line_tokens, spec_tab_lines, split_line_tokens, split_tab_lines, str_eq};
use crate::tuning::spec_tuning_for;

verus! {

/// First index of `note` in `notes` at or after `from`; the length when the
/// note does not occur.
pub open spec fn spec_note_index(notes: Seq<Seq<char>>, note: Seq<char>, from: int) -> int
    decreases notes.len() - from when 0 <= from <= notes.len()
{
    if from >= notes.len() {
        notes.len() as int
    } else if notes[from] == note {
        from
    } else {
        spec_note_index(notes, note, from + 1)
    }
}

/// First index of `note` in `notes`; the length when absent.
pub open spec fn spec_find_note(notes: Seq<Seq<char>>, note: Seq<char>) -> int {
    spec_note_index(notes, note, 0)
}

pub proof fn lemma_note_index(notes: Seq<Seq<char>>, note: Seq<char>, from: int)
    requires
        0 <= from <= notes.len(),
    ensures
        from <= spec_note_index(notes, note, from) <= notes.len(),
        spec_note_index(notes, note, from) < notes.len() ==> notes[spec_note_index(
            notes,
            note,
            from,
        )] == note,
    decreases notes.len() - from,
{
    if from < notes.len() && notes[from] != note {
        lemma_note_index(notes, note, from + 1);
    }
}

pub(crate) fn find_note(notes: &Vec<String>, note: &str) -> (r: usize)
    ensures
        r == spec_find_note(notes.deep_view(), note@),
        r <= notes@.len(),
{
    let len = notes.len();
    let mut i: usize = 0;
    while i < len
        invariant
            i <= len,
            len == notes@.len(),
            spec_find_note(notes.deep_view(), note@) == spec_note_index(
                notes.deep_view(),
                note@,
                i as int,
            ),
        decreases len - i,
    {
        if str_eq(notes[i].as_str(), note) {
            proof {
                assert(notes.deep_view()[i as int] == notes@[i as int]@);
            }
            return i;
        }
        proof {
            assert(notes.deep_view()[i as int] == notes@[i as int]@);
        }
        i = i + 1;
    }
    i
}

/// An alias token rewritten to its canonical spelling: the alias table is a
/// flat list of (alias, canonical) pairs, scanned in order.
pub open spec fn spec_fix_enharmonics(note: Seq<char>, dups: Seq<Seq<char>>) -> Seq<char>
    decreases dups.len(),
{
    if dups.len() < 2 {
        note
    } else if dups[0] == note {
        dups[1]
    } else {
        spec_fix_enharmonics(note, dups.skip(2))
    }
}

/// Rewrite `note` to its canonical spelling when it is an enharmonic alias;
/// any other token passes through unchanged.
pub fn fix_enharmonics<'a>(note: &'a str, duplicated_notes: &'a Vec<String>) -> (r: &'a str)
    ensures
        r@ == spec_fix_enharmonics(note@, duplicated_notes.deep_view()),
{
    let len = duplicated_notes.len();
    let mut i: usize = 0;
    proof {
        assert(duplicated_notes.deep_view().skip(0) =~= duplicated_notes.deep_view());
    }
    while i < len && i + 1 < len
        invariant
            i <= len,
            len == duplicated_notes@.len(),
            spec_fix_enharmonics(note@, duplicated_notes.deep_view()) == spec_fix_enharmonics(
                note@,
                duplicated_notes.deep_view().skip(i as int),
            ),
        decreases len - i,
    {
        let ghost rest = duplicated_notes.deep_view().skip(i as int);
        proof {
            assert(rest[0] == duplicated_notes.deep_view()[i as int]);
            assert(rest[1] == duplicated_notes.deep_view()[i as int + 1]);
            assert(duplicated_notes.deep_view()[i as int] == duplicated_notes@[i as int]@);
            assert(duplicated_notes.deep_view()[i as int + 1] == duplicated_notes@[i as int + 1]@);
        }
        if str_eq(note, duplicated_notes[i].as_str()) {
            return duplicated_notes[i + 1].as_str();
        }
        proof {
            assert(rest.skip(2) =~= duplicated_notes.deep_view().skip(i as int + 2));
        }
        i = i + 2;
    }
    proof {
        assert(duplicated_notes.deep_view().skip(i as int).len() < 2);
    }
    note
}

/// The message reported for a token that is not a note of the input tuning.
pub open spec fn spec_invalid_note_msg(note: Seq<char>) -> Seq<char> {
    seq!['"'] + note + "\" is not a valid note"@
}

/// One token shifted by `semitones`: the token's index in the input ordering
/// plus the shift, read back from the output ordering; the unplayable
/// sentinel when the shifted index falls outside; an error when the token is
/// not a note of the input ordering.
pub open spec fn spec_transpose(
    inp: Seq<Seq<char>>,
    out: Seq<Seq<char>>,
    note: Seq<char>,
    semitones: int,
) -> Result<Seq<char>, Seq<char>> {
    let i = spec_find_note(inp, note);
    if i == inp.len() {
        Err(spec_invalid_note_msg(note))
    } else {
        let j = i + semitones;
        if 0 <= j < out.len() {
            Ok(out[j])
        } else {
            Ok(seq!['X'])
        }
    }
}

/// Transpose one note token by `semitones`, resolving it in
/// `input_harp_notes` and reading the result from `output_harp_notes`.
pub fn transpose(
    input_harp_notes: &Vec<String>,
    output_harp_notes: &Vec<String>,
    note: &str,
    semitones: i32,
) -> (r: Result<String, String>)
    requires
        input_harp_notes@.len() < 0x1000_0000,
        output_harp_notes@.len() < 0x1000_0000,
    ensures
        (match (
            r,
            spec_transpose(
                input_harp_notes.deep_view(),
                output_harp_notes.deep_view(),
                note@,
                semitones as int,
            ),
        ) {
            (Ok(t), Ok(ts)) => t@ == ts,
            (Err(e), Err(es)) => e@ == es,
            _ => false,
        }),
{
    proof {
        reveal_strlit("\"");
        reveal_strlit("\" is not a valid note");
        reveal_strlit("X");
    }
    let pos = find_note(input_harp_notes, note);
    if pos == input_harp_notes.len() {
        let mut msg = "\"".to_owned();
        msg.append(note);
        msg.append("\" is not a valid note");
        proof {
            assert("\""@ =~= seq!['"']);
            assert(msg@ =~= spec_invalid_note_msg(note@));
        }
        return Err(msg);
    }
    let shifted: i64 = pos as i64 + semitones as i64;
    if 0 <= shifted && shifted < output_harp_notes.len() as i64 {
        let j = shifted as usize;
        let tok = output_harp_notes[j].clone();
        proof {
            assert(output_harp_notes.deep_view()[j as int] == output_harp_notes@[j as int]@);
        }
        Ok(tok)
    } else {
        let tok = "X".to_owned();
        proof {
            assert(tok@ =~= seq!['X']);
        }
        Ok(tok)
    }
}

/// One token of a whole-tab transposition: alias-resolved, then shifted.
pub open spec fn spec_transpose_token(
    inp: Seq<Seq<char>>,
    out: Seq<Seq<char>>,
    dups: Seq<Seq<char>>,
    tok: Seq<char>,
    semitones: int,
) -> Result<Seq<char>, Seq<char>> {
    spec_transpose(inp, out, spec_fix_enharmonics(tok, dups), semitones)
}

/// Text and collected invalid tokens contributed by the tokens of one line
/// from index `k` on. A transposed token is emitted with a trailing space;
/// an invalid token is collected, and emitted verbatim only when
/// `keep_errors` holds.
pub open spec fn spec_line_out(
    toks: Seq<Seq<char>>,
    k: int,
    inp: Seq<Seq<char>>,
    out: Seq<Seq<char>>,
    dups: Seq<Seq<char>>,
    semitones: int,
    keep_errors: bool,
) -> (Seq<char>, Seq<Seq<char>>)
    decreases toks.len() - k when 0 <= k <= toks.len()
{
    if k >= toks.len() {
        (Seq::empty(), Seq::empty())
    } else {
        let rest = spec_line_out(toks, k + 1, inp, out, dups, semitones, keep_errors);
        match spec_transpose_token(inp, out, dups, toks[k], semitones) {
            Ok(t) => (t + seq![' '] + rest.0, rest.1),
            Err(_) => (
                (if keep_errors {
                    toks[k] + seq![' ']
                } else {
                    Seq::empty()
                }) + rest.0,
                seq![toks[k]] + rest.1,
            ),
        }
    }
}

/// Text and collected invalid tokens of the lines from index `li` on; every
/// line is closed with a newline.
pub open spec fn spec_tab_out(
    lines: Seq<Seq<char>>,
    li: int,
    inp: Seq<Seq<char>>,
    out: Seq<Seq<char>>,
    dups: Seq<Seq<char>>,
    semitones: int,
    keep_errors: bool,
) -> (Seq<char>, Seq<Seq<char>>)
    decreases lines.len() - li when 0 <= li <= lines.len()
{
    if li >= lines.len() {
        (Seq::empty(), Seq::empty())
    } else {
        let l = spec_line_out(
            spec_line_tokens(lines[li]),
            0,
            inp,
            out,
            dups,
            semitones,
            keep_errors,
        );
        let rest = spec_tab_out(lines, li + 1, inp, out, dups, semitones, keep_errors);
        (l.0 + seq!['\n'] + rest.0, l.1 + rest.1)
    }
}

/// The canonical ordering of the named tuning, rewritten into `style`.
pub open spec fn spec_styled_order(name: Seq<char>, style: Style) -> Seq<Seq<char>> {
    spec_canonical_of(spec_tuning_for(name)).map_values(|t: Seq<char>| spec_change_style(t, style))
}

/// The alias table of the named tuning, rewritten into `style`.
pub open spec fn spec_styled_aliases(name: Seq<char>, style: Style) -> Seq<Seq<char>> {
    spec_aliases_of(spec_tuning_for(name)).map_values(|t: Seq<char>| spec_change_style(t, style))
}

/// A whole tab transposed by `semitones` from `input_tuning` to
/// `output_tuning`, with tokens written in `style`: the resulting text and
/// the list of invalid tokens, verbatim as they appeared in the input.
pub open spec fn spec_transpose_tabs(
    tab: Seq<char>,
    semitones: int,
    keep_errors: bool,
    style: Style,
    input_tuning: Seq<char>,
    output_tuning: Seq<char>,
) -> (Seq<char>, Seq<Seq<char>>) {
    spec_tab_out(
        spec_tab_lines(tab),
        0,
        spec_styled_order(input_tuning, style),
        spec_styled_order(output_tuning, style),
        spec_styled_aliases(input_tuning, style),
        semitones,
        keep_errors,
    )
}

/// The canonical ordering of a well-formed tuning is short: pitches stay
/// under 122 semitones.
pub proof fn lemma_max_pitch_le(c: Seq<(i32, Seq<char>)>, k: int)
    requires
        1 <= k <= c.len(),
        forall|j: int| 0 <= j < c.len() ==> 0 <= (#[trigger] c[j]).0 <= 121,
    ensures
        0 <= crate::order::spec_max_pitch_upto(c, k) <= 121,
    decreases k,
{
    if k > 1 {
        lemma_max_pitch_le(c, k - 1);
    }
}

pub proof fn lemma_canonical_len(m: crate::tuning::TuningModel)
    requires
        crate::tuning::wf_model(m),
    ensures
        spec_canonical_of(m).len() <= 122,
{
    let c = crate::order::spec_cands(m);
    if c.len() > 0 {
        crate::order::lemma_cands_bounds(m, m.blow.len() as int);
        lemma_max_pitch_le(c, c.len() as int);
    }
}

pub proof fn lemma_tuning_for_wf(name: Seq<char>)
    ensures
        crate::tuning::wf_model(spec_tuning_for(name)),
{
    crate::tuning::lemma_registry_wf();
}

/// Transpose every token of one line, appending the rendered tokens to
/// `result` and collecting invalid tokens into `errors`.
fn transpose_line(
    toks: &Vec<String>,
    input_notes: &Vec<String>,
    output_notes: &Vec<String>,
    dups: &Vec<String>,
    semitones: i32,
    keep_errors: bool,
    result: &mut String,
    errors: &mut Vec<String>,
)
    requires
        input_notes@.len() < 0x1000_0000,
        output_notes@.len() < 0x1000_0000,
    ensures
        final(result)@ == old(result)@ + spec_line_out(
            toks.deep_view(),
            0,
            input_notes.deep_view(),
            output_notes.deep_view(),
            dups.deep_view(),
            semitones as int,
            keep_errors,
        ).0,
        final(errors).deep_view() == old(errors).deep_view() + spec_line_out(
            toks.deep_view(),
            0,
            input_notes.deep_view(),
            output_notes.deep_view(),
            dups.deep_view(),
            semitones as int,
            keep_errors,
        ).1,
{
    let ghost tseq = toks.deep_view();
    let ghost inp = input_notes.deep_view();
    let ghost outp = output_notes.deep_view();
    let ghost dupsv = dups.deep_view();
    let ghost base_r = result@;
    let ghost base_e = errors.deep_view();
    let len = toks.len();
    let mut k: usize = 0;
    while k < len
        invariant
            k <= len,
            len == tseq.len(),
            tseq == toks.deep_view(),
            inp == input_notes.deep_view(),
            outp == output_notes.deep_view(),
            dupsv == dups.deep_view(),
            input_notes@.len() < 0x1000_0000,
            output_notes@.len() < 0x1000_0000,
            result@ + spec_line_out(tseq, k as int, inp, outp, dupsv, semitones as int,
                keep_errors,
            ).0 =~= base_r + spec_line_out(tseq, 0, inp, outp, dupsv, semitones as int,
                keep_errors,
            ).0,
            errors.deep_view() + spec_line_out(tseq, k as int, inp, outp, dupsv,
                semitones as int, keep_errors).1 =~= base_e + spec_line_out(tseq, 0, inp, outp,
                dupsv, semitones as int, keep_errors).1,
        decreases len - k,
    {
        proof {
            reveal_strlit(" ");
            assert(" "@ =~= seq![' ']);
            assert(tseq[k as int] == toks@[k as int]@);
        }
        let fixed = fix_enharmonics(toks[k].as_str(), dups);
        let shifted = transpose(input_notes, output_notes, fixed, semitones);
        let ghost spec_res = spec_transpose_token(
            inp,
            outp,
            dupsv,
            tseq[k as int],
            semitones as int,
        );
        match shifted {
            Ok(t) => {
                result.append(t.as_str());
                result.append(" ");
                proof {
                    assert(spec_res is Ok && spec_res->Ok_0 == t@);
                    assert(result@ + spec_line_out(tseq, k as int + 1, inp, outp, dupsv,
                        semitones as int, keep_errors).0 =~= base_r + spec_line_out(tseq, 0, inp,
                        outp, dupsv, semitones as int, keep_errors).0);
                }
            },
            Err(_) => {
                let bad = toks[k].clone();
                let ghost badv = bad@;
                errors.push(bad);
                proof {
                    assert(spec_res is Err);
                    assert(badv == tseq[k as int]);
                    assert(errors.deep_view() =~= errors.deep_view().subrange(
                        0,
                        errors.deep_view().len() - 1,
                    ) + seq![badv]);
                    assert(errors.deep_view() + spec_line_out(tseq, k as int + 1, inp, outp,
                        dupsv, semitones as int, keep_errors).1 =~= base_e + spec_line_out(tseq,
                        0, inp, outp, dupsv, semitones as int, keep_errors).1);
                }
                if keep_errors {
                    result.append(toks[k].as_str());
                    result.append(" ");
                }
                proof {
                    assert(result@ + spec_line_out(tseq, k as int + 1, inp, outp, dupsv,
                        semitones as int, keep_errors).0 =~= base_r + spec_line_out(tseq, 0, inp,
                        outp, dupsv, semitones as int, keep_errors).0);
                }
            },
        }
        k = k + 1;
    }
    proof {
        assert(spec_line_out(tseq, len as int, inp, outp, dupsv, semitones as int, keep_errors).0
            =~= Seq::<char>::empty());
        assert(spec_line_out(tseq, len as int, inp, outp, dupsv, semitones as int, keep_errors).1
            =~= Seq::<Seq<char>>::empty());
        assert(result@ =~= base_r + spec_line_out(tseq, 0, inp, outp, dupsv, semitones as int,
            keep_errors).0);
        assert(errors.deep_view() =~= base_e + spec_line_out(tseq, 0, inp, outp, dupsv,
            semitones as int, keep_errors).1);
    }
}

/// Transpose a whole tab by `semitones` between two tunings, with tokens
/// read and written in `style`. Tokens are split on whitespace and each line
/// is closed with a newline. Invalid tokens never abort the operation: each
/// is collected into the returned list, and emitted verbatim in place when
/// `keep_errors` holds, dropped otherwise.
pub fn transpose_tabs(
    tab: String,
    semitones: i32,
    keep_errors: bool,
    style: Style,
    input_tuning: &str,
    output_tuning: &str,
) -> (r: (String, Vec<String>))
    ensures
        r.0@ == spec_transpose_tabs(
            tab@,
            semitones as int,
            keep_errors,
            style,
            input_tuning@,
            output_tuning@,
        ).0,
        r.1.deep_view() == spec_transpose_tabs(
            tab@,
            semitones as int,
            keep_errors,
            style,
            input_tuning@,
            output_tuning@,
        ).1,
{
    proof {
        lemma_tuning_for_wf(input_tuning@);
        lemma_tuning_for_wf(output_tuning@);
        lemma_canonical_len(spec_tuning_for(input_tuning@));
        lemma_canonical_len(spec_tuning_for(output_tuning@));
    }
    let (input_raw, dups_raw) = tuning_to_notes_in_order(input_tuning);
    let input_notes = change_tab_style(&input_raw, style);
    let dups = change_tab_style(&dups_raw, style);
    let (output_pair0, output_pair1) = tuning_to_notes_in_order(output_tuning);
    let output_raw = output_pair0;
    let _ = output_pair1;
    let output_notes = change_tab_style(&output_raw, style);

    let ghost inp = spec_styled_order(input_tuning@, style);
    let ghost outp = spec_styled_order(output_tuning@, style);
    let ghost dupsv = spec_styled_aliases(input_tuning@, style);
    proof {
        assert(input_notes.deep_view() == inp);
        assert(output_notes.deep_view() == outp);
        assert(dups.deep_view() == dupsv);
        assert(inp.len() <= 122);
        assert(outp.len() <= 122);
    }

    let lines = split_tab_lines(tab.as_str());
    let ghost lseq = spec_tab_lines(tab@);
    let mut result = String::new();
    let mut errors: Vec<String> = Vec::new();
    let nlines = lines.len();
    let mut li: usize = 0;
    while li < nlines
        invariant
            li <= nlines,
            nlines == lseq.len(),
            lseq == lines.deep_view(),
            inp == input_notes.deep_view(),
            outp == output_notes.deep_view(),
            dupsv == dups.deep_view(),
            input_notes@.len() < 0x1000_0000,
            output_notes@.len() < 0x1000_0000,
            result@ + spec_tab_out(lseq, li as int, inp, outp, dupsv, semitones as int,
                keep_errors).0 =~= spec_tab_out(lseq, 0, inp, outp, dupsv, semitones as int,
                keep_errors).0,
            errors.deep_view() + spec_tab_out(lseq, li as int, inp, outp, dupsv,
                semitones as int, keep_errors).1 =~= spec_tab_out(lseq, 0, inp, outp, dupsv,
                semitones as int, keep_errors).1,
        decreases nlines - li,
    {
        proof {
            reveal_strlit("\n");
            assert("\n"@ =~= seq!['\n']);
            assert(lseq[li as int] == lines@[li as int]@);
        }
        let toks = split_line_tokens(lines[li].as_str());
        transpose_line(
            &toks,
            &input_notes,
            &output_notes,
            &dups,
            semitones,
            keep_errors,
            &mut result,
            &mut errors,
        );
        result.append("\n");
        proof {
            assert(result@ + spec_tab_out(lseq, li as int + 1, inp, outp, dupsv,
                semitones as int, keep_errors).0 =~= spec_tab_out(lseq, 0, inp, outp, dupsv,
                semitones as int, keep_errors).0);
            assert(errors.deep_view() + spec_tab_out(lseq, li as int + 1, inp, outp, dupsv,
                semitones as int, keep_errors).1 =~= spec_tab_out(lseq, 0, inp, outp, dupsv,
                semitones as int, keep_errors).1);
        }
        li = li + 1;
    }
    proof {
        assert(spec_tab_out(lseq, nlines as int, inp, outp, dupsv, semitones as int, keep_errors)
            .0 =~= Seq::<char>::empty());
        assert(spec_tab_out(lseq, nlines as int, inp, outp, dupsv, semitones as int, keep_errors)
            .1 =~= Seq::<Seq<char>>::empty());
        assert(result@ =~= spec_tab_out(lseq, 0, inp, outp, dupsv, semitones as int, keep_errors)
            .0);
        assert(errors.deep_view() =~= spec_tab_out(lseq, 0, inp, outp, dupsv, semitones as int,
            keep_errors).1);
    }
    (result, errors)
}

/// Index linearity: where token `a` resolves to index `i` of the canonical
/// ordering and `i + k` is still inside it, shifting `a` by `k` semitones
/// yields exactly the token `k` places above it.
pub proof fn lemma_transpose_index_linearity(ord: Seq<Seq<char>>, a: Seq<char>, i: int, k: int)
    requires
        spec_find_note(ord, a) == i,
        0 <= i < ord.len(),
        0 <= i + k < ord.len(),
    ensures
        spec_transpose(ord, ord, a, k) == Ok::<Seq<char>, Seq<char>>(ord[i + k]),
{
}

/// Transposing past either end of the output ordering yields the unplayable
/// sentinel, never a wraparound.
pub proof fn lemma_transpose_out_of_range(
    inp: Seq<Seq<char>>,
    out: Seq<Seq<char>>,
    a: Seq<char>,
    k: int,
)
    requires
        spec_find_note(inp, a) < inp.len(),
        !(0 <= spec_find_note(inp, a) + k < out.len()),
    ensures
        spec_transpose(inp, out, a, k) == Ok::<Seq<char>, Seq<char>>(seq!['X']),
{
    lemma_note_index(inp, a, 0);
}

/// Zero-shift idempotence: a token of the input ordering transposed by zero
/// semitones comes back as its canonical spelling, whatever spelling the
/// alias table rewrote it from.
pub proof fn lemma_zero_shift_identity(inp: Seq<Seq<char>>, dups: Seq<Seq<char>>, tok: Seq<char>)
    requires
        spec_find_note(inp, spec_fix_enharmonics(tok, dups)) < inp.len(),
    ensures
        spec_transpose_token(inp, inp, dups, tok, 0) == Ok::<Seq<char>, Seq<char>>(
            inp[spec_find_note(inp, spec_fix_enharmonics(tok, dups))],
        ),
{
    lemma_note_index(inp, spec_fix_enharmonics(tok, dups), 0);
}

} // verus!
