//! Audio indices: each token of a tab resolved to a signed semitone offset
//! relative to the 440 Hz reference note, which sits nine places above the
//! lowest note of the canonical ordering. A playback collaborator turns
//! these offsets into sound; computing them is pure.

use vstd::prelude::*;
use vstd::string::StrSliceExecFns;
use vstd::string::StringExecFns;
use crate::order::tuning_to_notes_in_order;
use crate::style::{change_tab_style, Style};
use crate::text::{spec_line_tokens, spec_tab_lines, split_line_tokens, split_tab_lines};
use crate::transpose::{
    find_note, fix_enharmonics, lemma_canonical_len, lemma_tuning_for_wf, spec_find_note,
    spec_fix_enharmonics, spec_styled_aliases, spec_styled_order,
};
use crate::tuning::spec_tuning_for;

verus! {

/// The semitone offsets contributed by the tokens of one line from index
/// `k` on; a token that is not a note contributes nothing.
pub open spec fn spec_audio_line(
    toks: Seq<Seq<char>>,
    k: int,
    notes: Seq<Seq<char>>,
    dups: Seq<Seq<char>>,
) -> Seq<i32>
    decreases toks.len() - k when 0 <= k <= toks.len()
{
    if k >= toks.len() {
        Seq::empty()
    } else {
        let i = spec_find_note(notes, spec_fix_enharmonics(toks[k], dups));
        (if i == notes.len() {
            Seq::empty()
        } else {
            seq![((i - 9) as i32)]
        }) + spec_audio_line(toks, k + 1, notes, dups)
    }
}

/// The semitone offsets of the lines from index `li` on.
pub open spec fn spec_audio_tab(
    lines: Seq<Seq<char>>,
    li: int,
    notes: Seq<Seq<char>>,
    dups: Seq<Seq<char>>,
) -> Seq<i32>
    decreases lines.len() - li when 0 <= li <= lines.len()
{
    if li >= lines.len() {
        Seq::empty()
    } else {
        spec_audio_line(spec_line_tokens(lines[li]), 0, notes, dups) + spec_audio_tab(
            lines,
            li + 1,
            notes,
            dups,
        )
    }
}

/// Every note of `tab` as a semitone offset from the 440 Hz reference, in
/// reading order; tokens that are not notes are skipped.
pub open spec fn spec_get_audio_indices(tab: Seq<char>, tuning: Seq<char>, style: Style) -> Seq<
    i32,
> {
    spec_audio_tab(
        spec_tab_lines(tab),
        0,
        spec_styled_order(tuning, style),
        spec_styled_aliases(tuning, style),
    )
}

/// The offsets of the tokens of one line, appended to `res`.
fn audio_line(toks: &Vec<String>, notes: &Vec<String>, dups: &Vec<String>, res: &mut Vec<i32>)
    requires
        notes@.len() < 0x1000_0000,
    ensures
        final(res)@ == old(res)@ + spec_audio_line(
            toks.deep_view(),
            0,
            notes.deep_view(),
            dups.deep_view(),
        ),
{
    let ghost tseq = toks.deep_view();
    let ghost nseq = notes.deep_view();
    let ghost dseq = dups.deep_view();
    let ghost base = res@;
    let len = toks.len();
    let mut k: usize = 0;
    while k < len
        invariant
            k <= len,
            len == tseq.len(),
            tseq == toks.deep_view(),
            nseq == notes.deep_view(),
            dseq == dups.deep_view(),
            notes@.len() < 0x1000_0000,
            res@ + spec_audio_line(tseq, k as int, nseq, dseq) =~= base + spec_audio_line(
                tseq,
                0,
                nseq,
                dseq,
            ),
        decreases len - k,
    {
        proof {
            assert(tseq[k as int] == toks@[k as int]@);
        }
        let fixed = fix_enharmonics(toks[k].as_str(), dups);
        let i = find_note(notes, fixed);
        if i < notes.len() {
            res.push((i as i32) - 9);
        }
        proof {
            assert(res@ + spec_audio_line(tseq, k as int + 1, nseq, dseq) =~= base
                + spec_audio_line(tseq, 0, nseq, dseq));
        }
        k = k + 1;
    }
    proof {
        assert(spec_audio_line(tseq, len as int, nseq, dseq) =~= Seq::<i32>::empty());
        assert(res@ =~= base + spec_audio_line(tseq, 0, nseq, dseq));
    }
}

/// Resolve every token of `tab` to its semitone offset from the 440 Hz
/// reference note, reading tokens in `style` against the named tuning.
pub fn get_audio_indices(tab: String, tuning: &str, style: Style) -> (r: Vec<i32>)
    ensures
        r@ == spec_get_audio_indices(tab@, tuning@, style),
{
    proof {
        lemma_tuning_for_wf(tuning@);
        lemma_canonical_len(spec_tuning_for(tuning@));
    }
    let (raw_notes, raw_dups) = tuning_to_notes_in_order(tuning);
    let notes = change_tab_style(&raw_notes, style);
    let dups = change_tab_style(&raw_dups, style);
    let ghost nseq = spec_styled_order(tuning@, style);
    let ghost dseq = spec_styled_aliases(tuning@, style);
    proof {
        assert(nseq == notes.deep_view());
        assert(dseq == dups.deep_view());
        assert(nseq.len() <= 122);
    }
    let lines = split_tab_lines(tab.as_str());
    let ghost lseq = spec_tab_lines(tab@);
    let mut res: Vec<i32> = Vec::new();
    let nlines = lines.len();
    let mut li: usize = 0;
    while li < nlines
        invariant
            li <= nlines,
            nlines == lseq.len(),
            lseq == lines.deep_view(),
            nseq == notes.deep_view(),
            dseq == dups.deep_view(),
            notes@.len() < 0x1000_0000,
            res@ + spec_audio_tab(lseq, li as int, nseq, dseq) =~= spec_audio_tab(
                lseq,
                0,
                nseq,
                dseq,
            ),
        decreases nlines - li,
    {
        proof {
            assert(lseq[li as int] == lines@[li as int]@);
        }
        let toks = split_line_tokens(lines[li].as_str());
        audio_line(&toks, &notes, &dups, &mut res);
        proof {
            assert(res@ + spec_audio_tab(lseq, li as int + 1, nseq, dseq) =~= spec_audio_tab(
                lseq,
                0,
                nseq,
                dseq,
            ));
        }
        li = li + 1;
    }
    proof {
        assert(spec_audio_tab(lseq, nlines as int, nseq, dseq) =~= Seq::<i32>::empty());
        assert(res@ =~= spec_audio_tab(lseq, 0, nseq, dseq));
    }
    res
}

/// Every audio index lies between the lowest note and the top of the
/// ordering, counted from the reference note.
proof fn lemma_audio_line_bounds(
    toks: Seq<Seq<char>>,
    k: int,
    notes: Seq<Seq<char>>,
    dups: Seq<Seq<char>>,
)
    requires
        0 <= k <= toks.len(),
        notes.len() <= 122,
    ensures
        forall|j: int|
            0 <= j < spec_audio_line(toks, k, notes, dups).len() ==> -9 <= #[trigger] spec_audio_line(
                toks,
                k,
                notes,
                dups,
            )[j] <= 112,
    decreases toks.len() - k,
{
    if k < toks.len() {
        lemma_audio_line_bounds(toks, k + 1, notes, dups);
        crate::transpose::lemma_note_index(notes, spec_fix_enharmonics(toks[k], dups), 0);
        let whole = spec_audio_line(toks, k, notes, dups);
        let rest = spec_audio_line(toks, k + 1, notes, dups);
        assert forall|j: int| 0 <= j < whole.len() implies -9 <= #[trigger] whole[j] <= 112 by {
            if j >= whole.len() - rest.len() {
                assert(whole[j] == rest[j - (whole.len() - rest.len())]);
            }
        }
    }
}

proof fn lemma_audio_tab_bounds(
    lines: Seq<Seq<char>>,
    li: int,
    notes: Seq<Seq<char>>,
    dups: Seq<Seq<char>>,
)
    requires
        0 <= li <= lines.len(),
        notes.len() <= 122,
    ensures
        forall|j: int|
            0 <= j < spec_audio_tab(lines, li, notes, dups).len() ==> -9 <= #[trigger] spec_audio_tab(
                lines,
                li,
                notes,
                dups,
            )[j] <= 112,
    decreases lines.len() - li,
{
    if li < lines.len() {
        lemma_audio_tab_bounds(lines, li + 1, notes, dups);
        lemma_audio_line_bounds(spec_line_tokens(lines[li]), 0, notes, dups);
        let whole = spec_audio_tab(lines, li, notes, dups);
        let head = spec_audio_line(spec_line_tokens(lines[li]), 0, notes, dups);
        let rest = spec_audio_tab(lines, li + 1, notes, dups);
        assert forall|j: int| 0 <= j < whole.len() implies -9 <= #[trigger] whole[j] <= 112 by {
            if j < head.len() {
                assert(whole[j] == head[j]);
            } else {
                assert(whole[j] == rest[j - head.len()]);
            }
        }
    }
}

/// The semitone offset a harp key adds to every audio index: the key's pitch
/// class, dropped an octave for the keys conventionally played below the
/// reference.
pub open spec fn spec_key_offset(key: Seq<char>) -> int {
    let ki = crate::scale::spec_key_index(key);
    if key == "G"@ || key == "A"@ || key == "B"@ || key == "Ab"@ || key == "Bb"@ {
        ki - 12
    } else {
        ki
    }
}

/// The message reported for a key name outside the chromatic list.
pub open spec fn spec_unknown_key_msg(key: Seq<char>) -> Seq<char> {
    "unknown key: "@ + key
}

/// The audio indices of `tab` moved into harp key `key`; an error for a key
/// the chromatic list does not name.
pub open spec fn spec_audio_indices_in_key(
    tab: Seq<char>,
    tuning: Seq<char>,
    style: Style,
    key: Seq<char>,
) -> Result<Seq<i32>, Seq<char>> {
    if crate::scale::spec_key_index(key) == 12 {
        Err(spec_unknown_key_msg(key))
    } else {
        Ok(
            spec_get_audio_indices(tab, tuning, style).map_values(
                |i: i32| ((i + spec_key_offset(key)) as i32),
            ),
        )
    }
}

/// Resolve every token of `tab` to a semitone offset as `get_audio_indices`
/// does, then move the whole tab into harp key `key`.
pub fn get_audio_indices_in_key(tab: String, tuning: &str, style: Style, key: &str) -> (r: Result<
    Vec<i32>,
    String,
>)
    ensures
        (match (r, spec_audio_indices_in_key(tab@, tuning@, style, key@)) {
            (Ok(v), Ok(vs)) => v@ == vs,
            (Err(e), Err(es)) => e@ == es,
            _ => false,
        }),
{
    let ki = crate::scale::key_index(key);
    if ki == 12 {
        proof {
            reveal_strlit("unknown key: ");
        }
        let mut msg = "unknown key: ".to_owned();
        msg.append(key);
        proof {
            assert(msg@ =~= spec_unknown_key_msg(key@));
        }
        return Err(msg);
    }
    let below = crate::text::str_eq(key, "G") || crate::text::str_eq(key, "A")
        || crate::text::str_eq(key, "B") || crate::text::str_eq(key, "Ab")
        || crate::text::str_eq(key, "Bb");
    let offset: i32 = if below {
        ki as i32 - 12
    } else {
        ki as i32
    };
    let ghost tabv = tab@;
    let indices = get_audio_indices(tab, tuning, style);
    let ghost iseq = spec_get_audio_indices(tabv, tuning@, style);
    proof {
        lemma_tuning_for_wf(tuning@);
        lemma_canonical_len(spec_tuning_for(tuning@));
        lemma_audio_tab_bounds(
            spec_tab_lines(tabv),
            0,
            spec_styled_order(tuning@, style),
            spec_styled_aliases(tuning@, style),
        );
    }
    let ghost shifted = iseq.map_values(|i: i32| ((i + spec_key_offset(key@)) as i32));
    let mut r: Vec<i32> = Vec::new();
    let n = indices.len();
    let mut k: usize = 0;
    while k < n
        invariant
            k <= n,
            n == iseq.len(),
            iseq == indices@,
            -21 <= offset <= 11,
            offset == spec_key_offset(key@),
            forall|j: int| 0 <= j < iseq.len() ==> -9 <= #[trigger] iseq[j] <= 112,
            shifted == iseq.map_values(|i: i32| ((i + spec_key_offset(key@)) as i32)),
            r@ =~= shifted.subrange(0, k as int),
        decreases n - k,
    {
        r.push(indices[k] + offset);
        proof {
            assert(r@ =~= shifted.subrange(0, k as int + 1));
        }
        k = k + 1;
    }
    proof {
        assert(r@ =~= shifted);
    }
    Ok(r)
}

} // verus!
