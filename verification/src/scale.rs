//! Scale degrees and the scale generator: the fixed twelve-entry degree
//! vocabulary, the registry of named scales, rendering a scale as tab
//! tokens, and reading a token back as a scale degree or a note name.

use vstd::prelude::*;
use vstd::string::StrSliceExecFns;
use vstd::string::StringExecFns;
use crate::order::tuning_to_notes_in_order;
use crate::position::{positions_to_semitones, spec_positions_to_semitones};
use crate::style::{change_tab_style, Style};
use crate::text::str_eq;
use crate::transpose::{
    fix_enharmonics, spec_find_note, spec_fix_enharmonics, spec_styled_aliases, spec_styled_order,
};

verus! {

/// The fixed twelve-entry scale-degree vocabulary, one entry per semitone
/// above the key note.
pub open spec fn spec_degrees() -> Seq<Seq<char>> {
    seq![
        "1"@,
        "b2"@,
        "2"@,
        "b3"@,
        "3"@,
        "4"@,
        "#4"@,
        "5"@,
        "b6"@,
        "6"@,
        "b7"@,
        "7"@,
    ]
}

/// The index of a degree label in the vocabulary.
pub open spec fn spec_degree_index(d: Seq<char>) -> Option<int> {
    if d == "1"@ {
        Some(0int)
    } else if d == "b2"@ {
        Some(1int)
    } else if d == "2"@ {
        Some(2int)
    } else if d == "b3"@ {
        Some(3int)
    } else if d == "3"@ {
        Some(4int)
    } else if d == "4"@ {
        Some(5int)
    } else if d == "#4"@ {
        Some(6int)
    } else if d == "5"@ {
        Some(7int)
    } else if d == "b6"@ {
        Some(8int)
    } else if d == "6"@ {
        Some(9int)
    } else if d == "b7"@ {
        Some(10int)
    } else if d == "7"@ {
        Some(11int)
    } else {
        None
    }
}

fn degree_index(d: &str) -> (r: Option<usize>)
    ensures
        (match (r, spec_degree_index(d@)) {
            (Some(i), Some(si)) => i == si,
            (None, None) => true,
            _ => false,
        }),
{
    if str_eq(d, "1") {
        Some(0)
    } else if str_eq(d, "b2") {
        Some(1)
    } else if str_eq(d, "2") {
        Some(2)
    } else if str_eq(d, "b3") {
        Some(3)
    } else if str_eq(d, "3") {
        Some(4)
    } else if str_eq(d, "4") {
        Some(5)
    } else if str_eq(d, "#4") {
        Some(6)
    } else if str_eq(d, "5") {
        Some(7)
    } else if str_eq(d, "b6") {
        Some(8)
    } else if str_eq(d, "6") {
        Some(9)
    } else if str_eq(d, "b7") {
        Some(10)
    } else if str_eq(d, "7") {
        Some(11)
    } else {
        None
    }
}

/// The degree label at vocabulary index `i`.
fn degree_at(i: usize) -> (r: &'static str)
    requires
        i < 12,
    ensures
        r@ == spec_degrees()[i as int],
{
    match i {
        0 => "1",
        1 => "b2",
        2 => "2",
        3 => "b3",
        4 => "3",
        5 => "4",
        6 => "#4",
        7 => "5",
        8 => "b6",
        9 => "6",
        10 => "b7",
        _ => "7",
    }
}

/// The registered scales, each an ordered list of degree labels, sorted by
/// name.
pub open spec fn spec_scales() -> Seq<(Seq<char>, Seq<Seq<char>>)> {
    seq![
        ("blues"@, seq!["1"@, "b3"@, "4"@, "#4"@, "5"@, "b7"@]),
        ("dorian"@, seq!["1"@, "2"@, "b3"@, "4"@, "5"@, "6"@, "b7"@]),
        ("harmonic minor"@, seq!["1"@, "2"@, "b3"@, "4"@, "5"@, "b6"@, "7"@]),
        ("major"@, seq!["1"@, "2"@, "3"@, "4"@, "5"@, "6"@, "7"@]),
        ("major pentatonic"@, seq!["1"@, "2"@, "3"@, "5"@, "6"@]),
        ("minor pentatonic"@, seq!["1"@, "b3"@, "4"@, "5"@, "b7"@]),
        ("mixolydian"@, seq!["1"@, "2"@, "3"@, "4"@, "5"@, "6"@, "b7"@]),
        ("natural minor"@, seq!["1"@, "2"@, "b3"@, "4"@, "5"@, "b6"@, "b7"@]),
    ]
}

fn push_tok(v: &mut Vec<String>, s: &str)
    ensures
        final(v).deep_view() == old(v).deep_view().push(s@),
{
    let ghost sv = s@;
    let ghost n = old(v)@.len();
    v.push(s.to_owned());
    proof {
        assert(v.deep_view()[n as int] == sv);
        assert(v.deep_view() =~= old(v).deep_view().push(sv));
    }
}

fn push_scale(v: &mut Vec<(String, Vec<String>)>, name: &str, degrees: Vec<String>)
    ensures
        final(v).deep_view() == old(v).deep_view().push((name@, degrees.deep_view())),
{
    let ghost nv = name@;
    let ghost dv = degrees.deep_view();
    let ghost n = old(v)@.len();
    v.push((name.to_owned(), degrees));
    proof {
        assert(v.deep_view()[n as int].0 == nv);
        assert(v.deep_view()[n as int].1 == dv);
        assert(v.deep_view() =~= old(v).deep_view().push((nv, dv)));
    }
}

/// The scale registry as owned values, sorted by scale name.
pub fn get_scales() -> (r: Vec<(String, Vec<String>)>)
    ensures
        r.deep_view() == spec_scales(),
{
    let mut r: Vec<(String, Vec<String>)> = Vec::new();

    let mut d: Vec<String> = Vec::new();
    push_tok(&mut d, "1");
    push_tok(&mut d, "b3");
    push_tok(&mut d, "4");
    push_tok(&mut d, "#4");
    push_tok(&mut d, "5");
    push_tok(&mut d, "b7");
    push_scale(&mut r, "blues", d);

    let mut d: Vec<String> = Vec::new();
    push_tok(&mut d, "1");
    push_tok(&mut d, "2");
    push_tok(&mut d, "b3");
    push_tok(&mut d, "4");
    push_tok(&mut d, "5");
    push_tok(&mut d, "6");
    push_tok(&mut d, "b7");
    push_scale(&mut r, "dorian", d);

    let mut d: Vec<String> = Vec::new();
    push_tok(&mut d, "1");
    push_tok(&mut d, "2");
    push_tok(&mut d, "b3");
    push_tok(&mut d, "4");
    push_tok(&mut d, "5");
    push_tok(&mut d, "b6");
    push_tok(&mut d, "7");
    push_scale(&mut r, "harmonic minor", d);

    let mut d: Vec<String> = Vec::new();
    push_tok(&mut d, "1");
    push_tok(&mut d, "2");
    push_tok(&mut d, "3");
    push_tok(&mut d, "4");
    push_tok(&mut d, "5");
    push_tok(&mut d, "6");
    push_tok(&mut d, "7");
    push_scale(&mut r, "major", d);

    let mut d: Vec<String> = Vec::new();
    push_tok(&mut d, "1");
    push_tok(&mut d, "2");
    push_tok(&mut d, "3");
    push_tok(&mut d, "5");
    push_tok(&mut d, "6");
    push_scale(&mut r, "major pentatonic", d);

    let mut d: Vec<String> = Vec::new();
    push_tok(&mut d, "1");
    push_tok(&mut d, "b3");
    push_tok(&mut d, "4");
    push_tok(&mut d, "5");
    push_tok(&mut d, "b7");
    push_scale(&mut r, "minor pentatonic", d);

    let mut d: Vec<String> = Vec::new();
    push_tok(&mut d, "1");
    push_tok(&mut d, "2");
    push_tok(&mut d, "3");
    push_tok(&mut d, "4");
    push_tok(&mut d, "5");
    push_tok(&mut d, "6");
    push_tok(&mut d, "b7");
    push_scale(&mut r, "mixolydian", d);

    let mut d: Vec<String> = Vec::new();
    push_tok(&mut d, "1");
    push_tok(&mut d, "2");
    push_tok(&mut d, "b3");
    push_tok(&mut d, "4");
    push_tok(&mut d, "5");
    push_tok(&mut d, "b6");
    push_tok(&mut d, "b7");
    push_scale(&mut r, "natural minor", d);

    proof {
        assert(r.deep_view() =~~= spec_scales());
    }
    r
}

/// The degree list registered under `name`, scanned in order.
pub open spec fn spec_scale_lookup(
    scales: Seq<(Seq<char>, Seq<Seq<char>>)>,
    name: Seq<char>,
) -> Option<Seq<Seq<char>>>
    decreases scales.len(),
{
    if scales.len() == 0 {
        None
    } else if scales[0].0 == name {
        Some(scales[0].1)
    } else {
        spec_scale_lookup(scales.drop_first(), name)
    }
}

proof fn lemma_scale_lookup_found(scales: Seq<(Seq<char>, Seq<Seq<char>>)>, name: Seq<char>, k: int)
    requires
        0 <= k < scales.len(),
        scales[k].0 == name,
        forall|j: int| 0 <= j < k ==> (#[trigger] scales[j]).0 != name,
    ensures
        spec_scale_lookup(scales, name) == Some(scales[k].1),
    decreases k,
{
    if k > 0 {
        lemma_scale_lookup_found(scales.drop_first(), name, k - 1);
    }
}

proof fn lemma_scale_lookup_missing(scales: Seq<(Seq<char>, Seq<Seq<char>>)>, name: Seq<char>)
    requires
        forall|j: int| 0 <= j < scales.len() ==> (#[trigger] scales[j]).0 != name,
    ensures
        spec_scale_lookup(scales, name) is None,
    decreases scales.len(),
{
    if scales.len() > 0 {
        lemma_scale_lookup_missing(scales.drop_first(), name);
    }
}


/// First index whose scale is named `name`.
fn find_scale(scales: &Vec<(String, Vec<String>)>, name: &str) -> (r: Option<usize>)
    ensures
        (match r {
            Some(k) => {
                &&& k < scales.deep_view().len()
                &&& scales.deep_view()[k as int].0 == name@
                &&& forall|j: int|
                    0 <= j < k ==> (#[trigger] scales.deep_view()[j]).0 != name@
            },
            None => forall|j: int|
                0 <= j < scales.deep_view().len() ==> (#[trigger] scales.deep_view()[j]).0
                    != name@,
        }),
{
    let n = scales.len();
    let mut k: usize = 0;
    while k < n
        invariant
            k <= n,
            n == scales@.len(),
            forall|j: int| 0 <= j < k ==> (#[trigger] scales.deep_view()[j]).0 != name@,
        decreases n - k,
    {
        proof {
            assert(scales.deep_view()[k as int].0 == scales@[k as int].0@);
        }
        if str_eq(scales[k].0.as_str(), name) {
            return Some(k);
        }
        k = k + 1;
    }
    None
}

/// The token at a canonical index; the unplayable sentinel outside the
/// ordering.
pub open spec fn spec_index_tok(notes: Seq<Seq<char>>, i: int) -> Seq<char> {
    if 0 <= i < notes.len() {
        notes[i]
    } else {
        seq!['X']
    }
}

fn index_to_tab(notes: &Vec<String>, index: usize) -> (r: String)
    ensures
        r@ == spec_index_tok(notes.deep_view(), index as int),
{
    if index < notes.len() {
        let tok = notes[index].clone();
        proof {
            assert(notes.deep_view()[index as int] == notes@[index as int]@);
        }
        tok
    } else {
        proof {
            reveal_strlit("X");
        }
        let tok = "X".to_owned();
        proof {
            assert(tok@ =~= seq!['X']);
        }
        tok
    }
}

/// The tab token a degree label denotes after shifting by `shift`; an
/// unknown label renders as the unplayable sentinel.
pub open spec fn spec_degree_tok(notes: Seq<Seq<char>>, shift: int, d: Seq<char>) -> Seq<char> {
    match spec_degree_index(d) {
        Some(i) => spec_index_tok(notes, i + shift),
        None => seq!['X'],
    }
}

/// The rendered scale body: each degree's token followed by one space.
pub open spec fn spec_render_scale(
    degrees: Seq<Seq<char>>,
    k: int,
    notes: Seq<Seq<char>>,
    shift: int,
) -> Seq<char>
    decreases degrees.len() - k when 0 <= k <= degrees.len()
{
    if k >= degrees.len() {
        Seq::empty()
    } else {
        spec_degree_tok(notes, shift, degrees[k]) + seq![' '] + spec_render_scale(
            degrees,
            k + 1,
            notes,
            shift,
        )
    }
}

/// The message reported for a scale name the registry does not know.
pub open spec fn spec_scale_not_found_msg(name: Seq<char>) -> Seq<char> {
    "scale not found: "@ + name
}

/// A named scale rendered as tab text for a tuning, position and style: the
/// token of each degree, each followed by one space, closed by the octave
/// note one octave above the first degree. An unknown scale name is an
/// error; an unknown tuning falls back to richter as everywhere.
pub open spec fn spec_scale_to_tab(
    scale: Seq<char>,
    tuning: Seq<char>,
    position: int,
    style: Style,
) -> Result<Seq<char>, Seq<char>> {
    match spec_scale_lookup(spec_scales(), scale) {
        None => Err(spec_scale_not_found_msg(scale)),
        Some(degrees) => {
            let shift = spec_positions_to_semitones(1, position, 0);
            let notes = spec_styled_order(tuning, style);
            Ok(
                spec_render_scale(degrees, 0, notes, shift) + spec_index_tok(notes, 12 + shift),
            )
        },
    }
}

/// Render the named scale as tab tokens for `tuning` in `position`, written
/// in `style`.
pub fn scale_to_tab(scale: &str, tuning: &str, position: i32, style: Style) -> (r: Result<
    String,
    String,
>)
    ensures
        (match (r, spec_scale_to_tab(scale@, tuning@, position as int, style)) {
            (Ok(t), Ok(ts)) => t@ == ts,
            (Err(e), Err(es)) => e@ == es,
            _ => false,
        }),
{
    let scales = get_scales();
    let ghost sseq = spec_scales();
    let found = find_scale(&scales, scale);
    match found {
        None => {
            proof {
                lemma_scale_lookup_missing(sseq, scale@);
                reveal_strlit("scale not found: ");
            }
            let mut msg = "scale not found: ".to_owned();
            msg.append(scale);
            proof {
                assert(msg@ =~= spec_scale_not_found_msg(scale@));
            }
            Err(msg)
        },
        Some(ks) => {
            proof {
                lemma_scale_lookup_found(sseq, scale@, ks as int);
            }
            let degrees = &scales[ks].1;
            let ghost dseq = sseq[ks as int].1;
            proof {
                assert(dseq == degrees.deep_view());
            }
            let shift_signed = positions_to_semitones(1, position, 0);
            proof {
                vstd::arithmetic::div_mod::lemma_mod_bound(
                    (position - 1) * 7,
                    12,
                );
            }
            let shift = shift_signed as usize;
            let (raw, _aliases) = tuning_to_notes_in_order(tuning);
            let notes = change_tab_style(&raw, style);
            let ghost nseq = spec_styled_order(tuning@, style);
            proof {
                assert(nseq == notes.deep_view());
            }
            let mut out = String::new();
            let ndeg = degrees.len();
            let mut i: usize = 0;
            while i < ndeg
                invariant
                    i <= ndeg,
                    ndeg == dseq.len(),
                    dseq == degrees.deep_view(),
                    nseq == notes.deep_view(),
                    shift <= 11,
                    out@ + spec_render_scale(dseq, i as int, nseq, shift as int) =~=
                        spec_render_scale(dseq, 0, nseq, shift as int),
                decreases ndeg - i,
            {
                proof {
                    reveal_strlit(" ");
                    assert(" "@ =~= seq![' ']);
                    assert(dseq[i as int] == degrees@[i as int]@);
                }
                let tok = match degree_index(degrees[i].as_str()) {
                    Some(di) => index_to_tab(&notes, di + shift),
                    None => {
                        proof {
                            reveal_strlit("X");
                        }
                        let x = "X".to_owned();
                        proof {
                            assert(x@ =~= seq!['X']);
                        }
                        x
                    },
                };
                out.append(tok.as_str());
                out.append(" ");
                proof {
                    assert(out@ + spec_render_scale(dseq, i as int + 1, nseq, shift as int) =~=
                        spec_render_scale(dseq, 0, nseq, shift as int));
                }
                i = i + 1;
            }
            let octave = index_to_tab(&notes, 12 + shift);
            out.append(octave.as_str());
            proof {
                assert(spec_render_scale(dseq, ndeg as int, nseq, shift as int) =~= Seq::<
                    char,
                >::empty());
                assert(out@ =~= spec_render_scale(dseq, 0, nseq, shift as int) + spec_index_tok(
                    nseq,
                    12 + shift as int,
                ));
            }
            Ok(out)
        },
    }
}

/// The scale degree a token denotes for a playing position: the token's
/// canonical index, shifted by the position's key offset, read from the
/// degree vocabulary; the unplayable sentinel for an unknown token.
pub open spec fn spec_tab_to_scale_degree(
    tab: Seq<char>,
    position: int,
    notes: Seq<Seq<char>>,
    dups: Seq<Seq<char>>,
) -> Seq<char> {
    let t = spec_fix_enharmonics(tab, dups);
    let i = spec_find_note(notes, t);
    if i == notes.len() {
        seq!['X']
    } else {
        spec_degrees()[(i + ((position - 1) * 5) % 12) % 12]
    }
}

/// The scale degree `tab` denotes when played in `position` on the tuning
/// whose canonical ordering and alias table are given.
pub fn tab_to_scale_degree(
    tab: &str,
    position: u32,
    notes_in_order: &Vec<String>,
    duplicated_notes: &Vec<String>,
) -> (r: &'static str)
    requires
        1 <= position <= 12,
        notes_in_order@.len() < 0x1000_0000,
    ensures
        r@ == spec_tab_to_scale_degree(
            tab@,
            position as int,
            notes_in_order.deep_view(),
            duplicated_notes.deep_view(),
        ),
{
    let fixed = fix_enharmonics(tab, duplicated_notes);
    let i = crate::transpose::find_note(notes_in_order, fixed);
    if i == notes_in_order.len() {
        proof {
            reveal_strlit("X");
            assert("X"@ =~= seq!['X']);
        }
        "X"
    } else {
        let shift = ((position - 1) * 5) % 12;
        let idx = (i + shift as usize) % 12;
        degree_at(idx)
    }
}

/// The chromatic note names the engine writes, twelve per octave.
pub open spec fn spec_chromatic() -> Seq<Seq<char>> {
    seq![
        "C"@,
        "Db"@,
        "D"@,
        "Eb"@,
        "E"@,
        "F"@,
        "F#"@,
        "G"@,
        "Ab"@,
        "A"@,
        "Bb"@,
        "B"@,
    ]
}

pub open spec fn spec_key_index(key: Seq<char>) -> int {
    if key == "C"@ {
        0
    } else if key == "Db"@ {
        1
    } else if key == "D"@ {
        2
    } else if key == "Eb"@ {
        3
    } else if key == "E"@ {
        4
    } else if key == "F"@ {
        5
    } else if key == "F#"@ {
        6
    } else if key == "G"@ {
        7
    } else if key == "Ab"@ {
        8
    } else if key == "A"@ {
        9
    } else if key == "Bb"@ {
        10
    } else if key == "B"@ {
        11
    } else {
        12
    }
}

pub(crate) fn key_index(key: &str) -> (r: usize)
    ensures
        r == spec_key_index(key@),
        r <= 12,
{
    if str_eq(key, "C") {
        0
    } else if str_eq(key, "Db") {
        1
    } else if str_eq(key, "D") {
        2
    } else if str_eq(key, "Eb") {
        3
    } else if str_eq(key, "E") {
        4
    } else if str_eq(key, "F") {
        5
    } else if str_eq(key, "F#") {
        6
    } else if str_eq(key, "G") {
        7
    } else if str_eq(key, "Ab") {
        8
    } else if str_eq(key, "A") {
        9
    } else if str_eq(key, "Bb") {
        10
    } else if str_eq(key, "B") {
        11
    } else {
        12
    }
}

fn chromatic_at(i: usize) -> (r: &'static str)
    requires
        i < 12,
    ensures
        r@ == spec_chromatic()[i as int],
{
    match i {
        0 => "C",
        1 => "Db",
        2 => "D",
        3 => "Eb",
        4 => "E",
        5 => "F",
        6 => "F#",
        7 => "G",
        8 => "Ab",
        9 => "A",
        10 => "Bb",
        _ => "B",
    }
}

/// The note name a token denotes on a harp in `key`: the token's canonical
/// pitch class, counted from the key note; the unplayable sentinel for an
/// unknown token or key.
pub open spec fn spec_tab_to_note(
    tab: Seq<char>,
    key: Seq<char>,
    notes: Seq<Seq<char>>,
    dups: Seq<Seq<char>>,
) -> Seq<char> {
    let ki = spec_key_index(key);
    if ki == 12 {
        seq!['X']
    } else {
        let t = spec_fix_enharmonics(tab, dups);
        let i = spec_find_note(notes, t);
        if i == notes.len() {
            seq!['X']
        } else {
            spec_chromatic()[(ki + i % 12) % 12]
        }
    }
}

/// The note name `tab` denotes on a harp in `key`, for the tuning whose
/// canonical ordering and alias table are given.
pub fn tab_to_note(
    tab: &str,
    key: &str,
    notes_in_order: &Vec<String>,
    duplicated_notes: &Vec<String>,
) -> (r: String)
    requires
        notes_in_order@.len() < 0x1000_0000,
    ensures
        r@ == spec_tab_to_note(
            tab@,
            key@,
            notes_in_order.deep_view(),
            duplicated_notes.deep_view(),
        ),
{
    proof {
        reveal_strlit("X");
    }
    let ki = key_index(key);
    if ki == 12 {
        let x = "X".to_owned();
        proof {
            assert(x@ =~= seq!['X']);
        }
        return x;
    }
    let fixed = fix_enharmonics(tab, duplicated_notes);
    let i = crate::transpose::find_note(notes_in_order, fixed);
    if i == notes_in_order.len() {
        let x = "X".to_owned();
        proof {
            assert(x@ =~= seq!['X']);
        }
        x
    } else {
        chromatic_at((ki + i % 12) % 12).to_owned()
    }
}

} // verus!
