//! Notation styles: purely textual dialects for writing the same note token.
//!
//! A style rewrites how a token is spelled; it never changes which pitch the
//! token denotes. The canonical spelling stored in the notation model is the
//! default style, so callers convert style to canonical before a lookup and
//! canonical to style afterwards.

use vstd::prelude::*;
use vstd::string::StrSliceExecFns;
use vstd::string::StringExecFns;
use crate::text::{find_char, lemma_find_char, spec_find_char, str_eq};

verus! {

/// The closed set of notation dialects.
#[derive(Clone, Copy, PartialEq, Eq, Structural)]
pub enum Style {
    Default,
    Harpsurgery,
    BBends,
    Plus,
    DrawDefault,
}

/// The sentinel token for a note that cannot be played.
pub open spec fn unplayable() -> Seq<char> {
    seq!['X']
}

/// Plus style: blow tokens gain a leading `+`; draw tokens are unchanged.
pub open spec fn spec_plus_style(t: Seq<char>) -> Seq<char>
    recommends
        t.len() > 0,
{
    if t == unplayable() {
        t
    } else if t[0] == '-' {
        t
    } else {
        seq!['+'] + t
    }
}

/// Draw style: draw tokens drop the `-`; blow tokens gain a leading `+`.
pub open spec fn spec_draw_style(t: Seq<char>) -> Seq<char>
    recommends
        t.len() > 0,
{
    if t == unplayable() {
        t
    } else if t[0] == '-' {
        t.skip(1)
    } else {
        seq!['+'] + t
    }
}

pub open spec fn bbends_char(c: char) -> char {
    if c == '\'' {
        'b'
    } else {
        c
    }
}

/// B-bends style: every bend apostrophe becomes the letter `b`.
pub open spec fn spec_bbends_style(t: Seq<char>) -> Seq<char> {
    t.map_values(|c: char| bbends_char(c))
}

pub open spec fn is_digit(c: char) -> bool {
    48 <= c as int && c as int <= 57
}

/// First index at or after `from` where a hole number begins: a digit, or a
/// `-` directly followed by a digit.
pub open spec fn spec_hs_start(t: Seq<char>, from: int) -> int
    decreases t.len() - from when 0 <= from <= t.len()
{
    if from >= t.len() {
        t.len() as int
    } else if is_digit(t[from]) {
        from
    } else if t[from] == '-' && from + 1 < t.len() && is_digit(t[from + 1]) {
        from
    } else {
        spec_hs_start(t, from + 1)
    }
}

/// Harpsurgery style: `<hole><B|D><markers>`, where `B`/`D` replaces the
/// sign and a sole `o` marker becomes `#`. A token with no hole number is
/// rewritten to the unplayable sentinel.
pub open spec fn spec_harpsurgery_style(t: Seq<char>) -> Seq<char> {
    let i = spec_hs_start(t, 0);
    if i >= t.len() {
        unplayable()
    } else {
        let ds = if t[i] == '-' {
            i + 1
        } else {
            i
        };
        let de = if ds + 1 < t.len() && is_digit(t[ds + 1]) {
            ds + 2
        } else {
            ds + 1
        };
        let digits = t.subrange(ds, de);
        let dir = if t[i] == '-' {
            seq!['D']
        } else {
            seq!['B']
        };
        let rest = t.subrange(de, t.len() as int);
        digits + dir + (if rest == seq!['o'] {
            seq!['#']
        } else {
            rest
        })
    }
}

/// The rewriting each style applies to one canonical token.
pub open spec fn spec_change_style(t: Seq<char>, style: Style) -> Seq<char>
    recommends
        t.len() > 0,
{
    match style {
        Style::Default => t,
        Style::BBends => spec_bbends_style(t),
        Style::Harpsurgery => spec_harpsurgery_style(t),
        Style::Plus => spec_plus_style(t),
        Style::DrawDefault => spec_draw_style(t),
    }
}

/// The default style is the identity rewriting: it changes no token, well
/// formed or not.
pub proof fn lemma_default_style_identity(t: Seq<char>)
    ensures
        spec_change_style(t, Style::Default) == t,
{
}

fn unplayable_string() -> (r: String)
    ensures
        r@ == unplayable(),
{
    proof {
        reveal_strlit("X");
    }
    let r = "X".to_owned();
    proof {
        assert(r@ =~= seq!['X']);
    }
    r
}

fn convert_to_plus_style(note: &str) -> (r: String)
    requires
        note@.len() > 0,
    ensures
        r@ == spec_plus_style(note@),
{
    proof {
        reveal_strlit("X");
        reveal_strlit("+");
    }
    if str_eq(note, "X") {
        proof {
            assert(note@ =~= unplayable());
        }
        return unplayable_string();
    }
    proof {
        assert(note@ != unplayable()) by {
            if note@ == unplayable() {
                assert(note@ =~= "X"@);
            }
        }
    }
    if note.get_char(0) == '-' {
        note.to_owned()
    } else {
        let mut r = "+".to_owned();
        r.append(note);
        proof {
            assert(r@ =~= seq!['+'] + note@);
        }
        r
    }
}

fn convert_to_draw_style(note: &str) -> (r: String)
    requires
        note@.len() > 0,
    ensures
        r@ == spec_draw_style(note@),
{
    proof {
        reveal_strlit("X");
        reveal_strlit("+");
    }
    if str_eq(note, "X") {
        proof {
            assert(note@ =~= unplayable());
        }
        return unplayable_string();
    }
    proof {
        assert(note@ != unplayable()) by {
            if note@ == unplayable() {
                assert(note@ =~= "X"@);
            }
        }
    }
    if note.get_char(0) == '-' {
        let r = note.substring_char(1, note.unicode_len()).to_owned();
        proof {
            assert(r@ =~= note@.skip(1));
        }
        r
    } else {
        let mut r = "+".to_owned();
        r.append(note);
        proof {
            assert(r@ =~= seq!['+'] + note@);
        }
        r
    }
}

fn convert_to_bbends_style(note: &str) -> (r: String)
    ensures
        r@ == spec_bbends_style(note@),
{
    proof {
        reveal_strlit("b");
    }
    let len = note.unicode_len();
    let mut r = String::new();
    let mut pos: usize = 0;
    while pos < len
        invariant
            pos <= len,
            len == note@.len(),
            r@ =~= note@.subrange(0, pos as int).map_values(|c: char| bbends_char(c)),
        decreases len - pos,
    {
        let i = find_char(note, '\'', pos, len);
        proof {
            lemma_find_char(note@, '\'', pos as int);
        }
        let piece = note.substring_char(pos, i);
        r.append(piece);
        proof {
            assert(r@ =~= note@.subrange(0, i as int).map_values(|c: char| bbends_char(c)));
        }
        if i < len {
            r.append("b");
            proof {
                reveal_strlit("b");
                assert("b"@ =~= seq!['b']);
                assert(note@[i as int] == '\'');
                assert(bbends_char(note@[i as int]) == 'b');
                assert(note@.subrange(0, i as int + 1).map_values(|c: char| bbends_char(c))[
                    i as int
                ] == 'b');
                assert(r@ =~= note@.subrange(0, i as int + 1).map_values(
                    |c: char| bbends_char(c),
                ));
            }
            pos = i + 1;
        } else {
            pos = i;
        }
    }
    proof {
        assert(note@.subrange(0, len as int) =~= note@);
        assert(r@ =~= spec_bbends_style(note@));
    }
    r
}

fn digit(c: char) -> (r: bool)
    ensures
        r == is_digit(c),
{
    let u = c as u32;
    48 <= u && u <= 57
}

fn hs_start(t: &str, len: usize) -> (r: usize)
    requires
        len == t@.len(),
    ensures
        r == spec_hs_start(t@, 0),
        r <= len,
        r < len ==> is_digit(t@[r as int]) || (t@[r as int] == '-' && r + 1 < len && is_digit(
            t@[r as int + 1],
        )),
{
    let mut i: usize = 0;
    while i < len
        invariant
            i <= len,
            len == t@.len(),
            spec_hs_start(t@, 0) == spec_hs_start(t@, i as int),
        decreases len - i,
    {
        let c = t.get_char(i);
        if digit(c) {
            return i;
        }
        if c == '-' && i + 1 < len && digit(t.get_char(i + 1)) {
            return i;
        }
        i = i + 1;
    }
    i
}

fn convert_to_harpsurgery_style(note: &str) -> (r: String)
    ensures
        r@ == spec_harpsurgery_style(note@),
{
    proof {
        reveal_strlit("B");
        reveal_strlit("D");
        reveal_strlit("o");
        reveal_strlit("#");
    }
    let len = note.unicode_len();
    let i = hs_start(note, len);
    if i == len {
        return unplayable_string();
    }
    let has_dir = note.get_char(i) == '-';
    let ds = if has_dir {
        i + 1
    } else {
        i
    };
    proof {
        assert(ds < len);
    }
    let de = if ds + 1 < len && digit(note.get_char(ds + 1)) {
        ds + 2
    } else {
        ds + 1
    };
    let mut r = note.substring_char(ds, de).to_owned();
    if has_dir {
        r.append("D");
    } else {
        r.append("B");
    }
    let rest = note.substring_char(de, len);
    if str_eq(rest, "o") {
        r.append("#");
        proof {
            assert(rest@ =~= seq!['o']);
            assert(r@ =~= spec_harpsurgery_style(note@));
        }
    } else {
        r.append(rest);
        proof {
            assert(rest@ != seq!['o']) by {
                if rest@ == seq!['o'] {
                    assert(rest@ =~= "o"@);
                }
            }
            assert(r@ =~= spec_harpsurgery_style(note@));
        }
    }
    r
}

/// One token rewritten into `style`; the default style is the identity.
pub fn change_tab_style_single(note: &str, style: Style) -> (r: String)
    requires
        note@.len() > 0,
    ensures
        r@ == spec_change_style(note@, style),
{
    match style {
        Style::BBends => convert_to_bbends_style(note),
        Style::Harpsurgery => convert_to_harpsurgery_style(note),
        Style::Plus => convert_to_plus_style(note),
        Style::DrawDefault => convert_to_draw_style(note),
        Style::Default => note.to_owned(),
    }
}

/// Every token of a list rewritten into `style`.
pub fn change_tab_style(notes: &Vec<String>, style: Style) -> (r: Vec<String>)
    requires
        forall|i: int| 0 <= i < notes.deep_view().len() ==> (#[trigger] notes.deep_view()[i]).len()
            > 0,
    ensures
        r.deep_view() == notes.deep_view().map_values(|t: Seq<char>| spec_change_style(t, style)),
{
    let ghost styled = notes.deep_view().map_values(|t: Seq<char>| spec_change_style(t, style));
    let mut r: Vec<String> = Vec::new();
    let mut i: usize = 0;
    while i < notes.len()
        invariant
            i <= notes@.len(),
            forall|j: int| 0 <= j < notes.deep_view().len() ==> (
            #[trigger] notes.deep_view()[j]).len() > 0,
            styled == notes.deep_view().map_values(|t: Seq<char>| spec_change_style(t, style)),
            r@.len() == i as int,
            r.deep_view() =~= styled.subrange(0, i as int),
        decreases notes@.len() - i,
    {
        proof {
            assert(notes.deep_view()[i as int] == notes@[i as int]@);
        }
        let converted = change_tab_style_single(notes[i].as_str(), style);
        let ghost converted_view = converted@;
        r.push(converted);
        proof {
            assert(notes.deep_view()[i as int] == notes@[i as int]@);
            assert(styled[i as int] == spec_change_style(notes@[i as int]@, style));
            assert(r@[i as int]@ == converted_view);
            assert(r.deep_view()[i as int] == converted_view);
            assert(r.deep_view() =~= styled.subrange(0, i as int + 1));
        }
        i = i + 1;
    }
    proof {
        assert(r.deep_view() =~= styled);
    }
    r
}

} // verus!
