//! The playable-position scanner: sweep every semitone shift over four
//! octaves and report which shifts leave a tab fully playable, together with
//! the playing position each shift reaches, and render the report text.

use vstd::prelude::*;
use vstd::string::StrSliceExecFns;
use vstd::string::StringExecFns;
use crate::position::{semitones_to_position, spec_semitones_to_position};
use crate::style::Style;
use crate::text::{spec_nat_string, str_contains_char, u32_string};
use crate::transpose::{spec_transpose_tabs, transpose_tabs};

verus! {

/// A transposed tab is playable when it holds no unplayable sentinel and no
/// overblow or overdraw marker; when bends are disallowed, no bend marker
/// in either spelling.
pub open spec fn spec_is_playable(s: Seq<char>, allow_bends: bool) -> bool {
    &&& !s.contains('X')
    &&& !s.contains('o')
    &&& !s.contains('#')
    &&& (allow_bends || (!s.contains('\'') && !s.contains('b')))
}

fn is_playable(s: &str, allow_bends: bool) -> (r: bool)
    ensures
        r == spec_is_playable(s@, allow_bends),
{
    let ok = !str_contains_char(s, 'X') && !str_contains_char(s, 'o') && !str_contains_char(
        s,
        '#',
    );
    if allow_bends {
        ok
    } else {
        ok && !str_contains_char(s, '\'') && !str_contains_char(s, 'b')
    }
}

/// The qualifying (position, shift) pairs for shifts from `s` up to 24, in
/// ascending shift order; errors are suppressed during the sweep.
pub open spec fn spec_scan_from(
    tab: Seq<char>,
    pos: int,
    s: int,
    style: Style,
    input_tuning: Seq<char>,
    output_tuning: Seq<char>,
    allow_bends: bool,
) -> Seq<(u32, i32)>
    decreases 25 - s when s <= 25
{
    if s >= 25 {
        Seq::empty()
    } else {
        let text = spec_transpose_tabs(tab, s, false, style, input_tuning, output_tuning).0;
        (if spec_is_playable(text, allow_bends) {
            seq![(spec_semitones_to_position(pos, s) as u32, s as i32)]
        } else {
            Seq::empty()
        }) + spec_scan_from(tab, pos, s + 1, style, input_tuning, output_tuning, allow_bends)
    }
}

/// Every playable transposition of `tab`: an empty tab yields an empty list,
/// otherwise the qualifying shifts in `[-24, 24]`, most negative first.
pub open spec fn spec_get_playable_positions(
    tab: Seq<char>,
    pos: int,
    input_tuning: Seq<char>,
    output_tuning: Seq<char>,
    style: Style,
    allow_bends: bool,
) -> Seq<(u32, i32)> {
    if tab.len() == 0 {
        Seq::empty()
    } else {
        spec_scan_from(tab, pos, -24, style, input_tuning, output_tuning, allow_bends)
    }
}

/// Sweep all semitone shifts over four octaves and return, in ascending
/// shift order, each shift that keeps the whole tab playable, paired with
/// the playing position it reaches from `input_position`.
pub fn get_playable_positions(
    tab: &str,
    input_position: u32,
    input_tuning: &str,
    output_tuning: &str,
    style: Style,
    allow_bends: bool,
) -> (r: Vec<(u32, i32)>)
    requires
        1 <= input_position <= 12,
    ensures
        r@ == spec_get_playable_positions(
            tab@,
            input_position as int,
            input_tuning@,
            output_tuning@,
            style,
            allow_bends,
        ),
{
    let mut results: Vec<(u32, i32)> = Vec::new();
    if tab.is_empty() {
        return results;
    }
    let mut s: i32 = -24;
    while s <= 24
        invariant
            -24 <= s <= 25,
            1 <= input_position <= 12,
            spec_scan_from(tab@, input_position as int, -24, style, input_tuning@,
                output_tuning@, allow_bends) =~= results@ + spec_scan_from(tab@,
                input_position as int, s as int, style, input_tuning@, output_tuning@,
                allow_bends),
        decreases 25 - s,
    {
        let (text, _errors) = transpose_tabs(
            tab.to_owned(),
            s,
            false,
            style,
            input_tuning,
            output_tuning,
        );
        if is_playable(text.as_str(), allow_bends) {
            let position = semitones_to_position(input_position, s);
            results.push((position, s));
        }
        proof {
            assert(spec_scan_from(tab@, input_position as int, -24, style, input_tuning@,
                output_tuning@, allow_bends) =~= results@ + spec_scan_from(tab@,
                input_position as int, s as int + 1, style, input_tuning@, output_tuning@,
                allow_bends));
        }
        s = s + 1;
    }
    proof {
        assert(spec_scan_from(tab@, input_position as int, 25, style, input_tuning@,
            output_tuning@, allow_bends) =~= Seq::<(u32, i32)>::empty());
        assert(results@ =~= spec_get_playable_positions(tab@, input_position as int,
            input_tuning@, output_tuning@, style, allow_bends));
    }
    results
}

/// Every reported shift lies inside the swept four octaves.
pub proof fn lemma_scan_bounds(
    tab: Seq<char>,
    pos: int,
    s: int,
    style: Style,
    input_tuning: Seq<char>,
    output_tuning: Seq<char>,
    allow_bends: bool,
)
    requires
        -24 <= s <= 25,
    ensures
        forall|j: int|
            0 <= j < spec_scan_from(tab, pos, s, style, input_tuning, output_tuning,
            allow_bends).len() ==> -24 <= (#[trigger] spec_scan_from(
                tab,
                pos,
                s,
                style,
                input_tuning,
                output_tuning,
                allow_bends,
            )[j]).1 <= 24,
    decreases 25 - s,
{
    if s < 25 {
        lemma_scan_bounds(tab, pos, s + 1, style, input_tuning, output_tuning, allow_bends);
        let whole = spec_scan_from(tab, pos, s, style, input_tuning, output_tuning, allow_bends);
        let rest = spec_scan_from(tab, pos, s + 1, style, input_tuning, output_tuning,
            allow_bends);
        let text = spec_transpose_tabs(tab, s, false, style, input_tuning, output_tuning).0;
        let head = (if spec_is_playable(text, allow_bends) {
            seq![(spec_semitones_to_position(pos, s) as u32, s as i32)]
        } else {
            Seq::<(u32, i32)>::empty()
        });
        assert forall|j: int| 0 <= j < whole.len() implies -24 <= (#[trigger] whole[j]).1
            <= 24 by {
            if j < head.len() {
                assert(whole[j] == head[j]);
            } else {
                assert(whole[j] == rest[j - head.len()]);
            }
        }
    }
}

/// The ordinal suffix the report uses: `st`, `nd`, `rd` for one, two and
/// three, `th` for everything else.
pub open spec fn spec_ordinal_suffix(n: int) -> Seq<char> {
    if n == 1 {
        "st"@
    } else if n == 2 {
        "nd"@
    } else if n == 3 {
        "rd"@
    } else {
        "th"@
    }
}

/// A number written as an ordinal: its decimal digits and the suffix.
pub fn to_ordinal(num: u32) -> (r: String)
    ensures
        r@ == spec_nat_string(num as int) + spec_ordinal_suffix(num as int),
{
    let mut r = u32_string(num);
    match num {
        1 => r.append("st"),
        2 => r.append("nd"),
        3 => r.append("rd"),
        _ => r.append("th"),
    }
    r
}

pub open spec fn spec_spaces(n: int) -> Seq<char>
    decreases n,
{
    if n <= 0 {
        Seq::empty()
    } else {
        seq![' '] + spec_spaces(n - 1)
    }
}

fn spaces(n: usize) -> (r: String)
    ensures
        r@ == spec_spaces(n as int),
{
    let mut r = String::new();
    let mut i: usize = 0;
    while i < n
        invariant
            i <= n,
            r@ =~= spec_spaces(i as int),
        decreases n - i,
    {
        r.append(" ");
        proof {
            reveal_strlit(" ");
            assert(" "@ =~= seq![' ']);
            assert(spec_spaces(i as int + 1) =~= spec_spaces(i as int) + seq![' ']) by {
                lemma_spaces_snoc(i as int + 1);
            }
            assert(r@ =~= spec_spaces(i as int + 1));
        }
        i = i + 1;
    }
    r
}

proof fn lemma_spaces_snoc(n: int)
    requires
        n > 0,
    ensures
        spec_spaces(n) =~= spec_spaces(n - 1) + seq![' '],
    decreases n,
{
    if n > 1 {
        lemma_spaces_snoc(n - 1);
    }
}

/// A string padded with trailing spaces to at least `w` characters.
pub open spec fn spec_pad_right(s: Seq<char>, w: int) -> Seq<char> {
    s + spec_spaces(w - s.len())
}

/// A string padded with leading spaces to at least `w` characters.
pub open spec fn spec_pad_left(s: Seq<char>, w: int) -> Seq<char> {
    spec_spaces(w - s.len()) + s
}

/// A signed number with an explicit sign, as the report writes shifts.
pub open spec fn spec_signed_string(n: int) -> Seq<char> {
    if n >= 0 {
        seq!['+'] + spec_nat_string(n)
    } else {
        seq!['-'] + spec_nat_string(-n)
    }
}

fn signed_i32_string(n: i32) -> (r: String)
    requires
        n > i32::MIN,
    ensures
        r@ == spec_signed_string(n as int),
{
    proof {
        reveal_strlit("+");
        reveal_strlit("-");
    }
    if n >= 0 {
        let mut r = "+".to_owned();
        let digits = u32_string(n as u32);
        r.append(digits.as_str());
        proof {
            assert(r@ =~= spec_signed_string(n as int));
        }
        r
    } else {
        let mut r = "-".to_owned();
        let digits = u32_string((-n) as u32);
        r.append(digits.as_str());
        proof {
            assert(r@ =~= spec_signed_string(n as int));
        }
        r
    }
}

/// One line of the playable-position report: the padded ordinal position and
/// the padded signed shift.
pub open spec fn spec_position_line(position: int, semitones: int) -> Seq<char> {
    spec_pad_right(spec_nat_string(position) + spec_ordinal_suffix(position), 4) + " position, "@
        + spec_pad_left(spec_signed_string(semitones), 4) + " semitones\n"@
}

fn position_line(position: u32, semitones: i32) -> (r: String)
    requires
        semitones > i32::MIN,
    ensures
        r@ == spec_position_line(position as int, semitones as int),
{
    let mut r = to_ordinal(position);
    let olen = r.as_str().unicode_len();
    if olen < 4 {
        let pad = spaces(4 - olen);
        r.append(pad.as_str());
    } else {
        proof {
            assert(spec_spaces(4 - r@.len()) =~= Seq::<char>::empty());
        }
    }
    r.append(" position, ");
    let num = signed_i32_string(semitones);
    let nlen = num.as_str().unicode_len();
    if nlen < 4 {
        let pad = spaces(4 - nlen);
        r.append(pad.as_str());
    } else {
        proof {
            assert(spec_spaces(4 - num@.len()) =~= Seq::<char>::empty());
        }
    }
    r.append(num.as_str());
    r.append(" semitones\n");
    proof {
        assert(r@ =~= spec_position_line(position as int, semitones as int));
    }
    r
}

/// The playable-position report: for each qualifying pair, its line and the
/// tab transposed by that shift.
pub open spec fn spec_playable_report(
    pairs: Seq<(u32, i32)>,
    k: int,
    tab: Seq<char>,
    style: Style,
    input_tuning: Seq<char>,
    output_tuning: Seq<char>,
) -> Seq<char>
    decreases pairs.len() - k when 0 <= k <= pairs.len()
{
    if k >= pairs.len() {
        Seq::empty()
    } else {
        spec_position_line(pairs[k].0 as int, pairs[k].1 as int) + spec_transpose_tabs(
            tab,
            pairs[k].1 as int,
            false,
            style,
            input_tuning,
            output_tuning,
        ).0 + seq!['\n'] + spec_playable_report(
            pairs,
            k + 1,
            tab,
            style,
            input_tuning,
            output_tuning,
        )
    }
}

/// Render every playable transposition of `tab`: one header line per
/// qualifying shift, followed by the transposed tab.
pub fn transpose_playable_positions(
    tab: &str,
    input_position: u32,
    input_tuning: &str,
    output_tuning: &str,
    style: Style,
    allow_bends: bool,
) -> (r: String)
    requires
        1 <= input_position <= 12,
    ensures
        r@ == spec_playable_report(
            spec_get_playable_positions(
                tab@,
                input_position as int,
                input_tuning@,
                output_tuning@,
                style,
                allow_bends,
            ),
            0,
            tab@,
            style,
            input_tuning@,
            output_tuning@,
        ),
{
    let playable = get_playable_positions(
        tab,
        input_position,
        input_tuning,
        output_tuning,
        style,
        allow_bends,
    );
    let ghost pairs = playable@;
    proof {
        if tab@.len() > 0 {
            lemma_scan_bounds(tab@, input_position as int, -24, style, input_tuning@,
                output_tuning@, allow_bends);
        }
        assert(forall|j: int| 0 <= j < pairs.len() ==> (#[trigger] pairs[j]).1 > i32::MIN);
    }
    let mut r = String::new();
    let len = playable.len();
    let mut k: usize = 0;
    while k < len
        invariant
            k <= len,
            len == pairs.len(),
            pairs == playable@,
            forall|j: int| 0 <= j < pairs.len() ==> (#[trigger] pairs[j]).1 > i32::MIN,
            r@ + spec_playable_report(pairs, k as int, tab@, style, input_tuning@,
                output_tuning@) =~= spec_playable_report(pairs, 0, tab@, style, input_tuning@,
                output_tuning@),
        decreases len - k,
    {
        proof {
            reveal_strlit("\n");
            assert("\n"@ =~= seq!['\n']);
        }
        let (position, semitones) = playable[k];
        let line = position_line(position, semitones);
        r.append(line.as_str());
        let (transposed, _errors) = transpose_tabs(
            tab.to_owned(),
            semitones,
            false,
            style,
            input_tuning,
            output_tuning,
        );
        r.append(transposed.as_str());
        r.append("\n");
        proof {
            assert(r@ + spec_playable_report(pairs, k as int + 1, tab@, style, input_tuning@,
                output_tuning@) =~= spec_playable_report(pairs, 0, tab@, style, input_tuning@,
                output_tuning@));
        }
        k = k + 1;
    }
    proof {
        assert(spec_playable_report(pairs, len as int, tab@, style, input_tuning@, output_tuning@)
            =~= Seq::<char>::empty());
        assert(r@ =~= spec_playable_report(pairs, 0, tab@, style, input_tuning@, output_tuning@));
    }
    r
}

} // verus!
