//! Small verified text utilities: character-level string equality, decimal
//! rendering of numbers, character search, and the whitespace tokenizer that
//! splits a tab into lines and note tokens.
//!
//! A tab is freeform text; tokens are separated by ASCII whitespace and line
//! structure is carried by newline characters.

use vstd::prelude::*;
use vstd::string::StrSliceExecFns;
use vstd::string::StringExecFns;

verus! {

/// Character-for-character string equality.
pub fn str_eq(a: &str, b: &str) -> (r: bool)
    ensures
        r == (a@ == b@),
{
    let la = a.unicode_len();
    let lb = b.unicode_len();
    if la != lb {
        return false;
    }
    let mut i: usize = 0;
    while i < la
        invariant
            i <= la,
            la == a@.len(),
            la == b@.len(),
            forall|j: int| 0 <= j < i ==> a@[j] == b@[j],
        decreases la - i,
    {
        if a.get_char(i) != b.get_char(i) {
            return false;
        }
        i = i + 1;
    }
    proof {
        assert(a@ =~= b@);
    }
    true
}

/// Whether some character of `s` is `c`.
pub fn str_contains_char(s: &str, c: char) -> (r: bool)
    ensures
        r == s@.contains(c),
{
    let len = s.unicode_len();
    let mut i: usize = 0;
    while i < len
        invariant
            i <= len,
            len == s@.len(),
            forall|j: int| 0 <= j < i ==> s@[j] != c,
        decreases len - i,
    {
        if s.get_char(i) == c {
            assert(s@[i as int] == c);
            return true;
        }
        i = i + 1;
    }
    assert(!s@.contains(c));
    false
}

pub open spec fn digit_char(d: int) -> char {
    if d == 0 {
        '0'
    } else if d == 1 {
        '1'
    } else if d == 2 {
        '2'
    } else if d == 3 {
        '3'
    } else if d == 4 {
        '4'
    } else if d == 5 {
        '5'
    } else if d == 6 {
        '6'
    } else if d == 7 {
        '7'
    } else if d == 8 {
        '8'
    } else {
        '9'
    }
}

/// Decimal digits of a positive number; empty for zero.
pub open spec fn spec_digits(n: int) -> Seq<char>
    decreases n,
{
    if n <= 0 {
        Seq::empty()
    } else {
        spec_digits(n / 10).push(digit_char(n % 10))
    }
}

/// Decimal rendering of a non-negative number.
pub open spec fn spec_nat_string(n: int) -> Seq<char> {
    if n == 0 {
        seq!['0']
    } else {
        spec_digits(n)
    }
}

fn digit_str(d: u32) -> (r: &'static str)
    requires
        d < 10,
    ensures
        r@ =~= seq![digit_char(d as int)],
{
    proof {
        reveal_strlit("0");
        reveal_strlit("1");
        reveal_strlit("2");
        reveal_strlit("3");
        reveal_strlit("4");
        reveal_strlit("5");
        reveal_strlit("6");
        reveal_strlit("7");
        reveal_strlit("8");
        reveal_strlit("9");
    }
    match d {
        0 => "0",
        1 => "1",
        2 => "2",
        3 => "3",
        4 => "4",
        5 => "5",
        6 => "6",
        7 => "7",
        8 => "8",
        _ => "9",
    }
}

/// Decimal rendering of `n`.
pub fn u32_string(n: u32) -> (r: String)
    ensures
        r@ == spec_nat_string(n as int),
{
    if n == 0 {
        proof {
            reveal_strlit("0");
        }
        let r = "0".to_owned();
        proof {
            assert(r@ =~= seq!['0']);
        }
        return r;
    }
    let mut res = String::new();
    let mut m: u32 = n;
    while m > 0
        invariant
            spec_digits(n as int) =~= spec_digits(m as int) + res@,
        decreases m,
    {
        let d = m % 10;
        let mut piece = digit_str(d).to_owned();
        piece.append(res.as_str());
        proof {
            assert(spec_digits(m as int) == spec_digits(m as int / 10).push(
                digit_char(m as int % 10),
            ));
            assert(spec_digits(m as int / 10) + (seq![digit_char(m as int % 10)] + res@)
                =~= spec_digits(m as int) + res@);
        }
        res = piece;
        m = m / 10;
    }
    proof {
        assert(spec_digits(0int) + res@ =~= res@);
    }
    res
}

/// First index at or after `from` holding `c`, or the length.
pub open spec fn spec_find_char(s: Seq<char>, c: char, from: int) -> int
    decreases s.len() - from when 0 <= from <= s.len()
{
    if from >= s.len() {
        s.len() as int
    } else if s[from] == c {
        from
    } else {
        spec_find_char(s, c, from + 1)
    }
}

pub proof fn lemma_find_char(s: Seq<char>, c: char, from: int)
    requires
        0 <= from <= s.len(),
    ensures
        from <= spec_find_char(s, c, from) <= s.len(),
        spec_find_char(s, c, from) < s.len() ==> s[spec_find_char(s, c, from)] == c,
        forall|j: int| from <= j < spec_find_char(s, c, from) ==> s[j] != c,
    decreases s.len() - from,
{
    if from < s.len() && s[from] != c {
        lemma_find_char(s, c, from + 1);
    }
}

pub fn find_char(s: &str, c: char, from: usize, len: usize) -> (r: usize)
    requires
        from <= len,
        len == s@.len(),
    ensures
        r == spec_find_char(s@, c, from as int),
        from <= r <= len,
{
    let mut i: usize = from;
    while i < len
        invariant
            from <= i <= len,
            len == s@.len(),
            spec_find_char(s@, c, from as int) == spec_find_char(s@, c, i as int),
        decreases len - i,
    {
        if s.get_char(i) == c {
            return i;
        }
        i = i + 1;
    }
    i
}

/// ASCII whitespace that separates tokens inside one line.
pub open spec fn is_tab_space(c: char) -> bool {
    c == ' ' || c == '\t' || c == '\r' || c == '\u{b}' || c == '\u{c}'
}

fn tab_space(c: char) -> (r: bool)
    ensures
        r == is_tab_space(c),
{
    c == ' ' || c == '\t' || c == '\r' || c == '\u{b}' || c == '\u{c}'
}

/// First index at or after `from` holding a newline, or the length.
pub open spec fn spec_find_newline(s: Seq<char>, from: int) -> int
    decreases s.len() - from when 0 <= from <= s.len()
{
    if from >= s.len() {
        s.len() as int
    } else if s[from] == '\n' {
        from
    } else {
        spec_find_newline(s, from + 1)
    }
}

pub proof fn lemma_find_newline(s: Seq<char>, from: int)
    requires
        0 <= from <= s.len(),
    ensures
        from <= spec_find_newline(s, from) <= s.len(),
        spec_find_newline(s, from) < s.len() ==> s[spec_find_newline(s, from)] == '\n',
    decreases s.len() - from,
{
    if from < s.len() && s[from] != '\n' {
        lemma_find_newline(s, from + 1);
    }
}

/// First index at or after `from` holding a token separator, or the length.
pub open spec fn spec_find_space(s: Seq<char>, from: int) -> int
    decreases s.len() - from when 0 <= from <= s.len()
{
    if from >= s.len() {
        s.len() as int
    } else if is_tab_space(s[from]) {
        from
    } else {
        spec_find_space(s, from + 1)
    }
}

pub proof fn lemma_find_space(s: Seq<char>, from: int)
    requires
        0 <= from <= s.len(),
    ensures
        from <= spec_find_space(s, from) <= s.len(),
    decreases s.len() - from,
{
    if from < s.len() && !is_tab_space(s[from]) {
        lemma_find_space(s, from + 1);
    }
}

/// First index at or after `from` holding a non-separator, or the length.
pub open spec fn spec_skip_spaces(s: Seq<char>, from: int) -> int
    decreases s.len() - from when 0 <= from <= s.len()
{
    if from >= s.len() {
        s.len() as int
    } else if is_tab_space(s[from]) {
        spec_skip_spaces(s, from + 1)
    } else {
        from
    }
}

pub proof fn lemma_skip_spaces(s: Seq<char>, from: int)
    requires
        0 <= from <= s.len(),
    ensures
        from <= spec_skip_spaces(s, from) <= s.len(),
        spec_skip_spaces(s, from) < s.len() ==> !is_tab_space(s[spec_skip_spaces(s, from)]),
    decreases s.len() - from,
{
    if from < s.len() && is_tab_space(s[from]) {
        lemma_skip_spaces(s, from + 1);
    }
}

/// The lines of a tab, split on newline characters; a final newline closes
/// the last line rather than opening an empty one.
pub open spec fn spec_lines_from(s: Seq<char>, from: int) -> Seq<Seq<char>>
    decreases s.len() - from when 0 <= from <= s.len() via spec_lines_from_decreases
{
    if from >= s.len() {
        Seq::empty()
    } else {
        let i = spec_find_newline(s, from);
        if i >= s.len() {
            seq![s.subrange(from, s.len() as int)]
        } else {
            seq![s.subrange(from, i)] + spec_lines_from(s, i + 1)
        }
    }
}

#[via_fn]
proof fn spec_lines_from_decreases(s: Seq<char>, from: int) {
    if from < s.len() {
        lemma_find_newline(s, from);
    }
}

pub open spec fn spec_tab_lines(s: Seq<char>) -> Seq<Seq<char>> {
    spec_lines_from(s, 0)
}

/// The whitespace-separated tokens of one line.
pub open spec fn spec_tokens_from(s: Seq<char>, from: int) -> Seq<Seq<char>>
    decreases s.len() - from when 0 <= from <= s.len() via spec_tokens_from_decreases
{
    let i = spec_skip_spaces(s, from);
    if i >= s.len() {
        Seq::empty()
    } else {
        let j = spec_find_space(s, i);
        seq![s.subrange(i, j)] + spec_tokens_from(s, j)
    }
}

#[via_fn]
proof fn spec_tokens_from_decreases(s: Seq<char>, from: int) {
    lemma_skip_spaces(s, from);
    let i = spec_skip_spaces(s, from);
    if i < s.len() {
        lemma_find_space(s, i);
        assert(spec_find_space(s, i) == if is_tab_space(s[i]) {
            i
        } else {
            spec_find_space(s, i + 1)
        });
        lemma_find_space(s, i + 1);
    }
}

pub open spec fn spec_line_tokens(s: Seq<char>) -> Seq<Seq<char>> {
    spec_tokens_from(s, 0)
}

fn find_newline(s: &str, from: usize, len: usize) -> (r: usize)
    requires
        from <= len,
        len == s@.len(),
    ensures
        r == spec_find_newline(s@, from as int),
        from <= r <= len,
{
    let mut i: usize = from;
    while i < len
        invariant
            from <= i <= len,
            len == s@.len(),
            spec_find_newline(s@, from as int) == spec_find_newline(s@, i as int),
        decreases len - i,
    {
        if s.get_char(i) == '\n' {
            return i;
        }
        i = i + 1;
    }
    i
}

fn find_space(s: &str, from: usize, len: usize) -> (r: usize)
    requires
        from <= len,
        len == s@.len(),
    ensures
        r == spec_find_space(s@, from as int),
        from <= r <= len,
{
    let mut i: usize = from;
    while i < len
        invariant
            from <= i <= len,
            len == s@.len(),
            spec_find_space(s@, from as int) == spec_find_space(s@, i as int),
        decreases len - i,
    {
        if tab_space(s.get_char(i)) {
            return i;
        }
        i = i + 1;
    }
    i
}

fn skip_spaces(s: &str, from: usize, len: usize) -> (r: usize)
    requires
        from <= len,
        len == s@.len(),
    ensures
        r == spec_skip_spaces(s@, from as int),
        from <= r <= len,
{
    let mut i: usize = from;
    while i < len
        invariant
            from <= i <= len,
            len == s@.len(),
            spec_skip_spaces(s@, from as int) == spec_skip_spaces(s@, i as int),
        decreases len - i,
    {
        if !tab_space(s.get_char(i)) {
            return i;
        }
        i = i + 1;
    }
    i
}

/// The lines of a tab, as owned strings.
pub fn split_tab_lines(s: &str) -> (r: Vec<String>)
    ensures
        r.deep_view() == spec_tab_lines(s@),
{
    let len = s.unicode_len();
    let mut r: Vec<String> = Vec::new();
    let mut pos: usize = 0;
    while pos < len
        invariant
            pos <= len,
            len == s@.len(),
            spec_tab_lines(s@) =~= r.deep_view() + spec_lines_from(s@, pos as int),
        decreases len - pos,
    {
        let i = find_newline(s, pos, len);
        let line = s.substring_char(pos, i).to_owned();
        proof {
            lemma_find_newline(s@, pos as int);
        }
        r.push(line);
        proof {
            assert(r.deep_view() =~= r.deep_view().subrange(0, r.deep_view().len() - 1) + seq![
                line@,
            ]);
        }
        pos = if i < len {
            i + 1
        } else {
            len
        };
        proof {
            assert(spec_tab_lines(s@) =~= r.deep_view() + spec_lines_from(s@, pos as int));
        }
    }
    proof {
        assert(spec_lines_from(s@, pos as int) =~= Seq::<Seq<char>>::empty());
        assert(spec_tab_lines(s@) =~= r.deep_view());
    }
    r
}

/// The whitespace-separated tokens of one line, as owned strings.
pub fn split_line_tokens(s: &str) -> (r: Vec<String>)
    ensures
        r.deep_view() == spec_line_tokens(s@),
{
    let len = s.unicode_len();
    let mut r: Vec<String> = Vec::new();
    let mut pos: usize = 0;
    loop
        invariant
            pos <= len,
            len == s@.len(),
            spec_line_tokens(s@) =~= r.deep_view() + spec_tokens_from(s@, pos as int),
        ensures
            r.deep_view() == spec_line_tokens(s@),
        decreases len - pos,
    {
        let i = skip_spaces(s, pos, len);
        proof {
            lemma_skip_spaces(s@, pos as int);
        }
        if i == len {
            proof {
                assert(spec_tokens_from(s@, pos as int) =~= Seq::<Seq<char>>::empty());
                assert(spec_line_tokens(s@) =~= r.deep_view());
            }
            break;
        }
        let j = find_space(s, i, len);
        proof {
            lemma_find_space(s@, i as int);
        }
        let token = s.substring_char(i, j).to_owned();
        r.push(token);
        proof {
            assert(r.deep_view() =~= r.deep_view().subrange(0, r.deep_view().len() - 1) + seq![
                token@,
            ]);
            assert(spec_line_tokens(s@) =~= r.deep_view() + spec_tokens_from(s@, j as int));
        }
        pos = j;
    }
    r
}

} // verus!
