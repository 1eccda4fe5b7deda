//! Text handling for command output: whitespace, lines, fields and searching.
//!
//! Every operation is stated over the sequence of characters of a string.

use vstd::prelude::*;
use vstd::string::*;

verus! {

/// Whether `c` is white space in the sense of Unicode's `White_Space` property.
pub open spec fn is_space(c: char) -> bool {
    let u = c as u32;
    ||| 0x09 <= u <= 0x0d
    ||| u == 0x20
    ||| u == 0x85
    ||| u == 0xa0
    ||| u == 0x1680
    ||| 0x2000 <= u <= 0x200a
    ||| u == 0x2028
    ||| u == 0x2029
    ||| u == 0x202f
    ||| u == 0x205f
    ||| u == 0x3000
}

/// Index of the first character at or after `from` that is no white space,
/// or the length of `s` if there is none.
pub open spec fn skip_spaces(s: Seq<char>, from: int) -> int
    decreases s.len() - from,
{
    if from < 0 || from >= s.len() {
        s.len() as int
    } else if !is_space(s[from]) {
        from
    } else {
        skip_spaces(s, from + 1)
    }
}

/// End of `s[lo..to]` once the white space at its end is dropped.
pub open spec fn drop_spaces(s: Seq<char>, lo: int, to: int) -> int
    decreases to - lo,
{
    if to <= lo || to > s.len() {
        lo
    } else if !is_space(s[to - 1]) {
        to
    } else {
        drop_spaces(s, lo, to - 1)
    }
}

/// `s` without the white space at its start and at its end.
pub open spec fn trimmed(s: Seq<char>) -> Seq<char> {
    let a = skip_spaces(s, 0);
    s.subrange(a, drop_spaces(s, a, s.len() as int))
}

pub proof fn lemma_skip_spaces_bounds(s: Seq<char>, from: int)
    requires
        0 <= from <= s.len(),
    ensures
        from <= skip_spaces(s, from) <= s.len(),
        skip_spaces(s, from) < s.len() ==> !is_space(s[skip_spaces(s, from)]),
    decreases s.len() - from,
{
    if from < s.len() && is_space(s[from]) {
        lemma_skip_spaces_bounds(s, from + 1);
    }
}

pub proof fn lemma_drop_spaces_bounds(s: Seq<char>, lo: int, to: int)
    requires
        0 <= lo <= to <= s.len(),
    ensures
        lo <= drop_spaces(s, lo, to) <= to,
        lo < drop_spaces(s, lo, to) ==> !is_space(s[drop_spaces(s, lo, to) - 1]),
    decreases to - lo,
{
    if lo < to && is_space(s[to - 1]) {
        lemma_drop_spaces_bounds(s, lo, to - 1);
    }
}

/// A trimmed text neither starts nor ends with white space, and a text
/// that neither starts nor ends with white space is left as it is.
pub proof fn law_trimmed_is_bare(s: Seq<char>)
    ensures
        trimmed(s).len() > 0 ==> !is_space(trimmed(s)[0]) && !is_space(trimmed(s).last()),
        s.len() > 0 && !is_space(s[0]) && !is_space(s.last()) ==> trimmed(s) == s,
        trimmed(s).len() <= s.len(),
{
    lemma_skip_spaces_bounds(s, 0);
    lemma_drop_spaces_bounds(s, skip_spaces(s, 0), s.len() as int);
    if s.len() > 0 && !is_space(s[0]) && !is_space(s.last()) {
        assert(trimmed(s) =~= s);
    }
}

/// Tells white space from other characters.
pub fn is_whitespace(c: char) -> (r: bool)
    ensures
        r == is_space(c),
{
    let u: u32 = c as u32;
    (0x09 <= u && u <= 0x0d) || u == 0x20 || u == 0x85 || u == 0xa0 || u == 0x1680 || (0x2000 <= u
        && u <= 0x200a) || u == 0x2028 || u == 0x2029 || u == 0x202f || u == 0x205f || u == 0x3000
}

/// The characters of `s`, one by one.
pub fn chars_of(s: &str) -> (v: Vec<char>)
    ensures
        v@ == s@,
{
    let mut v: Vec<char> = Vec::new();
    for c in it: s.chars()
        invariant
            it.seq() == s@,
            v@ == s@.take(it.index() as int),
    {
        v.push(c);
    }
    v
}

/// First index at or after `from` whose character is no white space.
pub fn skip_whitespace(cs: &Vec<char>, from: usize) -> (r: usize)
    requires
        from <= cs.len(),
    ensures
        r == skip_spaces(cs@, from as int),
        from <= r <= cs.len(),
{
    let mut i: usize = from;
    while i < cs.len() && is_whitespace(cs[i])
        invariant
            from <= i <= cs.len(),
            skip_spaces(cs@, i as int) == skip_spaces(cs@, from as int),
        decreases cs.len() - i,
    {
        i += 1;
    }
    i
}

/// End of `cs[lo..to]` without the white space at its end.
pub fn drop_whitespace(cs: &Vec<char>, lo: usize, to: usize) -> (r: usize)
    requires
        lo <= to <= cs.len(),
    ensures
        r == drop_spaces(cs@, lo as int, to as int),
        lo <= r <= to,
{
    let mut j: usize = to;
    while j > lo && is_whitespace(cs[j - 1])
        invariant
            lo <= j <= to,
            to <= cs.len(),
            drop_spaces(cs@, lo as int, j as int) == drop_spaces(cs@, lo as int, to as int),
        decreases j,
    {
        j -= 1;
    }
    j
}

/// `s` without the white space around it.
pub fn trim(s: &str) -> (r: String)
    ensures
        r@ == trimmed(s@),
{
    let cs = chars_of(s);
    let a = skip_whitespace(&cs, 0);
    let b = drop_whitespace(&cs, a, cs.len());
    s.substring_char(a, b).to_owned()
}

/// Index of the first `c` at or after `from`, or the length of `s` if there is none.
pub open spec fn find_char(s: Seq<char>, c: char, from: int) -> int
    decreases s.len() - from,
{
    if from < 0 || from >= s.len() {
        s.len() as int
    } else if s[from] == c {
        from
    } else {
        find_char(s, c, from + 1)
    }
}

/// Index of the first white space at or after `from`, or the length of `s`.
pub open spec fn skip_word(s: Seq<char>, from: int) -> int
    decreases s.len() - from,
{
    if from < 0 || from >= s.len() {
        s.len() as int
    } else if is_space(s[from]) {
        from
    } else {
        skip_word(s, from + 1)
    }
}

/// The words of `s` from `from` on: the longest runs without white space.
pub open spec fn words_from(s: Seq<char>, from: int) -> Seq<Seq<char>>
    decreases s.len() - from,
{
    let a = skip_spaces(s, from);
    let b = skip_word(s, a);
    if from < 0 || a >= s.len() || b <= from || b > s.len() {
        Seq::empty()
    } else {
        seq![s.subrange(a, b)] + words_from(s, b)
    }
}

/// The words of `s`, in order. None of them is empty.
pub open spec fn words(s: Seq<char>) -> Seq<Seq<char>> {
    words_from(s, 0)
}

/// The line that starts at `from` and ends before the line feed at `end`
/// (or at the end of `s`). A carriage return just before the line feed
/// belongs to the line ending.
pub open spec fn line_text(s: Seq<char>, from: int, end: int) -> Seq<char> {
    if end < s.len() && from < end && s[end - 1] == '\r' {
        s.subrange(from, end - 1)
    } else {
        s.subrange(from, end)
    }
}

/// The lines of `s` from `from` on.
pub open spec fn lines_from(s: Seq<char>, from: int) -> Seq<Seq<char>>
    decreases s.len() - from,
{
    let end = find_char(s, '\n', from);
    if from < 0 || from >= s.len() || end < from {
        Seq::empty()
    } else if end >= s.len() {
        seq![line_text(s, from, end)]
    } else {
        seq![line_text(s, from, end)] + lines_from(s, end + 1)
    }
}

/// The lines of `s`: a line ends at a line feed or at the end of `s`, and
/// a line feed at the very end starts no further line.
pub open spec fn lines(s: Seq<char>) -> Seq<Seq<char>> {
    lines_from(s, 0)
}

/// The pieces of `s` from `from` on, cut at every `sep`.
pub open spec fn pieces_from(s: Seq<char>, sep: char, from: int) -> Seq<Seq<char>>
    decreases s.len() - from,
{
    let end = find_char(s, sep, from);
    if from < 0 || from > s.len() {
        Seq::empty()
    } else if end >= s.len() || end < from {
        seq![s.subrange(from, s.len() as int)]
    } else {
        seq![s.subrange(from, end)] + pieces_from(s, sep, end + 1)
    }
}

/// The pieces of `s` between the occurrences of `sep`: one more than there
/// are occurrences.
pub open spec fn pieces(s: Seq<char>, sep: char) -> Seq<Seq<char>> {
    pieces_from(s, sep, 0)
}

/// Whether `pat` stands in `s` at index `i`.
pub open spec fn occurs_at(s: Seq<char>, pat: Seq<char>, i: int) -> bool {
    0 <= i && i + pat.len() <= s.len() && s.subrange(i, i + pat.len()) == pat
}

/// Index of the first occurrence of `pat` in `s` at or after `from`.
pub open spec fn find_from(s: Seq<char>, pat: Seq<char>, from: int) -> Option<int>
    decreases s.len() - from,
{
    if from < 0 || from + pat.len() > s.len() {
        None
    } else if occurs_at(s, pat, from) {
        Some(from)
    } else if from >= s.len() {
        None
    } else {
        find_from(s, pat, from + 1)
    }
}

/// Whether `pat` occurs in `s`.
pub open spec fn contains_text(s: Seq<char>, pat: Seq<char>) -> bool {
    find_from(s, pat, 0) is Some
}

/// What stands between the first occurrence of `pat` in `s` and the next
/// one after it (or the end of `s`), if `pat` occurs at all.
pub open spec fn after_first(s: Seq<char>, pat: Seq<char>) -> Option<Seq<char>> {
    match find_from(s, pat, 0) {
        None => None,
        Some(i) => {
            let start = i + pat.len();
            match find_from(s, pat, start) {
                None => Some(s.subrange(start, s.len() as int)),
                Some(j) => Some(s.subrange(start, j)),
            }
        },
    }
}

/// `s` without its prefix `pat`, if it starts with `pat`.
pub open spec fn without_prefix(s: Seq<char>, pat: Seq<char>) -> Option<Seq<char>> {
    if occurs_at(s, pat, 0) {
        Some(s.subrange(pat.len() as int, s.len() as int))
    } else {
        None
    }
}

/// `s` cut in two at its first `sep`, which belongs to neither part.
pub open spec fn cut_once(s: Seq<char>, sep: char) -> Option<(Seq<char>, Seq<char>)> {
    let i = find_char(s, sep, 0);
    if i < s.len() {
        Some((s.subrange(0, i), s.subrange(i + 1, s.len() as int)))
    } else {
        None
    }
}

/// `s` with every `c` taken out.
pub open spec fn without_char(s: Seq<char>, c: char) -> Seq<char>
    decreases s.len(),
{
    if s.len() == 0 {
        Seq::empty()
    } else if s.last() == c {
        without_char(s.drop_last(), c)
    } else {
        without_char(s.drop_last(), c).push(s.last())
    }
}

/// The lower-case form of an ASCII letter; any other character as it is.
pub open spec fn ascii_lower(c: char) -> char {
    if 'A' <= c <= 'Z' {
        ((c as u32 + 32) as u8) as char
    } else {
        c
    }
}

/// Whether `a` and `b` are equal once ASCII letters are put in lower case.
pub open spec fn same_ignoring_case(a: Seq<char>, b: Seq<char>) -> bool {
    a.len() == b.len() && forall|i: int| 0 <= i < a.len() ==> ascii_lower(#[trigger] a[i]) == ascii_lower(b[i])
}

pub proof fn lemma_skip_word_bounds(s: Seq<char>, from: int)
    requires
        0 <= from <= s.len(),
    ensures
        from <= skip_word(s, from) <= s.len(),
        from < s.len() && !is_space(s[from]) ==> from < skip_word(s, from),
        forall|k: int| from <= k < skip_word(s, from) ==> !is_space(s[k]),
    decreases s.len() - from,
{
    if from < s.len() && !is_space(s[from]) {
        lemma_skip_word_bounds(s, from + 1);
    }
}

/// No word is empty, and no word holds white space.
pub proof fn law_words_are_bare(s: Seq<char>, from: int, i: int, j: int)
    requires
        0 <= from <= s.len(),
        0 <= i < words_from(s, from).len(),
        0 <= j < words_from(s, from)[i].len(),
    ensures
        !is_space(words_from(s, from)[i][j]),
    decreases s.len() - from,
{
    let a = skip_spaces(s, from);
    let b = skip_word(s, a);
    lemma_skip_spaces_bounds(s, from);
    if a < s.len() {
        lemma_skip_word_bounds(s, a);
        if i == 0 {
            assert(words_from(s, from)[0] == s.subrange(a, b));
        } else {
            assert(words_from(s, from)[i] == words_from(s, b)[i - 1]);
            law_words_are_bare(s, b, i - 1, j);
        }
    }
}

/// First index at or after `from` that holds `c`.
pub fn index_of_char(cs: &Vec<char>, c: char, from: usize) -> (r: usize)
    requires
        from <= cs.len(),
    ensures
        r == find_char(cs@, c, from as int),
        from <= r <= cs.len(),
{
    let mut i: usize = from;
    while i < cs.len() && cs[i] != c
        invariant
            from <= i <= cs.len(),
            find_char(cs@, c, i as int) == find_char(cs@, c, from as int),
        decreases cs.len() - i,
    {
        i += 1;
    }
    i
}

/// First index at or after `from` that holds white space.
pub fn end_of_word(cs: &Vec<char>, from: usize) -> (r: usize)
    requires
        from <= cs.len(),
    ensures
        r == skip_word(cs@, from as int),
        from <= r <= cs.len(),
{
    let mut i: usize = from;
    while i < cs.len() && !is_whitespace(cs[i])
        invariant
            from <= i <= cs.len(),
            skip_word(cs@, i as int) == skip_word(cs@, from as int),
        decreases cs.len() - i,
    {
        i += 1;
    }
    i
}

/// The words of `s`, as `str::split_whitespace` gives them.
pub fn split_whitespace(s: &str) -> (out: Vec<String>)
    ensures
        out.deep_view() == words(s@),
{
    let cs = chars_of(s);
    let mut out: Vec<String> = Vec::new();
    let mut pos: usize = 0;
    loop
        invariant
            cs@ == s@,
            pos <= cs.len(),
            out.deep_view() + words_from(s@, pos as int) == words(s@),
        ensures
            out.deep_view() == words(s@),
        decreases cs.len() - pos,
    {
        let a = skip_whitespace(&cs, pos);
        if a >= cs.len() {
            assert(words_from(s@, pos as int) == Seq::<Seq<char>>::empty());
            break ;
        }
        let b = end_of_word(&cs, a);
        proof {
            lemma_skip_spaces_bounds(s@, pos as int);
            lemma_skip_word_bounds(s@, a as int);
        }
        let word = s.substring_char(a, b).to_owned();
        proof {
            let before = out.deep_view();
            assert(words_from(s@, pos as int) == seq![s@.subrange(a as int, b as int)]
                + words_from(s@, b as int));
            assert(before.push(word@) + words_from(s@, b as int) == before + words_from(
                s@,
                pos as int,
            ));
        }
        let ghost before = out.deep_view();
        out.push(word);
        assert(out.deep_view() == before.push(word@));
        pos = b;
    }
    out
}

/// The lines of `s`, as `str::lines` gives them.
pub fn split_lines(s: &str) -> (out: Vec<String>)
    ensures
        out.deep_view() == lines(s@),
{
    let cs = chars_of(s);
    let mut out: Vec<String> = Vec::new();
    let mut pos: usize = 0;
    while pos < cs.len()
        invariant
            cs@ == s@,
            pos <= cs.len(),
            out.deep_view() + lines_from(s@, pos as int) == lines(s@),
        decreases cs.len() - pos,
    {
        let end = index_of_char(&cs, '\n', pos);
        let stop = if end < cs.len() && pos < end && cs[end - 1] == '\r' {
            end - 1
        } else {
            end
        };
        let line = s.substring_char(pos, stop).to_owned();
        assert(line@ == line_text(s@, pos as int, end as int));
        let ghost before = out.deep_view();
        let next = if end < cs.len() {
            end + 1
        } else {
            end
        };
        proof {
            assert(lines_from(s@, next as int) == Seq::<Seq<char>>::empty() || end < cs.len());
            assert(lines_from(s@, pos as int) == seq![line@] + lines_from(s@, next as int));
            assert(before.push(line@) + lines_from(s@, next as int) == before + lines_from(
                s@,
                pos as int,
            ));
        }
        out.push(line);
        assert(out.deep_view() == before.push(line@));
        pos = next;
    }
    assert(lines_from(s@, pos as int) == Seq::<Seq<char>>::empty());
    out
}

/// The pieces of `s` between the occurrences of `sep`, as `str::split` gives them.
pub fn split_char(s: &str, sep: char) -> (out: Vec<String>)
    ensures
        out.deep_view() == pieces(s@, sep),
{
    let cs = chars_of(s);
    let mut out: Vec<String> = Vec::new();
    let mut pos: usize = 0;
    loop
        invariant_except_break
            out.deep_view() + pieces_from(s@, sep, pos as int) == pieces(s@, sep),
        invariant
            cs@ == s@,
            pos <= cs.len(),
        ensures
            out.deep_view() == pieces(s@, sep),
        decreases cs.len() - pos,
    {
        let end = index_of_char(&cs, sep, pos);
        let piece = s.substring_char(pos, end).to_owned();
        let ghost before = out.deep_view();
        if end >= cs.len() {
            proof {
                assert(pieces_from(s@, sep, pos as int) == seq![piece@]);
                assert(before.push(piece@) == before + pieces_from(s@, sep, pos as int));
            }
            out.push(piece);
            assert(out.deep_view() == before.push(piece@));
            break ;
        }
        proof {
            assert(pieces_from(s@, sep, pos as int) == seq![piece@] + pieces_from(
                s@,
                sep,
                end + 1,
            ));
            assert(before.push(piece@) + pieces_from(s@, sep, end + 1) == before + pieces_from(
                s@,
                sep,
                pos as int,
            ));
        }
        out.push(piece);
        assert(out.deep_view() == before.push(piece@));
        pos = end + 1;
    }
    out
}

/// Whether `pat` stands in `cs` at index `i`.
pub fn matches_at(cs: &Vec<char>, pat: &Vec<char>, i: usize) -> (r: bool)
    requires
        i + pat.len() <= cs.len(),
    ensures
        r == occurs_at(cs@, pat@, i as int),
{
    let mut k: usize = 0;
    while k < pat.len()
        invariant
            k <= pat.len(),
            i + pat.len() <= cs.len(),
            forall|j: int| 0 <= j < k ==> cs@[i + j] == pat@[j],
        decreases pat.len() - k,
    {
        if cs[i + k] != pat[k] {
            assert(cs@.subrange(i as int, i + pat.len())[k as int] != pat@[k as int]);
            return false;
        }
        k += 1;
    }
    assert(cs@.subrange(i as int, i + pat.len()) =~= pat@);
    true
}

/// Index of the first occurrence of `pat` in `cs` at or after `from`.
pub fn index_of(cs: &Vec<char>, pat: &Vec<char>, from: usize) -> (r: Option<usize>)
    requires
        from <= cs.len(),
    ensures
        match r {
            Some(i) => find_from(cs@, pat@, from as int) == Some(i as int) && i + pat.len()
                <= cs.len() && from <= i,
            None => find_from(cs@, pat@, from as int) is None,
        },
{
    if pat.len() > cs.len() {
        return None;
    }
    let last: usize = cs.len() - pat.len();
    let mut i: usize = from;
    while i <= last
        invariant
            from <= i,
            last == cs.len() - pat.len(),
            pat.len() <= cs.len(),
            find_from(cs@, pat@, i as int) == find_from(cs@, pat@, from as int),
        decreases last - i,
    {
        if matches_at(cs, pat, i) {
            return Some(i);
        }
        if i == last {
            assert(find_from(cs@, pat@, i + 1) is None);
            return None;
        }
        i += 1;
    }
    None
}

/// Whether `pat` occurs in `s`, as `str::contains` tells.
pub fn contains(s: &str, pat: &str) -> (r: bool)
    ensures
        r == contains_text(s@, pat@),
{
    let cs = chars_of(s);
    let ps = chars_of(pat);
    index_of(&cs, &ps, 0).is_some()
}

/// The second of the pieces into which the occurrences of `pat` cut `s`,
/// if there is one.
pub fn second_piece(s: &str, pat: &str) -> (r: Option<String>)
    ensures
        r.deep_view() == after_first(s@, pat@),
{
    let cs = chars_of(s);
    let ps = chars_of(pat);
    match index_of(&cs, &ps, 0) {
        None => None,
        Some(i) => {
            let start = i + ps.len();
            let stop = match index_of(&cs, &ps, start) {
                None => cs.len(),
                Some(j) => j,
            };
            Some(s.substring_char(start, stop).to_owned())
        },
    }
}

/// `s` without its prefix `pat`, as `str::strip_prefix` gives it.
pub fn strip_prefix(s: &str, pat: &str) -> (r: Option<String>)
    ensures
        r.deep_view() == without_prefix(s@, pat@),
{
    let cs = chars_of(s);
    let ps = chars_of(pat);
    if ps.len() <= cs.len() && matches_at(&cs, &ps, 0) {
        Some(s.substring_char(ps.len(), cs.len()).to_owned())
    } else {
        None
    }
}

/// `s` cut at its first `sep`, as `str::split_once` gives it.
pub fn split_once(s: &str, sep: char) -> (r: Option<(String, String)>)
    ensures
        match r {
            Some((a, b)) => cut_once(s@, sep) == Some((a@, b@)),
            None => cut_once(s@, sep) is None,
        },
{
    let cs = chars_of(s);
    let i = index_of_char(&cs, sep, 0);
    if i < cs.len() {
        let a = s.substring_char(0, i).to_owned();
        let b = s.substring_char(i + 1, cs.len()).to_owned();
        Some((a, b))
    } else {
        None
    }
}

/// The characters of `s` but for every `c`.
pub fn remove_char(s: &str, c: char) -> (out: Vec<char>)
    ensures
        out@ == without_char(s@, c),
{
    let cs = chars_of(s);
    let mut out: Vec<char> = Vec::new();
    let mut i: usize = 0;
    while i < cs.len()
        invariant
            i <= cs.len(),
            cs@ == s@,
            out@ == without_char(s@.take(i as int), c),
        decreases cs.len() - i,
    {
        assert(s@.take(i + 1).drop_last() == s@.take(i as int));
        if cs[i] != c {
            out.push(cs[i]);
        }
        i += 1;
    }
    assert(s@.take(i as int) == s@);
    out
}

/// Lower-case form of an ASCII letter.
pub fn to_ascii_lower(c: char) -> (r: char)
    ensures
        r == ascii_lower(c),
{
    if 'A' <= c && c <= 'Z' {
        ((c as u32 + 32) as u8) as char
    } else {
        c
    }
}

/// Whether `a` and `b` differ at most in the case of ASCII letters, as
/// `str::eq_ignore_ascii_case` tells.
pub fn eq_ignore_ascii_case(a: &str, b: &str) -> (r: bool)
    ensures
        r == same_ignoring_case(a@, b@),
{
    let x = chars_of(a);
    let y = chars_of(b);
    if x.len() != y.len() {
        return false;
    }
    let mut i: usize = 0;
    while i < x.len()
        invariant
            i <= x.len(),
            x.len() == y.len(),
            x@ == a@,
            y@ == b@,
            forall|j: int| 0 <= j < i ==> ascii_lower(#[trigger] a@[j]) == ascii_lower(b@[j]),
        decreases x.len() - i,
    {
        if to_ascii_lower(x[i]) != to_ascii_lower(y[i]) {
            return false;
        }
        i += 1;
    }
    true
}

/// Whether `a` and `b` hold the same characters.
pub fn same_text(a: &str, b: &str) -> (r: bool)
    ensures
        r == (a@ == b@),
{
    String::from_str(a) == String::from_str(b)
}

} // verus!
