//! Character-level text rules: trimming, splitting, annotation stripping and
//! the conversion between strings and character vectors.

use vstd::prelude::*;
use vstd::string::*;

verus! {

/// Whether `c` is a white-space character in the sense of the Unicode
/// `White_Space` property.
pub open spec fn is_space(c: char) -> bool {
    ||| c == ' '
    ||| ('\u{9}' <= c && c <= '\u{d}')
    ||| c == '\u{85}'
    ||| c == '\u{a0}'
    ||| c == '\u{1680}'
    ||| ('\u{2000}' <= c && c <= '\u{200a}')
    ||| c == '\u{2028}'
    ||| c == '\u{2029}'
    ||| c == '\u{202f}'
    ||| c == '\u{205f}'
    ||| c == '\u{3000}'
}

/// The number of white-space characters at the start of `s`.
pub open spec fn leading_spaces(s: Seq<char>) -> nat
    decreases s.len(),
{
    if s.len() > 0 && is_space(s[0]) {
        1 + leading_spaces(s.skip(1))
    } else {
        0
    }
}

/// The number of white-space characters at the end of `s`.
pub open spec fn trailing_spaces(s: Seq<char>) -> nat
    decreases s.len(),
{
    if s.len() > 0 && is_space(s.last()) {
        1 + trailing_spaces(s.drop_last())
    } else {
        0
    }
}

/// `s` without its leading and trailing white space.
pub open spec fn trim(s: Seq<char>) -> Seq<char> {
    let rest = s.skip(leading_spaces(s) as int);
    rest.take(rest.len() - trailing_spaces(rest))
}

/// The pieces of `s` between occurrences of `sep`. There is always at least
/// one piece; an empty text has one empty piece.
pub open spec fn split(s: Seq<char>, sep: char) -> Seq<Seq<char>>
    decreases s.len(),
{
    if s.len() == 0 {
        seq![Seq::<char>::empty()]
    } else {
        let before = split(s.drop_last(), sep);
        if s.last() == sep {
            before.push(Seq::<char>::empty())
        } else {
            before.update(before.len() - 1, before.last().push(s.last()))
        }
    }
}

/// The non-empty members of `parts`, in order.
pub open spec fn non_empty(parts: Seq<Seq<char>>) -> Seq<Seq<char>>
    decreases parts.len(),
{
    if parts.len() == 0 {
        Seq::<Seq<char>>::empty()
    } else if parts.last().len() > 0 {
        non_empty(parts.drop_last()).push(parts.last())
    } else {
        non_empty(parts.drop_last())
    }
}

/// The space-separated tokens of `s`; runs of spaces separate once.
pub open spec fn tokens(s: Seq<char>) -> Seq<Seq<char>> {
    non_empty(split(s, ' '))
}

/// The members of `parts` joined with `sep` between neighbours.
pub open spec fn join(parts: Seq<Seq<char>>, sep: char) -> Seq<char>
    decreases parts.len(),
{
    if parts.len() == 0 {
        Seq::<char>::empty()
    } else if parts.len() == 1 {
        parts[0]
    } else {
        join(parts.drop_last(), sep).push(sep) + parts.last()
    }
}

/// The position of the first `c` in `s`, or the length of `s` if there is none.
pub open spec fn first_index_of(s: Seq<char>, c: char) -> int
    decreases s.len(),
{
    if s.len() == 0 || s[0] == c {
        0
    } else {
        1 + first_index_of(s.skip(1), c)
    }
}

/// Whether `c` occurs in `s`.
pub open spec fn has_char(s: Seq<char>, c: char) -> bool {
    first_index_of(s, c) < s.len()
}

/// `s` without its bracketed annotations. Each annotation runs from a `[`
/// through the next `]`; a `[` that is never closed stays with what follows it.
pub open spec fn strip_annotations(s: Seq<char>) -> Seq<char>
    decreases s.len(),
{
    if s.len() == 0 {
        s
    } else if s[0] == '[' {
        let close = first_index_of(s, ']');
        if 0 <= close < s.len() {
            strip_annotations(s.skip(close + 1))
        } else {
            s
        }
    } else {
        seq![s[0]] + strip_annotations(s.skip(1))
    }
}

/// Whether the question marker, three underscores in a row, occurs in `s`.
pub open spec fn has_marker(s: Seq<char>) -> bool {
    exists|i: int| 0 <= i && i + 3 <= s.len() && marker_at(s, i)
}

/// Whether three underscores start at position `i` of `s`.
pub open spec fn marker_at(s: Seq<char>, i: int) -> bool {
    s[i] == '_' && s[i + 1] == '_' && s[i + 2] == '_'
}

/// `s` without its round brackets.
pub open spec fn strip_parens(s: Seq<char>) -> Seq<char>
    decreases s.len(),
{
    if s.len() == 0 {
        s
    } else if s.last() == '(' || s.last() == ')' {
        strip_parens(s.drop_last())
    } else {
        strip_parens(s.drop_last()).push(s.last())
    }
}

/// The views of a vector of character vectors.
pub open spec fn views(parts: Seq<Vec<char>>) -> Seq<Seq<char>> {
    Seq::new(parts.len(), |i: int| parts[i]@)
}

/// Appends one character to a string, by `String::push` of the standard
/// library: the text afterwards is the text before followed by `c`.
#[verifier::external_body]
pub(crate) fn push_char(s: &mut String, c: char)
    ensures
        final(s)@ == old(s)@.push(c),
{
    s.push(c)
}

/// The characters of a string.
pub fn chars_of(s: &str) -> (out: Vec<char>)
    ensures
        out@ == s@,
{
    let n: usize = s.unicode_len();
    let mut out: Vec<char> = Vec::new();
    let mut i: usize = 0;
    while i < n
        invariant
            n == s@.len(),
            i <= n,
            out@ == s@.take(i as int),
        decreases n - i,
    {
        out.push(s.get_char(i));
        i += 1;
        assert(out@ =~= s@.take(i as int));
    }
    assert(s@.take(n as int) =~= s@);
    out
}

/// The string made of the characters of `v`.
pub fn string_of(v: &Vec<char>) -> (out: String)
    ensures
        out@ == v@,
{
    let mut out = String::new();
    let mut i: usize = 0;
    while i < v.len()
        invariant
            i <= v.len(),
            out@ == v@.take(i as int),
        decreases v.len() - i,
    {
        push_char(&mut out, v[i]);
        i += 1;
        assert(out@ =~= v@.take(i as int));
    }
    assert(v@.take(v.len() as int) =~= v@);
    out
}

/// Appends the characters of `v` to `s`.
pub fn append_chars(s: &mut String, v: &Vec<char>)
    ensures
        final(s)@ == old(s)@ + v@,
{
    let mut i: usize = 0;
    assert(s@ =~= old(s)@ + v@.take(0));
    while i < v.len()
        invariant
            i <= v.len(),
            s@ == old(s)@ + v@.take(i as int),
        decreases v.len() - i,
    {
        push_char(s, v[i]);
        i += 1;
        assert(s@ =~= old(s)@ + v@.take(i as int));
    }
    assert(v@.take(v.len() as int) =~= v@);
}

/// Whether `c` is white space.
pub fn is_space_char(c: char) -> (r: bool)
    ensures
        r == is_space(c),
{
    c == ' ' || ('\u{9}' <= c && c <= '\u{d}') || c == '\u{85}' || c == '\u{a0}' || c
        == '\u{1680}' || ('\u{2000}' <= c && c <= '\u{200a}') || c == '\u{2028}' || c
        == '\u{2029}' || c == '\u{202f}' || c == '\u{205f}' || c == '\u{3000}'
}

/// The characters of `v` from position `from` up to position `to`.
pub fn slice_chars(v: &Vec<char>, from: usize, to: usize) -> (out: Vec<char>)
    requires
        from <= to <= v.len(),
    ensures
        out@ == v@.subrange(from as int, to as int),
{
    let mut out: Vec<char> = Vec::new();
    let mut i: usize = from;
    while i < to
        invariant
            from <= i <= to <= v.len(),
            out@ == v@.subrange(from as int, i as int),
        decreases to - i,
    {
        out.push(v[i]);
        i += 1;
        assert(out@ =~= v@.subrange(from as int, i as int));
    }
    out
}

/// Appends the characters of `src` from position `from` on to `out`.
pub fn push_all(out: &mut Vec<char>, src: &Vec<char>, from: usize)
    requires
        from <= src.len(),
    ensures
        final(out)@ == old(out)@ + src@.skip(from as int),
{
    let mut i: usize = from;
    while i < src.len()
        invariant
            from <= i <= src.len(),
            out@ == old(out)@ + src@.subrange(from as int, i as int),
        decreases src.len() - i,
    {
        out.push(src[i]);
        i += 1;
        assert(out@ =~= old(out)@ + src@.subrange(from as int, i as int));
    }
    assert(src@.subrange(from as int, src.len() as int) =~= src@.skip(from as int));
}

/// The first position of `c` in a text lies within the text or at its end.
pub proof fn first_index_of_bounds(s: Seq<char>, c: char)
    ensures
        0 <= first_index_of(s, c) <= s.len(),
        first_index_of(s, c) < s.len() ==> s[first_index_of(s, c)] == c,
        forall|j: int| 0 <= j < first_index_of(s, c) ==> s[j] != c,
    decreases s.len(),
{
    if s.len() == 0 || s[0] == c {
    } else {
        first_index_of_bounds(s.skip(1), c);
        let k = first_index_of(s.skip(1), c);
        assert forall|j: int| 0 <= j < first_index_of(s, c) implies s[j] != c by {
            if j > 0 {
                assert(s.skip(1)[j - 1] == s[j]);
            }
        }
        if k < s.skip(1).len() {
            assert(s.skip(1)[k] == s[k + 1]);
        }
    }
}

/// The first position of `c` in `v` at or after `from`, or the length of `v`.
pub fn find_char(v: &Vec<char>, c: char, from: usize) -> (at: usize)
    requires
        from <= v.len(),
    ensures
        at == from + first_index_of(v@.skip(from as int), c),
        from <= at <= v.len(),
{
    let mut i: usize = from;
    while i < v.len() && v[i] != c
        invariant
            from <= i <= v.len(),
            first_index_of(v@.skip(from as int), c) == (i - from) + first_index_of(
                v@.skip(i as int),
                c,
            ),
        decreases v.len() - i,
    {
        assert(v@.skip(i as int).skip(1) =~= v@.skip(i + 1));
        i += 1;
    }
    i
}

/// Whether `c` occurs in `v`.
pub fn contains_char(v: &Vec<char>, c: char) -> (r: bool)
    ensures
        r == has_char(v@, c),
{
    let at = find_char(v, c, 0);
    assert(v@.skip(0) =~= v@);
    at < v.len()
}

/// `v` without its leading and trailing white space.
pub fn trim_chars(v: &Vec<char>) -> (out: Vec<char>)
    ensures
        out@ == trim(v@),
{
    let mut start: usize = 0;
    assert(v@.skip(0) =~= v@);
    while start < v.len() && is_space_char(v[start])
        invariant
            start <= v.len(),
            leading_spaces(v@) == start + leading_spaces(v@.skip(start as int)),
        decreases v.len() - start,
    {
        assert(v@.skip(start as int).skip(1) =~= v@.skip(start + 1));
        start += 1;
    }
    let ghost rest = v@.skip(start as int);
    let mut end: usize = v.len();
    assert(v@.subrange(start as int, end as int) =~= rest);
    while end > start && is_space_char(v[end - 1])
        invariant
            start <= end <= v.len(),
            rest == v@.skip(start as int),
            trailing_spaces(rest) == (v.len() - end) + trailing_spaces(
                v@.subrange(start as int, end as int),
            ),
        decreases end,
    {
        assert(v@.subrange(start as int, end as int).drop_last() =~= v@.subrange(
            start as int,
            end - 1,
        ));
        end -= 1;
    }
    assert(v@.subrange(start as int, end as int) =~= rest.take(rest.len() - trailing_spaces(rest)));
    slice_chars(v, start, end)
}

/// The pieces of `v` between occurrences of `sep`.
pub fn split_chars(v: &Vec<char>, sep: char) -> (out: Vec<Vec<char>>)
    ensures
        views(out@) == split(v@, sep),
{
    let mut out: Vec<Vec<char>> = Vec::new();
    let mut current: Vec<char> = Vec::new();
    let mut i: usize = 0;
    assert(views(out@).push(current@) =~= split(v@.take(0), sep));
    while i < v.len()
        invariant
            i <= v.len(),
            views(out@).push(current@) == split(v@.take(i as int), sep),
        decreases v.len() - i,
    {
        let c = v[i];
        let ghost before = views(out@).push(current@);
        assert(v@.take(i + 1).drop_last() =~= v@.take(i as int));
        if c == sep {
            out.push(current);
            current = Vec::new();
            assert(views(out@).push(current@) =~= before.push(Seq::<char>::empty()));
        } else {
            current.push(c);
            assert(views(out@).push(current@) =~= before.update(
                before.len() - 1,
                before.last().push(c),
            ));
        }
        i += 1;
    }
    assert(v@.take(v.len() as int) =~= v@);
    let ghost before = views(out@).push(current@);
    out.push(current);
    assert(views(out@) =~= before);
    out
}

/// The non-empty members of `parts`, in order.
pub fn keep_non_empty(parts: Vec<Vec<char>>) -> (out: Vec<Vec<char>>)
    ensures
        views(out@) == non_empty(views(parts@)),
{
    let mut out: Vec<Vec<char>> = Vec::new();
    let mut i: usize = 0;
    assert(views(out@) =~= non_empty(views(parts@).take(0)));
    while i < parts.len()
        invariant
            i <= parts.len(),
            views(out@) == non_empty(views(parts@).take(i as int)),
        decreases parts.len() - i,
    {
        let ghost before = views(out@);
        assert(views(parts@).take(i + 1).drop_last() =~= views(parts@).take(i as int));
        if parts[i].len() > 0 {
            out.push(parts[i].clone());
            assert(views(out@) =~= before.push(parts[i as int]@));
        }
        i += 1;
    }
    assert(views(parts@).take(parts.len() as int) =~= views(parts@));
    out
}

/// The space-separated tokens of `v`.
pub fn tokens_of(v: &Vec<char>) -> (out: Vec<Vec<char>>)
    ensures
        views(out@) == tokens(v@),
{
    keep_non_empty(split_chars(v, ' '))
}

/// The members of `parts` joined with `sep` between neighbours.
pub fn join_chars(parts: &Vec<Vec<char>>, sep: char) -> (out: Vec<char>)
    ensures
        out@ == join(views(parts@), sep),
{
    let mut out: Vec<char> = Vec::new();
    let mut i: usize = 0;
    assert(views(parts@).take(0) =~= Seq::<Seq<char>>::empty());
    while i < parts.len()
        invariant
            i <= parts.len(),
            out@ == join(views(parts@).take(i as int), sep),
        decreases parts.len() - i,
    {
        assert(views(parts@).take(i + 1).drop_last() =~= views(parts@).take(i as int));
        if i > 0 {
            out.push(sep);
        }
        push_all(&mut out, &parts[i], 0);
        assert(parts[i as int]@.skip(0) =~= parts[i as int]@);
        if i == 0 {
            assert(out@ =~= parts[0]@);
        }
        i += 1;
    }
    assert(views(parts@).take(parts.len() as int) =~= views(parts@));
    out
}

/// `v` without its bracketed annotations.
pub fn strip_annotation_chars(v: &Vec<char>) -> (out: Vec<char>)
    ensures
        out@ == strip_annotations(v@),
{
    let mut out: Vec<char> = Vec::new();
    let mut i: usize = 0;
    assert(v@.skip(0) =~= v@);
    while i < v.len()
        invariant
            i <= v.len(),
            strip_annotations(v@) == out@ + strip_annotations(v@.skip(i as int)),
        decreases v.len() - i,
    {
        let ghost rest = v@.skip(i as int);
        let ghost done = out@;
        if v[i] == '[' {
            let close = find_char(v, ']', i);
            if close < v.len() {
                assert(rest.skip(close - i + 1) =~= v@.skip(close + 1));
                i = close + 1;
            } else {
                push_all(&mut out, v, i);
                i = v.len();
                assert(out@ =~= done + rest + strip_annotations(v@.skip(i as int)));
            }
        } else {
            out.push(v[i]);
            assert(rest.skip(1) =~= v@.skip(i + 1));
            i += 1;
            assert(out@ + strip_annotations(v@.skip(i as int)) =~= done + (seq![rest[0]]
                + strip_annotations(rest.skip(1))));
        }
    }
    assert(out@ + strip_annotations(v@.skip(i as int)) =~= out@);
    out
}

/// Whether the question marker occurs in `v`.
pub fn contains_marker(v: &Vec<char>) -> (r: bool)
    ensures
        r == has_marker(v@),
{
    if v.len() < 3 {
        return false;
    }
    let mut i: usize = 0;
    while i <= v.len() - 3
        invariant
            3 <= v.len(),
            i <= v.len() - 2,
            forall|j: int| 0 <= j < i ==> !marker_at(v@, j),
        decreases v.len() - i,
    {
        if v[i] == '_' && v[i + 1] == '_' && v[i + 2] == '_' {
            assert(marker_at(v@, i as int));
            return true;
        }
        i += 1;
    }
    false
}

/// `v` without its round brackets.
pub fn strip_paren_chars(v: &Vec<char>) -> (out: Vec<char>)
    ensures
        out@ == strip_parens(v@),
{
    let mut out: Vec<char> = Vec::new();
    let mut i: usize = 0;
    while i < v.len()
        invariant
            i <= v.len(),
            out@ == strip_parens(v@.take(i as int)),
        decreases v.len() - i,
    {
        assert(v@.take(i + 1).drop_last() =~= v@.take(i as int));
        if v[i] != '(' && v[i] != ')' {
            out.push(v[i]);
        }
        i += 1;
    }
    assert(v@.take(v.len() as int) =~= v@);
    out
}

/// Whether two character vectors hold the same text.
pub fn same_chars(a: &Vec<char>, b: &Vec<char>) -> (r: bool)
    ensures
        r == (a@ == b@),
{
    if a.len() != b.len() {
        return false;
    }
    let mut i: usize = 0;
    while i < a.len()
        invariant
            a.len() == b.len(),
            i <= a.len(),
            forall|j: int| 0 <= j < i ==> a@[j] == b@[j],
        decreases a.len() - i,
    {
        if a[i] != b[i] {
            return false;
        }
        i += 1;
    }
    assert(a@ =~= b@);
    true
}

} // verus!
