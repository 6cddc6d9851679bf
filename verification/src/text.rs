//! Character-level helpers shared by the text formats that the simulator
//! reads: white space, trimming and splitting.
//!
//! Texts are handled as sequences of characters. A piece of a text is given
//! by a half-open range of positions into it.

use vstd::prelude::*;

verus! {

/// Whether `c` has the Unicode property `White_Space`.
pub open spec fn is_whitespace(c: char) -> bool {
    let n = c as u32;
    (0x09 <= n <= 0x0d) || n == 0x20 || n == 0x85 || n == 0xa0 || n == 0x1680 || (0x2000 <= n
        <= 0x200a) || n == 0x2028 || n == 0x2029 || n == 0x202f || n == 0x205f || n == 0x3000
}

/// Whether `c` has the Unicode property `White_Space`.
pub fn check_whitespace(c: char) -> (r: bool)
    ensures
        r == is_whitespace(c),
{
    let n: u32 = c as u32;
    (0x09 <= n && n <= 0x0d) || n == 0x20 || n == 0x85 || n == 0xa0 || n == 0x1680 || (0x2000 <= n
        && n <= 0x200a) || n == 0x2028 || n == 0x2029 || n == 0x202f || n == 0x205f || n == 0x3000
}

/// Whether `c` is a blank inside a line: a space or a tab.
pub open spec fn is_blank(c: char) -> bool {
    c == ' ' || c == '\t'
}

/// Whether `c` is one of the decimal digits `0` to `9`.
pub open spec fn is_digit(c: char) -> bool {
    '0' <= c <= '9'
}

/// `s` without its leading white space.
pub open spec fn skip_leading(s: Seq<char>) -> Seq<char>
    decreases s.len(),
{
    if s.len() > 0 && is_whitespace(s[0]) {
        skip_leading(s.drop_first())
    } else {
        s
    }
}

/// `s` without its trailing white space.
pub open spec fn skip_trailing(s: Seq<char>) -> Seq<char>
    decreases s.len(),
{
    if s.len() > 0 && is_whitespace(s.last()) {
        skip_trailing(s.drop_last())
    } else {
        s
    }
}

/// `s` without leading and trailing white space.
pub open spec fn trim(s: Seq<char>) -> Seq<char> {
    skip_trailing(skip_leading(s))
}

/// Position of the first `delim` in `s`, or the length of `s` if there is
/// none.
pub open spec fn first_index_of(s: Seq<char>, delim: char) -> int
    decreases s.len(),
{
    if s.len() == 0 {
        0
    } else if s[0] == delim {
        0
    } else {
        1 + first_index_of(s.drop_first(), delim)
    }
}

/// The pieces of `s` between occurrences of `delim`. There is always at
/// least one piece; with no delimiter it is `s` itself.
pub open spec fn split(s: Seq<char>, delim: char) -> Seq<Seq<char>>
    decreases s.len(),
{
    let i = first_index_of(s, delim);
    if 0 <= i < s.len() {
        seq![s.subrange(0, i)] + split(s.subrange(i + 1, s.len() as int), delim)
    } else {
        seq![s]
    }
}

/// A trimmed text has no white space at either end, and trimming it again
/// changes nothing.
pub proof fn lemma_trim_is_trimmed(s: Seq<char>)
    ensures
        trim(s).len() > 0 ==> !is_whitespace(trim(s)[0]) && !is_whitespace(trim(s).last()),
        trim(trim(s)) == trim(s),
        trim(s).len() <= s.len(),
{
    lemma_skip_leading_shape(s);
    lemma_skip_trailing_shape(skip_leading(s));
    let t = trim(s);
    if t.len() > 0 {
        // The first character of `t` is the first of `skip_leading(s)`.
        assert(t[0] == skip_leading(s)[0]);
    }
}

/// `skip_leading` returns a suffix that does not begin with white space.
pub proof fn lemma_skip_leading_shape(s: Seq<char>)
    ensures
        skip_leading(s).len() <= s.len(),
        skip_leading(s) == s.subrange(s.len() - skip_leading(s).len(), s.len() as int),
        skip_leading(s).len() > 0 ==> !is_whitespace(skip_leading(s)[0]),
        forall|i: int| 0 <= i < s.len() - skip_leading(s).len() ==> is_whitespace(#[trigger] s[i]),
        skip_leading(skip_leading(s)) == skip_leading(s),
    decreases s.len(),
{
    if s.len() > 0 && is_whitespace(s[0]) {
        let rest = s.drop_first();
        lemma_skip_leading_shape(rest);
        let k = rest.len() - skip_leading(rest).len();
        assert(rest.subrange(k, rest.len() as int) =~= s.subrange(k + 1, s.len() as int));
        assert forall|i: int| 0 <= i < s.len() - skip_leading(s).len() implies is_whitespace(
            #[trigger] s[i],
        ) by {
            if i > 0 {
                assert(s[i] == rest[i - 1]);
            }
        }
    } else {
        assert(s.subrange(0, s.len() as int) =~= s);
    }
}

/// `skip_trailing` returns a prefix that does not end with white space.
pub proof fn lemma_skip_trailing_shape(s: Seq<char>)
    ensures
        skip_trailing(s).len() <= s.len(),
        skip_trailing(s) == s.subrange(0, skip_trailing(s).len() as int),
        skip_trailing(s).len() > 0 ==> !is_whitespace(skip_trailing(s).last()),
        forall|i: int| skip_trailing(s).len() <= i < s.len() ==> is_whitespace(#[trigger] s[i]),
        skip_trailing(skip_trailing(s)) == skip_trailing(s),
    decreases s.len(),
{
    if s.len() > 0 && is_whitespace(s.last()) {
        let rest = s.drop_last();
        lemma_skip_trailing_shape(rest);
        let k = skip_trailing(rest).len() as int;
        assert(rest.subrange(0, k) =~= s.subrange(0, k));
        assert forall|i: int| skip_trailing(s).len() <= i < s.len() implies is_whitespace(
            #[trigger] s[i],
        ) by {
            if i < s.len() - 1 {
                assert(s[i] == rest[i]);
            }
        }
    } else {
        assert(s.subrange(0, s.len() as int) =~= s);
    }
}

/// `first_index_of` finds the first delimiter.
pub proof fn lemma_first_index_of(s: Seq<char>, delim: char)
    ensures
        0 <= first_index_of(s, delim) <= s.len(),
        first_index_of(s, delim) < s.len() ==> s[first_index_of(s, delim)] == delim,
        forall|i: int| 0 <= i < first_index_of(s, delim) ==> #[trigger] s[i] != delim,
    decreases s.len(),
{
    if s.len() > 0 && s[0] != delim {
        let rest = s.drop_first();
        lemma_first_index_of(rest, delim);
        assert forall|i: int| 0 <= i < first_index_of(s, delim) implies #[trigger] s[i] != delim by {
            if i > 0 {
                assert(s[i] == rest[i - 1]);
            }
        }
    }
}

/// The characters of a string, in order.
pub fn collect_chars(s: &str) -> (v: Vec<char>)
    ensures
        v@ == s@,
{
    broadcast use vstd::string::group_string_axioms;

    let mut v: Vec<char> = Vec::new();
    for c in it: s.chars()
        invariant
            it.seq() == s@,
            v@ == s@.take(it.index() as int),
    {
        v.push(c);
        assert(s@.take(it.index() + 1) =~= s@.take(it.index() as int).push(c));
    }
    assert(s@.take(s@.len() as int) =~= s@);
    v
}

/// Appends one character to a string: `String::push`.
#[verifier::external_body]
fn push_char(s: &mut String, c: char)
    ensures
        final(s)@ == old(s)@.push(c),
{
    s.push(c)
}

/// The piece `text[start..end]` as a string of its own.
pub fn piece_to_string(text: &[char], start: usize, end: usize) -> (s: String)
    requires
        start <= end <= text@.len(),
    ensures
        s@ == text@.subrange(start as int, end as int),
{
    let mut s = String::new();
    let mut i: usize = start;
    while i < end
        invariant
            start <= i <= end <= text@.len(),
            s@ == text@.subrange(start as int, i as int),
        decreases end - i,
    {
        push_char(&mut s, text[i]);
        assert(text@.subrange(start as int, i + 1) =~= text@.subrange(start as int, i as int).push(
            text@[i as int],
        ));
        i += 1;
    }
    s
}

/// Trims the piece `text[start..end]`: the range of what is left of it
/// without its leading and trailing white space.
pub fn trim_range(text: &[char], start: usize, end: usize) -> (r: (usize, usize))
    requires
        start <= end <= text@.len(),
    ensures
        start <= r.0 <= r.1 <= end,
        text@.subrange(r.0 as int, r.1 as int) == trim(text@.subrange(start as int, end as int)),
{
    let ghost whole = text@.subrange(start as int, end as int);
    let mut a: usize = start;
    while a < end && check_whitespace(text[a])
        invariant
            start <= a <= end <= text@.len(),
            skip_leading(whole) == skip_leading(text@.subrange(a as int, end as int)),
        decreases end - a,
    {
        assert(text@.subrange(a as int, end as int).drop_first() =~= text@.subrange(a + 1, end as int));
        a += 1;
    }
    assert(skip_leading(whole) == text@.subrange(a as int, end as int));
    let ghost head = text@.subrange(a as int, end as int);
    let mut b: usize = end;
    while b > a && check_whitespace(text[b - 1])
        invariant
            a <= b <= end <= text@.len(),
            skip_trailing(head) == skip_trailing(text@.subrange(a as int, b as int)),
        decreases b - a,
    {
        assert(text@.subrange(a as int, b as int).drop_last() =~= text@.subrange(a as int, b - 1));
        b -= 1;
    }
    (a, b)
}

/// Position of the first `delim` in `text[start..end]`, or `end` if there is
/// none.
pub fn find_char(text: &[char], start: usize, end: usize, delim: char) -> (i: usize)
    requires
        start <= end <= text@.len(),
    ensures
        start <= i <= end,
        i - start == first_index_of(text@.subrange(start as int, end as int), delim),
{
    let mut i: usize = start;
    while i < end && text[i] != delim
        invariant
            start <= i <= end <= text@.len(),
            first_index_of(text@.subrange(start as int, end as int), delim) == (i - start)
                + first_index_of(text@.subrange(i as int, end as int), delim),
        decreases end - i,
    {
        assert(text@.subrange(i as int, end as int).drop_first() =~= text@.subrange(i + 1, end as int));
        i += 1;
    }
    i
}

/// Splits the piece `text[start..end]` at every `delim`: the ranges of the
/// pieces in between, in order.
pub fn split_ranges(text: &[char], start: usize, end: usize, delim: char) -> (pieces: Vec<
    (usize, usize),
>)
    requires
        start <= end <= text@.len(),
    ensures
        pieces@.len() == split(text@.subrange(start as int, end as int), delim).len(),
        pieces@.len() >= 1,
        forall|k: int|
            0 <= k < pieces@.len() ==> start <= (#[trigger] pieces@[k]).0 <= pieces@[k].1 <= end,
        forall|k: int|
            0 <= k < pieces@.len() ==> text@.subrange(
                (#[trigger] pieces@[k]).0 as int,
                pieces@[k].1 as int,
            ) == split(text@.subrange(start as int, end as int), delim)[k],
{
    let ghost whole = text@.subrange(start as int, end as int);
    let mut pieces: Vec<(usize, usize)> = Vec::new();
    let mut from: usize = start;
    loop
        invariant_except_break
            start <= from <= end <= text@.len(),
            split(whole, delim) == Seq::new(
                pieces@.len(),
                |k: int| text@.subrange(pieces@[k].0 as int, pieces@[k].1 as int),
            ) + split(text@.subrange(from as int, end as int), delim),
            forall|k: int|
                0 <= k < pieces@.len() ==> start <= (#[trigger] pieces@[k]).0 <= pieces@[k].1 <= end,
        ensures
            pieces@.len() >= 1,
            split(whole, delim) == Seq::new(
                pieces@.len(),
                |k: int| text@.subrange(pieces@[k].0 as int, pieces@[k].1 as int),
            ),
            forall|k: int|
                0 <= k < pieces@.len() ==> start <= (#[trigger] pieces@[k]).0 <= pieces@[k].1 <= end,
        decreases end - from,
    {
        let ghost rest = text@.subrange(from as int, end as int);
        let ghost done = Seq::new(
            pieces@.len(),
            |k: int| text@.subrange(pieces@[k].0 as int, pieces@[k].1 as int),
        );
        let at = find_char(text, from, end, delim);
        pieces.push((from, at));
        let ghost done_next = Seq::new(
            pieces@.len(),
            |k: int| text@.subrange(pieces@[k].0 as int, pieces@[k].1 as int),
        );
        proof {
            assert(rest.subrange(0, at - from) =~= text@.subrange(from as int, at as int));
            assert(done_next =~= done + seq![text@.subrange(from as int, at as int)]);
        }
        if at == end {
            proof {
                assert(split(rest, delim) =~= seq![rest]);
                assert(rest =~= text@.subrange(from as int, at as int));
                assert(split(whole, delim) =~= done_next);
            }
            break ;
        }
        proof {
            assert(rest.subrange(at - from + 1, rest.len() as int) =~= text@.subrange(
                at + 1,
                end as int,
            ));
            assert(split(whole, delim) =~= done_next + split(text@.subrange(at + 1, end as int), delim));
        }
        from = at + 1;
    }
    pieces
}

/// Whether the piece `text[start..end]` spells `word`.
pub fn piece_equals(text: &[char], start: usize, end: usize, word: &[char]) -> (r: bool)
    requires
        start <= end <= text@.len(),
    ensures
        r == (text@.subrange(start as int, end as int) == word@),
{
    if end - start != word.len() {
        return false;
    }
    let mut i: usize = 0;
    while i < word.len()
        invariant
            start <= end <= text@.len(),
            end - start == word@.len(),
            i <= word@.len(),
            forall|j: int| 0 <= j < i ==> text@[start + j] == word@[j],
        decreases word@.len() - i,
    {
        if text[start + i] != word[i] {
            assert(text@.subrange(start as int, end as int)[i as int] != word@[i as int]);
            return false;
        }
        i += 1;
    }
    assert(text@.subrange(start as int, end as int) =~= word@);
    true
}

} // verus!
