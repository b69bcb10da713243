//! Character-level vocabulary shared by the line parsers: what counts as
//! whitespace, what trimming removes, and how a line falls apart into tokens.

use vstd::prelude::*;
use vstd::string::StringSliceAdditionalSpecFns;
use vstd::utf8::encode_utf8_decode_utf8;

verus! {

/// The characters that Unicode classifies as `White_Space`.
pub open spec fn is_space(c: char) -> bool {
    ||| '\u{9}' <= c <= '\u{D}'
    ||| c == ' '
    ||| c == '\u{85}'
    ||| c == '\u{A0}'
    ||| c == '\u{1680}'
    ||| '\u{2000}' <= c <= '\u{200A}'
    ||| c == '\u{2028}'
    ||| c == '\u{2029}'
    ||| c == '\u{202F}'
    ||| c == '\u{205F}'
    ||| c == '\u{3000}'
}

/// `s` without its leading whitespace.
pub open spec fn trimmed_start(s: Seq<char>) -> Seq<char>
    decreases s.len(),
{
    if s.len() > 0 && is_space(s.first()) {
        trimmed_start(s.drop_first())
    } else {
        s
    }
}

/// `s` without its trailing whitespace.
pub open spec fn trimmed_end(s: Seq<char>) -> Seq<char>
    decreases s.len(),
{
    if s.len() > 0 && is_space(s.last()) {
        trimmed_end(s.drop_last())
    } else {
        s
    }
}

/// `s` without the whitespace on either side.
pub open spec fn trimmed(s: Seq<char>) -> Seq<char> {
    trimmed_end(trimmed_start(s))
}

/// The longest prefix of `s` that holds no whitespace.
pub open spec fn first_word(s: Seq<char>) -> Seq<char>
    decreases s.len(),
{
    if s.len() > 0 && !is_space(s.first()) {
        seq![s.first()] + first_word(s.drop_first())
    } else {
        Seq::empty()
    }
}

/// The maximal runs of non-whitespace characters of `s`, in order.
pub open spec fn tokens(s: Seq<char>) -> Seq<Seq<char>>
    decreases s.len(),
{
    if s.len() == 0 {
        Seq::empty()
    } else if is_space(s.first()) {
        tokens(s.drop_first())
    } else {
        let word = first_word(s);
        proof {
            lemma_first_word_is_prefix(s);
        }
        seq![word] + tokens(s.skip(word.len() as int))
    }
}

/// The texts of `lines`, in order.
pub open spec fn texts_of(lines: Seq<String>) -> Seq<Seq<char>> {
    Seq::new(lines.len(), |i: int| lines[i]@)
}

/// `first_word(s)` is a prefix of `s`, free of whitespace, and ends where
/// `s` ends or where whitespace begins; it is empty only if `s` is empty
/// or starts with whitespace.
pub proof fn lemma_first_word_is_prefix(s: Seq<char>)
    ensures
        first_word(s).len() <= s.len(),
        first_word(s) == s.take(first_word(s).len() as int),
        forall|i: int| 0 <= i < first_word(s).len() ==> !is_space(#[trigger] s[i]),
        first_word(s).len() < s.len() ==> is_space(s[first_word(s).len() as int]),
        s.len() > 0 && !is_space(s.first()) ==> first_word(s).len() > 0,
    decreases s.len(),
{
    if s.len() > 0 && !is_space(s.first()) {
        let rest = s.drop_first();
        lemma_first_word_is_prefix(rest);
        let n = first_word(rest).len() as int;
        assert(first_word(s) =~= s.take(n + 1)) by {
            assert(first_word(rest) == rest.take(n));
            assert forall|i: int| 0 <= i < n + 1 implies first_word(s)[i] == s.take(n + 1)[i] by {
                if i > 0 {
                    assert(first_word(s)[i] == first_word(rest)[i - 1]);
                    assert(rest.take(n)[i - 1] == rest[i - 1]);
                }
            }
        }
        assert forall|i: int| 0 <= i < first_word(s).len() implies !is_space(#[trigger] s[i]) by {
            if i > 0 {
                assert(s[i] == rest[i - 1]);
            }
        }
        if first_word(s).len() < s.len() {
            assert(s[n + 1] == rest[n]);
        }
    } else {
        assert(first_word(s) =~= s.take(0));
    }
}

/// Tells whether `c` is whitespace.
pub fn is_whitespace(c: char) -> (b: bool)
    ensures
        b == is_space(c),
{
    ('\u{9}' <= c && c <= '\u{D}') || c == ' ' || c == '\u{85}' || c == '\u{A0}' || c == '\u{1680}'
        || ('\u{2000}' <= c && c <= '\u{200A}') || c == '\u{2028}' || c == '\u{2029}' || c
        == '\u{202F}' || c == '\u{205F}' || c == '\u{3000}'
}

/// The characters of `s`, one element each.
pub fn chars_of(s: &str) -> (chars: Vec<char>)
    ensures
        chars@ == s@,
{
    let mut chars: Vec<char> = Vec::new();
    for c in it: s.chars()
        invariant
            chars@ == it.seq().take(it.index() as int),
            it.seq() == s@,
    {
        chars.push(c);
    }
    chars
}

/// Where the leading whitespace of `chars[from..to)` ends.
pub(crate) fn skip_leading_spaces(chars: &Vec<char>, from: usize, to: usize) -> (at: usize)
    requires
        from <= to <= chars.len(),
    ensures
        from <= at <= to,
        chars@.subrange(at as int, to as int) == trimmed_start(
            chars@.subrange(from as int, to as int),
        ),
{
    let mut at: usize = from;
    while at < to && is_whitespace(chars[at])
        invariant
            from <= at <= to <= chars.len(),
            trimmed_start(chars@.subrange(at as int, to as int)) == trimmed_start(
                chars@.subrange(from as int, to as int),
            ),
        decreases to - at,
    {
        assert(chars@.subrange(at as int, to as int).drop_first() =~= chars@.subrange(
            at + 1,
            to as int,
        ));
        at += 1;
    }
    at
}

/// Where the trailing whitespace of `chars[from..to)` begins.
pub(crate) fn skip_trailing_spaces(chars: &Vec<char>, from: usize, to: usize) -> (at: usize)
    requires
        from <= to <= chars.len(),
    ensures
        from <= at <= to,
        chars@.subrange(from as int, at as int) == trimmed_end(
            chars@.subrange(from as int, to as int),
        ),
{
    let mut at: usize = to;
    while at > from && is_whitespace(chars[at - 1])
        invariant
            from <= at <= to <= chars.len(),
            trimmed_end(chars@.subrange(from as int, at as int)) == trimmed_end(
                chars@.subrange(from as int, to as int),
            ),
        decreases at - from,
    {
        assert(chars@.subrange(from as int, at as int).drop_last() =~= chars@.subrange(
            from as int,
            at - 1,
        ));
        at -= 1;
    }
    at
}

/// The bounds of `chars[from..to)` once trimmed on both sides.
pub(crate) fn trim_bounds(chars: &Vec<char>, from: usize, to: usize) -> (bounds: (usize, usize))
    requires
        from <= to <= chars.len(),
    ensures
        from <= bounds.0 <= bounds.1 <= to,
        chars@.subrange(bounds.0 as int, bounds.1 as int) == trimmed(
            chars@.subrange(from as int, to as int),
        ),
{
    let start = skip_leading_spaces(chars, from, to);
    let end = skip_trailing_spaces(chars, start, to);
    (start, end)
}

/// The bounds of the first token of `chars[from..)`: an empty range at the
/// end of `chars` if only whitespace is left.
pub(crate) fn next_token(chars: &Vec<char>, from: usize) -> (bounds: (usize, usize))
    requires
        from <= chars.len(),
    ensures
        from <= bounds.0 <= bounds.1 <= chars.len(),
        bounds.0 == bounds.1 ==> tokens(chars@.skip(from as int)) == Seq::<Seq<char>>::empty(),
        bounds.0 < bounds.1 ==> tokens(chars@.skip(from as int)) == seq![
            chars@.subrange(bounds.0 as int, bounds.1 as int),
        ] + tokens(chars@.skip(bounds.1 as int)),
{
    let len = chars.len();
    let mut start: usize = from;
    while start < len && is_whitespace(chars[start])
        invariant
            from <= start <= len == chars.len(),
            tokens(chars@.skip(start as int)) == tokens(chars@.skip(from as int)),
        decreases len - start,
    {
        assert(chars@.skip(start as int).drop_first() =~= chars@.skip(start + 1));
        start += 1;
    }
    let mut end: usize = start;
    while end < len && !is_whitespace(chars[end])
        invariant
            start <= end <= len == chars.len(),
            forall|i: int| start <= i < end ==> !is_space(#[trigger] chars@[i]),
        decreases len - end,
    {
        end += 1;
    }
    proof {
        let rest = chars@.skip(start as int);
        if start < end {
            lemma_first_word_is_prefix(rest);
            let n = first_word(rest).len() as int;
            if n < end - start {
                assert(rest[n] == chars@[start + n]);
            }
            if n > end - start {
                assert(rest[end - start] == chars@[end as int]);
            }
            assert(rest.take(n) =~= chars@.subrange(start as int, end as int));
            assert(rest.skip(n) =~= chars@.skip(end as int));
        }
    }
    (start, end)
}

/// Tells whether `a` and `b` hold the same characters.
pub fn same_text(a: &str, b: &str) -> (same: bool)
    ensures
        same == (a@ == b@),
{
    let left = a.as_bytes();
    let right = b.as_bytes();
    if left.len() != right.len() {
        return false;
    }
    let mut i: usize = 0;
    while i < left.len()
        invariant
            i <= left@.len() == right@.len(),
            left@ == a.spec_bytes(),
            right@ == b.spec_bytes(),
            forall|j: int| 0 <= j < i ==> left@[j] == right@[j],
        decreases left@.len() - i,
    {
        if left[i] != right[i] {
            return false;
        }
        i += 1;
    }
    proof {
        assert(left@ =~= right@);
        encode_utf8_decode_utf8(a@);
        encode_utf8_decode_utf8(b@);
    }
    true
}

/// The text of `s` between the character positions `from` and `to`.
pub(crate) fn slice_text(s: &str, from: usize, to: usize) -> (text: String)
    requires
        from <= to <= s@.len(),
    ensures
        text@ == s@.subrange(from as int, to as int),
{
    s.substring_char(from, to).to_owned()
}

/// `s` without the whitespace on either side.
pub fn trim(s: &str) -> (text: String)
    ensures
        text@ == trimmed(s@),
{
    let chars = chars_of(s);
    let (from, to) = trim_bounds(&chars, 0, chars.len());
    assert(chars@.subrange(0, chars@.len() as int) =~= chars@);
    slice_text(s, from, to)
}

} // verus!
