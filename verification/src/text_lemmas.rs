//! Facts about trimming and tokens that the theorems of this crate rest on.

use crate::text::{
    first_word, is_space, lemma_first_word_is_prefix, tokens, trimmed, trimmed_end, trimmed_start,
};
use vstd::prelude::*;

verus! {

/// Whether `s` holds whitespace only.
pub open spec fn all_spaces(s: Seq<char>) -> bool {
    forall|i: int| 0 <= i < s.len() ==> is_space(#[trigger] s[i])
}

/// Whether `s` holds no whitespace.
pub open spec fn no_space(s: Seq<char>) -> bool {
    forall|i: int| 0 <= i < s.len() ==> !is_space(#[trigger] s[i])
}

/// Whether `s` can stand as one token of a line: it is not empty and holds
/// no whitespace.
pub open spec fn is_token(s: Seq<char>) -> bool {
    s.len() > 0 && no_space(s)
}

/// Trimming at the start drops a prefix of whitespace, and what is left
/// does not start with whitespace.
pub proof fn lemma_trimmed_start_is_suffix(s: Seq<char>)
    ensures
        trimmed_start(s).len() <= s.len(),
        trimmed_start(s) == s.skip(s.len() - trimmed_start(s).len()),
        all_spaces(s.take(s.len() - trimmed_start(s).len())),
        trimmed_start(s).len() > 0 ==> !is_space(trimmed_start(s).first()),
    decreases s.len(),
{
    if s.len() > 0 && is_space(s.first()) {
        let rest = s.drop_first();
        lemma_trimmed_start_is_suffix(rest);
        let cut = rest.len() - trimmed_start(rest).len();
        assert(rest.skip(cut) =~= s.skip(cut + 1));
        assert forall|i: int| 0 <= i < cut + 1 implies is_space(#[trigger] s.take(cut + 1)[i]) by {
            if i > 0 {
                assert(s.take(cut + 1)[i] == rest.take(cut)[i - 1]);
            }
        }
    } else {
        assert(s.skip(0) =~= s);
    }
}

/// Trimming at the end drops a suffix of whitespace, and what is left does
/// not end with whitespace.
pub proof fn lemma_trimmed_end_is_prefix(s: Seq<char>)
    ensures
        trimmed_end(s).len() <= s.len(),
        trimmed_end(s) == s.take(trimmed_end(s).len() as int),
        all_spaces(s.skip(trimmed_end(s).len() as int)),
        trimmed_end(s).len() > 0 ==> !is_space(trimmed_end(s).last()),
    decreases s.len(),
{
    if s.len() > 0 && is_space(s.last()) {
        let rest = s.drop_last();
        lemma_trimmed_end_is_prefix(rest);
        let cut = trimmed_end(rest).len() as int;
        assert(rest.take(cut) =~= s.take(cut));
        assert forall|i: int| 0 <= i < s.len() - cut implies is_space(#[trigger] s.skip(cut)[i]) by {
            if i < rest.len() - cut {
                assert(s.skip(cut)[i] == rest.skip(cut)[i]);
            }
        }
    } else {
        assert(s.take(s.len() as int) =~= s);
    }
}

/// Whitespace in front of a text does not show after trimming its start.
pub proof fn lemma_trimmed_start_ignores_padding(padding: Seq<char>, s: Seq<char>)
    requires
        all_spaces(padding),
    ensures
        trimmed_start(padding + s) == trimmed_start(s),
    decreases padding.len(),
{
    if padding.len() > 0 {
        assert((padding + s).first() == padding[0]);
        assert((padding + s).drop_first() =~= padding.drop_first() + s);
        assert forall|i: int| 0 <= i < padding.drop_first().len() implies is_space(
            #[trigger] padding.drop_first()[i],
        ) by {
            assert(padding.drop_first()[i] == padding[i + 1]);
        }
        lemma_trimmed_start_ignores_padding(padding.drop_first(), s);
    } else {
        assert(padding + s =~= s);
    }
}

/// Whitespace behind a text does not show after trimming its end.
pub proof fn lemma_trimmed_end_ignores_padding(s: Seq<char>, padding: Seq<char>)
    requires
        all_spaces(padding),
    ensures
        trimmed_end(s + padding) == trimmed_end(s),
    decreases padding.len(),
{
    if padding.len() > 0 {
        assert((s + padding).last() == padding[padding.len() - 1]);
        assert((s + padding).drop_last() =~= s + padding.drop_last());
        assert forall|i: int| 0 <= i < padding.drop_last().len() implies is_space(
            #[trigger] padding.drop_last()[i],
        ) by {
            assert(padding.drop_last()[i] == padding[i]);
        }
        lemma_trimmed_end_ignores_padding(s, padding.drop_last());
    } else {
        assert(s + padding =~= s);
    }
}

/// Trimming the start leaves what follows a text that does not start with
/// whitespace alone.
pub proof fn lemma_trimmed_start_keeps_tail(s: Seq<char>, tail: Seq<char>)
    requires
        trimmed_start(s).len() > 0,
    ensures
        trimmed_start(s + tail) == trimmed_start(s) + tail,
    decreases s.len(),
{
    assert((s + tail).first() == s.first());
    if is_space(s.first()) {
        assert((s + tail).drop_first() =~= s.drop_first() + tail);
        lemma_trimmed_start_keeps_tail(s.drop_first(), tail);
    }
}

/// A text of whitespace only trims to nothing.
pub proof fn lemma_trimmed_spaces(s: Seq<char>)
    requires
        all_spaces(s),
    ensures
        trimmed_start(s) == Seq::<char>::empty(),
        trimmed_end(s) == Seq::<char>::empty(),
        trimmed(s) == Seq::<char>::empty(),
{
    lemma_trimmed_start_ignores_padding(s, Seq::empty());
    lemma_trimmed_end_ignores_padding(Seq::empty(), s);
    assert(s + Seq::<char>::empty() =~= s);
    assert(Seq::<char>::empty() + s =~= s);
}

/// Whitespace around a text does not show after trimming.
pub proof fn lemma_trimmed_ignores_padding(before: Seq<char>, s: Seq<char>, after: Seq<char>)
    requires
        all_spaces(before),
        all_spaces(after),
    ensures
        trimmed(before + s + after) == trimmed(s),
{
    assert(before + s + after =~= before + (s + after));
    lemma_trimmed_start_ignores_padding(before, s + after);
    if trimmed_start(s).len() > 0 {
        lemma_trimmed_start_keeps_tail(s, after);
        lemma_trimmed_end_ignores_padding(trimmed_start(s), after);
    } else {
        lemma_trimmed_start_is_suffix(s);
        assert(s.take(s.len() as int) =~= s);
        assert forall|i: int| 0 <= i < (s + after).len() implies is_space(
            #[trigger] (s + after)[i],
        ) by {
            if i < s.len() {
                assert((s + after)[i] == s[i]);
            } else {
                assert((s + after)[i] == after[i - s.len()]);
            }
        }
        lemma_trimmed_spaces(s + after);
    }
}

/// A trimmed text neither starts nor ends with whitespace.
pub proof fn lemma_trimmed_has_no_padding(s: Seq<char>)
    ensures
        trimmed(s).len() > 0 ==> !is_space(trimmed(s).first()) && !is_space(trimmed(s).last()),
{
    lemma_trimmed_start_is_suffix(s);
    lemma_trimmed_end_is_prefix(trimmed_start(s));
    if trimmed(s).len() > 0 {
        assert(trimmed(s).first() == trimmed_start(s).first());
    }
}

/// Trimming a trimmed text changes nothing.
pub proof fn lemma_trimmed_twice(s: Seq<char>)
    ensures
        trimmed(trimmed(s)) == trimmed(s),
{
    lemma_trimmed_has_no_padding(s);
}

/// A token in front of whitespace, or alone, is the first word.
pub proof fn lemma_first_word_of_token(token: Seq<char>, tail: Seq<char>)
    requires
        no_space(token),
        tail.len() == 0 || is_space(tail.first()),
    ensures
        first_word(token + tail) == token,
    decreases token.len(),
{
    if token.len() > 0 {
        assert((token + tail).first() == token[0]);
        assert((token + tail).drop_first() =~= token.drop_first() + tail);
        assert forall|i: int| 0 <= i < token.drop_first().len() implies !is_space(
            #[trigger] token.drop_first()[i],
        ) by {
            assert(token.drop_first()[i] == token[i + 1]);
        }
        lemma_first_word_of_token(token.drop_first(), tail);
        assert(seq![token[0]] + token.drop_first() =~= token);
    } else {
        assert(token + tail =~= tail);
        assert(first_word(tail) =~= token);
    }
}

/// The tokens of a token followed by whitespace and more text are that
/// token and the tokens of the rest.
pub proof fn lemma_tokens_after_token(token: Seq<char>, tail: Seq<char>)
    requires
        is_token(token),
        tail.len() == 0 || is_space(tail.first()),
    ensures
        tokens(token + tail) == seq![token] + tokens(tail),
{
    lemma_first_word_of_token(token, tail);
    assert((token + tail).first() == token[0]);
    assert((token + tail).skip(token.len() as int) =~= tail);
}

/// Whitespace alone holds no token.
pub proof fn lemma_tokens_of_spaces(s: Seq<char>)
    requires
        all_spaces(s),
    ensures
        tokens(s) == Seq::<Seq<char>>::empty(),
    decreases s.len(),
{
    if s.len() > 0 {
        assert(is_space(s[0]));
        assert forall|i: int| 0 <= i < s.drop_first().len() implies is_space(
            #[trigger] s.drop_first()[i],
        ) by {
            assert(s.drop_first()[i] == s[i + 1]);
        }
        lemma_tokens_of_spaces(s.drop_first());
    }
}

/// Whitespace behind a text adds no token to it.
pub proof fn lemma_tokens_ignore_padding(s: Seq<char>, padding: Seq<char>)
    requires
        all_spaces(padding),
    ensures
        tokens(s + padding) == tokens(s),
    decreases s.len(),
{
    if s.len() == 0 {
        assert(s + padding =~= padding);
        lemma_tokens_of_spaces(padding);
    } else if is_space(s.first()) {
        assert((s + padding).first() == s.first());
        assert((s + padding).drop_first() =~= s.drop_first() + padding);
        lemma_tokens_ignore_padding(s.drop_first(), padding);
    } else {
        lemma_first_word_is_prefix(s);
        let word = first_word(s);
        let rest = s.skip(word.len() as int);
        assert(s =~= word + rest);
        assert(s + padding =~= word + (rest + padding));
        assert(no_space(word)) by {
            assert forall|i: int| 0 <= i < word.len() implies !is_space(#[trigger] word[i]) by {
                assert(word[i] == s[i]);
            }
        }
        assert((rest + padding).len() == 0 || is_space((rest + padding).first())) by {
            if rest.len() > 0 {
                assert((rest + padding).first() == s[word.len() as int]);
            } else if padding.len() > 0 {
                assert((rest + padding).first() == padding[0]);
            }
        }
        lemma_first_word_of_token(word, rest + padding);
        assert((s + padding).first() == s.first());
        assert((s + padding).skip(word.len() as int) =~= rest + padding);
        lemma_tokens_ignore_padding(rest, padding);
    }
}

} // verus!
