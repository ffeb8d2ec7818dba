//! String primitives over character sequences, and the std calls behind them.

use vstd::prelude::*;

verus! {

/// The character views of a sequence of strings.
pub open spec fn views_of(v: Seq<String>) -> Seq<Seq<char>> {
    v.map_values(|s: String| s@)
}

/// `suffix` stands at the end of `s`, measured in characters.
pub open spec fn ends_with(s: Seq<char>, suffix: Seq<char>) -> bool {
    suffix.len() <= s.len() && s.subrange(s.len() - suffix.len(), s.len() as int) == suffix
}

/// The pieces of `s` between newline characters, as `str::split('\n')` yields
/// them: always at least one piece, possibly empty.
pub open spec fn split_lines_spec(s: Seq<char>) -> Seq<Seq<char>>
    decreases s.len(),
{
    if s.len() == 0 {
        seq![Seq::empty()]
    } else {
        let rest = split_lines_spec(s.drop_first());
        if s[0] == '\n' {
            seq![Seq::empty()] + rest
        } else {
            rest.update(0, seq![s[0]] + rest[0])
        }
    }
}

/// A whitespace character in the sense of `char::is_whitespace`: the Unicode
/// `White_Space` property.
pub open spec fn is_whitespace(c: char) -> bool {
    ('\u{9}' <= c && c <= '\u{d}') || c == ' ' || c == '\u{85}' || c == '\u{a0}'
        || c == '\u{1680}' || ('\u{2000}' <= c && c <= '\u{200a}') || c == '\u{2028}'
        || c == '\u{2029}' || c == '\u{202f}' || c == '\u{205f}' || c == '\u{3000}'
}

/// The characters at the start of `s` up to, not including, its first
/// whitespace character.
pub open spec fn leading_word(s: Seq<char>) -> Seq<char>
    decreases s.len(),
{
    if s.len() == 0 || is_whitespace(s[0]) {
        Seq::empty()
    } else {
        seq![s[0]] + leading_word(s.drop_first())
    }
}

/// The first whitespace-delimited word of `s`: leading whitespace is skipped,
/// and the word runs to the next whitespace character or the end; empty when
/// `s` holds only whitespace.
pub open spec fn first_word_spec(s: Seq<char>) -> Seq<char>
    decreases s.len(),
{
    if s.len() == 0 {
        s
    } else if is_whitespace(s[0]) {
        first_word_spec(s.drop_first())
    } else {
        leading_word(s)
    }
}

/// Relies on `str::split` with a `char` pattern: the pieces between the
/// newlines, in order, empty pieces kept.
#[verifier::external_body]
pub(crate) fn split_newlines(s: &str) -> (r: Vec<String>)
    ensures
        r@.len() == split_lines_spec(s@).len(),
        forall|i: int| 0 <= i < r@.len() ==> #[trigger] r@[i]@ == split_lines_spec(s@)[i],
{
    s.split('\n').map(String::from).collect()
}

/// Relies on `str::strip_suffix` with a `&str` pattern: `Some` of what precedes
/// the suffix when `s` ends with it, `None` otherwise.
#[verifier::external_body]
pub(crate) fn strip_suffix_str(s: &str, suffix: &str) -> (r: Option<String>)
    ensures
        r is Some <==> ends_with(s@, suffix@),
        r is Some ==> r->0@ == s@.subrange(0, s@.len() - suffix@.len()),
{
    s.strip_suffix(suffix).map(String::from)
}

/// Relies on `str::split_whitespace` and the first item of that iterator: the
/// first run of non-whitespace characters, or `None` when `s` holds only
/// whitespace.
#[verifier::external_body]
fn first_whitespace_token(s: &str) -> (r: Option<String>)
    ensures
        match r {
            Some(t) => t@ == first_word_spec(s@),
            None => forall|i: int| 0 <= i < s@.len() ==> is_whitespace(#[trigger] s@[i]),
        },
{
    s.split_whitespace().next().map(String::from)
}

proof fn lemma_blank_has_no_word(s: Seq<char>)
    requires
        forall|i: int| 0 <= i < s.len() ==> is_whitespace(#[trigger] s[i]),
    ensures
        first_word_spec(s) == Seq::<char>::empty(),
    decreases s.len(),
{
    if s.len() > 0 {
        assert(is_whitespace(s[0]));
        assert forall|i: int| 0 <= i < s.drop_first().len() implies is_whitespace(
            #[trigger] s.drop_first()[i],
        ) by {
            assert(s.drop_first()[i] == s[i + 1]);
        }
        lemma_blank_has_no_word(s.drop_first());
    }
}

/// The first whitespace-delimited word of `s`, or the empty string when `s`
/// holds only whitespace.
pub fn first_word(s: &str) -> (r: String)
    ensures
        r@ == first_word_spec(s@),
{
    match first_whitespace_token(s) {
        Some(word) => word,
        None => {
            proof {
                lemma_blank_has_no_word(s@);
            }
            String::new()
        },
    }
}

} // verus!
