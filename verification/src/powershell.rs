//! Texts in PowerShell scripts.
use vstd::prelude::*;

use crate::text;
use crate::text::{chars_of, replace_all, string_of};

verus! {

/// A text as it stands between single quotes: each single quote is doubled.
pub open spec fn quoted(s: Seq<char>) -> Seq<char> {
    text::replace(s, seq!['\''], seq!['\'', '\''])
}

/// A text as it stands between single quotes.
pub fn quote(s: &str) -> (r: String)
    ensures
        r@ == quoted(s@),
{
    let chars = chars_of(s);
    let one: Vec<char> = vec!['\''];
    let two: Vec<char> = vec!['\'', '\''];
    assert(one@ =~= seq!['\'']);
    assert(two@ =~= seq!['\'', '\'']);
    string_of(replace_all(chars.as_slice(), one.as_slice(), two.as_slice()).as_slice())
}

/// A typographic quote that PowerShell takes for a single quote as well.
pub open spec fn is_curly(c: char) -> bool {
    '\u{2018}' <= c <= '\u{201b}'
}

/// What PowerShell takes for a single quote.
pub open spec fn is_single_quote(c: char) -> bool {
    c == '\'' || is_curly(c)
}

/// No typographic quote stands in `s`.
pub open spec fn is_plain(s: Seq<char>) -> bool {
    forall|i: int| 0 <= i < s.len() ==> !is_curly(#[trigger] s[i])
}

/// What PowerShell reads behind an opening single quote: the text up to the closing
/// quote, where two quotes in a row stand for the second of them, and what follows.
pub open spec fn literal(s: Seq<char>) -> Option<(Seq<char>, Seq<char>)>
    decreases s.len(),
{
    if s.len() == 0 {
        None
    } else if !is_single_quote(s[0]) {
        match literal(s.skip(1)) {
            Some((content, rest)) => Some((seq![s[0]] + content, rest)),
            None => None,
        }
    } else if s.len() >= 2 && is_single_quote(s[1]) {
        match literal(s.skip(2)) {
            Some((content, rest)) => Some((seq![s[1]] + content, rest)),
            None => None,
        }
    } else {
        Some((seq![], s.skip(1)))
    }
}

proof fn quoted_step(s: Seq<char>)
    requires
        s.len() > 0,
    ensures
        quoted(s) == (if s[0] == '\'' {
            seq!['\'', '\'']
        } else {
            seq![s[0]]
        }) + quoted(s.skip(1)),
{
    let one = seq!['\''];
    let two = seq!['\'', '\''];
    let rest = s.skip(1);
    if s[0] == '\'' {
        assert(s.subrange(0, 1) =~= one);
        assert(text::first_at(s, one, 0));
        text::find_is_first(s, one, 0);
        assert(quoted(s) =~= s.take(0) + two + quoted(rest));
        assert(s.take(0) + two + quoted(rest) =~= two + quoted(rest));
    } else {
        assert(s.subrange(0, 1)[0] == s[0]);
        assert(!text::occurs_at(s, one, 0));
        text::find_past_first(s, one);
        match text::find(rest, one) {
            Some(i) => {
                assert(text::first_at(rest, one, i));
                assert(s.take(i + 1) =~= seq![s[0]] + rest.take(i));
                assert(s.skip(i + 2) =~= rest.skip(i + 1));
                assert(quoted(s) =~= seq![s[0]] + quoted(rest));
            },
            None => {
                assert(quoted(s) =~= seq![s[0]] + quoted(rest));
            },
        }
    }
}

/// A quoted text between single quotes is read as that text, unless a typographic quote
/// stands in it.
pub proof fn literal_of_quoted(s: Seq<char>, rest: Seq<char>)
    requires
        is_plain(s),
        rest.len() > 0 ==> !is_single_quote(rest[0]),
    ensures
        literal(quoted(s) + seq!['\''] + rest) == Some((s, rest)),
    decreases s.len(),
{
    let whole = quoted(s) + seq!['\''] + rest;
    if s.len() == 0 {
        text::find_none(s, seq!['\'']);
        assert(!text::occurs(s, seq!['\''])) by {
            if text::occurs(s, seq!['\'']) {
                let i = choose|i: int| text::occurs_at(s, seq!['\''], i);
                assert(false);
            }
        }
        assert(whole =~= seq!['\''] + rest);
        assert(whole.skip(1) =~= rest);
        assert(s =~= seq![]);
    } else {
        quoted_step(s);
        let tail = s.skip(1);
        assert(forall|i: int| 0 <= i < tail.len() ==> #[trigger] tail[i] == s[i + 1]);
        assert(!is_curly(s[0]));
        literal_of_quoted(tail, rest);
        let inner = quoted(tail) + seq!['\''] + rest;
        if s[0] == '\'' {
            assert(whole.skip(2) =~= inner);
        } else {
            assert(whole.skip(1) =~= inner);
        }
        assert(seq![s[0]] + tail =~= s);
    }
}

/// Each single quote is doubled, and all else stays as it is.
pub proof fn quotes_are_doubled(head: Seq<char>, tail: Seq<char>)
    requires
        text::lacks(head, '\''),
    ensures
        quoted(head) == head,
        quoted(head + seq!['\''] + tail) == head + seq!['\'', '\''] + quoted(tail),
{
    text::lacking_is_no_occurrence(head, '\'');
    text::first_behind(head, '\'', tail);
}

} // verus!
