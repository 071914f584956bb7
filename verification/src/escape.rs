//! Escaping of raw message text for the target markup dialect.
//!
//! The HTML-like dialect replaces `&`, `<` and `>` in a single pass over the
//! original text, so entities introduced for `<` and `>` are never re-escaped.
//! The Markdown-V2-like dialect escapes the literal `#` with a backslash.

use vstd::prelude::*;
use vstd::string::StrSliceExecFns;
use crate::text::chars_to_string;

verus! {

/// What one character of raw text becomes in the HTML-like dialect.
pub open spec fn html_escape_char(c: char) -> Seq<char> {
    if c == '&' {
        seq!['&', 'a', 'm', 'p']
    } else if c == '<' {
        seq!['&', 'l', 't']
    } else if c == '>' {
        seq!['&', 'g', 't']
    } else {
        seq![c]
    }
}

/// The escaped text: every character of the original replaced independently,
/// as one pass over the original string would do it.
pub open spec fn html_escape(s: Seq<char>) -> Seq<char>
    decreases s.len(),
{
    if s.len() == 0 {
        Seq::empty()
    } else {
        html_escape(s.drop_last()) + html_escape_char(s.last())
    }
}

/// What one character becomes in the Markdown-V2-like dialect: only the
/// literal `#` is escaped, by a backslash prefix.
pub open spec fn markdown_escape_char(c: char) -> Seq<char> {
    if c == '#' {
        seq!['\\', '#']
    } else {
        seq![c]
    }
}

/// The Markdown-V2 escaped text, character by character.
pub open spec fn markdown_escape(s: Seq<char>) -> Seq<char>
    decreases s.len(),
{
    if s.len() == 0 {
        Seq::empty()
    } else {
        markdown_escape(s.drop_last()) + markdown_escape_char(s.last())
    }
}

/// Escape `&`, `<` and `>` for the HTML-like dialect in a single pass.
pub fn html_safe(input: &str) -> (r: String)
    ensures
        r@ == html_escape(input@),
{
    let n = input.unicode_len();
    let mut out: Vec<char> = Vec::new();
    let mut i: usize = 0;
    while i < n
        invariant
            i <= n,
            n == input@.len(),
            out@ == html_escape(input@.take(i as int)),
        decreases n - i,
    {
        let c = input.get_char(i);
        if c == '&' {
            out.push('&');
            out.push('a');
            out.push('m');
            out.push('p');
        } else if c == '<' {
            out.push('&');
            out.push('l');
            out.push('t');
        } else if c == '>' {
            out.push('&');
            out.push('g');
            out.push('t');
        } else {
            out.push(c);
        }
        proof {
            assert(input@.take(i + 1).drop_last() =~= input@.take(i as int));
            assert(input@.take(i + 1).last() == input@[i as int]);
            assert(out@ =~= html_escape(input@.take(i as int)) + html_escape_char(
                input@[i as int],
            ));
        }
        i = i + 1;
    }
    proof {
        assert(input@.take(n as int) =~= input@);
    }
    chars_to_string(&out)
}

/// Escape the literal `#` for the Markdown-V2-like dialect.
pub fn markdown_safe(input: &str) -> (r: String)
    ensures
        r@ == markdown_escape(input@),
{
    let n = input.unicode_len();
    let mut out: Vec<char> = Vec::new();
    let mut i: usize = 0;
    while i < n
        invariant
            i <= n,
            n == input@.len(),
            out@ == markdown_escape(input@.take(i as int)),
        decreases n - i,
    {
        let c = input.get_char(i);
        if c == '#' {
            out.push('\\');
            out.push('#');
        } else {
            out.push(c);
        }
        proof {
            assert(input@.take(i + 1).drop_last() =~= input@.take(i as int));
            assert(input@.take(i + 1).last() == input@[i as int]);
            assert(out@ =~= markdown_escape(input@.take(i as int)) + markdown_escape_char(
                input@[i as int],
            ));
        }
        i = i + 1;
    }
    proof {
        assert(input@.take(n as int) =~= input@);
    }
    chars_to_string(&out)
}

} // verus!
