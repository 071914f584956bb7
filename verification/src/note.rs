//! The note template: a title line, the escaped message body and the tag
//! line, separated by blank lines; and the re-parsing of that template,
//! which recovers the three fields.

use vstd::prelude::*;
use vstd::string::StringExecFns;
use crate::text::{chars_to_string, str_to_chars, sub_chars};
use crate::timestamp::Timestamp;

verus! {

/// The two markup dialects a note or reply can be written in.
#[derive(Clone, Copy, Debug, PartialEq, Eq, Structural)]
pub enum Dialect {
    Html,
    MarkdownV2,
}

/// The view of an optional string.
pub open spec fn opt_view(o: Option<String>) -> Option<Seq<char>> {
    match o {
        Option::Some(t) => Option::Some(t@),
        Option::None => Option::None,
    }
}

/// The note: title line, blank line, body, blank line, tag line.
pub open spec fn note_view(title_line: Seq<char>, body: Seq<char>, tag_line: Seq<char>) -> Seq<
    char,
> {
    title_line + seq!['\n', '\n'] + body + seq!['\n', '\n'] + tag_line
}

/// The bold HTML title line around a generated title.
pub open spec fn html_title_line(title: Seq<char>) -> Seq<char> {
    seq!['<', 'b', '>'] + title + seq!['<', '/', 'b', '>']
}

/// The title line of the configured title slot: the generated title in the
/// dialect's bold markup, or, where no title was generated, a literal
/// placeholder heading with the timestamp in a code span.
pub open spec fn title_line_view(dialect: Dialect, title: Option<Seq<char>>, ts: Timestamp) -> Seq<
    char,
> {
    match dialect {
        Dialect::Html => match title {
            Option::Some(t) => html_title_line(t),
            Option::None => "<b>memo</b> <code>"@ + ts.compact_view() + "</code>"@,
        },
        Dialect::MarkdownV2 => match title {
            Option::Some(t) => seq!['*'] + t + seq!['*'],
            Option::None => "*memo* `"@ + ts.compact_view() + "`"@,
        },
    }
}

/// Assemble the note from the title slot, the escaped body and the tag line.
pub fn assemble_note(
    dialect: Dialect,
    title: &Option<String>,
    ts: &Timestamp,
    escaped_body: &str,
    tag_line: &str,
) -> (r: String)
    ensures
        r@ == note_view(title_line_view(dialect, opt_view(*title), *ts), escaped_body@, tag_line@),
{
    let mut out = String::new();
    match dialect {
        Dialect::Html => match title {
            Option::Some(t) => {
                out.append("<b>");
                out.append(t.as_str());
                out.append("</b>");
                proof {
                    reveal_strlit("<b>");
                    reveal_strlit("</b>");
                    assert(out@ =~= title_line_view(dialect, opt_view(*title), *ts));
                }
            },
            Option::None => {
                out.append("<b>memo</b> <code>");
                let stamp = ts.format_compact();
                out.append(stamp.as_str());
                out.append("</code>");
                proof {
                    assert(out@ =~= title_line_view(dialect, opt_view(*title), *ts));
                }
            },
        },
        Dialect::MarkdownV2 => match title {
            Option::Some(t) => {
                out.append("*");
                out.append(t.as_str());
                out.append("*");
                proof {
                    reveal_strlit("*");
                    assert(out@ =~= title_line_view(dialect, opt_view(*title), *ts));
                }
            },
            Option::None => {
                out.append("*memo* `");
                let stamp = ts.format_compact();
                out.append(stamp.as_str());
                out.append("`");
                proof {
                    assert(out@ =~= title_line_view(dialect, opt_view(*title), *ts));
                }
            },
        },
    }
    let ghost line = out@;
    out.append("\n\n");
    out.append(escaped_body);
    out.append("\n\n");
    out.append(tag_line);
    proof {
        reveal_strlit("\n\n");
        assert(out@ =~= note_view(line, escaped_body@, tag_line@));
    }
    out
}

/// Whether `pat` stands in `s` at position `i`.
pub open spec fn match_at(s: Seq<char>, pat: Seq<char>, i: int) -> bool {
    0 <= i && i + pat.len() <= s.len() && s.subrange(i, i + pat.len() as int) == pat
}

/// The first position at or after `from` where `pat` stands in `s`.
pub open spec fn find_from(s: Seq<char>, pat: Seq<char>, from: int) -> Option<int>
    decreases s.len() - from,
    when 0 <= from && 1 <= pat.len()
{
    if from + pat.len() > s.len() {
        None
    } else if match_at(s, pat, from) {
        Some(from)
    } else {
        find_from(s, pat, from + 1)
    }
}

/// The last position at or before `from` where `pat` stands in `s`.
pub open spec fn rfind_from(s: Seq<char>, pat: Seq<char>, from: int) -> Option<int>
    decreases from + 1,
{
    if from < 0 {
        None
    } else if match_at(s, pat, from) {
        Some(from)
    } else {
        rfind_from(s, pat, from - 1)
    }
}

/// What a found position means: the match stands there and nowhere earlier.
pub proof fn lemma_find_from_is_first(s: Seq<char>, pat: Seq<char>, from: int)
    requires
        0 <= from,
        1 <= pat.len(),
    ensures
        match find_from(s, pat, from) {
            Option::Some(j) => from <= j && match_at(s, pat, j) && forall|k: int|
                from <= k < j ==> !match_at(s, pat, k),
            Option::None => forall|k: int| from <= k ==> !match_at(s, pat, k),
        },
    decreases s.len() - from,
{
    if from + pat.len() > s.len() {
        assert forall|k: int| from <= k implies !match_at(s, pat, k) by {}
    } else if match_at(s, pat, from) {
    } else {
        lemma_find_from_is_first(s, pat, from + 1);
    }
}

/// What a backward-found position means: the match stands there and nowhere
/// later up to the start position.
pub proof fn lemma_rfind_from_is_last(s: Seq<char>, pat: Seq<char>, from: int)
    ensures
        match rfind_from(s, pat, from) {
            Option::Some(j) => j <= from && match_at(s, pat, j) && forall|k: int|
                j < k <= from ==> !match_at(s, pat, k),
            Option::None => forall|k: int| k <= from ==> !match_at(s, pat, k),
        },
    decreases from + 1,
{
    if from < 0 {
    } else if match_at(s, pat, from) {
    } else {
        lemma_rfind_from_is_last(s, pat, from - 1);
    }
}

/// Re-parsing of the HTML note template with a generated title: the title
/// between the opening bold tag and the first close-bold followed by a blank
/// line; the tag line after the last blank line; the body between.
pub open spec fn parse_note_view(s: Seq<char>) -> Option<(Seq<char>, Seq<char>, Seq<char>)> {
    if s.len() >= 3 && s.subrange(0, 3) == seq!['<', 'b', '>'] {
        match find_from(s, seq!['<', '/', 'b', '>', '\n', '\n'], 0) {
            Option::Some(j) => {
                let rest = s.skip(j + 6);
                match rfind_from(rest, seq!['\n', '\n'], rest.len() - 2) {
                    Option::Some(k) => Option::Some(
                        (s.subrange(3, j), rest.take(k), rest.skip(k + 2)),
                    ),
                    Option::None => Option::None,
                }
            },
            Option::None => Option::None,
        }
    } else {
        Option::None
    }
}

/// Law: assembling an HTML note from a title, an escaped body and a tag
/// line, then re-parsing the fixed template, recovers the three fields
/// unambiguously, provided the title holds no `<` and the tag line no
/// newline.
pub proof fn lemma_note_round_trip(title: Seq<char>, body: Seq<char>, tags: Seq<char>)
    requires
        forall|i: int| 0 <= i < title.len() ==> title[i] != '<',
        forall|i: int| 0 <= i < tags.len() ==> tags[i] != '\n',
    ensures
        parse_note_view(note_view(html_title_line(title), body, tags)) == Option::Some(
            (title, body, tags),
        ),
{
    let s = note_view(html_title_line(title), body, tags);
    let lt = title.len() as int;
    let pat6 = seq!['<', '/', 'b', '>', '\n', '\n'];
    let pat2 = seq!['\n', '\n'];
    assert(s.len() == 3 + lt + 4 + 2 + body.len() + 2 + tags.len());
    assert(s.subrange(0, 3) =~= seq!['<', 'b', '>']);
    assert(s[0] == '<' && s[1] == 'b' && s[2] == '>');
    assert forall|i: int| 3 <= i < 3 + lt implies s[i] == title[i - 3] by {}

    // the first close-bold-plus-blank-line stands right after the title
    assert(match_at(s, pat6, 3 + lt)) by {
        assert(s.subrange(3 + lt, 9 + lt) =~= pat6);
    }
    assert forall|k: int| 0 <= k < 3 + lt implies !match_at(s, pat6, k) by {
        if match_at(s, pat6, k) {
            assert(s.subrange(k, k + 6)[0] == s[k]);
            assert(s.subrange(k, k + 6)[1] == s[k + 1]);
            assert(s[k] == '<' && s[k + 1] == '/');
        }
    }
    lemma_find_from_is_first(s, pat6, 0);
    let j = find_from(s, pat6, 0);
    assert(j is Some);
    assert(j.unwrap() == 3 + lt) by {
        if j.unwrap() < 3 + lt {
            assert(!match_at(s, pat6, j.unwrap()));
        }
        if j.unwrap() > 3 + lt {
            assert(!match_at(s, pat6, 3 + lt));
        }
    }

    // past the title line, the note is body, blank line, tag line
    let rest = s.skip(3 + lt + 6);
    assert(rest =~= body + pat2 + tags);
    let lb = body.len() as int;
    assert(match_at(rest, pat2, lb)) by {
        assert(rest.subrange(lb, lb + 2) =~= pat2);
    }
    assert forall|k: int| lb < k <= rest.len() - 2 implies !match_at(rest, pat2, k) by {
        if match_at(rest, pat2, k) {
            if k == lb + 1 {
                assert(rest.subrange(k, k + 2)[1] == rest[k + 1]);
                assert(rest[lb + 2] == tags[0]);
                assert(rest[k + 1] == '\n');
            } else {
                assert(rest.subrange(k, k + 2)[0] == rest[k]);
                assert(rest[k] == tags[k - lb - 2]);
                assert(rest[k] == '\n');
            }
        }
    }
    lemma_rfind_from_is_last(rest, pat2, rest.len() - 2);
    let k = rfind_from(rest, pat2, rest.len() - 2);
    assert(k is Some);
    assert(k.unwrap() == lb) by {
        if k.unwrap() < lb {
            assert(!match_at(rest, pat2, lb));
        }
        if k.unwrap() > lb {
            assert(!match_at(rest, pat2, k.unwrap()));
        }
    }

    // the recovered fields are the original ones
    assert(s.subrange(3, 3 + lt) =~= title);
    assert(rest.take(lb) =~= body);
    assert(rest.skip(lb + 2) =~= tags);
}

fn pattern_at(s: &Vec<char>, pat: &Vec<char>, i: usize) -> (r: bool)
    requires
        i + pat@.len() <= s@.len(),
    ensures
        r == match_at(s@, pat@, i as int),
{
    let n = s.len();
    let m = pat.len();
    let mut k: usize = 0;
    while k < m
        invariant
            k <= m,
            m == pat@.len(),
            n == s@.len(),
            i + m <= n,
            forall|t: int| 0 <= t < k ==> s@[i + t] == pat@[t],
        decreases m - k,
    {
        if s[i + k] != pat[k] {
            proof {
                assert(s@.subrange(i as int, i + m)[k as int] == s@[i + k]);
            }
            return false;
        }
        k = k + 1;
    }
    proof {
        assert(s@.subrange(i as int, i + m) =~= pat@);
    }
    true
}

fn find_pattern(s: &Vec<char>, pat: &Vec<char>) -> (r: Option<usize>)
    requires
        1 <= pat@.len(),
    ensures
        match r {
            Option::Some(j) => find_from(s@, pat@, 0) == Option::Some(j as int),
            Option::None => find_from(s@, pat@, 0) is None,
        },
{
    let n = s.len();
    let m = pat.len();
    if m > n {
        return None;
    }
    let mut i: usize = 0;
    while i <= n - m
        invariant
            i <= n - m + 1,
            n == s@.len(),
            m == pat@.len(),
            1 <= m <= n,
            find_from(s@, pat@, 0) == find_from(s@, pat@, i as int),
        decreases n - i,
    {
        if pattern_at(s, pat, i) {
            return Some(i);
        }
        i = i + 1;
    }
    None
}

fn rfind_pattern(s: &Vec<char>, pat: &Vec<char>) -> (r: Option<usize>)
    requires
        1 <= pat@.len() <= s@.len(),
    ensures
        match r {
            Option::Some(j) => rfind_from(s@, pat@, s@.len() - pat@.len()) == Option::Some(
                j as int,
            ),
            Option::None => rfind_from(s@, pat@, s@.len() - pat@.len()) is None,
        },
{
    let n = s.len();
    let m = pat.len();
    let mut i: usize = n - m;
    loop
        invariant
            i <= n - m,
            n == s@.len(),
            m == pat@.len(),
            1 <= m <= n,
            rfind_from(s@, pat@, s@.len() - pat@.len()) == rfind_from(s@, pat@, i as int),
        decreases i + 1,
    {
        if pattern_at(s, pat, i) {
            return Some(i);
        }
        if i == 0 {
            proof {
                assert(rfind_from(s@, pat@, -1) is None);
                assert(rfind_from(s@, pat@, 0) is None);
            }
            return None;
        }
        i = i - 1;
    }
}

/// Re-parse an HTML note built from a generated title: the title, the body
/// and the tag line of the template, where the text has that shape.
pub fn parse_note(note: &str) -> (r: Option<(String, String, String)>)
    ensures
        r is Some <==> parse_note_view(note@) is Some,
        r matches Some(p) ==> parse_note_view(note@) matches Some(q) && p.0@ == q.0 && p.1@ == q.1
            && p.2@ == q.2,
{
    let chars = str_to_chars(note);
    let n = chars.len();
    if n < 3 || !(chars[0] == '<' && chars[1] == 'b' && chars[2] == '>') {
        proof {
            if note@.len() >= 3 && note@.subrange(0, 3) == seq!['<', 'b', '>'] {
                assert(note@.subrange(0, 3)[0] == note@[0]);
                assert(note@.subrange(0, 3)[1] == note@[1]);
                assert(note@.subrange(0, 3)[2] == note@[2]);
            }
        }
        return None;
    }
    proof {
        assert(note@.subrange(0, 3) =~= seq!['<', 'b', '>']);
    }
    let mut pat6: Vec<char> = Vec::new();
    pat6.push('<');
    pat6.push('/');
    pat6.push('b');
    pat6.push('>');
    pat6.push('\n');
    pat6.push('\n');
    proof {
        assert(pat6@ =~= seq!['<', '/', 'b', '>', '\n', '\n']);
    }
    let j = match find_pattern(&chars, &pat6) {
        Some(j) => j,
        None => {
            return None;
        },
    };
    proof {
        lemma_find_from_is_first(note@, pat6@, 0);
        assert(match_at(note@, pat6@, j as int));
        assert(j + 6 <= n);
    }
    let rest = sub_chars(&chars, j + 6, n);
    proof {
        assert(rest@ =~= note@.skip(j + 6));
    }
    let mut pat2: Vec<char> = Vec::new();
    pat2.push('\n');
    pat2.push('\n');
    proof {
        assert(pat2@ =~= seq!['\n', '\n']);
    }
    if rest.len() < 2 {
        proof {
            assert(rfind_from(rest@, pat2@, rest@.len() - 2) is None);
        }
        return None;
    }
    let k = match rfind_pattern(&rest, &pat2) {
        Some(k) => k,
        None => {
            return None;
        },
    };
    proof {
        lemma_rfind_from_is_last(rest@, pat2@, rest@.len() - 2);
        // the found bold close cannot start inside the three-character prefix
        assert(match_at(note@, pat6@, j as int));
        if j < 3 {
            assert(note@.subrange(j as int, j + 6)[0] == note@[j as int]);
            assert(note@.subrange(j as int, j + 6)[1] == note@[j + 1]);
            assert(note@[j as int] == '<' && note@[j + 1] == '/');
        }
        assert(j >= 3);
    }
    let title = sub_chars(&chars, 3, j);
    let body = sub_chars(&rest, 0, k);
    let tagline = sub_chars(&rest, k + 2, rest.len());
    proof {
        assert(title@ =~= note@.subrange(3, j as int));
        assert(body@ =~= rest@.take(k as int));
        assert(tagline@ =~= rest@.skip(k + 2));
    }
    Some((chars_to_string(&title), chars_to_string(&body), chars_to_string(&tagline)))
}

} // verus!
