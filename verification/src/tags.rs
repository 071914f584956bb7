//! Tag normalization: the raw comma-separated string returned by the
//! generation service becomes an ordered sequence of `#`-prefixed tags, each
//! trimmed, with inner spaces replaced by underscores and periods removed.
//! Duplicates are kept, and splitting an empty string yields the single
//! empty tag `#`.

use vstd::prelude::*;
use crate::text::{chars_to_string, str_to_chars, sub_chars};

verus! {

/// The whitespace that is trimmed from the ends of a raw tag piece: the
/// Unicode White_Space set, as `str::trim` removes it.
pub open spec fn is_space_char(c: char) -> bool {
    ||| c == ' '
    ||| c == '\t'
    ||| c == '\n'
    ||| c == '\u{000B}'
    ||| c == '\u{000C}'
    ||| c == '\r'
    ||| c == '\u{0085}'
    ||| c == '\u{00A0}'
    ||| c == '\u{1680}'
    ||| (0x2000 <= c as u32 && c as u32 <= 0x200A)
    ||| c == '\u{2028}'
    ||| c == '\u{2029}'
    ||| c == '\u{202F}'
    ||| c == '\u{205F}'
    ||| c == '\u{3000}'
}

/// The pieces of `s` between commas; the empty sequence gives one empty
/// piece, as splitting an empty string on `,` does.
pub open spec fn split_commas(s: Seq<char>) -> Seq<Seq<char>>
    decreases s.len(),
{
    if s.len() == 0 {
        seq![Seq::<char>::empty()]
    } else if s[0] == ',' {
        seq![Seq::<char>::empty()] + split_commas(s.skip(1))
    } else {
        let rest = split_commas(s.skip(1));
        seq![seq![s[0]] + rest[0]] + rest.skip(1)
    }
}

/// Splitting always yields at least one piece.
pub proof fn lemma_split_commas_len(s: Seq<char>)
    ensures
        split_commas(s).len() >= 1,
    decreases s.len(),
{
    if s.len() > 0 {
        lemma_split_commas_len(s.skip(1));
    }
}

/// `s` with leading whitespace dropped.
pub open spec fn trim_left(s: Seq<char>) -> Seq<char>
    decreases s.len(),
{
    if s.len() > 0 && is_space_char(s[0]) {
        trim_left(s.skip(1))
    } else {
        s
    }
}

/// `s` with trailing whitespace dropped.
pub open spec fn trim_right(s: Seq<char>) -> Seq<char>
    decreases s.len(),
{
    if s.len() > 0 && is_space_char(s.last()) {
        trim_right(s.drop_last())
    } else {
        s
    }
}

/// `s` with whitespace dropped from both ends.
pub open spec fn trim_view(s: Seq<char>) -> Seq<char> {
    trim_right(trim_left(s))
}

/// The body of one tag: spaces become underscores, periods disappear, every
/// other character stays.
pub open spec fn normalize_chars(s: Seq<char>) -> Seq<char>
    decreases s.len(),
{
    if s.len() == 0 {
        Seq::empty()
    } else {
        normalize_chars(s.drop_last()) + (if s.last() == '.' {
            Seq::<char>::empty()
        } else if s.last() == ' ' {
            seq!['_']
        } else {
            seq![s.last()]
        })
    }
}

/// One raw comma-separated piece turned into a tag: trimmed, normalized and
/// prefixed with `#`.
pub open spec fn normalize_tag(piece: Seq<char>) -> Seq<char> {
    seq!['#'] + normalize_chars(trim_view(piece))
}

/// All tags of a raw comma-separated string, in the order of the pieces.
pub open spec fn parsed_tags(s: Seq<char>) -> Seq<Seq<char>> {
    split_commas(s).map_values(|piece: Seq<char>| normalize_tag(piece))
}

/// The tag line: the tags joined by single spaces.
pub open spec fn join_spaces(ts: Seq<Seq<char>>) -> Seq<char>
    decreases ts.len(),
{
    if ts.len() == 0 {
        Seq::empty()
    } else if ts.len() == 1 {
        ts[0]
    } else {
        join_spaces(ts.drop_last()) + seq![' '] + ts.last()
    }
}

/// The whole tag line derived from one raw comma-separated string.
pub open spec fn tag_line_view(s: Seq<char>) -> Seq<char> {
    join_spaces(parsed_tags(s))
}

fn is_space(c: char) -> (r: bool)
    ensures
        r == is_space_char(c),
{
    c == ' ' || c == '\t' || c == '\n' || c == '\u{000B}' || c == '\u{000C}' || c == '\r'
        || c == '\u{0085}' || c == '\u{00A0}' || c == '\u{1680}' || (0x2000 <= c as u32 && c as u32
        <= 0x200A) || c == '\u{2028}' || c == '\u{2029}' || c == '\u{202F}' || c == '\u{205F}'
        || c == '\u{3000}'
}

fn split_commas_exec(s: &Vec<char>) -> (r: Vec<Vec<char>>)
    ensures
        r@.len() == split_commas(s@).len(),
        forall|k: int| 0 <= k < r@.len() ==> r@[k]@ == split_commas(s@)[k],
{
    let n = s.len();
    let mut res: Vec<Vec<char>> = Vec::new();
    res.push(Vec::new());
    proof {
        assert(s@.skip(n as int) =~= Seq::<char>::empty());
        assert(split_commas(s@.skip(n as int)) == seq![Seq::<char>::empty()]);
    }
    let mut i: usize = n;
    while i > 0
        invariant
            i <= n,
            n == s@.len(),
            res@.len() == split_commas(s@.skip(i as int)).len(),
            res@.len() >= 1,
            forall|k: int| 0 <= k < res@.len() ==> res@[k]@ == split_commas(s@.skip(i as int))[k],
        decreases i,
    {
        let c = s[i - 1];
        proof {
            assert(s@.skip(i - 1).skip(1) =~= s@.skip(i as int));
            assert(s@.skip(i - 1)[0] == s@[i - 1]);
            lemma_split_commas_len(s@.skip(i as int));
        }
        if c == ',' {
            proof {
                assert(split_commas(s@.skip(i - 1)) == seq![Seq::<char>::empty()] + split_commas(
                    s@.skip(i as int),
                ));
            }
            res.insert(0, Vec::new());
        } else {
            proof {
                let rest = split_commas(s@.skip(i as int));
                assert(split_commas(s@.skip(i - 1)) == seq![seq![s@[i - 1]] + rest[0]] + rest.skip(
                    1,
                ));
            }
            let mut first = res.remove(0);
            first.insert(0, c);
            proof {
                assert(first@ =~= seq![s@[i - 1]] + split_commas(s@.skip(i as int))[0]);
            }
            res.insert(0, first);
        }
        i = i - 1;
    }
    proof {
        assert(s@.skip(0) =~= s@);
    }
    res
}

/// Drop the whitespace at both ends of `v`.
pub fn trim_chars(v: &Vec<char>) -> (r: Vec<char>)
    ensures
        r@ == trim_view(v@),
{
    let n = v.len();
    proof {
        assert(v@.skip(0) =~= v@);
    }
    let mut start: usize = 0;
    while start < n && is_space(v[start])
        invariant
            start <= n,
            n == v@.len(),
            trim_left(v@) == trim_left(v@.skip(start as int)),
        decreases n - start,
    {
        proof {
            assert(v@.skip(start as int).skip(1) =~= v@.skip(start + 1));
        }
        start = start + 1;
    }
    proof {
        assert(trim_left(v@) == v@.skip(start as int));
        assert(v@.skip(start as int) =~= v@.subrange(start as int, n as int));
    }
    let mut end: usize = n;
    while end > start && is_space(v[end - 1])
        invariant
            start <= end <= n,
            n == v@.len(),
            trim_left(v@) == v@.skip(start as int),
            trim_right(v@.skip(start as int)) == trim_right(v@.subrange(start as int, end as int)),
        decreases end,
    {
        proof {
            assert(v@.subrange(start as int, end as int).drop_last() =~= v@.subrange(
                start as int,
                end - 1,
            ));
            assert(v@.subrange(start as int, end as int).last() == v@[end - 1]);
        }
        end = end - 1;
    }
    proof {
        if end == start {
            assert(v@.subrange(start as int, end as int) =~= Seq::<char>::empty());
        }
        assert(trim_right(v@.subrange(start as int, end as int)) == v@.subrange(
            start as int,
            end as int,
        ));
    }
    sub_chars(v, start, end)
}

fn normalize_tag_exec(piece: &Vec<char>) -> (r: Vec<char>)
    ensures
        r@ == normalize_tag(piece@),
{
    let trimmed = trim_chars(piece);
    let n = trimmed.len();
    let mut out: Vec<char> = Vec::new();
    out.push('#');
    let mut i: usize = 0;
    while i < n
        invariant
            i <= n,
            n == trimmed@.len(),
            trimmed@ == trim_view(piece@),
            out@ == seq!['#'] + normalize_chars(trimmed@.take(i as int)),
        decreases n - i,
    {
        let c = trimmed[i];
        if c == '.' {
        } else if c == ' ' {
            out.push('_');
        } else {
            out.push(c);
        }
        proof {
            assert(trimmed@.take(i + 1).drop_last() =~= trimmed@.take(i as int));
            assert(trimmed@.take(i + 1).last() == trimmed@[i as int]);
            assert(out@ =~= seq!['#'] + normalize_chars(trimmed@.take(i + 1)));
        }
        i = i + 1;
    }
    proof {
        assert(trimmed@.take(n as int) =~= trimmed@);
    }
    out
}

/// Parse the raw comma-separated tag string into the ordered normalized tags.
pub fn tags_parse(input: String) -> (r: Vec<String>)
    ensures
        r@.len() == parsed_tags(input@).len(),
        forall|k: int| 0 <= k < r@.len() ==> r@[k]@ == parsed_tags(input@)[k],
{
    let chars = str_to_chars(input.as_str());
    let pieces = split_commas_exec(&chars);
    let mut out: Vec<String> = Vec::new();
    let n = pieces.len();
    let mut i: usize = 0;
    while i < n
        invariant
            i <= n,
            n == pieces@.len(),
            n == split_commas(input@).len(),
            forall|k: int| 0 <= k < n ==> pieces@[k]@ == split_commas(input@)[k],
            out@.len() == i,
            forall|k: int| 0 <= k < i ==> out@[k]@ == parsed_tags(input@)[k],
        decreases n - i,
    {
        let tag = normalize_tag_exec(&pieces[i]);
        out.push(chars_to_string(&tag));
        i = i + 1;
    }
    out
}

/// Join the tags with single spaces into the tag line.
pub fn join_tags(tags: &Vec<String>) -> (r: String)
    ensures
        r@ == join_spaces(tags@.map_values(|t: String| t@)),
{
    let ghost views = tags@.map_values(|t: String| t@);
    let n = tags.len();
    let mut out: Vec<char> = Vec::new();
    let mut i: usize = 0;
    while i < n
        invariant
            i <= n,
            n == tags@.len(),
            views == tags@.map_values(|t: String| t@),
            out@ == join_spaces(views.take(i as int)),
        decreases n - i,
    {
        if i > 0 {
            out.push(' ');
        }
        let mut piece = str_to_chars(tags[i].as_str());
        out.append(&mut piece);
        proof {
            assert(views.take(i + 1).drop_last() =~= views.take(i as int));
            assert(views.take(i + 1).last() == views[i as int]);
            if i == 0 {
                assert(out@ =~= join_spaces(views.take(1)));
            } else {
                assert(out@ =~= join_spaces(views.take(i as int)) + seq![' '] + views[i as int]);
            }
        }
        i = i + 1;
    }
    proof {
        assert(views.take(n as int) =~= views);
    }
    chars_to_string(&out)
}

} // verus!
