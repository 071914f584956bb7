//! The text-generation collaborator: building the request document sent to
//! the generation endpoint, and extracting the generated `answer` from its
//! response, with literal double quotes stripped from the extracted value.

use vstd::prelude::*;
use vstd::string::StrSliceExecFns;
use vstd::string::StringExecFns;
use crate::text::chars_to_string;

verus! {

/// Why no generated text came back: the response did not arrive, did not
/// parse as JSON, or carried no string `answer` field.
#[derive(Clone, Copy, Debug, PartialEq, Eq, Structural)]
pub enum GenerationError {
    MalformedAnswer,
}

/// The string value of the `answer` field of the JSON document `body`, if
/// `body` parses as a JSON object with a string `answer` field. What it is
/// on a given text is decided by the JSON grammar and is not restated here.
pub uninterp spec fn answer_of(body: Seq<char>) -> Option<Seq<char>>;

/// Relies on serde_json's `from_str`, `Value::get` and the `Value::String`
/// variant: the string value of the top-level `answer` field of the parsed
/// document, `None` where the text does not parse or the field is absent or
/// not a string. The result is a function of the response text alone.
#[verifier::external_body]
fn answer_field(body: &str) -> (r: Option<String>)
    ensures
        r is Some <==> answer_of(body@) is Some,
        r matches Some(s) ==> s@ == answer_of(body@).unwrap(),
{
    match serde_json::from_str::<serde_json::Value>(body) {
        Ok(v) => match v.get("answer") {
            Some(serde_json::Value::String(s)) => Some(s.clone()),
            _ => None,
        },
        Err(_) => None,
    }
}

/// `s` with every literal double-quote character removed.
pub open spec fn remove_quotes(s: Seq<char>) -> Seq<char>
    decreases s.len(),
{
    if s.len() == 0 {
        Seq::empty()
    } else {
        remove_quotes(s.drop_last()) + (if s.last() == '"' {
            Seq::<char>::empty()
        } else {
            seq![s.last()]
        })
    }
}

fn remove_quotes_exec(s: &str) -> (r: String)
    ensures
        r@ == remove_quotes(s@),
{
    let n = s.unicode_len();
    let mut out: Vec<char> = Vec::new();
    let mut i: usize = 0;
    while i < n
        invariant
            i <= n,
            n == s@.len(),
            out@ == remove_quotes(s@.take(i as int)),
        decreases n - i,
    {
        let c = s.get_char(i);
        if c != '"' {
            out.push(c);
        }
        proof {
            assert(s@.take(i + 1).drop_last() =~= s@.take(i as int));
            assert(s@.take(i + 1).last() == s@[i as int]);
            assert(out@ =~= remove_quotes(s@.take(i + 1)));
        }
        i = i + 1;
    }
    proof {
        assert(s@.take(n as int) =~= s@);
    }
    chars_to_string(&out)
}

/// The generated text of one response: the `answer` field with any literal
/// double quotes stripped, or a `GenerationError` where the response carries
/// no string `answer`.
pub fn extract_answer(body: &str) -> (r: Result<String, GenerationError>)
    ensures
        r matches Ok(s) ==> answer_of(body@) is Some && s@ == remove_quotes(
            answer_of(body@).unwrap(),
        ),
        r is Err <==> answer_of(body@) is None,
{
    match answer_field(body) {
        Some(ans) => Ok(remove_quotes_exec(ans.as_str())),
        None => Err(GenerationError::MalformedAnswer),
    }
}

/// The character for one hexadecimal digit.
pub open spec fn hex_char(d: int) -> char {
    if d == 0 {
        '0'
    } else if d == 1 {
        '1'
    } else if d == 2 {
        '2'
    } else if d == 3 {
        '3'
    } else if d == 4 {
        '4'
    } else if d == 5 {
        '5'
    } else if d == 6 {
        '6'
    } else if d == 7 {
        '7'
    } else if d == 8 {
        '8'
    } else if d == 9 {
        '9'
    } else if d == 10 {
        'a'
    } else if d == 11 {
        'b'
    } else if d == 12 {
        'c'
    } else if d == 13 {
        'd'
    } else if d == 14 {
        'e'
    } else {
        'f'
    }
}

/// How one character is written inside a JSON string literal.
pub open spec fn json_escape_char(c: char) -> Seq<char> {
    if c == '"' {
        seq!['\\', '"']
    } else if c == '\\' {
        seq!['\\', '\\']
    } else if c == '\n' {
        seq!['\\', 'n']
    } else if c == '\r' {
        seq!['\\', 'r']
    } else if c == '\t' {
        seq!['\\', 't']
    } else if (c as u32) < 32 {
        seq!['\\', 'u', '0', '0', hex_char((c as u32 / 16) as int), hex_char((c as u32 % 16) as int)]
    } else {
        seq![c]
    }
}

/// The body of a JSON string literal holding `s`.
pub open spec fn json_escape(s: Seq<char>) -> Seq<char>
    decreases s.len(),
{
    if s.len() == 0 {
        Seq::empty()
    } else {
        json_escape(s.drop_last()) + json_escape_char(s.last())
    }
}

/// The JSON string literal holding `s`, quotes included.
pub open spec fn json_quoted(s: Seq<char>) -> Seq<char> {
    seq!['"'] + json_escape(s) + seq!['"']
}

fn hex_exec(d: u32) -> (c: char)
    requires
        d < 16,
    ensures
        c == hex_char(d as int),
{
    if d == 0 {
        '0'
    } else if d == 1 {
        '1'
    } else if d == 2 {
        '2'
    } else if d == 3 {
        '3'
    } else if d == 4 {
        '4'
    } else if d == 5 {
        '5'
    } else if d == 6 {
        '6'
    } else if d == 7 {
        '7'
    } else if d == 8 {
        '8'
    } else if d == 9 {
        '9'
    } else if d == 10 {
        'a'
    } else if d == 11 {
        'b'
    } else if d == 12 {
        'c'
    } else if d == 13 {
        'd'
    } else if d == 14 {
        'e'
    } else {
        'f'
    }
}

/// Write `s` as a JSON string literal.
pub fn json_quoted_exec(s: &str) -> (r: String)
    ensures
        r@ == json_quoted(s@),
{
    let n = s.unicode_len();
    let mut out: Vec<char> = Vec::new();
    out.push('"');
    let mut i: usize = 0;
    while i < n
        invariant
            i <= n,
            n == s@.len(),
            out@ == seq!['"'] + json_escape(s@.take(i as int)),
        decreases n - i,
    {
        let c = s.get_char(i);
        if c == '"' {
            out.push('\\');
            out.push('"');
        } else if c == '\\' {
            out.push('\\');
            out.push('\\');
        } else if c == '\n' {
            out.push('\\');
            out.push('n');
        } else if c == '\r' {
            out.push('\\');
            out.push('r');
        } else if c == '\t' {
            out.push('\\');
            out.push('t');
        } else {
            let code = c as u32;
            if code < 32 {
                out.push('\\');
                out.push('u');
                out.push('0');
                out.push('0');
                out.push(hex_exec(code / 16));
                out.push(hex_exec(code % 16));
            } else {
                out.push(c);
            }
        }
        proof {
            assert(s@.take(i + 1).drop_last() =~= s@.take(i as int));
            assert(s@.take(i + 1).last() == s@[i as int]);
            assert(out@ =~= seq!['"'] + json_escape(s@.take(i + 1)));
        }
        i = i + 1;
    }
    out.push('"');
    proof {
        assert(s@.take(n as int) =~= s@);
        assert(out@ =~= json_quoted(s@));
    }
    chars_to_string(&out)
}

/// The request document sent to the generation endpoint: one system message
/// holding the fixed instruction and one user message holding the text.
pub open spec fn request_body_view(system: Seq<char>, user: Seq<char>) -> Seq<char> {
    "{\"messages\":[{\"role\":\"system\",\"content\":"@ + json_quoted(system)
        + "},{\"role\":\"user\",\"content\":"@ + json_quoted(user) + "}]}"@
}

/// Build the request document for one generation call.
pub fn generation_request_body(system: &str, user: &str) -> (r: String)
    ensures
        r@ == request_body_view(system@, user@),
{
    let mut out = String::from_str("{\"messages\":[{\"role\":\"system\",\"content\":");
    let quoted_system = json_quoted_exec(system);
    out.append(quoted_system.as_str());
    out.append("},{\"role\":\"user\",\"content\":");
    let quoted_user = json_quoted_exec(user);
    out.append(quoted_user.as_str());
    out.append("}]}");
    out
}

/// The fixed instruction for the title call: a short first-person title of
/// at most eighty characters, without double quotes.
pub open spec fn title_prompt_view() -> Seq<char> {
    "Write a very short title for the note, in the author's first person, at most 80 characters, without double quotes."@
}

/// The fixed instruction for the title call.
pub fn title_prompt() -> (r: &'static str)
    ensures
        r@ == title_prompt_view(),
{
    "Write a very short title for the note, in the author's first person, at most 80 characters, without double quotes."
}

/// The fixed instruction for the tag call: comma-separated tags, no quote
/// characters, no `#` prefix, underscores instead of spaces.
pub open spec fn tags_prompt_view() -> Seq<char> {
    "List comma-separated tags describing the key elements of the text. Do not use double or single quotes. Never add #. Never put spaces inside a tag, use an underscore instead."@
}

/// The fixed instruction for the tag call.
pub fn tags_prompt() -> (r: &'static str)
    ensures
        r@ == tags_prompt_view(),
{
    "List comma-separated tags describing the key elements of the text. Do not use double or single quotes. Never add #. Never put spaces inside a tag, use an underscore instead."
}

} // verus!
