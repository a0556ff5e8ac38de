//! The messages of an answer as text: the headers as one line, the type
//! of content that they give, and the text that is shown for a chunk of
//! the body.

use vstd::prelude::*;
use vstd::string::StringExecFns;
use vstd::utf8::{decode_utf8, valid_utf8};
use crate::persistence::{debug_quoted, quoted, KeyValuePair};
use crate::text::{occurs_in, push_char};

verus! {

/// What `jsonxf::pretty_print` returns for a text: the pretty-printed
/// text, or nothing where it gives an error.
pub uninterp spec fn pretty_json(text: Seq<char>) -> Option<Seq<char>>;

/// Pretty-prints `text` as JSON by `jsonxf::pretty_print`. The result is
/// named, not described: it is whatever that function returns for this
/// text, with `None` for its error.
#[verifier::external_body]
pub(crate) fn pretty_print(text: &str) -> (r: Option<String>)
    ensures
        r is Some <==> pretty_json(text@) is Some,
        r is Some ==> r->0@ == pretty_json(text@)->0,
{
    jsonxf::pretty_print(text).ok()
}

/// What `String::from_utf8_lossy` returns for some bytes.
pub uninterp spec fn lossy_text(bytes: Seq<u8>) -> Seq<char>;

/// Reads `bytes` as text by `String::from_utf8_lossy`: valid UTF-8 is
/// decoded as it stands; what is not valid is replaced as that function
/// sees fit.
#[verifier::external_body]
pub(crate) fn decode_lossy(bytes: &Vec<u8>) -> (r: String)
    ensures
        r@ == lossy_text(bytes@),
        valid_utf8(bytes@) ==> r@ == decode_utf8(bytes@),
{
    String::from_utf8_lossy(bytes).into_owned()
}

/// The headers of an answer as one line of text: in braces, each name
/// and value formatted with `{:?}` with a colon and a space between
/// them, the headers from the one at `i` on separated by a comma and a
/// space.
pub open spec fn headers_line_from(pairs: Seq<KeyValuePair>, i: int) -> Seq<char>
    decreases pairs.len() - i,
{
    if i >= pairs.len() {
        seq!['}']
    } else if i == pairs.len() - 1 {
        quoted(pairs[i].key@) + seq![':', ' '] + quoted(pairs[i].value@) + seq!['}']
    } else {
        quoted(pairs[i].key@) + seq![':', ' '] + quoted(pairs[i].value@) + seq![',', ' ']
            + headers_line_from(pairs, i + 1)
    }
}

/// The headers of an answer as one line of text.
pub open spec fn headers_line(pairs: Seq<KeyValuePair>) -> Seq<char> {
    seq!['{'] + headers_line_from(pairs, 0)
}

/// Writes the headers of an answer as one line of text.
pub fn format_headers(pairs: &Vec<KeyValuePair>) -> (r: String)
    ensures
        r@ == headers_line(pairs@),
{
    let n: usize = pairs.len();
    let mut tail = String::new();
    push_char(&mut tail, '}');
    let mut i: usize = n;
    assert(tail@ =~= headers_line_from(pairs@, n as int));
    while i > 0
        invariant
            i <= n,
            n == pairs.len(),
            tail@ == headers_line_from(pairs@, i as int),
        decreases i,
    {
        i = i - 1;
        let mut line = debug_quoted(pairs[i].key.as_str());
        push_char(&mut line, ':');
        push_char(&mut line, ' ');
        let value = debug_quoted(pairs[i].value.as_str());
        line.append(value.as_str());
        if i + 1 < n {
            push_char(&mut line, ',');
            push_char(&mut line, ' ');
        }
        line.append(tail.as_str());
        tail = line;
        assert(tail@ =~= headers_line_from(pairs@, i as int));
    }
    let mut out = String::new();
    push_char(&mut out, '{');
    out.append(tail.as_str());
    assert(out@ =~= headers_line(pairs@));
    out
}

/// Index of the first header named `name` among the first `n` headers.
pub open spec fn header_position(pairs: Seq<KeyValuePair>, name: Seq<char>, n: int) -> Option<int>
    decreases n,
{
    if n <= 0 {
        None
    } else {
        match header_position(pairs, name, n - 1) {
            Some(i) => Some(i),
            None => if pairs[n - 1].key@ == name {
                Some(n - 1)
            } else {
                None
            },
        }
    }
}

/// The type of content that an answer's headers give: the value of the
/// first `content-type` header, or `fallback` where there is none.
pub open spec fn content_type_of(pairs: Seq<KeyValuePair>, fallback: Seq<char>) -> Seq<char> {
    match header_position(pairs, "content-type"@, pairs.len() as int) {
        Some(i) => pairs[i].value@,
        None => fallback,
    }
}

/// Finds the type of content that an answer's headers give.
pub fn find_content_type(pairs: &Vec<KeyValuePair>, fallback: String) -> (r: String)
    ensures
        r@ == content_type_of(pairs@, fallback@),
{
    let name = "content-type".to_owned();
    let mut i: usize = 0;
    while i < pairs.len()
        invariant
            i <= pairs.len(),
            name@ == "content-type"@,
            header_position(pairs@, name@, i as int) is None,
        decreases pairs.len() - i,
    {
        if pairs[i].key == name {
            proof {
                lemma_header_position_stays(pairs@, name@, i as int + 1, pairs.len() as int);
            }
            return pairs[i].value.clone();
        }
        i = i + 1;
    }
    fallback
}

/// A header found among the first `n` headers is the first of its name
/// among any more of them.
pub proof fn lemma_header_position_stays(pairs: Seq<KeyValuePair>, name: Seq<char>, n: int, m: int)
    requires
        0 <= n <= m,
        header_position(pairs, name, n) is Some,
    ensures
        header_position(pairs, name, m) == header_position(pairs, name, n),
    decreases m - n,
{
    if n < m {
        lemma_header_position_stays(pairs, name, n, m - 1);
    }
}

/// The text that is shown for a decoded chunk of a body: pretty-printed
/// where the type of content names JSON and the pretty-printer gives a
/// result, else as it is.
pub open spec fn shown_text(decoded: Seq<char>, content_type: Seq<char>) -> Seq<char> {
    if occurs_in(content_type, "json"@) && pretty_json(decoded) is Some {
        pretty_json(decoded)->0
    } else {
        decoded
    }
}

/// Chooses the text to show for a decoded chunk, given what the
/// pretty-printer made of it.
pub fn choose_text(decoded: String, pretty: Option<String>, is_json: bool) -> (r: String)
    ensures
        r == if is_json && pretty is Some {
            pretty->0
        } else {
            decoded
        },
{
    if is_json {
        match pretty {
            Some(text) => text,
            None => decoded,
        }
    } else {
        decoded
    }
}

} // verus!
