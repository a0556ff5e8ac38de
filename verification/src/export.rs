//! The name of the file that an answer is exported to.

use vstd::prelude::*;
use vstd::string::StringExecFns;
use vstd::utf8::encode_utf8;
use crate::text::{replace, replaced, to_chars, to_text};

verus! {

/// Whether a character can stand in the name of an exported file: not a
/// path separator or another character that file systems reserve, and
/// not a control character.
pub open spec fn file_name_char(c: char) -> bool {
    &&& c != '/' && c != '?' && c != '<' && c != '>' && c != '\\' && c != ':' && c != '*' && c
        != '|' && c != '"'
    &&& !(c <= '\u{1f}')
    &&& !('\u{80}' <= c <= '\u{9f}')
}

/// Whether a text can be the stem of an exported file's name: at most
/// 255 bytes, of characters that can stand in a file name.
pub open spec fn file_stem(stem: Seq<char>) -> bool {
    &&& encode_utf8(stem).len() <= 255
    &&& forall|i: int| 0 <= i < stem.len() ==> file_name_char(#[trigger] stem[i])
}

/// `part` is what is left of `whole` when some of its characters are
/// taken out.
pub open spec fn is_remainder_of(part: Seq<char>, whole: Seq<char>) -> bool
    decreases whole.len(),
{
    if part.len() == 0 {
        true
    } else if whole.len() == 0 {
        false
    } else if part[0] == whole[0] && is_remainder_of(part.drop_first(), whole.drop_first()) {
        true
    } else {
        is_remainder_of(part, whole.drop_first())
    }
}

/// Makes a file name's stem of `name` by `sanitize_filename::sanitize`.
/// It only takes characters out, and what it takes out beyond the
/// reserved and the control characters depends on the platform. So this
/// much is claimed: the result is what is left of `name`, holds none of
/// those characters, and is at most 255 bytes long.
#[verifier::external_body]
pub(crate) fn sanitize(name: &str) -> (r: String)
    ensures
        file_stem(r@),
        is_remainder_of(r@, name@),
{
    sanitize_filename::sanitize(name)
}

/// A URL with its scheme and path separators replaced by underscores:
/// first each `://`, then each `/`, then each `:`.
pub open spec fn underscored(url: Seq<char>) -> Seq<char> {
    replaced(replaced(replaced(url, "://"@, "_"@), "/"@, "_"@), ":"@, "_"@)
}

/// The text that is made into a file name for the answer to `url`.
pub fn export_source(url: &str) -> (r: String)
    ensures
        r@ == underscored(url@),
{
    let underscore = to_chars("_");
    let chars = to_chars(url);
    let first = replace(&chars, &to_chars("://"), &underscore);
    let second = replace(&first, &to_chars("/"), &underscore);
    let third = replace(&second, &to_chars(":"), &underscore);
    let out = to_text(&third, 0, third.len());
    assert(third@.subrange(0, third.len() as int) =~= third@);
    out
}

/// The name of the file for a stem: the stem with the extension `.txt`.
pub fn export_name(stem: String) -> (r: String)
    ensures
        r@ == stem@ + ".txt"@,
{
    let mut name = stem;
    name.append(".txt");
    name
}

/// Whether `name` can be the name of the file that the answer to `url`
/// is exported to: a stem made of what is left of the URL with its
/// separators replaced, fit for a file name, with the extension `.txt`.
pub open spec fn export_file_name(name: Seq<char>, url: Seq<char>) -> bool {
    exists|stem: Seq<char>|
        file_stem(stem) && is_remainder_of(stem, underscored(url)) && name == #[trigger] (stem
            + ".txt"@)
}

} // verus!
