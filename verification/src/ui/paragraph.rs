//! Word-wrapped text for a scrollable pane: the wrapped form is kept
//! with the version of the content and the width that it was made for,
//! and made again only when one of the two changes.

use vstd::prelude::*;
use vstd::utf8::*;
use crate::ui::text_area::{count_newlines, newlines_before};

verus! {

/// What `textwrap::fill` returns for a text and a width.
pub uninterp spec fn filled(text: Seq<char>, width: int) -> Seq<char>;

/// Wraps `text` to lines of at most `width` columns by `textwrap::fill`
/// with its default options. The result is named, not described: it is
/// whatever that function returns for this text and this width.
#[verifier::external_body]
fn fill(text: &str, width: usize) -> (r: String)
    ensures
        r@ == filled(text@, width as int),
{
    textwrap::fill(text, width)
}

/// The wrapped form of `text` at `width` columns. A width of zero leaves
/// the text as it is.
pub open spec fn wrapped_text(text: Seq<char>, width: int) -> Seq<char> {
    if width == 0 {
        text
    } else {
        filled(text, width)
    }
}

/// Number of line breaks in `text`, as far as sixteen bits count.
pub open spec fn line_count(text: Seq<char>) -> int {
    let breaks = newlines_before(encode_utf8(text), encode_utf8(text).len() as int);
    if breaks > u16::MAX {
        u16::MAX as int
    } else {
        breaks as int
    }
}

/// The scroll offset that is shown for a requested one: the request, but
/// no more than the lines that do not fit the viewport, plus one.
pub open spec fn effective_scroll(requested: int, lines: int, height: int) -> int {
    let limit = if lines - height + 1 > 0 {
        lines - height + 1
    } else {
        0
    };
    if requested < limit {
        requested
    } else {
        limit
    }
}

/// A wrapped text, with the version of the content and the width that it
/// was made for, and its number of line breaks.
pub struct WrappedCache {
    id: u64,
    width: u16,
    wrapped: String,
    lines: u16,
}

impl WrappedCache {
    /// Version of the content that was wrapped.
    pub closed spec fn version(&self) -> u64 {
        self.id
    }

    /// Width that the content was wrapped to.
    pub closed spec fn columns(&self) -> u16 {
        self.width
    }

    /// The wrapped text.
    pub closed spec fn text(&self) -> Seq<char> {
        self.wrapped@
    }

    /// Number of line breaks in the wrapped text.
    pub closed spec fn breaks(&self) -> u16 {
        self.lines
    }

    /// The cache holds the wrapped form of `text` at `width` columns,
    /// under the version `version`.
    pub open spec fn holds(&self, text: Seq<char>, version: u64, width: u16) -> bool {
        &&& self.version() == version
        &&& self.columns() == width
        &&& self.text() == wrapped_text(text, width as int)
        &&& self.breaks() == line_count(self.text())
    }

    /// A cache entry for an already wrapped text.
    pub fn from_wrapped(version: u64, width: u16, wrapped: String) -> (r: Self)
        ensures
            r.version() == version,
            r.columns() == width,
            r.text() == wrapped@,
            r.breaks() == line_count(wrapped@),
    {
        let n: usize = wrapped.as_str().as_bytes().len();
        let (count, _, _) = count_newlines(wrapped.as_str(), n);
        let lines: u16 = if count > 65535 {
            65535
        } else {
            count as u16
        };
        WrappedCache { id: version, width, wrapped, lines }
    }

    pub fn get_lines(&self) -> (r: u16)
        ensures
            r == self.breaks(),
    {
        self.lines
    }

    /// The wrapped text.
    pub fn as_str(&self) -> (r: &str)
        ensures
            r@ == self.text(),
    {
        self.wrapped.as_str()
    }

    /// Version of the content that was wrapped.
    pub fn get_version(&self) -> (r: u64)
        ensures
            r == self.version(),
    {
        self.id
    }

    /// Width that the content was wrapped to.
    pub fn get_width(&self) -> (r: u16)
        ensures
            r == self.columns(),
    {
        self.width
    }
}

/// Wraps `text` to `width` columns and counts its line breaks.
pub fn make_cache(text: &str, version: u64, width: u16) -> (r: WrappedCache)
    ensures
        r.holds(text@, version, width),
{
    let wrapped = if width == 0 {
        text.to_owned()
    } else {
        fill(text, width as usize)
    };
    WrappedCache::from_wrapped(version, width, wrapped)
}

/// The cache to draw `text` with: the given one where it was made for
/// this version and this width, else a new one. The flag says whether the
/// text was wrapped anew.
pub fn get_or_build(text: &str, version: u64, width: u16, cache: Option<WrappedCache>) -> (r: (
    WrappedCache,
    bool,
))
    ensures
        r.1 == !(cache is Some && cache->0.version() == version && cache->0.columns() == width),
        !r.1 ==> r.0 == cache->0,
        r.1 ==> r.0.holds(text@, version, width),
{
    match cache {
        None => (make_cache(text, version, width), true),
        Some(cache) => {
            if cache.id != version || cache.width != width {
                (make_cache(text, version, width), true)
            } else {
                (cache, false)
            }
        },
    }
}

/// Clamps a requested scroll offset to what `lines` line breaks leave to
/// scroll in a viewport of `height` rows.
pub fn clamp_scroll(scroll: u16, lines: u16, height: u16) -> (r: u16)
    ensures
        r == effective_scroll(scroll as int, lines as int, height as int),
        0 <= r <= scroll,
        lines < height ==> r == 0,
        lines >= height ==> r <= lines - height + 1,
{
    if lines >= height {
        let hidden: u16 = lines - height;
        if scroll <= hidden {
            scroll
        } else {
            hidden + 1
        }
    } else {
        0
    }
}

/// Lays out a pane of `width` by `height` cells for `text`: the cache to
/// draw from, reused where it fits the version and the width, and the
/// scroll offset to draw at.
pub fn paragraph(
    text: &str,
    version: u64,
    width: u16,
    height: u16,
    scroll: u16,
    cache: Option<WrappedCache>,
) -> (r: (u16, WrappedCache))
    ensures
        cache is Some && cache->0.version() == version && cache->0.columns() == width ==> r.1
            == cache->0,
        !(cache is Some && cache->0.version() == version && cache->0.columns() == width)
            ==> r.1.holds(text@, version, width),
        r.0 == effective_scroll(scroll as int, r.1.breaks() as int, height as int),
{
    let (current, _) = get_or_build(text, version, width, cache);
    let capped: u16 = clamp_scroll(scroll, current.get_lines(), height);
    (capped, current)
}

} // verus!
