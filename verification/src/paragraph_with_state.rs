//! The state of a scrollable pane: its text, its scroll offset, and the
//! wrapped form of the text that was last drawn.

use vstd::prelude::*;
use vstd::string::StringExecFns;
use crate::key_bind::{KeyCode, KeyEvent};
use crate::text::{pop_char, push_char};
use crate::ui::paragraph::{effective_scroll, paragraph, WrappedCache};
use crate::ScrollDirection;

verus! {

/// The version that follows `version`: the next number, or 0 after the
/// largest.
pub open spec fn next_version(version: u64) -> u64 {
    if version == u64::MAX {
        0
    } else {
        (version + 1) as u64
    }
}

/// A new version is never the version before it: a wrapped form that was
/// made for a text does not pass for the wrapped form of the text that
/// follows it.
pub proof fn lemma_next_version_differs(version: u64)
    ensures
        next_version(version) != version,
{
}

/// The text that an editing key leaves of `text`: a character key
/// appends its character, backspace drops the last character, enter
/// appends a carriage return and a line feed.
pub open spec fn edited_text(text: Seq<char>, code: KeyCode) -> Seq<char> {
    match code {
        KeyCode::Char(c) => text.push(c),
        KeyCode::Backspace => if text.len() > 0 {
            text.drop_last()
        } else {
            text
        },
        KeyCode::Enter => text.push('\r').push('\n'),
        _ => text,
    }
}

/// The scroll offset that a step in `direction` leaves of `offset`.
pub open spec fn scrolled(offset: u16, direction: ScrollDirection) -> u16 {
    match direction {
        ScrollDirection::Up => if offset == 0 {
            0
        } else {
            (offset - 1) as u16
        },
        ScrollDirection::Down => if offset == u16::MAX {
            offset
        } else {
            (offset + 1) as u16
        },
    }
}

/// A pane's text with its scroll offset and its wrapped form. Every
/// change of the text gives it a new version and drops the wrapped form,
/// so a wrapped form that is kept always belongs to the text.
pub struct ParagraphWithState {
    value: String,
    cache: Option<WrappedCache>,
    scroll: u16,
    supports_scroll: bool,
    supports_editing: bool,
    version: u64,
}

impl ParagraphWithState {
    #[verifier::type_invariant]
    spec fn cache_fits(self) -> bool {
        self.cache is Some ==> self.cache->0.holds(
            self.value@,
            self.version,
            self.cache->0.columns(),
        )
    }

    /// The text of the pane.
    pub closed spec fn text(&self) -> Seq<char> {
        self.value@
    }

    /// The scroll offset, in rows.
    pub closed spec fn offset(&self) -> u16 {
        self.scroll
    }

    /// The version of the text.
    pub closed spec fn revision(&self) -> u64 {
        self.version
    }

    /// The wrapped form that is kept, if any.
    pub closed spec fn cached(&self) -> Option<WrappedCache> {
        self.cache
    }

    /// Whether the pane scrolls.
    pub closed spec fn scrolls(&self) -> bool {
        self.supports_scroll
    }

    /// Whether the pane takes editing keys.
    pub closed spec fn edits(&self) -> bool {
        self.supports_editing
    }

    /// The pane is as `before` was, but for its text, which is `text`
    /// under a new version and without a wrapped form.
    pub open spec fn is_rewrite_of(&self, before: &Self, text: Seq<char>) -> bool {
        &&& self.text() == text
        &&& self.cached() is None
        &&& self.revision() == next_version(before.revision())
        &&& self.scrolls() == before.scrolls()
        &&& self.edits() == before.edits()
    }

    pub fn new(init_value: String, supports_scroll: bool, supports_editing: bool) -> (r: Self)
        ensures
            r.text() == init_value@,
            r.cached() is None,
            r.offset() == 0,
            r.revision() == 0,
            r.scrolls() == supports_scroll,
            r.edits() == supports_editing,
    {
        ParagraphWithState {
            value: init_value,
            cache: None,
            scroll: 0,
            supports_scroll,
            supports_editing,
            version: 0,
        }
    }

    /// Empties the text and scrolls back to the top.
    pub fn reset(&mut self)
        ensures
            final(self).is_rewrite_of(old(self), Seq::<char>::empty()),
            final(self).offset() == 0,
    {
        self.cache = None;
        self.bump();
        self.scroll = 0;
        self.value = String::new();
    }

    pub fn is_empty(&self) -> (r: bool)
        ensures
            r == (self.text().len() == 0),
    {
        self.value.as_str().is_empty()
    }

    pub fn as_str(&self) -> (r: &str)
        ensures
            r@ == self.text(),
    {
        self.value.as_str()
    }

    /// The scroll offset, in rows.
    pub fn get_scroll(&self) -> (r: u16)
        ensures
            r == self.offset(),
    {
        self.scroll
    }

    /// The version of the text.
    pub fn get_version(&self) -> (r: u64)
        ensures
            r == self.revision(),
    {
        self.version
    }

    /// The wrapped form that is kept, if any. It is the wrapped form of
    /// the pane's text, at the width that it names.
    pub fn get_cache(&self) -> (r: &Option<WrappedCache>)
        ensures
            *r == self.cached(),
            r is Some ==> r->0.holds(self.text(), self.revision(), r->0.columns()),
    {
        proof {
            use_type_invariant(&*self);
        }
        &self.cache
    }

    /// Gives the text a new version. Only called without a wrapped form.
    fn bump(&mut self)
        requires
            old(self).cache is None,
        ensures
            final(self).version == next_version(old(self).version),
            final(self).value == old(self).value,
            final(self).cache is None,
            final(self).scroll == old(self).scroll,
            final(self).supports_scroll == old(self).supports_scroll,
            final(self).supports_editing == old(self).supports_editing,
    {
        if self.version == u64::MAX {
            self.version = 0;
        } else {
            self.version = self.version + 1;
        }
    }

    pub fn set_value(&mut self, value: String)
        ensures
            final(self).is_rewrite_of(old(self), value@),
            final(self).offset() == old(self).offset(),
    {
        self.cache = None;
        self.bump();
        self.value = value;
    }

    pub fn append_value(&mut self, value: String)
        ensures
            final(self).is_rewrite_of(old(self), old(self).text() + value@),
            final(self).offset() == old(self).offset(),
    {
        self.cache = None;
        self.bump();
        let mut text = String::new();
        std::mem::swap(&mut text, &mut self.value);
        text.append(value.as_str());
        self.value = text;
    }

    /// Handles a key press in the pane: the arrows scroll, and character
    /// keys, backspace and enter edit the text, each where the pane
    /// supports it. Any other key changes nothing.
    pub fn handle_input(&mut self, key: KeyEvent)
        ensures
            final(self).is_input_of(old(self), key),
    {
        match key.code {
            KeyCode::Up => self.scroll(ScrollDirection::Up),
            KeyCode::Down => self.scroll(ScrollDirection::Down),
            KeyCode::Char(_) | KeyCode::Backspace | KeyCode::Enter => {
                self.edit(key.code);
            },
            _ => {},
        }
    }

    /// The pane is what the key press `key` makes of `before`.
    pub open spec fn is_input_of(&self, before: &Self, key: KeyEvent) -> bool {
        match key.code {
            KeyCode::Up => self.is_scroll_of(before, ScrollDirection::Up),
            KeyCode::Down => self.is_scroll_of(before, ScrollDirection::Down),
            KeyCode::Char(_) | KeyCode::Backspace | KeyCode::Enter => self.is_edit_of(
                before,
                key.code,
            ),
            _ => *self == *before,
        }
    }

    /// The pane is what an editing key `code` makes of `before`: nothing
    /// new where the pane does not take editing keys; else the edited
    /// text under a new version, without a wrapped form, and after enter
    /// scrolled to the line count of the wrapped form that was kept.
    pub open spec fn is_edit_of(&self, before: &Self, code: KeyCode) -> bool {
        if before.edits() {
            &&& self.is_rewrite_of(before, edited_text(before.text(), code))
            &&& self.offset() == if code == KeyCode::Enter && before.cached() is Some {
                before.cached()->0.breaks()
            } else {
                before.offset()
            }
        } else {
            *self == *before
        }
    }

    /// The pane is what a scroll step in `direction` makes of `before`:
    /// nothing new where the pane does not scroll; else the same pane,
    /// one row further.
    pub open spec fn is_scroll_of(&self, before: &Self, direction: ScrollDirection) -> bool {
        if before.scrolls() {
            &&& self.text() == before.text()
            &&& self.cached() == before.cached()
            &&& self.revision() == before.revision()
            &&& self.scrolls() == before.scrolls()
            &&& self.edits() == before.edits()
            &&& self.offset() == scrolled(before.offset(), direction)
        } else {
            *self == *before
        }
    }

    fn edit(&mut self, code: KeyCode)
        requires
            code is Char || code == KeyCode::Backspace || code == KeyCode::Enter,
        ensures
            final(self).is_edit_of(old(self), code),
    {
        if !self.supports_editing {
            return ;
        }
        let lines: Option<u16> = match &self.cache {
            Some(cache) => Some(cache.get_lines()),
            None => None,
        };
        self.cache = None;
        self.bump();
        let mut text = String::new();
        std::mem::swap(&mut text, &mut self.value);
        match code {
            KeyCode::Char(c) => {
                push_char(&mut text, c);
            },
            KeyCode::Backspace => {
                let _ = pop_char(&mut text);
            },
            KeyCode::Enter => {
                push_char(&mut text, '\r');
                push_char(&mut text, '\n');
                if let Some(lines) = lines {
                    self.scroll = lines;
                }
            },
            _ => {},
        }
        self.value = text;
    }

    /// Scrolls one row in `direction`, where the pane scrolls: up as far
    /// as the top, down as far as sixteen bits count.
    pub fn scroll(&mut self, direction: ScrollDirection)
        ensures
            final(self).is_scroll_of(old(self), direction),
    {
        if !self.supports_scroll {
            return ;
        }
        proof {
            use_type_invariant(&*self);
        }
        match direction {
            ScrollDirection::Up => {
                if self.scroll != 0 {
                    self.scroll = self.scroll - 1;
                }
            },
            ScrollDirection::Down => {
                if self.scroll != u16::MAX {
                    self.scroll = self.scroll + 1;
                }
            },
        }
    }

    /// Takes over a scroll offset and a wrapped form that were laid out
    /// for this pane's text.
    pub fn update(&mut self, update: (u16, WrappedCache))
        requires
            update.1.holds(old(self).text(), old(self).revision(), update.1.columns()),
        ensures
            final(self).offset() == update.0,
            final(self).cached() == Some(update.1),
            final(self).text() == old(self).text(),
            final(self).revision() == old(self).revision(),
            final(self).scrolls() == old(self).scrolls(),
            final(self).edits() == old(self).edits(),
    {
        proof {
            use_type_invariant(&*self);
        }
        self.scroll = update.0;
        self.cache = Some(update.1);
    }

    /// Lays the pane out for a viewport of `width` by `height` cells:
    /// the text is wrapped anew unless the wrapped form that is kept was
    /// made at this width, and the scroll offset is clamped to what the
    /// wrapped text leaves to scroll.
    pub fn refresh(&mut self, width: u16, height: u16)
        ensures
            final(self).text() == old(self).text(),
            final(self).revision() == old(self).revision(),
            final(self).scrolls() == old(self).scrolls(),
            final(self).edits() == old(self).edits(),
            final(self).cached() is Some,
            old(self).cached() is Some && old(self).cached()->0.columns() == width
                ==> final(self).cached() == old(self).cached(),
            final(self).cached()->0.holds(old(self).text(), old(self).revision(), width),
            final(self).offset() == effective_scroll(
                old(self).offset() as int,
                final(self).cached()->0.breaks() as int,
                height as int,
            ),
    {
        proof {
            use_type_invariant(&*self);
        }
        let mut kept: Option<WrappedCache> = None;
        std::mem::swap(&mut kept, &mut self.cache);
        let laid = paragraph(self.value.as_str(), self.version, width, height, self.scroll, kept);
        self.update(laid);
    }
}

} // verus!
