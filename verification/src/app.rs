//! The application's state and what each key press and each message of
//! an answer makes of it. What has to happen outside (sending a request,
//! writing a file, leaving) is handed back as an effect.

use vstd::prelude::*;
use vstd::view::View as _;
use crate::default_key_binds::{bound_at, default_key_binds, default_table};
use crate::key_bind::{KeyBind, KeyCode, KeyEvent, KeyModifiers};
use crate::paragraph_with_state::ParagraphWithState;
use crate::answer::{
    choose_text, content_type_of, decode_lossy, find_content_type, format_headers, headers_line,
    lossy_text, pretty_json, pretty_print, shown_text,
};
use crate::export::{export_file_name, export_name, export_source, sanitize};
use crate::persistence::{
    entries_of, header_entries, joined_from, upserted, RequestBuilder, RequestCollection,
};
use crate::text::{contains, pop_char, push_char, to_chars};
use crate::ui::text_area::{EditCommand, EditState};
use crate::{Method, Operation, Request, Response};

verus! {

/// The half of the screen that is shown.
#[derive(Copy, Clone, PartialEq, Eq, Structural, Debug)]
pub enum View {
    Request,
    Response,
}

/// The field or pane that has the input focus.
#[derive(Copy, Clone, PartialEq, Eq, Structural, Debug)]
pub enum Mode {
    Url,
    Method,
    RequestHeaders,
    RequestBody,
    ResponseHeaders,
    ResponseBody,
}

/// The overlay that is open, if any.
#[derive(Copy, Clone, PartialEq, Eq, Structural, Debug)]
pub enum Modal {
    Save,
    Requests,
    Closed,
}

/// What a key press asks of the world outside the state.
#[derive(Debug)]
pub enum Effect {
    /// Nothing.
    Nothing,
    /// Leave the application.
    Quit,
    /// Send this request to the network worker.
    Dispatch(Request),
    /// Write the collection of presets to its file.
    Persist,
    /// Write `contents` to the file `file_name`.
    Export { file_name: String, contents: String },
}

/// The state of the application.
pub struct App {
    pub url: EditState,
    pub mode: Mode,
    pub method: Method,
    pub headers: EditState,
    pub body: EditState,
    pub response: Option<Vec<u8>>,
    pub response_paragraph: ParagraphWithState,
    pub response_header_paragraph: ParagraphWithState,
    pub dirty: bool,
    pub failed: bool,
    pub modal: Modal,
    pub view: View,
    pub request_name: String,
    pub request_collection: RequestCollection,
    pub request_selection: Option<usize>,
    pub key_binds: Vec<KeyBind>,
    pub status: u16,
    pub content_type: String,
}

/// The method that follows `method` in the cycle of methods.
pub open spec fn method_after(method: Method) -> Method {
    match method {
        Method::GET => Method::POST,
        Method::POST => Method::PUT,
        Method::PUT => Method::DELETE,
        Method::DELETE => Method::PATCH,
        Method::PATCH => Method::GET,
    }
}

/// The three modes that a view cycles through.
pub open spec fn modes_of(view: View) -> Seq<Mode> {
    match view {
        View::Request => seq![Mode::Url, Mode::RequestBody, Mode::RequestHeaders],
        View::Response => seq![Mode::Url, Mode::ResponseBody, Mode::ResponseHeaders],
    }
}

/// Place of `mode` among the modes of `view`, or 0 where it is not one
/// of them.
pub open spec fn mode_index(view: View, mode: Mode) -> int {
    if modes_of(view)[1] == mode {
        1
    } else if modes_of(view)[2] == mode {
        2
    } else {
        0
    }
}

/// The mode that follows `mode` in the cycle of `view`, or the one
/// before it where `previous` is set.
pub open spec fn mode_after(view: View, mode: Mode, previous: bool) -> Mode {
    let index = mode_index(view, mode);
    if previous {
        modes_of(view)[(index + 2) % 3]
    } else {
        modes_of(view)[(index + 1) % 3]
    }
}

/// The type of content that is taken for an answer without one.
pub open spec fn plain_text() -> Seq<char> {
    "text/plain"@
}

impl App {
    /// The application at its start, with the presets that were loaded.
    pub fn new(request_collection: RequestCollection) -> (r: Self)
        ensures
            r.url.text().len() == 0,
            r.headers.text().len() == 0,
            r.body.text().len() == 0,
            r.mode == Mode::Url,
            r.method == Method::GET,
            r.response is None,
            r.response_paragraph.text().len() == 0,
            r.response_paragraph.scrolls() && !r.response_paragraph.edits(),
            r.response_header_paragraph.text().len() == 0,
            r.response_header_paragraph.scrolls() && !r.response_header_paragraph.edits(),
            !r.dirty,
            !r.failed,
            r.modal == Modal::Closed,
            r.view == View::Request,
            r.request_name@.len() == 0,
            r.request_collection == request_collection,
            r.request_selection is None,
            r.key_binds@ == default_table(),
            r.status == 0,
            r.content_type@ == plain_text(),
    {
        proof {
            reveal_strlit("");
        }
        App {
            url: EditState::new(""),
            headers: EditState::new(""),
            body: EditState::new(""),
            mode: Mode::Url,
            method: Method::GET,
            response: None,
            response_paragraph: ParagraphWithState::new(String::new(), true, false),
            dirty: false,
            failed: false,
            response_header_paragraph: ParagraphWithState::new(String::new(), true, false),
            modal: Modal::Closed,
            request_name: String::new(),
            request_collection,
            request_selection: None,
            view: View::Request,
            key_binds: default_key_binds(),
            status: 0,
            content_type: "text/plain".to_owned(),
        }
    }

    /// The request form is as in `other`.
    pub open spec fn same_form(&self, other: &Self) -> bool {
        &&& self.url == other.url
        &&& self.method == other.method
        &&& self.headers == other.headers
        &&& self.body == other.body
    }

    /// What was received of an answer is as in `other`.
    pub open spec fn same_answer(&self, other: &Self) -> bool {
        &&& self.response == other.response
        &&& self.response_paragraph == other.response_paragraph
        &&& self.response_header_paragraph == other.response_header_paragraph
        &&& self.dirty == other.dirty
        &&& self.failed == other.failed
        &&& self.status == other.status
        &&& self.content_type == other.content_type
    }

    /// Focus, view and overlay are as in `other`.
    pub open spec fn same_focus(&self, other: &Self) -> bool {
        &&& self.mode == other.mode
        &&& self.view == other.view
        &&& self.modal == other.modal
    }

    /// The presets, the selection among them, the name typed for a new
    /// one and the key bindings are as in `other`.
    pub open spec fn same_store(&self, other: &Self) -> bool {
        &&& self.request_name == other.request_name
        &&& self.request_collection == other.request_collection
        &&& self.request_selection == other.request_selection
        &&& self.key_binds == other.key_binds
    }

    /// Moves on to the next method of the cycle.
    pub fn next_method(&mut self)
        ensures
            final(self).method == method_after(old(self).method),
            final(self).url == old(self).url,
            final(self).headers == old(self).headers,
            final(self).body == old(self).body,
            final(self).same_answer(old(self)),
            final(self).same_focus(old(self)),
            final(self).same_store(old(self)),
    {
        self.method =
        match self.method {
            Method::GET => Method::POST,
            Method::POST => Method::PUT,
            Method::PUT => Method::DELETE,
            Method::DELETE => Method::PATCH,
            Method::PATCH => Method::GET,
        };
    }

    /// Moves the focus to the next mode of the view's cycle, or to the
    /// one before where `previous` is set.
    pub fn next_mode(&mut self, previous: bool)
        ensures
            final(self).mode == mode_after(old(self).view, old(self).mode, previous),
            final(self).view == old(self).view,
            final(self).modal == old(self).modal,
            final(self).same_form(old(self)),
            final(self).same_answer(old(self)),
            final(self).same_store(old(self)),
    {
        let (second, third) = match self.view {
            View::Request => (Mode::RequestBody, Mode::RequestHeaders),
            View::Response => (Mode::ResponseBody, Mode::ResponseHeaders),
        };
        let index: usize = if self.mode == second {
            1
        } else if self.mode == third {
            2
        } else {
            0
        };
        let target: usize = if previous {
            if index > 0 {
                index - 1
            } else {
                2
            }
        } else if index < 2 {
            index + 1
        } else {
            0
        };
        self.mode =
        if target == 0 {
            Mode::Url
        } else if target == 1 {
            second
        } else {
            third
        };
    }

    /// The selection after `current` in a list of `size` items, back to
    /// the first after the last.
    pub fn list_next(size: usize, current: usize) -> (r: usize)
        requires
            size > 0,
        ensures
            r == if current >= size - 1 {
                0
            } else {
                current + 1
            },
            current < size ==> r == (current + 1) % (size as int),
            r < size,
    {
        proof {
            let next = current + 1;
            let n = size as int;
            if next == n {
                assert(next % n == 0) by (nonlinear_arith)
                    requires
                        next == n,
                        n > 0,
                ;
            } else if next < n {
                assert(next % n == next) by (nonlinear_arith)
                    requires
                        0 <= next < n,
                ;
            }
        }
        if current >= size - 1 {
            0
        } else {
            current + 1
        }
    }

    /// The selection before `current` in a list of `size` items, on to
    /// the last before the first.
    pub fn list_previous(size: usize, current: usize) -> (r: usize)
        requires
            size > 0,
        ensures
            r == if current == 0 {
                size - 1
            } else {
                current - 1
            },
    {
        if current == 0 {
            size - 1
        } else {
            current - 1
        }
    }

    /// Shows `view`. A change of view moves the focus to the URL.
    pub fn set_view(&mut self, view: View)
        ensures
            final(self).view == view,
            final(self).mode == if old(self).view == view {
                old(self).mode
            } else {
                Mode::Url
            },
            final(self).modal == old(self).modal,
            final(self).same_form(old(self)),
            final(self).same_answer(old(self)),
            final(self).same_store(old(self)),
    {
        if self.view != view {
            self.view = view;
            self.mode = Mode::Url;
        }
    }

    /// The answer was cleared: no bytes, no text, no status, no failure,
    /// and plain text as the type of content.
    pub open spec fn answer_cleared(&self, before: &Self) -> bool {
        &&& self.response is None
        &&& self.response_paragraph.is_rewrite_of(&before.response_paragraph, Seq::<char>::empty())
        &&& self.response_paragraph.offset() == 0
        &&& self.response_header_paragraph.is_rewrite_of(
            &before.response_header_paragraph,
            Seq::<char>::empty(),
        )
        &&& self.response_header_paragraph.offset() == 0
        &&& self.dirty == before.dirty
        &&& !self.failed
        &&& self.status == before.status
        &&& self.content_type@ == plain_text()
    }

    /// Clears what was received of the last answer.
    pub fn reset(&mut self)
        ensures
            final(self).answer_cleared(old(self)),
            final(self).same_form(old(self)),
            final(self).same_focus(old(self)),
            final(self).same_store(old(self)),
    {
        self.response_paragraph.reset();
        self.response_header_paragraph.reset();
        self.response = None;
        self.failed = false;
        self.content_type = "text/plain".to_owned();
    }

    /// Reads the flag that asks for a redraw, and clears it.
    pub fn take_dirty(&mut self) -> (r: bool)
        ensures
            r == old(self).dirty,
            !final(self).dirty,
            final(self).response == old(self).response,
            final(self).response_paragraph == old(self).response_paragraph,
            final(self).response_header_paragraph == old(self).response_header_paragraph,
            final(self).failed == old(self).failed,
            final(self).status == old(self).status,
            final(self).content_type == old(self).content_type,
            final(self).same_form(old(self)),
            final(self).same_focus(old(self)),
            final(self).same_store(old(self)),
    {
        let dirty = self.dirty;
        self.dirty = false;
        dirty
    }

    /// Clears the last answer and gives the request that the form holds,
    /// to be sent to the network worker.
    pub fn make_request(&mut self) -> (r: Request)
        ensures
            r.method == old(self).method,
            r.url@ == old(self).url.text(),
            r.headers@ == old(self).headers.text(),
            r.body@ == old(self).body.text(),
            final(self).answer_cleared(old(self)),
            final(self).same_form(old(self)),
            final(self).same_focus(old(self)),
            final(self).same_store(old(self)),
    {
        self.reset();
        Request {
            method: self.method,
            url: self.url.as_str().to_owned(),
            headers: self.headers.as_str().to_owned(),
            body: self.body.as_str().to_owned(),
        }
    }

    /// The state is what a message of an answer makes of `before`.
    pub open spec fn after_response(&self, before: &Self, response: Response) -> bool {
        &&& self.same_form(before)
        &&& self.same_focus(before)
        &&& self.same_store(before)
        &&& match response {
            Response::Status(code) => {
                &&& self.status == code
                &&& self.response == before.response
                &&& self.response_paragraph == before.response_paragraph
                &&& self.response_header_paragraph == before.response_header_paragraph
                &&& self.dirty == before.dirty
                &&& self.failed == before.failed
                &&& self.content_type == before.content_type
            },
            Response::Headers(pairs) => {
                &&& self.content_type@ == content_type_of(pairs@, before.content_type@)
                &&& match pretty_json(headers_line(pairs@)) {
                    Some(text) => {
                        &&& self.response_header_paragraph.is_rewrite_of(
                            &before.response_header_paragraph,
                            text,
                        )
                        &&& self.response_header_paragraph.offset()
                            == before.response_header_paragraph.offset()
                    },
                    None => self.response_header_paragraph == before.response_header_paragraph,
                }
                &&& self.response == before.response
                &&& self.response_paragraph == before.response_paragraph
                &&& self.dirty == before.dirty
                &&& self.failed == before.failed
                &&& self.status == before.status
            },
            Response::Body(bytes) => {
                &&& self.response == Some(bytes)
                &&& self.response_paragraph.is_rewrite_of(
                    &before.response_paragraph,
                    before.response_paragraph.text() + shown_text(
                        lossy_text(bytes@),
                        before.content_type@,
                    ),
                )
                &&& self.response_paragraph.offset() == before.response_paragraph.offset()
                &&& self.dirty
                &&& self.response_header_paragraph == before.response_header_paragraph
                &&& self.failed == before.failed
                &&& self.status == before.status
                &&& self.content_type == before.content_type
            },
            Response::Failure => {
                &&& self.failed
                &&& self.dirty
                &&& self.response == before.response
                &&& self.response_paragraph == before.response_paragraph
                &&& self.response_header_paragraph == before.response_header_paragraph
                &&& self.status == before.status
                &&& self.content_type == before.content_type
            },
        }
    }

    /// Takes in one message of the answer to the last request: the
    /// status is kept; the headers are shown pretty-printed and give the
    /// type of content; each chunk of the body is decoded, pretty-printed
    /// where the content is JSON, and appended to what is shown; a
    /// failure is marked.
    pub fn receive(&mut self, response: Response)
        ensures
            final(self).after_response(old(self), response),
    {
        match response {
            Response::Status(code) => {
                self.status = code;
            },
            Response::Headers(pairs) => {
                let line = format_headers(&pairs);
                let pretty = pretty_print(line.as_str());
                let mut fallback = String::new();
                std::mem::swap(&mut fallback, &mut self.content_type);
                self.content_type = find_content_type(&pairs, fallback);
                if let Some(text) = pretty {
                    self.response_header_paragraph.set_value(text);
                }
            },
            Response::Body(bytes) => {
                let decoded = decode_lossy(&bytes);
                let pretty = pretty_print(decoded.as_str());
                let is_json = contains(&to_chars(self.content_type.as_str()), &to_chars("json"));
                let text = choose_text(decoded, pretty, is_json);
                self.response = Some(bytes);
                self.response_paragraph.append_value(text);
                self.dirty = true;
            },
            Response::Failure => {
                self.failed = true;
                self.dirty = true;
            },
        }
    }

    /// The state is `before` with the focus moved: `view` is shown and
    /// `mode` has the focus.
    pub open spec fn focused(&self, before: &Self, view: View, mode: Mode) -> bool {
        &&& self.view == view
        &&& self.mode == mode
        &&& self.modal == before.modal
        &&& self.same_form(before)
        &&& self.same_answer(before)
        &&& self.same_store(before)
    }

    /// The state is `before` with the overlay `modal`.
    pub open spec fn overlaid(&self, before: &Self, modal: Modal) -> bool {
        &&& self.modal == modal
        &&& self.mode == before.mode
        &&& self.view == before.view
        &&& self.same_form(before)
        &&& self.same_answer(before)
    }

    /// The mode that has the focus after `view` was shown.
    pub open spec fn mode_in(&self, view: View) -> Mode {
        if self.view == view {
            self.mode
        } else {
            Mode::Url
        }
    }

    /// The state and the effect are what sending the request of the form
    /// makes of `before`: the answer is cleared, the response view is
    /// shown, and the request of the form is to be dispatched.
    pub open spec fn after_send(&self, before: &Self, effect: Effect) -> bool {
        &&& effect matches Effect::Dispatch(request) && {
            &&& request.method == before.method
            &&& request.url@ == before.url.text()
            &&& request.headers@ == before.headers.text()
            &&& request.body@ == before.body.text()
        }
        &&& self.answer_cleared(before)
        &&& self.view == View::Response
        &&& self.mode == before.mode_in(View::Response)
        &&& self.modal == before.modal
        &&& self.same_form(before)
        &&& self.same_store(before)
    }

    /// The state and the effect are what `operation` makes of `before`.
    pub open spec fn after_operation(&self, before: &Self, operation: Operation, effect: Effect) -> bool {
        match operation {
            Operation::GotoUrl => effect is Nothing && self.focused(before, before.view, Mode::Url),
            Operation::GotoRequestBody => effect is Nothing && self.focused(
                before,
                View::Request,
                Mode::RequestBody,
            ),
            Operation::GotoRequestHeaders => effect is Nothing && self.focused(
                before,
                View::Request,
                Mode::RequestHeaders,
            ),
            Operation::GotoResponseBody => effect is Nothing && self.focused(
                before,
                View::Response,
                Mode::ResponseBody,
            ),
            Operation::GotoResponseHeaders => effect is Nothing && self.focused(
                before,
                View::Response,
                Mode::ResponseHeaders,
            ),
            Operation::NextMethod => {
                &&& effect is Nothing
                &&& self.method == method_after(before.method)
                &&& self.url == before.url
                &&& self.headers == before.headers
                &&& self.body == before.body
                &&& self.same_answer(before)
                &&& self.same_focus(before)
                &&& self.same_store(before)
            },
            Operation::LoadRequest => effect is Nothing && if before.modal == Modal::Closed {
                &&& self.overlaid(before, Modal::Requests)
                &&& self.request_selection == Some(0usize)
                &&& self.request_name == before.request_name
                &&& self.request_collection == before.request_collection
                &&& self.key_binds == before.key_binds
            } else {
                *self == *before
            },
            Operation::SaveRequest => effect is Nothing && if before.modal == Modal::Closed {
                self.overlaid(before, Modal::Save) && self.same_store(before)
            } else {
                *self == *before
            },
            Operation::SaveResponse => {
                &&& *self == *before
                &&& effect matches Effect::Export { file_name, contents } && {
                    &&& contents@ == before.response_paragraph.text()
                    &&& export_file_name(file_name@, before.url.text())
                }
            },
            Operation::GotoRequestView => effect is Nothing && self.focused(
                before,
                View::Request,
                before.mode_in(View::Request),
            ),
            Operation::GotoResponseView => effect is Nothing && self.focused(
                before,
                View::Response,
                before.mode_in(View::Response),
            ),
            Operation::SendRequest => self.after_send(before, effect),
            Operation::Quit => effect is Quit && *self == *before,
        }
    }

    /// Sends the request of the form and shows the response view.
    pub fn send(&mut self) -> (effect: Effect)
        ensures
            final(self).after_send(old(self), effect),
    {
        let request = self.make_request();
        self.set_view(View::Response);
        Effect::Dispatch(request)
    }

    /// Carries out an operation.
    pub fn handle_operation(&mut self, operation: Operation) -> (effect: Effect)
        ensures
            final(self).after_operation(old(self), operation, effect),
    {
        match operation {
            Operation::GotoUrl => {
                self.mode = Mode::Url;
            },
            Operation::GotoRequestBody => {
                self.set_view(View::Request);
                self.mode = Mode::RequestBody;
            },
            Operation::GotoRequestHeaders => {
                self.set_view(View::Request);
                self.mode = Mode::RequestHeaders;
            },
            Operation::GotoResponseBody => {
                self.set_view(View::Response);
                self.mode = Mode::ResponseBody;
            },
            Operation::GotoResponseHeaders => {
                self.set_view(View::Response);
                self.mode = Mode::ResponseHeaders;
            },
            Operation::NextMethod => {
                self.next_method();
            },
            Operation::LoadRequest => {
                if self.modal == Modal::Closed {
                    self.modal = Modal::Requests;
                    self.request_selection = Some(0);
                }
            },
            Operation::SaveRequest => {
                if self.modal == Modal::Closed {
                    self.modal = Modal::Save;
                }
            },
            Operation::SaveResponse => {
                let source = export_source(self.url.as_str());
                let stem = sanitize(source.as_str());
                let file_name = export_name(stem);
                let contents = self.response_paragraph.as_str().to_owned();
                return Effect::Export { file_name, contents };
            },
            Operation::GotoRequestView => {
                self.set_view(View::Request);
            },
            Operation::GotoResponseView => {
                self.set_view(View::Response);
            },
            Operation::SendRequest => {
                return self.send();
            },
            Operation::Quit => {
                return Effect::Quit;
            },
        }
        Effect::Nothing
    }

    /// `preset` is the preset of the request form under the name that
    /// was typed: its method, URL and body, and the headers of the lines
    /// of the header text that hold a colon.
    pub open spec fn is_preset(&self, preset: crate::persistence::Request) -> bool {
        &&& preset.key@ == self.request_name@
        &&& preset.method == self.method
        &&& preset.url@ == self.url.text()
        &&& preset.body is Some
        &&& preset.body->0@ == self.body.text()
        &&& if header_entries(self.headers.text()).len() == 0 {
            preset.headers is None
        } else {
            preset.headers is Some && entries_of(preset.headers->0@) == header_entries(
                self.headers.text(),
            )
        }
    }

    /// The state and the effect are what confirming the save overlay
    /// makes of `before`: nothing without a URL or without a name; else
    /// the preset of the form is added to the collection, the overlay is
    /// closed and the collection is to be written.
    pub open spec fn after_save_request(&self, before: &Self, effect: Effect) -> bool {
        if before.url.text().len() == 0 || before.request_name@.len() == 0 {
            effect is Nothing && *self == *before
        } else {
            &&& effect is Persist
            &&& self.overlaid(before, Modal::Closed)
            &&& self.request_name == before.request_name
            &&& self.request_selection == before.request_selection
            &&& self.key_binds == before.key_binds
            &&& exists|preset: crate::persistence::Request| #[trigger]
                before.is_preset(preset) && self.request_collection.requests@ == upserted(
                    before.request_collection.requests@,
                    preset,
                )
        }
    }

    /// Saves the request of the form as a preset, where it has a URL and
    /// a name was typed.
    pub fn save_request(&mut self) -> (effect: Effect)
        ensures
            final(self).after_save_request(old(self), effect),
    {
        if self.url.is_empty() || self.request_name.as_str().is_empty() {
            return Effect::Nothing;
        }
        let mut builder = RequestBuilder::new(self.request_name.as_str());
        let _ = builder.url(self.url.as_str());
        let _ = builder.method(self.method);
        let _ = builder.headers(self.headers.as_str());
        let _ = builder.body(self.body.as_str());
        let preset = builder.build();
        assert(self.is_preset(preset));
        self.request_collection.add_request(preset);
        self.modal = Modal::Closed;
        Effect::Persist
    }

    /// The state is `before` but for the name typed for a preset.
    pub open spec fn renamed(&self, before: &Self, name: Seq<char>) -> bool {
        &&& self.request_name@ == name
        &&& self.request_collection == before.request_collection
        &&& self.request_selection == before.request_selection
        &&& self.key_binds == before.key_binds
        &&& self.same_form(before)
        &&& self.same_answer(before)
        &&& self.same_focus(before)
    }

    /// The state and the effect are what a key press in the save overlay
    /// makes of `before`: enter confirms, a character key and backspace
    /// edit the name.
    pub open spec fn after_save_input(&self, before: &Self, key: KeyEvent, effect: Effect) -> bool {
        match key.code {
            KeyCode::Enter => self.after_save_request(before, effect),
            KeyCode::Char(c) => effect is Nothing && self.renamed(
                before,
                before.request_name@.push(c),
            ),
            KeyCode::Backspace => effect is Nothing && self.renamed(
                before,
                if before.request_name@.len() > 0 {
                    before.request_name@.drop_last()
                } else {
                    before.request_name@
                },
            ),
            _ => effect is Nothing && *self == *before,
        }
    }

    /// Handles a key press in the save overlay.
    pub fn handle_save_input(&mut self, key: KeyEvent) -> (effect: Effect)
        ensures
            final(self).after_save_input(old(self), key, effect),
    {
        match key.code {
            KeyCode::Enter => {
                return self.save_request();
            },
            KeyCode::Char(c) => {
                push_char(&mut self.request_name, c);
            },
            KeyCode::Backspace => {
                let _ = pop_char(&mut self.request_name);
            },
            _ => {},
        }
        Effect::Nothing
    }

    /// The state is `before` with `preset` loaded into the form: its URL,
    /// method and name, its body where it has one, and its headers as
    /// text. The answer is cleared and the overlay closed.
    pub open spec fn loaded(&self, before: &Self, preset: crate::persistence::Request) -> bool {
        &&& self.url.is_reset_of(&before.url, preset.url@)
        &&& self.method == preset.method
        &&& self.request_name@ == preset.key@
        &&& match preset.body {
            Some(body) => self.body.is_reset_of(&before.body, body@),
            None => self.body == before.body,
        }
        &&& self.headers.is_reset_of(
            &before.headers,
            match preset.headers {
                None => Seq::<char>::empty(),
                Some(headers) => joined_from(headers@, 0),
            },
        )
        &&& self.modal == Modal::Closed
        &&& self.mode == before.mode
        &&& self.view == before.view
        &&& self.answer_cleared(before)
        &&& self.request_collection == before.request_collection
        &&& self.request_selection == before.request_selection
        &&& self.key_binds == before.key_binds
    }

    /// The state is `before` but for the selection among the presets.
    pub open spec fn selected(&self, before: &Self, selection: Option<usize>) -> bool {
        &&& self.request_selection == selection
        &&& self.request_name == before.request_name
        &&& self.request_collection == before.request_collection
        &&& self.key_binds == before.key_binds
        &&& self.same_form(before)
        &&& self.same_answer(before)
        &&& self.same_focus(before)
    }

    /// The selection among the presets, with the first preset for none.
    pub open spec fn selection_or_first(&self) -> usize {
        match self.request_selection {
            Some(index) => index,
            None => 0,
        }
    }

    /// The state and the effect are what deleting the selected preset
    /// makes of `before`: the preset at `index` leaves the collection,
    /// the selection moves to the preset before it, the overlay closes
    /// when no preset is left, and the collection is to be written.
    pub open spec fn after_delete(&self, before: &Self, index: usize, effect: Effect) -> bool {
        &&& effect is Persist
        &&& self.request_collection.requests@ == if index
            < before.request_collection.requests@.len() {
            before.request_collection.requests@.remove(index as int)
        } else {
            before.request_collection.requests@
        }
        &&& self.request_selection == if index > 0 {
            Some((index - 1) as usize)
        } else {
            before.request_selection
        }
        &&& self.modal == if self.request_collection.requests@.len() == 0 {
            Modal::Closed
        } else {
            before.modal
        }
        &&& self.mode == before.mode
        &&& self.view == before.view
        &&& self.request_name == before.request_name
        &&& self.key_binds == before.key_binds
        &&& self.same_form(before)
        &&& self.same_answer(before)
    }

    /// The state and the effect are what a key press in the overlay of
    /// presets makes of `before`: enter loads the selected preset, the
    /// arrows move the selection round the list, delete removes the
    /// selected preset. Without presets, enter and the arrows do nothing.
    pub open spec fn after_request_input(&self, before: &Self, key: KeyEvent, effect: Effect) -> bool {
        let count = before.request_collection.requests@.len();
        let current = before.selection_or_first();
        match key.code {
            KeyCode::Enter => effect is Nothing && if current < count {
                self.loaded(before, before.request_collection.requests@[current as int])
            } else {
                *self == *before
            },
            KeyCode::Up => effect is Nothing && if count > 0 {
                self.selected(
                    before,
                    Some(
                        if current == 0 {
                            (count - 1) as usize
                        } else {
                            (current - 1) as usize
                        },
                    ),
                )
            } else {
                *self == *before
            },
            KeyCode::Down => effect is Nothing && if count > 0 {
                self.selected(
                    before,
                    Some(
                        if current >= count - 1 {
                            0usize
                        } else {
                            (current + 1) as usize
                        },
                    ),
                )
            } else {
                *self == *before
            },
            KeyCode::Delete => match before.request_selection {
                Some(index) => self.after_delete(before, index, effect),
                None => effect is Nothing && *self == *before,
            },
            _ => effect is Nothing && *self == *before,
        }
    }

    /// Loads the preset at `index` into the form.
    fn load_request(&mut self, index: usize)
        requires
            index < old(self).request_collection.requests@.len(),
        ensures
            final(self).loaded(old(self), old(self).request_collection.requests@[index as int]),
    {
        self.reset();
        let request = &self.request_collection.requests[index];
        self.url.set_value(request.url.clone());
        self.method = request.method;
        self.request_name = request.key.clone();
        if let Some(body) = &request.body {
            self.body.set_value(body.clone());
        }
        self.headers.set_value(request.headers_to_string());
        self.modal = Modal::Closed;
    }

    /// Handles a key press in the overlay of presets.
    pub fn handle_request_input(&mut self, key: KeyEvent) -> (effect: Effect)
        ensures
            final(self).after_request_input(old(self), key, effect),
    {
        let count: usize = self.request_collection.requests.len();
        let current: usize = match self.request_selection {
            Some(index) => index,
            None => 0,
        };
        match key.code {
            KeyCode::Enter => {
                if current < count {
                    self.load_request(current);
                }
            },
            KeyCode::Up => {
                if count > 0 {
                    self.request_selection = Some(Self::list_previous(count, current));
                }
            },
            KeyCode::Down => {
                if count > 0 {
                    self.request_selection = Some(Self::list_next(count, current));
                }
            },
            KeyCode::Delete => {
                if let Some(index) = self.request_selection {
                    self.request_collection.remove_request(index);
                    if index > 0 {
                        self.request_selection = Some(index - 1);
                    }
                    if self.request_collection.requests.len() == 0 {
                        self.modal = Modal::Closed;
                    }
                    return Effect::Persist;
                }
            },
            _ => {},
        }
        Effect::Nothing
    }

    /// The state is `before` but for the request form.
    pub open spec fn same_but_form(&self, before: &Self) -> bool {
        &&& self.method == before.method
        &&& self.same_answer(before)
        &&& self.same_focus(before)
        &&& self.same_store(before)
    }

    /// The state and the effect are what a key press in the URL field
    /// makes of `before`: enter sends the request, the other keys edit
    /// the one line of the field.
    pub open spec fn after_url_input(&self, before: &Self, key: KeyEvent, effect: Effect) -> bool {
        if key.code == KeyCode::Enter {
            self.after_send(before, effect)
        } else {
            effect is Nothing && match line_command(key.code) {
                Some(command) => {
                    &&& self.url.is_result_of(&before.url, command)
                    &&& self.headers == before.headers
                    &&& self.body == before.body
                    &&& self.same_but_form(before)
                },
                None => *self == *before,
            }
        }
    }

    /// Handles a key press in the URL field.
    pub fn handle_url_input(&mut self, event: KeyEvent) -> (effect: Effect)
        ensures
            final(self).after_url_input(old(self), event, effect),
    {
        if event.code == KeyCode::Enter {
            return self.send();
        }
        if let Some(command) = command_for_line(event.code) {
            self.url.handle_command(command);
        }
        Effect::Nothing
    }

    /// The state is what a key press in the body field makes of
    /// `before`: the keys edit the lines of the field.
    pub open spec fn after_request_body_input(&self, before: &Self, key: KeyEvent) -> bool {
        match area_command(key.code) {
            Some(command) => {
                &&& self.body.is_result_of(&before.body, command)
                &&& self.url == before.url
                &&& self.headers == before.headers
                &&& self.same_but_form(before)
            },
            None => *self == *before,
        }
    }

    /// Handles a key press in the body field.
    pub fn handle_request_body_input(&mut self, event: KeyEvent)
        ensures
            final(self).after_request_body_input(old(self), event),
    {
        if let Some(command) = command_for_area(event.code) {
            self.body.handle_command(command);
        }
    }

    /// The state is what a key press in the headers field makes of
    /// `before`: the keys edit the lines of the field.
    pub open spec fn after_request_headers_input(&self, before: &Self, key: KeyEvent) -> bool {
        match area_command(key.code) {
            Some(command) => {
                &&& self.headers.is_result_of(&before.headers, command)
                &&& self.url == before.url
                &&& self.body == before.body
                &&& self.same_but_form(before)
            },
            None => *self == *before,
        }
    }

    /// Handles a key press in the headers field.
    pub fn handle_request_headers_input(&mut self, event: KeyEvent)
        ensures
            final(self).after_request_headers_input(old(self), event),
    {
        if let Some(command) = command_for_area(event.code) {
            self.headers.handle_command(command);
        }
    }

    /// The state is `before` but for the two panes of the answer.
    pub open spec fn same_but_panes(&self, before: &Self) -> bool {
        &&& self.response == before.response
        &&& self.dirty == before.dirty
        &&& self.failed == before.failed
        &&& self.status == before.status
        &&& self.content_type == before.content_type
        &&& self.same_form(before)
        &&& self.same_focus(before)
        &&& self.same_store(before)
    }

    /// The state and the effect are what a key press outside any overlay
    /// makes of `before`: it goes to the field or pane that has the
    /// focus.
    pub open spec fn after_mode_input(&self, before: &Self, key: KeyEvent, effect: Effect) -> bool {
        match before.mode {
            Mode::Url => self.after_url_input(before, key, effect),
            Mode::RequestHeaders => effect is Nothing && self.after_request_headers_input(
                before,
                key,
            ),
            Mode::RequestBody => effect is Nothing && self.after_request_body_input(before, key),
            Mode::ResponseBody => {
                &&& effect is Nothing
                &&& self.response_paragraph.is_input_of(&before.response_paragraph, key)
                &&& self.response_header_paragraph == before.response_header_paragraph
                &&& self.same_but_panes(before)
            },
            Mode::ResponseHeaders => {
                &&& effect is Nothing
                &&& self.response_header_paragraph.is_input_of(
                    &before.response_header_paragraph,
                    key,
                )
                &&& self.response_paragraph == before.response_paragraph
                &&& self.same_but_panes(before)
            },
            Mode::Method => effect is Nothing && *self == *before,
        }
    }

    /// The state and the effect are what a key press makes of `before`.
    /// A key press that is bound triggers its operation. Of the others,
    /// one with control or alt does nothing; escape closes the overlay
    /// that is open, or leaves the application where none is; any other
    /// goes to the overlay that is open, or to the field or pane that has
    /// the focus.
    pub open spec fn after_input(&self, before: &Self, key: KeyEvent, effect: Effect) -> bool {
        match bound_at(
            before.key_binds@,
            key.code,
            key.modifiers,
            before.key_binds@.len() as int,
        ) {
            Some(i) => self.after_operation(before, before.key_binds@[i].operation, effect),
            None => if key.modifiers.control || key.modifiers.alt {
                effect is Nothing && *self == *before
            } else if key.code == KeyCode::Esc {
                if before.modal == Modal::Closed {
                    effect is Quit && *self == *before
                } else {
                    &&& effect is Nothing
                    &&& self.overlaid(before, Modal::Closed)
                    &&& self.same_store(before)
                }
            } else {
                match before.modal {
                    Modal::Save => self.after_save_input(before, key, effect),
                    Modal::Requests => self.after_request_input(before, key, effect),
                    Modal::Closed => self.after_mode_input(before, key, effect),
                }
            },
        }
    }

    /// The operation that the key press `key` is bound to, if any.
    pub fn bound_operation(&self, key: KeyEvent) -> (r: Option<Operation>)
        ensures
            match bound_at(self.key_binds@, key.code, key.modifiers, self.key_binds@.len() as int) {
                Some(i) => r == Some(self.key_binds@[i].operation),
                None => r is None,
            },
    {
        let mut i: usize = 0;
        while i < self.key_binds.len()
            invariant
                i <= self.key_binds.len(),
                bound_at(self.key_binds@, key.code, key.modifiers, i as int) is None,
            decreases self.key_binds.len() - i,
        {
            let key_bind = self.key_binds[i];
            if key_bind.key == key.code && key.modifiers == key_bind.modifiers {
                proof {
                    lemma_bound_at_stays(
                        self.key_binds@,
                        key.code,
                        key.modifiers,
                        i as int + 1,
                        self.key_binds@.len() as int,
                    );
                }
                return Some(key_bind.operation);
            }
            i = i + 1;
        }
        None
    }

    /// Handles a key press.
    pub fn handle_input(&mut self, key: KeyEvent) -> (effect: Effect)
        ensures
            final(self).after_input(old(self), key, effect),
    {
        if let Some(operation) = self.bound_operation(key) {
            return self.handle_operation(operation);
        }
        if key.modifiers.control || key.modifiers.alt {
            return Effect::Nothing;
        }
        if key.code == KeyCode::Esc {
            if self.modal == Modal::Closed {
                return Effect::Quit;
            }
            self.modal = Modal::Closed;
            return Effect::Nothing;
        }
        match self.modal {
            Modal::Save => self.handle_save_input(key),
            Modal::Requests => self.handle_request_input(key),
            Modal::Closed => match self.mode {
                Mode::Url => self.handle_url_input(key),
                Mode::RequestHeaders => {
                    self.handle_request_headers_input(key);
                    Effect::Nothing
                },
                Mode::RequestBody => {
                    self.handle_request_body_input(key);
                    Effect::Nothing
                },
                Mode::ResponseBody => {
                    self.response_paragraph.handle_input(key);
                    Effect::Nothing
                },
                Mode::ResponseHeaders => {
                    self.response_header_paragraph.handle_input(key);
                    Effect::Nothing
                },
                Mode::Method => Effect::Nothing,
            },
        }
    }
}

/// The edit command of a key in a field of one line.
pub open spec fn line_command(code: KeyCode) -> Option<EditCommand> {
    match code {
        KeyCode::Right => Some(EditCommand::ForwardCursor),
        KeyCode::Left => Some(EditCommand::BackwardCursor),
        KeyCode::Backspace => Some(EditCommand::BackwardDelete),
        KeyCode::Delete => Some(EditCommand::ForwardDelete),
        KeyCode::Char(c) => Some(EditCommand::InsertCharacter(c)),
        _ => None,
    }
}

/// The edit command of a key in a field of several lines: as in a field
/// of one line, and enter breaks the line and the arrows change rows.
pub open spec fn area_command(code: KeyCode) -> Option<EditCommand> {
    match code {
        KeyCode::Enter => Some(EditCommand::InsertCharacter('\n')),
        KeyCode::Up => Some(EditCommand::UpCursor),
        KeyCode::Down => Some(EditCommand::DownCursor),
        _ => line_command(code),
    }
}

/// The edit command of a key in a field of one line.
pub fn command_for_line(code: KeyCode) -> (r: Option<EditCommand>)
    ensures
        r == line_command(code),
{
    match code {
        KeyCode::Right => Some(EditCommand::ForwardCursor),
        KeyCode::Left => Some(EditCommand::BackwardCursor),
        KeyCode::Backspace => Some(EditCommand::BackwardDelete),
        KeyCode::Delete => Some(EditCommand::ForwardDelete),
        KeyCode::Char(c) => Some(EditCommand::InsertCharacter(c)),
        _ => None,
    }
}

/// The edit command of a key in a field of several lines.
pub fn command_for_area(code: KeyCode) -> (r: Option<EditCommand>)
    ensures
        r == area_command(code),
{
    match code {
        KeyCode::Enter => Some(EditCommand::InsertCharacter('\n')),
        KeyCode::Up => Some(EditCommand::UpCursor),
        KeyCode::Down => Some(EditCommand::DownCursor),
        _ => command_for_line(code),
    }
}

/// A binding found among the first `n` bindings is the first binding of
/// its key press among any more of them.
pub proof fn lemma_bound_at_stays(
    binds: Seq<KeyBind>,
    code: KeyCode,
    modifiers: KeyModifiers,
    n: int,
    m: int,
)
    requires
        0 <= n <= m,
        bound_at(binds, code, modifiers, n) is Some,
    ensures
        bound_at(binds, code, modifiers, m) == bound_at(binds, code, modifiers, n),
    decreases m - n,
{
    if n < m {
        lemma_bound_at_stays(binds, code, modifiers, n, m - 1);
    }
}

} // verus!
