//! Saved request presets: the preset itself, the builder that makes one
//! from the text of the request form, and the collection of presets.

use vstd::prelude::*;
use vstd::string::StringExecFns;
use crate::text::{push_char, to_chars, to_text};
use crate::Method;

verus! {

/// What `char::is_whitespace` returns for a character.
pub uninterp spec fn whitespace(c: char) -> bool;

/// Whether `c` is white space, by `char::is_whitespace`.
#[verifier::external_body]
pub(crate) fn is_whitespace(c: char) -> (r: bool)
    ensures
        r == whitespace(c),
{
    c.is_whitespace()
}

/// What formatting a string with `{:?}` returns: the string in quotes,
/// with its special characters escaped.
pub uninterp spec fn quoted(text: Seq<char>) -> Seq<char>;

/// Formats `s` with `{:?}`.
#[verifier::external_body]
pub(crate) fn debug_quoted(s: &str) -> (r: String)
    ensures
        r@ == quoted(s@),
{
    format!("{:?}", s)
}

/// Number of white-space characters at the start of `s`.
pub open spec fn leading_space(s: Seq<char>) -> int
    decreases s.len(),
{
    if s.len() > 0 && whitespace(s[0]) {
        1 + leading_space(s.drop_first())
    } else {
        0
    }
}

/// Number of white-space characters at the end of `s`.
pub open spec fn trailing_space(s: Seq<char>) -> int
    decreases s.len(),
{
    if s.len() > 0 && whitespace(s.last()) {
        1 + trailing_space(s.drop_last())
    } else {
        0
    }
}

/// `s` without the white space at its start and at its end.
pub open spec fn trimmed(s: Seq<char>) -> Seq<char> {
    let rest = s.subrange(leading_space(s), s.len() as int);
    rest.subrange(0, rest.len() - trailing_space(rest))
}

/// Number of characters of `s` before its first colon.
pub open spec fn before_colon(s: Seq<char>) -> int
    decreases s.len(),
{
    if s.len() > 0 && s[0] != ':' {
        1 + before_colon(s.drop_first())
    } else {
        0
    }
}

/// The header that a line holds: what stands before its first colon and
/// what stands after it, both trimmed. A line without a colon holds none.
pub open spec fn line_entry(line: Seq<char>) -> Seq<(Seq<char>, Seq<char>)> {
    let colon = before_colon(line);
    if colon < line.len() {
        seq![
            (
                trimmed(line.subrange(0, colon)),
                trimmed(line.subrange(colon + 1, line.len() as int)),
            ),
        ]
    } else {
        Seq::empty()
    }
}

/// The headers of the lines of `s` from the line that starts at `start`
/// on, where the scan of that line has reached `i`. Lines end at a line
/// feed.
pub open spec fn entries_from(s: Seq<char>, start: int, i: int) -> Seq<(Seq<char>, Seq<char>)>
    decreases s.len() - i,
{
    if i >= s.len() {
        line_entry(s.subrange(start, s.len() as int))
    } else if s[i] == '\n' {
        line_entry(s.subrange(start, i)) + entries_from(s, i + 1, i + 1)
    } else {
        entries_from(s, start, i + 1)
    }
}

/// The headers that a text holds, one for each line with a colon, in the
/// order of the lines.
pub open spec fn header_entries(s: Seq<char>) -> Seq<(Seq<char>, Seq<char>)> {
    entries_from(s, 0, 0)
}

/// A name with its value.
#[derive(Debug)]
pub struct KeyValuePair {
    pub key: String,
    pub value: String,
}

impl KeyValuePair {
    /// The pair as name and value.
    pub open spec fn entry(&self) -> (Seq<char>, Seq<char>) {
        (self.key@, self.value@)
    }

    /// The pair as text: name and value, each formatted with `{:?}`, with
    /// a colon between them.
    pub fn to_string(&self) -> (r: String)
        ensures
            r@ == quoted(self.key@) + seq![':'] + quoted(self.value@),
    {
        let mut out = debug_quoted(self.key.as_str());
        push_char(&mut out, ':');
        let value = debug_quoted(self.value.as_str());
        out.append(value.as_str());
        out
    }
}

/// The names and values of a list of pairs.
pub open spec fn entries_of(pairs: Seq<KeyValuePair>) -> Seq<(Seq<char>, Seq<char>)> {
    pairs.map_values(|p: KeyValuePair| p.entry())
}

/// The bounds of `chars[from..to]` without the white space at its ends.
fn trim_range(chars: &Vec<char>, from: usize, to: usize) -> (r: (usize, usize))
    requires
        from <= to <= chars.len(),
    ensures
        from <= r.0 <= r.1 <= to,
        chars@.subrange(r.0 as int, r.1 as int) == trimmed(chars@.subrange(from as int, to as int)),
{
    let ghost whole = chars@.subrange(from as int, to as int);
    let mut a: usize = from;
    while a < to && is_whitespace(chars[a])
        invariant
            from <= a <= to <= chars.len(),
            leading_space(whole) == (a - from) + leading_space(chars@.subrange(a as int, to as int)),
            whole == chars@.subrange(from as int, to as int),
        decreases to - a,
    {
        assert(chars@.subrange(a as int, to as int).drop_first() =~= chars@.subrange(
            a + 1,
            to as int,
        ));
        a = a + 1;
    }
    let ghost rest = chars@.subrange(a as int, to as int);
    assert(rest =~= whole.subrange(leading_space(whole), whole.len() as int));
    let mut b: usize = to;
    while b > a && is_whitespace(chars[b - 1])
        invariant
            a <= b <= to <= chars.len(),
            rest == chars@.subrange(a as int, to as int),
            trailing_space(rest) == (to - b) + trailing_space(chars@.subrange(a as int, b as int)),
        decreases b,
    {
        assert(chars@.subrange(a as int, b as int).drop_last() =~= chars@.subrange(
            a as int,
            b - 1,
        ));
        b = b - 1;
    }
    assert(chars@.subrange(a as int, b as int) =~= rest.subrange(
        0,
        rest.len() - trailing_space(rest),
    ));
    (a, b)
}

/// Adds to `out` the header that the line `chars[from..to]` holds.
fn push_line_entry(chars: &Vec<char>, from: usize, to: usize, out: &mut Vec<KeyValuePair>)
    requires
        from <= to <= chars.len(),
    ensures
        entries_of(final(out)@) == entries_of(old(out)@) + line_entry(
            chars@.subrange(from as int, to as int),
        ),
{
    let ghost line = chars@.subrange(from as int, to as int);
    let mut k: usize = from;
    while k < to && chars[k] != ':'
        invariant
            from <= k <= to <= chars.len(),
            line == chars@.subrange(from as int, to as int),
            before_colon(line) == (k - from) + before_colon(chars@.subrange(k as int, to as int)),
        decreases to - k,
    {
        assert(chars@.subrange(k as int, to as int).drop_first() =~= chars@.subrange(
            k + 1,
            to as int,
        ));
        k = k + 1;
    }
    if k < to {
        let (ka, kb) = trim_range(chars, from, k);
        let (va, vb) = trim_range(chars, k + 1, to);
        assert(chars@.subrange(from as int, k as int) =~= line.subrange(0, before_colon(line)));
        assert(chars@.subrange(k + 1, to as int) =~= line.subrange(
            before_colon(line) + 1,
            line.len() as int,
        ));
        let pair = KeyValuePair { key: to_text(chars, ka, kb), value: to_text(chars, va, vb) };
        out.push(pair);
        assert(entries_of(out@) =~= entries_of(old(out)@) + line_entry(line));
    } else {
        assert(entries_of(out@) =~= entries_of(old(out)@) + line_entry(line));
    }
}

/// Reads the headers of a text: one for each line with a colon, name and
/// value trimmed. Lines without a colon are passed over.
pub fn parse_entries(text: &str) -> (r: Vec<KeyValuePair>)
    ensures
        entries_of(r@) == header_entries(text@),
{
    let chars = to_chars(text);
    let n: usize = chars.len();
    let mut out: Vec<KeyValuePair> = Vec::new();
    let mut start: usize = 0;
    let mut i: usize = 0;
    assert(entries_of(out@) =~= Seq::empty());
    while i < n
        invariant
            n == chars.len(),
            chars@ == text@,
            start <= i <= n,
            entries_of(out@) + entries_from(chars@, start as int, i as int) == header_entries(
                chars@,
            ),
        decreases n - i,
    {
        if chars[i] == '\n' {
            let ghost before = entries_of(out@);
            push_line_entry(&chars, start, i, &mut out);
            assert(entries_of(out@) + entries_from(chars@, i + 1, i + 1) =~= before
                + entries_from(chars@, start as int, i as int));
            start = i + 1;
        }
        i = i + 1;
    }
    push_line_entry(&chars, start, n, &mut out);
    out
}

/// A saved request: a named snapshot of the request form.
#[derive(Debug)]
pub struct Request {
    pub key: String,
    pub method: Method,
    pub url: String,
    pub headers: Option<Vec<KeyValuePair>>,
    pub body: Option<String>,
}

/// The texts of `pairs` from the pair at `i` on, each but the last
/// followed by a carriage return and a line feed.
pub open spec fn joined_from(pairs: Seq<KeyValuePair>, i: int) -> Seq<char>
    decreases pairs.len() - i,
{
    if i >= pairs.len() {
        Seq::empty()
    } else if i == pairs.len() - 1 {
        quoted(pairs[i].key@) + seq![':'] + quoted(pairs[i].value@)
    } else {
        quoted(pairs[i].key@) + seq![':'] + quoted(pairs[i].value@) + seq!['\r', '\n']
            + joined_from(pairs, i + 1)
    }
}

impl Request {
    /// The headers of the preset as text, one pair a line; nothing where
    /// the preset has no headers.
    pub fn headers_to_string(&self) -> (r: String)
        ensures
            r@ == match self.headers {
                None => Seq::<char>::empty(),
                Some(headers) => joined_from(headers@, 0),
            },
    {
        match &self.headers {
            None => String::new(),
            Some(headers) => {
                let mut out = String::new();
                let n: usize = headers.len();
                let mut i: usize = n;
                while i > 0
                    invariant
                        i <= n,
                        n == headers.len(),
                        out@ == joined_from(headers@, i as int),
                    decreases i,
                {
                    i = i - 1;
                    let mut line = headers[i].to_string();
                    if i + 1 < n {
                        push_char(&mut line, '\r');
                        push_char(&mut line, '\n');
                    }
                    line.append(out.as_str());
                    out = line;
                    assert(out@ =~= joined_from(headers@, i as int));
                }
                out
            },
        }
    }
}

/// Collects the fields of a preset.
pub struct RequestBuilder {
    pub key: String,
    pub method: Method,
    pub url: Option<String>,
    pub headers: Option<String>,
    pub body: Option<String>,
}

impl RequestBuilder {
    pub fn new(req_key: &str) -> (r: RequestBuilder)
        ensures
            r.key@ == req_key@,
            r.method == Method::GET,
            r.url is None,
            r.headers is None,
            r.body is None,
    {
        RequestBuilder {
            key: req_key.to_owned(),
            method: Method::GET,
            url: None,
            headers: None,
            body: None,
        }
    }

    pub fn headers(&mut self, headers: &str) -> (r: &Self)
        ensures
            *r == *final(self),
            final(self).headers is Some,
            final(self).headers->0@ == headers@,
            final(self).key == old(self).key,
            final(self).method == old(self).method,
            final(self).url == old(self).url,
            final(self).body == old(self).body,
    {
        self.headers = Some(headers.to_owned());
        self
    }

    pub fn url(&mut self, url: &str) -> (r: &Self)
        ensures
            *r == *final(self),
            final(self).url is Some,
            final(self).url->0@ == url@,
            final(self).key == old(self).key,
            final(self).method == old(self).method,
            final(self).headers == old(self).headers,
            final(self).body == old(self).body,
    {
        self.url = Some(url.to_owned());
        self
    }

    pub fn method(&mut self, method: Method) -> (r: &Self)
        ensures
            *r == *final(self),
            final(self).method == method,
            final(self).key == old(self).key,
            final(self).url == old(self).url,
            final(self).headers == old(self).headers,
            final(self).body == old(self).body,
    {
        self.method = method;
        self
    }

    pub fn body(&mut self, body: &str) -> (r: &Self)
        ensures
            *r == *final(self),
            final(self).body is Some,
            final(self).body->0@ == body@,
            final(self).key == old(self).key,
            final(self).method == old(self).method,
            final(self).url == old(self).url,
            final(self).headers == old(self).headers,
    {
        self.body = Some(body.to_owned());
        self
    }

    /// The preset that the builder describes. Its headers are those of
    /// the lines of the header text that hold a colon; a text without
    /// any gives a preset without headers. The URL must have been set.
    pub fn build(self) -> (r: Request)
        requires
            self.url is Some,
        ensures
            r.key == self.key,
            r.method == self.method,
            r.url == self.url->0,
            r.body == self.body,
            match self.headers {
                None => r.headers is None,
                Some(text) => if header_entries(text@).len() == 0 {
                    r.headers is None
                } else {
                    r.headers is Some && entries_of(r.headers->0@) == header_entries(text@)
                },
            },
    {
        let headers = match self.headers {
            None => None,
            Some(header_string) => {
                let parsed = parse_entries(header_string.as_str());
                assert(entries_of(parsed@).len() == parsed@.len());
                if parsed.len() == 0 {
                    None
                } else {
                    Some(parsed)
                }
            },
        };
        let url = match self.url {
            Some(url) => url,
            None => String::new(),
        };
        Request { key: self.key, method: self.method, url, headers, body: self.body }
    }
}

/// Index of the first preset named `key` among the first `n` presets.
pub open spec fn key_position(requests: Seq<Request>, key: Seq<char>, n: int) -> Option<int>
    decreases n,
{
    if n <= 0 {
        None
    } else {
        match key_position(requests, key, n - 1) {
            Some(i) => Some(i),
            None => if requests[n - 1].key@ == key {
                Some(n - 1)
            } else {
                None
            },
        }
    }
}

/// The collection after `request` was added: in the place of the first
/// preset of the same name, or at the end where there is none.
pub open spec fn upserted(requests: Seq<Request>, request: Request) -> Seq<Request> {
    match key_position(requests, request.key@, requests.len() as int) {
        Some(i) => requests.update(i, request),
        None => requests.push(request),
    }
}

/// No two presets have the same name.
pub open spec fn unique_keys(requests: Seq<Request>) -> bool {
    forall|i: int, j: int|
        0 <= i < j < requests.len() ==> (#[trigger] requests[i]).key@ != (#[trigger] requests[j]).key@
}

/// The saved presets, in the order in which their names were first added.
#[derive(Debug)]
pub struct RequestCollection {
    pub requests: Vec<Request>,
}

impl RequestCollection {
    pub fn new() -> (r: Self)
        ensures
            r.requests@.len() == 0,
    {
        RequestCollection { requests: Vec::new() }
    }

    /// Adds a preset. A preset of the same name is replaced where it
    /// stands; a new name goes to the end.
    pub fn add_request(&mut self, request: Request)
        ensures
            final(self).requests@ == upserted(old(self).requests@, request),
    {
        let mut i: usize = 0;
        while i < self.requests.len()
            invariant
                i <= self.requests.len(),
                self.requests@ == old(self).requests@,
                key_position(self.requests@, request.key@, i as int) is None,
            decreases self.requests.len() - i,
        {
            if self.requests[i].key == request.key {
                proof {
                    lemma_key_position_stays(
                        self.requests@,
                        request.key@,
                        i as int + 1,
                        self.requests.len() as int,
                    );
                }
                self.requests.set(i, request);
                return ;
            }
            i = i + 1;
        }
        self.requests.push(request);
    }

    /// Removes the preset at `index`, where there is one.
    pub fn remove_request(&mut self, index: usize)
        ensures
            index < old(self).requests@.len() ==> final(self).requests@ == old(
                self,
            ).requests@.remove(index as int),
            index >= old(self).requests@.len() ==> final(self).requests@ == old(self).requests@,
    {
        if index < self.requests.len() {
            let _ = self.requests.remove(index);
        }
    }
}

/// A preset found among the first `n` presets is the first of its name
/// among any more of them.
pub proof fn lemma_key_position_stays(requests: Seq<Request>, key: Seq<char>, n: int, m: int)
    requires
        0 <= n <= m,
        key_position(requests, key, n) is Some,
    ensures
        key_position(requests, key, m) == key_position(requests, key, n),
    decreases m - n,
{
    if n < m {
        lemma_key_position_stays(requests, key, n, m - 1);
    }
}

/// What the position of a name says: a position found holds the name and
/// is within the first `n` presets, with no preset of that name before
/// it; where none is found, none of the first `n` presets has the name.
pub proof fn lemma_key_position(requests: Seq<Request>, key: Seq<char>, n: int)
    requires
        0 <= n <= requests.len(),
    ensures
        match key_position(requests, key, n) {
            Some(i) => 0 <= i < n && requests[i].key@ == key && forall|j: int|
                0 <= j < i ==> (#[trigger] requests[j]).key@ != key,
            None => forall|j: int| 0 <= j < n ==> (#[trigger] requests[j]).key@ != key,
        },
    decreases n,
{
    if n > 0 {
        lemma_key_position(requests, key, n - 1);
    }
}

/// Adding two presets of one name, one after the other, to a collection
/// without double names leaves exactly one preset of that name: the
/// second, in the place that the first one took. The collection is as
/// long as after the first, and still without double names.
pub proof fn lemma_upsert_twice(requests: Seq<Request>, first: Request, second: Request)
    requires
        unique_keys(requests),
        first.key@ == second.key@,
    ensures
        ({
            let once = upserted(requests, first);
            let twice = upserted(once, second);
            let place = key_position(once, first.key@, once.len() as int);
            &&& place is Some
            &&& twice.len() == once.len()
            &&& twice == once.update(place->0, second)
            &&& unique_keys(twice)
            &&& forall|j: int|
                0 <= j < twice.len() && j != place->0 ==> (#[trigger] twice[j]).key@ != second.key@
            &&& match key_position(requests, first.key@, requests.len() as int) {
                Some(i) => place->0 == i,
                None => place->0 == requests.len(),
            }
        }),
{
    let key = first.key@;
    let once = upserted(requests, first);
    lemma_key_position(requests, key, requests.len() as int);
    lemma_upsert_unique(requests, first);
    lemma_key_position(once, key, once.len() as int);
    let place = key_position(once, key, once.len() as int);
    match key_position(requests, key, requests.len() as int) {
        Some(i) => {
            assert(once[i].key@ == key);
        },
        None => {
            assert(once[requests.len() as int].key@ == key);
        },
    }
    lemma_upsert_unique(once, second);
    let twice = upserted(once, second);
    assert forall|j: int| 0 <= j < twice.len() && j != place->0 implies (#[trigger] twice[j]).key@
        != second.key@ by {
        assert(twice[place->0].key@ == key);
        if j < place->0 {
            assert(twice[j].key@ != twice[place->0].key@);
        } else {
            assert(twice[place->0].key@ != twice[j].key@);
        }
    }
}

/// Adding a preset to a collection without double names leaves it
/// without double names.
pub proof fn lemma_upsert_unique(requests: Seq<Request>, request: Request)
    requires
        unique_keys(requests),
    ensures
        unique_keys(upserted(requests, request)),
{
    lemma_key_position(requests, request.key@, requests.len() as int);
}

} // verus!
