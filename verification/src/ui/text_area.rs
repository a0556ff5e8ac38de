//! A multi-line edit buffer with a byte cursor, and the resolver that
//! finds the newline-delimited rows of a buffer.

use vstd::prelude::*;
use vstd::string::StringSliceAdditionalSpecFns;
use vstd::utf8::*;
use crate::ui::cursor::Cursor;
use crate::text::{
    byte_len, char_index, floor_boundary, floor_char_boundary, insert_char, lemma_char_index,
    lemma_floor_boundary, lemma_offset_ends, lemma_offset_index, lemma_offset_step,
    next_boundary, offset_of, previous_boundary, remove_char,
};

verus! {

/// The byte value of a line feed.
pub const NEWLINE: u8 = 10;

/// One newline-delimited row of a buffer, as a closed byte range.
///
/// `start` is the offset of the row's first byte and `end` the offset of
/// the newline that closes it, or the buffer's length for the last row.
/// `size` counts the bytes of the row including its closing newline.
#[derive(Clone, Copy, Debug)]
pub struct Row {
    pub start: usize,
    pub end: usize,
    pub size: usize,
}

/// Start of the line that holds offset `i`: the position just after the
/// last newline before `i`, or 0.
pub open spec fn line_start(bytes: Seq<u8>, i: int) -> int
    decreases i,
{
    if i <= 0 {
        0
    } else if bytes[i - 1] == NEWLINE {
        i
    } else {
        line_start(bytes, i - 1)
    }
}

/// End of the line that holds offset `i`: the position of the first
/// newline at or after `i`, or the length of the buffer.
pub open spec fn line_end(bytes: Seq<u8>, i: int) -> int
    decreases bytes.len() - i,
{
    if i >= bytes.len() {
        bytes.len() as int
    } else if bytes[i] == NEWLINE {
        i
    } else {
        line_end(bytes, i + 1)
    }
}

/// Number of newline bytes among the first `i` bytes.
pub open spec fn newlines_before(bytes: Seq<u8>, i: int) -> nat
    decreases i,
{
    if i <= 0 {
        0
    } else if bytes[i - 1] == NEWLINE {
        newlines_before(bytes, i - 1) + 1
    } else {
        newlines_before(bytes, i - 1)
    }
}

/// `rows` is the row topology of `bytes`: closed ranges that follow one
/// another without gap or overlap from 0 to the buffer's length, each but
/// the last closed by a newline, none with a newline inside.
#[verifier::opaque]
pub open spec fn is_topology(bytes: Seq<u8>, rows: Seq<Row>) -> bool {
    &&& rows.len() >= 1
    &&& rows[0].start == 0
    &&& rows.last().end == bytes.len()
    &&& forall|k: int| 0 <= k < rows.len() ==> (#[trigger] rows[k]).start <= rows[k].end
    &&& forall|k: int|
        0 <= k < rows.len() - 1 ==> {
            &&& (#[trigger] rows[k]).end < bytes.len()
            &&& bytes[rows[k].end as int] == NEWLINE
            &&& rows[k].size == rows[k].end - rows[k].start + 1
        }
    &&& forall|k: int, n: int|
        0 <= k < rows.len() - 1 && n == k + 1 ==> (#[trigger] rows[n]).start == (
        #[trigger] rows[k]).end + 1
    &&& rows.last().size == rows.last().end - rows.last().start
    &&& forall|k: int, j: int|
        0 <= k < rows.len() && (#[trigger] rows[k]).start <= j < rows[k].end ==> #[trigger] bytes[j]
            != NEWLINE
}

/// The smaller of two offsets.
pub open spec fn min_int(a: int, b: int) -> int {
    if a <= b {
        a
    } else {
        b
    }
}

/// Resolves the rows of `s` and the index of the row that holds byte
/// offset `pos`. An offset at or past the end belongs to the last row.
pub fn row_topology(s: &str, pos: usize) -> (r: (Vec<Row>, usize))
    ensures
        is_topology(s.spec_bytes(), r.0@),
        r.1 < r.0.len(),
        r.0[r.1 as int].start <= min_int(pos as int, s.spec_bytes().len() as int) <= r.0[r.1 as int].end,
        r.1 == newlines_before(s.spec_bytes(), min_int(pos as int, s.spec_bytes().len() as int)),
{
    let bytes = s.as_bytes();
    let n: usize = bytes.len();
    let mut topology: Vec<Row> = Vec::new();
    let mut current_row: usize = 0;
    let mut row_found = false;
    let mut row_start: usize = 0;
    let mut index: usize = 0;
    while index < n
        invariant
            n == bytes@.len(),
            bytes@ == s.spec_bytes(),
            index <= n,
            row_start <= index,
            topology.len() <= index,
            topology.len() == 0 ==> row_start == 0,
            topology.len() > 0 ==> topology[0].start == 0 && row_start == topology[topology.len() - 1].end + 1,
            forall|k: int|
                0 <= k < topology.len() ==> {
                    &&& (#[trigger] topology[k]).start <= topology[k].end
                    &&& topology[k].end < index
                    &&& bytes@[topology[k].end as int] == NEWLINE
                    &&& topology[k].size == topology[k].end - topology[k].start + 1
                },
            forall|k: int, n: int|
                0 <= k < topology.len() - 1 && n == k + 1 ==> (#[trigger] topology[n]).start == (
                #[trigger] topology[k]).end + 1,
            forall|k: int, j: int|
                0 <= k < topology.len() && (#[trigger] topology[k]).start <= j < topology[k].end
                    ==> #[trigger] bytes@[j] != NEWLINE,
            forall|j: int| row_start <= j < index ==> #[trigger] bytes@[j] != NEWLINE,
            row_found <==> pos < index,
            row_found ==> current_row <= topology.len(),
            row_found && current_row < topology.len() ==> topology[current_row as int].start <= pos
                <= topology[current_row as int].end,
            row_found && current_row == topology.len() ==> row_start <= pos,
        decreases n - index,
    {
        if index >= pos && !row_found {
            row_found = true;
            current_row = topology.len();
        }
        if bytes[index] == NEWLINE {
            topology.push(Row { start: row_start, end: index, size: index - row_start + 1 });
            row_start = index + 1;
        }
        index = index + 1;
    }
    topology.push(Row { start: row_start, end: n, size: n - row_start });
    if pos >= n {
        current_row = topology.len() - 1;
    }
    proof {
        assert(is_topology(bytes@, topology@)) by {
            reveal(is_topology);
        }
        lemma_topology_partition(bytes@, topology@, min_int(pos as int, n as int));
    }
    (topology, current_row)
}

/// The rows of a topology are ranges within the buffer, the first from 0,
/// the last up to the buffer's length, each starting just after the one
/// before it.
pub proof fn lemma_topology_row(bytes: Seq<u8>, rows: Seq<Row>, k: int)
    requires
        is_topology(bytes, rows),
        0 <= k < rows.len(),
    ensures
        rows[k].start <= rows[k].end <= bytes.len(),
        k == 0 <==> rows[k].start == 0,
        k == rows.len() - 1 <==> rows[k].end == bytes.len(),
        k < rows.len() - 1 ==> rows[k + 1].start == rows[k].end + 1,
        k < rows.len() - 1 ==> rows[k].size == rows[k].end - rows[k].start + 1,
        k == rows.len() - 1 ==> rows[k].size == rows[k].end - rows[k].start,
{
    reveal(is_topology);
    if k > 0 {
        assert(rows[k - 1].end + 1 == rows[k].start);
    }
    if k < rows.len() - 1 {
        assert(rows[k].end < bytes.len());
        assert(rows[k + 1].start == rows[k].end + 1);
    }
}

/// Within a row of a topology, every offset has the row's start as its
/// line start and the row's end as its line end.
pub proof fn lemma_topology_lines(bytes: Seq<u8>, rows: Seq<Row>, k: int, j: int)
    requires
        is_topology(bytes, rows),
        0 <= k < rows.len(),
        rows[k].start <= j <= rows[k].end,
    ensures
        line_start(bytes, j) == rows[k].start,
        line_end(bytes, j) == rows[k].end,
{
    lemma_line_start_in_row(bytes, rows, k, j);
    lemma_line_end_in_row(bytes, rows, k, j);
}

proof fn lemma_line_start_in_row(bytes: Seq<u8>, rows: Seq<Row>, k: int, j: int)
    requires
        is_topology(bytes, rows),
        0 <= k < rows.len(),
        rows[k].start <= j <= rows[k].end,
    ensures
        line_start(bytes, j) == rows[k].start,
    decreases j - rows[k].start,
{
    reveal(is_topology);
    if j == rows[k].start {
        if k > 0 {
            assert(rows[k - 1].end + 1 == rows[k].start);
            assert(bytes[rows[k - 1].end as int] == NEWLINE);
        }
    } else {
        assert(bytes[j - 1] != NEWLINE);
        lemma_line_start_in_row(bytes, rows, k, j - 1);
    }
}

proof fn lemma_line_end_in_row(bytes: Seq<u8>, rows: Seq<Row>, k: int, j: int)
    requires
        is_topology(bytes, rows),
        0 <= k < rows.len(),
        rows[k].start <= j <= rows[k].end,
    ensures
        line_end(bytes, j) == rows[k].end,
        rows[k].end <= bytes.len(),
    decreases rows[k].end - j,
{
    reveal(is_topology);
    if k < rows.len() - 1 {
        assert(rows[k].end < bytes.len());
    }
    if j < rows[k].end {
        assert(bytes[j] != NEWLINE);
        lemma_line_end_in_row(bytes, rows, k, j + 1);
    }
}

/// The rows of a topology cover the offsets from 0 to the buffer's length
/// without gap or overlap: every such offset lies in exactly one row, the
/// one whose index is the number of newlines before the offset.
pub proof fn lemma_topology_partition(bytes: Seq<u8>, rows: Seq<Row>, j: int)
    requires
        is_topology(bytes, rows),
        0 <= j <= bytes.len(),
    ensures
        newlines_before(bytes, j) < rows.len(),
        rows[newlines_before(bytes, j) as int].start <= j <= rows[newlines_before(bytes, j) as int].end,
        forall|i: int|
            0 <= i < rows.len() && (#[trigger] rows[i]).start <= j <= rows[i].end ==> i
                == newlines_before(bytes, j),
{
    let k = lemma_covering_row(bytes, rows, j);
    lemma_row_number(bytes, rows, k, j);
    assert forall|i: int|
        0 <= i < rows.len() && (#[trigger] rows[i]).start <= j <= rows[i].end implies i
        == newlines_before(bytes, j) by {
        lemma_row_number(bytes, rows, i, j);
    }
}

proof fn lemma_covering_row(bytes: Seq<u8>, rows: Seq<Row>, j: int) -> (k: int)
    requires
        is_topology(bytes, rows),
        0 <= j <= bytes.len(),
    ensures
        0 <= k < rows.len(),
        rows[k].start <= j <= rows[k].end,
    decreases j,
{
    if j == 0 {
        assert(rows.len() >= 1) by {
            reveal(is_topology);
        }
        lemma_topology_row(bytes, rows, 0);
        0
    } else {
        let before = lemma_covering_row(bytes, rows, j - 1);
        lemma_topology_row(bytes, rows, before);
        if j - 1 < rows[before].end {
            before
        } else {
            lemma_topology_row(bytes, rows, before + 1);
            before + 1
        }
    }
}

proof fn lemma_row_number(bytes: Seq<u8>, rows: Seq<Row>, k: int, j: int)
    requires
        is_topology(bytes, rows),
        0 <= k < rows.len(),
        rows[k].start <= j <= rows[k].end,
    ensures
        newlines_before(bytes, j) == k,
    decreases j,
{
    lemma_topology_row(bytes, rows, k);
    if j == rows[k].start {
        if k > 0 {
            lemma_topology_row(bytes, rows, k - 1);
            lemma_row_number(bytes, rows, k - 1, j - 1);
            reveal(is_topology);
        }
    } else {
        lemma_row_number(bytes, rows, k, j - 1);
        reveal(is_topology);
        assert(bytes[j - 1] != NEWLINE);
    }
}

/// A line starts at 0 or just after a newline, at or before each of its
/// offsets, and holds no newline from its start up to that offset.
pub proof fn lemma_line_start(bytes: Seq<u8>, j: int)
    requires
        0 <= j <= bytes.len(),
    ensures
        0 <= line_start(bytes, j) <= j,
        line_start(bytes, j) > 0 ==> bytes[line_start(bytes, j) - 1] == NEWLINE,
        forall|i: int| line_start(bytes, j) <= i < j ==> #[trigger] bytes[i] != NEWLINE,
    decreases j,
{
    if j > 0 && bytes[j - 1] != NEWLINE {
        lemma_line_start(bytes, j - 1);
    }
}

/// An offset that is reached from a line's start without passing a
/// newline has that start as its line start.
pub proof fn lemma_line_start_from(bytes: Seq<u8>, start: int, j: int)
    requires
        0 <= start <= j <= bytes.len(),
        start == 0 || bytes[start - 1] == NEWLINE,
        forall|i: int| start <= i < j ==> #[trigger] bytes[i] != NEWLINE,
    ensures
        line_start(bytes, j) == start,
    decreases j - start,
{
    if j > start {
        lemma_line_start_from(bytes, start, j - 1);
    }
}

/// An offset from which a newline or the buffer's end is reached without
/// passing a newline has that position as its line end.
pub proof fn lemma_line_end_from(bytes: Seq<u8>, j: int, end: int)
    requires
        0 <= j <= end <= bytes.len(),
        end == bytes.len() || bytes[end] == NEWLINE,
        forall|i: int| j <= i < end ==> #[trigger] bytes[i] != NEWLINE,
    ensures
        line_end(bytes, j) == end,
    decreases end - j,
{
    if j < end {
        lemma_line_end_from(bytes, j + 1, end);
    }
}

/// A line ends at a newline or at the buffer's end, at or after each of
/// its offsets, and holds no newline from that offset up to its end.
pub proof fn lemma_line_end(bytes: Seq<u8>, j: int)
    requires
        0 <= j <= bytes.len(),
    ensures
        j <= line_end(bytes, j) <= bytes.len(),
        line_end(bytes, j) < bytes.len() ==> bytes[line_end(bytes, j)] == NEWLINE,
        forall|i: int| j <= i < line_end(bytes, j) ==> #[trigger] bytes[i] != NEWLINE,
    decreases bytes.len() - j,
{
    if j < bytes.len() && bytes[j] != NEWLINE {
        lemma_line_end(bytes, j + 1);
    }
}

/// Moving up and then down again returns the cursor to its row, at the
/// column that it had or at the length of the row above where that is
/// smaller. This holds of a cursor below the first row, where both moves
/// land on character boundaries.
pub proof fn lemma_up_then_down(text: Seq<char>, pos: int)
    requires
        0 <= pos <= encode_utf8(text).len(),
        line_start(encode_utf8(text), pos) > 0,
        is_char_boundary(encode_utf8(text), up_target(encode_utf8(text), pos)),
        is_char_boundary(
            encode_utf8(text),
            down_target(encode_utf8(text), up_target(encode_utf8(text), pos)),
        ),
    ensures
        ({
            let bytes = encode_utf8(text);
            let start = line_start(bytes, pos);
            let above_length = (start - 1) - line_start(bytes, start - 1);
            let up = floor_boundary(bytes, up_target(bytes, pos));
            let back = floor_boundary(bytes, down_target(bytes, up));
            &&& line_start(bytes, back) == start
            &&& back - start == min_int(pos - start, above_length)
        }),
{
    let bytes = encode_utf8(text);
    let start = line_start(bytes, pos);
    lemma_line_start(bytes, pos);
    let above_end = start - 1;
    let above_start = line_start(bytes, above_end);
    lemma_line_start(bytes, above_end);
    let target = up_target(bytes, pos);
    assert(above_start <= target <= above_end);
    lemma_floor_boundary(text, target);
    let up = floor_boundary(bytes, target);
    assert(up == target);
    lemma_line_start_from(bytes, above_start, up);
    lemma_line_end_from(bytes, up, above_end);
    lemma_line_end(bytes, start);
    let below_end = line_end(bytes, start);
    if below_end < pos {
        assert(bytes[below_end] != NEWLINE);
    }
    let back_target = down_target(bytes, up);
    assert(back_target == start + (up - above_start));
    lemma_floor_boundary(text, back_target);
    lemma_line_start_from(bytes, start, back_target);
}

/// Counts, for the part of `s` before byte offset `pos`, the newlines in
/// it, the bytes up to and including the last of them, and the bytes
/// after it. An offset past the end counts the whole of `s`.
pub fn count_newlines(s: &str, pos: usize) -> (r: (usize, usize, usize))
    ensures
        r.0 == newlines_before(s.spec_bytes(), min_int(pos as int, s.spec_bytes().len() as int)),
        r.1 == line_start(s.spec_bytes(), min_int(pos as int, s.spec_bytes().len() as int)),
        r.1 + r.2 == min_int(pos as int, s.spec_bytes().len() as int),
{
    let bytes = s.as_bytes();
    let n: usize = bytes.len();
    let mut count: usize = 0;
    let mut bytes_before: usize = 0;
    let mut bytes_line: usize = 0;
    let mut index: usize = 0;
    while index < n && index < pos
        invariant
            n == bytes@.len(),
            bytes@ == s.spec_bytes(),
            index <= n,
            index <= pos,
            count == newlines_before(bytes@, index as int),
            count <= index,
            bytes_before == line_start(bytes@, index as int),
            bytes_before + bytes_line == index,
        decreases n - index,
    {
        bytes_line = bytes_line + 1;
        if bytes[index] == NEWLINE {
            count = count + 1;
            bytes_before = bytes_before + bytes_line;
            bytes_line = 0;
        }
        index = index + 1;
    }
    (count, bytes_before, bytes_line)
}

/// Byte offset that a move to the row above aims at: the same column in
/// that row, or the row's end where the row is shorter. On the first row
/// the offset stays.
pub open spec fn up_target(bytes: Seq<u8>, pos: int) -> int {
    let start = line_start(bytes, pos);
    if start == 0 {
        pos
    } else {
        let above_end = start - 1;
        let above_start = line_start(bytes, above_end);
        above_start + min_int(pos - start, above_end - above_start)
    }
}

/// Byte offset that a move to the row below aims at: the same column in
/// that row, or the row's end where the row is shorter. On the last row
/// the offset stays.
pub open spec fn down_target(bytes: Seq<u8>, pos: int) -> int {
    let end = line_end(bytes, pos);
    if end == bytes.len() {
        pos
    } else {
        let below_start = end + 1;
        let below_end = line_end(bytes, below_start);
        below_start + min_int(pos - line_start(bytes, pos), below_end - below_start)
    }
}

/// The commands that an edit buffer understands.
#[derive(Clone, Copy, Debug)]
pub enum EditCommand {
    InsertCharacter(char),
    BackwardDelete,
    ForwardDelete,
    ForwardCursor,
    BackwardCursor,
    UpCursor,
    DownCursor,
}

/// A text buffer with a cursor. The cursor is a byte offset into the
/// UTF-8 encoding of the text and always stands on a character boundary.
pub struct EditState {
    buffer: String,
    pos: usize,
}

impl EditState {
    #[verifier::type_invariant]
    spec fn on_boundary(self) -> bool {
        is_char_boundary(encode_utf8(self.buffer@), self.pos as int)
    }

    /// The text of the buffer.
    pub closed spec fn text(&self) -> Seq<char> {
        self.buffer@
    }

    /// The cursor, as a byte offset.
    pub closed spec fn cursor(&self) -> int {
        self.pos as int
    }

    /// The text of the buffer as UTF-8 bytes.
    pub open spec fn bytes(&self) -> Seq<u8> {
        encode_utf8(self.text())
    }

    /// The cursor, as the number of characters before it.
    pub open spec fn cursor_chars(&self) -> int {
        char_index(self.text(), self.cursor())
    }

    /// A buffer that holds `init_value`, with the cursor at the start.
    pub fn new(init_value: &str) -> (r: Self)
        ensures
            r.text() == init_value@,
            r.cursor() == 0,
    {
        let buffer = init_value.to_owned();
        proof {
            encode_utf8_valid_utf8(buffer@);
        }
        EditState { buffer, pos: 0 }
    }

    /// The cursor, as a byte offset. It stands on a character boundary
    /// within the text, and agrees with the cursor's character index.
    pub fn position(&self) -> (r: usize)
        ensures
            r == self.cursor(),
            is_char_boundary(self.bytes(), self.cursor()),
            0 <= self.cursor() <= self.bytes().len(),
            0 <= self.cursor_chars() <= self.text().len(),
            self.cursor() == offset_of(self.text(), self.cursor_chars()),
    {
        proof {
            use_type_invariant(&*self);
            lemma_char_index(self.buffer@, self.pos as int);
        }
        self.pos
    }

    pub fn is_empty(&self) -> (r: bool)
        ensures
            r == (self.text().len() == 0),
    {
        self.buffer.as_str().is_empty()
    }

    pub fn as_str(&self) -> (r: &str)
        ensures
            r@ == self.text(),
    {
        self.buffer.as_str()
    }

    /// The buffer holds `text`, with the cursor where `before` had it, or
    /// at the nearest boundary of `text` before that.
    pub open spec fn is_reset_of(&self, before: &Self, text: Seq<char>) -> bool {
        &&& self.text() == text
        &&& self.cursor() == floor_boundary(
            encode_utf8(text),
            min_int(before.cursor(), encode_utf8(text).len() as int),
        )
    }

    /// Replaces the text. The cursor keeps its offset where that is a
    /// character boundary of the new text, and else falls back to the
    /// nearest boundary before it.
    pub fn set_value(&mut self, value: String)
        ensures
            final(self).is_reset_of(old(self), value@),
    {
        let n: usize = byte_len(value.as_str());
        let bound: usize = if self.pos < n {
            self.pos
        } else {
            n
        };
        let p: usize = floor_char_boundary(value.as_str(), bound);
        *self = EditState { buffer: value, pos: p };
    }

    /// The text is `text` and the cursor stands before character `k` of it.
    pub open spec fn is_at(&self, text: Seq<char>, k: int) -> bool {
        &&& self.text() == text
        &&& self.cursor_chars() == k
        &&& self.cursor() == offset_of(text, k)
    }

    /// Takes the text out of the buffer, leaving it empty.
    fn take_buffer(&mut self) -> (r: String)
        ensures
            r@ == old(self).buffer@,
            final(self).buffer@.len() == 0,
            final(self).pos == 0,
    {
        let mut buffer = String::new();
        proof {
            use_type_invariant(&*self);
            encode_utf8_valid_utf8(self.buffer@);
            encode_utf8_valid_utf8(buffer@);
        }
        self.pos = 0;
        std::mem::swap(&mut buffer, &mut self.buffer);
        buffer
    }

    /// Inserts `c` at the cursor and moves the cursor past it.
    pub fn insert(&mut self, c: char)
        ensures
            final(self).is_at(
                old(self).text().insert(old(self).cursor_chars(), c),
                old(self).cursor_chars() + 1,
            ),
    {
        broadcast use vstd::utf8::group_utf8_lib;

        let pos: usize = self.position();
        let mut buffer = self.take_buffer();
        let before: usize = byte_len(buffer.as_str());
        let ghost text = buffer@;
        let ghost k = char_index(text, pos as int);
        insert_char(&mut buffer, pos, c);
        let after: usize = byte_len(buffer.as_str());
        proof {
            let new_text = text.insert(k, c);
            lemma_offset_ends(text);
            lemma_offset_ends(new_text);
            assert(new_text.subrange(0, k) =~= text.subrange(0, k));
            assert(new_text[k] == c);
            lemma_offset_step(new_text, k);
            lemma_offset_index(new_text, k + 1);
            let head = text.subrange(0, k);
            let tail = text.subrange(k, text.len() as int);
            assert(text =~= head + tail);
            assert(new_text =~= head + (seq![c] + tail));
            crate::text::lemma_encode_concat(head, tail);
            crate::text::lemma_encode_concat(head, seq![c] + tail);
            crate::text::lemma_encode_concat(seq![c], tail);
            crate::text::lemma_scalar_len(c);
        }
        let new_pos: usize = pos + (after - before);
        self.buffer = buffer;
        self.pos = new_pos;
    }

    /// Removes the character before the cursor and moves the cursor back
    /// over it. At the start of the text nothing changes.
    pub fn delete_backward(&mut self)
        ensures
            old(self).cursor() > 0 ==> final(self).is_at(
                old(self).text().remove(old(self).cursor_chars() - 1),
                old(self).cursor_chars() - 1,
            ),
            old(self).cursor() == 0 ==> final(self).is_at(old(self).text(), 0),
    {
        broadcast use vstd::utf8::group_utf8_lib;

        let pos: usize = self.position();
        if pos > 0 {
            let mut buffer = self.take_buffer();
            let ghost text = buffer@;
            let ghost k = char_index(text, pos as int);
            let p: usize = previous_boundary(buffer.as_str(), pos);
            let _ = remove_char(&mut buffer, p);
            proof {
                let new_text = text.remove(k - 1);
                assert(new_text.subrange(0, k - 1) =~= text.subrange(0, k - 1));
                lemma_offset_index(new_text, k - 1);
            }
            self.buffer = buffer;
            self.pos = p;
        } else {
            proof {
                lemma_offset_ends(self.buffer@);
                lemma_offset_index(self.buffer@, 0);
            }
        }
    }

    /// Removes the character at the cursor. At the end of the text
    /// nothing changes.
    pub fn delete_forward(&mut self)
        ensures
            old(self).cursor() < old(self).bytes().len() ==> final(self).is_at(
                old(self).text().remove(old(self).cursor_chars()),
                old(self).cursor_chars(),
            ),
            old(self).cursor() >= old(self).bytes().len() ==> final(self).is_at(
                old(self).text(),
                old(self).cursor_chars(),
            ),
    {
        broadcast use vstd::utf8::group_utf8_lib;

        let pos: usize = self.position();
        if pos < byte_len(self.buffer.as_str()) {
            let mut buffer = self.take_buffer();
            let ghost text = buffer@;
            let ghost k = char_index(text, pos as int);
            let _ = remove_char(&mut buffer, pos);
            proof {
                lemma_offset_ends(text);
                let new_text = text.remove(k);
                assert(new_text.subrange(0, k) =~= text.subrange(0, k));
                lemma_offset_index(new_text, k);
            }
            self.buffer = buffer;
            self.pos = pos;
        }
    }

    /// Moves the cursor one character forward, up to the end of the text.
    pub fn move_cursor_forward(&mut self)
        ensures
            final(self).is_at(
                old(self).text(),
                min_int(old(self).cursor_chars() + 1, old(self).text().len() as int),
            ),
    {
        let pos: usize = self.position();
        if pos < byte_len(self.buffer.as_str()) {
            let p: usize = next_boundary(self.buffer.as_str(), pos);
            proof {
                lemma_offset_ends(self.buffer@);
                lemma_offset_index(self.buffer@, self.cursor_chars() + 1);
            }
            self.pos = p;
        } else {
            proof {
                lemma_offset_ends(self.buffer@);
                if self.cursor_chars() < self.buffer@.len() {
                    crate::text::lemma_offset_monotonic(
                        self.buffer@,
                        self.cursor_chars(),
                        self.buffer@.len() as int,
                    );
                }
            }
        }
    }

    /// Moves the cursor one character back, down to the start of the text.
    pub fn move_cursor_backward(&mut self)
        ensures
            final(self).is_at(
                old(self).text(),
                if old(self).cursor_chars() > 0 {
                    old(self).cursor_chars() - 1
                } else {
                    0
                },
            ),
    {
        let pos: usize = self.position();
        if pos > 0 {
            let p: usize = previous_boundary(self.buffer.as_str(), pos);
            proof {
                lemma_offset_ends(self.buffer@);
            }
            self.pos = p;
        } else {
            proof {
                lemma_offset_ends(self.buffer@);
                if self.cursor_chars() > 0 {
                    crate::text::lemma_offset_monotonic(self.buffer@, 0, self.cursor_chars());
                }
            }
        }
    }

    /// Moves the cursor to the row above, to the same byte column or to
    /// the row's end where the row is shorter, and from there back to the
    /// nearest character boundary. On the first row nothing changes.
    pub fn move_cursor_up(&mut self)
        ensures
            final(self).text() == old(self).text(),
            final(self).cursor() == floor_boundary(
                old(self).bytes(),
                up_target(old(self).bytes(), old(self).cursor()),
            ),
    {
        let pos: usize = self.position();
        let (topology, row) = row_topology(self.buffer.as_str(), pos);
        proof {
            lemma_topology_row(self.bytes(), topology@, row as int);
            lemma_topology_lines(self.bytes(), topology@, row as int, pos as int);
            lemma_floor_boundary(self.buffer@, pos as int);
        }
        if row == 0 {
            return ;
        }
        let above = topology[row - 1];
        proof {
            lemma_topology_row(self.bytes(), topology@, row - 1);
        }
        let column: usize = pos - topology[row].start;
        let width: usize = above.end - above.start;
        let target: usize = if column < width {
            above.start + column
        } else {
            above.end
        };
        proof {
            lemma_topology_lines(self.bytes(), topology@, row - 1, above.end as int);
        }
        let p: usize = floor_char_boundary(self.buffer.as_str(), target);
        self.pos = p;
    }

    /// Moves the cursor to the row below, to the same byte column or to
    /// the row's end where the row is shorter, and from there back to the
    /// nearest character boundary. On the last row nothing changes.
    pub fn move_cursor_down(&mut self)
        ensures
            final(self).text() == old(self).text(),
            final(self).cursor() == floor_boundary(
                old(self).bytes(),
                down_target(old(self).bytes(), old(self).cursor()),
            ),
    {
        let pos: usize = self.position();
        let (topology, row) = row_topology(self.buffer.as_str(), pos);
        proof {
            lemma_topology_row(self.bytes(), topology@, row as int);
            lemma_topology_lines(self.bytes(), topology@, row as int, pos as int);
            lemma_floor_boundary(self.buffer@, pos as int);
        }
        if row == topology.len() - 1 {
            return ;
        }
        let below = topology[row + 1];
        proof {
            lemma_topology_row(self.bytes(), topology@, row + 1);
        }
        let column: usize = pos - topology[row].start;
        let width: usize = below.end - below.start;
        let target: usize = if column < width {
            below.start + column
        } else {
            below.end
        };
        proof {
            lemma_topology_lines(self.bytes(), topology@, row + 1, below.start as int);
        }
        let p: usize = floor_char_boundary(self.buffer.as_str(), target);
        self.pos = p;
    }

    /// The buffer is what `command` makes of `before`.
    pub open spec fn is_result_of(&self, before: &Self, command: EditCommand) -> bool {
        match command {
            EditCommand::InsertCharacter(c) => self.is_at(
                before.text().insert(before.cursor_chars(), c),
                before.cursor_chars() + 1,
            ),
            EditCommand::BackwardDelete => if before.cursor() > 0 {
                self.is_at(
                    before.text().remove(before.cursor_chars() - 1),
                    before.cursor_chars() - 1,
                )
            } else {
                self.is_at(before.text(), 0)
            },
            EditCommand::ForwardDelete => if before.cursor() < before.bytes().len() {
                self.is_at(before.text().remove(before.cursor_chars()), before.cursor_chars())
            } else {
                self.is_at(before.text(), before.cursor_chars())
            },
            EditCommand::ForwardCursor => self.is_at(
                before.text(),
                min_int(before.cursor_chars() + 1, before.text().len() as int),
            ),
            EditCommand::BackwardCursor => self.is_at(
                before.text(),
                if before.cursor_chars() > 0 {
                    before.cursor_chars() - 1
                } else {
                    0
                },
            ),
            EditCommand::UpCursor => {
                &&& self.text() == before.text()
                &&& self.cursor() == floor_boundary(
                    before.bytes(),
                    up_target(before.bytes(), before.cursor()),
                )
            },
            EditCommand::DownCursor => {
                &&& self.text() == before.text()
                &&& self.cursor() == floor_boundary(
                    before.bytes(),
                    down_target(before.bytes(), before.cursor()),
                )
            },
        }
    }

    /// Applies one edit command.
    pub fn handle_command(&mut self, command: EditCommand)
        ensures
            final(self).is_result_of(old(self), command),
    {
        match command {
            EditCommand::InsertCharacter(c) => self.insert(c),
            EditCommand::BackwardDelete => self.delete_backward(),
            EditCommand::ForwardDelete => self.delete_forward(),
            EditCommand::ForwardCursor => self.move_cursor_forward(),
            EditCommand::BackwardCursor => self.move_cursor_backward(),
            EditCommand::UpCursor => self.move_cursor_up(),
            EditCommand::DownCursor => self.move_cursor_down(),
        }
    }
}

/// The low sixteen bits of `n`.
pub open spec fn low_bits(n: int) -> u16 {
    (n % 65536) as u16
}

/// The scroll that keeps position `place` in sight of a viewport of
/// `extent` cells: what `place` lies beyond the last cell.
pub open spec fn scroll_to(place: int, extent: int) -> int {
    if place > extent - 1 {
        place - (extent - 1)
    } else {
        0
    }
}

/// How a text area is drawn: how far its text is scrolled, and where its
/// cursor stands.
#[derive(Clone, Copy, Debug)]
pub struct TextAreaLayout {
    pub y_scroll: u16,
    pub x_scroll: u16,
    pub cursor: Cursor,
}

/// The low sixteen bits of `n`.
fn low_sixteen(n: usize) -> (r: u16)
    ensures
        r == low_bits(n as int),
{
    (n % 65536) as u16
}

/// Lays out a text area of `width` by `height` cells for the buffer
/// `state`: the text is scrolled so far that the cursor's row and its
/// byte column are in sight, and the cursor stands at that row and
/// column. Offsets and places are cut to their low sixteen bits. An
/// area without a cell has no layout.
pub fn text_area_layout(state: &EditState, width: u16, height: u16) -> (r: Option<TextAreaLayout>)
    ensures
        r is Some <==> width >= 1 && height >= 1,
        r is Some ==> ({
            let row = newlines_before(state.bytes(), state.cursor());
            let column = state.cursor() - line_start(state.bytes(), state.cursor());
            &&& r->0.y_scroll == low_bits(scroll_to(row as int, height as int))
            &&& r->0.x_scroll == low_bits(scroll_to(column, width as int))
            &&& r->0.cursor.column() == low_bits(column)
            &&& r->0.cursor.row() == low_bits(row as int)
            &&& r->0.cursor.scrolled_columns() == r->0.x_scroll
            &&& r->0.cursor.scrolled_rows() == r->0.y_scroll
        }),
{
    if height < 1 || width < 1 {
        return None;
    }
    let pos: usize = state.position();
    let (row, before, pos_in_row) = count_newlines(state.as_str(), pos);
    let last_row: usize = (height - 1) as usize;
    let last_column: usize = (width - 1) as usize;
    let y_scroll: u16 = if row > last_row {
        low_sixteen(row - last_row)
    } else {
        0
    };
    let x_scroll: u16 = if pos_in_row > last_column {
        low_sixteen(pos_in_row - last_column)
    } else {
        0
    };
    let cursor = Cursor::default().position(low_sixteen(pos - before), low_sixteen(row)).scroll(
        y_scroll,
        x_scroll,
    );
    Some(TextAreaLayout { y_scroll, x_scroll, cursor })
}

} // verus!
