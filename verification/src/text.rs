//! Text as characters and as UTF-8 bytes: the bridge between a string's
//! characters and byte offsets into its encoding, and the few string
//! operations of the standard library that the rest of the crate relies on.

use vstd::prelude::*;
use vstd::utf8::*;

verus! {

broadcast use vstd::utf8::group_utf8_lib;

/// Byte offset at which character number `k` of `text` starts in the
/// UTF-8 encoding of `text`.
pub open spec fn offset_of(text: Seq<char>, k: int) -> int {
    encode_utf8(text.subrange(0, k)).len() as int
}

/// Number of characters that the first `offset` bytes of the encoding of
/// `text` hold, for an offset on a character boundary.
pub open spec fn char_index(text: Seq<char>, offset: int) -> int {
    decode_utf8(encode_utf8(text).subrange(0, offset)).len() as int
}

/// The encoding of a concatenation is the concatenation of the encodings.
pub proof fn lemma_encode_concat(a: Seq<char>, b: Seq<char>)
    ensures
        encode_utf8(a + b) == encode_utf8(a) + encode_utf8(b),
    decreases a.len(),
{
    if a.len() == 0 {
        assert(a + b =~= b);
        assert(encode_utf8(a) + encode_utf8(b) =~= encode_utf8(b));
    } else {
        lemma_encode_concat(a.drop_first(), b);
        assert((a + b).drop_first() =~= a.drop_first() + b);
        assert((a + b)[0] == a[0]);
        assert(encode_utf8(a + b) =~= encode_utf8(a) + encode_utf8(b));
    }
}

/// Every character takes between one and four bytes.
pub proof fn lemma_scalar_len(c: char)
    ensures
        1 <= encode_scalar(c as u32).len() <= 4,
        encode_utf8(seq![c]) == encode_scalar(c as u32),
{
    reveal_with_fuel(encode_utf8, 2);
    assert(seq![c].drop_first() =~= Seq::<char>::empty());
    assert(encode_utf8(seq![c]) =~= encode_scalar(c as u32));
}

/// Offsets grow with the character index, by at least one byte a character.
pub proof fn lemma_offset_step(text: Seq<char>, k: int)
    requires
        0 <= k < text.len(),
    ensures
        offset_of(text, k + 1) == offset_of(text, k) + encode_scalar(text[k] as u32).len(),
        offset_of(text, k) < offset_of(text, k + 1),
{
    assert(text.subrange(0, k + 1) =~= text.subrange(0, k) + seq![text[k]]);
    lemma_encode_concat(text.subrange(0, k), seq![text[k]]);
    lemma_scalar_len(text[k]);
}

/// Offsets are monotonic in the character index.
pub proof fn lemma_offset_monotonic(text: Seq<char>, i: int, j: int)
    requires
        0 <= i <= j <= text.len(),
    ensures
        offset_of(text, i) <= offset_of(text, j),
        i < j ==> offset_of(text, i) < offset_of(text, j),
    decreases j - i,
{
    if i < j {
        lemma_offset_monotonic(text, i, j - 1);
        lemma_offset_step(text, j - 1);
    }
}

/// The first and the last offset are the two ends of the encoding.
pub proof fn lemma_offset_ends(text: Seq<char>)
    ensures
        offset_of(text, 0) == 0,
        offset_of(text, text.len() as int) == encode_utf8(text).len(),
{
    assert(text.subrange(0, 0) =~= Seq::<char>::empty());
    assert(text.subrange(0, text.len() as int) =~= text);
}

/// A byte offset is a character boundary exactly when it is the offset of
/// some character index.
pub proof fn lemma_boundary_iff_offset(text: Seq<char>, j: int)
    ensures
        is_char_boundary(encode_utf8(text), j) <==> exists|k: int|
            0 <= k <= text.len() && j == #[trigger] offset_of(text, k),
    decreases text.len(),
{
    let bytes = encode_utf8(text);
    lemma_offset_ends(text);
    if j == 0 {
        assert(0 == offset_of(text, 0));
    } else if j < 0 || bytes.len() < j {
        assert forall|k: int| 0 <= k <= text.len() implies j != #[trigger] offset_of(text, k) by {
            lemma_offset_monotonic(text, k, text.len() as int);
        }
    } else {
        assert(text.len() > 0);
        let rest = text.drop_first();
        let first_len = encode_scalar(text[0] as u32).len() as int;
        encode_utf8_first_scalar(text);
        lemma_scalar_len(text[0]);
        assert(pop_first_scalar(bytes) =~= encode_utf8(rest));
        assert(length_of_first_scalar(bytes) == first_len);
        lemma_boundary_iff_offset(rest, j - first_len);
        assert forall|k: int| 0 <= k <= rest.len() implies offset_of(text, k + 1) == first_len
            + #[trigger] offset_of(rest, k) by {
            assert(text.subrange(0, k + 1) =~= seq![text[0]] + rest.subrange(0, k));
            lemma_encode_concat(seq![text[0]], rest.subrange(0, k));
        }
        if is_char_boundary(bytes, j) {
            let k = choose|k: int| 0 <= k <= rest.len() && j - first_len == #[trigger] offset_of(rest, k);
            assert(j == offset_of(text, k + 1));
        }
        if exists|k: int| 0 <= k <= text.len() && j == #[trigger] offset_of(text, k) {
            let k = choose|k: int| 0 <= k <= text.len() && j == #[trigger] offset_of(text, k);
            assert(k > 0);
            assert(j - first_len == offset_of(rest, k - 1));
        }
    }
}

/// On a character boundary, the character index and the byte offset
/// determine each other.
pub proof fn lemma_char_index(text: Seq<char>, offset: int)
    requires
        is_char_boundary(encode_utf8(text), offset),
    ensures
        0 <= char_index(text, offset) <= text.len(),
        offset_of(text, char_index(text, offset)) == offset,
        0 <= offset <= encode_utf8(text).len(),
{
    lemma_boundary_iff_offset(text, offset);
    let k = choose|k: int| 0 <= k <= text.len() && offset == #[trigger] offset_of(text, k);
    lemma_offset_index(text, k);
    lemma_offset_monotonic(text, 0, k);
    lemma_offset_monotonic(text, k, text.len() as int);
    lemma_offset_ends(text);
}

/// The character index of the offset of character `k` is `k`.
pub proof fn lemma_offset_index(text: Seq<char>, k: int)
    requires
        0 <= k <= text.len(),
    ensures
        char_index(text, offset_of(text, k)) == k,
        is_char_boundary(encode_utf8(text), offset_of(text, k)),
{
    lemma_boundary_iff_offset(text, offset_of(text, k));
    let head = text.subrange(0, k);
    let tail = text.subrange(k, text.len() as int);
    assert(text =~= head + tail);
    lemma_encode_concat(head, tail);
    assert(encode_utf8(text).subrange(0, offset_of(text, k)) =~= encode_utf8(head));
}

/// The largest character boundary of `bytes` that is at most `i`.
pub open spec fn floor_boundary(bytes: Seq<u8>, i: int) -> int
    decreases i,
{
    if i <= 0 {
        0
    } else if is_char_boundary(bytes, i) {
        i
    } else {
        floor_boundary(bytes, i - 1)
    }
}

/// The floor of an offset is a boundary at or below it, and a boundary is
/// its own floor.
pub proof fn lemma_floor_boundary(text: Seq<char>, i: int)
    requires
        0 <= i <= encode_utf8(text).len(),
    ensures
        is_char_boundary(encode_utf8(text), floor_boundary(encode_utf8(text), i)),
        0 <= floor_boundary(encode_utf8(text), i) <= i,
        is_char_boundary(encode_utf8(text), i) ==> floor_boundary(encode_utf8(text), i) == i,
    decreases i,
{
    if i > 0 && !is_char_boundary(encode_utf8(text), i) {
        lemma_floor_boundary(text, i - 1);
    }
}

/// Inserts `c` into `s` at byte offset `idx` by `String::insert`: the
/// character lands at the character index that the offset stands for.
/// The offset must be a character boundary of `s`.
#[verifier::external_body]
pub(crate) fn insert_char(s: &mut String, idx: usize, c: char)
    requires
        is_char_boundary(encode_utf8(old(s)@), idx as int),
    ensures
        final(s)@ == old(s)@.insert(char_index(old(s)@, idx as int), c),
{
    s.insert(idx, c);
}

/// Removes from `s` the character that starts at byte offset `idx` by
/// `String::remove`, and returns it. The offset must be a character
/// boundary before the end of `s`.
#[verifier::external_body]
pub(crate) fn remove_char(s: &mut String, idx: usize) -> (c: char)
    requires
        is_char_boundary(encode_utf8(old(s)@), idx as int),
        idx < encode_utf8(old(s)@).len(),
    ensures
        c == old(s)@[char_index(old(s)@, idx as int)],
        final(s)@ == old(s)@.remove(char_index(old(s)@, idx as int)),
{
    s.remove(idx)
}

/// Appends `c` to `s` by `String::push`.
#[verifier::external_body]
pub(crate) fn push_char(s: &mut String, c: char)
    ensures
        final(s)@ == old(s)@.push(c),
{
    s.push(c);
}

/// Removes the last character of `s` by `String::pop` and returns it;
/// an empty string stays as it is and gives `None`.
#[verifier::external_body]
pub(crate) fn pop_char(s: &mut String) -> (c: Option<char>)
    ensures
        old(s)@.len() == 0 ==> c is None && final(s)@ == old(s)@,
        old(s)@.len() > 0 ==> c == Some(old(s)@.last()) && final(s)@ == old(s)@.drop_last(),
{
    s.pop()
}

/// The characters of `s`.
pub fn to_chars(s: &str) -> (r: Vec<char>)
    ensures
        r@ == s@,
{
    let mut out: Vec<char> = Vec::new();
    for c in it: s.chars()
        invariant
            it.seq() == s@,
            out@ == s@.subrange(0, it.index() as int),
    {
        out.push(c);
        assert(out@ =~= s@.subrange(0, it.index() + 1));
    }
    assert(out@ =~= s@);
    out
}

/// The string that holds the characters of `chars` from `from` up to `to`.
pub(crate) fn to_text(chars: &Vec<char>, from: usize, to: usize) -> (r: String)
    requires
        from <= to <= chars.len(),
    ensures
        r@ == chars@.subrange(from as int, to as int),
{
    let mut out = String::new();
    let mut i: usize = from;
    while i < to
        invariant
            from <= i <= to <= chars.len(),
            out@ == chars@.subrange(from as int, i as int),
        decreases to - i,
    {
        push_char(&mut out, chars[i]);
        i = i + 1;
        assert(out@ =~= chars@.subrange(from as int, i as int));
    }
    out
}

/// `pattern` stands in `s` at position `i`.
pub open spec fn occurs_at(s: Seq<char>, i: int, pattern: Seq<char>) -> bool {
    0 <= i && i + pattern.len() <= s.len() && s.subrange(i, i + pattern.len()) == pattern
}

/// `pattern` stands somewhere in `s`.
pub open spec fn occurs_in(s: Seq<char>, pattern: Seq<char>) -> bool {
    exists|i: int| occurs_at(s, i, pattern)
}

/// `s` with each occurrence of `pattern` replaced by `with`, found from
/// left to right, none overlapping another.
pub open spec fn replaced(s: Seq<char>, pattern: Seq<char>, with: Seq<char>) -> Seq<char>
    decreases s.len(),
{
    if pattern.len() == 0 || s.len() == 0 {
        s
    } else if occurs_at(s, 0, pattern) {
        with + replaced(s.subrange(pattern.len() as int, s.len() as int), pattern, with)
    } else {
        seq![s[0]] + replaced(s.drop_first(), pattern, with)
    }
}

/// Whether `pattern` stands in `chars` at position `i`.
pub(crate) fn matches_at(chars: &Vec<char>, i: usize, pattern: &Vec<char>) -> (r: bool)
    requires
        i <= chars.len(),
    ensures
        r == occurs_at(chars@, i as int, pattern@),
{
    if pattern.len() > chars.len() - i {
        return false;
    }
    let mut k: usize = 0;
    while k < pattern.len()
        invariant
            k <= pattern.len(),
            i + pattern.len() <= chars.len(),
            forall|j: int| 0 <= j < k ==> chars@[i + j] == pattern@[j],
        decreases pattern.len() - k,
    {
        if chars[i + k] != pattern[k] {
            assert(chars@.subrange(i as int, i + pattern.len())[k as int] != pattern@[k as int]);
            return false;
        }
        k = k + 1;
    }
    assert(chars@.subrange(i as int, i + pattern.len()) =~= pattern@);
    true
}

/// Whether `pattern` stands somewhere in `chars`.
pub fn contains(chars: &Vec<char>, pattern: &Vec<char>) -> (r: bool)
    ensures
        r == occurs_in(chars@, pattern@),
{
    let mut i: usize = 0;
    while i < chars.len()
        invariant
            i <= chars.len(),
            forall|j: int| 0 <= j < i ==> !occurs_at(chars@, j, pattern@),
        decreases chars.len() - i,
    {
        if matches_at(chars, i, pattern) {
            return true;
        }
        i = i + 1;
    }
    matches_at(chars, i, pattern)
}

/// `chars` with each occurrence of `pattern` replaced by `with`.
pub fn replace(chars: &Vec<char>, pattern: &Vec<char>, with: &Vec<char>) -> (r: Vec<char>)
    ensures
        r@ == replaced(chars@, pattern@, with@),
{
    if pattern.len() == 0 {
        return chars.clone();
    }
    let mut out: Vec<char> = Vec::new();
    let mut i: usize = 0;
    let n: usize = chars.len();
    assert(chars@.subrange(0, n as int) =~= chars@);
    while i < n
        invariant
            i <= n,
            n == chars.len(),
            pattern.len() > 0,
            out@ + replaced(chars@.subrange(i as int, n as int), pattern@, with@) == replaced(
                chars@,
                pattern@,
                with@,
            ),
        decreases n - i,
    {
        let ghost rest = chars@.subrange(i as int, n as int);
        let ghost before = out@;
        if matches_at(chars, i, pattern) {
            assert(rest.subrange(0, pattern.len() as int) =~= chars@.subrange(
                i as int,
                i + pattern.len(),
            ));
            assert(rest.subrange(pattern.len() as int, rest.len() as int) =~= chars@.subrange(
                i + pattern.len(),
                n as int,
            ));
            let mut k: usize = 0;
            while k < with.len()
                invariant
                    k <= with.len(),
                    out@ == before + with@.subrange(0, k as int),
                decreases with.len() - k,
            {
                out.push(with[k]);
                k = k + 1;
                assert(out@ =~= before + with@.subrange(0, k as int));
            }
            assert(with@.subrange(0, with.len() as int) =~= with@);
            i = i + pattern.len();
            assert(out@ + replaced(chars@.subrange(i as int, n as int), pattern@, with@) =~= before
                + replaced(rest, pattern@, with@));
        } else {
            assert(rest.subrange(0, pattern.len() as int) =~= chars@.subrange(
                i as int,
                i + pattern.len(),
            ) || i + pattern.len() > n);
            assert(rest.drop_first() =~= chars@.subrange(i + 1, n as int));
            out.push(chars[i]);
            i = i + 1;
            assert(out@ + replaced(chars@.subrange(i as int, n as int), pattern@, with@) =~= before
                + replaced(rest, pattern@, with@));
        }
    }
    assert(out@ + Seq::<char>::empty() =~= out@);
    out
}

/// Length of `s` in bytes.
pub fn byte_len(s: &str) -> (n: usize)
    ensures
        n == encode_utf8(s@).len(),
{
    s.as_bytes().len()
}

/// The largest character boundary of `s` at or below `i`.
pub(crate) fn floor_char_boundary(s: &str, i: usize) -> (r: usize)
    requires
        i <= encode_utf8(s@).len(),
    ensures
        r == floor_boundary(encode_utf8(s@), i as int),
        is_char_boundary(encode_utf8(s@), r as int),
        r <= i,
{
    let mut p: usize = i;
    while p > 0 && !s.is_char_boundary(p)
        invariant
            p <= i,
            floor_boundary(encode_utf8(s@), p as int) == floor_boundary(encode_utf8(s@), i as int),
        decreases p,
    {
        p = p - 1;
    }
    proof {
        lemma_floor_boundary(s@, p as int);
        lemma_floor_boundary(s@, i as int);
    }
    p
}

/// The offset of the character after the one that starts at `pos`.
pub(crate) fn next_boundary(s: &str, pos: usize) -> (r: usize)
    requires
        is_char_boundary(encode_utf8(s@), pos as int),
        pos < encode_utf8(s@).len(),
    ensures
        r == offset_of(s@, char_index(s@, pos as int) + 1),
        pos < r <= encode_utf8(s@).len(),
        is_char_boundary(encode_utf8(s@), r as int),
{
    let n: usize = byte_len(s);
    let mut p: usize = pos + 1;
    while p < n && !s.is_char_boundary(p)
        invariant
            n == encode_utf8(s@).len(),
            pos < p <= n,
            forall|j: int| pos < j < p ==> !is_char_boundary(encode_utf8(s@), j),
        decreases n - p,
    {
        p = p + 1;
    }
    proof {
        let text = s@;
        let k = char_index(text, pos as int);
        lemma_char_index(text, pos as int);
        lemma_offset_ends(text);
        if k == text.len() {
            assert(false);
        }
        lemma_offset_step(text, k);
        lemma_offset_index(text, k + 1);
        lemma_offset_monotonic(text, k + 1, text.len() as int);
        lemma_boundary_iff_offset(text, p as int);
        let q = choose|q: int| 0 <= q <= text.len() && p == #[trigger] offset_of(text, q);
        if q <= k {
            lemma_offset_monotonic(text, q, k);
        }
        lemma_offset_monotonic(text, k + 1, q);
    }
    p
}

/// The offset of the character before the one that starts at `pos`.
pub(crate) fn previous_boundary(s: &str, pos: usize) -> (r: usize)
    requires
        is_char_boundary(encode_utf8(s@), pos as int),
        0 < pos,
    ensures
        r == offset_of(s@, char_index(s@, pos as int) - 1),
        r < pos,
        is_char_boundary(encode_utf8(s@), r as int),
        char_index(s@, r as int) == char_index(s@, pos as int) - 1,
{
    let mut p: usize = pos - 1;
    while p > 0 && !s.is_char_boundary(p)
        invariant
            p < pos,
            forall|j: int| p < j < pos ==> !is_char_boundary(encode_utf8(s@), j),
        decreases p,
    {
        p = p - 1;
    }
    proof {
        let text = s@;
        let k = char_index(text, pos as int);
        lemma_char_index(text, pos as int);
        lemma_offset_ends(text);
        if k == 0 {
            assert(false);
        }
        lemma_offset_step(text, k - 1);
        lemma_offset_index(text, k - 1);
        lemma_boundary_iff_offset(text, p as int);
        let q = choose|q: int| 0 <= q <= text.len() && p == #[trigger] offset_of(text, q);
        if q >= k {
            lemma_offset_monotonic(text, k, q);
        }
        lemma_offset_monotonic(text, q, k - 1);
    }
    p
}

} // verus!
