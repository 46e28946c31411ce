use vstd::prelude::*;

use crate::point::{Point, Position, Range};
use crate::text::{lemma_utf8_len, utf8_bytes, utf8_len};
use vstd::string::StringSliceAdditionalSpecFns;

verus! {

#[verifier::external_type_specification]
#[verifier::external_body]
pub struct ExRope(ropey::Rope);

/// The text a rope holds.
pub uninterp spec fn rope_text(rope: ropey::Rope) -> Seq<char>;

/// A char that is a line break by itself, as ropey counts them with its
/// default features (`unicode_lines`): LF, VT, FF, NEL, LS and PS.
pub open spec fn single_break(c: char) -> bool {
    c == '\n' || c == '\u{0B}' || c == '\u{0C}' || c == '\u{85}' || c == '\u{2028}' || c == '\u{2029}'
}

/// A line break ends at char `i`: a break of one char, or a CR that no LF
/// follows (CR LF is one break, which ends at the LF).
pub open spec fn break_ends_at(t: Seq<char>, i: int) -> bool {
    single_break(t[i]) || (t[i] == '\r' && !(i + 1 < t.len() && t[i + 1] == '\n'))
}

/// The char indices just after the line breaks that end among the first `n`
/// chars, in order.
pub open spec fn starts_upto(t: Seq<char>, n: int) -> Seq<int>
    decreases n,
{
    if n <= 0 {
        Seq::empty()
    } else if break_ends_at(t, n - 1) {
        starts_upto(t, n - 1).push(n)
    } else {
        starts_upto(t, n - 1)
    }
}

/// Where the lines after the first start: just after each line break.
pub open spec fn line_starts(t: Seq<char>) -> Seq<int> {
    starts_upto(t, t.len() as int)
}

/// What `Rope::len_lines` gives for a text: one more than its line breaks.
pub open spec fn line_count(text: Seq<char>) -> int {
    (line_starts(text).len() + 1) as int
}

/// What `Rope::line_to_char` gives for a text and a line: the char index
/// where the line starts; the end of the text for the line one past the
/// last.
pub open spec fn line_char(text: Seq<char>, line: int) -> int {
    if line <= 0 {
        0
    } else if line < line_count(text) {
        line_starts(text)[line - 1]
    } else {
        text.len() as int
    }
}

/// What `Rope::line_to_byte` gives for a text and a line: the byte index
/// where the line starts, the UTF-8 length of the chars before it.
pub open spec fn line_byte(text: Seq<char>, line: int) -> int {
    utf8_len(text.take(line_char(text, line)))
}

proof fn lemma_starts_upto(t: Seq<char>, n: int)
    requires
        0 <= n <= t.len(),
    ensures
        forall|i: int| 0 <= i < starts_upto(t, n).len() ==> 1 <= #[trigger] starts_upto(t, n)[i] <= n,
        forall|i: int, j: int| 0 <= i < j < starts_upto(t, n).len() ==> #[trigger] starts_upto(t, n)[i] < #[trigger] starts_upto(t, n)[j],
    decreases n,
{
    if n > 0 {
        lemma_starts_upto(t, n - 1);
        let s = starts_upto(t, n - 1);
        if break_ends_at(t, n - 1) {
            assert(starts_upto(t, n) == s.push(n));
            assert forall|i: int| 0 <= i < s.push(n).len() implies 1 <= #[trigger] s.push(n)[i] <= n by {
                if i < s.len() {
                    assert(s.push(n)[i] == s[i]);
                }
            }
            assert forall|i: int, j: int| 0 <= i < j < s.push(n).len() implies #[trigger] s.push(n)[i] < #[trigger] s.push(n)[j] by {
                assert(s.push(n)[i] == s[i]);
                if j < s.len() {
                    assert(s.push(n)[j] == s[j]);
                }
            }
        }
    }
}

/// The lines start in order, each within the text: the first at zero, the
/// one past the last at the end, and each line after the one before it.
pub proof fn lemma_line_chars(t: Seq<char>)
    ensures
        line_count(t) >= 1,
        line_char(t, 0) == 0,
        line_char(t, line_count(t)) == t.len(),
        forall|l: int| 0 <= l <= line_count(t) ==> 0 <= #[trigger] line_char(t, l) <= t.len(),
        forall|i: int, j: int| 0 <= i < j < line_count(t) ==> #[trigger] line_char(t, i) < #[trigger] line_char(t, j),
{
    lemma_starts_upto(t, t.len() as int);
    assert forall|i: int, j: int| 0 <= i < j < line_count(t) implies #[trigger] line_char(t, i) < #[trigger] line_char(t, j) by {
        if i > 0 {
            assert(line_starts(t)[i - 1] < line_starts(t)[j - 1]);
        } else {
            assert(1 <= line_starts(t)[j - 1]);
        }
    }
}

proof fn lemma_utf8_len_take(t: Seq<char>, a: int, b: int)
    requires
        0 <= a <= b <= t.len(),
    ensures
        utf8_len(t.take(a)) + (b - a) <= utf8_len(t.take(b)),
        ascii_text(t) ==> utf8_len(t.take(b)) == b,
    decreases b,
{
    if b > 0 {
        assert(t.take(b).drop_last() =~= t.take(b - 1));
        assert(t.take(b).last() == t[b - 1]);
        if a < b {
            lemma_utf8_len_take(t, a, b - 1);
        } else {
            lemma_utf8_len_take(t, b - 1, b - 1);
        }
        if ascii_text(t) {
            assert((t[b - 1] as u32) < 128);
        }
    } else {
        assert(t.take(0) =~= Seq::<char>::empty());
    }
}

/// The lines start in order in bytes too, the first at zero and the one
/// past the last at the end of the UTF-8 text; in ASCII text a line starts
/// at the same index in bytes as in chars.
pub proof fn lemma_line_bytes(t: Seq<char>)
    ensures
        line_byte(t, 0) == 0,
        line_byte(t, line_count(t)) == utf8_bytes(t).len(),
        forall|i: int, j: int| 0 <= i < j < line_count(t) ==> #[trigger] line_byte(t, i) < #[trigger] line_byte(t, j),
        forall|l: int| 0 <= l <= line_count(t) && ascii_text(t) ==> #[trigger] line_byte(t, l) == line_char(t, l),
{
    lemma_line_chars(t);
    assert(t.take(0) =~= Seq::<char>::empty());
    assert(t.take(t.len() as int) =~= t);
    lemma_utf8_len(t);
    assert forall|i: int, j: int| 0 <= i < j < line_count(t) implies #[trigger] line_byte(t, i) < #[trigger] line_byte(t, j) by {
        lemma_utf8_len_take(t, line_char(t, i), line_char(t, j));
    }
    assert forall|l: int| 0 <= l <= line_count(t) && ascii_text(t) implies #[trigger] line_byte(t, l) == line_char(t, l) by {
        lemma_utf8_len_take(t, 0, line_char(t, l));
    }
}

/// Calls `Rope::from_str` of ropey: a rope holding `text`.
#[verifier::external_body]
pub(crate) fn rope_from_str(text: &str) -> (r: ropey::Rope)
    ensures
        rope_text(r) == text@,
{
    ropey::Rope::from_str(text)
}

/// Calls `Rope::len_bytes` of ropey: the length of the text in UTF-8.
#[verifier::external_body]
pub(crate) fn rope_len_bytes(rope: &ropey::Rope) -> (n: usize)
    ensures
        n == utf8_bytes(rope_text(*rope)).len(),
{
    rope.len_bytes()
}

/// Calls `Rope::len_chars` of ropey: the number of characters.
#[verifier::external_body]
pub(crate) fn rope_len_chars(rope: &ropey::Rope) -> (n: usize)
    ensures
        n == rope_text(*rope).len(),
{
    rope.len_chars()
}

/// Every char of the text is ASCII, one byte in UTF-8.
pub open spec fn ascii_text(t: Seq<char>) -> bool {
    forall|i: int| 0 <= i < t.len() ==> (#[trigger] t[i] as u32) < 128
}

/// Calls `Rope::len_lines` of ropey: the line breaks of the text and one.
#[verifier::external_body]
pub(crate) fn rope_len_lines(rope: &ropey::Rope) -> (n: usize)
    ensures
        n == line_count(rope_text(*rope)),
{
    rope.len_lines()
}

/// Calls `Rope::line_to_byte` of ropey: where a line starts, in bytes; the
/// line one past the last starts at the end of the text.  It panics past
/// that, so such lines are left out.
#[verifier::external_body]
pub(crate) fn rope_line_to_byte(rope: &ropey::Rope, line: usize) -> (b: usize)
    requires
        line <= line_count(rope_text(*rope)),
    ensures
        b == line_byte(rope_text(*rope), line as int),
{
    rope.line_to_byte(line)
}

/// Calls `Rope::line_to_char` of ropey: where a line starts, in chars; the
/// line one past the last starts at the end of the text.  It panics past
/// that, so such lines are left out.
#[verifier::external_body]
pub(crate) fn rope_line_to_char(rope: &ropey::Rope, line: usize) -> (c: usize)
    requires
        line <= line_count(rope_text(*rope)),
    ensures
        c == line_char(rope_text(*rope), line as int),
{
    rope.line_to_char(line)
}

/// Calls `Rope::remove` of ropey on the chars `start..end`.  It panics when
/// the range is reversed or runs past the end, so such ranges are left out.
#[verifier::external_body]
pub(crate) fn rope_remove(rope: &mut ropey::Rope, start: usize, end: usize)
    requires
        start <= end <= rope_text(*old(rope)).len(),
    ensures
        rope_text(*final(rope)) == rope_text(*old(rope)).take(start as int) + rope_text(*old(rope)).skip(end as int),
{
    rope.remove(start..end)
}

/// Calls `Rope::insert` of ropey: `text` inserted at char `at`.  It panics
/// past the end, so such indices are left out.
#[verifier::external_body]
pub(crate) fn rope_insert(rope: &mut ropey::Rope, at: usize, text: &str)
    requires
        at <= rope_text(*old(rope)).len(),
    ensures
        rope_text(*final(rope)) == rope_text(*old(rope)).take(at as int) + text@ + rope_text(*old(rope)).skip(at as int),
{
    rope.insert(at, text)
}

/// Calls the `Display` of ropey's `Rope` through `to_string`: the text it
/// holds.
#[verifier::external_body]
pub(crate) fn rope_to_string(rope: &ropey::Rope) -> (s: String)
    ensures
        s@ == rope_text(*rope),
{
    rope.to_string()
}

/// The point of a protocol position.
pub fn to_point(_rope: &ropey::Rope, position: Position) -> (p: Point)
    ensures
        p == (Point { row: position.line as usize, column: position.character as usize }),
{
    Point::new(position.line as usize, position.character as usize)
}

/// The char index of a protocol position: where its line starts, plus its
/// character.
pub fn to_char(rope: &ropey::Rope, position: Position) -> (c: usize)
    requires
        position.line <= line_count(rope_text(*rope)),
        line_char(rope_text(*rope), position.line as int) + position.character <= usize::MAX,
    ensures
        c == line_char(rope_text(*rope), position.line as int) + position.character,
{
    let start_line = rope_line_to_char(rope, position.line as usize);
    start_line + position.character as usize
}

/// Line `line` of the text starts at or before byte `off`, and the next
/// line, if there is one, starts after it.
pub open spec fn holds_offset(t: Seq<char>, line: int, off: int) -> bool {
    0 <= line < line_count(t) && line_byte(t, line) <= off && (line + 1 == line_count(t) || line_byte(t, line + 1) > off)
}

/// Line `line` holds byte `off`, and no later line starts at or before it:
/// the line is the last one that starts at or before the offset.
pub open spec fn last_line_at(t: Seq<char>, line: int, off: int) -> bool {
    &&& holds_offset(t, line, off)
    &&& forall|l: int| line < l < line_count(t) ==> #[trigger] line_byte(t, l) > off
}

/// A byte offset taken no further than the end of the text.
pub open spec fn clamped(offset: usize, t: Seq<char>) -> int {
    if offset <= utf8_bytes(t).len() {
        offset as int
    } else {
        utf8_bytes(t).len() as int
    }
}

/// The line holding byte `offset` (taken no further than the end of the
/// text), found by bisection, and the offset from where that line starts.
/// The line found is the last one that starts at or before the offset.  In
/// ASCII text whose lines and bytes can be counted in a `u32`, `to_char`
/// undoes it: the line's start in chars plus the character is the offset.
pub fn to_position(rope: &ropey::Rope, offset: usize) -> (p: Position)
    ensures
        position_at(rope_text(*rope), offset, p),
        ascii_text(rope_text(*rope)) && line_count(rope_text(*rope)) <= u32::MAX && utf8_bytes(rope_text(*rope)).len() <= u32::MAX
            ==> line_char(rope_text(*rope), p.line as int) + p.character == clamped(offset, rope_text(*rope)),
{
    let ghost t = rope_text(*rope);
    proof {
        lemma_line_chars(t);
        lemma_line_bytes(t);
    }
    let len = rope_len_bytes(rope);
    let off = if offset <= len { offset } else { len };
    assert(off == clamped(offset, t));
    let mut low: usize = 0;
    let n = rope_len_lines(rope);
    let mut high = n;
    if high == 0 {
        return Position { line: 0, character: off as u32 };
    }
    while low < high
        invariant
            t == rope_text(*rope),
            high <= line_count(t),
            low <= high,
            high > 0,
            low > 0 ==> line_byte(t, low - 1) <= off,
            high < line_count(t) ==> line_byte(t, high as int) > off,
            off <= utf8_bytes(t).len(),
            n == line_count(t),
            forall|i: int, j: int| 0 <= i < j < n ==> #[trigger] line_byte(t, i) < #[trigger] line_byte(t, j),
        decreases high - low,
    {
        let mid = low + (high - low) / 2;
        if rope_line_to_byte(rope, mid) > off {
            high = mid;
        } else {
            low = mid + 1;
        }
    }
    let line = low - 1;
    let start = rope_line_to_byte(rope, line);
    let character = off - start;
    proof {
        assert(holds_offset(t, line as int, off as int));
        assert forall|l: int| line < l < line_count(t) implies #[trigger] line_byte(t, l) > off by {
            if l > line + 1 {
                assert(line_byte(t, line + 1) < line_byte(t, l));
            }
        }
        assert(last_line_at(t, line as int, off as int));
    }
    Position::new(line as u32, character as u32)
}

/// `p` is the position of byte `offset` (taken no further than the end of
/// the text): its line is the last one that starts at or before the offset,
/// and its character is the distance in bytes from where that line starts.
pub open spec fn position_at(t: Seq<char>, offset: usize, p: Position) -> bool {
    exists|line: int|
        #[trigger] last_line_at(t, line, clamped(offset, t)) && p.line == line as u32
            && p.character == (clamped(offset, t) - line_byte(t, line)) as u32
}

/// `to_char` undoes `to_position`: in ASCII text whose lines and bytes can
/// be counted in a `u32`, the position of an offset names a line that
/// `to_char` accepts, and that line's start plus the position's character
/// is the offset, taken no further than the end of the text.
pub proof fn lemma_to_char_undoes_to_position(t: Seq<char>, offset: usize, p: Position)
    requires
        ascii_text(t),
        line_count(t) <= u32::MAX,
        utf8_bytes(t).len() <= u32::MAX,
        position_at(t, offset, p),
    ensures
        p.line <= line_count(t),
        line_char(t, p.line as int) + p.character == clamped(offset, t),
{
    lemma_line_chars(t);
    lemma_line_bytes(t);
    let line = choose|line: int|
        #[trigger] last_line_at(t, line, clamped(offset, t)) && p.line == line as u32
            && p.character == (clamped(offset, t) - line_byte(t, line)) as u32;
    assert(line_byte(t, line) == line_char(t, line));
    assert(line_byte(t, line) <= line_byte(t, line_count(t)));
}

/// An edit as tree-sitter takes it.
#[derive(Clone, Copy, PartialEq, Eq, Structural, Debug)]
pub struct InputEdit {
    pub start_byte: usize,
    pub old_end_byte: usize,
    pub new_end_byte: usize,
    pub start_position: Point,
    pub old_end_position: Point,
    pub new_end_position: Point,
}

/// The edit that replaces `range` with `text`: where it starts and ends
/// before and after, as char indices and as points.
pub fn to_input_edit(rope: &ropey::Rope, range: Range, text: &str) -> (e: InputEdit)
    requires
        range.start.line <= line_count(rope_text(*rope)),
        range.end.line <= line_count(rope_text(*rope)),
        line_char(rope_text(*rope), range.start.line as int) + range.start.character + (text.spec_bytes().len() as usize) <= usize::MAX,
        line_char(rope_text(*rope), range.end.line as int) + range.end.character <= usize::MAX,
    ensures
        e.start_byte == line_char(rope_text(*rope), range.start.line as int) + range.start.character,
        e.old_end_byte == line_char(rope_text(*rope), range.end.line as int) + range.end.character,
        e.new_end_byte == e.start_byte + (text.spec_bytes().len() as usize),
        e.start_position == (Point { row: range.start.line as usize, column: range.start.character as usize }),
        e.old_end_position == (Point { row: range.end.line as usize, column: range.end.character as usize }),
        exists|line: int|
            #[trigger] last_line_at(rope_text(*rope), line, clamped(e.new_end_byte, rope_text(*rope)))
                && e.new_end_position.row == (line as u32) as usize
                && e.new_end_position.column == ((clamped(e.new_end_byte, rope_text(*rope)) - line_byte(rope_text(*rope), line)) as u32) as usize,
{
    let start = range.start;
    let end = range.end;
    let start_byte = to_char(rope, start);
    let start_position = to_point(rope, start);
    let new_end_byte = start_byte + text.len();
    let new_end_position = to_position(rope, new_end_byte);
    let new_end_position = to_point(rope, new_end_position);
    let old_end_byte = to_char(rope, end);
    let old_end_position = to_point(rope, end);
    InputEdit { start_byte, old_end_byte, new_end_byte, start_position, old_end_position, new_end_position }
}

/// The text after the chars between `s` and `e` are removed (in whichever
/// order they come), when both lie within it.
pub open spec fn removed(t: Seq<char>, s: int, e: int) -> Seq<char> {
    if s <= e && e <= t.len() {
        t.take(s) + t.skip(e)
    } else if e <= t.len() && s <= t.len() {
        t.take(e) + t.skip(s)
    } else {
        t
    }
}

/// The text after a change: the range removed, then the new text inserted
/// where the range starts.
pub open spec fn changed(t: Seq<char>, s: int, e: int, text: Seq<char>) -> Seq<char> {
    let r = removed(t, s, e);
    if text.len() == 0 {
        r
    } else {
        r.take(s) + text + r.skip(s)
    }
}

/// A change whose range runs forward replaces exactly that range: the text
/// before it and after it stay, with the new text between them.
pub proof fn lemma_change_replaces_range(t: Seq<char>, s: int, e: int, text: Seq<char>)
    requires
        0 <= s <= e <= t.len(),
    ensures
        changed(t, s, e, text) == t.take(s) + text + t.skip(e),
{
    let r = removed(t, s, e);
    assert(r.take(s) =~= t.take(s));
    assert(r.skip(s) =~= t.skip(e));
    if text.len() == 0 {
        assert(t.take(s) + text =~= t.take(s));
        assert(r =~= t.take(s) + text + t.skip(e));
    } else {
        assert(changed(t, s, e, text) =~= t.take(s) + text + t.skip(e));
    }
}

/// Applies one change of a document: `range` is replaced by `text`.
/// Returns the edit for the parse tree and the document's new text.  The
/// rope panics where the new text would go past the end of what is left,
/// so such changes are left out.
pub fn apply_change(rope: &mut ropey::Rope, range: Range, text: &str) -> (r: (InputEdit, String))
    requires
        range.start.line <= line_count(rope_text(*old(rope))),
        range.end.line <= line_count(rope_text(*old(rope))),
        line_char(rope_text(*old(rope)), range.start.line as int) + range.start.character + (text.spec_bytes().len() as usize) <= usize::MAX,
        line_char(rope_text(*old(rope)), range.end.line as int) + range.end.character <= usize::MAX,
        text@.len() > 0 ==> line_char(rope_text(*old(rope)), range.start.line as int) + range.start.character
            <= removed(
                rope_text(*old(rope)),
                line_char(rope_text(*old(rope)), range.start.line as int) + range.start.character,
                line_char(rope_text(*old(rope)), range.end.line as int) + range.end.character,
            ).len(),
    ensures
        rope_text(*final(rope)) == changed(
            rope_text(*old(rope)),
            line_char(rope_text(*old(rope)), range.start.line as int) + range.start.character,
            line_char(rope_text(*old(rope)), range.end.line as int) + range.end.character,
            text@,
        ),
        r.1@ == rope_text(*final(rope)),
        r.0.start_byte == line_char(rope_text(*old(rope)), range.start.line as int) + range.start.character,
        r.0.old_end_byte == line_char(rope_text(*old(rope)), range.end.line as int) + range.end.character,
{
    let input_edit = to_input_edit(rope, range, text);
    let start = to_char(rope, range.start);
    let end = to_char(rope, range.end);
    let rope_len = rope_len_chars(rope);
    let within = end <= rope_len && start <= rope_len;
    if start <= end && within {
        rope_remove(rope, start, end);
    } else if within {
        rope_remove(rope, end, start);
    }
    if !text.is_empty() {
        rope_insert(rope, start, text);
    }
    let content = rope_to_string(rope);
    (input_edit, content)
}

/// The char index of a protocol position, where the rope has its line and
/// the index fits in a `usize`; else `None`.
pub fn try_to_char(rope: &ropey::Rope, position: Position) -> (r: Option<usize>)
    ensures
        match r {
            Some(c) => position.line <= line_count(rope_text(*rope))
                && c == line_char(rope_text(*rope), position.line as int) + position.character,
            None => position.line > line_count(rope_text(*rope))
                || line_char(rope_text(*rope), position.line as int) + position.character > usize::MAX,
        },
{
    let lines = rope_len_lines(rope);
    if position.line as usize > lines {
        return None;
    }
    let start_line = rope_line_to_char(rope, position.line as usize);
    if start_line > usize::MAX - position.character as usize {
        return None;
    }
    Some(to_char(rope, position))
}

/// Whether a change of `range` to `text` can be applied to the rope: its
/// lines exist, its indices fit, and the new text does not land past the
/// end of what is left.
pub open spec fn change_fits(t: Seq<char>, range: Range, text: &str) -> bool {
    &&& range.start.line <= line_count(t)
    &&& range.end.line <= line_count(t)
    &&& line_char(t, range.start.line as int) + range.start.character + (text.spec_bytes().len() as usize) <= usize::MAX
    &&& line_char(t, range.end.line as int) + range.end.character <= usize::MAX
    &&& text@.len() > 0 ==> line_char(t, range.start.line as int) + range.start.character
        <= removed(t, line_char(t, range.start.line as int) + range.start.character,
            line_char(t, range.end.line as int) + range.end.character).len()
}

/// Applies a change where it fits; else leaves the rope as it is and gives
/// `None`.
pub fn try_apply_change(rope: &mut ropey::Rope, range: Range, text: &str) -> (r: Option<(InputEdit, String)>)
    ensures
        match r {
            Some((e, content)) => change_fits(rope_text(*old(rope)), range, text)
                && rope_text(*final(rope)) == changed(
                    rope_text(*old(rope)),
                    line_char(rope_text(*old(rope)), range.start.line as int) + range.start.character,
                    line_char(rope_text(*old(rope)), range.end.line as int) + range.end.character,
                    text@,
                ) && content@ == rope_text(*final(rope)),
            None => !change_fits(rope_text(*old(rope)), range, text) && rope_text(*final(rope)) == rope_text(*old(rope)),
        },
{
    let lines = rope_len_lines(rope);
    if range.start.line as usize > lines || range.end.line as usize > lines {
        return None;
    }
    let s = rope_line_to_char(rope, range.start.line as usize);
    let e = rope_line_to_char(rope, range.end.line as usize);
    let n = text.len();
    if s > usize::MAX - range.start.character as usize {
        return None;
    }
    let start = s + range.start.character as usize;
    if start > usize::MAX - n {
        return None;
    }
    if e > usize::MAX - range.end.character as usize {
        return None;
    }
    let end = e + range.end.character as usize;
    if !text.is_empty() {
        let len = rope_len_chars(rope);
        let left = if start <= end && end <= len {
            len - (end - start)
        } else if end <= len && start <= len {
            len - (start - end)
        } else {
            len
        };
        proof {
            let t = rope_text(*rope);
            if start <= end && end <= len {
                assert(removed(t, start as int, end as int).len() == len - (end - start));
            } else if end <= len && start <= len {
                assert(removed(t, start as int, end as int).len() == len - (start - end));
            }
        }
        if start > left {
            return None;
        }
    }
    Some(apply_change(rope, range, text))
}

/// The edit that replaces `range` with `text`, where the rope has its lines
/// and the indices fit; else `None`.
pub fn try_to_input_edit(rope: &ropey::Rope, range: Range, text: &str) -> (r: Option<InputEdit>)
    ensures
        match r {
            Some(e) => e.start_byte == line_char(rope_text(*rope), range.start.line as int) + range.start.character
                && e.old_end_byte == line_char(rope_text(*rope), range.end.line as int) + range.end.character
                && e.new_end_byte == e.start_byte + (text.spec_bytes().len() as usize),
            None => !(range.start.line <= line_count(rope_text(*rope))
                && range.end.line <= line_count(rope_text(*rope))
                && line_char(rope_text(*rope), range.start.line as int) + range.start.character + (text.spec_bytes().len() as usize) <= usize::MAX
                && line_char(rope_text(*rope), range.end.line as int) + range.end.character <= usize::MAX),
        },
{
    let lines = rope_len_lines(rope);
    if range.start.line as usize > lines || range.end.line as usize > lines {
        return None;
    }
    let s = rope_line_to_char(rope, range.start.line as usize);
    let e = rope_line_to_char(rope, range.end.line as usize);
    if s > usize::MAX - range.start.character as usize {
        return None;
    }
    let start = s + range.start.character as usize;
    if start > usize::MAX - text.len() {
        return None;
    }
    if e > usize::MAX - range.end.character as usize {
        return None;
    }
    Some(to_input_edit(rope, range, text))
}

} // verus!
