//! The text buffer of an open document, and the mapping between editor
//! positions and offsets into it.

use vstd::prelude::*;
use crate::geometry::Position;
use ropey::Rope;

verus! {

/// The rope of `ropey`, taken as an opaque value.
#[verifier::external_type_specification]
#[verifier::external_body]
pub struct ExRope(Rope);

/// The characters that a rope holds, in order.
pub uninterp spec fn rope_chars(rope: Rope) -> Seq<char>;

/// The index of the first character of line `line` in a text of the given
/// characters, as the rope counts lines; `None` where the text has no such
/// line.
pub uninterp spec fn line_start(chars: Seq<char>, line: usize) -> Option<usize>;

/// `Rope::from_str`: the rope holds the characters of `text`.
#[verifier::external_body]
pub(crate) fn rope_from_text(text: &str) -> (rope: Rope)
    ensures
        rope_chars(rope) == text@,
{
    Rope::from_str(text)
}

/// `Rope::clone`: the copy holds the same characters.
pub assume_specification[ <Rope as Clone>::clone ](rope: &Rope) -> (copy: Rope)
    ensures
        rope_chars(copy) == rope_chars(*rope),
;

/// `Rope::len_chars`: the number of characters that the rope holds.
#[verifier::external_body]
pub(crate) fn rope_len(rope: &Rope) -> (n: usize)
    ensures
        n == rope_chars(*rope).len(),
{
    rope.len_chars()
}

/// `Rope::try_line_to_char`, its error dropped: where the line starts, a
/// function of the rope's characters and the line alone.
#[verifier::external_body]
pub(crate) fn rope_line_start(rope: &Rope, line: usize) -> (start: Option<usize>)
    ensures
        start == line_start(rope_chars(*rope), line),
{
    rope.try_line_to_char(line).ok()
}

/// `Rope::slice`, and the conversion of the `RopeSlice` into a `String`:
/// the characters from `start` up to `end`, copied out of the rope.
#[verifier::external_body]
pub(crate) fn rope_piece(rope: &Rope, start: usize, end: usize) -> (piece: String)
    requires
        start <= end <= rope_chars(*rope).len(),
    ensures
        piece@ == rope_chars(*rope).subrange(start as int, end as int),
{
    String::from(rope.slice(start..end))
}

/// The number of bytes that a character takes in UTF-8.
pub open spec fn char_width(c: char) -> nat {
    if (c as u32) < 0x80 {
        1
    } else if (c as u32) < 0x800 {
        2
    } else if (c as u32) < 0x10000 {
        3
    } else {
        4
    }
}

/// The number of bytes that the first `count` characters of `chars` take
/// in UTF-8: the byte offset at which character `count` begins.
pub open spec fn bytes_before(chars: Seq<char>, count: int) -> nat
    decreases count,
{
    if count <= 0 || count > chars.len() {
        0
    } else {
        bytes_before(chars, count - 1) + char_width(chars[count - 1])
    }
}

/// The characters of `chars` that take the bytes from `start` up to `end`
/// of its UTF-8 form, where both ends fall between characters; `None`
/// where they do not, or where the range does not lie in the text.
pub open spec fn byte_span_text(chars: Seq<char>, start: usize, end: usize) -> Option<Seq<char>> {
    if exists|i: int, j: int| spans_bytes(chars, start, end, i, j) {
        let (i, j) = choose|i: int, j: int| spans_bytes(chars, start, end, i, j);
        Some(chars.subrange(i, j))
    } else {
        None
    }
}

/// The characters from `i` up to `j` take exactly the bytes from `start`
/// up to `end`.
pub open spec fn spans_bytes(chars: Seq<char>, start: usize, end: usize, i: int, j: int) -> bool {
    0 <= i <= j <= chars.len() && bytes_before(chars, i) == start && bytes_before(chars, j) == end
}

/// `Rope::char_to_byte`: the byte offset at which the character with the
/// given index begins.
#[verifier::external_body]
pub(crate) fn rope_char_to_byte(rope: &Rope, index: usize) -> (byte: usize)
    requires
        index <= rope_chars(*rope).len(),
    ensures
        byte == bytes_before(rope_chars(*rope), index as int),
{
    rope.char_to_byte(index)
}

/// `Rope::get_byte_slice`, and the conversion of the `RopeSlice` into a
/// `String`: the characters that take the bytes from `start` up to `end`,
/// copied out of the rope; `None` where the range is not in the rope or an
/// end falls inside a character.
#[verifier::external_body]
pub(crate) fn rope_byte_piece(rope: &Rope, start: usize, end: usize) -> (piece: Option<String>)
    ensures
        piece is Some == byte_span_text(rope_chars(*rope), start, end) is Some,
        piece matches Some(s) ==> byte_span_text(rope_chars(*rope), start, end) == Some(s@),
{
    rope.get_byte_slice(start..end).map(String::from)
}

/// The text buffer of an open document.
#[derive(Clone)]
pub struct TextBuffer {
    rope: Rope,
}

impl View for TextBuffer {
    type V = Seq<char>;

    closed spec fn view(&self) -> Seq<char> {
        rope_chars(self.rope)
    }
}

/// The offset that lies `character` places after `start`, where there is a
/// start and the sum is a machine word.
pub open spec fn offset_after(start: Option<usize>, character: u32) -> Option<usize> {
    match start {
        Some(s) => if s + character <= usize::MAX {
            Some((s + character) as usize)
        } else {
            None
        },
        None => None,
    }
}

/// The byte offset of the character that lies `character` places after
/// the character `start`, where there is a start and the text reaches that
/// far.
pub open spec fn byte_offset_after(chars: Seq<char>, start: Option<usize>, character: u32)
    -> Option<usize> {
    match offset_after(start, character) {
        Some(index) => if index <= chars.len() && bytes_before(chars, index as int) <= usize::MAX {
            Some(bytes_before(chars, index as int) as usize)
        } else {
            None
        },
        None => None,
    }
}

/// The characters of `chars` from `start` up to `end`, where that range
/// lies in the text.
pub open spec fn span_text(chars: Seq<char>, start: usize, end: usize) -> Option<Seq<char>> {
    if start <= end <= chars.len() {
        Some(chars.subrange(start as int, end as int))
    } else {
        None
    }
}

/// Adds a column to the start of a line.
pub fn offset_from_line_start(start: Option<usize>, character: u32) -> (offset: Option<usize>)
    ensures
        offset == offset_after(start, character),
{
    match start {
        Some(s) => s.checked_add(character as usize),
        None => None,
    }
}

impl TextBuffer {
    /// A buffer that holds `text`.
    pub fn new(text: &str) -> (buffer: TextBuffer)
        ensures
            buffer@ == text@,
    {
        TextBuffer { rope: rope_from_text(text) }
    }

    /// The number of characters in the buffer.
    pub fn len(&self) -> (n: usize)
        ensures
            n == self@.len(),
    {
        rope_len(&self.rope)
    }

    /// Whether the buffer has a line with this number.
    pub fn has_line(&self, line: usize) -> (r: bool)
        ensures
            r == line_start(self@, line) is Some,
    {
        rope_line_start(&self.rope, line).is_some()
    }

    /// The character index of an editor position: the start of its line
    /// plus its column. `None` where the buffer has no such line.
    pub fn char_index_of(&self, position: Position) -> (index: Option<usize>)
        ensures
            index == offset_after(line_start(self@, position.line as usize), position.character),
    {
        let start = rope_line_start(&self.rope, position.line as usize);
        offset_from_line_start(start, position.character)
    }

    /// The byte offset of an editor position: that of the character which
    /// the position's line and column name. `None` where the buffer has no
    /// such line, or the column lies beyond the end of the text.
    pub fn offset_of(&self, position: Position) -> (offset: Option<usize>)
        ensures
            offset == byte_offset_after(
                self@,
                line_start(self@, position.line as usize),
                position.character,
            ),
    {
        match self.char_index_of(position) {
            Some(index) => if index <= rope_len(&self.rope) {
                Some(rope_char_to_byte(&self.rope, index))
            } else {
                None
            },
            None => None,
        }
    }

    /// The text that takes the bytes from `start` up to `end`: `None`
    /// where the range does not lie in the buffer or an end falls inside a
    /// character.
    pub fn byte_span(&self, start: usize, end: usize) -> (piece: Option<String>)
        ensures
            piece is Some == byte_span_text(self@, start, end) is Some,
            piece matches Some(s) ==> byte_span_text(self@, start, end) == Some(s@),
    {
        rope_byte_piece(&self.rope, start, end)
    }

    /// The text between two character indices: the characters of the range where it
    /// lies in the buffer, `None` where it does not.
    pub fn span(&self, start: usize, end: usize) -> (piece: Option<String>)
        ensures
            piece is Some == span_text(self@, start, end) is Some,
            piece matches Some(s) ==> span_text(self@, start, end) == Some(s@),
    {
        if start <= end && end <= rope_len(&self.rope) {
            Some(rope_piece(&self.rope, start, end))
        } else {
            None
        }
    }
}

} // verus!
