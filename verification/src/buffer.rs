//! The line under edit: a gap buffer of the `scribe` crate, and what this
//! library relies on of it.
//!
//! Nothing here is proved. Each contract below states what the source of the
//! gap buffer shows for a buffer that holds a plain line.
use vstd::prelude::*;
use scribe::buffer::{GapBuffer, Position, Range};

verus! {

/// The gap buffer of `scribe`. Nothing is known of what is inside one but
/// its text, [`buffer_line`].
#[verifier::external_type_specification]
#[verifier::external_body]
pub struct ExGapBuffer(GapBuffer);

/// The text of a buffer: what `GapBuffer::to_string` returns for it.
pub uninterp spec fn buffer_line(buffer: GapBuffer) -> Seq<char>;

/// A plain character: of ASCII, and neither a line feed nor a carriage
/// return. In a text of plain characters every character is one byte and
/// stands by itself, and all of the text is one line.
pub open spec fn is_plain_char(c: char) -> bool {
    '\0' <= c <= '\u{7f}' && c != '\n' && c != '\r'
}

/// A text of plain characters.
pub open spec fn is_plain(text: Seq<char>) -> bool {
    forall|i: int| 0 <= i < text.len() ==> is_plain_char(#[trigger] text[i])
}

/// `text` with `data` put in before the character at `at`.
pub open spec fn spliced(text: Seq<char>, at: int, data: Seq<char>) -> Seq<char> {
    text.subrange(0, at) + data + text.subrange(at, text.len() as int)
}

/// `text` without the characters from `from` up to `to`.
pub open spec fn cut(text: Seq<char>, from: int, to: int) -> Seq<char> {
    text.subrange(0, from) + text.subrange(to, text.len() as int)
}

/// `GapBuffer::new` of `scribe`, on the empty text: the buffer is empty.
#[verifier::external_body]
pub(crate) fn buffer_new() -> (buffer: GapBuffer)
    ensures
        buffer_line(buffer) == Seq::<char>::empty(),
{
    GapBuffer::new(String::new())
}

/// `GapBuffer::to_string` of `scribe`, through its `Display`: the text of
/// the buffer.
#[verifier::external_body]
pub(crate) fn buffer_text(buffer: &GapBuffer) -> (text: String)
    ensures
        text@ == buffer_line(*buffer),
{
    buffer.to_string()
}

/// `GapBuffer::insert` of `scribe`, at the offset `at` of the first line.
///
/// In a plain line an offset counts characters. Within the line or at its
/// end, `data` is put in before the character at the offset; beyond the
/// end, the buffer stays as it is.
#[verifier::external_body]
pub(crate) fn buffer_insert(buffer: &mut GapBuffer, data: &str, at: usize)
    ensures
        is_plain(buffer_line(*old(buffer))) ==> buffer_line(*final(buffer)) == (if at
            <= buffer_line(*old(buffer)).len() {
            spliced(buffer_line(*old(buffer)), at as int, data@)
        } else {
            buffer_line(*old(buffer))
        }),
{
    buffer.insert(data, &Position { line: 0, offset: at })
}

/// `GapBuffer::delete` of `scribe`, on the range of the first line from the
/// offset `from` to the offset `to`, which is not before it.
///
/// In a plain line the characters from `from` up to `to`, or up to the end
/// of the line where `to` is beyond it, are taken out; where `from` is
/// beyond the end, the buffer stays as it is.
#[verifier::external_body]
pub(crate) fn buffer_delete(buffer: &mut GapBuffer, from: usize, to: usize)
    requires
        from <= to,
    ensures
        is_plain(buffer_line(*old(buffer))) ==> buffer_line(*final(buffer)) == ({
            let line = buffer_line(*old(buffer));
            if from > line.len() {
                line
            } else if to > line.len() {
                cut(line, from as int, line.len() as int)
            } else {
                cut(line, from as int, to as int)
            }
        }),
{
    buffer.delete(
        &Range::new(Position { line: 0, offset: from }, Position { line: 0, offset: to }),
    )
}

} // verus!
