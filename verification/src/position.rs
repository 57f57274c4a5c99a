//! Source positions, and the offsets in the raw text that they resolve to.
//!
//! A position is a line and a column. Lines are counted from 1, columns from
//! 0. The text is handled as the bytes of its UTF-8 encoding, and a line ends
//! at a newline byte.

use vstd::prelude::*;
use vstd::string::StringSliceAdditionalSpecFns;

verus! {

/// The byte that ends a line.
pub const NEWLINE: u8 = 0x0a;

/// The byte that may precede the newline in a two-byte line terminator.
pub const CARRIAGE_RETURN: u8 = 0x0d;

/// A place in a source file: a line counted from 1 and a column counted from 0.
#[derive(Clone, Copy, Debug, PartialEq, Eq, Structural)]
pub struct SourcePosition {
    pub line: usize,
    pub column: usize,
}

/// Index of the first newline at or after `from`, or the length of the text
/// where no newline follows.
pub open spec fn line_end(text: Seq<u8>, from: int) -> int
    decreases text.len() - from,
{
    if from >= text.len() {
        text.len() as int
    } else if text[from] == NEWLINE {
        from
    } else {
        line_end(text, from + 1)
    }
}

/// Index at which the given line begins: line 1 begins at 0, every later line
/// one past the newline that ends the line before it. Where the text has no
/// such line the result lies beyond the text.
pub open spec fn line_begin(text: Seq<u8>, line: nat) -> int
    decreases line,
{
    if line <= 1 {
        0
    } else {
        line_end(text, line_begin(text, (line - 1) as nat)) + 1
    }
}

/// Whether the text has a line of this number.
pub open spec fn has_line(text: Seq<u8>, line: nat) -> bool {
    line >= 1 && line_begin(text, line) <= text.len()
}

/// Length of the line that begins at `begin`, without its terminator. The
/// terminator is a newline, or a carriage return and a newline.
pub open spec fn stripped_len(text: Seq<u8>, begin: int) -> int {
    let end = line_end(text, begin);
    if begin < end && end < text.len() && text[end - 1] == CARRIAGE_RETURN {
        end - begin - 1
    } else {
        end - begin
    }
}

/// What the lines before `line` add up to: each counts for its stripped
/// length and one more for its terminator.
pub open spec fn line_offset(text: Seq<u8>, line: nat) -> int
    decreases line,
{
    if line <= 1 {
        0
    } else {
        let before = (line - 1) as nat;
        line_offset(text, before) + stripped_len(text, line_begin(text, before)) + 1
    }
}

/// The offset that a position resolves to: the sum over the lines before it,
/// plus its column. There is none where the text has no such line, or where
/// the sum does not fit the machine word.
pub open spec fn resolved(text: Seq<u8>, position: SourcePosition) -> Option<usize> {
    let offset = line_offset(text, position.line as nat) + position.column;
    if has_line(text, position.line as nat) && offset <= usize::MAX {
        Some(offset as usize)
    } else {
        None
    }
}

/// Number of newlines among the first `offset` bytes.
pub open spec fn newlines_before(text: Seq<u8>, offset: int) -> nat
    decreases offset,
{
    if offset <= 0 {
        0
    } else if text[offset - 1] == NEWLINE {
        newlines_before(text, offset - 1) + 1
    } else {
        newlines_before(text, offset - 1)
    }
}

/// Index one past the last newline among the first `offset` bytes, or 0 where
/// there is none: the start of the line that `offset` lies on.
pub open spec fn line_begin_before(text: Seq<u8>, offset: int) -> int
    decreases offset,
{
    if offset <= 0 {
        0
    } else if text[offset - 1] == NEWLINE {
        offset
    } else {
        line_begin_before(text, offset - 1)
    }
}

/// The position of an offset, read off the text: one more than the number of
/// newlines before it, and its distance from the start of its line. There is
/// none beyond the end of the text, or where the line number does not fit the
/// machine word.
pub open spec fn located(text: Seq<u8>, offset: int) -> Option<SourcePosition> {
    if 0 <= offset <= text.len() && newlines_before(text, offset) < usize::MAX {
        Some(
            SourcePosition {
                line: (newlines_before(text, offset) + 1) as usize,
                column: (offset - line_begin_before(text, offset)) as usize,
            },
        )
    } else {
        None
    }
}

/// No newline before `limit` follows a carriage return: every line that ends
/// before `limit` has a terminator of one byte.
pub open spec fn single_byte_terminators(text: Seq<u8>, limit: int) -> bool {
    forall|j: int|
        0 < j < limit && j < text.len() && #[trigger] text[j] == NEWLINE ==> text[j - 1]
            != CARRIAGE_RETURN
}

/// Number of newlines among the first `limit` bytes that follow a carriage
/// return: the lines that end in two bytes.
pub open spec fn two_byte_terminators(text: Seq<u8>, limit: int) -> nat
    decreases limit,
{
    if limit <= 0 {
        0
    } else if limit >= 2 && text[limit - 1] == NEWLINE && text[limit - 2] == CARRIAGE_RETURN {
        two_byte_terminators(text, limit - 1) + 1
    } else {
        two_byte_terminators(text, limit - 1)
    }
}

/// A line ends at `at` when no newline lies between its start and `at`, and
/// `at` holds a newline or is the end of the text.
pub proof fn lemma_line_end(text: Seq<u8>, from: int, at: int)
    requires
        0 <= from <= at <= text.len(),
        forall|j: int| from <= j < at ==> text[j] != NEWLINE,
        at == text.len() || text[at] == NEWLINE,
    ensures
        line_end(text, from) == at,
    decreases at - from,
{
    if from < at {
        lemma_line_end(text, from + 1, at);
    }
}

/// Once a line begins beyond the text, so does every later one.
pub proof fn lemma_no_later_line(text: Seq<u8>, line: nat, later: nat)
    requires
        1 <= line <= later,
        !has_line(text, line),
    ensures
        !has_line(text, later),
    decreases later - line,
{
    if line < later {
        lemma_no_later_line(text, (line + 1) as nat, later);
    }
}

/// Where a line ends: not before its start, not beyond the text, on a
/// newline unless the text ends first, and with no newline on the way.
pub proof fn lemma_line_end_bounds(text: Seq<u8>, from: int)
    requires
        0 <= from <= text.len(),
    ensures
        from <= line_end(text, from) <= text.len(),
        line_end(text, from) < text.len() ==> text[line_end(text, from)] == NEWLINE,
        forall|j: int| from <= j < line_end(text, from) ==> text[j] != NEWLINE,
    decreases text.len() - from,
{
    if from < text.len() && text[from] != NEWLINE {
        lemma_line_end_bounds(text, from + 1);
    }
}

/// A line that the text has begins after the one before it, which the text
/// has too.
pub proof fn lemma_earlier_line(text: Seq<u8>, line: nat)
    requires
        line >= 2,
        has_line(text, line),
    ensures
        has_line(text, (line - 1) as nat),
        0 <= line_begin(text, (line - 1) as nat) < line_begin(text, line),
    decreases line,
{
    let before = (line - 1) as nat;
    if before >= 2 {
        if !has_line(text, before) {
            lemma_no_later_line(text, before, line);
        }
        lemma_earlier_line(text, before);
    }
    lemma_line_end_bounds(text, line_begin(text, before));
}

/// Between two offsets with no newline from the one to the other, the count
/// of newlines and the start of the line stay what they were.
pub proof fn lemma_same_line(text: Seq<u8>, from: int, to: int)
    requires
        0 <= from <= to <= text.len(),
        forall|j: int| from <= j < to ==> text[j] != NEWLINE,
    ensures
        newlines_before(text, to) == newlines_before(text, from),
        from < to ==> line_begin_before(text, to) == line_begin_before(text, from),
    decreases to - from,
{
    if from < to {
        lemma_same_line(text, from, to - 1);
    }
}

/// A line begins after one newline fewer than its number, and at the start of
/// the line it lies on.
pub proof fn lemma_line_begin_located(text: Seq<u8>, line: nat)
    requires
        has_line(text, line),
    ensures
        line_begin(text, line) == 0 || text[line_begin(text, line) - 1] == NEWLINE,
        newlines_before(text, line_begin(text, line)) == line - 1,
        line_begin_before(text, line_begin(text, line)) == line_begin(text, line),
    decreases line,
{
    if line >= 2 {
        let before = (line - 1) as nat;
        lemma_earlier_line(text, line);
        lemma_line_begin_located(text, before);
        let begin = line_begin(text, before);
        lemma_line_end_bounds(text, begin);
        lemma_same_line(text, begin, line_end(text, begin));
    }
}

/// Between two offsets with no newline from the one to the other, no line
/// ends.
pub proof fn lemma_same_terminators(text: Seq<u8>, from: int, to: int)
    requires
        0 <= from <= to <= text.len(),
        forall|j: int| from <= j < to ==> text[j] != NEWLINE,
    ensures
        two_byte_terminators(text, to) == two_byte_terminators(text, from),
    decreases to - from,
{
    if from < to {
        lemma_same_terminators(text, from, to - 1);
    }
}

/// The lines before a line add up to the index at which it begins, less one
/// for each of them that ends in a carriage return and a newline: that is how
/// far a resolved offset falls short of the byte it is meant for.
pub proof fn lemma_line_offset_drift(text: Seq<u8>, line: nat)
    requires
        has_line(text, line),
    ensures
        line_offset(text, line) == line_begin(text, line) - two_byte_terminators(
            text,
            line_begin(text, line),
        ),
    decreases line,
{
    if line >= 2 {
        let before = (line - 1) as nat;
        lemma_earlier_line(text, line);
        lemma_line_offset_drift(text, before);
        lemma_line_begin_located(text, before);
        let begin = line_begin(text, before);
        lemma_line_end_bounds(text, begin);
        let end = line_end(text, begin);
        lemma_same_terminators(text, begin, end);
    }
}

/// Where no newline before `limit` follows a carriage return, no line before
/// it ends in two bytes.
pub proof fn lemma_no_two_byte_terminators(text: Seq<u8>, limit: int)
    requires
        limit <= text.len(),
        single_byte_terminators(text, limit),
    ensures
        two_byte_terminators(text, limit) == 0,
    decreases limit,
{
    if limit > 0 {
        lemma_no_two_byte_terminators(text, limit - 1);
    }
}

/// Resolving a position and locating the offset again gives the position
/// back: the offset is that of the byte at this line and column.
///
/// This holds of a position within the text, on a line that the text has and
/// at a column no greater than the length of that line, as long as every
/// earlier line ends in a newline alone. After a line that ends in a carriage
/// return and a newline the resolved offset falls short by one byte for each
/// such line.
pub proof fn lemma_resolve_round_trip(text: Seq<u8>, position: SourcePosition)
    requires
        text.len() <= usize::MAX,
        has_line(text, position.line as nat),
        position.column <= line_end(text, line_begin(text, position.line as nat)) - line_begin(
            text,
            position.line as nat,
        ),
        single_byte_terminators(text, line_begin(text, position.line as nat)),
    ensures
        resolved(text, position) is Some,
        located(text, resolved(text, position).unwrap() as int) == Some(position),
{
    let line = position.line as nat;
    let begin = line_begin(text, line);
    lemma_line_offset_drift(text, line);
    lemma_no_two_byte_terminators(text, begin);
    lemma_line_begin_located(text, line);
    lemma_line_end_bounds(text, begin);
    lemma_same_line(text, begin, begin + position.column);
}

/// Resolves a position against the bytes of a text.
pub fn offset_in(bytes: &[u8], position: SourcePosition) -> (r: Option<usize>)
    ensures
        r == resolved(bytes@, position),
        r matches Some(offset) ==> offset == line_offset(bytes@, position.line as nat)
            + position.column,
{
    if position.line == 0 {
        return None;
    }
    let mut line: usize = 1;
    let mut begin: usize = 0;
    let mut mapped: usize = 0;
    let mut i: usize = 0;
    while line < position.line && i < bytes.len()
        invariant
            1 <= line <= position.line,
            begin <= i <= bytes.len(),
            mapped <= begin,
            begin == line_begin(bytes@, line as nat),
            mapped == line_offset(bytes@, line as nat),
            forall|j: int| begin <= j < i ==> bytes@[j] != NEWLINE,
        decreases bytes.len() - i,
    {
        if bytes[i] == NEWLINE {
            proof {
                lemma_line_end(bytes@, begin as int, i as int);
            }
            let stripped: usize = if begin < i && bytes[i - 1] == CARRIAGE_RETURN {
                i - begin - 1
            } else {
                i - begin
            };
            mapped = mapped + stripped + 1;
            begin = i + 1;
            line = line + 1;
        }
        i = i + 1;
    }
    if line < position.line {
        proof {
            lemma_line_end(bytes@, begin as int, bytes@.len() as int);
            lemma_no_later_line(bytes@, (line + 1) as nat, position.line as nat);
        }
        None
    } else {
        mapped.checked_add(position.column)
    }
}

/// The offset of a position in a text, or `None` where the text has no such
/// line or the offset does not fit the machine word.
///
/// The offset is the sum, over the lines before the position's line, of the
/// line's length without its terminator plus one, and then the column. Lines
/// are numbered from 1, columns from 0, and lengths are counted in bytes. The
/// column is added as it is: one counted in characters is the distance in
/// bytes only as far as the line is ASCII.
pub fn try_resolve_offset(text: &str, position: SourcePosition) -> (r: Option<usize>)
    ensures
        r == resolved(text.spec_bytes(), position),
        r matches Some(offset) ==> offset == line_offset(text.spec_bytes(), position.line as nat)
            + position.column,
{
    offset_in(text.as_bytes(), position)
}

/// The offset of a position in a text that has the position's line. A
/// position on a line that the text does not have is an error of the caller;
/// [`try_resolve_offset`] tells whether the text has it.
pub fn resolve_offset(text: &str, position: SourcePosition) -> (r: usize)
    requires
        resolved(text.spec_bytes(), position) is Some,
    ensures
        r == line_offset(text.spec_bytes(), position.line as nat) + position.column,
{
    offset_in(text.as_bytes(), position).unwrap()
}

/// The line and column of an offset in a text, or `None` where the offset
/// lies beyond the text.
pub fn position_of(text: &str, offset: usize) -> (r: Option<SourcePosition>)
    ensures
        r == located(text.spec_bytes(), offset as int),
{
    let bytes = text.as_bytes();
    if offset > bytes.len() {
        return None;
    }
    let mut newlines: usize = 0;
    let mut begin: usize = 0;
    let mut i: usize = 0;
    while i < offset
        invariant
            i <= offset <= bytes.len(),
            newlines <= i,
            begin <= i,
            newlines == newlines_before(bytes@, i as int),
            begin == line_begin_before(bytes@, i as int),
        decreases offset - i,
    {
        if bytes[i] == NEWLINE {
            newlines = newlines + 1;
            begin = i + 1;
        }
        i = i + 1;
    }
    if newlines == usize::MAX {
        None
    } else {
        Some(SourcePosition { line: newlines + 1, column: offset - begin })
    }
}

} // verus!
