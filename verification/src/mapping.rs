//! The text of a map: its rows, and what makes a map malformed.
//!
//! A map is written row by row, one row to a line, each cell as the symbol
//! of its terrain. Lines end at a line feed; white space around a row and
//! lines of nothing but white space do not count.

use vstd::prelude::*;
use vstd::utf8::{encode_utf8, is_ascii_chars, is_ascii_chars_encode_utf8};

verus! {

/// What makes a map malformed.
#[derive(Clone, Copy, Debug, PartialEq, Eq)]
pub enum MapError {
    /// A row is not as long as the first.
    UnequalLines,
    /// A row holds a character that is no terrain symbol.
    InvalidCharacter,
}

impl MapError {
    /// The error in words.
    pub fn message(&self) -> (text: &'static str)
        ensures
            text@ == match *self {
                MapError::UnequalLines => "Lines are not the same length"@,
                MapError::InvalidCharacter => "Invalid character in line"@,
            },
    {
        match self {
            MapError::UnequalLines => "Lines are not the same length",
            MapError::InvalidCharacter => "Invalid character in line",
        }
    }
}

/// The symbols that a map may hold.
pub struct Parameters {
    pub allowed_cells: [char; 4],
}

impl Parameters {
    /// The symbols of water, highland, lowland and desert.
    pub fn island() -> (p: Parameters)
        ensures
            p.allowed_cells@ == seq!['W', 'H', 'L', 'D'],
    {
        let p = Parameters { allowed_cells: ['W', 'H', 'L', 'D'] };
        assert(p.allowed_cells@ =~= seq!['W', 'H', 'L', 'D']);
        p
    }
}

/// Whether `c` is white space: a character with the Unicode property
/// `White_Space`.
pub open spec fn is_space(c: char) -> bool {
    let u = c as u32;
    ||| 0x09 <= u <= 0x0D
    ||| u == 0x20
    ||| u == 0x85
    ||| u == 0xA0
    ||| u == 0x1680
    ||| 0x2000 <= u <= 0x200A
    ||| u == 0x2028
    ||| u == 0x2029
    ||| u == 0x202F
    ||| u == 0x205F
    ||| u == 0x3000
}

/// Whether `c` is a terrain symbol: `W`, `H`, `L` or `D`.
pub open spec fn allowed(c: char) -> bool {
    c == 'W' || c == 'H' || c == 'L' || c == 'D'
}

/// Whether every character of the row is a terrain symbol.
pub open spec fn all_allowed(row: Seq<char>) -> bool {
    forall|i: int| 0 <= i < row.len() ==> allowed(#[trigger] row[i])
}

/// Where the line that starts at `from` ends: at the next line feed, or at
/// the end of the text.
pub open spec fn line_end(text: Seq<char>, from: int) -> int
    decreases text.len() - from,
{
    if from >= text.len() {
        text.len() as int
    } else if text[from] == '\n' {
        from
    } else {
        line_end(text, from + 1)
    }
}

/// The first position from `from` that holds no white space, or `to`.
pub open spec fn text_start(text: Seq<char>, from: int, to: int) -> int
    decreases to - from,
{
    if from >= to || !is_space(text[from]) {
        from
    } else {
        text_start(text, from + 1, to)
    }
}

/// The position behind the last character before `to` that is no white
/// space, or `from`.
pub open spec fn text_end(text: Seq<char>, from: int, to: int) -> int
    decreases to - from,
{
    if to <= from || !is_space(text[to - 1]) {
        to
    } else {
        text_end(text, from, to - 1)
    }
}

/// The rows of the lines from `from` on: each line without the white space
/// around it, but for the lines that hold nothing else.
pub open spec fn rows_from(text: Seq<char>, from: int) -> Seq<Seq<char>>
    decreases text.len() - from,
{
    if from < 0 || from > text.len() {
        Seq::empty()
    } else {
        let end = line_end(text, from);
        let first = text_start(text, from, end);
        let last = text_end(text, first, end);
        proof {
            lemma_line_end(text, from);
        }
        let rest = if end < text.len() {
            rows_from(text, end + 1)
        } else {
            Seq::empty()
        };
        if first < last {
            seq![text.subrange(first, last)] + rest
        } else {
            rest
        }
    }
}

/// The rows of a map.
pub open spec fn rows(text: Seq<char>) -> Seq<Seq<char>> {
    rows_from(text, 0)
}

/// What is wrong with a row of a map whose rows are `width` bytes long:
/// its length, else a character of it.
pub open spec fn row_fault(row: Seq<char>, width: nat) -> Option<MapError> {
    if encode_utf8(row).len() != width {
        Some(MapError::UnequalLines)
    } else if !all_allowed(row) {
        Some(MapError::InvalidCharacter)
    } else {
        None
    }
}

/// What is wrong with the first of the rows that is wrong.
pub open spec fn fault(rows: Seq<Seq<char>>, width: nat) -> Option<MapError>
    decreases rows.len(),
{
    if rows.len() == 0 {
        None
    } else if row_fault(rows[0], width) is Some {
        row_fault(rows[0], width)
    } else {
        fault(rows.drop_first(), width)
    }
}

/// What is wrong with a map: what is wrong with the first of its rows that
/// is not as long, in bytes, as the first row, or holds a character that is
/// no terrain symbol.
pub open spec fn map_fault(text: Seq<char>) -> Option<MapError> {
    if rows(text).len() == 0 {
        None
    } else {
        fault(rows(text), encode_utf8(rows(text)[0]).len())
    }
}

/// The line ends within the text, at a line feed or at the end.
pub proof fn lemma_line_end(text: Seq<char>, from: int)
    requires
        0 <= from <= text.len(),
    ensures
        from <= line_end(text, from) <= text.len(),
        line_end(text, from) < text.len() ==> text[line_end(text, from)] == '\n',
        forall|i: int| from <= i < line_end(text, from) ==> text[i] != '\n',
    decreases text.len() - from,
{
    if from < text.len() && text[from] != '\n' {
        lemma_line_end(text, from + 1);
    }
}

/// The text of a line lies within the line.
pub proof fn lemma_text_bounds(text: Seq<char>, from: int, to: int)
    requires
        0 <= from <= to <= text.len(),
    ensures
        from <= text_start(text, from, to) <= to,
        from <= text_end(text, from, to) <= to,
    decreases to - from,
{
    if from < to {
        if is_space(text[from]) {
            lemma_text_bounds(text, from + 1, to);
        }
        if is_space(text[to - 1]) {
            lemma_text_bounds(text, from, to - 1);
        }
    }
}

/// Rows without a fault are rows of terrain symbols, each `width` bytes
/// long.
pub proof fn lemma_faultless(rows: Seq<Seq<char>>, width: nat)
    requires
        fault(rows, width) is None,
    ensures
        forall|i: int|
            0 <= i < rows.len() ==> all_allowed(#[trigger] rows[i]) && encode_utf8(rows[i]).len() == width,
    decreases rows.len(),
{
    if rows.len() > 0 {
        lemma_faultless(rows.drop_first(), width);
        assert forall|i: int| 0 <= i < rows.len() implies all_allowed(#[trigger] rows[i])
            && encode_utf8(rows[i]).len() == width by {
            if i > 0 {
                assert(rows[i] == rows.drop_first()[i - 1]);
            }
        }
    }
}

/// The sequences of characters that the lines hold.
pub open spec fn row_views(lines: Seq<&str>) -> Seq<Seq<char>> {
    Seq::new(lines.len(), |i: int| lines[i]@)
}

/// Rows without a fault do not count for what is wrong with the rows behind
/// them.
pub proof fn lemma_fault_skip(good: Seq<Seq<char>>, rest: Seq<Seq<char>>, width: nat)
    requires
        forall|i: int| 0 <= i < good.len() ==> row_fault(#[trigger] good[i], width) is None,
    ensures
        fault(good + rest, width) == fault(rest, width),
    decreases good.len(),
{
    if good.len() == 0 {
        assert(good + rest =~= rest);
    } else {
        assert((good + rest).drop_first() =~= good.drop_first() + rest);
        assert((good + rest)[0] == good[0]);
        assert forall|i: int| 0 <= i < good.drop_first().len() implies row_fault(
            #[trigger] good.drop_first()[i],
            width,
        ) is None by {
            assert(good.drop_first()[i] == good[i + 1]);
        }
        lemma_fault_skip(good.drop_first(), rest, width);
    }
}

/// A map has no more rows than characters, and no row is longer than the
/// map.
pub proof fn lemma_rows_fit(text: Seq<char>, from: int)
    requires
        0 <= from <= text.len(),
    ensures
        rows_from(text, from).len() <= text.len() - from,
        forall|i: int|
            0 <= i < rows_from(text, from).len() ==> (#[trigger] rows_from(text, from)[i]).len()
                <= text.len(),
    decreases text.len() - from,
{
    let end = line_end(text, from);
    lemma_line_end(text, from);
    lemma_text_bounds(text, from, end);
    let first = text_start(text, from, end);
    let last = text_end(text, first, end);
    lemma_text_bounds(text, first, end);
    let rest = if end < text.len() {
        rows_from(text, end + 1)
    } else {
        Seq::empty()
    };
    if end < text.len() {
        lemma_rows_fit(text, end + 1);
    }
    let out = rows_from(text, from);
    assert forall|i: int| 0 <= i < out.len() implies (#[trigger] out[i]).len() <= text.len() by {
        if first < last {
            if i > 0 {
                assert(out[i] == rest[i - 1]);
            }
        }
    }
}

/// A row of terrain symbols takes one byte for each.
pub proof fn lemma_allowed_width(row: Seq<char>)
    requires
        all_allowed(row),
    ensures
        encode_utf8(row).len() == row.len(),
{
    assert(is_ascii_chars(row)) by {
        assert forall|i: int| 0 <= i < row.len() implies '\0' <= #[trigger] row[i] <= '\u{7f}' by {
            assert(allowed(row[i]));
        }
    }
    is_ascii_chars_encode_utf8(row);
}

/// The characters of `s`.
pub fn chars_of(s: &str) -> (chars: Vec<char>)
    ensures
        chars@ == s@,
{
    let mut chars: Vec<char> = Vec::new();
    for c in it: s.chars()
        invariant
            it.seq() == s@,
            chars@ == it.seq().take(it.index() as int),
    {
        chars.push(c);
        assert(it.seq().take(it.index() + 1) =~= it.seq().take(it.index() as int).push(c));
    }
    assert(s@.take(s@.len() as int) =~= s@);
    chars
}

/// Whether `c` is white space.
pub fn is_space_char(c: char) -> (b: bool)
    ensures
        b == is_space(c),
{
    let u: u32 = c as u32;
    (0x09 <= u && u <= 0x0D) || u == 0x20 || u == 0x85 || u == 0xA0 || u == 0x1680 || (0x2000 <= u
        && u <= 0x200A) || u == 0x2028 || u == 0x2029 || u == 0x202F || u == 0x205F || u == 0x3000
}

/// Whether `c` is one of the symbols that a map may hold.
pub fn is_allowed(c: char) -> (b: bool)
    ensures
        b == allowed(c),
{
    let symbols = Parameters::island();
    let mut i: usize = 0;
    while i < 4
        invariant
            i <= 4,
            symbols.allowed_cells@ == seq!['W', 'H', 'L', 'D'],
            forall|j: int| 0 <= j < i ==> symbols.allowed_cells@[j] != c,
        decreases 4 - i,
    {
        if symbols.allowed_cells[i] == c {
            return true;
        }
        i = i + 1;
    }
    assert(symbols.allowed_cells@[0] != c && symbols.allowed_cells@[1] != c && symbols.allowed_cells@[2]
        != c && symbols.allowed_cells@[3] != c);
    false
}

/// Where the line that starts at `from` ends.
pub fn find_line_end(text: &Vec<char>, from: usize) -> (end: usize)
    requires
        from <= text.len(),
    ensures
        end == line_end(text@, from as int),
        from <= end <= text.len(),
{
    let mut end: usize = from;
    while end < text.len() && text[end] != '\n'
        invariant
            from <= end <= text.len(),
            line_end(text@, end as int) == line_end(text@, from as int),
        decreases text.len() - end,
    {
        end = end + 1;
    }
    end
}

/// The first position from `from` that holds no white space, or `to`.
pub fn find_text_start(text: &Vec<char>, from: usize, to: usize) -> (first: usize)
    requires
        from <= to <= text.len(),
    ensures
        first == text_start(text@, from as int, to as int),
        from <= first <= to,
{
    let mut first: usize = from;
    while first < to && is_space_char(text[first])
        invariant
            from <= first <= to <= text.len(),
            text_start(text@, first as int, to as int) == text_start(text@, from as int, to as int),
        decreases to - first,
    {
        first = first + 1;
    }
    first
}

/// The position behind the last character before `to` that is no white
/// space, or `from`.
pub fn find_text_end(text: &Vec<char>, from: usize, to: usize) -> (last: usize)
    requires
        from <= to <= text.len(),
    ensures
        last == text_end(text@, from as int, to as int),
        from <= last <= to,
{
    let mut last: usize = to;
    while last > from && is_space_char(text[last - 1])
        invariant
            from <= last <= to <= text.len(),
            text_end(text@, from as int, last as int) == text_end(text@, from as int, to as int),
        decreases last - from,
    {
        last = last - 1;
    }
    last
}

/// Whether the characters from `from` to `to` are terrain symbols.
pub fn span_allowed(text: &Vec<char>, from: usize, to: usize) -> (b: bool)
    requires
        from <= to <= text.len(),
    ensures
        b == all_allowed(text@.subrange(from as int, to as int)),
{
    let ghost row = text@.subrange(from as int, to as int);
    let mut i: usize = from;
    while i < to
        invariant
            from <= i <= to <= text.len(),
            row == text@.subrange(from as int, to as int),
            forall|j: int| 0 <= j < i - from ==> allowed(#[trigger] row[j]),
        decreases to - i,
    {
        if !is_allowed(text[i]) {
            assert(!allowed(row[i - from]));
            return false;
        }
        i = i + 1;
    }
    true
}

} // verus!
