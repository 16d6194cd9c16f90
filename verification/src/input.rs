//! The input text as lines: where the cursor stands, and where it goes
//! when it is moved by a line. Positions count characters.

use vstd::prelude::*;

verus! {

/// Number of line breaks in a text.
pub open spec fn newline_count(text: Seq<char>) -> int
    decreases text.len(),
{
    if text.len() == 0 {
        0
    } else {
        newline_count(text.drop_last()) + if text.last() == '\n' {
            1int
        } else {
            0int
        }
    }
}

/// Where the last line of a text begins: behind its last line break, or at
/// zero where it has none.
pub open spec fn line_start_spec(text: Seq<char>) -> int
    decreases text.len(),
{
    if text.len() == 0 {
        0
    } else if text.last() == '\n' {
        text.len() as int
    } else {
        line_start_spec(text.drop_last())
    }
}

/// Where the line that holds the position `pos` ends: at the first line
/// break from `pos` on, or at the end of the text.
pub open spec fn line_end_spec(text: Seq<char>, pos: int) -> int
    decreases text.len() - pos,
{
    if pos < 0 || pos >= text.len() {
        text.len() as int
    } else if text[pos] == '\n' {
        pos
    } else {
        line_end_spec(text, pos + 1)
    }
}

/// Number of lines of a text as a reader counts them: a line break ends a
/// line, and what follows the last break is a line if it is not empty.
pub open spec fn lines_count_spec(text: Seq<char>) -> int {
    if text.len() == 0 {
        0
    } else {
        newline_count(text) + if text.last() == '\n' {
            0int
        } else {
            1int
        }
    }
}

/// The position that a cursor at `cursor` stands for: the cursor itself,
/// or the end of the text where it lies beyond.
pub open spec fn effective(text: Seq<char>, cursor: int) -> int {
    if cursor <= text.len() {
        cursor
    } else {
        text.len() as int
    }
}

/// Line and column of the cursor, both counted from zero.
pub open spec fn place_spec(text: Seq<char>, cursor: int) -> (int, int) {
    let c = effective(text, cursor);
    (newline_count(text.take(c)), c - line_start_spec(text.take(c)))
}

/// Where the cursor goes when it is moved up a line: to the same column of
/// the line before, or to that line's end where it is shorter. On the first
/// line the cursor stays where it is.
pub open spec fn line_up_spec(text: Seq<char>, cursor: int) -> int {
    let c = effective(text, cursor);
    let start = line_start_spec(text.take(c));
    if start == 0 {
        cursor
    } else {
        let before = line_start_spec(text.take(start - 1));
        let width = start - 1 - before;
        before + if c - start < width {
            c - start
        } else {
            width
        }
    }
}

/// Where the cursor goes when it is moved down a line: to the same column
/// of the line after, or to that line's end where it is shorter. On the last
/// line the cursor stays where it is.
pub open spec fn line_down_spec(text: Seq<char>, cursor: int) -> int {
    let c = effective(text, cursor);
    let start = line_start_spec(text.take(c));
    let end = line_end_spec(text, c);
    if end >= text.len() {
        cursor
    } else {
        let after = end + 1;
        let width = line_end_spec(text, after) - after;
        after + if c - start < width {
            c - start
        } else {
            width
        }
    }
}

pub proof fn lemma_newline_count_bounds(text: Seq<char>)
    ensures
        0 <= newline_count(text) <= text.len(),
    decreases text.len(),
{
    if text.len() > 0 {
        lemma_newline_count_bounds(text.drop_last());
    }
}

/// Number of line breaks among the first `upto` characters.
pub fn count_newlines(chars: &Vec<char>, upto: usize) -> (r: usize)
    requires
        upto <= chars.len(),
    ensures
        r == newline_count(chars@.take(upto as int)),
        r <= upto,
{
    let mut count: usize = 0;
    let mut i: usize = 0;
    assert(chars@.take(0) =~= Seq::<char>::empty());
    while i < upto
        invariant
            i <= upto <= chars.len(),
            count <= i,
            count == newline_count(chars@.take(i as int)),
        decreases upto - i,
    {
        proof {
            assert(chars@.take(i + 1).drop_last() =~= chars@.take(i as int));
            assert(chars@.take(i + 1).last() == chars@[i as int]);
        }
        if chars[i] == '\n' {
            count += 1;
        }
        i += 1;
    }
    count
}

/// Where the line begins that holds the position `pos`.
pub fn line_start(chars: &Vec<char>, pos: usize) -> (r: usize)
    requires
        pos <= chars.len(),
    ensures
        r == line_start_spec(chars@.take(pos as int)),
        r <= pos,
{
    let mut at: usize = pos;
    while at > 0 && chars[at - 1] != '\n'
        invariant
            at <= pos <= chars.len(),
            line_start_spec(chars@.take(pos as int)) == line_start_spec(chars@.take(at as int)),
        decreases at,
    {
        proof {
            assert(chars@.take(at as int).drop_last() =~= chars@.take(at - 1));
            assert(chars@.take(at as int).last() == chars@[at - 1]);
        }
        at -= 1;
    }
    proof {
        if at > 0 {
            assert(chars@.take(at as int).last() == chars@[at - 1]);
        }
    }
    at
}

/// Where the line ends that holds the position `pos`.
pub fn line_end(chars: &Vec<char>, pos: usize) -> (r: usize)
    requires
        pos <= chars.len(),
    ensures
        r == line_end_spec(chars@, pos as int),
        pos <= r <= chars.len(),
{
    let mut at: usize = pos;
    while at < chars.len() && chars[at] != '\n'
        invariant
            pos <= at <= chars.len(),
            line_end_spec(chars@, pos as int) == line_end_spec(chars@, at as int),
        decreases chars.len() - at,
    {
        at += 1;
    }
    at
}

/// Number of lines as a reader counts them.
pub fn count_lines(chars: &Vec<char>) -> (r: usize)
    ensures
        r == lines_count_spec(chars@),
{
    let len = chars.len();
    if len == 0 {
        return 0;
    }
    let breaks = count_newlines(chars, len);
    assert(chars@.take(len as int) =~= chars@);
    if chars[len - 1] == '\n' {
        breaks
    } else {
        assert(chars@.drop_last() =~= chars@.take(len - 1));
        proof {
            lemma_newline_count_bounds(chars@.take(len - 1));
        }
        breaks + 1
    }
}

/// Line and column of the cursor.
pub fn locate(chars: &Vec<char>, cursor: usize) -> (r: (usize, usize))
    ensures
        (r.0 as int, r.1 as int) == place_spec(chars@, cursor as int),
{
    let c = if cursor <= chars.len() {
        cursor
    } else {
        chars.len()
    };
    let line = count_newlines(chars, c);
    let start = line_start(chars, c);
    (line, c - start)
}

/// Where the cursor goes when it is moved up a line.
pub fn line_up(chars: &Vec<char>, cursor: usize) -> (r: usize)
    ensures
        r == line_up_spec(chars@, cursor as int),
{
    let c = if cursor <= chars.len() {
        cursor
    } else {
        chars.len()
    };
    let start = line_start(chars, c);
    if start == 0 {
        return cursor;
    }
    let before = line_start(chars, start - 1);
    let width = start - 1 - before;
    let col = c - start;
    if col < width {
        before + col
    } else {
        before + width
    }
}

/// Where the cursor goes when it is moved down a line.
pub fn line_down(chars: &Vec<char>, cursor: usize) -> (r: usize)
    ensures
        r == line_down_spec(chars@, cursor as int),
{
    let c = if cursor <= chars.len() {
        cursor
    } else {
        chars.len()
    };
    let start = line_start(chars, c);
    let end = line_end(chars, c);
    if end >= chars.len() {
        return cursor;
    }
    let after = end + 1;
    let width = line_end(chars, after) - after;
    let col = c - start;
    if col < width {
        after + col
    } else {
        after + width
    }
}

} // verus!
