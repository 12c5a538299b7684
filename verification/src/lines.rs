//! The lines of a text.

use crate::text::first_position;
use crate::text::lemma_first_position;
use vstd::prelude::*;

verus! {

/// Where the first line of `text` ends: the position of its first line
/// feed, or its length where it has none.
pub open spec fn line_end(text: Seq<char>) -> int {
    first_position(text, '\n')
}

/// The first line of `text`, without its line ending. A line ends with a
/// line feed, or with a carriage return and a line feed; a carriage return
/// that no line feed follows belongs to the line. An empty text has no
/// line.
pub open spec fn first_line(text: Seq<char>) -> Option<Seq<char>> {
    if text.len() == 0 {
        None
    } else {
        let end = line_end(text);
        if 0 < end < text.len() && text[end - 1] == '\r' {
            Some(text.subrange(0, end - 1))
        } else {
            Some(text.subrange(0, end))
        }
    }
}

/// The last character of the first line of `text`, where there is one.
pub open spec fn last_char_of_first_line_spec(text: Seq<char>) -> Option<char> {
    match first_line(text) {
        Some(line) => if line.len() > 0 {
            Some(line.last())
        } else {
            None
        },
        None => None,
    }
}

/// The last character of the first line of `text`: none where the text or
/// its first line is empty.
pub fn last_char_of_first_line(text: &str) -> (last: Option<char>)
    ensures
        last == last_char_of_first_line_spec(text@),
{
    let mut last: Option<char> = None;
    let mut before: Option<char> = None;
    for c in it: text.chars()
        invariant
            it.seq() == text@,
            forall|i: int| 0 <= i < it.index() ==> text@[i] != '\n',
            last == if it.index() > 0 {
                Some(text@[it.index() - 1])
            } else {
                None
            },
            before == if it.index() > 1 {
                Some(text@[it.index() - 2])
            } else {
                None
            },
    {
        if c == '\n' {
            proof {
                lemma_first_position(text@, '\n', it.index() as int);
            }
            if last == Some('\r') {
                return before;
            } else {
                return last;
            }
        }
        before = last;
        last = Some(c);
    }
    proof {
        lemma_first_position(text@, '\n', text@.len() as int);
    }
    last
}

} // verus!
