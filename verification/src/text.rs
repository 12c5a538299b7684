//! Views of values that hold text, and positions in a text.

use vstd::prelude::*;

verus! {

/// The text of an optional string.
pub open spec fn text_of(s: Option<String>) -> Option<Seq<char>> {
    match s {
        Some(s) => Some(s@),
        None => None,
    }
}

/// The position of the first `mark` in `text`, or the length of `text`
/// where it holds no `mark`.
pub open spec fn first_position(text: Seq<char>, mark: char) -> int
    decreases text.len(),
{
    if text.len() == 0 || text[0] == mark {
        0
    } else {
        1 + first_position(text.drop_first(), mark)
    }
}

/// The first `mark` of `text` stands at `first_position`: no `mark` stands
/// before it, and it is a position in the text or the end of it.
pub proof fn lemma_first_position_is_first(text: Seq<char>, mark: char)
    ensures
        0 <= first_position(text, mark) <= text.len(),
        forall|i: int| 0 <= i < first_position(text, mark) ==> text[i] != mark,
        first_position(text, mark) < text.len() ==> text[first_position(text, mark)] == mark,
    decreases text.len(),
{
    if text.len() > 0 && text[0] != mark {
        let rest = text.drop_first();
        lemma_first_position_is_first(rest, mark);
        assert forall|i: int| 0 <= i < first_position(text, mark) implies text[i] != mark by {
            if i > 0 {
                assert(text[i] == rest[i - 1]);
            }
        }
        if first_position(text, mark) < text.len() {
            assert(text[first_position(text, mark)] == rest[first_position(rest, mark)]);
        }
    }
}

/// A position that no `mark` precedes, and that holds a `mark` or is the
/// end of the text, is `first_position`.
pub proof fn lemma_first_position(text: Seq<char>, mark: char, end: int)
    requires
        0 <= end <= text.len(),
        forall|i: int| 0 <= i < end ==> text[i] != mark,
        end < text.len() ==> text[end] == mark,
    ensures
        first_position(text, mark) == end,
    decreases end,
{
    if end > 0 {
        let rest = text.drop_first();
        assert(text[0] != mark);
        assert forall|i: int| 0 <= i < end - 1 implies rest[i] != mark by {
            assert(rest[i] == text[i + 1]);
        }
        lemma_first_position(rest, mark, end - 1);
    }
}

} // verus!
