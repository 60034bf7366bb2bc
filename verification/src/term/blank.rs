//! Blank lines.

use vstd::prelude::*;

verus! {

/// The characters with the Unicode property `White_Space`.
pub open spec fn is_white_space(c: char) -> bool {
    let code = c as u32;
    ||| 0x09 <= code <= 0x0d
    ||| code == 0x20
    ||| code == 0x85
    ||| code == 0xa0
    ||| code == 0x1680
    ||| 0x2000 <= code <= 0x200a
    ||| 0x2028 <= code <= 0x2029
    ||| code == 0x202f
    ||| code == 0x205f
    ||| code == 0x3000
}

/// Whether `trimmed` is the part of `text` from `from` to `to`, and that part
/// is `text` without the white space at both ends.
pub open spec fn is_trimmed_at(text: Seq<char>, trimmed: Seq<char>, from: int, to: int) -> bool {
    &&& 0 <= from <= to <= text.len()
    &&& trimmed == text.subrange(from, to)
    &&& forall|i: int| 0 <= i < from ==> is_white_space(#[trigger] text[i])
    &&& forall|i: int| to <= i < text.len() ==> is_white_space(#[trigger] text[i])
    &&& from < to ==> !is_white_space(text[from]) && !is_white_space(text[to - 1])
}

/// `str::trim` removes the characters with the Unicode property `White_Space`
/// from both ends of the text, and no others.
pub assume_specification[ str::trim ](text: &str) -> (trimmed: &str)
    ensures
        exists|from: int, to: int| #[trigger] is_trimmed_at(text@, trimmed@, from, to),
;

/// Whether there is nothing to be seen of a line.
pub open spec fn is_blank(text: Seq<char>) -> bool {
    forall|i: int| 0 <= i < text.len() ==> is_white_space(#[trigger] text[i])
}

/// Whether there is nothing to be seen of a line.
pub fn is_blank_line(text: &str) -> (blank: bool)
    ensures
        blank == is_blank(text@),
{
    let trimmed = text.trim();
    let blank = trimmed.is_empty();
    proof {
        let (from, to) = choose|from: int, to: int|
            #[trigger] is_trimmed_at(text@, trimmed@, from, to);
        if from < to {
            assert(!is_white_space(text@[from]));
        } else {
            assert(from == to);
        }
    }
    blank
}

/// Number of blank lines at the end of `lines`.
pub open spec fn trailing_blank(lines: Seq<Seq<char>>) -> nat
    decreases lines.len(),
{
    if lines.len() == 0 || !is_blank(lines.last()) {
        0
    } else {
        1 + trailing_blank(lines.drop_last())
    }
}

/// The blank lines at the end are those from the last one up to the lowest
/// line which is not blank.
pub proof fn lemma_trailing_blank(lines: Seq<Seq<char>>)
    ensures
        trailing_blank(lines) <= lines.len(),
        forall|i: int|
            lines.len() - trailing_blank(lines) <= i < lines.len() ==> is_blank(#[trigger] lines[i]),
        trailing_blank(lines) < lines.len() ==> !is_blank(
            lines[lines.len() - 1 - trailing_blank(lines)],
        ),
    decreases lines.len(),
{
    if lines.len() > 0 && is_blank(lines.last()) {
        let upper = lines.drop_last();
        lemma_trailing_blank(upper);
        assert forall|i: int| lines.len() - trailing_blank(lines) <= i < lines.len() implies is_blank(
            #[trigger] lines[i],
        ) by {
            if i < upper.len() {
                assert(is_blank(upper[i]));
            }
        }
    }
}

/// A text is blank exactly if all its parts are, down to its characters: the
/// empty one is, and a character is if it separates words or lines.
pub proof fn law_blank_texts_consist_of_blanks(left: Seq<char>, right: Seq<char>, c: char)
    ensures
        is_blank(left + right) <==> is_blank(left) && is_blank(right),
        is_blank(Seq::<char>::empty()),
        is_blank(seq![c]) <==> {
            ||| c == ' ' || c == '\t' || c == '\n' || c == '\r'
            ||| c as u32 == 0x0b || c as u32 == 0x0c || c as u32 == 0x85 || c as u32 == 0xa0
            ||| c as u32 == 0x1680 || 0x2000 <= c as u32 <= 0x200a
            ||| c as u32 == 0x2028 || c as u32 == 0x2029 || c as u32 == 0x202f
            ||| c as u32 == 0x205f || c as u32 == 0x3000
        },
{
    let both = left + right;
    if is_blank(both) {
        assert forall|i: int| 0 <= i < left.len() implies is_white_space(#[trigger] left[i]) by {
            assert(both[i] == left[i]);
        }
        assert forall|i: int| 0 <= i < right.len() implies is_white_space(#[trigger] right[i]) by {
            assert(both[left.len() + i] == right[i]);
        }
    }
    assert(is_blank(seq![c]) ==> is_white_space(seq![c][0]));
}

} // verus!
