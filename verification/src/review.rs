//! Reviewing stored pages by hand, one answer per page.
use vstd::prelude::*;
use crate::text::chars_of;

verus! {

/// Unicode's White_Space property: the characters for which
/// `char::is_whitespace` is true, as its documentation lists them.
pub open spec fn is_white_space(c: char) -> bool {
    ||| ('\u{9}' <= c && c <= '\u{d}')
    ||| c == ' '
    ||| c == '\u{85}'
    ||| c == '\u{a0}'
    ||| c == '\u{1680}'
    ||| ('\u{2000}' <= c && c <= '\u{200a}')
    ||| c == '\u{2028}'
    ||| c == '\u{2029}'
    ||| c == '\u{202f}'
    ||| c == '\u{205f}'
    ||| c == '\u{3000}'
}

/// Whether `c` is white space, as `char::is_whitespace` answers.
pub fn is_white_space_char(c: char) -> (r: bool)
    ensures
        r == is_white_space(c),
{
    ('\u{9}' <= c && c <= '\u{d}') || c == ' ' || c == '\u{85}' || c == '\u{a0}' || c == '\u{1680}'
        || ('\u{2000}' <= c && c <= '\u{200a}') || c == '\u{2028}' || c == '\u{2029}' || c
        == '\u{202f}' || c == '\u{205f}' || c == '\u{3000}'
}

/// An answer approves a page when it holds more than white space.
pub open spec fn approves(answer: Seq<char>) -> bool {
    exists|i: int| 0 <= i < answer.len() && !is_white_space(#[trigger] answer[i])
}

/// Whether `answer` approves the page under review: whether it is still
/// non-empty once white space is trimmed from both ends.
pub fn is_approval(answer: &str) -> (r: bool)
    ensures
        r == approves(answer@),
{
    let cs = chars_of(answer);
    let mut i: usize = 0;
    while i < cs.len()
        invariant
            i <= cs.len(),
            cs@ == answer@,
            forall|j: int| 0 <= j < i ==> is_white_space(#[trigger] cs@[j]),
        decreases cs.len() - i,
    {
        if !is_white_space_char(cs[i]) {
            assert(!is_white_space(answer@[i as int]));
            return true;
        }
        i += 1;
    }
    false
}

/// The next offset of a review: the pages came in batches of `batch` from
/// `offset`; after a batch that brought no page the review is over (`None`),
/// otherwise it goes on `batch` pages further.
pub fn next_review_offset(offset: i32, batch: i32, fetched: usize) -> (next: Option<i32>)
    requires
        fetched == 0 || (i32::MIN <= offset + batch <= i32::MAX),
    ensures
        fetched == 0 ==> next is None,
        fetched != 0 ==> next == Some((offset + batch) as i32),
{
    if fetched == 0 {
        None
    } else {
        Some(offset + batch)
    }
}

/// An answer approves exactly when some character of it is not white space:
/// one such character, whatever it is, suffices, and an answer made of white
/// space alone (the empty one too) approves nothing. Every visible ASCII
/// character, from `!` to `~`, is such a character.
pub proof fn lemma_approval(answer: Seq<char>, i: int)
    ensures
        0 <= i < answer.len() && !is_white_space(answer[i]) ==> approves(answer),
        (forall|j: int| 0 <= j < answer.len() ==> is_white_space(#[trigger] answer[j])) ==> !approves(answer),
        0 <= i < answer.len() && '!' <= answer[i] && answer[i] <= '~' ==> approves(answer),
        is_white_space(' ') && is_white_space('\t') && is_white_space('\n') && is_white_space('\r'),
        answer.len() == 0 ==> !approves(answer),
{
}

} // verus!
