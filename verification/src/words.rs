//! The first word of a text.

use crate::chars::chars_of;
use vstd::prelude::*;
use vstd::string::StrSliceExecFns;

verus! {

/// `word` is the part of `text` before its first space, or all of `text` if
/// it has no space.
pub open spec fn is_first_word(text: Seq<char>, word: Seq<char>) -> bool {
    &&& word.len() <= text.len()
    &&& word == text.take(word.len() as int)
    &&& forall|i: int| 0 <= i < word.len() ==> #[trigger] word[i] != ' '
    &&& (word.len() == text.len() || text[word.len() as int] == ' ')
}

/// Returns the text up to its first space, the whole text if there is none.
pub fn first_word(s: &String) -> (word: &str)
    ensures
        is_first_word(s@, word@),
{
    let text: &str = s.as_str();
    let chars: Vec<char> = chars_of(text);
    let n: usize = chars.len();
    let mut i: usize = 0;
    while i < n
        invariant
            i <= n,
            n == text@.len(),
            chars@ == text@,
            text@ == s@,
            forall|j: int| 0 <= j < i ==> #[trigger] text@[j] != ' ',
        decreases n - i,
    {
        if chars[i] == ' ' {
            return text.substring_char(0, i);
        }
        i += 1;
    }
    assert(text@.take(n as int) =~= text@);
    text
}

/// A text has only one first word.
pub proof fn lemma_first_word_unique(text: Seq<char>, one: Seq<char>, other: Seq<char>)
    requires
        is_first_word(text, one),
        is_first_word(text, other),
    ensures
        one == other,
{
    if one.len() < other.len() {
        assert(other[one.len() as int] == text[one.len() as int]);
    } else if other.len() < one.len() {
        assert(one[other.len() as int] == text[other.len() as int]);
    }
}

} // verus!
