//! What comparing and searching texts come to.

use crate::text::{chars_of, find_char, first_of, first_of_is_first, same_text};
use vstd::prelude::*;

verus! {

/// Two texts are the same exactly if they are as long and have the same characters in order.
pub proof fn same_texts_have_the_same_characters(a: &str, b: &str, r: bool)
    requires
        call_ensures(same_text, (a, b), r),
    ensures
        r <==> a@.len() == b@.len() && forall|i: int|
            0 <= i < a@.len() ==> #[trigger] a@[i] == b@[i],
{
    if a@.len() == b@.len() && forall|i: int| 0 <= i < a@.len() ==> #[trigger] a@[i] == b@[i] {
        assert(a@ =~= b@);
    }
}

/// The characters of a text are its characters, in order.
pub proof fn texts_have_their_characters(text: &str, r: Vec<char>, i: int)
    requires
        call_ensures(chars_of, (text,), r),
        0 <= i < text@.len(),
    ensures
        r@.len() == text@.len(),
        r@[i] == text@[i],
{
}

/// A character is found where it first stands from a position on, and otherwise at the end.
pub proof fn characters_are_found_where_they_stand_first(
    text: &[char],
    c: char,
    from: usize,
    r: usize,
    i: int,
)
    requires
        from <= text@.len(),
        call_ensures(find_char, (text, c, from), r),
    ensures
        from <= r <= text@.len(),
        r < text@.len() ==> text@[r as int] == c,
        from <= i < r ==> text@[i] != c,
{
    let rest: Seq<char> = text@.skip(from as int);
    first_of_is_first(rest, c);
    let at: int = first_of(rest, c);
    if r < text@.len() {
        assert(rest[at] == text@[r as int]);
    }
    if from <= i < r {
        assert(rest[i - from] == text@[i]);
    }
}

} // verus!
