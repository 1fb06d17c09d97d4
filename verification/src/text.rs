//! Reversing text character by character.

use vstd::prelude::*;

verus! {

/// The same characters in the opposite order: the last one first.
pub open spec fn reversed(text: Seq<char>) -> Seq<char> {
    Seq::new(text.len(), |i: int| text[text.len() - 1 - i])
}

/// Taken on trust from the documentation of std's `String::push`: the call
/// appends `ch` to the end of `text`, and the characters that were there stay
/// as they were, in their places.
pub assume_specification[ String::push ](text: &mut String, ch: char)
    ensures
        final(text)@ == old(text)@.push(ch),
;

/// Reversing twice gives the text back.
pub proof fn lemma_reversed_twice(text: Seq<char>)
    ensures
        reversed(reversed(text)) == text,
{
    assert(reversed(reversed(text)) =~= text);
}

/// The characters of a text, one `char` each, in the text's order.
pub fn characters(text: &str) -> (chars: Vec<char>)
    ensures
        chars@ == text@,
{
    let mut chars: Vec<char> = Vec::new();
    for ch in iter: text.chars()
        invariant
            iter.seq() == text@,
            chars@ == text@.take(iter.index() as int),
    {
        chars.push(ch);
    }
    chars
}

/// Returns the characters of `string_value` in the opposite order.
///
/// Whole characters are moved, never single bytes of one, and none is
/// dropped or changed: blanks at either end stay, at the other end.
pub fn reverse_string(string_value: &str) -> (reversed_text: String)
    ensures
        reversed_text@ == reversed(string_value@),
{
    let chars: Vec<char> = characters(string_value);
    let mut reversed_text: String = String::new();
    let mut left: usize = chars.len();
    while left > 0
        invariant
            left <= chars.len(),
            chars@ == string_value@,
            reversed_text@ == reversed(string_value@).take(chars.len() - left),
        decreases left,
    {
        left -= 1;
        reversed_text.push(chars[left]);
        assert(reversed_text@ =~= reversed(string_value@).take(chars.len() - left));
    }
    assert(reversed_text@ =~= reversed(string_value@));
    reversed_text
}

} // verus!
