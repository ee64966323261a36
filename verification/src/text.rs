//! Cutting a text in two.

use vstd::prelude::*;

verus! {

/// Cuts `text` at the first `separator`.
///
/// Returns what stands before that character and what stands after it, or
/// nothing if `text` does not hold `separator`. The first part holds no
/// separator; the second part may hold further ones.
pub fn split_once<'a>(text: &'a str, separator: char) -> (parts: Option<(&'a str, &'a str)>)
    ensures
        parts matches Some((before, after)) ==> text@ == before@.push(separator) + after@,
        parts matches Some((before, after)) ==> !before@.contains(separator),
        parts is None ==> !text@.contains(separator),
{
    let len: usize = text.unicode_len();
    let mut at: usize = 0;
    for c in it: text.chars()
        invariant
            it.seq() == text@,
            at == it.index(),
            len == text@.len(),
            forall|i: int| 0 <= i < at ==> text@[i] != separator,
    {
        if c == separator {
            let before = text.substring_char(0, at);
            let after = text.substring_char(at + 1, len);
            assert(text@ =~= before@.push(separator) + after@);
            return Some((before, after));
        }
        at = at + 1;
    }
    None
}

} // verus!
