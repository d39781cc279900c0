//! Building strings from characters.

use vstd::prelude::*;

verus! {

/// `String::push` of the standard library: the string afterwards is the
/// string before with `c` as one more character at its end.
#[verifier::external_body]
pub(crate) fn push_char(s: &mut String, c: char)
    ensures
        final(s)@ == old(s)@.push(c),
{
    s.push(c)
}

/// The characters of `text` from index `from` up to index `to`, as a string.
pub(crate) fn string_of(text: &[char], from: usize, to: usize) -> (s: String)
    requires
        from <= to <= text.len(),
    ensures
        s@ == text@.subrange(from as int, to as int),
{
    let mut s = String::new();
    let mut next: usize = from;
    while next < to
        invariant
            from <= next <= to <= text.len(),
            s@ == text@.subrange(from as int, next as int),
        decreases to - next,
    {
        push_char(&mut s, text[next]);
        next = next + 1;
    }
    s
}

} // verus!
