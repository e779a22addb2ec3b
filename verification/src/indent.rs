//! Padding with leading spaces.

use vstd::prelude::*;

verus! {

/// A run of `n` space characters.
pub open spec fn spaces(n: nat) -> Seq<char> {
    Seq::new(n, |i: int| ' ')
}

/// `text` behind `size` spaces.
pub open spec fn indented(text: Seq<char>, size: nat) -> Seq<char> {
    spaces(size) + text
}

/// Appends `n` spaces to `out`.
pub fn push_spaces(out: &mut String, n: usize)
    ensures
        final(out)@ == old(out)@ + spaces(n as nat),
{
    proof {
        reveal_strlit(" ");
    }
    let mut done: usize = 0;
    while done < n
        invariant
            done <= n,
            out@ == old(out)@ + spaces(done as nat),
            " "@ == seq![' '],
        decreases n - done,
    {
        out.append(" ");
        done = done + 1;
    }
}

/// Puts `size` spaces in front of `text`. With a `size` of zero the result is
/// `text` itself.
pub fn indent(text: &str, size: usize) -> (padded: String)
    ensures
        padded@ == indented(text@, size as nat),
        padded@.len() == text@.len() + size,
        forall|i: int| 0 <= i < size ==> padded@[i] == ' ',
        padded@.subrange(size as int, padded@.len() as int) == text@,
        size == 0 ==> padded@ == text@,
{
    let mut padded = String::new();
    push_spaces(&mut padded, size);
    padded.append(text);
    padded
}

} // verus!
