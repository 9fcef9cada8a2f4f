//! The code page 437 character numbers of the engine's bitmap font, from `rltk`.

use vstd::prelude::*;

verus! {

/// The code page 437 number `rltk::to_cp437` gives a character (0 for
/// characters the code page lacks).
pub uninterp spec fn spec_to_cp437(c: char) -> u16;

/// `rltk::to_cp437`: the code page 437 number of `c`, looked up in rltk's
/// table. Every entry of the table is below 256, the space is 32, and
/// characters the table lacks give 0; the rest of the table is named, not
/// stated.
#[verifier::external_body]
pub(crate) fn to_cp437(c: char) -> (r: usize)
    ensures
        r == spec_to_cp437(c),
        r < 256,
        c == ' ' ==> r == 32,
{
    rltk::to_cp437(c) as usize
}

/// The code page 437 numbers of the characters of `s`, in order.
pub fn string_to_cp437(s: &str) -> (r: Vec<usize>)
    ensures
        r@.len() == s@.len(),
        forall|i: int| 0 <= i < r@.len() ==> #[trigger] r@[i] == spec_to_cp437(s@[i]),
{
    let n = s.unicode_len();
    let mut r: Vec<usize> = Vec::new();
    let mut i: usize = 0;
    while i < n
        invariant
            n == s@.len(),
            i <= n,
            r@.len() == i,
            forall|k: int| 0 <= k < i ==> #[trigger] r@[k] == spec_to_cp437(s@[k]),
        decreases n - i,
    {
        r.push(to_cp437(s.get_char(i)));
        i += 1;
    }
    r
}

} // verus!
