//! Text helpers: the field separator and equality of string slices.

use vstd::prelude::*;
use vstd::utf8::*;

verus! {

/// The separator between the fields of a printed line.
pub open spec fn tab() -> Seq<char> {
    seq!['\t']
}

/// Appends the field separator to `line`.
pub fn push_tab(line: &mut String)
    ensures
        final(line)@ == old(line)@ + tab(),
{
    proof {
        reveal_strlit("\t");
    }
    line.append("\t");
}

/// Whether two string slices hold the same text.
pub fn same_text(a: &str, b: &str) -> (r: bool)
    ensures
        r == (a@ == b@),
{
    let x = a.as_bytes();
    let y = b.as_bytes();
    proof {
        // Equal byte sequences decode to equal texts.
        encode_utf8_decode_utf8(a@);
        encode_utf8_decode_utf8(b@);
    }
    if x.len() != y.len() {
        return false;
    }
    let mut i: usize = 0;
    while i < x.len()
        invariant
            i <= x@.len(),
            x@.len() == y@.len(),
            x@ == encode_utf8(a@),
            y@ == encode_utf8(b@),
            forall|j: int| 0 <= j < i ==> x@[j] == y@[j],
        decreases x@.len() - i,
    {
        if x[i] != y[i] {
            return false;
        }
        i += 1;
    }
    assert(x@ =~= y@);
    true
}

} // verus!
