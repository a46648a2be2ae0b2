//! Comparison of secrets.

use vstd::prelude::*;

use crate::text::chars_of;

verus! {

/// The code point of a character.
fn code(c: char) -> (r: u32)
    ensures
        r as int == c as int,
{
    c as u32
}

/// Compares two secrets. Where they have the same length, every character is compared, whatever
/// the earlier ones gave.
pub fn constant_time_eq(a: &str, b: &str) -> (r: bool)
    ensures
        r == (a@ == b@),
{
    let x = chars_of(a);
    let y = chars_of(b);
    let n: usize = x.len();
    if n != y.len() {
        return false;
    }
    let mut difference: u32 = 0;
    let mut i: usize = 0;
    while i < n
        invariant
            x@ == a@,
            y@ == b@,
            n == x@.len() == y@.len(),
            i <= n,
            (difference == 0) == (forall|j: int| 0 <= j < i ==> x@[j] == y@[j]),
        decreases n - i,
    {
        let p: u32 = code(x[i]);
        let q: u32 = code(y[i]);
        assert((difference | (p ^ q)) == 0 <==> difference == 0 && p == q) by (bit_vector);
        difference = difference | (p ^ q);
        i = i + 1;
    }
    proof {
        if difference == 0 {
            assert(a@ =~= b@);
        }
    }
    difference == 0
}

} // verus!
