//! Constant-time comparison: the only sanctioned way to compare
//! secrets, fingerprints, or token values anywhere in the system.

use vstd::prelude::*;

verus! {

/// Constant time byte slice equality.
///
/// Returns `true` exactly when the two slices hold the same bytes.
/// Unequal lengths short-circuit to `false`; for equal lengths every
/// byte is visited and the verdict is accumulated bitwise, so the
/// running time does not depend on the position of the first
/// differing byte.
pub fn secure_eq(a: &[u8], b: &[u8]) -> (r: bool)
    ensures
        r == (a@ == b@),
{
    if a.len() == b.len() {
        let mut x: u8 = 0;
        let mut i: usize = 0;
        while i < a.len()
            invariant
                a@.len() == b@.len(),
                i <= a@.len(),
                (x == 0) <==> (forall|j: int| 0 <= j < i ==> a@[j] == b@[j]),
            decreases a@.len() - i,
        {
            let aa: u8 = a[i];
            let bb: u8 = b[i];
            let d: u8 = aa ^ bb;
            proof {
                assert((x | d == 0) <==> (x == 0 && d == 0)) by (bit_vector);
                assert(((aa ^ bb) == 0) <==> aa == bb) by (bit_vector);
            }
            x = x | d;
            i = i + 1;
        }
        proof {
            if x == 0 {
                assert(a@ =~= b@);
            } else {
                assert(a@ != b@);
            }
        }
        x == 0
    } else {
        proof {
            assert(a@ != b@);
        }
        false
    }
}

} // verus!
