//! Small byte-buffer helpers.

use vstd::prelude::*;
use vstd::string::StringSliceAdditionalSpecFns;

verus! {

/// Stores the bytes of a string in a fixed 32-byte buffer, zero-padded. A
/// string of 32 bytes or more contributes only its first 30 bytes.
pub fn str2u8(src: &str) -> (r: [u8; 32])
    ensures
        r@.len() == 32,
        src.spec_bytes().len() < 32 ==> {
            &&& forall|i: int|
                0 <= i < src.spec_bytes().len() ==> r@[i] == src.spec_bytes()[i]
            &&& forall|i: int| src.spec_bytes().len() <= i < 32 ==> r@[i] == 0u8
        },
        src.spec_bytes().len() >= 32 ==> {
            &&& forall|i: int| 0 <= i < 30 ==> r@[i] == src.spec_bytes()[i]
            &&& forall|i: int| 30 <= i < 32 ==> r@[i] == 0u8
        },
{
    let mut ret: [u8; 32] = [0u8; 32];
    let b = src.as_bytes();
    let len = b.len();
    let n = if len >= 32 {
        30
    } else {
        len
    };
    let mut i: usize = 0;
    while i < n
        invariant
            i <= n,
            n <= 30 || n == b@.len(),
            n <= b@.len(),
            b@ == src.spec_bytes(),
            ret@.len() == 32,
            n < 32,
            forall|j: int| 0 <= j < i ==> ret@[j] == b@[j],
            forall|j: int| i <= j < 32 ==> ret@[j] == 0u8,
        decreases n - i,
    {
        ret[i] = b[i];
        i = i + 1;
    }
    ret
}

} // verus!
