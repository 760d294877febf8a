use vstd::prelude::*;
use vstd::string::StringSliceAdditionalSpecFns;

verus! {

broadcast use vstd::utf8::encode_utf8_decode_utf8;

/// Whether two strings hold the same characters.
pub fn str_equals(a: &str, b: &str) -> (result: bool)
    ensures
        result == (a@ == b@),
{
    let x = a.as_bytes();
    let y = b.as_bytes();
    if x.len() != y.len() {
        return false;
    }
    for i in 0..x.len()
        invariant
            x@ == a.spec_bytes(),
            y@ == b.spec_bytes(),
            x@.len() == y@.len(),
            forall|j: int| 0 <= j < i ==> x@[j] == y@[j],
    {
        if x[i] != y[i] {
            return false;
        }
    }
    assert(x@ =~= y@);
    assert(a@ == vstd::utf8::decode_utf8(vstd::utf8::encode_utf8(a@)));
    assert(b@ == vstd::utf8::decode_utf8(vstd::utf8::encode_utf8(b@)));
    true
}

} // verus!
