//! Small executable helpers on byte slices and strings.

use vstd::prelude::*;

verus! {

use vstd::string::StringSliceAdditionalSpecFns;

/// True exactly when the two slices hold the same bytes.
pub fn bytes_eq(a: &[u8], b: &[u8]) -> (r: bool)
    ensures
        r == (a@ == b@),
{
    if a.len() != b.len() {
        return false;
    }
    let mut i: usize = 0;
    while i < a.len()
        invariant
            a@.len() == b@.len(),
            0 <= i <= a@.len(),
            forall|j: int| 0 <= j < i ==> a@[j] == b@[j],
        decreases a@.len() - i,
    {
        if a[i] != b[i] {
            return false;
        }
        i = i + 1;
    }
    proof {
        assert(a@ =~= b@);
    }
    true
}

/// True exactly when the two strings hold the same characters.
pub fn str_eq(a: &str, b: &str) -> (r: bool)
    ensures
        r == (a@ == b@),
{
    let r = bytes_eq(a.as_bytes(), b.as_bytes());
    proof {
        if a.spec_bytes() == b.spec_bytes() {
            vstd::utf8::encode_utf8_decode_utf8(a@);
            vstd::utf8::encode_utf8_decode_utf8(b@);
        }
    }
    r
}

/// The all-zero 32-byte identity, which never denotes a real account.
pub open spec fn zero_key() -> Seq<u8> {
    Seq::new(32, |i: int| 0u8)
}

/// True exactly when `k` is the 32-byte all-zero identity.
pub fn is_zero_key(k: &[u8]) -> (r: bool)
    requires
        k@.len() == 32,
    ensures
        r == (k@ == zero_key()),
{
    let mut i: usize = 0;
    while i < k.len()
        invariant
            k@.len() == 32,
            0 <= i <= 32,
            forall|j: int| 0 <= j < i ==> k@[j] == 0,
        decreases k@.len() - i,
    {
        if k[i] != 0 {
            assert(zero_key()[i as int] == 0);
            return false;
        }
        i = i + 1;
    }
    proof {
        assert(k@ =~= zero_key());
    }
    true
}

} // verus!
