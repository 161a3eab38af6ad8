//! Comparison of secrets.

use vstd::prelude::*;

verus! {

/// `subtle::ConstantTimeEq::ct_eq` on two byte slices: whether they are the same
/// bytes. Slices of different length are told apart by their length alone; the
/// time for slices of one length does not depend on what they hold, which no
/// clause states.
#[verifier::external_body]
fn ct_eq(a: &[u8], b: &[u8]) -> (r: bool)
    ensures
        r == (a@ == b@),
{
    subtle::ConstantTimeEq::ct_eq(a, b).into()
}

/// Whether two secrets are the same bytes, in time that does not depend on where
/// they differ.
pub fn constant_time_eq(a: &[u8], b: &[u8]) -> (r: bool)
    ensures
        r == (a@ == b@),
{
    ct_eq(a, b)
}

/// Whether two secret texts are the same, in time that does not depend on where
/// they differ.
pub fn same_secret(a: &str, b: &str) -> (r: bool)
    ensures
        r == (a@ == b@),
{
    proof {
        vstd::utf8::encode_utf8_decode_utf8(a@);
        vstd::utf8::encode_utf8_decode_utf8(b@);
    }
    constant_time_eq(a.as_bytes(), b.as_bytes())
}

} // verus!
