//! Caller-side request validation: the domain-shape check and the
//! constant-time token comparison used before any reconciliation starts.

use vstd::prelude::*;

use crate::text::is_digit;

verus! {

/// The longest domain name the updater accepts.
pub const MAX_DOMAIN_LEN: usize = 64;

/// Whether a byte may appear in a caller-supplied domain: ASCII letters,
/// digits, and dots.
pub open spec fn is_domain_byte(b: u8) -> bool {
    is_digit(b) || 65 <= b <= 90 || 97 <= b <= 122 || b == 46
}

/// Whether a caller-supplied domain is acceptable: no more than
/// `MAX_DOMAIN_LEN` bytes, every byte a letter, a digit or a dot.
pub open spec fn spec_valid_domain(s: Seq<u8>) -> bool {
    s.len() <= MAX_DOMAIN_LEN && forall|i: int| 0 <= i < s.len() ==> is_domain_byte(#[trigger] s[i])
}

/// Validate a caller-supplied domain.
pub fn validate_domain(domain: &[u8]) -> (r: bool)
    ensures
        r == spec_valid_domain(domain@),
{
    if domain.len() > MAX_DOMAIN_LEN {
        return false;
    }
    let mut i: usize = 0;
    while i < domain.len()
        invariant
            i <= domain.len(),
            domain.len() <= MAX_DOMAIN_LEN,
            forall|k: int| 0 <= k < i ==> is_domain_byte(#[trigger] domain@[k]),
        decreases domain.len() - i,
    {
        let b = domain[i];
        if !(b >= 48 && b <= 57 || b >= 65 && b <= 90 || b >= 97 && b <= 122 || b == 46) {
            return false;
        }
        i = i + 1;
    }
    true
}

/// Relies on constant_time_eq::constant_time_eq: returns whether the two
/// byte strings are equal, comparing in constant time for equal lengths.
#[verifier::external_body]
fn ct_bytes_eq(a: &[u8], b: &[u8]) -> (r: bool)
    ensures
        r <==> a@ == b@,
{
    constant_time_eq::constant_time_eq(a, b)
}

/// Whether a presented caller token matches the expected one.  The
/// comparison runs in constant time so that timing does not leak how much
/// of the token matched.
pub fn token_matches(expected: &[u8], presented: &[u8]) -> (r: bool)
    ensures
        r <==> expected@ == presented@,
{
    ct_bytes_eq(expected, presented)
}

} // verus!
