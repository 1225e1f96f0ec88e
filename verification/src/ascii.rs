//! ASCII case folding on byte sequences.

use vstd::prelude::*;
use vstd::string::StringSliceAdditionalSpecFns;

verus! {

/// Maps an ASCII uppercase letter to lowercase and leaves every other byte
/// unchanged.
pub open spec fn ascii_lower(b: u8) -> u8 {
    if 0x41 <= b <= 0x5a {
        (b + 0x20) as u8
    } else {
        b
    }
}

/// Maps an ASCII lowercase letter to uppercase and leaves every other byte
/// unchanged.
pub open spec fn ascii_upper(b: u8) -> u8 {
    if 0x61 <= b <= 0x7a {
        (b - 0x20) as u8
    } else {
        b
    }
}

/// The text with every ASCII lowercase letter in upper case.
pub open spec fn ascii_upper_text(s: Seq<u8>) -> Seq<u8> {
    s.map_values(|b: u8| ascii_upper(b))
}

/// Upper-casing keeps a text equal, up to ASCII case, to every text it was
/// equal to before, and to no other.
pub proof fn lemma_upper_case_keeps_case_eq(a: Seq<u8>, b: Seq<u8>)
    ensures
        ascii_case_eq(ascii_upper_text(a), b) <==> ascii_case_eq(a, b),
{
    let u = ascii_upper_text(a);
    assert forall|i: int| 0 <= i < a.len() implies #[trigger] ascii_lower(u[i]) == ascii_lower(a[i]) by {
        assert(u[i] == ascii_upper(a[i]));
    }
    if ascii_case_eq(u, b) {
        assert forall|i: int| 0 <= i < a.len() implies #[trigger] ascii_lower(a[i]) == ascii_lower(b[i]) by {
            assert(ascii_lower(u[i]) == ascii_lower(b[i]));
        }
    }
    if ascii_case_eq(a, b) {
        assert forall|i: int| 0 <= i < u.len() implies #[trigger] ascii_lower(u[i]) == ascii_lower(b[i]) by {
            assert(ascii_lower(a[i]) == ascii_lower(b[i]));
        }
    }
}

/// Two byte sequences are equal up to ASCII case.
pub open spec fn ascii_case_eq(a: Seq<u8>, b: Seq<u8>) -> bool {
    &&& a.len() == b.len()
    &&& forall|i: int| 0 <= i < a.len() ==> #[trigger] ascii_lower(a[i]) == ascii_lower(b[i])
}

/// Lowercases one ASCII byte.
pub(crate) fn to_ascii_lower(b: u8) -> (r: u8)
    ensures
        r == ascii_lower(b),
{
    if 0x41 <= b && b <= 0x5a {
        b + 0x20
    } else {
        b
    }
}

/// Compares two byte sequences without ASCII case sensitivity.
pub(crate) fn eq_ignore_ascii_case(a: &[u8], b: &[u8]) -> (r: bool)
    ensures
        r == ascii_case_eq(a@, b@),
{
    if a.len() != b.len() {
        return false;
    }
    let mut i: usize = 0;
    while i < a.len()
        invariant
            a.len() == b.len(),
            0 <= i <= a.len(),
            forall|j: int| 0 <= j < i ==> #[trigger] ascii_lower(a@[j]) == ascii_lower(b@[j]),
        decreases a.len() - i,
    {
        if to_ascii_lower(a[i]) != to_ascii_lower(b[i]) {
            return false;
        }
        i = i + 1;
    }
    true
}

/// Compares a string against a name without ASCII case sensitivity.
pub(crate) fn str_eq_ignore_ascii_case(value: &str, name: &str) -> (r: bool)
    ensures
        r == ascii_case_eq(value.spec_bytes(), name.spec_bytes()),
{
    eq_ignore_ascii_case(value.as_bytes(), name.as_bytes())
}

} // verus!
