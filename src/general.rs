use vstd::prelude::*;
use vstd::utf8::{encode_utf8, encode_utf8_decode_utf8};

verus! {

/// The uppercase form of `s`.
pub uninterp spec fn upper_of(s: Seq<char>) -> Seq<char>;

/// Relies on str::to_uppercase: the result depends on the characters alone.
#[verifier::external_body]
fn to_upper(s: &str) -> (r: String)
    ensures
        r@ == upper_of(s@),
{
    s.to_uppercase()
}

/// Whether two byte strings are equal.
pub fn same_bytes(a: &[u8], b: &[u8]) -> (r: bool)
    ensures
        r == (a@ == b@),
{
    if a.len() != b.len() {
        return false;
    }
    let mut i: usize = 0;
    while i < a.len()
        invariant
            i <= a@.len(),
            a@.len() == b@.len(),
            forall|j: int| 0 <= j < i ==> a@[j] == b@[j],
        decreases a@.len() - i,
    {
        if a[i] != b[i] {
            return false;
        }
        i += 1;
    }
    assert(a@ =~= b@);
    true
}

/// Whether two texts are equal.
pub fn same_text(a: &str, b: &str) -> (r: bool)
    ensures
        r == (a@ == b@),
{
    let r = same_bytes(a.as_bytes(), b.as_bytes());
    proof {
        encode_utf8_decode_utf8(a@);
        encode_utf8_decode_utf8(b@);
    }
    r
}

/// The first position of `wanted` in `names`, if it is there.
pub fn position_of(names: &Vec<String>, wanted: &str) -> (r: Option<usize>)
    ensures
        r matches Some(i) ==> i < names@.len() && names@[i as int]@ == wanted@
            && forall|j: int| 0 <= j < i ==> names@[j]@ != wanted@,
        r is None ==> forall|j: int| 0 <= j < names@.len() ==> names@[j]@ != wanted@,
{
    let mut i: usize = 0;
    while i < names.len()
        invariant
            i <= names@.len(),
            forall|j: int| 0 <= j < i ==> names@[j]@ != wanted@,
        decreases names@.len() - i,
    {
        if same_text(names[i].as_str(), wanted) {
            return Some(i);
        }
        i += 1;
    }
    None
}

/// The first position among the listed symbol names of `symbol` in upper
/// case, if it is there.
pub fn find_symbol(names: &Vec<String>, symbol: &str) -> (r: Option<usize>)
    ensures
        r matches Some(i) ==> i < names@.len() && names@[i as int]@ == upper_of(symbol@)
            && forall|j: int| 0 <= j < i ==> names@[j]@ != upper_of(symbol@),
        r is None ==> forall|j: int| 0 <= j < names@.len() ==> names@[j]@ != upper_of(symbol@),
{
    let upper = to_upper(symbol);
    position_of(names, upper.as_str())
}

} // verus!
