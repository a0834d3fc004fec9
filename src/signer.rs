use vstd::prelude::*;
use vstd::utf8::encode_utf8;

verus! {

/// The 32-byte HMAC-SHA256 tag of `message` under `key`.
pub uninterp spec fn hmac_sha256(key: Seq<u8>, message: Seq<u8>) -> Seq<u8>;

/// The lowercase hexadecimal digit for a nibble.
pub open spec fn hex_digit(n: u8) -> char {
    seq!['0', '1', '2', '3', '4', '5', '6', '7', '8', '9', 'a', 'b', 'c', 'd', 'e', 'f'][n as int]
}

/// Lowercase hexadecimal text of a byte string, high nibble first.
pub open spec fn hex_lower(bytes: Seq<u8>) -> Seq<char>
    decreases bytes.len(),
{
    if bytes.len() == 0 {
        Seq::empty()
    } else {
        hex_lower(bytes.drop_last()) + seq![
            hex_digit(bytes.last() / 16),
            hex_digit(bytes.last() % 16),
        ]
    }
}

/// The signature of a query: the hex text of its HMAC-SHA256 tag, keyed by
/// the secret, over the exact UTF-8 bytes of both.
pub open spec fn signature_of(secret: Seq<char>, query: Seq<char>) -> Seq<char> {
    hex_lower(hmac_sha256(encode_utf8(secret), encode_utf8(query)))
}

/// Relies on ring::hmac::sign with ring::hmac::HMAC_SHA256: the tag depends on
/// the key and the message alone, and is 32 bytes long.
#[verifier::external_body]
fn hmac_sha256_tag(key: &[u8], message: &[u8]) -> (r: Vec<u8>)
    ensures
        r@ == hmac_sha256(key@, message@),
        r@.len() == 32,
{
    let k = ring::hmac::Key::new(ring::hmac::HMAC_SHA256, key);
    ring::hmac::sign(&k, message).as_ref().to_vec()
}

/// Relies on hex::encode: each byte becomes two lowercase hex digits, high
/// nibble first, in the order of the bytes.
#[verifier::external_body]
fn encode_hex(bytes: &[u8]) -> (r: String)
    ensures
        r@ == hex_lower(bytes@),
{
    hex::encode(bytes)
}

/// Signs `query` with `secret`: lowercase hex of HMAC-SHA256 over the query's
/// exact bytes, keyed by the secret's bytes.
pub fn sign(secret: &str, query: &str) -> (r: String)
    ensures
        r@ == signature_of(secret@, query@),
        r@.len() == 64,
{
    let tag = hmac_sha256_tag(secret.as_bytes(), query.as_bytes());
    proof {
        lemma_hex_lower_len(tag@);
    }
    encode_hex(tag.as_slice())
}

/// Hex text has two digits per byte.
pub proof fn lemma_hex_lower_len(bytes: Seq<u8>)
    ensures
        hex_lower(bytes).len() == 2 * bytes.len(),
    decreases bytes.len(),
{
    if bytes.len() > 0 {
        lemma_hex_lower_len(bytes.drop_last());
    }
}

proof fn lemma_hex_digit_injective(a: u8, b: u8)
    requires
        a < 16,
        b < 16,
        hex_digit(a) == hex_digit(b),
    ensures
        a == b,
{
}

/// Hex encoding loses nothing: equal hex text comes only from equal bytes, so
/// distinct tags give distinct signatures.
pub proof fn lemma_hex_lower_injective(a: Seq<u8>, b: Seq<u8>)
    requires
        hex_lower(a) == hex_lower(b),
    ensures
        a == b,
    decreases a.len(),
{
    lemma_hex_lower_len(a);
    lemma_hex_lower_len(b);
    if a.len() > 0 {
        let ha = hex_lower(a);
        let n = ha.len();
        assert(ha[n - 2] == hex_digit(a.last() / 16));
        assert(ha[n - 1] == hex_digit(a.last() % 16));
        assert(hex_lower(b)[n - 2] == hex_digit(b.last() / 16));
        assert(hex_lower(b)[n - 1] == hex_digit(b.last() % 16));
        lemma_hex_digit_injective(a.last() / 16, b.last() / 16);
        lemma_hex_digit_injective(a.last() % 16, b.last() % 16);
        lemma_hex_lower_len(a.drop_last());
        lemma_hex_lower_len(b.drop_last());
        assert(hex_lower(a.drop_last()) =~= ha.subrange(0, n - 2));
        assert(hex_lower(b.drop_last()) =~= hex_lower(b).subrange(0, n - 2));
        lemma_hex_lower_injective(a.drop_last(), b.drop_last());
        assert(a =~= a.drop_last().push(a.last()));
        assert(b =~= b.drop_last().push(b.last()));
    } else {
        assert(a =~= b);
    }
}

/// Signing is a function of its inputs alone: the same secret and query
/// always give the same signature, and two signatures that differ come from
/// inputs whose tags differ.
pub proof fn lemma_sign_deterministic(s1: Seq<char>, q1: Seq<char>, s2: Seq<char>, q2: Seq<char>)
    ensures
        (s1 == s2 && q1 == q2) ==> signature_of(s1, q1) == signature_of(s2, q2),
        signature_of(s1, q1) == signature_of(s2, q2) ==> hmac_sha256(encode_utf8(s1), encode_utf8(q1))
            == hmac_sha256(encode_utf8(s2), encode_utf8(q2)),
{
    if signature_of(s1, q1) == signature_of(s2, q2) {
        lemma_hex_lower_injective(
            hmac_sha256(encode_utf8(s1), encode_utf8(q1)),
            hmac_sha256(encode_utf8(s2), encode_utf8(q2)),
        );
    }
}

} // verus!
