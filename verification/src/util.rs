//! Auth verifier: validates the HMAC-based proof that a client knows the
//! shared secret combined with the per-connection nonce.

use vstd::prelude::*;
use vstd::string::StringSliceAdditionalSpecFns;
use vstd::utf8::encode_utf8;

verus! {

/// Whether a byte is an ASCII hex digit (`0-9`, `A-F`, `a-f`).
pub open spec fn is_hex_digit(b: u8) -> bool {
    (48 <= b <= 57) || (65 <= b <= 70) || (97 <= b <= 102)
}

/// The value (0..16) of an ASCII hex digit byte.
pub open spec fn hex_val(b: u8) -> u8
    recommends
        is_hex_digit(b),
{
    if 48 <= b <= 57 {
        (b - 48) as u8
    } else if 65 <= b <= 70 {
        (b - 55) as u8
    } else {
        (b - 87) as u8
    }
}

/// Whether a byte string is a well-formed hex encoding: even length, hex
/// digits throughout.
pub open spec fn hex_ok(s: Seq<u8>) -> bool {
    s.len() % 2 == 0 && (forall|i: int| 0 <= i < s.len() ==> is_hex_digit(#[trigger] s[i]))
}

/// The bytes denoted by a well-formed hex encoding: one byte per digit pair,
/// high digit first.
pub open spec fn hex_bytes(s: Seq<u8>) -> Seq<u8>
    recommends
        hex_ok(s),
{
    Seq::new((s.len() / 2) as nat, |i: int| (hex_val(s[2 * i]) * 16 + hex_val(s[2 * i + 1])) as u8)
}

/// The lowercase ASCII hex digit byte for a value below 16.
pub open spec fn hex_digit_lower(v: u8) -> u8
    recommends
        v < 16,
{
    if v < 10 {
        (48 + v) as u8
    } else {
        (87 + v) as u8
    }
}

/// The lowercase hex encoding of a byte string: two digits per byte, high
/// digit first.
pub open spec fn hex_encode(b: Seq<u8>) -> Seq<u8> {
    Seq::new(
        b.len() * 2,
        |i: int|
            if i % 2 == 0 {
                hex_digit_lower(b[i / 2] / 16)
            } else {
                hex_digit_lower(b[i / 2] % 16)
            },
    )
}

/// A lowercase hex encoding is well formed.
pub proof fn lemma_hex_encode_ok(b: Seq<u8>)
    ensures
        hex_ok(hex_encode(b)),
{
}

/// Decoding undoes the lowercase hex encoding of any byte string.
pub proof fn lemma_hex_bytes_of_encode(b: Seq<u8>)
    ensures
        hex_bytes(hex_encode(b)) == b,
{
    lemma_hex_encode_ok(b);
    assert(hex_bytes(hex_encode(b)) =~= b);
}

/// The HMAC-SHA256 tag over a message under a key. The tag is a function of
/// the key and the message alone; its value is given by the HMAC and SHA-256
/// constructions, which this library calls rather than restates.
pub uninterp spec fn hmac_sha256_of(key: Seq<u8>, msg: Seq<u8>) -> Seq<u8>;

/// Relies on hex::decode of the hex crate: one byte per pair of hex digits,
/// high digit first; `Err` exactly on an odd length or a non-hex-digit byte.
/// (The crate combines digit pairs by shift-or, which equals `hi * 16 + lo`
/// for digit values below 16.)
#[verifier::external_body]
fn hex_decode(s: &str) -> (r: Option<Vec<u8>>)
    ensures
        match r {
            Some(v) => hex_ok(s.spec_bytes()) && v@ == hex_bytes(s.spec_bytes()),
            None => !hex_ok(s.spec_bytes()),
        },
{
    match hex::decode(s) {
        Ok(v) => Some(v),
        Err(_) => None,
    }
}

/// Relies on hmac::Hmac<sha2::Sha256>: `new_from_slice` accepts keys of any
/// length for HMAC, and `verify_slice` succeeds exactly when the given tag
/// equals the computed 32-byte tag, compared in constant time.
#[verifier::external_body]
fn hmac_sha256_verify(key: &[u8], msg: &[u8], tag: &[u8]) -> (r: bool)
    ensures
        r == (tag@ == hmac_sha256_of(key@, msg@)),
{
    let mut mac = <hmac::Hmac<sha2::Sha256> as hmac::Mac>::new_from_slice(key)
        .expect("HMAC accepts keys of any length");
    hmac::Mac::update(&mut mac, msg);
    hmac::Mac::verify_slice(mac, tag).is_ok()
}

/// What [`verify_token`] returns: `false` when the nonce is absent or the
/// token is not well-formed hex; otherwise whether the token's bytes are the
/// HMAC-SHA256 tag over the nonce under the shared secret.
pub open spec fn verify_token_spec(
    secret: Seq<char>,
    nonce: Option<Seq<char>>,
    token: Seq<char>,
) -> bool {
    match nonce {
        Option::None => false,
        Option::Some(n) => {
            let tb = encode_utf8(token);
            hex_ok(tb) && hex_bytes(tb) == hmac_sha256_of(encode_utf8(secret), encode_utf8(n))
        },
    }
}

/// Validates a presented authentication token: the token, hex-decoded, must
/// be the HMAC-SHA256 tag over the nonce's bytes under the shared secret's
/// bytes. Returns `false` — it does not fail — when the nonce is absent,
/// when the token is not valid hex, or when the tag does not match.
pub fn verify_token(secret: String, nonce: Option<String>, token: String) -> (r: bool)
    ensures
        r == verify_token_spec(secret@, nonce.deep_view(), token@),
{
    match nonce {
        Option::None => false,
        Option::Some(n) => {
            match hex_decode(token.as_str()) {
                Option::None => false,
                Option::Some(bytes) => hmac_sha256_verify(
                    secret.as_str().as_bytes(),
                    n.as_str().as_bytes(),
                    bytes.as_slice(),
                ),
            }
        },
    }
}

/// A token that hex-encodes the HMAC-SHA256 tag over the nonce under the
/// secret verifies.
pub proof fn lemma_verify_token_of_valid(secret: Seq<char>, nonce: Seq<char>, token: Seq<char>)
    requires
        encode_utf8(token) == hex_encode(
            hmac_sha256_of(encode_utf8(secret), encode_utf8(nonce)),
        ),
    ensures
        verify_token_spec(secret, Some(nonce), token),
{
    lemma_hex_encode_ok(hmac_sha256_of(encode_utf8(secret), encode_utf8(nonce)));
    lemma_hex_bytes_of_encode(hmac_sha256_of(encode_utf8(secret), encode_utf8(nonce)));
}

/// With no nonce on record, no token verifies.
pub proof fn lemma_verify_token_no_nonce(secret: Seq<char>, token: Seq<char>)
    ensures
        !verify_token_spec(secret, None, token),
{
}

/// A token that verifies decodes to the tag itself: any two verifying tokens
/// for the same secret and nonce decode to the same bytes.
pub proof fn lemma_verify_token_pins_tag(
    secret: Seq<char>,
    nonce: Seq<char>,
    t1: Seq<char>,
    t2: Seq<char>,
)
    requires
        verify_token_spec(secret, Some(nonce), t1),
        verify_token_spec(secret, Some(nonce), t2),
    ensures
        hex_bytes(encode_utf8(t1)) == hex_bytes(encode_utf8(t2)),
{
}

} // verus!
