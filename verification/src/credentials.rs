//! The credentials that the local API asks for, in HTTP Basic form.

use vstd::prelude::*;
use vstd::utf8::encode_utf8;
use base64::Engine;

verus! {

/// What base64 encoding with the standard alphabet and `=` padding makes of `bytes`.
pub uninterp spec fn base64_standard(bytes: Seq<u8>) -> Seq<char>;

/// Calls `base64::engine::general_purpose::STANDARD.encode`. Claimed: the
/// text is the standard padded base64 encoding of the bytes, four characters
/// for each started group of three bytes (the buffer that `encode` fills has
/// `encoded_len` bytes, all from the ASCII alphabet or `=`). Its `expect`
/// on the buffer size cannot fail under the length bound.
#[verifier::external_body]
fn base64_encode(bytes: &[u8]) -> (text: String)
    requires
        bytes@.len() <= usize::MAX / 2,
    ensures
        text@ == base64_standard(bytes@),
        text@.len() == 4 * ((bytes@.len() + 2) / 3),
{
    base64::engine::general_purpose::STANDARD.encode(bytes)
}

/// The user name and password that the client's lockfile password goes with.
pub open spec fn credentials_text(password: Seq<char>) -> Seq<char> {
    seq!['r', 'i', 'o', 't', ':'] + password
}

/// The base64 form of `riot:<password>`, kept to authorize every request.
pub open spec fn encoded_credentials_text(password: Seq<char>) -> Seq<char> {
    base64_standard(encode_utf8(credentials_text(password)))
}

/// The value of the `Authorization` header for already encoded credentials.
pub open spec fn authorization_text(encoded: Seq<char>) -> Seq<char> {
    seq!['B', 'a', 's', 'i', 'c', ' '] + encoded
}

/// Encodes `riot:<password>` in base64.
pub fn encode_credentials(password: &str) -> (encoded: String)
    requires
        encode_utf8(credentials_text(password@)).len() <= usize::MAX / 2,
    ensures
        encoded@ == encoded_credentials_text(password@),
{
    let mut text = String::from_str("riot:");
    proof { reveal_strlit("riot:"); }
    text.append(password);
    assert(text@ =~= credentials_text(password@));
    base64_encode(text.as_str().as_bytes())
}

/// The `Authorization` header value `Basic <encoded>`.
pub fn authorization(encoded: &str) -> (value: String)
    ensures
        value@ == authorization_text(encoded@),
{
    let mut value = String::from_str("Basic ");
    proof { reveal_strlit("Basic "); }
    value.append(encoded);
    assert(value@ =~= authorization_text(encoded@));
    value
}

/// Encodes the sixteen bytes of a WebSocket handshake key in base64.
pub fn handshake_key_text(bytes: &[u8; 16]) -> (key: String)
    ensures
        key@ == base64_standard(bytes@),
        key@.len() == 24,
{
    base64_encode(bytes.as_slice())
}

} // verus!
