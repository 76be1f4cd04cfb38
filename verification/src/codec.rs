use vstd::prelude::*;

use crate::errors::AuthError;

verus! {

/// The URL-safe, unpadded base64 rendering of a byte sequence.
pub uninterp spec fn b64_encoding(bytes: Seq<u8>) -> Seq<char>;

/// The bytes a URL-safe, unpadded base64 string stands for, if it is one.
pub uninterp spec fn b64_decoding(s: Seq<char>) -> Option<Seq<u8>>;

/// The error type of the base64 crate's decoder.
#[verifier::external_type_specification]
#[verifier::external_body]
pub struct ExDecodeError(base64::DecodeError);

/// Stateless generator of challenges, user handles, and their wire encoding.
pub struct AuthService;

impl AuthService {
    /// Relies on rand::fill: fills the buffer from the thread-local CSPRNG.
    /// Nothing but the length can be promised of a random value.
    #[verifier::external_body]
    pub fn generate_challenge() -> (r: Vec<u8>)
        ensures
            r@.len() == crate::challenge_len(),
    {
        let mut buf = vec![0u8; 32];
        rand::fill(&mut buf[..]);
        buf
    }

    /// Relies on uuid::Uuid::new_v4: a fresh random (version 4) UUID,
    /// sixteen bytes long. Nothing but the length can be promised.
    #[verifier::external_body]
    pub fn generate_user_id() -> (r: Vec<u8>)
        ensures
            r@.len() == 16,
    {
        uuid::Uuid::new_v4().as_bytes().to_vec()
    }

    /// Relies on base64's URL_SAFE_NO_PAD engine: `encode` renders the bytes
    /// in the URL-safe alphabet without padding, four characters for every
    /// three bytes, and `decode` inverts it.
    #[verifier::external_body]
    pub fn encode_base64(data: &[u8]) -> (r: String)
        ensures
            r@ == b64_encoding(data@),
            b64_decoding(r@) == Some(data@),
            r@.len() == ((data@.len() * 4) + 2) / 3,
    {
        base64::Engine::encode(&base64::engine::general_purpose::URL_SAFE_NO_PAD, data)
    }

    /// Relies on base64's URL_SAFE_NO_PAD engine: `decode` accepts exactly
    /// the strings its `encode` produces (no padding, no loose trailing
    /// bits), so a successful decode re-encodes to the same string.
    #[verifier::external_body]
    pub fn decode_base64(data: &str) -> (r: Result<Vec<u8>, base64::DecodeError>)
        ensures
            match r {
                Ok(v) => b64_decoding(data@) == Some(v@) && b64_encoding(v@) == data@,
                Err(_) => b64_decoding(data@) is None,
            },
    {
        base64::Engine::decode(&base64::engine::general_purpose::URL_SAFE_NO_PAD, data)
    }
}

/// Decode a base64 field of a request, mapping failure to the library's
/// error space.
pub fn decode_or(data: &str, e: AuthError) -> (r: Result<Vec<u8>, AuthError>)
    ensures
        match r {
            Ok(v) => b64_decoding(data@) == Some(v@) && b64_encoding(v@) == data@,
            Err(err) => b64_decoding(data@) is None && err == e,
        },
{
    match AuthService::decode_base64(data) {
        Ok(v) => Ok(v),
        Err(_) => Err(e),
    }
}

} // verus!
