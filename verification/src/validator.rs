use vstd::prelude::*;

use crate::codec::{b64_decoding, decode_or, AuthService};
use crate::errors::AuthError;
use crate::models::{AuthenticatorAttestationResponse, AuthenticatorResponse, PublicKeyCredential};
use crate::util::{bytes_prefix, str_eq};

verus! {

/// The `challenge` and `origin` string fields of a JSON client-data
/// payload, if the bytes parse as JSON and carry both fields as strings.
pub uninterp spec fn client_data_of(bytes: Seq<u8>) -> Option<(Seq<char>, Seq<char>)>;

/// Relies on serde_json::from_slice, Value::get and Value::as_str: parses
/// the bytes as JSON and reads the string fields "challenge" and "origin".
/// The result is a function of the bytes alone.
#[verifier::external_body]
fn parse_client_data(bytes: &[u8]) -> (r: Option<(String, String)>)
    ensures
        match r {
            Some(p) => client_data_of(bytes@) == Some((p.0@, p.1@)),
            None => client_data_of(bytes@) is None,
        },
{
    let value: serde_json::Value = serde_json::from_slice(bytes).ok()?;
    let challenge = value.get("challenge")?.as_str()?.to_string();
    let origin = value.get("origin")?.as_str()?.to_string();
    Some((challenge, origin))
}

/// Minimal length of a decoded attestation payload: enough bytes to hold
/// the placeholder public key.
pub open spec fn min_attestation_len() -> nat {
    65
}

/// Byte length of the fixed-size prefix of authenticator data:
/// a 32-byte relying-party hash, one flag byte, and a 4-byte counter.
pub open spec fn min_auth_data_len() -> nat {
    37
}

/// The challenge and origin fields carried by a base64-wrapped client-data
/// payload, or the error a validator reports for it.
pub open spec fn client_fields(json_b64: Seq<char>) -> Result<(Seq<char>, Seq<char>), AuthError> {
    match b64_decoding(json_b64) {
        Option::None => Err(AuthError::DecodingError),
        Option::Some(bytes) => match client_data_of(bytes) {
            Option::None => Err(AuthError::InvalidInput),
            Option::Some(fields) => Ok(fields),
        },
    }
}

/// The shared client-data check of both ceremonies: the decoded challenge
/// must equal the stored one byte for byte, and the origin must equal the
/// expected one exactly.
pub open spec fn check_client_data(
    json_b64: Seq<char>,
    expected_challenge: Seq<char>,
    expected_origin: Seq<char>,
) -> Result<(), AuthError> {
    match client_fields(json_b64) {
        Err(e) => Err(e),
        Ok(fields) => if fields.0 != expected_challenge {
            Err(AuthError::ChallengeMismatch)
        } else if fields.1 != expected_origin {
            Err(AuthError::OriginMismatch)
        } else {
            Ok(())
        },
    }
}

/// The big-endian 32-bit integer at offset `i` of `bytes`.
pub open spec fn be_u32_at(bytes: Seq<u8>, i: int) -> int {
    (bytes[i] as int) * 0x1000000 + (bytes[i + 1] as int) * 0x10000 + (bytes[i + 2] as int) * 0x100
        + (bytes[i + 3] as int)
}

/// The signature counter of an authenticator-data payload: the big-endian
/// 32-bit integer after the 32-byte relying-party hash and the flag byte.
pub open spec fn auth_data_counter(auth_data: Seq<u8>) -> int {
    be_u32_at(auth_data, 33)
}

/// What validating a registration (attestation) response yields: the
/// decoded credential identifier and the extracted public key, or the
/// error, as a function of the response and the expected values.
pub open spec fn reg_validation(
    cred: PublicKeyCredential,
    expected_challenge: Seq<char>,
    expected_origin: Seq<char>,
) -> Result<(Seq<u8>, Seq<u8>), AuthError> {
    match cred.response {
        AuthenticatorResponse::AssertionResponse(_) => Err(AuthError::WrongResponseType),
        AuthenticatorResponse::AttestationResponse(resp) => match check_client_data(
            resp.client_data_json@,
            expected_challenge,
            expected_origin,
        ) {
            Err(e) => Err(e),
            Ok(_) => match b64_decoding(cred.raw_id@) {
                Option::None => Err(AuthError::DecodingError),
                Option::Some(credential_id) => match b64_decoding(resp.attestation_object@) {
                    Option::None => Err(AuthError::DecodingError),
                    Option::Some(att) => if att.len() >= min_attestation_len() {
                        Ok((credential_id, att.subrange(0, min_attestation_len() as int)))
                    } else {
                        Err(AuthError::InvalidInput)
                    },
                },
            },
        },
    }
}

/// What validating a login (assertion) response yields: the counter to
/// persist, or the error, as a function of the response, the expected
/// values, and the stored counter.
pub open spec fn login_validation(
    cred: PublicKeyCredential,
    expected_challenge: Seq<char>,
    expected_origin: Seq<char>,
    stored_counter: u32,
) -> Result<u32, AuthError> {
    match cred.response {
        AuthenticatorResponse::AttestationResponse(_) => Err(AuthError::WrongResponseType),
        AuthenticatorResponse::AssertionResponse(resp) => match check_client_data(
            resp.client_data_json@,
            expected_challenge,
            expected_origin,
        ) {
            Err(e) => Err(e),
            Ok(_) => match b64_decoding(resp.authenticator_data@) {
                Option::None => Err(AuthError::DecodingError),
                Option::Some(auth_data) => if auth_data.len() < min_auth_data_len() {
                    Err(AuthError::InvalidInput)
                } else {
                    match b64_decoding(resp.signature@) {
                        Option::None => Err(AuthError::DecodingError),
                        Option::Some(sig) => if sig.len() == 0 {
                            Err(AuthError::InvalidInput)
                        } else if auth_data_counter(auth_data) <= stored_counter {
                            Err(AuthError::CounterReplay)
                        } else {
                            Ok(auth_data_counter(auth_data) as u32)
                        },
                    }
                },
            },
        },
    }
}

impl AuthService {
    /// Validate an attestation response against the stored challenge and
    /// the expected origin, yielding the credential identifier and the
    /// public key to persist.
    ///
    /// The public key is a placeholder taken deterministically from the
    /// attestation payload; real attestation-object (CBOR/COSE) parsing
    /// and signature verification against a trust anchor must replace
    /// that step for this to be cryptographically meaningful.
    pub fn validate_registration_credential(
        credential: &PublicKeyCredential,
        expected_challenge: &str,
        expected_origin: &str,
    ) -> (r: Result<(Vec<u8>, Vec<u8>), AuthError>)
        ensures
            match r {
                Ok(p) => reg_validation(*credential, expected_challenge@, expected_origin@) == Ok::<
                    (Seq<u8>, Seq<u8>),
                    AuthError,
                >((p.0@, p.1@)),
                Err(e) => reg_validation(*credential, expected_challenge@, expected_origin@)
                    == Err::<(Seq<u8>, Seq<u8>), AuthError>(e),
            },
    {
        let resp = match &credential.response {
            AuthenticatorResponse::AttestationResponse(resp) => resp,
            AuthenticatorResponse::AssertionResponse(_) => {
                return Err(AuthError::WrongResponseType);
            },
        };
        let client_data_bytes = match decode_or(resp.client_data_json.as_str(), AuthError::DecodingError) {
            Ok(b) => b,
            Err(e) => return Err(e),
        };
        let fields = match parse_client_data(client_data_bytes.as_slice()) {
            Some(f) => f,
            None => return Err(AuthError::InvalidInput),
        };
        if !str_eq(fields.0.as_str(), expected_challenge) {
            return Err(AuthError::ChallengeMismatch);
        }
        if !str_eq(fields.1.as_str(), expected_origin) {
            return Err(AuthError::OriginMismatch);
        }
        let credential_id = match decode_or(credential.raw_id.as_str(), AuthError::DecodingError) {
            Ok(b) => b,
            Err(e) => return Err(e),
        };
        let attestation = match decode_or(resp.attestation_object.as_str(), AuthError::DecodingError) {
            Ok(b) => b,
            Err(e) => return Err(e),
        };
        if attestation.len() < 65 {
            return Err(AuthError::InvalidInput);
        }
        let public_key = bytes_prefix(&attestation, 65);
        Ok((credential_id, public_key))
    }

    /// Validate an assertion response against the stored challenge, the
    /// expected origin and the stored counter, yielding the counter to
    /// persist — the counter carried by the authenticator data, which must
    /// be strictly greater than the stored one.
    ///
    /// The assertion signature is only checked to decode and be non-empty;
    /// real signature verification over the authenticator data and the
    /// client-data hash, using the stored public key, must replace that
    /// check for this to be cryptographically meaningful.
    pub fn validate_authentication_credential(
        credential: &PublicKeyCredential,
        expected_challenge: &str,
        expected_origin: &str,
        _stored_public_key: &[u8],
        stored_counter: u32,
    ) -> (r: Result<u32, AuthError>)
        ensures
            match r {
                Ok(n) => login_validation(
                    *credential,
                    expected_challenge@,
                    expected_origin@,
                    stored_counter,
                ) == Ok::<u32, AuthError>(n),
                Err(e) => login_validation(
                    *credential,
                    expected_challenge@,
                    expected_origin@,
                    stored_counter,
                ) == Err::<u32, AuthError>(e),
            },
            r is Ok ==> r->Ok_0 > stored_counter,
    {
        let resp = match &credential.response {
            AuthenticatorResponse::AssertionResponse(resp) => resp,
            AuthenticatorResponse::AttestationResponse(_) => {
                return Err(AuthError::WrongResponseType);
            },
        };
        let client_data_bytes = match decode_or(resp.client_data_json.as_str(), AuthError::DecodingError) {
            Ok(b) => b,
            Err(e) => return Err(e),
        };
        let fields = match parse_client_data(client_data_bytes.as_slice()) {
            Some(f) => f,
            None => return Err(AuthError::InvalidInput),
        };
        if !str_eq(fields.0.as_str(), expected_challenge) {
            return Err(AuthError::ChallengeMismatch);
        }
        if !str_eq(fields.1.as_str(), expected_origin) {
            return Err(AuthError::OriginMismatch);
        }
        let auth_data = match decode_or(resp.authenticator_data.as_str(), AuthError::DecodingError) {
            Ok(b) => b,
            Err(e) => return Err(e),
        };
        if auth_data.len() < 37 {
            return Err(AuthError::InvalidInput);
        }
        let signature = match decode_or(resp.signature.as_str(), AuthError::DecodingError) {
            Ok(b) => b,
            Err(e) => return Err(e),
        };
        if signature.len() == 0 {
            return Err(AuthError::InvalidInput);
        }
        let b0 = auth_data[33];
        let b1 = auth_data[34];
        let b2 = auth_data[35];
        let b3 = auth_data[36];
        let received: u32 = (b0 as u32) * 0x1000000 + (b1 as u32) * 0x10000 + (b2 as u32) * 0x100
            + (b3 as u32);
        if received <= stored_counter {
            return Err(AuthError::CounterReplay);
        }
        Ok(received)
    }
}

/// A registration response whose client-data challenge differs from the
/// stored challenge is always rejected with `ChallengeMismatch`, whatever
/// its other fields hold.
pub proof fn lemma_registration_challenge_mismatch(
    cred: PublicKeyCredential,
    resp: AuthenticatorAttestationResponse,
    expected_challenge: Seq<char>,
    expected_origin: Seq<char>,
    fields: (Seq<char>, Seq<char>),
)
    requires
        cred.response == AuthenticatorResponse::AttestationResponse(resp),
        client_fields(resp.client_data_json@) == Ok::<(Seq<char>, Seq<char>), AuthError>(fields),
        fields.0 != expected_challenge,
    ensures
        reg_validation(cred, expected_challenge, expected_origin) == Err::<
            (Seq<u8>, Seq<u8>),
            AuthError,
        >(AuthError::ChallengeMismatch),
{
}

/// A validated login response always yields a counter strictly greater
/// than the stored one.
pub proof fn lemma_login_counter_increases(
    cred: PublicKeyCredential,
    expected_challenge: Seq<char>,
    expected_origin: Seq<char>,
    stored_counter: u32,
    new_counter: u32,
)
    requires
        login_validation(cred, expected_challenge, expected_origin, stored_counter) == Ok::<
            u32,
            AuthError,
        >(new_counter),
    ensures
        new_counter > stored_counter,
{
}

/// Once a counter value has been accepted and persisted, any further
/// response carrying the same underlying counter — however valid its
/// challenge, origin and signature fields — is rejected with
/// `CounterReplay`.
pub proof fn lemma_login_counter_replay(
    cred: PublicKeyCredential,
    resp: crate::models::AuthenticatorAssertionResponse,
    expected_challenge: Seq<char>,
    expected_origin: Seq<char>,
    persisted_counter: u32,
    auth_data: Seq<u8>,
)
    requires
        cred.response == AuthenticatorResponse::AssertionResponse(resp),
        b64_decoding(resp.authenticator_data@) == Some(auth_data),
        auth_data.len() >= min_auth_data_len(),
        auth_data_counter(auth_data) == persisted_counter,
    ensures
        login_validation(cred, expected_challenge, expected_origin, persisted_counter) != Ok::<
            u32,
            AuthError,
        >(auth_data_counter(auth_data) as u32),
        check_client_data(resp.client_data_json@, expected_challenge, expected_origin) == Ok::<
            (),
            AuthError,
        >(()) && b64_decoding(resp.signature@) is Some && b64_decoding(resp.signature@)->0.len() > 0
            ==> login_validation(cred, expected_challenge, expected_origin, persisted_counter)
            == Err::<u32, AuthError>(AuthError::CounterReplay),
{
}

} // verus!
