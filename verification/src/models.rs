use vstd::prelude::*;

verus! {

/// A stored user record. Timestamps are Unix seconds.
#[derive(Debug, Clone, PartialEq)]
pub struct User {
    pub id: i64,
    pub username: String,
    pub email: String,
    pub passkey_public_key: Vec<u8>,
    pub passkey_credential_id: Vec<u8>,
    pub passkey_counter: u32,
    pub created_at: i64,
    pub updated_at: i64,
}

/// Field-by-field equality of two user records, at the level of views.
pub open spec fn user_like(a: User, b: User) -> bool {
    &&& a.id == b.id
    &&& a.username@ == b.username@
    &&& a.email@ == b.email@
    &&& a.passkey_public_key@ == b.passkey_public_key@
    &&& a.passkey_credential_id@ == b.passkey_credential_id@
    &&& a.passkey_counter == b.passkey_counter
    &&& a.created_at == b.created_at
    &&& a.updated_at == b.updated_at
}

impl User {
    /// An owned copy of the record, equal field by field.
    pub fn snapshot(&self) -> (r: User)
        ensures
            user_like(r, *self),
    {
        let public_key = self.passkey_public_key.clone();
        let credential_id = self.passkey_credential_id.clone();
        proof {
            assert(public_key@ =~= self.passkey_public_key@);
            assert(credential_id@ =~= self.passkey_credential_id@);
        }
        User {
            id: self.id,
            username: self.username.clone(),
            email: self.email.clone(),
            passkey_public_key: public_key,
            passkey_credential_id: credential_id,
            passkey_counter: self.passkey_counter,
            created_at: self.created_at,
            updated_at: self.updated_at,
        }
    }
}

#[derive(Debug, Clone)]
pub struct RegisterBeginRequest {
    pub username: String,
    pub email: String,
}

#[derive(Debug)]
pub struct RegisterBeginResponse {
    pub challenge: String,
    pub user_id: String,
    pub timeout: u32,
    pub rp: RelyingParty,
    pub user: UserInfo,
    pub pub_key_cred_params: Vec<PubKeyCredParam>,
    pub authenticator_selection: AuthenticatorSelection,
    pub attestation: String,
}

#[derive(Debug)]
pub struct RegisterCompleteRequest {
    pub user_id: String,
    pub credential: PublicKeyCredential,
}

#[derive(Debug, Clone, PartialEq)]
pub struct RegisterCompleteResponse {
    pub user_id: i64,
    pub username: String,
    pub email: String,
}

#[derive(Debug, Clone)]
pub struct LoginBeginRequest {
    pub username: String,
}

#[derive(Debug)]
pub struct LoginBeginResponse {
    pub challenge: String,
    pub timeout: u32,
    pub rp_id: String,
    pub allow_credentials: Vec<AllowedCredential>,
}

#[derive(Debug)]
pub struct LoginCompleteRequest {
    pub username: String,
    pub credential: PublicKeyCredential,
}

#[derive(Debug, Clone, PartialEq)]
pub struct LoginCompleteResponse {
    pub user_id: i64,
    pub username: String,
    pub email: String,
}

#[derive(Debug, Clone)]
pub struct RelyingParty {
    pub id: String,
    pub name: String,
}

#[derive(Debug, Clone)]
pub struct UserInfo {
    pub id: String,
    pub name: String,
    pub display_name: String,
}

#[derive(Debug, Clone)]
pub struct PubKeyCredParam {
    pub alg: i32,
    pub cred_type: String,
}

#[derive(Debug, Clone)]
pub struct AuthenticatorSelection {
    pub authenticator_attachment: Option<String>,
    pub require_resident_key: bool,
    pub resident_key: String,
    pub user_verification: String,
}

#[derive(Debug, Clone)]
pub struct AllowedCredential {
    pub id: String,
    pub cred_type: String,
    pub transports: Option<Vec<String>>,
}

/// A ceremony response as submitted by the client, already shaped into
/// plain fields by the transport layer.
#[derive(Debug)]
pub struct PublicKeyCredential {
    pub id: String,
    pub raw_id: String,
    pub cred_type: String,
    pub response: AuthenticatorResponse,
}

/// The two response shapes, tagged: attestation responses belong to
/// registration ceremonies, assertion responses to login ceremonies.
#[derive(Debug)]
pub enum AuthenticatorResponse {
    AttestationResponse(AuthenticatorAttestationResponse),
    AssertionResponse(AuthenticatorAssertionResponse),
}

#[derive(Debug)]
pub struct AuthenticatorAttestationResponse {
    pub client_data_json: String,
    pub attestation_object: String,
}

#[derive(Debug)]
pub struct AuthenticatorAssertionResponse {
    pub client_data_json: String,
    pub authenticator_data: String,
    pub signature: String,
    pub user_handle: Option<String>,
}

/// The identity a request carries once its session has been checked.
#[derive(Debug, Clone)]
pub struct AuthenticatedUser {
    pub user_id: i64,
}

/// A stored URL mapping. Timestamps are Unix seconds.
#[derive(Debug, Clone)]
pub struct UrlEntry {
    pub id: i64,
    pub original_url: String,
    pub shortened_url: String,
    pub created_at: i64,
    pub updated_at: i64,
}

/// A stored custom domain. Timestamps are Unix seconds.
#[derive(Debug, Clone)]
pub struct DomainEntry {
    pub id: i64,
    pub user_id: Option<i64>,
    pub domain_name: String,
    pub is_verified: bool,
    pub verification_token: Option<String>,
    pub created_at: i64,
    pub updated_at: i64,
}

} // verus!
