use thalora::auth::AuthenticationCore;
use thalora::codec::AuthService;
use thalora::errors::AuthError;
use std::collections::HashMap;
use thalora::models::{
    AuthenticatorAssertionResponse, AuthenticatorAttestationResponse, AuthenticatorResponse,
    PublicKeyCredential,
};
use thalora::repo::UserRepository;
use thalora::store::CeremonyStore;

const ORIGIN: &str = "http://localhost:3000";

fn new_core() -> AuthenticationCore {
    AuthenticationCore::new(
        "localhost".to_string(),
        "Thalora URL Shortener".to_string(),
        ORIGIN.to_string(),
    )
}

fn client_data(challenge: &str, origin: &str) -> String {
    let json = format!("{{\"challenge\":\"{}\",\"origin\":\"{}\"}}", challenge, origin);
    AuthService::encode_base64(json.as_bytes())
}

fn attestation_credential(challenge: &str, origin: &str) -> PublicKeyCredential {
    let raw_id = AuthService::encode_base64(b"credential-id-0001");
    let attestation_object = AuthService::encode_base64(&[0xAAu8; 80]);
    PublicKeyCredential {
        id: raw_id.clone(),
        raw_id,
        cred_type: "public-key".to_string(),
        response: AuthenticatorResponse::AttestationResponse(AuthenticatorAttestationResponse {
            client_data_json: client_data(challenge, origin),
            attestation_object,
        }),
    }
}

fn assertion_credential(challenge: &str, origin: &str, counter: u32) -> PublicKeyCredential {
    let raw_id = AuthService::encode_base64(b"credential-id-0001");
    let mut auth_data = vec![0u8; 33];
    auth_data.extend_from_slice(&counter.to_be_bytes());
    PublicKeyCredential {
        id: raw_id.clone(),
        raw_id,
        cred_type: "public-key".to_string(),
        response: AuthenticatorResponse::AssertionResponse(AuthenticatorAssertionResponse {
            client_data_json: client_data(challenge, origin),
            authenticator_data: AuthService::encode_base64(&auth_data),
            signature: AuthService::encode_base64(b"signature"),
            user_handle: None,
        }),
    }
}

fn register_alice(core: &mut AuthenticationCore, session: u64, now: i64) -> i64 {
    let begin = core
        .begin_registration(session, "alice", "alice@x.com", now)
        .expect("begin_registration must succeed");
    let credential = attestation_credential(&begin.challenge, ORIGIN);
    let done = core
        .complete_registration(session, &begin.user_id, &credential, now)
        .expect("complete_registration must succeed");
    done.user_id
}

#[test]
fn test_scenario_registration() {
    let mut core = new_core();
    let begin = core
        .begin_registration(1, "alice", "alice@x.com", 1000)
        .expect("begin_registration must succeed");

    // The descriptor carries a 32-byte challenge.
    let challenge_bytes =
        AuthService::decode_base64(&begin.challenge).expect("challenge must decode");
    assert_eq!(challenge_bytes.len(), 32);
    let handle_bytes = AuthService::decode_base64(&begin.user_id).expect("handle must decode");
    assert_eq!(handle_bytes.len(), 16);
    assert_eq!(begin.timeout, 60000);
    assert_eq!(begin.rp.id, "localhost");
    assert_eq!(begin.user.name, "alice");
    assert_eq!(begin.pub_key_cred_params[0].alg, -7);
    assert_eq!(begin.pub_key_cred_params[1].alg, -257);
    assert_eq!(begin.attestation, "none");

    let credential = attestation_credential(&begin.challenge, ORIGIN);
    let done = core
        .complete_registration(1, &begin.user_id, &credential, 1010)
        .expect("complete_registration must succeed");
    assert_eq!(done.username, "alice");
    assert_eq!(done.email, "alice@x.com");

    // The created user is live, with its credential counter at zero.
    let user = core.current_user(1).expect("session must be authenticated");
    assert_eq!(user.id, done.user_id);
    assert_eq!(user.username, "alice");
    assert_eq!(user.passkey_counter, 0);
}

#[test]
fn test_scenario_login() {
    let mut core = new_core();
    register_alice(&mut core, 1, 1000);
    core.logout(1);

    let begin = core.begin_login(2, "alice", 2000).expect("begin_login must succeed");
    // The descriptor references alice's stored credential id.
    assert_eq!(begin.allow_credentials.len(), 1);
    assert_eq!(begin.allow_credentials[0].id, AuthService::encode_base64(b"credential-id-0001"));
    assert_eq!(begin.allow_credentials[0].cred_type, "public-key");

    let credential = assertion_credential(&begin.challenge, ORIGIN, 1);
    let done = core
        .complete_login(2, "alice", &credential, 2010)
        .expect("complete_login must succeed");
    assert_eq!(done.username, "alice");

    // The session is authenticated and the stored counter advanced to 1.
    let user = core.current_user(2).expect("session must be authenticated");
    assert_eq!(user.passkey_counter, 1);
}

#[test]
fn test_scenario_counter_replay() {
    let mut core = new_core();
    register_alice(&mut core, 1, 1000);
    core.logout(1);

    // A counter equal to the stored value (0) is a replay.
    let begin = core.begin_login(2, "alice", 2000).expect("begin_login must succeed");
    let credential = assertion_credential(&begin.challenge, ORIGIN, 0);
    assert_eq!(core.complete_login(2, "alice", &credential, 2010), Err(AuthError::CounterReplay));

    // The session is not authenticated.
    assert_eq!(core.current_user(2), Err(AuthError::Unauthenticated));
}

#[test]
fn test_scenario_registration_race() {
    let mut core = new_core();

    // Two sessions begin registration for the same username.
    let begin_a = core
        .begin_registration(1, "bob", "bob@x.com", 1000)
        .expect("begin_registration must succeed");
    let begin_b = core
        .begin_registration(2, "bob", "bob@other.com", 1000)
        .expect("begin_registration must succeed");

    // The second session completes first and wins.
    let cred_b = attestation_credential(&begin_b.challenge, ORIGIN);
    core.complete_registration(2, &begin_b.user_id, &cred_b, 1010)
        .expect("first completion must succeed");
    assert_eq!(core.user_count(), 1);

    // The username was taken between begin and complete: conflict, and no
    // second row appears.
    let cred_a = attestation_credential(&begin_a.challenge, ORIGIN);
    assert_eq!(
        core.complete_registration(1, &begin_a.user_id, &cred_a, 1020),
        Err(AuthError::Conflict)
    );
    assert_eq!(core.user_count(), 1);
    assert_eq!(core.current_user(1), Err(AuthError::Unauthenticated));
}

#[test]
fn test_login_counter_must_increase() {
    let mut core = new_core();
    register_alice(&mut core, 1, 1000);

    // First login with counter 5: accepted, counter stored.
    let begin = core.begin_login(1, "alice", 2000).expect("begin_login must succeed");
    let credential = assertion_credential(&begin.challenge, ORIGIN, 5);
    core.complete_login(1, "alice", &credential, 2001).expect("login must succeed");
    assert_eq!(core.current_user(1).unwrap().passkey_counter, 5);

    // Second login replaying the same underlying counter value fails.
    let begin = core.begin_login(1, "alice", 3000).expect("begin_login must succeed");
    let credential = assertion_credential(&begin.challenge, ORIGIN, 5);
    assert_eq!(core.complete_login(1, "alice", &credential, 3001), Err(AuthError::CounterReplay));

    // A strictly greater counter is accepted again.
    let begin = core.begin_login(1, "alice", 4000).expect("begin_login must succeed");
    let credential = assertion_credential(&begin.challenge, ORIGIN, 6);
    core.complete_login(1, "alice", &credential, 4001).expect("login must succeed");
    assert_eq!(core.current_user(1).unwrap().passkey_counter, 6);
}

#[test]
fn test_challenge_mismatch_rejected() {
    let mut core = new_core();
    let begin = core
        .begin_registration(1, "alice", "alice@x.com", 1000)
        .expect("begin must succeed");

    // A response built over a different challenge always fails with
    // ChallengeMismatch, however valid its other fields.
    let other = AuthService::encode_base64(&[9u8; 32]);
    let credential = attestation_credential(&other, ORIGIN);
    assert_eq!(
        core.complete_registration(1, &begin.user_id, &credential, 1001),
        Err(AuthError::ChallengeMismatch)
    );
}

#[test]
fn test_origin_mismatch_rejected() {
    let mut core = new_core();
    let begin = core
        .begin_registration(1, "alice", "alice@x.com", 1000)
        .expect("begin must succeed");
    let credential = attestation_credential(&begin.challenge, "https://evil.example");
    assert_eq!(
        core.complete_registration(1, &begin.user_id, &credential, 1001),
        Err(AuthError::OriginMismatch)
    );
}

#[test]
fn test_wrong_response_type_rejected() {
    let mut core = new_core();
    let begin = core
        .begin_registration(1, "alice", "alice@x.com", 1000)
        .expect("begin must succeed");
    // An assertion-shaped response cannot complete a registration.
    let credential = assertion_credential(&begin.challenge, ORIGIN, 1);
    assert_eq!(
        core.complete_registration(1, &begin.user_id, &credential, 1001),
        Err(AuthError::WrongResponseType)
    );

    // And an attestation-shaped response cannot complete a login.
    register_alice(&mut core, 1, 1100);
    let begin = core.begin_login(1, "alice", 2000).expect("begin_login must succeed");
    let credential = attestation_credential(&begin.challenge, ORIGIN);
    assert_eq!(
        core.complete_login(1, "alice", &credential, 2001),
        Err(AuthError::WrongResponseType)
    );
}

#[test]
fn test_handle_and_username_mismatch() {
    let mut core = new_core();
    let begin = core
        .begin_registration(1, "alice", "alice@x.com", 1000)
        .expect("begin must succeed");
    let credential = attestation_credential(&begin.challenge, ORIGIN);
    let wrong_handle = AuthService::encode_base64(&[1u8; 16]);
    assert_eq!(
        core.complete_registration(1, &wrong_handle, &credential, 1001),
        Err(AuthError::HandleMismatch)
    );

    // The ceremony stays intact after the mismatch: the right handle still
    // completes.
    core.complete_registration(1, &begin.user_id, &credential, 1002)
        .expect("retry with the right handle must succeed");

    let begin = core.begin_login(1, "alice", 2000).expect("begin_login must succeed");
    let credential = assertion_credential(&begin.challenge, ORIGIN, 1);
    assert_eq!(
        core.complete_login(1, "mallory", &credential, 2001),
        Err(AuthError::UsernameMismatch)
    );
}

#[test]
fn test_invalid_input_and_conflict_on_begin() {
    let mut core = new_core();
    assert_eq!(
        core.begin_registration(1, "", "a@x.com", 1000).unwrap_err(),
        AuthError::InvalidInput
    );
    assert_eq!(
        core.begin_registration(1, "alice", "not-an-email", 1000).unwrap_err(),
        AuthError::InvalidInput
    );

    register_alice(&mut core, 1, 1000);
    assert_eq!(
        core.begin_registration(2, "alice", "new@x.com", 2000).unwrap_err(),
        AuthError::Conflict
    );
    assert_eq!(
        core.begin_registration(2, "fresh", "alice@x.com", 2000).unwrap_err(),
        AuthError::Conflict
    );
}

#[test]
fn test_no_ceremony_and_unknown_user() {
    let mut core = new_core();
    let credential = attestation_credential("x", ORIGIN);
    assert_eq!(
        core.complete_registration(1, "h", &credential, 1000),
        Err(AuthError::NoCeremonyInProgress)
    );
    let credential = assertion_credential("x", ORIGIN, 1);
    assert_eq!(
        core.complete_login(1, "alice", &credential, 1000),
        Err(AuthError::NoCeremonyInProgress)
    );
    assert_eq!(core.begin_login(1, "alice", 1000).unwrap_err(), AuthError::NotFound);
}

#[test]
fn test_ceremony_expiry() {
    let mut core = new_core();
    let begin = core
        .begin_registration(1, "alice", "alice@x.com", 1000)
        .expect("begin must succeed");
    let credential = attestation_credential(&begin.challenge, ORIGIN);

    // 61 seconds later the ceremony has expired, and it is gone for good.
    assert_eq!(
        core.complete_registration(1, &begin.user_id, &credential, 1061),
        Err(AuthError::CeremonyExpired)
    );
    assert_eq!(
        core.complete_registration(1, &begin.user_id, &credential, 1061),
        Err(AuthError::NoCeremonyInProgress)
    );

    // Exactly at the time-to-live the ceremony is still good.
    let begin = core
        .begin_registration(1, "alice", "alice@x.com", 2000)
        .expect("begin must succeed");
    let credential = attestation_credential(&begin.challenge, ORIGIN);
    core.complete_registration(1, &begin.user_id, &credential, 2060)
        .expect("completion at the boundary must succeed");
}

#[test]
fn test_challenge_consumed_once() {
    let mut core = new_core();
    let begin = core
        .begin_registration(1, "alice", "alice@x.com", 1000)
        .expect("begin must succeed");
    let credential = attestation_credential(&begin.challenge, ORIGIN);
    core.complete_registration(1, &begin.user_id, &credential, 1001)
        .expect("completion must succeed");

    // The pending ceremony was consumed: replaying the same response finds
    // no ceremony.
    assert_eq!(
        core.complete_registration(1, &begin.user_id, &credential, 1002),
        Err(AuthError::NoCeremonyInProgress)
    );
}

#[test]
fn test_logout_idempotent() {
    let mut core = new_core();
    register_alice(&mut core, 1, 1000);
    assert!(core.current_user(1).is_ok());

    core.logout(1);
    assert_eq!(core.current_user(1), Err(AuthError::Unauthenticated));

    // A second logout is a no-op: no error, same state.
    core.logout(1);
    assert_eq!(core.current_user(1), Err(AuthError::Unauthenticated));
}

#[test]
fn test_current_user_self_healing() {
    // A session naming a user that does not exist is cleared.
    let mut sessions = HashMap::new();
    sessions.insert(7u64, 99i64);
    let mut core = AuthenticationCore {
        store: CeremonyStore::new(),
        sessions,
        repo: UserRepository::new(),
        rp_id: "localhost".to_string(),
        rp_name: "Thalora URL Shortener".to_string(),
        origin: ORIGIN.to_string(),
        timeout_ms: 60000,
        ttl_seconds: 60,
    };
    assert_eq!(core.current_user(7), Err(AuthError::Unauthenticated));
    assert!(!core.sessions.contains_key(&7));
}

#[test]
fn test_begin_overwrites_pending() {
    let mut core = new_core();
    let first = core
        .begin_registration(1, "alice", "alice@x.com", 1000)
        .expect("begin must succeed");
    let second = core
        .begin_registration(1, "alice", "alice@x.com", 1001)
        .expect("begin must succeed");

    // The first challenge was overwritten; only the second completes.
    let stale = attestation_credential(&first.challenge, ORIGIN);
    assert_eq!(
        core.complete_registration(1, &second.user_id, &stale, 1002),
        Err(AuthError::ChallengeMismatch)
    );
    let fresh = attestation_credential(&second.challenge, ORIGIN);
    core.complete_registration(1, &second.user_id, &fresh, 1003)
        .expect("the fresh challenge must complete");
}

#[test]
fn test_malformed_response_fields() {
    let mut core = new_core();
    let begin = core
        .begin_registration(1, "alice", "alice@x.com", 1000)
        .expect("begin must succeed");

    // Client data that is not valid base64.
    let mut credential = attestation_credential(&begin.challenge, ORIGIN);
    if let AuthenticatorResponse::AttestationResponse(resp) = &mut credential.response {
        resp.client_data_json = "!not-base64!".to_string();
    }
    assert_eq!(
        core.complete_registration(1, &begin.user_id, &credential, 1001),
        Err(AuthError::DecodingError)
    );

    // Client data that decodes but is not the expected JSON shape.
    let mut credential = attestation_credential(&begin.challenge, ORIGIN);
    if let AuthenticatorResponse::AttestationResponse(resp) = &mut credential.response {
        resp.client_data_json = AuthService::encode_base64(b"not json");
    }
    assert_eq!(
        core.complete_registration(1, &begin.user_id, &credential, 1001),
        Err(AuthError::InvalidInput)
    );

    // An attestation payload too short to hold a key.
    let mut credential = attestation_credential(&begin.challenge, ORIGIN);
    if let AuthenticatorResponse::AttestationResponse(resp) = &mut credential.response {
        resp.attestation_object = AuthService::encode_base64(&[1u8; 10]);
    }
    assert_eq!(
        core.complete_registration(1, &begin.user_id, &credential, 1001),
        Err(AuthError::InvalidInput)
    );
}
