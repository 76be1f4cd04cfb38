use thalora::config::DatabaseConfig;
use thalora::errors::{AuthError, ConfigError};
use thalora::models::DomainEntry;
use thalora::repo::UserRepository;
use thalora::shortener::{choose_short_url_base, txt_records_contain_token, BaseUrlError};

#[test]
fn test_validate_database_name() {
    assert!(DatabaseConfig::validate_database_name(
        "Server=localhost,1433;Database=master;User=sa;Password=pw"
    )
    .is_ok());
    // The keyword is matched in any letter case, with surrounding spaces.
    assert!(DatabaseConfig::validate_database_name("Server=x; DATABASE=thalora ;User=sa").is_ok());

    assert_eq!(
        DatabaseConfig::validate_database_name("Server=localhost;User=sa"),
        Err(ConfigError::MissingDatabaseName)
    );
    assert_eq!(
        DatabaseConfig::validate_database_name(""),
        Err(ConfigError::MissingDatabaseName)
    );
    assert_eq!(
        DatabaseConfig::validate_database_name("Server=x;Database=;User=sa"),
        Err(ConfigError::EmptyDatabaseName)
    );
    assert_eq!(
        DatabaseConfig::validate_database_name("Database=   "),
        Err(ConfigError::EmptyDatabaseName)
    );
}

#[test]
fn test_build_connection_string() {
    let base = "Server=localhost,1433;Database=master;User=sa";
    let with_encryption = DatabaseConfig::build_connection_string_with_encryption(base, true);
    assert_eq!(
        with_encryption,
        "Database=master;Encrypt=yes;Server=localhost,1433;TrustServerCertificate=true;User=sa"
    );

    let without_encryption = DatabaseConfig::build_connection_string_with_encryption(base, false);
    assert_eq!(
        without_encryption,
        "Database=master;Encrypt=no;Server=localhost,1433;TrustServerCertificate=yes;User=sa"
    );

    // Existing encryption parameters are overridden, a repeated key keeps
    // its last value, and keys are matched in any letter case.
    let noisy = "encrypt=no; SERVER=a; Server=b; TrustServerCertificate=false";
    let rebuilt = DatabaseConfig::build_connection_string_with_encryption(noisy, true);
    assert_eq!(rebuilt, "Encrypt=yes;Server=b;TrustServerCertificate=true");
}

#[test]
fn test_repository_uniqueness() {
    let mut repo = UserRepository::new();
    let id = repo
        .create_user("alice", "alice@x.com", &[1u8; 65], &[2u8; 16], 0, 1000)
        .expect("first creation must succeed");
    assert_eq!(id, 1);

    // Of two racing registrations with the same username, the one that
    // reaches storage second conflicts — nothing is written for it.
    assert_eq!(
        repo.create_user("alice", "other@x.com", &[1u8; 65], &[2u8; 16], 0, 1001),
        Err(AuthError::Conflict)
    );
    assert_eq!(
        repo.create_user("fresh", "alice@x.com", &[1u8; 65], &[2u8; 16], 0, 1001),
        Err(AuthError::Conflict)
    );

    let found = repo.find_user_by_username("alice").expect("alice must be found");
    assert_eq!(found.id, 1);
    assert_eq!(found.email, "alice@x.com");
    assert_eq!(found.passkey_counter, 0);
    assert!(repo.find_user_by_username("nobody").is_none());
    assert!(repo.find_user_by_email("alice@x.com").is_some());
    assert!(repo.find_user_by_id(1).is_some());
    assert!(repo.find_user_by_id(2).is_none());
}

#[test]
fn test_repository_counter_update() {
    let mut repo = UserRepository::new();
    repo.create_user("alice", "alice@x.com", &[1u8; 65], &[2u8; 16], 0, 1000)
        .expect("creation must succeed");

    assert!(repo.update_credential_counter(1, 7, 2000));
    let found = repo.find_user_by_id(1).expect("alice must be found");
    assert_eq!(found.passkey_counter, 7);
    assert_eq!(found.updated_at, 2000);
    assert_eq!(found.created_at, 1000);

    assert!(!repo.update_credential_counter(42, 9, 2000));
}

#[test]
fn test_txt_record_matching() {
    let records = vec![
        "unrelated".to_string(),
        "  thalora-verification-abc  ".to_string(),
    ];
    assert!(txt_records_contain_token(&records, "thalora-verification-abc"));
    assert!(!txt_records_contain_token(&records, "thalora-verification-xyz"));
    assert!(!txt_records_contain_token(&Vec::new(), "anything"));
}

fn domain(name: &str) -> DomainEntry {
    DomainEntry {
        id: 1,
        user_id: None,
        domain_name: name.to_string(),
        is_verified: true,
        verification_token: None,
        created_at: 0,
        updated_at: 0,
    }
}

#[test]
fn test_choose_short_url_base() {
    let domains = vec![domain("links.example.com"), domain("go.example.net")];

    // A requested, verified domain is used.
    let requested = "go.example.net".to_string();
    assert_eq!(
        choose_short_url_base(&domains, Some(&requested), false, "", ""),
        Ok("https://go.example.net".to_string())
    );

    // A requested domain that is not on the verified list is refused.
    let missing = "absent.example".to_string();
    assert_eq!(
        choose_short_url_base(&domains, Some(&missing), false, "", ""),
        Err(BaseUrlError::DomainNotVerified)
    );

    // With no request, the first verified domain serves.
    assert_eq!(
        choose_short_url_base(&domains, None, false, "", ""),
        Ok("https://links.example.com".to_string())
    );

    // With no domains, the connection info serves only under the local
    // fallback; blank info falls back to localhost.
    let none: Vec<DomainEntry> = Vec::new();
    assert_eq!(
        choose_short_url_base(&none, None, true, "http", "localhost:9000"),
        Ok("http://localhost:9000".to_string())
    );
    assert_eq!(
        choose_short_url_base(&none, None, true, "", ""),
        Ok("http://localhost:8080".to_string())
    );
    assert_eq!(
        choose_short_url_base(&none, None, false, "http", "localhost:9000"),
        Err(BaseUrlError::NoVerifiedDomains)
    );
}

#[test]
fn test_verification_token_shape() {
    let (_, _, token) = thalora::shortener::validate_domain("example.com");
    let token = token.expect("a valid domain gets a token");
    assert!(token.starts_with("thalora-verification-"));
    assert_eq!(token.len(), "thalora-verification-".len() + 32);
    assert!(token["thalora-verification-".len()..]
        .chars()
        .all(|c| c.is_ascii_alphanumeric()));
}

#[test]
fn test_error_descriptions() {
    assert_eq!(AuthError::Conflict.describe(), "username or email already exists");
    assert_eq!(AuthError::CounterReplay.describe(), "counter replay");
    assert_eq!(AuthError::CeremonyExpired.describe(), "ceremony expired");
}
