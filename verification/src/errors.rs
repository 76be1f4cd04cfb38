use vstd::prelude::*;

verus! {

/// Everything that can go wrong inside the authentication core.
///
/// The ceremony-level failures (`ChallengeMismatch`, `OriginMismatch`,
/// `HandleMismatch`, `UsernameMismatch`, `WrongResponseType`, `CounterReplay`,
/// `CeremonyExpired`) are authentication failures; a server should report them
/// to the client without detail.
#[derive(Debug, Clone, Copy, PartialEq, Eq, Structural)]
pub enum AuthError {
    /// A request field is syntactically unacceptable.
    InvalidInput,
    /// The username or email is already taken.
    Conflict,
    /// No user with the given name or identifier exists.
    NotFound,
    /// Completion was attempted with no pending ceremony for the session.
    NoCeremonyInProgress,
    /// The challenge inside the signed client data differs from the stored one.
    ChallengeMismatch,
    /// The origin inside the signed client data differs from the expected one.
    OriginMismatch,
    /// The claimed user handle differs from the stored one.
    HandleMismatch,
    /// The claimed username differs from the stored one.
    UsernameMismatch,
    /// A registration ceremony got an assertion response, or the other way round.
    WrongResponseType,
    /// The signature counter did not increase strictly.
    CounterReplay,
    /// The pending ceremony outlived its time-to-live.
    CeremonyExpired,
    /// A base64 string did not decode to bytes.
    EncodingError,
    /// A base64 field of a ceremony response did not decode.
    DecodingError,
    /// No authenticated user is bound to the session.
    Unauthenticated,
}

impl AuthError {
    /// A short, stable description of the error.
    pub fn describe(&self) -> &'static str {
        match self {
            AuthError::InvalidInput => "invalid input",
            AuthError::Conflict => "username or email already exists",
            AuthError::NotFound => "not found",
            AuthError::NoCeremonyInProgress => "no ceremony in progress",
            AuthError::ChallengeMismatch => "challenge mismatch",
            AuthError::OriginMismatch => "origin mismatch",
            AuthError::HandleMismatch => "user handle mismatch",
            AuthError::UsernameMismatch => "username mismatch",
            AuthError::WrongResponseType => "wrong response type",
            AuthError::CounterReplay => "counter replay",
            AuthError::CeremonyExpired => "ceremony expired",
            AuthError::EncodingError => "encoding error",
            AuthError::DecodingError => "decoding error",
            AuthError::Unauthenticated => "not authenticated",
        }
    }
}

/// Rejections of a database connection string.
#[derive(Debug, Clone, Copy, PartialEq, Eq, Structural)]
pub enum ConfigError {
    /// No `Database=` parameter is present in the connection string.
    MissingDatabaseName,
    /// A `Database=` parameter is present but its value is empty.
    EmptyDatabaseName,
}

} // verus!
