//! A passwordless (WebAuthn-style) authentication core for a URL-shortening
//! service: challenge generation and encoding, per-session ceremony state,
//! credential validation, and the registration/login state machine, together
//! with the service's input-validation rules.

use vstd::prelude::*;

pub mod auth;
pub mod codec;
pub mod config;
pub mod errors;
pub mod models;
pub mod repo;
pub mod shortener;
pub mod store;
pub mod util;
pub mod validator;

verus! {

/// Byte length of a freshly generated challenge.
pub open spec fn challenge_len() -> nat {
    32
}

} // verus!
