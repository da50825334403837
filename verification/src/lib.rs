//! Credential and session persistence rules, and the coordination of the
//! two-step registration and authentication ceremonies, for a passkey
//! relying party.

pub mod app;
pub mod ceremony;
pub mod error;
pub mod handlers;
pub mod identity;
pub mod redirect;
pub mod relying_party;
pub mod session;
pub mod storage;
pub mod webauthn;

pub use error::AppError;
