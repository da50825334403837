//! The error kinds that every operation of the service reports.

use vstd::prelude::*;
use vstd::std_specs::convert::FromSpecImpl;

verus! {

/// What went wrong in a store operation or a ceremony step.
///
/// Each failure is reported under exactly one kind, so that a caller at the
/// HTTP boundary can choose a status without looking at the cause again.
#[derive(Debug, Copy, Clone, PartialEq, Eq, Structural)]
pub enum AppError {
    MissingUserInfo,
    UserNotFound,
    CredentialNotFound,
    BadUrl,
    OriginNotAllowed,
    MismatchingCredential,
    DuplicateCredential,
    BadInput,
    EntityNotFound,
    BadSession,
    WebauthnFailed,
    UnknownError,
    NoUserCredentials,
    /// The database failed underneath an operation.
    StorageError,
    /// A stored value could not be read back.
    SerializationError,
}

impl AppError {
    /// The text shown to a client for this kind. Kinds that would reveal
    /// something of the inside of the service share one text.
    pub open spec fn message(self) -> Seq<char> {
        match self {
            AppError::MissingUserInfo => "user info is missing"@,
            AppError::BadInput => "bad input"@,
            AppError::EntityNotFound => "could not find data"@,
            AppError::BadSession => "session is invalid"@,
            AppError::DuplicateCredential => "credential already exists"@,
            AppError::MismatchingCredential => "incorrect credential used"@,
            AppError::CredentialNotFound => "credential not found"@,
            AppError::WebauthnFailed => "webauthn process failed"@,
            AppError::UserNotFound => "user not found"@,
            _ => "unknown error"@,
        }
    }

    /// The HTTP status that answers a request which failed with this kind.
    pub open spec fn status(self) -> int {
        match self {
            AppError::BadInput => 400,
            AppError::UserNotFound => 404,
            AppError::CredentialNotFound => 404,
            AppError::NoUserCredentials => 204,
            _ => 500,
        }
    }

    /// The client-facing text of this kind.
    pub fn to_string(&self) -> (text: String)
        ensures
            text@ == self.message(),
    {
        let msg = match self {
            AppError::MissingUserInfo => "user info is missing",
            AppError::BadInput => "bad input",
            AppError::EntityNotFound => "could not find data",
            AppError::BadSession => "session is invalid",
            AppError::DuplicateCredential => "credential already exists",
            AppError::MismatchingCredential => "incorrect credential used",
            AppError::CredentialNotFound => "credential not found",
            AppError::WebauthnFailed => "webauthn process failed",
            AppError::UserNotFound => "user not found",
            _ => "unknown error",
        };
        msg.to_owned()
    }

    /// The HTTP status code for this kind.
    pub fn status_code(self) -> (code: u16)
        ensures
            code == self.status(),
    {
        match self {
            AppError::BadInput => 400,
            AppError::UserNotFound => 404,
            AppError::CredentialNotFound => 404,
            AppError::NoUserCredentials => 204,
            _ => 500,
        }
    }
}

impl Default for AppError {
    fn default() -> (kind: Self)
        ensures
            kind == AppError::UnknownError,
    {
        AppError::UnknownError
    }
}

/// How a statement failed in the database, as far as the service tells
/// failures apart.
#[derive(Debug, Copy, Clone, PartialEq, Eq, Structural)]
pub enum StorageFailure {
    /// The statement would have broken a constraint of the schema.
    ConstraintViolation,
    /// A query that must return a row returned none.
    NoRows,
    /// Anything else.
    Other,
}

impl From<StorageFailure> for AppError {
    /// The kind under which a database failure is reported where the
    /// operation has no better name for it.
    fn from(failure: StorageFailure) -> (kind: AppError) {
        match failure {
            StorageFailure::ConstraintViolation => AppError::BadInput,
            StorageFailure::NoRows => AppError::EntityNotFound,
            StorageFailure::Other => AppError::StorageError,
        }
    }
}

impl FromSpecImpl<StorageFailure> for AppError {
    open spec fn obeys_from_spec() -> bool {
        true
    }

    open spec fn from_spec(failure: StorageFailure) -> AppError {
        match failure {
            StorageFailure::ConstraintViolation => AppError::BadInput,
            StorageFailure::NoRows => AppError::EntityNotFound,
            StorageFailure::Other => AppError::StorageError,
        }
    }
}

/// The error of `serde_json`. Opaque here.
#[verifier::external_type_specification]
#[verifier::external_body]
pub struct ExJsonError(serde_json::Error);

/// The error of `uuid`. Opaque here.
#[verifier::external_type_specification]
#[verifier::external_body]
pub struct ExUuidError(uuid::Error);

impl From<serde_json::Error> for AppError {
    /// Input that is not the JSON it should be is bad input.
    fn from(_error: serde_json::Error) -> (kind: AppError) {
        AppError::BadInput
    }
}

impl FromSpecImpl<serde_json::Error> for AppError {
    open spec fn obeys_from_spec() -> bool {
        true
    }

    open spec fn from_spec(_error: serde_json::Error) -> AppError {
        AppError::BadInput
    }
}

impl From<uuid::Error> for AppError {
    /// Input that is not the identifier it should be is bad input.
    fn from(_error: uuid::Error) -> (kind: AppError) {
        AppError::BadInput
    }
}

impl FromSpecImpl<uuid::Error> for AppError {
    open spec fn obeys_from_spec() -> bool {
        true
    }

    open spec fn from_spec(_error: uuid::Error) -> AppError {
        AppError::BadInput
    }
}

} // verus!
