//! Error kinds of the translation pipeline and the retry policy over them.

use vstd::prelude::*;

verus! {

/// Tagged failure value of a translation attempt. Callers always receive one
/// of these; no partial result is ever returned.
#[derive(Debug, PartialEq, Eq)]
pub enum TranslationError {
    /// The upstream answered with a non-success status outside the cases below.
    ApiError {
        /// HTTP status code of the answer.
        status: u16,
        /// Body of the answer.
        message: String,
    },
    /// The upstream answered with status 429.
    RateLimitError {
        /// Seconds to wait before retrying, when the upstream said so.
        retry_after: Option<u64>,
    },
    /// The daily token budget does not cover the request.
    QuotaExceededError,
    /// The request never reached the upstream.
    NetworkError {
        /// Transport-level failure description.
        message: String,
    },
    /// The upstream payload was malformed or missing the translation.
    InvalidResponseError {
        /// What was wrong with the payload.
        message: String,
    },
    /// The wire call exceeded its per-request deadline.
    TimeoutError,
    /// A file could not be read or written.
    FileError {
        /// Path of the file.
        path: String,
        /// Failure description.
        message: String,
    },
    /// The configuration refuses the operation.
    ConfigError {
        /// Which configuration rule was violated.
        message: String,
    },
    /// A document had an unreadable format.
    InvalidFormat {
        /// Format description of the offending document.
        format: String,
    },
    /// A required field was absent.
    MissingField {
        /// Name of the absent field.
        field: String,
    },
    /// Any other internal failure.
    InternalError(String),
}

impl Clone for TranslationError {
    fn clone(&self) -> (r: Self)
        ensures
            r == *self,
    {
        match self {
            TranslationError::ApiError { status, message } => TranslationError::ApiError {
                status: *status,
                message: message.clone(),
            },
            TranslationError::RateLimitError { retry_after } => TranslationError::RateLimitError {
                retry_after: *retry_after,
            },
            TranslationError::QuotaExceededError => TranslationError::QuotaExceededError,
            TranslationError::NetworkError { message } => TranslationError::NetworkError {
                message: message.clone(),
            },
            TranslationError::InvalidResponseError { message } => {
                TranslationError::InvalidResponseError { message: message.clone() }
            },
            TranslationError::TimeoutError => TranslationError::TimeoutError,
            TranslationError::FileError { path, message } => TranslationError::FileError {
                path: path.clone(),
                message: message.clone(),
            },
            TranslationError::ConfigError { message } => TranslationError::ConfigError {
                message: message.clone(),
            },
            TranslationError::InvalidFormat { format } => TranslationError::InvalidFormat {
                format: format.clone(),
            },
            TranslationError::MissingField { field } => TranslationError::MissingField {
                field: field.clone(),
            },
            TranslationError::InternalError(m) => TranslationError::InternalError(m.clone()),
        }
    }
}

/// Retry policy by error class: a quota failure can never be repaired by
/// retrying, every other failure is treated as transient.
pub open spec fn spec_should_retry(e: TranslationError) -> bool {
    !(e is QuotaExceededError)
}

/// Whether the retry loop may attempt again after failing with `e`.
pub fn should_retry(e: &TranslationError) -> (r: bool)
    ensures
        r == spec_should_retry(*e),
{
    !matches!(e, TranslationError::QuotaExceededError)
}

} // verus!
