//! The library's error type and conversions from the storage layer's errors.

use vstd::prelude::*;

verus! {

/// An error surfaced by one of the library's operations.
#[derive(Debug)]
pub enum AppError {
    /// Invalid parameter or input; rejected before any mutation.
    InvalidParameter(String),
    /// A referenced record does not exist.
    NotFound(String),
    /// A database failure.
    Database(String),
    /// An internal or unexpected failure.
    Internal(String),
}

impl AppError {
    /// The message the error carries.
    pub open spec fn spec_message(&self) -> Seq<char> {
        match self {
            AppError::InvalidParameter(m) => m@,
            AppError::NotFound(m) => m@,
            AppError::Database(m) => m@,
            AppError::Internal(m) => m@,
        }
    }

    /// The message the error carries.
    pub fn message(&self) -> (m: String)
        ensures
            m@ == self.spec_message(),
    {
        match self {
            AppError::InvalidParameter(m) => m.clone(),
            AppError::NotFound(m) => m.clone(),
            AppError::Database(m) => m.clone(),
            AppError::Internal(m) => m.clone(),
        }
    }
}

#[verifier::external_type_specification]
#[verifier::external_body]
pub struct ExRusqliteError(rusqlite::Error);

#[verifier::external_type_specification]
#[verifier::external_body]
pub struct ExSerdeJsonError(serde_json::Error);

#[verifier::external_type_specification]
#[verifier::external_body]
pub struct ExAnyhowError(anyhow::Error);

impl From<rusqlite::Error> for AppError {
    /// Relies on `rusqlite::Error`'s `Display` for the message text.
    #[verifier::external_body]
    fn from(err: rusqlite::Error) -> (r: AppError) {
        AppError::Database(err.to_string())
    }
}

impl From<serde_json::Error> for AppError {
    /// Relies on `serde_json::Error`'s `Display` for the message text.
    #[verifier::external_body]
    fn from(err: serde_json::Error) -> (r: AppError) {
        AppError::InvalidParameter(format!("Invalid JSON: {err}"))
    }
}

impl From<anyhow::Error> for AppError {
    /// Relies on `anyhow::Error::downcast_ref` and jankensqlhub's error
    /// accessors to surface query-engine metadata, and on `Display` for the
    /// message text otherwise.
    #[verifier::external_body]
    fn from(err: anyhow::Error) -> (r: AppError) {
        if let Some(janken_err) = err.downcast_ref::<jankensqlhub::JankenError>() {
            let data = jankensqlhub::get_error_data(janken_err);
            let param =
                jankensqlhub::error_meta(data, jankensqlhub::M_PARAM_NAME).unwrap_or_default();
            let got = jankensqlhub::error_meta(data, jankensqlhub::M_GOT).unwrap_or_default();
            let info_name = jankensqlhub::get_error_info(data.code)
                .map(|i| i.name.to_string())
                .unwrap_or_else(|| err.to_string());
            return AppError::Internal(format!("{info_name}: param={param}, got={got}"));
        }
        AppError::Internal(err.to_string())
    }
}

} // verus!
