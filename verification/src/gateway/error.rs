//! Errors of the gateway, as its callers see them.

use vstd::prelude::*;

verus! {

/// Error of the gateway. The messages about authentication are terse; those about
/// validation name the field.
#[derive(Debug)]
pub enum AppError {
    /// The bearer token is missing or wrong.
    Unauthorized,
    /// No such configuration.
    NotFound,
    /// The request is invalid, with the reason.
    BadRequest(String),
    /// The gateway has no token for the dashboard.
    DashboardNotConfigured,
    /// The dashboard gave no answer.
    DashboardUnreachable,
    /// Too many requests.
    RateLimited,
    /// Internal failure.
    Internal,
}

/// The HTTP status of an error.
pub open spec fn status_of(e: AppError) -> u16 {
    match e {
        AppError::Unauthorized => 401,
        AppError::NotFound => 404,
        AppError::BadRequest(_) => 400,
        AppError::DashboardNotConfigured => 503,
        AppError::DashboardUnreachable => 503,
        AppError::RateLimited => 429,
        AppError::Internal => 500,
    }
}

/// The message of an error.
pub open spec fn message_of(e: AppError) -> Seq<char> {
    match e {
        AppError::Unauthorized => "unauthorized"@,
        AppError::NotFound => "not found"@,
        AppError::BadRequest(m) => m@,
        AppError::DashboardNotConfigured => "dashboard non configuré (jeton manquant)"@,
        AppError::DashboardUnreachable => "dashboard control plane injoignable"@,
        AppError::RateLimited => "cadence dépassée"@,
        AppError::Internal => "erreur interne"@,
    }
}

impl AppError {
    /// The HTTP status of the error.
    pub fn status(&self) -> (r: u16)
        ensures
            r == status_of(*self),
    {
        match self {
            AppError::Unauthorized => 401,
            AppError::NotFound => 404,
            AppError::BadRequest(_) => 400,
            AppError::DashboardNotConfigured => 503,
            AppError::DashboardUnreachable => 503,
            AppError::RateLimited => 429,
            AppError::Internal => 500,
        }
    }

    /// The message of the error.
    pub fn message(&self) -> (r: String)
        ensures
            r@ == message_of(*self),
    {
        match self {
            AppError::Unauthorized => "unauthorized".to_owned(),
            AppError::NotFound => "not found".to_owned(),
            AppError::BadRequest(m) => m.clone(),
            AppError::DashboardNotConfigured => "dashboard non configuré (jeton manquant)".to_owned(),
            AppError::DashboardUnreachable => "dashboard control plane injoignable".to_owned(),
            AppError::RateLimited => "cadence dépassée".to_owned(),
            AppError::Internal => "erreur interne".to_owned(),
        }
    }
}

} // verus!
