//! Per-user backing-service orchestration and real-time fan-out.
//!
//! The crate supervises one isolated backing-service process per end user
//! (port allocation, lifecycle state machine, health monitoring) and fans
//! state changes out to many concurrently connected clients (a bounded
//! multi-subscriber broadcast hub plus per-connection recipient filtering).
//! All decision logic lives here and is verified; process spawning, network
//! probes and socket I/O are performed by the surrounding runtime, which
//! feeds their results back in as plain values.

use vstd::prelude::*;

pub mod api;
pub mod backend_config;
pub mod broadcast;
pub mod chars;
pub(crate) mod clock;
pub mod connection;
pub mod crypto;
pub mod datefmt;
pub mod events;
pub mod frontend_api;
pub mod frontend_auth;
pub mod frontend_config;
pub mod hub;
pub mod instance;
pub mod manager;
pub mod numparse;
pub mod ports;
pub mod queue_state;
pub mod registry;
pub mod strutil;
pub mod validation;
pub mod worker;

verus! {

/// Application-wide error type shared by the services built on this crate.
#[derive(Debug)]
pub enum AppError {
    Database(String),
    Auth(String),
    Validation(String),
    ExternalApi(String),
    Internal(String),
}

impl AppError {
    /// A human-readable description of the error.
    pub fn message(&self) -> (r: String)
        ensures
            match self {
                AppError::Database(d) => r@ == "Database error: "@ + d@,
                AppError::Auth(d) => r@ == "Authentication error: "@ + d@,
                AppError::Validation(d) => r@ == "Validation error: "@ + d@,
                AppError::ExternalApi(d) => r@ == "External API error: "@ + d@,
                AppError::Internal(d) => r@ == "Internal error: "@ + d@,
            },
    {
        let (prefix, detail) = match self {
            AppError::Database(d) => ("Database error: ", d),
            AppError::Auth(d) => ("Authentication error: ", d),
            AppError::Validation(d) => ("Validation error: ", d),
            AppError::ExternalApi(d) => ("External API error: ", d),
            AppError::Internal(d) => ("Internal error: ", d),
        };
        let mut r = prefix.to_owned();
        r.append(detail.as_str());
        r
    }
}

/// Common API response wrapper.
#[derive(Debug)]
pub struct ApiResponse<T> {
    pub success: bool,
    pub data: Option<T>,
    pub error: Option<String>,
    pub timestamp: u64,
}

impl<T> ApiResponse<T> {
    /// A successful response carrying `data` and no error.
    pub fn success(data: T) -> (r: Self)
        ensures
            r.success == true,
            r.data == Some(data),
            r.error is None,
    {
        ApiResponse {
            success: true,
            data: Some(data),
            error: None,
            timestamp: clock::now_millis(),
        }
    }

    /// A failed response carrying `message` and no data.
    pub fn error(message: String) -> (r: Self)
        ensures
            r.success == false,
            r.data is None,
            r.error == Some(message),
    {
        ApiResponse {
            success: false,
            data: None,
            error: Some(message),
            timestamp: clock::now_millis(),
        }
    }
}

/// Job status enumeration for background work.
#[derive(Debug, Clone, Copy, PartialEq, Eq, Structural)]
pub enum JobStatus {
    Pending,
    Processing,
    Completed,
    Failed,
}

} // verus!
