//! Per-user backing-service instance records: status, network identity and
//! storage location, together with the error taxonomy of the manager.

use vstd::prelude::*;
use vstd::string::StringExecFns;
use crate::strutil::dec_str;
use crate::strutil::u16_to_dec;

verus! {

/// Lifecycle state of one instance; see the manager for the transitions.
#[derive(Debug, Clone, Copy, PartialEq, Eq, Structural)]
pub enum InstanceStatus {
    Starting,
    Running,
    Failed,
    Stopped,
}

/// The local address an instance serves on, as characters.
pub open spec fn url_spec(port: u16) -> Seq<char> {
    "http://localhost:"@ + dec_str(port as int)
}

/// The database file path of a user's instance under `base`.
pub open spec fn db_path_spec(base: Seq<char>, user_id: Seq<char>) -> Seq<char> {
    base + "/pb_user_"@ + user_id + ".db"@
}

/// Information about one backing-service instance.
#[derive(Debug)]
pub struct PocketBaseInstance {
    pub user_id: String,
    pub port: u16,
    pub db_path: String,
    pub url: String,
    pub status: InstanceStatus,
    pub created_at: u64,
    pub last_health_check: Option<u64>,
}

impl PocketBaseInstance {
    /// A record in `Starting` state for `user_id` on `port`, with its
    /// storage path and address derived from the arguments.
    pub fn starting(user_id: &String, port: u16, base_path: &String, now: u64) -> (r: Self)
        ensures
            r.user_id == user_id,
            r.port == port,
            r.db_path@ == db_path_spec(base_path@, user_id@),
            r.url@ == url_spec(port),
            r.status == InstanceStatus::Starting,
            r.created_at == now,
            r.last_health_check is None,
    {
        let mut db_path = base_path.clone();
        db_path.append("/pb_user_");
        db_path.append(user_id.as_str());
        db_path.append(".db");
        let mut url = "http://localhost:".to_owned();
        let port_digits = u16_to_dec(port);
        url.append(port_digits.as_str());
        PocketBaseInstance {
            user_id: user_id.clone(),
            port,
            db_path,
            url,
            status: InstanceStatus::Starting,
            created_at: now,
            last_health_check: None,
        }
    }

    /// A field-for-field copy of the record.
    pub fn duplicate(&self) -> (r: Self)
        ensures
            r == *self,
    {
        PocketBaseInstance {
            user_id: self.user_id.clone(),
            port: self.port,
            db_path: self.db_path.clone(),
            url: self.url.clone(),
            status: self.status,
            created_at: self.created_at,
            last_health_check: self.last_health_check,
        }
    }
}

/// Errors surfaced by instance management.
#[derive(Debug)]
pub enum PocketBaseError {
    IoError(String),
    ProcessError(String),
    NoPortsAvailable,
    InstanceNotFound(String),
    HealthCheckFailed,
}

impl PocketBaseError {
    /// A human-readable description of the error.
    pub fn message(&self) -> (r: String)
        ensures
            match self {
                PocketBaseError::IoError(d) => r@ == "IO error: "@ + d@,
                PocketBaseError::ProcessError(d) => r@ == "Process error: "@ + d@,
                PocketBaseError::NoPortsAvailable => r@
                    == "No ports available in the allocated range"@,
                PocketBaseError::InstanceNotFound(u) => r@ == "Instance not found for user: "@
                    + u@,
                PocketBaseError::HealthCheckFailed => r@ == "Health check failed"@,
            },
    {
        match self {
            PocketBaseError::IoError(d) => {
                let mut r = "IO error: ".to_owned();
                r.append(d.as_str());
                r
            },
            PocketBaseError::ProcessError(d) => {
                let mut r = "Process error: ".to_owned();
                r.append(d.as_str());
                r
            },
            PocketBaseError::NoPortsAvailable => "No ports available in the allocated range".to_owned(),
            PocketBaseError::InstanceNotFound(u) => {
                let mut r = "Instance not found for user: ".to_owned();
                r.append(u.as_str());
                r
            },
            PocketBaseError::HealthCheckFailed => "Health check failed".to_owned(),
        }
    }
}

} // verus!
