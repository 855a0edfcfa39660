//! The worker's error taxonomy, queue task records, retry policy and the
//! task-level broadcast events it publishes around each processing step.
//! Claiming work, the processing pipeline and failure email are external
//! collaborators the runtime drives.

use vstd::prelude::*;
use crate::broadcast::QueueUpdate;
use crate::broadcast::QueueUpdateType;
use crate::numparse::parse_u32;
use crate::numparse::parse_u64;
use crate::numparse::uint_str_ok;
use crate::numparse::uint_str_value;
use crate::backend_config::setting_or;
use crate::backend_config::setting_or2;

verus! {

/// Everything that can go wrong in the worker, each carrying its detail.
#[derive(Debug)]
pub enum WorkerError {
    Queue(String),
    Fathom(String),
    Loom(String),
    PocketBase(String),
    Video(String),
    Email(String),
    Network(String),
    Io(String),
    Serde(String),
    Config(String),
    Internal(String),
}

pub type WorkerResult<T> = Result<T, WorkerError>;

impl WorkerError {
    /// Whether the failed step is worth retrying: transient queue, API,
    /// network, storage and email failures are; video processing,
    /// serialization, configuration and internal failures are not.
    pub fn is_retryable(&self) -> (r: bool)
        ensures
            r == match self {
                WorkerError::Network(_) => true,
                WorkerError::Queue(_) => true,
                WorkerError::Fathom(_) => true,
                WorkerError::Loom(_) => true,
                WorkerError::PocketBase(_) => true,
                WorkerError::Video(_) => false,
                WorkerError::Email(_) => true,
                WorkerError::Io(_) => true,
                WorkerError::Serde(_) => false,
                WorkerError::Config(_) => false,
                WorkerError::Internal(_) => false,
            },
    {
        match self {
            WorkerError::Network(_) => true,
            WorkerError::Queue(_) => true,
            WorkerError::Fathom(_) => true,
            WorkerError::Loom(_) => true,
            WorkerError::PocketBase(_) => true,
            WorkerError::Video(_) => false,
            WorkerError::Email(_) => true,
            WorkerError::Io(_) => true,
            WorkerError::Serde(_) => false,
            WorkerError::Config(_) => false,
            WorkerError::Internal(_) => false,
        }
    }
}

/// Processing state of one queued task.
#[derive(Debug, Clone, Copy, PartialEq, Eq, Structural)]
pub enum TaskStatus {
    Pending,
    InProgress,
    Completed,
    Failed,
}

/// One unit of queued work.
#[derive(Debug)]
pub struct QueueTask {
    pub id: u128,
    pub user_id: String,
    pub meeting_id: String,
    pub topic: String,
    pub status: TaskStatus,
    pub created_at: u64,
    pub updated_at: u64,
    pub retry_count: u32,
    pub max_retries: u32,
    pub error_message: Option<String>,
}

impl QueueTask {
    /// A fresh pending task under `id`, created at `now`, with the stock
    /// retry budget of three attempts.
    pub fn fresh(id: u128, now: u64) -> (r: QueueTask)
        ensures
            r.id == id,
            r.user_id@.len() == 0,
            r.meeting_id@.len() == 0,
            r.topic@.len() == 0,
            r.status == TaskStatus::Pending,
            r.created_at == now,
            r.updated_at == now,
            r.retry_count == 0,
            r.max_retries == 3,
            r.error_message is None,
    {
        QueueTask {
            id,
            user_id: String::new(),
            meeting_id: String::new(),
            topic: String::new(),
            status: TaskStatus::Pending,
            created_at: now,
            updated_at: now,
            retry_count: 0,
            max_retries: 3,
            error_message: None,
        }
    }
}

/// The broadcast announcing that `task` was picked up, at `now`.
pub fn task_started_update(task: &QueueTask, now: u64) -> (r: QueueUpdate)
    ensures
        r.update_type == QueueUpdateType::TaskStarted,
        r.affected_user_id matches Some(u) && u@ == task.user_id@,
        r.global_position is None,
        r.task_id == Some(task.id),
        r.timestamp == now,
{
    QueueUpdate {
        update_type: QueueUpdateType::TaskStarted,
        affected_user_id: Some(task.user_id.clone()),
        global_position: None,
        task_id: Some(task.id),
        timestamp: now,
    }
}

/// The broadcast announcing that `task` finished, at `now`.
pub fn task_completed_update(task: &QueueTask, now: u64) -> (r: QueueUpdate)
    ensures
        r.update_type == QueueUpdateType::TaskCompleted,
        r.affected_user_id matches Some(u) && u@ == task.user_id@,
        r.global_position is None,
        r.task_id == Some(task.id),
        r.timestamp == now,
{
    QueueUpdate {
        update_type: QueueUpdateType::TaskCompleted,
        affected_user_id: Some(task.user_id.clone()),
        global_position: None,
        task_id: Some(task.id),
        timestamp: now,
    }
}

/// The broadcast announcing that `task` failed, at `now`.
pub fn task_failed_update(task: &QueueTask, now: u64) -> (r: QueueUpdate)
    ensures
        r.update_type == QueueUpdateType::TaskFailed,
        r.affected_user_id matches Some(u) && u@ == task.user_id@,
        r.global_position is None,
        r.task_id == Some(task.id),
        r.timestamp == now,
{
    QueueUpdate {
        update_type: QueueUpdateType::TaskFailed,
        affected_user_id: Some(task.user_id.clone()),
        global_position: None,
        task_id: Some(task.id),
        timestamp: now,
    }
}

#[derive(Debug)]
pub struct WorkerConfig {
    pub database: DatabaseConfig,
    pub security: SecurityConfig,
    pub logging: LoggingConfig,
    pub worker: WorkerSettings,
}

#[derive(Debug)]
pub struct DatabaseConfig {
    pub url: String,
    pub admin_email: String,
    pub admin_password: String,
    pub user_db_base_path: String,
}

#[derive(Debug)]
pub struct SecurityConfig {
    pub master_key: String,
    pub pb_encryption_key: String,
}

#[derive(Debug)]
pub struct LoggingConfig {
    pub level: String,
}

#[derive(Debug)]
pub struct WorkerSettings {
    pub concurrency: u32,
    pub poll_interval: u64,
    pub queue_concurrency: u32,
}

/// The value a numeric setting takes: its parse when well-formed, else
/// the fallback.
pub open spec fn numeric_or(text: Seq<char>, max: int, fallback: int) -> int {
    if uint_str_ok(text) && uint_str_value(text) <= max {
        uint_str_value(text)
    } else {
        fallback
    }
}

fn pick_u32_or(v: Option<String>, d: &str, fallback: u32) -> (r: u32)
    ensures
        r as int == numeric_or(setting_or(v, d@), u32::MAX as int, fallback as int),
{
    let text = match v {
        Some(x) => x,
        None => d.to_owned(),
    };
    match parse_u32(text.as_str()) {
        Some(x) => x,
        None => fallback,
    }
}

fn pick_u64_or(v: Option<String>, d: &str, fallback: u64) -> (r: u64)
    ensures
        r as int == numeric_or(setting_or(v, d@), u64::MAX as int, fallback as int),
{
    let text = match v {
        Some(x) => x,
        None => d.to_owned(),
    };
    match parse_u64(text.as_str()) {
        Some(x) => x,
        None => fallback,
    }
}

impl WorkerConfig {
    /// Assemble the worker's configuration from environment values,
    /// applying the documented fallbacks; the admin password and master
    /// key are required, and malformed numeric settings fall back to
    /// their defaults rather than failing.
    pub fn from_values(
        database_url: Option<String>,
        global_pb_url: Option<String>,
        pb_admin_email: Option<String>,
        global_pb_admin_email: Option<String>,
        pb_admin_password: Option<String>,
        global_pb_admin_pw: Option<String>,
        user_db_base_path: Option<String>,
        master_key: Option<String>,
        aes_master_key: Option<String>,
        pb_encryption_key: Option<String>,
        rust_log: Option<String>,
        worker_concurrency: Option<String>,
        queue_poll_interval: Option<String>,
        queue_concurrency: Option<String>,
    ) -> (r: WorkerConfig)
        requires
            pb_admin_password is Some || global_pb_admin_pw is Some,
            master_key is Some || aes_master_key is Some,
            pb_encryption_key is Some,
        ensures
            r.database.url@ == setting_or2(database_url, global_pb_url, "http://pb_global:8090"@),
            r.database.admin_email@ == setting_or2(
                pb_admin_email,
                global_pb_admin_email,
                "admin@example.com"@,
            ),
            Some(r.database.admin_password) == (if pb_admin_password is Some {
                pb_admin_password
            } else {
                global_pb_admin_pw
            }),
            r.database.user_db_base_path@ == setting_or(user_db_base_path, "/app/user_dbs"@),
            Some(r.security.master_key) == (if master_key is Some {
                master_key
            } else {
                aes_master_key
            }),
            Some(r.security.pb_encryption_key) == pb_encryption_key,
            r.logging.level@ == setting_or(rust_log, "info"@),
            r.worker.concurrency as int == numeric_or(
                setting_or(worker_concurrency, "1"@),
                u32::MAX as int,
                1,
            ),
            r.worker.poll_interval as int == numeric_or(
                setting_or(queue_poll_interval, "5"@),
                u64::MAX as int,
                5,
            ),
            r.worker.queue_concurrency as int == numeric_or(
                setting_or(queue_concurrency, "1"@),
                u32::MAX as int,
                1,
            ),
    {
        let admin_password = match pb_admin_password {
            Some(p) => p,
            None => match global_pb_admin_pw {
                Some(p) => p,
                None => String::new(),
            },
        };
        let the_master_key = match master_key {
            Some(k) => k,
            None => match aes_master_key {
                Some(k) => k,
                None => String::new(),
            },
        };
        let the_pb_encryption_key = match pb_encryption_key {
            Some(k) => k,
            None => String::new(),
        };
        WorkerConfig {
            database: DatabaseConfig {
                url: crate::backend_config::pick_or2(
                    database_url,
                    global_pb_url,
                    "http://pb_global:8090",
                ),
                admin_email: crate::backend_config::pick_or2(
                    pb_admin_email,
                    global_pb_admin_email,
                    "admin@example.com",
                ),
                admin_password,
                user_db_base_path: crate::backend_config::pick_or(
                    user_db_base_path,
                    "/app/user_dbs",
                ),
            },
            security: SecurityConfig {
                master_key: the_master_key,
                pb_encryption_key: the_pb_encryption_key,
            },
            logging: LoggingConfig {
                level: crate::backend_config::pick_or(rust_log, "info"),
            },
            worker: WorkerSettings {
                concurrency: pick_u32_or(worker_concurrency, "1", 1),
                poll_interval: pick_u64_or(queue_poll_interval, "5", 5),
                queue_concurrency: pick_u32_or(queue_concurrency, "1", 1),
            },
        }
    }
}

/// The worker-facing view of the environment.
#[derive(Debug)]
pub struct EnvConfig {
    pub master_key: String,
    pub global_pb_url: String,
    pub global_pb_admin_email: String,
    pub global_pb_admin_pw: String,
    pub rust_log: String,
    pub queue_concurrency: u32,
}

impl EnvConfig {
    /// Assemble from environment values; the master key and admin
    /// password are required, a malformed concurrency falls back to 1.
    pub fn from_values(
        master_key: Option<String>,
        global_pb_url: Option<String>,
        global_pb_admin_email: Option<String>,
        global_pb_admin_pw: Option<String>,
        rust_log: Option<String>,
        queue_concurrency: Option<String>,
    ) -> (r: EnvConfig)
        requires
            master_key is Some,
            global_pb_admin_pw is Some,
        ensures
            Some(r.master_key) == master_key,
            r.global_pb_url@ == setting_or(global_pb_url, "http://pb_global:8090"@),
            r.global_pb_admin_email@ == setting_or(global_pb_admin_email, "admin@example.com"@),
            Some(r.global_pb_admin_pw) == global_pb_admin_pw,
            r.rust_log@ == setting_or(rust_log, "info"@),
            r.queue_concurrency as int == numeric_or(
                setting_or(queue_concurrency, "1"@),
                u32::MAX as int,
                1,
            ),
    {
        let the_master_key = match master_key {
            Some(k) => k,
            None => String::new(),
        };
        let the_pw = match global_pb_admin_pw {
            Some(k) => k,
            None => String::new(),
        };
        EnvConfig {
            master_key: the_master_key,
            global_pb_url: crate::backend_config::pick_or(global_pb_url, "http://pb_global:8090"),
            global_pb_admin_email: crate::backend_config::pick_or(
                global_pb_admin_email,
                "admin@example.com",
            ),
            global_pb_admin_pw: the_pw,
            rust_log: crate::backend_config::pick_or(rust_log, "info"),
            queue_concurrency: pick_u32_or(queue_concurrency, "1", 1),
        }
    }
}

} // verus!
