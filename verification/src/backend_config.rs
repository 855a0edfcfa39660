//! Backend configuration assembled from environment values. The reads
//! themselves happen in the runtime; the defaulting, fallback and parsing
//! rules live here, pinned down value by value.

use vstd::prelude::*;
use crate::numparse::parse_u16;
use crate::numparse::parse_u32;
use crate::numparse::uint_str_ok;
use crate::numparse::uint_str_value;
use crate::strutil::split_char;
use crate::strutil::split_trim_commas;
use crate::strutil::trim_spec;

verus! {

#[derive(Debug)]
pub struct Config {
    pub server: ServerConfig,
    pub database: DatabaseConfig,
    pub security: SecurityConfig,
    pub logging: LoggingConfig,
    pub cors: CorsConfig,
    pub pocketbase: PocketBaseConfig,
}

#[derive(Debug)]
pub struct ServerConfig {
    pub port: u16,
    pub host: String,
}

#[derive(Debug)]
pub struct DatabaseConfig {
    pub url: String,
    pub admin_email: String,
    pub admin_password: String,
    pub user_db_base_path: String,
}

#[derive(Debug)]
pub struct SecurityConfig {
    pub master_key: String,
    pub jwt_secret: String,
    pub pb_encryption_key: String,
}

#[derive(Debug)]
pub struct LoggingConfig {
    pub level: String,
}

#[derive(Debug)]
pub struct CorsConfig {
    pub origins: Vec<String>,
}

#[derive(Debug)]
pub struct PocketBaseConfig {
    pub base_port: u16,
    pub binary_path: String,
    pub user_dbs_path: String,
}

/// The value an optional setting takes under a default.
pub open spec fn setting_or(v: Option<String>, d: Seq<char>) -> Seq<char> {
    match v {
        Some(x) => x@,
        None => d,
    }
}

/// The value of a setting with a fallback setting and a default.
pub open spec fn setting_or2(a: Option<String>, b: Option<String>, d: Seq<char>) -> Seq<char> {
    match a {
        Some(x) => x@,
        None => setting_or(b, d),
    }
}

pub(crate) fn pick_or(v: Option<String>, d: &str) -> (r: String)
    ensures
        r@ == setting_or(v, d@),
{
    match v {
        Some(x) => x,
        None => d.to_owned(),
    }
}

pub(crate) fn pick_or2(a: Option<String>, b: Option<String>, d: &str) -> (r: String)
    ensures
        r@ == setting_or2(a, b, d@),
{
    match a {
        Some(x) => x,
        None => pick_or(b, d),
    }
}

impl Config {
    /// Assemble the configuration from the environment's values, applying
    /// the documented fallbacks and defaults and parsing the two ports.
    /// The required secrets must be present; a malformed or out-of-range
    /// port is rejected, and nothing else ever is.
    pub fn from_values(
        backend_port: Option<String>,
        host: Option<String>,
        database_url: Option<String>,
        global_pb_url: Option<String>,
        pb_admin_email: Option<String>,
        global_pb_admin_email: Option<String>,
        pb_admin_password: Option<String>,
        global_pb_admin_pw: Option<String>,
        user_db_base_path: Option<String>,
        master_key: Option<String>,
        aes_master_key: Option<String>,
        jwt_secret: Option<String>,
        pb_encryption_key: Option<String>,
        rust_log: Option<String>,
        cors_origins: Option<String>,
        pb_base_port: Option<String>,
        pb_binary_path: Option<String>,
        pb_user_dbs_path: Option<String>,
    ) -> (r: Result<Config, String>)
        requires
            pb_admin_password is Some || global_pb_admin_pw is Some,
            master_key is Some || aes_master_key is Some,
            jwt_secret is Some,
            pb_encryption_key is Some,
        ensures
            ({
                let port_text = setting_or(backend_port, "3000"@);
                let base_text = setting_or(pb_base_port, "9000"@);
                let origins_text = setting_or(
                    cors_origins,
                    "http://localhost:8080,http://localhost:3000"@,
                );
                match r {
                    Ok(c) => {
                        &&& uint_str_ok(port_text) && c.server.port as int == uint_str_value(
                            port_text,
                        )
                        &&& c.server.host@ == setting_or(host, "0.0.0.0"@)
                        &&& c.database.url@ == setting_or2(
                            database_url,
                            global_pb_url,
                            "http://pb_global:8090"@,
                        )
                        &&& c.database.admin_email@ == setting_or2(
                            pb_admin_email,
                            global_pb_admin_email,
                            "admin@example.com"@,
                        )
                        &&& Some(c.database.admin_password) == (if pb_admin_password is Some {
                            pb_admin_password
                        } else {
                            global_pb_admin_pw
                        })
                        &&& c.database.user_db_base_path@ == setting_or(
                            user_db_base_path,
                            "/app/user_dbs"@,
                        )
                        &&& Some(c.security.master_key) == (if master_key is Some {
                            master_key
                        } else {
                            aes_master_key
                        })
                        &&& Some(c.security.jwt_secret) == jwt_secret
                        &&& Some(c.security.pb_encryption_key) == pb_encryption_key
                        &&& c.logging.level@ == setting_or(rust_log, "info"@)
                        &&& c.cors.origins@.len() == split_char(origins_text, ',').len()
                        &&& forall|i: int|
                            0 <= i < c.cors.origins@.len() ==> (#[trigger] c.cors.origins@[i])@
                                == trim_spec(split_char(origins_text, ',')[i])
                        &&& uint_str_ok(base_text) && c.pocketbase.base_port as int
                            == uint_str_value(base_text)
                        &&& c.pocketbase.binary_path@ == setting_or(pb_binary_path, "pocketbase"@)
                        &&& c.pocketbase.user_dbs_path@ == setting_or(
                            pb_user_dbs_path,
                            "./user_dbs"@,
                        )
                    },
                    Err(_) => !(uint_str_ok(port_text) && uint_str_value(port_text) <= u16::MAX)
                        || !(uint_str_ok(base_text) && uint_str_value(base_text) <= u16::MAX),
                }
            }),
    {
        let port_text = pick_or(backend_port, "3000");
        let port = match parse_u16(port_text.as_str()) {
            Some(p) => p,
            None => {
                return Err("invalid BACKEND_PORT value".to_owned());
            },
        };
        let base_text = pick_or(pb_base_port, "9000");
        let base_port = match parse_u16(base_text.as_str()) {
            Some(p) => p,
            None => {
                return Err("invalid PB_BASE_PORT value".to_owned());
            },
        };
        let admin_password = match pb_admin_password {
            Some(p) => p,
            None => match global_pb_admin_pw {
                Some(p) => p,
                None => {
                    return Err("missing admin password".to_owned());
                },
            },
        };
        let the_master_key = match master_key {
            Some(k) => k,
            None => match aes_master_key {
                Some(k) => k,
                None => {
                    return Err("missing master key".to_owned());
                },
            },
        };
        let the_jwt_secret = match jwt_secret {
            Some(k) => k,
            None => {
                return Err("missing JWT secret".to_owned());
            },
        };
        let the_pb_encryption_key = match pb_encryption_key {
            Some(k) => k,
            None => {
                return Err("missing encryption key".to_owned());
            },
        };
        let origins_text = pick_or(cors_origins, "http://localhost:8080,http://localhost:3000");
        let origins = split_trim_commas(origins_text.as_str());
        Ok(
            Config {
                server: ServerConfig { port, host: pick_or(host, "0.0.0.0") },
                database: DatabaseConfig {
                    url: pick_or2(database_url, global_pb_url, "http://pb_global:8090"),
                    admin_email: pick_or2(
                        pb_admin_email,
                        global_pb_admin_email,
                        "admin@example.com",
                    ),
                    admin_password,
                    user_db_base_path: pick_or(user_db_base_path, "/app/user_dbs"),
                },
                security: SecurityConfig {
                    master_key: the_master_key,
                    jwt_secret: the_jwt_secret,
                    pb_encryption_key: the_pb_encryption_key,
                },
                logging: LoggingConfig { level: pick_or(rust_log, "info") },
                cors: CorsConfig { origins },
                pocketbase: PocketBaseConfig {
                    base_port,
                    binary_path: pick_or(pb_binary_path, "pocketbase"),
                    user_dbs_path: pick_or(pb_user_dbs_path, "./user_dbs"),
                },
            },
        )
    }
}

/// The worker- and queue-facing view of the backend environment.
#[derive(Debug)]
pub struct EnvConfig {
    pub master_key: String,
    pub global_pb_url: String,
    pub global_pb_admin_email: String,
    pub global_pb_admin_pw: String,
    pub rust_log: String,
    pub queue_concurrency: u32,
}

impl EnvConfig {
    /// Assemble from environment values; the master key and admin
    /// password are required, a malformed concurrency falls back to 1.
    pub fn from_values(
        master_key: Option<String>,
        global_pb_url: Option<String>,
        global_pb_admin_email: Option<String>,
        global_pb_admin_pw: Option<String>,
        rust_log: Option<String>,
        queue_concurrency: Option<String>,
    ) -> (r: EnvConfig)
        requires
            master_key is Some,
            global_pb_admin_pw is Some,
        ensures
            Some(r.master_key) == master_key,
            r.global_pb_url@ == setting_or(global_pb_url, "http://pb_global:8090"@),
            r.global_pb_admin_email@ == setting_or(global_pb_admin_email, "admin@example.com"@),
            Some(r.global_pb_admin_pw) == global_pb_admin_pw,
            r.rust_log@ == setting_or(rust_log, "info"@),
            ({
                let text = setting_or(queue_concurrency, "1"@);
                if uint_str_ok(text) && uint_str_value(text) <= u32::MAX {
                    r.queue_concurrency as int == uint_str_value(text)
                } else {
                    r.queue_concurrency == 1
                }
            }),
    {
        let the_master_key = match master_key {
            Some(k) => k,
            None => String::new(),
        };
        let the_pw = match global_pb_admin_pw {
            Some(k) => k,
            None => String::new(),
        };
        let conc_text = pick_or(queue_concurrency, "1");
        let queue_concurrency_v = match parse_u32(conc_text.as_str()) {
            Some(v) => v,
            None => 1,
        };
        EnvConfig {
            master_key: the_master_key,
            global_pb_url: pick_or(global_pb_url, "http://pb_global:8090"),
            global_pb_admin_email: pick_or(global_pb_admin_email, "admin@example.com"),
            global_pb_admin_pw: the_pw,
            rust_log: pick_or(rust_log, "info"),
            queue_concurrency: queue_concurrency_v,
        }
    }
}

} // verus!
