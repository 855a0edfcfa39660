//! Client-side application configuration. The values baked in at build
//! time and the address of the running page are resolved by the runtime;
//! the defaults and derived settings are assembled here.

use vstd::prelude::*;
use crate::backend_config::setting_or;

verus! {

#[derive(Debug)]
pub struct AppConfig {
    pub api: ApiConfig,
    pub database: DatabaseConfig,
    pub logging: LoggingConfig,
    pub cors: CorsConfig,
    pub features: FeaturesConfig,
}

#[derive(Debug)]
pub struct ApiConfig {
    pub base_url: String,
    pub version: String,
}

#[derive(Debug)]
pub struct DatabaseConfig {
    pub url: String,
}

#[derive(Debug)]
pub struct LoggingConfig {
    pub level: String,
}

#[derive(Debug)]
pub struct CorsConfig {
    pub origins: Vec<String>,
}

#[derive(Debug)]
pub struct FeaturesConfig {
    pub auth_enabled: bool,
    pub encryption_enabled: bool,
}

impl AppConfig {
    /// The stock configuration around a resolved API base address:
    /// authentication and encryption on, the global database, local
    /// development origins.
    pub fn with_base_url(api_base_url: String) -> (r: AppConfig)
        ensures
            r.api.base_url == api_base_url,
            r.api.version@ == "0.1.0"@,
            r.database.url@ == "http://pb_global:8090"@,
            r.logging.level@ == "info"@,
            r.cors.origins@.len() == 2,
            r.cors.origins@[0]@ == "http://localhost:8080"@,
            r.cors.origins@[1]@ == "http://localhost:3000"@,
            r.features.auth_enabled == true,
            r.features.encryption_enabled == true,
    {
        let mut origins: Vec<String> = Vec::new();
        origins.push("http://localhost:8080".to_owned());
        origins.push("http://localhost:3000".to_owned());
        AppConfig {
            api: ApiConfig { base_url: api_base_url, version: "0.1.0".to_owned() },
            database: DatabaseConfig { url: "http://pb_global:8090".to_owned() },
            logging: LoggingConfig { level: "info".to_owned() },
            cors: CorsConfig { origins },
            features: FeaturesConfig { auth_enabled: true, encryption_enabled: true },
        }
    }
}

/// The values baked in when the client was built.
#[derive(Debug)]
pub struct BuildConfig {
    api_base_url: Option<String>,
    version: String,
    environment: String,
}

impl BuildConfig {
    pub closed spec fn spec_api_base_url(&self) -> Option<String> {
        self.api_base_url
    }

    pub closed spec fn spec_version(&self) -> Seq<char> {
        self.version@
    }

    pub closed spec fn spec_environment(&self) -> Seq<char> {
        self.environment@
    }

    /// Capture the build-time values; an absent environment means
    /// development.
    pub fn new(api_base_url: Option<String>, version: String, environment: Option<String>) -> (r:
        BuildConfig)
        ensures
            r.spec_api_base_url() == api_base_url,
            r.spec_version() == version@,
            r.spec_environment() == setting_or(environment, "development"@),
    {
        let env = match environment {
            Some(e) => e,
            None => "development".to_owned(),
        };
        BuildConfig { api_base_url, version, environment: env }
    }

    pub fn api_base_url(&self) -> (r: Option<&String>)
        ensures
            match r {
                Some(u) => self.spec_api_base_url() == Some(*u),
                None => self.spec_api_base_url() is None,
            },
    {
        self.api_base_url.as_ref()
    }

    pub fn version(&self) -> (r: &String)
        ensures
            r@ == self.spec_version(),
    {
        &self.version
    }

    pub fn environment(&self) -> (r: &String)
        ensures
            r@ == self.spec_environment(),
    {
        &self.environment
    }

    /// Whether this is a development build.
    pub fn is_development(&self) -> (r: bool)
        ensures
            r == (self.spec_environment() == "development"@),
    {
        crate::strutil::str_eq(self.environment.as_str(), "development")
    }

    /// Whether this is a production build.
    pub fn is_production(&self) -> (r: bool)
        ensures
            r == (self.spec_environment() == "production"@),
    {
        crate::strutil::str_eq(self.environment.as_str(), "production")
    }
}

} // verus!
