use pbhub::ApiResponse;
use pbhub::AppError;
use pbhub::api::InitPbRequest;
use pbhub::api::InitPbResponse;
use pbhub::api::LoginRequest;
use pbhub::api::RegisterRequest;
use pbhub::api::default_name_from_email;
use pbhub::api::init_user_id_valid;
use pbhub::api::login_request_valid;
use pbhub::api::parse_bearer_header;
use pbhub::api::passwords_match;
use pbhub::backend_config::Config;
use pbhub::backend_config::EnvConfig;
use pbhub::datefmt::format_duration_seconds;
use pbhub::frontend_api::build_meetings_endpoint;
use pbhub::frontend_api::derive_ws_url;
use pbhub::frontend_api::next_backoff_delay;
use pbhub::frontend_api::ApiService;
use pbhub::frontend_auth::AuthService;
use pbhub::frontend_auth::UserInfo;
use pbhub::frontend_config::AppConfig;
use pbhub::frontend_config::BuildConfig;
use pbhub::instance::PocketBaseError;
use pbhub::validation::is_strong_password;
use pbhub::validation::is_valid_email;
use pbhub::validation::validate_api_key;
use pbhub::worker::WorkerConfig;

#[test]
fn test_api_response_success() {
    let response = ApiResponse::success("test data");
    assert!(response.success);
    assert_eq!(response.data, Some("test data"));
    assert!(response.error.is_none());
}

#[test]
fn app_error_messages() {
    assert_eq!(AppError::Database("lost".to_string()).message(), "Database error: lost");
    assert_eq!(AppError::Auth("denied".to_string()).message(), "Authentication error: denied");
    assert_eq!(AppError::Validation("bad".to_string()).message(), "Validation error: bad");
    assert_eq!(AppError::ExternalApi("down".to_string()).message(), "External API error: down");
    assert_eq!(AppError::Internal("bug".to_string()).message(), "Internal error: bug");
}

#[test]
fn test_api_response_error() {
    let response: ApiResponse<()> = ApiResponse::error("test error".to_string());
    assert!(!response.success);
    assert!(response.data.is_none());
    assert_eq!(response.error, Some("test error".to_string()));
}

#[test]
fn email_validation_accepts_and_rejects() {
    assert!(is_valid_email("alice@example.com"));
    assert!(is_valid_email("a.b+c_d%e-f@sub.domain-x.org"));
    assert!(!is_valid_email(""));
    assert!(!is_valid_email("alice"));
    assert!(!is_valid_email("alice@"));
    assert!(!is_valid_email("@example.com"));
    assert!(!is_valid_email("alice@example"));
    assert!(!is_valid_email("alice@example.c"));
    assert!(!is_valid_email("alice@example.c0m"));
    assert!(!is_valid_email("alice@@example.com"));
    assert!(!is_valid_email("al ice@example.com"));
}

#[test]
fn password_strength_needs_all_classes() {
    assert!(is_strong_password("Abcdef12"));
    assert!(!is_strong_password("abcdef12"));
    assert!(!is_strong_password("ABCDEF12"));
    assert!(!is_strong_password("Abcdefgh"));
    assert!(!is_strong_password("Ab1"));
}

#[test]
fn api_key_shape() {
    assert!(validate_api_key("sk-12345678"));
    assert!(!validate_api_key("short"));
    assert!(!validate_api_key("          "));
    assert!(!validate_api_key(""));
}

#[test]
fn duration_formatting() {
    assert_eq!(format_duration_seconds(0), "0s");
    assert_eq!(format_duration_seconds(59), "59s");
    assert_eq!(format_duration_seconds(60), "1m 0s");
    assert_eq!(format_duration_seconds(125), "2m 5s");
    assert_eq!(format_duration_seconds(3600), "1h 0m 0s");
    assert_eq!(format_duration_seconds(3725), "1h 2m 5s");
    assert_eq!(format_duration_seconds(86400), "24h 0m 0s");
}

#[test]
fn backend_config_defaults_and_fallbacks() {
    let config = Config::from_values(
        None,
        None,
        None,
        Some("http://fallback:8090".to_string()),
        None,
        None,
        Some("pw".to_string()),
        None,
        None,
        None,
        Some("aes-key".to_string()),
        Some("jwt".to_string()),
        Some("enc".to_string()),
        None,
        Some("http://a.example , http://b.example".to_string()),
        Some("9100".to_string()),
        None,
        None,
    )
    .unwrap();
    assert_eq!(config.server.port, 3000);
    assert_eq!(config.server.host, "0.0.0.0");
    assert_eq!(config.database.url, "http://fallback:8090");
    assert_eq!(config.database.admin_email, "admin@example.com");
    assert_eq!(config.database.admin_password, "pw");
    assert_eq!(config.database.user_db_base_path, "/app/user_dbs");
    assert_eq!(config.security.master_key, "aes-key");
    assert_eq!(config.logging.level, "info");
    assert_eq!(
        config.cors.origins,
        vec!["http://a.example".to_string(), "http://b.example".to_string()]
    );
    assert_eq!(config.pocketbase.base_port, 9100);
    assert_eq!(config.pocketbase.binary_path, "pocketbase");
    assert_eq!(config.pocketbase.user_dbs_path, "./user_dbs");
}

#[test]
fn backend_config_rejects_bad_port() {
    let result = Config::from_values(
        Some("not-a-port".to_string()),
        None,
        None,
        None,
        None,
        None,
        Some("pw".to_string()),
        None,
        None,
        Some("mk".to_string()),
        None,
        Some("jwt".to_string()),
        Some("enc".to_string()),
        None,
        None,
        None,
        None,
        None,
    );
    assert!(result.is_err());

    let too_large = Config::from_values(
        Some("70000".to_string()),
        None,
        None,
        None,
        None,
        None,
        Some("pw".to_string()),
        None,
        None,
        Some("mk".to_string()),
        None,
        Some("jwt".to_string()),
        Some("enc".to_string()),
        None,
        None,
        None,
        None,
        None,
    );
    assert!(too_large.is_err());
}

#[test]
fn env_config_concurrency_falls_back() {
    let env = EnvConfig::from_values(
        Some("mk".to_string()),
        None,
        None,
        Some("pw".to_string()),
        None,
        Some("not-a-number".to_string()),
    );
    assert_eq!(env.queue_concurrency, 1);
    assert_eq!(env.global_pb_url, "http://pb_global:8090");

    let env2 = EnvConfig::from_values(
        Some("mk".to_string()),
        None,
        None,
        Some("pw".to_string()),
        Some("debug".to_string()),
        Some("4".to_string()),
    );
    assert_eq!(env2.queue_concurrency, 4);
    assert_eq!(env2.rust_log, "debug");
}

#[test]
fn worker_config_defaults() {
    let config = WorkerConfig::from_values(
        None,
        None,
        None,
        None,
        Some("pw".to_string()),
        None,
        None,
        Some("mk".to_string()),
        None,
        Some("enc".to_string()),
        None,
        None,
        Some("30".to_string()),
        None,
    );
    assert_eq!(config.database.url, "http://pb_global:8090");
    assert_eq!(config.worker.concurrency, 1);
    assert_eq!(config.worker.poll_interval, 30);
    assert_eq!(config.worker.queue_concurrency, 1);
}

#[test]
fn auth_service_session() {
    let mut auth = AuthService::from_session(None, None);
    assert!(!auth.is_authenticated());
    assert!(auth.get_token().is_none());
    assert!(auth.get_auth_header().is_none());

    auth.apply_session(
        "tok123".to_string(),
        UserInfo {
            id: "u1".to_string(),
            email: "alice@example.com".to_string(),
            username: "alice".to_string(),
        },
    );
    assert!(auth.is_authenticated());
    assert_eq!(auth.get_token().unwrap(), "tok123");
    assert_eq!(auth.get_user().unwrap().username, "alice");
    assert_eq!(auth.get_auth_header(), Some("Bearer tok123".to_string()));

    auth.logout();
    assert!(!auth.is_authenticated());
    assert!(auth.get_user().is_none());
}

#[test]
fn api_service_uses_session_header() {
    let auth = AuthService::from_session(
        Some("tok".to_string()),
        Some(UserInfo {
            id: "u1".to_string(),
            email: "a@b.co".to_string(),
            username: "a".to_string(),
        }),
    );
    let api = ApiService::new(auth);
    assert_eq!(api.auth_header(), Some("Bearer tok".to_string()));
}

#[test]
fn meetings_endpoint_paging() {
    assert_eq!(build_meetings_endpoint(None, None), "/meetings");
    assert_eq!(build_meetings_endpoint(Some(10), None), "/meetings?limit=10");
    assert_eq!(build_meetings_endpoint(None, Some(20)), "/meetings?offset=20");
    assert_eq!(build_meetings_endpoint(Some(10), Some(20)), "/meetings?limit=10&offset=20");
}

#[test]
fn websocket_url_derivation() {
    assert_eq!(derive_ws_url("http://localhost:3000"), "ws://localhost:3000/queue_updates");
    assert_eq!(derive_ws_url("https://api.example.com"), "wss://api.example.com/queue_updates");
    assert_eq!(derive_ws_url("gopher://x"), "gopher://x/queue_updates");
}

#[test]
fn backoff_doubles_and_caps() {
    assert_eq!(next_backoff_delay(1000), 2000);
    assert_eq!(next_backoff_delay(2000), 4000);
    assert_eq!(next_backoff_delay(15000), 30000);
    assert_eq!(next_backoff_delay(20000), 30000);
}

#[test]
fn build_config_environment() {
    let dev = BuildConfig::new(None, "0.1.0".to_string(), None);
    assert!(dev.api_base_url().is_none());
    assert_eq!(dev.version(), "0.1.0");
    assert_eq!(dev.environment(), "development");
    assert!(dev.is_development());
    assert!(!dev.is_production());

    let prod = BuildConfig::new(
        Some("https://api.example.com".to_string()),
        "1.2.3".to_string(),
        Some("production".to_string()),
    );
    assert_eq!(prod.api_base_url().unwrap(), "https://api.example.com");
    assert!(prod.is_production());
    assert!(!prod.is_development());
}

#[test]
fn app_config_defaults() {
    let config = AppConfig::with_base_url("http://localhost:3000".to_string());
    assert_eq!(config.api.base_url, "http://localhost:3000");
    assert_eq!(config.api.version, "0.1.0");
    assert_eq!(config.database.url, "http://pb_global:8090");
    assert_eq!(config.logging.level, "info");
    assert_eq!(
        config.cors.origins,
        vec!["http://localhost:8080".to_string(), "http://localhost:3000".to_string()]
    );
    assert!(config.features.auth_enabled);
    assert!(config.features.encryption_enabled);
}

#[test]
fn bearer_header_parsing() {
    assert_eq!(parse_bearer_header("Bearer tok123").unwrap(), "tok123");

    let empty = parse_bearer_header("Bearer ").unwrap_err();
    assert_eq!(empty.error, "empty_token");
    assert_eq!(empty.message, "Token cannot be empty");

    let wrong = parse_bearer_header("Basic abc").unwrap_err();
    assert_eq!(wrong.error, "invalid_authorization");
    assert_eq!(wrong.message, "Authorization header must be a Bearer token");
}

#[test]
fn login_and_register_checks() {
    let good = LoginRequest { email: "alice@example.com".to_string(), password: "x".to_string() };
    assert!(login_request_valid(&good));
    let blank_email = LoginRequest { email: "   ".to_string(), password: "x".to_string() };
    assert!(!login_request_valid(&blank_email));
    let empty_password =
        LoginRequest { email: "alice@example.com".to_string(), password: "".to_string() };
    assert!(!login_request_valid(&empty_password));

    let matching = RegisterRequest {
        email: "a@b.co".to_string(),
        password: "pw".to_string(),
        password_confirm: "pw".to_string(),
        name: None,
    };
    assert!(passwords_match(&matching));
    let differing = RegisterRequest {
        email: "a@b.co".to_string(),
        password: "pw".to_string(),
        password_confirm: "other".to_string(),
        name: None,
    };
    assert!(!passwords_match(&differing));

    assert_eq!(default_name_from_email("alice@example.com"), "alice");
    assert_eq!(default_name_from_email("no-at-sign"), "no-at-sign");
}

#[test]
fn init_request_and_responses() {
    assert!(InitPbRequest { force_restart: Some(true) }.wants_restart());
    assert!(!InitPbRequest { force_restart: Some(false) }.wants_restart());
    assert!(!InitPbRequest { force_restart: None }.wants_restart());

    assert!(init_user_id_valid("alice"));
    assert!(!init_user_id_valid("   "));
    assert!(!init_user_id_valid(""));

    let invalid = InitPbResponse::invalid_user();
    assert!(!invalid.success);
    assert_eq!(invalid.message, "Invalid user ID");

    let failure = InitPbResponse::failed(&PocketBaseError::NoPortsAvailable);
    assert!(!failure.success);
    assert_eq!(failure.message, "No available ports for PocketBase instance");

    let io = InitPbResponse::failed(&PocketBaseError::IoError("disk".to_string()));
    assert_eq!(io.message, "IO error: disk");

    let proc = InitPbResponse::failed(&PocketBaseError::ProcessError("boom".to_string()));
    assert_eq!(proc.message, "Process error: boom");

    let other = InitPbResponse::failed(&PocketBaseError::HealthCheckFailed);
    assert_eq!(other.message, "Initialization failed: Health check failed");
}

#[test]
fn init_success_response_names_the_port() {
    let mut mgr = pbhub::manager::PocketBaseManager::new(
        "/tmp/dbs".to_string(),
        9000,
        "pocketbase".to_string(),
    );
    let starting = mgr.begin_init(&"alice".to_string(), &Vec::new(), 1).unwrap();
    let port = starting.port;
    let running = mgr.complete_init(starting, Ok(())).unwrap();
    let response = InitPbResponse::initialized(running);
    assert!(response.success);
    assert_eq!(
        response.message,
        format!("PocketBase instance initialized on port {}", port)
    );
}
