use winlog::config::{
    is_known_action, Config, ConfigError, DatabaseConfig, LoggingConfig, SecurityConfig,
    ServerConfig,
};
use winlog::models::ErrorResponse;

fn config_with(port: u16, valid_actions: &[&str]) -> Config {
    Config {
        server: ServerConfig { host: "127.0.0.1".to_string(), port },
        database: DatabaseConfig {
            path: "data/winlog.db".to_string(),
            pragma_journal_mode: "WAL".to_string(),
            pragma_synchronous: "NORMAL".to_string(),
            pragma_busy_timeout: 5000,
            pragma_cache_size: -2000,
        },
        security: SecurityConfig {
            expected_user_agent: "Winlog/".to_string(),
            valid_actions: valid_actions.iter().map(|a| a.to_string()).collect(),
        },
        logging: LoggingConfig { level: "info".to_string(), format: "compact".to_string() },
    }
}

#[test]
fn bind_address_is_host_colon_port() {
    assert_eq!(config_with(3000, &["C"]).bind_address(), "127.0.0.1:3000");
    assert_eq!(config_with(0, &["C"]).bind_address(), "127.0.0.1:0");
    assert_eq!(config_with(65535, &["C"]).bind_address(), "127.0.0.1:65535");
}

#[test]
fn sqlite_url_is_the_path_after_the_scheme() {
    let config = config_with(3000, &["C"]);
    assert_eq!(config.database.sqlite_url(), "sqlite:data/winlog.db");
    for path in ["data/winlog.db", "./data/winlog.db", "C:/Users/Admin/winlog/data/winlog.db", "/var/www/winlog/data/winlog.db"] {
        let mut config = config_with(3000, &["C"]);
        config.database.path = path.to_string();
        assert_eq!(config.database.sqlite_url(), format!("sqlite:{}", path));
    }
}

#[test]
fn path_buf_is_the_configured_path() {
    let config = config_with(3000, &["C"]);
    assert_eq!(config.database.path_buf(), std::path::PathBuf::from("data/winlog.db"));
    assert_eq!(config.database.path_buf().file_name().unwrap(), "winlog.db");
}

#[test]
fn pragmas_are_four_statements_in_order() {
    let config = config_with(3000, &["C"]);
    assert_eq!(
        config.database.pragmas(),
        vec![
            "PRAGMA journal_mode = WAL".to_string(),
            "PRAGMA synchronous = NORMAL".to_string(),
            "PRAGMA busy_timeout = 5000".to_string(),
            "PRAGMA cache_size = -2000".to_string(),
        ]
    );
}

#[test]
fn validate_accepts_known_actions_and_a_port() {
    assert!(config_with(3000, &["C", "D", "M"]).validate().is_ok());
    assert!(config_with(1, &[]).validate().is_ok());
    assert!(config_with(65535, &["M", "M"]).validate().is_ok());
}

#[test]
fn validate_names_the_first_unknown_action() {
    let r = config_with(3000, &["C", "X", "D", "Y"]).validate();
    assert!(matches!(&r, Err(ConfigError::InvalidAction(action)) if action == "X"));
    assert_eq!(r.unwrap_err().message(), "Action invalide: X");
    let r = config_with(3000, &["c"]).validate();
    assert!(matches!(&r, Err(ConfigError::InvalidAction(action)) if action == "c"));
    let r = config_with(3000, &[""]).validate();
    assert!(matches!(&r, Err(ConfigError::InvalidAction(action)) if action.is_empty()));
}

#[test]
fn validate_refuses_port_zero() {
    let r = config_with(0, &["C", "D", "M"]).validate();
    assert!(matches!(r, Err(ConfigError::InvalidPort)));
    assert_eq!(r.unwrap_err().message(), "Port invalide");
}

#[test]
fn validate_checks_actions_before_the_port() {
    let r = config_with(0, &["C", "Z"]).validate();
    assert!(matches!(&r, Err(ConfigError::InvalidAction(action)) if action == "Z"));
}

#[test]
fn config_errors_are_put_in_words() {
    assert_eq!(
        ConfigError::FileRead("no such file".to_string()).message(),
        "Impossible de lire le fichier de configuration: no such file"
    );
    assert_eq!(
        ConfigError::Parse("line 3".to_string()).message(),
        "Erreur de parsing TOML: line 3"
    );
}

#[test]
fn known_actions_are_c_d_and_m() {
    assert!(is_known_action("C"));
    assert!(is_known_action("D"));
    assert!(is_known_action("M"));
    assert!(!is_known_action("X"));
    assert!(!is_known_action(""));
    assert!(!is_known_action("CD"));
}

#[test]
fn error_response_carries_message_and_details() {
    let plain = ErrorResponse::new("Database error");
    assert_eq!(plain.error, "Database error");
    assert_eq!(plain.details, None);
    let detailed = ErrorResponse::with_details("Invalid action", "{\"action\":\"X\"}".to_string());
    assert_eq!(detailed.error, "Invalid action");
    assert_eq!(detailed.details.as_deref(), Some("{\"action\":\"X\"}"));
}
