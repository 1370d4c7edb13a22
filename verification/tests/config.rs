use pman_server::config::{config_file_path, ServerConfig};

#[test]
fn default_config() {
    let config = ServerConfig::default();
    assert_eq!(config.ip, "127.0.0.1");
    assert_eq!(config.port, 8000);
    assert!(config.data_dir.is_none());
    assert!(config.api_key_file.is_none());
    assert!(config.log_file.is_none());
    assert!(config.log_level.is_none());
}

#[test]
fn defaults_of_optional_settings() {
    let config = ServerConfig::default();
    assert_eq!(config.data_dir(), "data");
    assert_eq!(config.log_file(), "");
    assert_eq!(config.log_level(), 1);
}

#[test]
fn configured_settings_are_used() {
    let mut config = ServerConfig::default();
    config.data_dir = Some(String::from("/var/pman"));
    config.log_file = Some(String::from("server.log"));
    config.log_level = Some(3);
    assert_eq!(config.data_dir(), "/var/pman");
    assert_eq!(config.log_file(), "server.log");
    assert_eq!(config.log_level(), 3);
}

#[test]
fn logger_follows_the_config() {
    let mut config = ServerConfig::default();
    config.log_file = Some(String::from("server.log"));
    config.log_level = Some(2);
    let logger = config.new_logger();
    let guard = logger.lock().unwrap();
    assert_eq!(guard.file(), "server.log");
    assert_eq!(guard.log_level(), 2);
}

#[test]
fn default_logger_settings() {
    let logger = ServerConfig::default().new_logger();
    let guard = logger.lock().unwrap();
    assert_eq!(guard.file(), "");
    assert_eq!(guard.log_level(), 1);
}

#[test]
fn config_path_default() {
    assert_eq!(config_file_path(None), "config.toml");
    assert_eq!(config_file_path(Some(String::from("other.toml"))), "other.toml");
}
