use tour_editor::config::Config;

#[test]
fn test_default_config() {
    let config = Config::default();
    assert_eq!(config.server.host, "0.0.0.0");
    assert_eq!(config.server.port, 1112);
    assert_eq!(config.app.name, "Virtual Tour Editor");
}

#[test]
fn test_server_address() {
    let config = Config::default();
    assert_eq!(config.server_address(), "0.0.0.0:1112");
}

#[test]
fn default_database_url_and_version() {
    let config = Config::default();
    assert_eq!(config.database.url, "sqlite:./virtual_tour_editor.db");
    assert_eq!(config.app.version, "2.1.0");
}

#[test]
fn server_address_port_zero() {
    let mut config = Config::default();
    config.server.port = 0;
    config.server.host = "localhost".to_string();
    assert_eq!(config.server_address(), "localhost:0");
}

#[test]
fn server_address_max_port() {
    let mut config = Config::default();
    config.server.port = 65535;
    assert_eq!(config.server_address(), "0.0.0.0:65535");
}

#[test]
fn server_address_single_digit_port() {
    let mut config = Config::default();
    config.server.port = 7;
    assert_eq!(config.server_address(), "0.0.0.0:7");
}
