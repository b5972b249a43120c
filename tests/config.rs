use vrconnect::config::Config;

#[test]
fn test_config_defaults() {
    let config = Config::default();
    assert_eq!(config.socketio_host, "127.0.0.1");
    assert_eq!(config.socketio_port, 3000);
    assert!(config.output_console_enabled);
    assert!(!config.output_console_verbose);
    assert!(config.output_console_colorized);
    assert!(!config.output_ble_enabled);
    assert_eq!(config.output_ble_device_name, "VRConnect");
    assert!(!config.debug_enabled);
    assert_eq!(config.log_level, "INFO");
    assert_eq!(config.log_dir, "./logs");
}

#[test]
fn test_config_ble_disabled_default() {
    let config = Config::default();
    assert!(!config.output_ble_enabled);
}

#[test]
fn test_config_validate_success() {
    let config = Config::default();
    assert!(config.validate().is_ok());
}

#[test]
fn test_config_validate_invalid_port() {
    let mut config = Config::default();
    config.socketio_port = 0;
    let result = config.validate();
    assert!(result.is_err());
    assert!(result.unwrap_err().contains("port"));
}

#[test]
fn test_config_debug_display() {
    let config = Config::default();
    let debug_str = format!("{:?}", config);
    assert!(debug_str.contains("Config"));
}

#[test]
fn validate_log_level_and_uuid() {
    let mut config = Config::default();
    config.log_level = "debug".to_string();
    assert!(config.validate().is_ok());
    config.log_level = "TRACE".to_string();
    assert_eq!(config.validate().unwrap_err(), "Invalid log level: TRACE");
    config.log_level = "warning".to_string();
    config.output_ble_enabled = true;
    assert!(config.validate().is_ok());
    config.output_ble_service_uuid = "not-a-uuid".to_string();
    assert_eq!(config.validate().unwrap_err(), "Invalid BLE service UUID: not-a-uuid");
}

#[test]
fn socket_url_and_merge() {
    let mut config = Config::default();
    assert_eq!(config.socket_url(), "http://127.0.0.1:3000");
    config.socketio_host = "0.0.0.0".to_string();
    config.socketio_port = 65535;
    assert_eq!(config.socket_url(), "http://0.0.0.0:65535");
    let merged = config.clone().merge_with(Config::default());
    assert_eq!(merged.socketio_port, 65535);
}

#[test]
fn uuid_forms_accepted_by_validate() {
    let mut config = Config::default();
    config.output_ble_enabled = true;
    for ok in [
        "12345678123456781234567812345678",
        "12345678-1234-5678-1234-56781234ABCD",
        "{12345678-1234-5678-1234-567812345678}",
        "URN:uuid:12345678-1234-5678-1234-567812345678",
    ] {
        config.output_ble_service_uuid = ok.to_string();
        assert!(config.validate().is_ok(), "{}", ok);
    }
    for bad in [
        "12345678-1234-5678-1234-56781234567g",
        "12345678_1234-5678-1234-567812345678",
        "[12345678-1234-5678-1234-567812345678]",
        "urn:uuix:12345678-1234-5678-1234-567812345678",
        "1234567812345678123456781234567",
        "é2345678-1234-5678-1234-56781234567",
    ] {
        config.output_ble_service_uuid = bad.to_string();
        assert!(config.validate().is_err(), "{}", bad);
    }
}
