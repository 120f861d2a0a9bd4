use zooming_kittens::config::{Config, CliZoomArgs, RegistryConfig, Verbosity, ZoomConfig, ZoomType};

#[test]
fn test_zoom_config_validate_single_type() {
    let mut config = ZoomConfig::default();
    config.additive = Some(600);
    assert!(config.validate().is_ok());
    assert_eq!(config.active_type(), Some(ZoomType::Additive));
    assert_eq!(config.value(), Some(600));
}

#[test]
fn test_zoom_config_validate_multiple_types_error() {
    let mut config = ZoomConfig::default();
    config.additive = Some(600);
    config.multiplicative = Some(1500);
    assert!(config.validate().is_err());
}

#[test]
fn test_zoom_config_validate_absolute() {
    let mut config = ZoomConfig::default();
    config.absolute = Some(1800);
    assert!(config.validate().is_ok());
    assert_eq!(config.active_type(), Some(ZoomType::Absolute));
    assert_eq!(config.value(), Some(1800));
}

#[test]
fn test_zoom_config_validate_multiplicative() {
    let mut config = ZoomConfig::default();
    config.multiplicative = Some(1500);
    assert!(config.validate().is_ok());
    assert_eq!(config.active_type(), Some(ZoomType::Multiplicative));
    assert_eq!(config.value(), Some(1500));
}

#[test]
fn test_zoom_config_no_type() {
    let config = ZoomConfig::default();
    assert!(config.validate().is_ok());
    assert_eq!(config.active_type(), None);
    assert_eq!(config.value(), None);
}

#[test]
fn multiple_types_message_names_them() {
    let mut config = ZoomConfig::default();
    config.absolute = Some(1800);
    config.additive = Some(600);
    config.multiplicative = Some(1500);
    assert_eq!(
        config.validate().unwrap_err(),
        "Multiple zoom types configured: absolute, additive, multiplicative. Only one zoom type may be set."
    );
}

#[test]
fn zero_step_and_zero_factor_are_rejected() {
    let mut config = ZoomConfig::default();
    config.step_size = 0;
    assert_eq!(config.validate().unwrap_err(), "step_size must be at least 1");
    let mut config = ZoomConfig::default();
    config.multiplicative = Some(0);
    assert_eq!(config.validate().unwrap_err(), "multiplicative factor must be positive");
}

#[test]
fn command_line_zoom_type_replaces_configured_one() {
    let mut config = ZoomConfig::default();
    config.additive = Some(600);
    let args = CliZoomArgs { absolute: Some(2000), additive: None, multiplicative: None, step_size: Some(2) };
    config.apply_overrides(&args);
    assert_eq!(config.active_type(), Some(ZoomType::Absolute));
    assert_eq!(config.additive, None);
    assert_eq!(config.absolute, Some(2000));
    assert_eq!(config.step_size, 2);
}

#[test]
fn verbosity_levels() {
    assert_eq!(Verbosity::from_count(0), Verbosity::Quiet);
    assert_eq!(Verbosity::from_count(3), Verbosity::Info);
    assert_eq!(Verbosity::from_count(9), Verbosity::Trace);
    assert!(Verbosity::Trace.log_all_events());
    assert!(!Verbosity::Debug.log_all_events());
    assert!(Verbosity::Debug.log_window_events());
    assert!(!Verbosity::Info.log_window_events());
}

#[test]
fn registry_config_from_seconds() {
    let mut config = Config::default();
    config.idle_timeout_secs = 60;
    config.verbosity = Verbosity::Debug;
    let r = config.to_registry_config();
    assert_eq!(r.idle_timeout_ms, 60_000);
    assert_eq!(r.socket_timeout_ms, 5_000);
    assert_eq!(r.max_connections, 30);
    assert!(r.verbose);
    config.socket_timeout_secs = u64::MAX;
    assert_eq!(config.to_registry_config().socket_timeout_ms, u64::MAX);
}

#[test]
fn registry_config_defaults() {
    let r = RegistryConfig::default();
    assert_eq!(r.max_retries, 3);
    assert_eq!(r.reap_interval_ms, 300_000);
    assert!(!r.verbose);
}

#[test]
fn command_line_registry_options_override_the_file() {
    let mut config = Config::default();
    let args = zooming_kittens::config::CliArgs {
        app_id: String::new(),
        verbosity: Verbosity::Warn,
        socket_timeout: 2,
        max_retries: 5,
        max_connections: 10,
        idle_timeout: 60,
        reap_interval: 30,
    };
    config.apply_cli_args(&args);
    assert_eq!(config.app_id, "kitty");
    assert!(config.verbose);
    assert_eq!(config.socket_timeout_secs, 2);
    assert_eq!(config.max_retries, 5);
    assert_eq!(config.max_connections, 10);
    let args = zooming_kittens::config::CliArgs { app_id: "foot".to_string(), verbosity: Verbosity::Quiet, ..args };
    let mut config = Config::default();
    config.apply_cli_args(&args);
    assert_eq!(config.app_id, "foot");
    assert!(!config.verbose);
}
