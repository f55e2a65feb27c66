use cute_rat::config::{Config, Period, ServerInfo, TimeUnit};
use cute_rat::received_setting::{ReceivedSetting, SettingError};

fn default_config() -> Config {
    Config::new(
        ServerInfo::new("127.0.0.1", 6247),
        1000,
        Period::new(1, TimeUnit::Seconds),
        false,
    )
}

fn unit_code(unit: &TimeUnit) -> u32 {
    match unit {
        TimeUnit::Milliseconds => 0,
        TimeUnit::Seconds => 1,
        TimeUnit::Minutes => 2,
        TimeUnit::Hours => 3,
        TimeUnit::Days => 4,
    }
}

fn config_parts(config: &Config) -> (String, u16, u64, u64, u32, bool) {
    (
        config.server.address.clone(),
        config.server.port,
        config.timeout,
        config.request_period.value,
        unit_code(&config.request_period.unit),
        config.silent_mode,
    )
}

#[test]
fn test_received_setting_parse_period() {
    let setting = ReceivedSetting::from_string("period".to_string(), "1 s".to_string());
    let period = setting.parse_period().unwrap();

    assert_eq!(period.value, 1);
    assert!(matches!(period.unit, TimeUnit::Seconds));
}

#[test]
fn test_received_setting_parse_period_empty_input() {
    let setting = ReceivedSetting::from_string("period".to_string(), "".to_string());
    let result = setting.parse_period();

    assert!(result.is_err());
}

#[test]
fn test_received_setting_parse_period_missing_unit() {
    let setting = ReceivedSetting::from_string("period".to_string(), "1".to_string());
    let result = setting.parse_period();

    assert!(result.is_err());
}

#[test]
fn test_received_setting_parse_period_bad_input() {
    let setting = ReceivedSetting::from_string("period".to_string(), "rat x".to_string());
    let result = setting.parse_period();

    assert!(result.is_err());
}

#[test]
fn test_received_setting_parse_server_info() {
    let setting = ReceivedSetting::from_string("server".to_string(), "127.0.0.1 6247".to_string());

    let server_info = setting.parse_server_info().unwrap();

    assert_eq!(server_info.address, "127.0.0.1");
    assert_eq!(server_info.port, 6247);
}

#[test]
fn test_received_setting_parse_server_info_empty_input() {
    let setting = ReceivedSetting::from_string("server".to_string(), "".to_string());
    let result = setting.parse_server_info();

    assert!(result.is_err());
}

#[test]
fn test_received_setting_parse_server_info_missing_port() {
    let setting = ReceivedSetting::from_string("server".to_string(), "127.0.0.1".to_string());
    let result = setting.parse_server_info();

    assert!(result.is_err());
}

#[test]
fn test_received_setting_parse_server_info_bad_input() {
    let setting = ReceivedSetting::from_string("server".to_string(), "rat rat".to_string());
    let result = setting.parse_server_info();

    assert!(result.is_err());
}

#[test]
fn test_received_setting_timeout() {
    let setting = ReceivedSetting::from_string("timeout".to_string(), "1000".to_string());
    let timeout = setting.parse_timeout().unwrap();

    assert_eq!(timeout, 1000);
}

#[test]
fn test_received_setting_timeout_empty_input() {
    let setting = ReceivedSetting::from_string("timeout".to_string(), "".to_string());
    let result = setting.parse_timeout();

    assert!(result.is_err());
}

#[test]
fn test_apply_period_five_minutes() {
    let mut config = default_config();
    let setting = ReceivedSetting::from_string("period".to_string(), "5 m".to_string());
    let output = setting.apply(&mut config).unwrap();

    assert_eq!(config.request_period.to_duration().as_secs(), 300);
    assert_eq!(output.output, "Setting period to 5 m\n");
}

#[test]
fn test_apply_timeout_milliseconds() {
    let mut config = default_config();
    let setting = ReceivedSetting::from_string("timeout".to_string(), "1000".to_string());
    let output = setting.apply(&mut config).unwrap();

    assert_eq!(config.timeout, 1000);
    assert_eq!(output.output, "Setting timeout to 1000\n");
}

#[test]
fn test_apply_server_address_and_port() {
    let mut config = default_config();
    let setting = ReceivedSetting::from_string("server".to_string(), "10.0.0.1 9000".to_string());
    let output = setting.apply(&mut config).unwrap();

    assert_eq!(config.server.address, "10.0.0.1");
    assert_eq!(config.server.port, 9000);
    assert_eq!(output.output, "Setting server to 10.0.0.1 9000\n");
}

#[test]
fn test_apply_silent_mode() {
    let mut config = default_config();
    let setting = ReceivedSetting::from_string("silent".to_string(), "true".to_string());
    setting.apply(&mut config).unwrap();

    assert!(config.silent_mode);

    let setting = ReceivedSetting::from_string("silent".to_string(), "false".to_string());
    setting.apply(&mut config).unwrap();

    assert!(!config.silent_mode);
}

#[test]
fn test_apply_bad_period_leaves_config_unchanged() {
    let mut config = default_config();
    let before = config_parts(&config);
    let setting = ReceivedSetting::from_string("period".to_string(), "rat x".to_string());
    let result = setting.apply(&mut config);

    assert!(result.is_err());
    assert_eq!(config_parts(&config), before);
}

#[test]
fn test_apply_twice_is_idempotent() {
    let mut config = default_config();
    let setting = ReceivedSetting::from_string("period".to_string(), "5 m".to_string());
    let first_output = setting.apply(&mut config).unwrap();
    let after_first = config_parts(&config);
    let second_output = setting.apply(&mut config).unwrap();

    assert_eq!(config_parts(&config), after_first);
    assert_eq!(first_output.output, second_output.output);
}

#[test]
fn test_apply_unrecognized_key_is_a_no_op() {
    let mut config = default_config();
    let before = config_parts(&config);
    let setting = ReceivedSetting::from_string("colour".to_string(), "red".to_string());
    let output = setting.apply(&mut config).unwrap();

    assert_eq!(config_parts(&config), before);
    assert_eq!(output.output, "Setting colour to red\n");
}

#[test]
fn test_setting_error_variants() {
    let mut config = default_config();

    let setting = ReceivedSetting::from_string("period".to_string(), "x y".to_string());
    assert_eq!(
        setting.apply_setting(&mut config),
        Err(SettingError::InvalidPeriodValue)
    );

    let setting = ReceivedSetting::from_string("period".to_string(), "5".to_string());
    assert_eq!(
        setting.apply_setting(&mut config),
        Err(SettingError::InvalidPeriodUnit)
    );

    let setting = ReceivedSetting::from_string("server".to_string(), "".to_string());
    assert_eq!(
        setting.apply_setting(&mut config),
        Err(SettingError::InvalidServerAddress)
    );

    let setting = ReceivedSetting::from_string("server".to_string(), "somehost".to_string());
    assert_eq!(
        setting.apply_setting(&mut config),
        Err(SettingError::InvalidServerPort)
    );

    let setting = ReceivedSetting::from_string("server".to_string(), "somehost 99999".to_string());
    assert_eq!(
        setting.apply_setting(&mut config),
        Err(SettingError::InvalidPortValue)
    );

    let setting = ReceivedSetting::from_string("timeout".to_string(), "soon".to_string());
    assert_eq!(
        setting.apply_setting(&mut config),
        Err(SettingError::InvalidTimeoutValue)
    );

    let setting = ReceivedSetting::from_string("silent".to_string(), "maybe".to_string());
    assert_eq!(
        setting.apply_setting(&mut config),
        Err(SettingError::InvalidSilentModeValue)
    );
}

#[test]
fn test_setting_error_messages() {
    assert_eq!(
        SettingError::InvalidPeriodValue.message(),
        "Invalid period value"
    );
    assert_eq!(
        SettingError::InvalidSilentModeValue.message(),
        "Invalid silent mode value"
    );
}

#[test]
fn test_failure_message_text() {
    let setting = ReceivedSetting::from_string("period".to_string(), "rat x".to_string());

    assert_eq!(
        setting.failure_message(),
        "failed to apply setting period to rat x"
    );
}

#[test]
fn test_period_unit_spellings() {
    for (text, expected_secs) in [
        ("2 ms", 0),
        ("2 s", 2),
        ("2 m", 120),
        ("2 h", 7200),
        ("2 d", 172800),
        ("2 weeks", 2),
    ] {
        let setting = ReceivedSetting::from_string("period".to_string(), text.to_string());
        let period = setting.parse_period().unwrap();
        assert_eq!(period.to_duration().as_secs(), expected_secs);
    }
}

#[test]
fn test_timeout_bounds() {
    let setting =
        ReceivedSetting::from_string("timeout".to_string(), "18446744073709551615".to_string());
    assert_eq!(setting.parse_timeout().unwrap(), u64::MAX);

    let setting =
        ReceivedSetting::from_string("timeout".to_string(), "18446744073709551616".to_string());
    assert!(setting.parse_timeout().is_err());

    let setting = ReceivedSetting::from_string("timeout".to_string(), "10 ".to_string());
    assert!(setting.parse_timeout().is_err());
}

#[test]
fn test_server_port_bounds() {
    let setting = ReceivedSetting::from_string("server".to_string(), "h 65535".to_string());
    assert_eq!(setting.parse_server_info().unwrap().port, 65535);

    let setting = ReceivedSetting::from_string("server".to_string(), "h 65536".to_string());
    assert!(setting.parse_server_info().is_err());
}
