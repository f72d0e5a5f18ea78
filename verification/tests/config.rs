use hyphenate::config::{port_from_field, port_from_settings, ConfigError};

#[test]
fn settings_with_port_field() {
    assert_eq!(port_from_settings("hyphenate_rpc_port = 8080"), Ok(8080));
}

#[test]
fn settings_with_more_fields() {
    let text = "name = \"service\"\nhyphenate_rpc_port = 443\n";
    assert_eq!(port_from_settings(text), Ok(443));
}

#[test]
fn empty_settings_reject() {
    assert_eq!(port_from_settings(""), Err(ConfigError::MissingPort));
}

#[test]
fn missing_field_rejects() {
    assert_eq!(
        port_from_settings("other_port = 8080"),
        Err(ConfigError::MissingPort)
    );
}

#[test]
fn non_integer_field_rejects() {
    assert_eq!(
        port_from_settings("hyphenate_rpc_port = \"8080\""),
        Err(ConfigError::MissingPort)
    );
}

#[test]
fn malformed_settings_reject() {
    assert_eq!(
        port_from_settings("this is = = not toml"),
        Err(ConfigError::MissingPort)
    );
}

#[test]
fn out_of_range_port_rejects() {
    assert_eq!(
        port_from_settings("hyphenate_rpc_port = 70000"),
        Err(ConfigError::PortOutOfRange)
    );
    assert_eq!(
        port_from_settings("hyphenate_rpc_port = -1"),
        Err(ConfigError::PortOutOfRange)
    );
}

#[test]
fn field_decision_matches_settings_decision() {
    assert_eq!(port_from_field(Some(8080)), Ok(8080));
    assert_eq!(port_from_field(Some(0)), Ok(0));
    assert_eq!(port_from_field(Some(65535)), Ok(65535));
    assert_eq!(port_from_field(Some(65536)), Err(ConfigError::PortOutOfRange));
    assert_eq!(port_from_field(None), Err(ConfigError::MissingPort));
}
