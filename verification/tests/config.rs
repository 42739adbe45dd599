//! Configuration defaults and colors.
use terminal::config::{BellStyle, Config};

#[test]
fn test_default_config() {
    let config = Config::default();
    assert_eq!(f32::from_bits(config.font.size), 15.0);
    assert_eq!(config.window.cols, 80);
    assert_eq!(config.window.rows, 24);
    assert_eq!(config.scrollback, 10000);
    assert!(!config.mouse_reporting);
    assert!(!config.reduced_motion);
    assert_eq!(config.bell, BellStyle::Flash);
}

#[test]
fn test_parse_color() {
    assert_eq!(Config::parse_color("#FF0000"), Some((255, 0, 0)));
    assert_eq!(Config::parse_color("#00FF00"), Some((0, 255, 0)));
    assert_eq!(Config::parse_color("#0000FF"), Some((0, 0, 255)));
    assert_eq!(Config::parse_color("FF0000"), Some((255, 0, 0)));
    assert_eq!(Config::parse_color("#1E1E2E"), Some((30, 30, 46)));
    assert_eq!(Config::parse_color("invalid"), None);
}

#[test]
fn test_security_defaults_locked_down() {
    let config = Config::default();
    assert!(config.security.osc52_write);
    assert!(!config.security.osc52_read);
    assert!(config.security.window_title);
    assert_eq!(config.security.uri_schemes, vec!["http", "https"]);
}
