use ai2assistant::models::AppConfig;
use ai2assistant::shortcuts::validate_shortcuts;

#[test]
fn test_valid_shortcuts() {
    let mut config = AppConfig::default();
    config.capture_shortcut = "Alt+A".to_string();
    config.main_window_shortcut = "Alt+Shift+Space".to_string();
    assert!(validate_shortcuts(&config).is_ok());

    config.capture_shortcut = "Ctrl+Shift+K".to_string();
    config.main_window_shortcut = "Ctrl+Alt+S".to_string();
    assert!(validate_shortcuts(&config).is_ok());
}

#[test]
fn test_allow_empty_shortcut() {
    let mut config = AppConfig::default();
    config.capture_shortcut = "".to_string();
    config.main_window_shortcut = "Alt+Shift+Space".to_string();
    assert!(validate_shortcuts(&config).is_ok());
}

#[test]
fn test_duplicate_shortcuts_rejected() {
    let mut config = AppConfig::default();
    config.capture_shortcut = "Alt+A".to_string();
    config.main_window_shortcut = "alt+a".to_string();
    assert!(validate_shortcuts(&config).is_err());
}

#[test]
fn test_invalid_shortcut_format_rejected() {
    let mut config = AppConfig::default();
    config.capture_shortcut = "InvalidUnknownKeyCombo+999".to_string();
    assert!(validate_shortcuts(&config).is_err());
}

#[test]
fn duplicate_message_names_the_clash() {
    let mut config = AppConfig::default();
    config.capture_shortcut = " Ctrl+K ".to_string();
    config.main_window_shortcut = "ctrl+k".to_string();
    let err = validate_shortcuts(&config).unwrap_err();
    assert_eq!(err, "划选捕获快捷键与呼出主看板快捷键不能相同");
}

#[test]
fn invalid_main_shortcut_is_reported() {
    let mut config = AppConfig::default();
    config.capture_shortcut = "".to_string();
    config.main_window_shortcut = "Nonsense+Key+Combo".to_string();
    let err = validate_shortcuts(&config).unwrap_err();
    assert!(err.starts_with("主看板快捷键格式无效 [Nonsense+Key+Combo] : "));
}

#[test]
fn both_empty_shortcuts_pass() {
    let mut config = AppConfig::default();
    config.capture_shortcut = "".to_string();
    config.main_window_shortcut = "  ".to_string();
    assert!(validate_shortcuts(&config).is_ok());
}
