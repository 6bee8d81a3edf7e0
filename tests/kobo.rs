use kobo_wifi_remote::kobo::{KoboConfigError, KoboConfigFile, KoboConfigOptions, KoboConfigSetting};

fn file(contents: &str) -> KoboConfigFile {
    KoboConfigFile { contents: contents.to_string(), opts: KoboConfigOptions::default() }
}

fn setting(section: &str, key: &str, value: Option<&str>) -> KoboConfigSetting {
    KoboConfigSetting { section: section.into(), key: key.into(), value: value.map(|v| v.into()) }
}

#[test]
fn set_value_override_existing() {
    let cfg = "[DeveloperSettings]\nEnableDebugServices=true\nForceWifiOn=false\nForceAllowLandscape=true\nShowKeyboardTaps=false\n";
    let expected = "[DeveloperSettings]\nEnableDebugServices=true\nForceWifiOn=true\nForceAllowLandscape=true\nShowKeyboardTaps=false\n";
    let mut config = file(cfg);
    config.set_value("DeveloperSettings", "ForceWifiOn", Some("true")).unwrap();
    assert_eq!(&config.contents, expected);
}

#[test]
fn set_value_not_present() {
    let cfg = "[DeveloperSettings]\nEnableDebugServices=true\nForceAllowLandscape=true\nShowKeyboardTaps=false\n\n[DialogSettings]\nReleaseNotesShown=true\nReturningReaderDialogShown=true\n";
    let expected = "[DeveloperSettings]\nEnableDebugServices=true\nForceAllowLandscape=true\nShowKeyboardTaps=false\nForceWifiOn=true\n\n[DialogSettings]\nReleaseNotesShown=true\nReturningReaderDialogShown=true\n";
    let mut config = file(cfg);
    config.set_value("DeveloperSettings", "ForceWifiOn", Some("true")).unwrap();
    assert_eq!(&config.contents, expected);
}

#[test]
fn set_value_no_section() {
    let cfg = "[DialogSettings]\nReleaseNotesShown=true\nReturningReaderDialogShown=true\n";
    let expected = "[DialogSettings]\nReleaseNotesShown=true\nReturningReaderDialogShown=true\n\n[DeveloperSettings]\nForceWifiOn=false\n";
    let mut config = file(cfg);
    config.set_value("DeveloperSettings", "ForceWifiOn", Some("false")).unwrap();
    assert_eq!(&config.contents, expected);
}

#[test]
fn set_invalid_boolean_fails() {
    let cfg = "[DeveloperSettings]\nForceWifiOn=false\n";
    let mut config = file(cfg);
    let result = config.set_value("DeveloperSettings", "ForceWifiOn", Some("indeed"));
    assert!(result.is_err());
}

#[test]
fn set_invalid_boolean_fails_on_a_plain_file() {
    let mut config = file("[DeveloperSettings]\nForceWifiOn=false\n");
    let result = config.set_value("DeveloperSettings", "ForceWifiOn", Some("indeed"));
    assert_eq!(result, Err(KoboConfigError::NotBoolean));
    assert_eq!(config.contents, "[DeveloperSettings]\nForceWifiOn=false\n");
}

#[test]
fn set_integer_needs_an_integer() {
    let mut config = KoboConfigFile {
        contents: "[DeveloperSettings]\nForceWifiOn=3\n".to_string(),
        opts: KoboConfigOptions::default(),
    };
    assert_eq!(
        config.set_value("DeveloperSettings", "ForceWifiOn", Some("x")),
        Err(KoboConfigError::NotInteger)
    );
    assert_eq!(config.set_value("DeveloperSettings", "ForceWifiOn", Some("-12")), Ok(()));
    assert_eq!(config.contents, "[DeveloperSettings]\nForceWifiOn=-12\n");
}

#[test]
fn set_not_whitelisted_fails() {
    let mut config = file("");
    let result = config.set_value("DeveloperSettings", "EnableDebugServices", Some("true"));
    assert!(result.is_err());
}

#[test]
fn removing_a_value_drops_its_line() {
    let mut config = file("[DeveloperSettings]\nForceWifiOn=false\nShowKeyboardTaps=true\n");
    config.set_value("DeveloperSettings", "ForceWifiOn", None).unwrap();
    assert_eq!(config.contents, "[DeveloperSettings]\nShowKeyboardTaps=true\n");
}

#[test]
fn get_values_is_set() {
    let cfg = "[DeveloperSettings]\nAutoUsbGadget=true\nForceAllowLandscape=true\nShowKeyboardTaps=false\nForceWifiOn=false\nEnableDebugServices=false\n\n[DialogSettings]\nReleaseNotesShown=true\nReturningReaderDialogShown=true\n";
    let config = file(cfg);
    let values = config.get_values();
    let expected = vec![
        setting("DeveloperSettings", "AutoUsbGadget", Some("true")),
        setting("DeveloperSettings", "ForceAllowLandscape", Some("true")),
        setting("DeveloperSettings", "ShowKeyboardTaps", Some("false")),
        setting("DeveloperSettings", "ForceWifiOn", Some("false")),
    ];
    assert_eq!(values, expected);
}

#[test]
fn get_values_not_set() {
    let cfg = "[DialogSettings]\nReleaseNotesShown=true\nReturningReaderDialogShown=true\n";
    let config = file(cfg);
    let values = config.get_values();
    let expected = vec![
        setting("DeveloperSettings", "ForceWifiOn", None),
        setting("DeveloperSettings", "ForceAllowLandscape", None),
        setting("DeveloperSettings", "AutoUsbGadget", None),
        setting("DeveloperSettings", "ShowKeyboardTaps", None),
    ];
    assert_eq!(values, expected);
}

#[test]
fn whitelist_and_types() {
    let config = file("");
    assert!(config.is_whitelisted("DeveloperSettings", "ForceWifiOn"));
    assert!(!config.is_whitelisted("DeveloperSettings", "EnableDebugServices"));
    assert!(!config.is_whitelisted("Other", "ForceWifiOn"));
    assert_eq!(config.validate_types("TRUE", "False"), Ok(()));
    assert_eq!(config.validate_types("true", "yes"), Err(KoboConfigError::NotBoolean));
    assert_eq!(config.validate_types("12", "+7"), Ok(()));
    assert_eq!(config.validate_types("12", "7.5"), Err(KoboConfigError::NotInteger));
    assert_eq!(config.validate_types("text", "anything"), Ok(()));
}
