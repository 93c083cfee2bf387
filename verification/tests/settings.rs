use herdr_labels::filesystem::FileFailure;
use herdr_labels::settings::{naming_policy, settings_path, Settings};

fn bytes(text: &str) -> Vec<u8> {
    text.as_bytes().to_vec()
}

#[test]
fn transient_prompt_programs_are_ignored_by_default() {
    let settings = Settings::default();
    for program in ["git", "direnv", "scutil"] {
        assert!(
            settings
                .ignored_processes
                .iter()
                .any(|ignored| ignored == program),
            "{program} should be ignored"
        );
    }
}

#[test]
fn defaults_name_and_number_tabs() {
    let settings = Settings::default();
    assert!(settings.auto_name_tabs);
    assert!(settings.number_tabs);
    assert!(!settings.hide_idle_shell);
    assert_eq!(settings.max_label_chars, 24);
    assert_eq!(settings.shells, ["zsh", "bash", "sh", "dash", "ksh"]);
    assert_eq!(
        settings.ignored_processes,
        ["ls", "cat", "pwd", "clear", "git", "direnv", "scutil"]
    );
    assert!(settings.process_aliases.entries().is_empty());
    assert!(!settings.diagnostic_telemetry);
}

#[test]
fn absent_settings_are_the_defaults() {
    let missing = FileFailure::Missing("no such file".into());
    assert_eq!(Settings::load(Err(missing)).unwrap(), Settings::default());
    let mut stored = Settings::default();
    stored.max_label_chars = 12;
    assert_eq!(Settings::load(Ok(Ok(stored))).unwrap().max_label_chars, 12);
    assert_eq!(Settings::load(Ok(Err("malformed".into()))).unwrap_err(), "malformed");
    let unreadable = FileFailure::Other("permission denied".into());
    assert_eq!(Settings::load(Err(unreadable)).unwrap_err(), "permission denied");
}

#[test]
fn malformed_settings_files_are_rejected() {
    let error = toml::from_str::<toml::Table>("not = valid = toml").unwrap_err();
    assert!(Settings::load(Ok(Err(error.to_string()))).is_err());
}

#[test]
fn the_configured_file_takes_precedence() {
    assert_eq!(
        settings_path(Some(bytes("/etc/labels.toml")), Some(bytes("/config")), None).unwrap(),
        bytes("/etc/labels.toml")
    );
    assert_eq!(
        settings_path(None, Some(bytes("/config")), Some(bytes("/home"))).unwrap(),
        bytes("/config/herdr-labels/config.toml")
    );
    assert_eq!(
        settings_path(None, None, Some(bytes("/home"))).unwrap(),
        bytes("/home/.config/herdr-labels/config.toml")
    );
    assert_eq!(
        settings_path(None, None, None).unwrap_err(),
        "HOME and XDG_CONFIG_HOME are not set"
    );
    assert_eq!(
        settings_path(Some(bytes("labels.toml")), None, None).unwrap_err(),
        "HERDR_LABELS_CONFIG must be an absolute path"
    );
    assert_eq!(
        settings_path(None, Some(bytes("config")), None).unwrap_err(),
        "configuration base must be an absolute path"
    );
}

#[test]
fn settings_become_the_naming_policy() {
    let mut settings = Settings::default();
    settings.hide_idle_shell = true;
    settings.process_aliases.insert("bv".into(), "beads_viewer".into());
    let policy = naming_policy(&settings);
    assert!(policy.hide_idle_shell);
    assert_eq!(policy.max_label_chars, 24);
    assert!(policy.is_shell_program("ksh"));
    assert!(policy.is_ignored_program("scutil"));
    assert_eq!(policy.aliases.get("bv").map(String::as_str), Some("beads_viewer"));
    assert_eq!(settings.clone(), settings);
}
