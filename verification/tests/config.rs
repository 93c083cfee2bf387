use herdr_labels::config::{
    digest_key, event_invocation, invocation_from, required_path, required_value, session_key_text,
    session_state_dir, state_base_dir, Config, Environment, Invocation,
};
use herdr_labels::settings::Settings;

fn strings(values: &[&str]) -> Vec<String> {
    values.iter().map(|value| (*value).to_owned()).collect()
}

fn bytes(text: &str) -> Vec<u8> {
    text.as_bytes().to_vec()
}

fn environment() -> Environment {
    Environment {
        socket_path: Some(bytes("/tmp/a/herdr.sock")),
        state_home: Some(bytes("/state")),
        home: Some(bytes("/home/user")),
        plugin_event: Some("tab.focused".into()),
        workspace_id: Some("w1".into()),
        tab_id: Some("w1:t1".into()),
        pane_id: Some("w1:p1".into()),
    }
}

#[test]
fn shell_modes_require_only_safe_arguments() {
    assert_eq!(
        invocation_from(
            &strings(&["preexec", "--shell", "zsh", "--program", "nvim"]),
            None,
            Some("w1".into()),
            Some("w1:t1".into()),
            Some("w1:p1".into())
        )
        .unwrap(),
        Invocation::Preexec {
            pane_id: "w1:p1".into(),
            shell: "zsh".into(),
            program: Some("nvim".into())
        }
    );
    assert_eq!(
        invocation_from(
            &strings(&["precmd", "--shell", "bash", "--shell-pid", "42"]),
            None,
            Some("w1".into()),
            Some("w1:t1".into()),
            Some("w1:p1".into())
        )
        .unwrap(),
        Invocation::Precmd {
            pane_id: "w1:p1".into(),
            shell: "bash".into(),
            shell_pid: 42,
        }
    );
    assert!(
        invocation_from(
            &strings(&["preexec", "npm run secret"]),
            None,
            Some("w1".into()),
            Some("w1:t1".into()),
            Some("w1:p1".into())
        )
        .is_err()
    );
}

#[test]
fn toggle_uses_the_current_plugin_context() {
    assert_eq!(
        invocation_from(
            &strings(&["toggle"]),
            None,
            Some("w1".into()),
            Some("w1:t1".into()),
            Some("w1:p1".into())
        )
        .unwrap(),
        Invocation::Toggle {
            workspace_id: Some("w1".into()),
            tab_id: Some("w1:t1".into()),
        }
    );
}

#[test]
fn close_and_focus_events_have_precise_invocations() {
    assert_eq!(
        event_invocation(Some("tab.closed"), Some("w1".into()), Some("w1:t2".into())),
        Invocation::ClosedTab {
            workspace_id: Some("w1".into()),
            tab_id: Some("w1:t2".into())
        }
    );
    assert_eq!(
        event_invocation(
            Some("pane.focused"),
            Some("w1".into()),
            Some("w1:t2".into())
        ),
        Invocation::Tab {
            workspace_id: "w1".into(),
            tab_id: "w1:t2".into()
        }
    );
}

#[test]
fn rename_events_are_distinct_from_focus_refreshes() {
    assert_eq!(
        event_invocation(Some("tab.renamed"), Some("w1".into()), Some("w1:t2".into())),
        Invocation::RenamedTab {
            workspace_id: "w1".into(),
            tab_id: "w1:t2".into()
        }
    );
}

#[test]
fn pane_moves_reconcile_source_and_destination_through_a_full_pass() {
    assert_eq!(
        event_invocation(
            Some("pane.moved"),
            Some("destination".into()),
            Some("destination:t1".into())
        ),
        Invocation::Full
    );
}

#[test]
fn session_paths_are_stable_and_isolated() {
    let home = Some(bytes("/home/user"));
    let first = session_state_dir(&None, &home, &bytes("/tmp/a/herdr.sock")).unwrap();
    let same = session_state_dir(&None, &home, &bytes("/tmp/a/herdr.sock")).unwrap();
    let second = session_state_dir(&None, &home, &bytes("/tmp/b/herdr.sock")).unwrap();
    assert_eq!(first, same);
    assert_ne!(first, second);
}

#[test]
fn session_keys_are_the_start_of_the_digest() {
    assert_eq!(digest_key("0123456789abcdef0123"), "0123456789abcdef");
    assert_eq!(session_key_text(&bytes("abc")), "ba7816bf8f01cfea");
    assert_eq!(session_key_text(&Vec::new()), "e3b0c44298fc1c14");
    assert_eq!(
        session_state_dir(&Some(bytes("/state/")), &None, &bytes("abc")).unwrap(),
        bytes("/state/herdr-labels/ba7816bf8f01cfea")
    );
}

#[test]
fn the_state_home_takes_precedence_over_the_home_directory() {
    assert_eq!(
        state_base_dir(&Some(bytes("/state")), &Some(bytes("/home/user"))).unwrap(),
        bytes("/state/herdr-labels")
    );
    assert_eq!(
        state_base_dir(&None, &Some(bytes("/home/user"))).unwrap(),
        bytes("/home/user/.local/state/herdr-labels")
    );
    assert_eq!(
        state_base_dir(&None, &None).unwrap_err(),
        "HOME and XDG_STATE_HOME are not set"
    );
    assert_eq!(
        state_base_dir(&Some(bytes("state")), &None).unwrap_err(),
        "state base must be an absolute path"
    );
}

#[test]
fn structural_events_fall_back_to_a_wider_scope() {
    for event in [
        "tab.created",
        "tab.moved",
        "pane.closed",
        "pane.created",
        "pane.exited",
    ] {
        assert_eq!(
            event_invocation(Some(event), Some("w1".into()), Some("w1:t1".into())),
            Invocation::Workspace("w1".into())
        );
        assert_eq!(
            event_invocation(Some(event), None, Some("w1:t1".into())),
            Invocation::Full
        );
    }
    for event in ["tab.renamed", "tab.focused", "pane.focused"] {
        assert_eq!(
            event_invocation(Some(event), Some("w1".into()), None),
            Invocation::Workspace("w1".into())
        );
        assert_eq!(
            event_invocation(Some(event), None, Some("w1:t1".into())),
            Invocation::Full
        );
    }
    assert_eq!(
        event_invocation(Some("tab.unknown"), Some("w1".into()), None),
        Invocation::Full
    );
    assert_eq!(
        event_invocation(None, Some("w1".into()), None),
        Invocation::Full
    );
}

#[test]
fn hooks_report_what_they_lack() {
    assert_eq!(
        invocation_from(
            &strings(&["preexec", "--shell", "zsh", "--sample"]),
            None,
            None,
            None,
            Some("w1:p1".into())
        )
        .unwrap(),
        Invocation::Preexec {
            pane_id: "w1:p1".into(),
            shell: "zsh".into(),
            program: None,
        }
    );
    assert_eq!(
        invocation_from(
            &strings(&["preexec", "--shell", "zsh", "--sample"]),
            None,
            None,
            None,
            None
        )
        .unwrap_err(),
        "HERDR_PANE_ID is not set"
    );
    for pid in ["", "-1", "4x", "4294967296", "+"] {
        assert_eq!(
            invocation_from(
                &strings(&["precmd", "--shell", "zsh", "--shell-pid", pid]),
                None,
                None,
                None,
                Some("w1:p1".into())
            )
            .unwrap_err(),
            "--shell-pid must be an unsigned integer"
        );
    }
    for (pid, number) in [("+7", 7), ("007", 7), ("4294967295", u32::MAX)] {
        assert_eq!(
            invocation_from(
                &strings(&["precmd", "--shell", "zsh", "--shell-pid", pid]),
                None,
                None,
                None,
                Some("w1:p1".into())
            )
            .unwrap(),
            Invocation::Precmd {
                pane_id: "w1:p1".into(),
                shell: "zsh".into(),
                shell_pid: number,
            }
        );
    }
    assert_eq!(
        invocation_from(&strings(&["clear", "now"]), None, None, None, None).unwrap_err(),
        "invalid herdr-labels invocation"
    );
    assert_eq!(
        invocation_from(&strings(&["clear"]), None, None, None, None).unwrap(),
        Invocation::Clear
    );
    assert_eq!(
        invocation_from(&strings(&["reset"]), None, Some("w1".into()), None, None).unwrap(),
        Invocation::Reset {
            workspace_id: Some("w1".into()),
            tab_id: None,
        }
    );
}

#[test]
fn missing_values_are_named() {
    assert_eq!(required_value("NAME", Some("value".into())).unwrap(), "value");
    assert_eq!(required_value("NAME", None).unwrap_err(), "NAME is not set");
    assert_eq!(required_path("NAME", Some(bytes("/path"))).unwrap(), bytes("/path"));
    assert_eq!(required_path("NAME", None).unwrap_err(), "NAME is not set");
    assert_eq!(
        required_path("NAME", Some(bytes("path"))).unwrap_err(),
        "NAME must be an absolute path"
    );
}

#[test]
fn the_environment_configures_a_session() {
    let config = Config::from_env(environment(), &Vec::new()).unwrap();

    assert_eq!(config.socket_path, bytes("/tmp/a/herdr.sock"));
    assert_eq!(
        config.state_dir,
        session_state_dir(&Some(bytes("/state")), &None, &bytes("/tmp/a/herdr.sock")).unwrap()
    );
    assert_eq!(
        config.invocation,
        Invocation::Tab {
            workspace_id: "w1".into(),
            tab_id: "w1:t1".into(),
        }
    );
    assert_eq!(config.event.as_deref(), Some("tab.focused"));
    assert_eq!(config.event_workspace_id.as_deref(), Some("w1"));
    assert_eq!(config.event_tab_id.as_deref(), Some("w1:t1"));
    assert_eq!(config.event_pane_id.as_deref(), Some("w1:p1"));
    assert_eq!(config.settings, Settings::default());

    let mut unset = environment();
    unset.socket_path = None;
    assert_eq!(
        Config::from_env(unset, &Vec::new()).unwrap_err(),
        "HERDR_SOCKET_PATH is not set"
    );
    let mut homeless = environment();
    homeless.state_home = None;
    homeless.home = None;
    assert_eq!(
        Config::from_env(homeless, &Vec::new()).unwrap_err(),
        "HOME and XDG_STATE_HOME are not set"
    );
    assert_eq!(
        Config::from_env(environment(), &strings(&["unknown"])).unwrap_err(),
        "invalid herdr-labels invocation"
    );
}

#[test]
fn clearing_works_with_malformed_settings() {
    let clear = Config::from_env(environment(), &strings(&["clear"])).unwrap();
    assert!(!clear.needs_settings());
    let clear = clear.with_settings(Err("malformed".into())).unwrap();
    assert_eq!(clear.settings, Settings::default());

    let focus = Config::from_env(environment(), &Vec::new()).unwrap();
    assert!(focus.needs_settings());
    assert_eq!(focus.with_settings(Err("malformed".into())).unwrap_err(), "malformed");

    let mut settings = Settings::default();
    settings.number_tabs = false;
    let focus = Config::from_env(environment(), &Vec::new()).unwrap();
    assert!(!focus.with_settings(Ok(settings)).unwrap().settings.number_tabs);
}
