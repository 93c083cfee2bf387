use herdr_labels::herdr::{PaneProcessInfo, ProcessInfo};
use herdr_labels::process_selection::{
    process_group_matches_program, representative_process, representative_process_with_trace,
    representative_process_with_trace_mode,
};
use herdr_labels::settings::{naming_policy, Settings};

#[test]
fn process_group_leader_is_required() {
    let info = PaneProcessInfo {
        foreground_process_group_id: Some(4),
        foreground_processes: vec![ProcessInfo {
            pid: 3,
            name: "nvim".into(),
            argv0: None,
            argv: None,
        }],
    };
    assert!(info.leader().is_none());
}

#[test]
fn a_non_shell_child_wins_over_a_shell_script_group_leader() {
    let policy = naming_policy(&Settings::default());
    let info = PaneProcessInfo {
        foreground_process_group_id: Some(7),
        foreground_processes: vec![
            ProcessInfo {
                pid: 8,
                name: "opencode".into(),
                argv0: Some("opencode".into()),
                argv: None,
            },
            ProcessInfo {
                pid: 7,
                name: "zsh".into(),
                argv0: Some("zsh".into()),
                argv: Some(vec!["zsh".into(), "opencode-env".into()]),
            },
        ],
    };
    assert_eq!(
        representative_process(&info, &policy, None)
            .unwrap()
            .program(),
        "opencode"
    );
}

#[test]
fn ignored_child_is_skipped_and_shell_leader_is_selected() {
    let mut settings = Settings::default();
    settings.ignored_processes.push("starship".into());
    let policy = naming_policy(&settings);
    let info = PaneProcessInfo {
        foreground_process_group_id: Some(7),
        foreground_processes: vec![
            ProcessInfo {
                pid: 8,
                name: "starship".into(),
                argv0: Some("starship".into()),
                argv: None,
            },
            ProcessInfo {
                pid: 7,
                name: "zsh".into(),
                argv0: Some("zsh".into()),
                argv: None,
            },
        ],
    };

    let selection = representative_process_with_trace(&info, &policy, None).unwrap();
    assert_eq!(selection.process.program(), "zsh");
    assert_eq!(selection.reason, "shell_leader_fallback");
    assert_eq!(
        selection
            .ignored_processes
            .iter()
            .map(|process| process.program())
            .collect::<Vec<_>>(),
        ["starship"]
    );
    let naming_only = representative_process_with_trace_mode(&info, &policy, None, false).unwrap();
    assert!(naming_only.ignored_processes.is_empty());
}

#[test]
fn ignored_non_shell_leader_is_skipped_for_a_later_usable_child() {
    let policy = naming_policy(&Settings::default());
    let info = PaneProcessInfo {
        foreground_process_group_id: Some(7),
        foreground_processes: vec![
            ProcessInfo {
                pid: 7,
                name: "git".into(),
                argv0: Some("git".into()),
                argv: Some(vec!["git".into(), "status".into()]),
            },
            ProcessInfo {
                pid: 8,
                name: "nvim".into(),
                argv0: Some("nvim".into()),
                argv: None,
            },
        ],
    };

    let selection = representative_process_with_trace(&info, &policy, None).unwrap();
    assert_eq!(selection.process.program(), "nvim");
    assert_eq!(selection.reason, "foreground");
}

#[test]
fn a_launched_binary_wins_over_its_node_launcher() {
    let policy = naming_policy(&Settings::default());
    let info = PaneProcessInfo {
        foreground_process_group_id: Some(7),
        foreground_processes: vec![
            ProcessInfo {
                pid: 8,
                name: "codex".into(),
                argv0: Some("codex".into()),
                argv: Some(vec!["/opt/codex/bin/codex".into()]),
            },
            ProcessInfo {
                pid: 7,
                name: "node".into(),
                argv0: Some("node".into()),
                argv: Some(vec!["node".into(), "/usr/local/bin/codex".into()]),
            },
        ],
    };
    assert_eq!(
        representative_process(&info, &policy, None)
            .unwrap()
            .program(),
        "codex"
    );
}

#[test]
fn a_recognized_agent_wins_over_its_descendant_processes() {
    let policy = naming_policy(&Settings::default());
    let info = PaneProcessInfo {
        foreground_process_group_id: Some(7),
        foreground_processes: vec![
            ProcessInfo {
                pid: 10,
                name: "Python".into(),
                argv0: Some("Python".into()),
                argv: Some(vec!["Python".into(), "run-host.py".into()]),
            },
            ProcessInfo {
                pid: 9,
                name: "bash".into(),
                argv0: Some("bash".into()),
                argv: Some(vec!["bash".into(), "run-with-ui.sh".into()]),
            },
            ProcessInfo {
                pid: 8,
                name: "opencode".into(),
                argv0: Some("opencode".into()),
                argv: Some(vec!["opencode".into()]),
            },
            ProcessInfo {
                pid: 7,
                name: "zsh".into(),
                argv0: Some("zsh".into()),
                argv: Some(vec!["zsh".into(), "opencode-env".into()]),
            },
        ],
    };

    assert_eq!(
        representative_process(&info, &policy, Some("opencode"))
            .unwrap()
            .program(),
        "opencode"
    );
}

#[test]
fn launcher_arguments_verify_a_program_before_its_child_appears() {
    let policy = naming_policy(&Settings::default());
    let info = PaneProcessInfo {
        foreground_process_group_id: Some(7),
        foreground_processes: vec![ProcessInfo {
            pid: 7,
            name: "node".into(),
            argv0: Some("node".into()),
            argv: Some(vec!["node".into(), "/usr/local/bin/codex".into()]),
        }],
    };
    assert!(process_group_matches_program(&info, "codex", &policy));
}

fn process(pid: u32, name: &str, argv0: Option<&str>, argv: &[&str]) -> ProcessInfo {
    ProcessInfo {
        pid,
        name: name.into(),
        argv0: argv0.map(str::to_owned),
        argv: if argv.is_empty() {
            None
        } else {
            Some(argv.iter().map(|argument| (*argument).to_owned()).collect())
        },
    }
}

fn foreground(group: Option<u32>, processes: Vec<ProcessInfo>) -> PaneProcessInfo {
    PaneProcessInfo {
        foreground_process_group_id: group,
        foreground_processes: processes,
    }
}

#[test]
fn the_program_prefers_what_was_invoked() {
    assert_eq!(process(1, "node", Some("/bin/codex"), &["other"]).program(), "/bin/codex");
    assert_eq!(process(1, "node", Some(""), &["codex"]).program(), "codex");
    assert_eq!(process(1, "node", None, &["", "codex"]).program(), "node");
    assert_eq!(process(1, "node", None, &[]).program(), "node");
}

#[test]
fn without_a_leader_nothing_represents_a_pane() {
    let policy = naming_policy(&Settings::default());
    let no_group = foreground(None, vec![process(7, "nvim", None, &[])]);
    assert!(representative_process(&no_group, &policy, None).is_none());
    assert!(!process_group_matches_program(&no_group, "codex", &policy));
}

#[test]
fn ignored_processes_never_represent_a_pane() {
    let policy = naming_policy(&Settings::default());
    let info = foreground(
        Some(7),
        vec![
            process(7, "git", None, &[]),
            process(8, "scutil", None, &[]),
        ],
    );
    assert!(representative_process_with_trace(&info, &policy, None).is_none());
}
