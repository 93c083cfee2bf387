use herdr_labels::config::{Config, Invocation};
use herdr_labels::herdr::{PaneInfo, PaneProcessInfo, ProcessInfo, SessionSnapshot, SessionTab};
use herdr_labels::numbering::Tab;
use herdr_labels::process_record::{basename, ProcessRecord};
use herdr_labels::settings::Settings;
use herdr_labels::tab_decision::TabDecisionRecord;
use herdr_labels::telemetry::{
    invocation_tab, invocation_workspace, monotonic_ns, telemetry_from_config,
    telemetry_from_invocation, terminal_outcome, DecisionRecord, Telemetry,
};

fn config(invocation: Invocation, event: Option<&str>) -> Config {
    let settings = Settings {
        diagnostic_telemetry: true,
        ..Settings::default()
    };
    Config {
        socket_path: b"unused.sock".to_vec(),
        state_dir: b"unused-state".to_vec(),
        settings,
        invocation,
        event: event.map(str::to_owned),
        event_workspace_id: Some("w1".into()),
        event_tab_id: Some("w1:t1".into()),
        event_pane_id: Some("w1:t1:closed".into()),
    }
}

fn snapshot() -> SessionSnapshot {
    SessionSnapshot {
        focused_pane_id: Some("w1:t1:survivor".into()),
        tabs: vec![SessionTab {
            tab: Tab {
                tab_id: "w1:t1".into(),
                workspace_id: "w1".into(),
                label: "[1] ai board".into(),
            },
            focused: true,
            pane_count: 1,
        }],
        panes: vec![PaneInfo {
            pane_id: "w1:t1:survivor".into(),
            tab_id: "w1:t1".into(),
            agent: None,
        }],
    }
}

#[test]
fn closed_event_record_keeps_context_and_exact_snapshot() {
    let invocation = Invocation::ClosedPane {
        workspace_id: "w1".into(),
        pane_id: "w1:t1:closed".into(),
    };
    let config = config(invocation, Some("pane.closed"));
    let mut record = DecisionRecord::from_config(&config, 5).unwrap();

    record.record_snapshot(&snapshot(), &vec!["w1:t1".into()]);

    assert_eq!(record.trigger, "pane.closed");
    assert_eq!(record.event_pane_id.as_deref(), Some("w1:t1:closed"));
    assert_eq!(record.event_tab_id.as_deref(), Some("w1:t1"));
    assert_eq!(record.available_tab_ids, ["w1:t1"]);
    assert_eq!(record.snapshot.as_ref().unwrap().tabs[0].pane_count, 1);
    assert_eq!(
        record.snapshot.as_ref().unwrap().closed_pane_present,
        Some(false)
    );
}

#[test]
fn deferred_close_record_uses_the_consumed_request_context() {
    let holder = config(
        Invocation::Tab {
            workspace_id: "holder".into(),
            tab_id: "holder:t1".into(),
        },
        Some("tab.focused"),
    );
    let request = Invocation::ClosedPane {
        workspace_id: "deferred".into(),
        pane_id: "deferred:t2:closed".into(),
    };

    let record = DecisionRecord::from_invocation(&holder, &request, 5).unwrap();

    assert_eq!(record.trigger, "pane.closed");
    assert_eq!(record.workspace_id.as_deref(), Some("deferred"));
    assert_eq!(record.event_pane_id.as_deref(), Some("deferred:t2:closed"));
    assert_eq!(record.event_tab_id, None);
    assert_eq!(record.target_scope.kind, "workspace");
}

#[test]
fn focus_control_record_is_distinct_and_parseable() {
    let invocation = Invocation::Tab {
        workspace_id: "w1".into(),
        tab_id: "w1:t1".into(),
    };
    let config = config(invocation, Some("tab.focused"));
    let mut record = DecisionRecord::from_config(&config, 5).unwrap();
    record.finish(&Ok(()), 9);

    assert_eq!(record.record_type, "herdr_labels_decision");
    assert_eq!(record.trigger, "tab.focused");
    assert_eq!(record.terminal_outcome, "no_candidate_tabs");
}

#[test]
fn process_record_exposes_only_safe_process_identity() {
    let info = PaneProcessInfo {
        foreground_process_group_id: Some(7),
        foreground_processes: vec![ProcessInfo {
            pid: 7,
            name: "/bin/zsh".into(),
            argv0: Some("/bin/zsh".into()),
            argv: Some(vec!["zsh".into(), "--secret-token".into()]),
        }],
    };

    let record = ProcessRecord::from_info("w1:t1:survivor", &info);
    let text = format!("{record:?}");

    assert!(!text.contains("secret-token"));
    let leader = record.leader.as_ref().unwrap();
    assert_eq!(leader.executable_basename, "zsh");
    assert_eq!(leader.argv0_basename.as_deref(), Some("zsh"));
}

fn decision(outcome: Option<&str>) -> TabDecisionRecord {
    let mut decision = TabDecisionRecord::default();
    decision.outcome = outcome.map(str::to_owned);
    decision
}

#[test]
fn nothing_is_recorded_unless_asked_for() {
    let mut config = config(Invocation::Full, Some("pane.closed"));
    assert!(telemetry_from_config(&config, 1).is_recording());
    config.settings.diagnostic_telemetry = false;
    assert!(!telemetry_from_config(&config, 1).is_recording());
    let closed = Invocation::ClosedPane {
        workspace_id: "w1".into(),
        pane_id: "w1:p1".into(),
    };
    assert!(!telemetry_from_invocation(&config, &closed, 1).is_recording());
    let mut silent = Telemetry::Off;
    silent.record_lock_attempt("try", "busy", 1);
    silent.record_handoff("busy");
    silent.set_terminal_outcome("lock_dropped");
    assert_eq!(silent.finish_and_emit(&Ok(()), 1), None);
}

#[test]
fn unrelated_invocations_are_not_recorded() {
    let renamed = config(
        Invocation::RenamedTab {
            workspace_id: "w1".into(),
            tab_id: "w1:t1".into(),
        },
        Some("tab.renamed"),
    );
    assert!(!telemetry_from_config(&renamed, 1).is_recording());
    assert!(DecisionRecord::from_invocation(&renamed, &Invocation::Full, 1).is_none());
}

#[test]
fn a_record_is_emitted_once_with_its_result() {
    let config = config(Invocation::Full, Some("pane.closed"));
    let mut telemetry = telemetry_from_config(&config, 3);
    telemetry.record_lock_attempt("try", "busy", 12);
    telemetry.record_rerun_requested();
    telemetry.record_handoff("queued");
    let record = telemetry
        .finish_and_emit(&Err("socket closed".into()), 8)
        .unwrap();
    assert_eq!(record.started_monotonic_ns, 3);
    assert_eq!(record.finished_monotonic_ns, Some(8));
    assert_eq!(record.lock.attempts.len(), 1);
    assert_eq!(record.lock.attempts[0].phase, "try");
    assert_eq!(record.lock.attempts[0].result, "busy");
    assert_eq!(record.lock.attempts[0].wait_ns, 12);
    assert!(record.rerun.requested);
    assert_eq!(record.rerun.handoff, "queued");
    assert_eq!(record.process_error.as_deref(), Some("socket closed"));
    assert!(!telemetry.is_recording());
    assert_eq!(telemetry.finish_and_emit(&Ok(()), 9), None);
}

#[test]
fn a_terminal_outcome_is_kept_when_the_record_is_closed() {
    let config = config(Invocation::Full, Some("pane.closed"));
    let mut telemetry = telemetry_from_config(&config, 3);
    telemetry.set_terminal_outcome("lock_dropped");
    let record = telemetry.finish_and_emit(&Ok(()), 4).unwrap();
    assert_eq!(record.terminal_outcome, "lock_dropped");
}

#[test]
fn invocations_name_their_workspace_and_tab() {
    let tab = Invocation::Tab {
        workspace_id: "w1".into(),
        tab_id: "w1:t1".into(),
    };
    assert_eq!(invocation_workspace(&tab).as_deref(), Some("w1"));
    assert_eq!(invocation_tab(&tab).as_deref(), Some("w1:t1"));
    assert_eq!(
        invocation_workspace(&Invocation::Workspace("w2".into())).as_deref(),
        Some("w2")
    );
    assert_eq!(invocation_workspace(&Invocation::Full), None);
    assert_eq!(invocation_tab(&Invocation::Full), None);
}

#[test]
fn tab_outcomes_become_the_terminal_outcome() {
    assert_eq!(terminal_outcome(&Vec::new()), "no_candidate_tabs");
    assert_eq!(terminal_outcome(&vec![decision(None)]), "no_candidate_tabs");
    assert_eq!(terminal_outcome(&vec![decision(Some("renamed"))]), "renamed");
    assert_eq!(
        terminal_outcome(&vec![
            decision(Some("unchanged")),
            decision(Some("renamed")),
            decision(None),
            decision(Some("unchanged")),
        ]),
        "multiple:renamed,unchanged"
    );
}

#[test]
fn recorded_times_saturate() {
    assert_eq!(monotonic_ns(17), 17);
    assert_eq!(monotonic_ns(u128::MAX), u64::MAX);
}

#[test]
fn basenames_are_the_last_path_component() {
    assert_eq!(basename("/usr/bin/zsh"), "zsh");
    assert_eq!(basename("zsh"), "zsh");
    for path in [
        "", "/", ".", "..", "a/..", "a/.", "./.", "a//b//", "a/./", "/.", "//.", "a/b/./.", ".a",
        "../x", "x/../", "caf\u{e9}/\u{732b}",
    ] {
        let name = std::path::Path::new(path)
            .file_name()
            .and_then(|name| name.to_str())
            .unwrap_or(path);
        assert_eq!(basename(path), name);
    }
}
