use std::collections::HashMap;

use herdr_labels::config::Invocation;
use herdr_labels::herdr::{PaneInfo, PaneProcessInfo, ProcessInfo, SessionSnapshot, SessionTab};
use herdr_labels::naming::NamingPolicy;
use herdr_labels::numbering::Tab;
use herdr_labels::process_selection::representative_process_with_trace_mode;
use herdr_labels::settings::{naming_policy, Settings};
use herdr_labels::state::{State, TabOwnership};
use herdr_labels::tab_decision::TabTelemetry;
use herdr_labels::tab_naming::{computed_name, computed_name_with_trace, naming_query};
use herdr_labels::tab_reconciliation::{
    complete_rename, guard_rename, name_tab, reconcile_tab, GuardStep, TabContext, TabStep,
};
use herdr_labels::tab_trace::{rejection_reason, trace_selection};

struct FakeClient {
    processes: HashMap<String, PaneProcessInfo>,
}

impl FakeClient {
    fn pane_process_info(&self, pane_id: &str) -> Result<PaneProcessInfo, String> {
        self.processes
            .get(pane_id)
            .cloned()
            .ok_or_else(|| format!("missing process fixture for {pane_id}"))
    }
}

fn observed_name(
    client: &FakeClient,
    session: &SessionSnapshot,
    tab: &SessionTab,
    invocation: &Invocation,
    policy: &NamingPolicy,
    fallback_shell: &str,
    telemetry: &mut TabTelemetry,
) -> Option<String> {
    let pane_id = naming_query(session, tab, invocation, telemetry)?;
    let observed = client.pane_process_info(&pane_id);
    computed_name(
        session,
        tab,
        invocation,
        policy,
        fallback_shell,
        observed,
        telemetry,
    )
}

fn tab() -> SessionTab {
    SessionTab {
        tab: Tab {
            tab_id: "w1:t1".into(),
            workspace_id: "w1".into(),
            label: "[1] bash".into(),
        },
        focused: false,
        pane_count: 1,
    }
}

fn snapshot(tab: SessionTab) -> SessionSnapshot {
    SessionSnapshot {
        focused_pane_id: None,
        tabs: vec![tab],
        panes: vec![PaneInfo {
            pane_id: "w1:t1:pane".into(),
            tab_id: "w1:t1".into(),
            agent: None,
        }],
    }
}

fn process_info(program: &str) -> PaneProcessInfo {
    PaneProcessInfo {
        foreground_process_group_id: Some(7),
        foreground_processes: vec![ProcessInfo {
            pid: 7,
            name: program.into(),
            argv0: Some(program.into()),
            argv: None,
        }],
    }
}

#[test]
fn ignored_preexec_uses_the_hook_shell_not_the_login_shell() {
    let session_tab = tab();
    let session = snapshot(session_tab.clone());
    let client = FakeClient {
        processes: HashMap::from([("w1:t1:pane".into(), process_info("git"))]),
    };
    let mut telemetry = TabTelemetry::Off;
    let policy = naming_policy(&Settings::default());
    let invocation = Invocation::Preexec {
        pane_id: "w1:t1:pane".into(),
        shell: "bash".into(),
        program: Some("git".into()),
    };

    assert_eq!(
        observed_name(
            &client,
            &session,
            &session_tab,
            &invocation,
            &policy,
            "zsh",
            &mut telemetry,
        ),
        Some("bash".into())
    );
}

#[test]
fn ambient_ignored_program_does_not_guess_the_active_shell() {
    let session_tab = tab();
    let session = snapshot(session_tab.clone());
    let client = FakeClient {
        processes: HashMap::from([("w1:t1:pane".into(), process_info("git"))]),
    };
    let mut telemetry = TabTelemetry::Off;
    let policy = naming_policy(&Settings::default());

    assert_eq!(
        observed_name(
            &client,
            &session,
            &session_tab,
            &Invocation::Full,
            &policy,
            "zsh",
            &mut telemetry,
        ),
        None
    );
}

#[test]
fn unchanged_owned_label_preserves_a_naming_rejection_outcome() {
    let session_tab = tab();
    let session = snapshot(session_tab.clone());
    let client = FakeClient {
        processes: HashMap::from([("w1:t1:pane".into(), process_info("git"))]),
    };
    let policy = naming_policy(&Settings::default());
    let mut telemetry = TabTelemetry::Recording(Box::default());

    assert_eq!(
        observed_name(
            &client,
            &session,
            &session_tab,
            &Invocation::Full,
            &policy,
            "zsh",
            &mut telemetry,
        ),
        None
    );
    telemetry.set_unchanged_outcome(true);

    let decision = telemetry.recording_mut();
    assert_eq!(
        decision.rejection_reason.as_deref(),
        Some("no_representative_process")
    );
    assert_eq!(
        decision.outcome.as_deref(),
        Some("no_representative_process")
    );
}

#[test]
fn ignored_selection_is_recorded_only_when_trace_is_enabled() {
    let mut settings = Settings::default();
    settings.ignored_processes.push("starship".into());
    let policy = naming_policy(&settings);
    let session_tab = tab();
    let session = snapshot(session_tab.clone());
    let client = FakeClient {
        processes: HashMap::from([(
            "w1:t1:pane".into(),
            PaneProcessInfo {
                foreground_process_group_id: Some(7),
                foreground_processes: vec![
                    ProcessInfo {
                        pid: 8,
                        name: "starship".into(),
                        argv0: Some("starship".into()),
                        argv: None,
                    },
                    ProcessInfo {
                        pid: 7,
                        name: "zsh".into(),
                        argv0: Some("zsh".into()),
                        argv: None,
                    },
                ],
            },
        )]),
    };
    let mut telemetry = TabTelemetry::Recording(Box::default());

    let name = observed_name(
        &client,
        &session,
        &session_tab,
        &Invocation::Full,
        &policy,
        "zsh",
        &mut telemetry,
    );

    assert_eq!(name.as_deref(), Some("zsh"));
    assert_eq!(
        telemetry
            .recording_mut()
            .representative_selection
            .as_deref(),
        Some("shell_leader_fallback")
    );
    assert_eq!(telemetry.recording_mut().ignored_processes_skipped.len(), 1);
    assert_eq!(
        telemetry.recording_mut().ignored_processes_skipped[0].executable_basename,
        "starship"
    );
}

#[test]
fn the_selections_own_processes_are_recorded() {
    let policy = naming_policy(&Settings::default());
    let process = |pid: u32, name: &str| ProcessInfo {
        pid,
        name: name.into(),
        argv0: Some(name.into()),
        argv: None,
    };
    let info = PaneProcessInfo {
        foreground_process_group_id: Some(7),
        foreground_processes: vec![process(8, "direnv"), process(7, "zsh"), process(9, "git")],
    };
    let recorded = |collected: bool| {
        let mut telemetry = TabTelemetry::Recording(Box::default());
        let selection =
            representative_process_with_trace_mode(&info, &policy, None, collected).unwrap();
        trace_selection(&mut telemetry, &selection);
        let record = telemetry.recording_mut();
        assert_eq!(record.representative_selection.as_deref(), Some("shell_leader_fallback"));
        assert_eq!(record.representative_process.as_ref().unwrap().pid, 7);
        record
            .ignored_processes_skipped
            .iter()
            .map(|identity| identity.executable_basename.clone())
            .collect::<Vec<_>>()
    };

    assert_eq!(recorded(true), ["direnv", "git"]);
    assert!(recorded(false).is_empty());

    let mut listed = TabTelemetry::Recording(Box::default());
    listed.record_representative_selection(&info.foreground_processes[1], "leader", &info, &policy);
    assert_eq!(listed.recording_mut().ignored_processes_skipped.len(), 2);
}

struct Fixture {
    session: SessionSnapshot,
    settings: Settings,
    policy: NamingPolicy,
    invocation: Invocation,
}

impl Fixture {
    fn new(label: &str, invocation: Invocation) -> Self {
        let mut session_tab = tab();
        session_tab.tab.label = label.into();
        let settings = Settings::default();
        Fixture {
            session: snapshot(session_tab),
            policy: naming_policy(&settings),
            settings,
            invocation,
        }
    }

    fn context(&self) -> TabContext<'_> {
        TabContext {
            snapshot: &self.session,
            tab: &self.session.tabs[0],
            position: 1,
            invocation: &self.invocation,
            settings: &self.settings,
            policy: &self.policy,
            fallback_shell: "zsh",
        }
    }
}

fn prompt() -> Invocation {
    Invocation::Precmd {
        pane_id: "w1:t1:pane".into(),
        shell: "zsh".into(),
        shell_pid: 7,
    }
}

#[test]
fn a_rename_is_recorded_before_it_is_sent_and_owned_after() {
    let fixture = Fixture::new("1", prompt());
    let context = fixture.context();
    let mut state = State::load(None).unwrap();
    let mut telemetry = TabTelemetry::Off;

    let step = reconcile_tab(&context, &mut state, &mut telemetry);
    let ownership = match step {
        TabStep::Observe { pane_id, ownership } => {
            assert_eq!(pane_id, "w1:t1:pane");
            ownership
        }
        _ => panic!("the processes of the pane are needed"),
    };
    let step = name_tab(
        &context,
        ownership,
        Ok(process_info("zsh")),
        &mut state,
        &mut telemetry,
    );
    let plan = match step {
        TabStep::Guard(plan) => plan,
        _ => panic!("the tab is to be renamed"),
    };
    assert_eq!(plan.desired, "[1] zsh");
    assert_eq!(plan.desired_base, "zsh");
    assert!(matches!(
        state.ownership("w1:t1"),
        Some(TabOwnership::PendingRename { desired, .. }) if desired == "[1] zsh"
    ));
    let current = fixture.session.tabs[0].tab.clone();
    let guard = guard_rename(&context, &plan, Ok(Some(current)), &mut state, &mut telemetry);
    assert!(matches!(guard, GuardStep::Rename));
    complete_rename(&context, plan, &Ok(()), &mut state, &mut telemetry);
    assert_eq!(
        state.ownership("w1:t1"),
        Some(&TabOwnership::Owned {
            last_base: "zsh".into(),
            last_rendered: "[1] zsh".into(),
        })
    );
}

#[test]
fn a_label_that_changed_meanwhile_is_not_overwritten() {
    let fixture = Fixture::new("1", prompt());
    let context = fixture.context();
    let mut state = State::load(None).unwrap();
    let mut telemetry = TabTelemetry::Off;
    let ownership = match reconcile_tab(&context, &mut state, &mut telemetry) {
        TabStep::Observe { ownership, .. } => ownership,
        _ => panic!("the processes of the pane are needed"),
    };
    let plan = match name_tab(
        &context,
        ownership,
        Ok(process_info("zsh")),
        &mut state,
        &mut telemetry,
    ) {
        TabStep::Guard(plan) => plan,
        _ => panic!("the tab is to be renamed"),
    };
    let mut current = fixture.session.tabs[0].tab.clone();
    current.label = "typed by hand".into();
    let guard = guard_rename(&context, &plan, Ok(Some(current)), &mut state, &mut telemetry);
    assert!(matches!(guard, GuardStep::Stale));
    assert_eq!(state.ownership("w1:t1"), Some(&TabOwnership::Manual));
}

#[test]
fn an_owned_label_that_is_still_right_is_settled() {
    let fixture = Fixture::new("[1] zsh", prompt());
    let context = fixture.context();
    let owned = TabOwnership::Owned {
        last_base: "zsh".into(),
        last_rendered: "[1] zsh".into(),
    };
    let mut state = State::load(None).unwrap();
    state.set_ownership("w1:t1", owned.clone());
    let mut telemetry = TabTelemetry::Off;
    let ownership = match reconcile_tab(&context, &mut state, &mut telemetry) {
        TabStep::Observe { ownership, .. } => ownership,
        _ => panic!("the processes of the pane are needed"),
    };
    let step = name_tab(
        &context,
        ownership,
        Ok(process_info("zsh")),
        &mut state,
        &mut telemetry,
    );
    assert!(matches!(step, TabStep::Settled));
    assert_eq!(state.ownership("w1:t1"), Some(&owned));
}

#[test]
fn rejections_name_the_ownership() {
    assert_eq!(rejection_reason(Some(&TabOwnership::Manual)), "manual_ownership");
    assert_eq!(
        rejection_reason(Some(&TabOwnership::AutomaticDisabled)),
        "automatic_disabled"
    );
}

#[test]
fn an_unobservable_pane_gives_no_name() {
    let session_tab = tab();
    let session = snapshot(session_tab.clone());
    let policy = naming_policy(&Settings::default());
    let client = FakeClient {
        processes: HashMap::new(),
    };
    let mut telemetry = TabTelemetry::Recording(Box::default());
    assert_eq!(
        observed_name(
            &client,
            &session,
            &session_tab,
            &Invocation::Full,
            &policy,
            "zsh",
            &mut telemetry,
        ),
        None
    );
    assert_eq!(
        telemetry.recording_mut().process_error.as_deref(),
        Some("missing process fixture for w1:t1:pane")
    );
}

#[test]
fn shell_only_naming_rejects_other_programs() {
    let session_tab = tab();
    let session = snapshot(session_tab.clone());
    let policy = naming_policy(&Settings::default());
    let named = |program: &str, shell_only: bool, telemetry: &mut TabTelemetry| {
        computed_name_with_trace(
            &session,
            &session_tab,
            &Invocation::Full,
            &policy,
            "zsh",
            shell_only,
            Ok(process_info(program)),
            telemetry,
        )
    };
    let mut telemetry = TabTelemetry::Recording(Box::default());
    assert_eq!(named("bash", true, &mut telemetry), Some("bash".into()));
    assert_eq!(named("nvim", false, &mut telemetry), Some("nvim".into()));
    assert_eq!(named("nvim", true, &mut telemetry), None);
    assert_eq!(
        telemetry.recording_mut().rejection_reason.as_deref(),
        Some("representative_not_shell")
    );
}
