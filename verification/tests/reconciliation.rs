use std::collections::HashMap;

use herdr_labels::config::{Config, Invocation};
use herdr_labels::herdr::{PaneInfo, PaneProcessInfo, ProcessInfo, SessionSnapshot, SessionTab};
use herdr_labels::numbering::Tab;
use herdr_labels::reconciliation::{
    fallback_shell, pane_matches_program, recover_pending, run_pass_with_telemetry,
    toggle_ownership, PassStep,
};
use herdr_labels::settings::Settings;
use herdr_labels::state::{PersistedState, State, TabOwnership};
use herdr_labels::telemetry::{telemetry_from_config, Telemetry};

/// The stored state of one session.
struct Store(Option<PersistedState>);

impl Store {
    fn new() -> Self {
        Store(None)
    }

    fn load(&self) -> State {
        let stored = self.0.as_ref().map(|stored| PersistedState {
            version: stored.version,
            suspended: stored.suspended,
            tabs: stored.tabs.clone(),
            pane_tabs: stored.pane_tabs.clone(),
        });
        State::load(stored).unwrap()
    }

    fn persist(&mut self, state: &State) {
        self.0 = Some(state.persisted());
    }

    /// What is stored, in the order of the keys.
    fn contents(&self) -> PersistedState {
        let mut contents = self.load().persisted();
        contents.tabs.sort_by(|first, second| first.0.cmp(&second.0));
        contents.pane_tabs.sort();
        contents
    }
}

fn pass_with(
    config: &Config,
    invocation: &Invocation,
    client: &mut FakeClient,
    store: &mut Store,
    telemetry: Telemetry,
) -> (Result<(), String>, Telemetry) {
    let mut step = herdr_labels::reconciliation::run_pass(
        config.settings.clone(),
        invocation.clone(),
        fallback_shell(Some("/bin/zsh")),
        store.load(),
        telemetry,
    );
    loop {
        step = match step {
            PassStep::Persist(step) => {
                store.persist(step.state());
                step.resume(Ok(()))
            }
            PassStep::Snapshot(step) => step.resume(client.snapshot()),
            PassStep::Process(step) => {
                let observed = client.pane_process_info(step.pane_id());
                step.resume(observed)
            }
            PassStep::ReadTab(step) => {
                let latest = client.get_tab(step.tab_id());
                step.resume(latest)
            }
            PassStep::Rename(step) => {
                let result = client.rename_tab(step.tab_id(), step.label());
                step.resume(result)
            }
            PassStep::ClearSnapshot(step) => step.resume(client.snapshot()),
            PassStep::ClearReadTab(step) => {
                let latest = client.get_tab(step.tab_id());
                step.resume(latest)
            }
            PassStep::ClearRename(step) => {
                let result = client.rename_tab(step.tab_id(), step.label());
                step.resume(result)
            }
            PassStep::Finished(finished) => {
                return (finished.result, finished.pass.telemetry);
            }
        };
    }
}

fn run_pass(
    config: &Config,
    invocation: &Invocation,
    client: &mut FakeClient,
    store: &mut Store,
) -> Result<(), String> {
    pass_with(config, invocation, client, store, Telemetry::Off).0
}

struct FakeClient {
    snapshot: SessionSnapshot,
    current: HashMap<String, Tab>,
    processes: HashMap<String, PaneProcessInfo>,
    process_queries: Vec<String>,
    renamed: Vec<(String, String)>,
    get_error: Option<String>,
    rename_error: Option<String>,
}

impl FakeClient {
    fn new(snapshot: SessionSnapshot, programs: &[(&str, &str)]) -> Self {
        let current = snapshot
            .tabs
            .iter()
            .map(|tab| (tab.tab.tab_id.clone(), tab.tab.clone()))
            .collect();
        let processes = programs
            .iter()
            .map(|(pane, program)| ((*pane).to_owned(), process_info(program)))
            .collect();
        Self {
            snapshot,
            current,
            processes,
            process_queries: Vec::new(),
            renamed: Vec::new(),
            get_error: None,
            rename_error: None,
        }
    }

    fn snapshot(&mut self) -> Result<SessionSnapshot, String> {
        Ok(self.snapshot.clone())
    }

    fn get_tab(&mut self, tab_id: &str) -> Result<Option<Tab>, String> {
        if let Some(error) = &self.get_error {
            return Err(error.clone());
        }
        Ok(self.current.get(tab_id).cloned())
    }

    fn rename_tab(&mut self, tab_id: &str, label: &str) -> Result<(), String> {
        if let Some(error) = &self.rename_error {
            return Err(error.clone());
        }
        self.renamed.push((tab_id.to_owned(), label.to_owned()));
        if let Some(tab) = self.current.get_mut(tab_id) {
            tab.label = label.to_owned();
        }
        Ok(())
    }

    fn pane_process_info(&mut self, pane_id: &str) -> Result<PaneProcessInfo, String> {
        self.process_queries.push(pane_id.to_owned());
        self.processes
            .get(pane_id)
            .cloned()
            .ok_or_else(|| format!("missing process fixture for {pane_id}"))
    }
}

fn process_info(program: &str) -> PaneProcessInfo {
    PaneProcessInfo {
        foreground_process_group_id: Some(7),
        foreground_processes: vec![ProcessInfo {
            pid: 7,
            name: program.to_owned(),
            argv0: Some(program.to_owned()),
            argv: None,
        }],
    }
}

fn tab(id: &str, workspace: &str, label: &str, focused: bool) -> SessionTab {
    SessionTab {
        tab: Tab {
            tab_id: id.into(),
            workspace_id: workspace.into(),
            label: label.into(),
        },
        focused,
        pane_count: 1,
    }
}

fn snapshot(tabs: Vec<SessionTab>) -> SessionSnapshot {
    let panes = tabs
        .iter()
        .map(|tab| PaneInfo {
            pane_id: format!("{}:pane", tab.tab.tab_id),
            tab_id: tab.tab.tab_id.clone(),
            agent: None,
        })
        .collect();
    SessionSnapshot {
        focused_pane_id: None,
        tabs,
        panes,
    }
}

fn config(invocation: Invocation) -> Config {
    let settings = Settings {
        diagnostic_telemetry: true,
        ..Settings::default()
    };
    Config {
        socket_path: b"unused.sock".to_vec(),
        state_dir: b"unused-state".to_vec(),
        settings,
        invocation,
        event: None,
        event_workspace_id: None,
        event_tab_id: None,
        event_pane_id: None,
    }
}

fn set_ownership(store: &mut Store, ownership: TabOwnership) {
    let mut state = store.load();
    state.set_ownership("w1:t1", ownership);
    store.persist(&state);
}

fn set_pane_mapping(store: &mut Store, pane_id: &str, tab_id: &str) {
    let mut state = store.load();
    state.set_pane_tab(pane_id, tab_id);
    store.persist(&state);
}

#[test]
fn unowned_placeholder_waits_for_authoritative_shell_hook() {
    let mut store = Store::new();
    let mut client = FakeClient::new(
        snapshot(vec![tab("w1:t1", "w1", "1", false)]),
        &[("w1:t1:pane", "startup-helper")],
    );
    let config = config(Invocation::Full);
    run_pass(&config, &config.invocation, &mut client, &mut store).unwrap();

    assert!(client.renamed.is_empty());
    assert_eq!(store.load().ownership("w1:t1"), None);

    client
        .processes
        .insert("w1:t1:pane".into(), process_info("zsh"));
    run_pass(&config, &config.invocation, &mut client, &mut store).unwrap();
    assert!(client.renamed.is_empty());

    let precmd = Invocation::Precmd {
        pane_id: "w1:t1:pane".into(),
        shell: "zsh".into(),
        shell_pid: 7,
    };
    run_pass(&config, &precmd, &mut client, &mut store).unwrap();

    assert_eq!(client.renamed, [("w1:t1".into(), "[1] zsh".into())]);
    assert_eq!(
        store.load().ownership("w1:t1"),
        Some(&TabOwnership::Owned {
            last_base: "zsh".into(),
            last_rendered: "[1] zsh".into(),
        })
    );
}

#[test]
fn eager_shell_claim_is_owned_before_ambient_events_run() {
    let mut store = Store::new();
    let mut client = FakeClient::new(
        snapshot(vec![tab("w1:t1", "w1", "1", false)]),
        &[("w1:t1:pane", "zsh")],
    );
    let init = config(Invocation::Init {
            pane_id: "w1:t1:pane".into(),
            shell: "zsh".into(),
            shell_pid: 7,
        },
    );

    run_pass(&init, &init.invocation, &mut client, &mut store).unwrap();

    assert_eq!(client.renamed, [("w1:t1".into(), "[1] zsh".into())]);
    assert_eq!(
        store.load().ownership("w1:t1"),
        Some(&TabOwnership::Owned {
            last_base: "zsh".into(),
            last_rendered: "[1] zsh".into(),
        })
    );

    client.snapshot.tabs[0].tab.label = "[1] zsh".into();
    client
        .processes
        .insert("w1:t1:pane".into(), process_info("locale"));
    let ambient = config(Invocation::Full);
    run_pass(&ambient, &ambient.invocation, &mut client, &mut store).unwrap();

    assert_eq!(client.renamed.len(), 1);
    assert_eq!(
        store.load().ownership("w1:t1"),
        Some(&TabOwnership::Owned {
            last_base: "zsh".into(),
            last_rendered: "[1] zsh".into(),
        })
    );
}

#[test]
fn manual_rename_after_eager_startup_is_preserved() {
    let mut store = Store::new();
    set_ownership(
        &mut store,
        TabOwnership::Owned {
            last_base: "zsh".into(),
            last_rendered: "[1] zsh".into(),
        },
    );
    let mut client = FakeClient::new(
        snapshot(vec![tab("w1:t1", "w1", "custom", false)]),
        &[("w1:t1:pane", "locale")],
    );
    let renamed = config(Invocation::RenamedTab {
            workspace_id: "w1".into(),
            tab_id: "w1:t1".into(),
        },
    );

    run_pass(&renamed, &renamed.invocation, &mut client, &mut store).unwrap();

    assert!(client.renamed.is_empty());
    assert_eq!(
        store.load().ownership("w1:t1"),
        Some(&TabOwnership::Manual)
    );
}

#[test]
fn same_base_manual_renames_transfer_ownership() {
    for label in ["zsh", "[9] zsh"] {
        let mut store = Store::new();
        set_ownership(
            &mut store,
            TabOwnership::Owned {
                last_base: "zsh".into(),
                last_rendered: "[1] zsh".into(),
            },
        );
        let mut client = FakeClient::new(
            snapshot(vec![tab("w1:t1", "w1", label, false)]),
            &[("w1:t1:pane", "zsh")],
        );
        let renamed = config(Invocation::RenamedTab {
                workspace_id: "w1".into(),
                tab_id: "w1:t1".into(),
            },
        );

        run_pass(&renamed, &renamed.invocation, &mut client, &mut store).unwrap();

        assert!(client.renamed.is_empty(), "unexpected rename for {label}");
        assert_eq!(
            store.load().ownership("w1:t1"),
            Some(&TabOwnership::Manual),
            "ownership for {label}"
        );
    }
}

#[test]
fn prompt_cannot_overwrite_manual_rename_before_its_event_arrives() {
    let mut store = Store::new();
    set_ownership(
        &mut store,
        TabOwnership::Owned {
            last_base: "zsh".into(),
            last_rendered: "[1] zsh".into(),
        },
    );
    let mut client = FakeClient::new(
        snapshot(vec![tab("w1:t1", "w1", "custom", false)]),
        &[("w1:t1:pane", "zsh")],
    );
    let prompt = config(Invocation::Precmd {
            pane_id: "w1:t1:pane".into(),
            shell: "zsh".into(),
            shell_pid: 7,
        },
    );

    run_pass(&prompt, &prompt.invocation, &mut client, &mut store).unwrap();

    assert!(client.renamed.is_empty());
    assert_eq!(
        store.load().ownership("w1:t1"),
        Some(&TabOwnership::Manual)
    );
}

#[test]
fn verified_preexec_can_claim_an_unowned_placeholder() {
    let mut store = Store::new();
    let mut client = FakeClient::new(
        snapshot(vec![tab("w1:t1", "w1", "1", false)]),
        &[("w1:t1:pane", "bv")],
    );
    let config = config(Invocation::Preexec {
            pane_id: "w1:t1:pane".into(),
            shell: "zsh".into(),
            program: Some("bv".into()),
        },
    );

    run_pass(&config, &config.invocation, &mut client, &mut store).unwrap();

    assert_eq!(client.renamed, [("w1:t1".into(), "[1] bv".into())]);
    assert!(matches!(
        store.load().ownership("w1:t1"),
        Some(TabOwnership::Owned { last_base, .. }) if last_base == "bv"
    ));
}

#[test]
fn sampled_preexec_cannot_claim_an_unowned_placeholder() {
    let mut store = Store::new();
    let mut client = FakeClient::new(
        snapshot(vec![tab("w1:t1", "w1", "1", false)]),
        &[("w1:t1:pane", "locale")],
    );
    let config = config(Invocation::Preexec {
            pane_id: "w1:t1:pane".into(),
            shell: "zsh".into(),
            program: None,
        },
    );

    run_pass(&config, &config.invocation, &mut client, &mut store).unwrap();

    assert!(client.renamed.is_empty());
    assert_eq!(store.load().ownership("w1:t1"), None);
}

#[test]
fn rejected_authoritative_events_leave_an_unowned_placeholder_untouched() {
    let mut store = Store::new();
    let mut client = FakeClient::new(
        snapshot(vec![tab("w1:t1", "w1", "1", false)]),
        &[("w1:t1:pane", "zsh")],
    );
    let mismatched_preexec = config(Invocation::Preexec {
            pane_id: "w1:t1:pane".into(),
            shell: "zsh".into(),
            program: Some("nvim".into()),
        },
    );
    run_pass(
        &mismatched_preexec,
        &mismatched_preexec.invocation,
        &mut client, &mut store,
    )
    .unwrap();

    let stale_precmd = config(Invocation::Precmd {
            pane_id: "w1:t1:pane".into(),
            shell: "zsh".into(),
            shell_pid: 8,
        },
    );
    run_pass(&stale_precmd, &stale_precmd.invocation, &mut client, &mut store).unwrap();

    let stale_init = config(Invocation::Init {
            pane_id: "w1:t1:pane".into(),
            shell: "zsh".into(),
            shell_pid: 8,
        },
    );
    run_pass(&stale_init, &stale_init.invocation, &mut client, &mut store).unwrap();

    assert!(client.renamed.is_empty());
    assert_eq!(store.load().ownership("w1:t1"), None);
}

#[test]
fn meaningful_existing_name_is_manual_but_still_numbered() {
    let mut store = Store::new();
    let mut client = FakeClient::new(
        snapshot(vec![tab("w1:t1", "w1", "tests", false)]),
        &[("w1:t1:pane", "nvim")],
    );
    let config = config(Invocation::Full);
    run_pass(&config, &config.invocation, &mut client, &mut store).unwrap();

    assert_eq!(client.renamed, [("w1:t1".into(), "[1] tests".into())]);
    assert_eq!(
        store.load().ownership("w1:t1"),
        Some(&TabOwnership::Manual)
    );
}

#[test]
fn numbering_can_be_disabled_independently() {
    let mut store = Store::new();
    let mut client = FakeClient::new(
        snapshot(vec![tab("w1:t1", "w1", "1", false)]),
        &[("w1:t1:pane", "zsh")],
    );
    let mut config = config(Invocation::Precmd {
            pane_id: "w1:t1:pane".into(),
            shell: "zsh".into(),
            shell_pid: 7,
        },
    );
    config.settings.number_tabs = false;
    run_pass(&config, &config.invocation, &mut client, &mut store).unwrap();
    assert_eq!(client.renamed[0].1, "zsh");
}

#[test]
fn an_unexpected_owned_base_becomes_manual() {
    let mut store = Store::new();
    set_ownership(
        &mut store,
        TabOwnership::Owned {
            last_base: "nvim".into(),
            last_rendered: "[1] nvim".into(),
        },
    );
    let mut client = FakeClient::new(
        snapshot(vec![tab("w1:t1", "w1", "[1] release notes", false)]),
        &[("w1:t1:pane", "cargo")],
    );
    let config = config(Invocation::Full);
    run_pass(&config, &config.invocation, &mut client, &mut store).unwrap();

    assert!(client.renamed.is_empty());
    assert_eq!(
        store.load().ownership("w1:t1"),
        Some(&TabOwnership::Manual)
    );
}

#[test]
fn hidden_idle_shell_keeps_only_the_number() {
    let mut store = Store::new();
    let mut client = FakeClient::new(
        snapshot(vec![tab("w1:t1", "w1", "1", false)]),
        &[("w1:t1:pane", "zsh")],
    );
    let mut config = config(Invocation::Precmd {
            pane_id: "w1:t1:pane".into(),
            shell: "zsh".into(),
            shell_pid: 7,
        },
    );
    config.settings.hide_idle_shell = true;
    run_pass(&config, &config.invocation, &mut client, &mut store).unwrap();
    assert_eq!(client.renamed[0].1, "[1]");
}

#[test]
fn stale_precmd_does_not_mistake_a_shell_script_for_the_prompt() {
    let mut store = Store::new();
    set_ownership(
        &mut store,
        TabOwnership::Owned {
            last_base: "nvim".into(),
            last_rendered: "[1] nvim".into(),
        },
    );
    let mut client = FakeClient::new(
        snapshot(vec![tab("w1:t1", "w1", "[1] nvim", false)]),
        &[("w1:t1:pane", "zsh")],
    );
    let config = config(Invocation::Precmd {
            pane_id: "w1:t1:pane".into(),
            shell: "zsh".into(),
            shell_pid: 9,
        },
    );

    run_pass(&config, &config.invocation, &mut client, &mut store).unwrap();

    assert!(client.renamed.is_empty());
    assert!(matches!(
        store.load().ownership("w1:t1"),
        Some(TabOwnership::Owned { last_base, .. }) if last_base == "nvim"
    ));
}

#[test]
fn reset_reclaims_a_manual_tab() {
    let mut store = Store::new();
    set_ownership(&mut store, TabOwnership::Manual);
    let mut client = FakeClient::new(
        snapshot(vec![tab("w1:t1", "w1", "[1] tests", false)]),
        &[("w1:t1:pane", "cargo")],
    );
    let config = config(Invocation::Reset {
            workspace_id: Some("w1".into()),
            tab_id: Some("w1:t1".into()),
        },
    );
    run_pass(&config, &config.invocation, &mut client, &mut store).unwrap();

    assert_eq!(client.renamed[0].1, "[1] cargo");
    assert!(matches!(
        store.load().ownership("w1:t1"),
        Some(TabOwnership::Owned { last_base, .. }) if last_base == "cargo"
    ));
}

#[test]
fn toggle_disables_automatic_naming_without_changing_the_label() {
    let mut store = Store::new();
    set_ownership(
        &mut store,
        TabOwnership::Owned {
            last_base: "nvim".into(),
            last_rendered: "[1] nvim".into(),
        },
    );
    let mut client = FakeClient::new(
        snapshot(vec![tab("w1:t1", "w1", "[1] nvim", false)]),
        &[("w1:t1:pane", "cargo")],
    );
    let config = config(Invocation::Toggle {
            workspace_id: Some("w1".into()),
            tab_id: Some("w1:t1".into()),
        },
    );

    run_pass(&config, &config.invocation, &mut client, &mut store).unwrap();

    assert!(client.renamed.is_empty());
    assert_eq!(
        store.load().ownership("w1:t1"),
        Some(&TabOwnership::AutomaticDisabled)
    );
}

#[test]
fn toggle_reenables_automatic_naming_for_a_manual_tab() {
    let mut store = Store::new();
    set_ownership(&mut store, TabOwnership::Manual);
    let mut client = FakeClient::new(
        snapshot(vec![tab("w1:t1", "w1", "[1] tests", false)]),
        &[("w1:t1:pane", "cargo")],
    );
    let config = config(Invocation::Toggle {
            workspace_id: Some("w1".into()),
            tab_id: Some("w1:t1".into()),
        },
    );

    run_pass(&config, &config.invocation, &mut client, &mut store).unwrap();

    assert_eq!(client.renamed, [("w1:t1".into(), "[1] cargo".into())]);
    assert!(matches!(
        store.load().ownership("w1:t1"),
        Some(TabOwnership::Owned { last_base, .. }) if last_base == "cargo"
    ));
}

#[test]
fn toggle_off_survives_empty_labels_and_numbering_changes() {
    let mut store = Store::new();
    set_ownership(
        &mut store,
        TabOwnership::Owned {
            last_base: String::new(),
            last_rendered: "[2]".into(),
        },
    );
    let session = snapshot(vec![tab("w1:t1", "w1", "[2]", false)]);
    let mut client = FakeClient::new(session, &[]);
    let toggle = config(Invocation::Toggle {
            workspace_id: Some("w1".into()),
            tab_id: Some("w1:t1".into()),
        },
    );
    run_pass(&toggle, &toggle.invocation, &mut client, &mut store).unwrap();

    client.snapshot.tabs[0].tab.label = "[1]".into();
    client.current.get_mut("w1:t1").unwrap().label = "[1]".into();
    let renamed = config(Invocation::RenamedTab {
            workspace_id: "w1".into(),
            tab_id: "w1:t1".into(),
        },
    );
    run_pass(&renamed, &renamed.invocation, &mut client, &mut store).unwrap();

    assert_eq!(client.renamed, [("w1:t1".into(), "[1]".into())]);
    assert_eq!(
        store.load().ownership("w1:t1"),
        Some(&TabOwnership::AutomaticDisabled)
    );
}

#[test]
fn whitespace_rename_reenables_naming_after_toggle_off() {
    let mut store = Store::new();
    set_ownership(&mut store, TabOwnership::AutomaticDisabled);
    let mut client = FakeClient::new(
        snapshot(vec![tab("w1:t1", "w1", "   ", false)]),
        &[("w1:t1:pane", "nvim")],
    );
    let mut config = config(Invocation::RenamedTab {
            workspace_id: "w1".into(),
            tab_id: "w1:t1".into(),
        },
    );
    config.settings.number_tabs = false;

    run_pass(&config, &config.invocation, &mut client, &mut store).unwrap();

    assert_eq!(client.renamed, [("w1:t1".into(), "nvim".into())]);
    assert!(matches!(
        store.load().ownership("w1:t1"),
        Some(TabOwnership::Owned { last_base, .. }) if last_base == "nvim"
    ));
}

#[test]
fn toggle_resolves_a_completed_pending_rename_before_disabling() {
    let mut store = Store::new();
    set_ownership(
        &mut store,
        TabOwnership::PendingRename {
            observed: "[1] nvim".into(),
            desired: "[1] cargo".into(),
            desired_base: "cargo".into(),
            previous_base: Some("nvim".into()),
            previous_rendered: Some("[1] nvim".into()),
            previous_reset_pending: false,
        },
    );
    let mut client = FakeClient::new(
        snapshot(vec![tab("w1:t1", "w1", "[1] cargo", false)]),
        &[("w1:t1:pane", "cargo")],
    );
    let config = config(Invocation::Toggle {
            workspace_id: Some("w1".into()),
            tab_id: Some("w1:t1".into()),
        },
    );

    run_pass(&config, &config.invocation, &mut client, &mut store).unwrap();

    assert!(client.renamed.is_empty());
    assert_eq!(
        store.load().ownership("w1:t1"),
        Some(&TabOwnership::AutomaticDisabled)
    );
}

#[test]
fn whitespace_only_manual_label_reenables_naming_without_numbering() {
    let mut store = Store::new();
    set_ownership(&mut store, TabOwnership::Manual);
    let mut client = FakeClient::new(
        snapshot(vec![tab("w1:t1", "w1", "   ", false)]),
        &[("w1:t1:pane", "nvim")],
    );
    let mut config = config(Invocation::RenamedTab {
            workspace_id: "w1".into(),
            tab_id: "w1:t1".into(),
        },
    );
    config.settings.number_tabs = false;

    run_pass(&config, &config.invocation, &mut client, &mut store).unwrap();

    assert_eq!(client.renamed, [("w1:t1".into(), "nvim".into())]);
    assert!(matches!(
        store.load().ownership("w1:t1"),
        Some(TabOwnership::Owned { last_base, .. }) if last_base == "nvim"
    ));
}

#[test]
fn reset_uses_the_current_numbering_configuration() {
    let mut store = Store::new();
    set_ownership(&mut store, TabOwnership::Manual);
    let mut client = FakeClient::new(
        snapshot(vec![tab("w1:t1", "w1", "[1] tests", false)]),
        &[("w1:t1:pane", "cargo")],
    );
    let mut config = config(Invocation::Reset {
            workspace_id: Some("w1".into()),
            tab_id: Some("w1:t1".into()),
        },
    );
    config.settings.number_tabs = false;
    run_pass(&config, &config.invocation, &mut client, &mut store).unwrap();
    assert_eq!(client.renamed[0].1, "cargo");
}

#[test]
fn reset_intent_survives_until_process_information_is_available() {
    let mut store = Store::new();
    set_ownership(&mut store, TabOwnership::Manual);
    let session = snapshot(vec![tab("w1:t1", "w1", "[1] tests", false)]);
    let mut client = FakeClient::new(session, &[]);
    let reset = config(Invocation::Reset {
            workspace_id: Some("w1".into()),
            tab_id: Some("w1:t1".into()),
        },
    );
    run_pass(&reset, &reset.invocation, &mut client, &mut store).unwrap();
    assert_eq!(
        store.load().ownership("w1:t1"),
        Some(&TabOwnership::ResetPending)
    );

    client
        .processes
        .insert("w1:t1:pane".into(), process_info("cargo"));
    let event = config(Invocation::Full);
    run_pass(&event, &event.invocation, &mut client, &mut store).unwrap();
    assert_eq!(client.renamed[0].1, "[1] cargo");
}

#[test]
fn failed_owned_transition_waits_for_an_authoritative_process_event() {
    let mut store = Store::new();
    set_ownership(
        &mut store,
        TabOwnership::PendingRename {
            observed: "[1] nvim".into(),
            desired: "[1] cargo".into(),
            desired_base: "cargo".into(),
            previous_base: Some("nvim".into()),
            previous_rendered: Some("[1] nvim".into()),
            previous_reset_pending: false,
        },
    );
    let mut client = FakeClient::new(
        snapshot(vec![tab("w1:t1", "w1", "[1] nvim", false)]),
        &[("w1:t1:pane", "cargo")],
    );
    let config = config(Invocation::Full);
    run_pass(&config, &config.invocation, &mut client, &mut store).unwrap();

    assert!(client.renamed.is_empty());
    assert!(matches!(
        store.load().ownership("w1:t1"),
        Some(TabOwnership::Owned { last_base, .. }) if last_base == "nvim"
    ));
}

#[test]
fn rename_events_do_not_replace_an_owned_semantic_name() {
    let mut store = Store::new();
    set_ownership(
        &mut store,
        TabOwnership::Owned {
            last_base: "nvim".into(),
            last_rendered: "[1] nvim".into(),
        },
    );
    let session = snapshot(vec![tab("w1:t1", "w1", "[1] nvim", false)]);
    let mut client = FakeClient::new(session, &[("w1:t1:pane", "zsh")]);
    let renamed = config(Invocation::RenamedTab {
            workspace_id: "w1".into(),
            tab_id: "w1:t1".into(),
        },
    );
    run_pass(&renamed, &renamed.invocation, &mut client, &mut store).unwrap();
    assert!(client.renamed.is_empty());
    assert!(matches!(
        store.load().ownership("w1:t1"),
        Some(TabOwnership::Owned { last_base, .. }) if last_base == "nvim"
    ));
}

#[test]
fn focusing_a_pane_updates_an_owned_tab_from_the_active_pane() {
    let mut store = Store::new();
    set_ownership(
        &mut store,
        TabOwnership::Owned {
            last_base: "nvim".into(),
            last_rendered: "[1] nvim".into(),
        },
    );
    let mut split = tab("w1:t1", "w1", "[1] nvim", true);
    split.pane_count = 2;
    let mut session = snapshot(vec![split]);
    session.panes.push(PaneInfo {
        pane_id: "w1:t1:other".into(),
        tab_id: "w1:t1".into(),
        agent: None,
    });
    session.focused_pane_id = Some("w1:t1:other".into());
    let mut client = FakeClient::new(session, &[("w1:t1:pane", "nvim"), ("w1:t1:other", "cargo")]);
    let focused = config(Invocation::Tab {
            workspace_id: "w1".into(),
            tab_id: "w1:t1".into(),
        },
    );
    run_pass(&focused, &focused.invocation, &mut client, &mut store).unwrap();
    assert_eq!(client.renamed, [("w1:t1".into(), "[1] cargo".into())]);
    assert!(matches!(
        store.load().ownership("w1:t1"),
        Some(TabOwnership::Owned { last_base, .. }) if last_base == "cargo"
    ));
}

#[test]
fn native_pane_close_refreshes_an_owned_split_without_focus_change() {
    let mut store = Store::new();
    set_ownership(
        &mut store,
        TabOwnership::Owned {
            last_base: "ai board".into(),
            last_rendered: "[1] ai board".into(),
        },
    );
    set_pane_mapping(&mut store, "w1:t1:closed", "w1:t1");
    let mut surviving = tab("w1:t1", "w1", "[1] ai board", false);
    surviving.pane_count = 1;
    let mut session = snapshot(vec![surviving]);
    session.panes[0].pane_id = "w1:t1:survivor".into();
    let mut client = FakeClient::new(session, &[("w1:t1:survivor", "zsh")]);
    let closed = config(Invocation::ClosedPane {
            workspace_id: "w1".into(),
            pane_id: "w1:t1:closed".into(),
        },
    );

    run_pass(&closed, &closed.invocation, &mut client, &mut store).unwrap();

    assert_eq!(client.renamed, [("w1:t1".into(), "[1] zsh".into())]);
    assert!(matches!(
        store.load().ownership("w1:t1"),
        Some(TabOwnership::Owned { last_base, .. }) if last_base == "zsh"
    ));
}

#[test]
fn closed_pane_mapping_scopes_process_query_and_rename_to_one_tab() {
    let mut store = Store::new();
    set_ownership(
        &mut store,
        TabOwnership::Owned {
            last_base: "ai board".into(),
            last_rendered: "[1] ai board".into(),
        },
    );
    set_pane_mapping(&mut store, "w1:t1:closed", "w1:t1");
    let session = snapshot(vec![
        tab("w1:t1", "w1", "[1] ai board", false),
        tab("w1:t2", "w1", "[2] other", false),
    ]);
    let mut client = FakeClient::new(session, &[("w1:t1:pane", "zsh")]);
    let closed = config(Invocation::ClosedPane {
            workspace_id: "w1".into(),
            pane_id: "w1:t1:closed".into(),
        },
    );

    run_pass(&closed, &closed.invocation, &mut client, &mut store).unwrap();

    assert_eq!(client.process_queries, ["w1:t1:pane"]);
    assert_eq!(client.renamed, [("w1:t1".into(), "[1] zsh".into())]);
}

#[test]
fn missing_closed_pane_mapping_is_an_observable_no_op() {
    let mut store = Store::new();
    let session = snapshot(vec![tab("w1:t1", "w1", "[1] ai board", false)]);
    let mut client = FakeClient::new(session, &[("w1:t1:pane", "zsh")]);
    let closed = config(Invocation::ClosedPane {
            workspace_id: "w1".into(),
            pane_id: "w1:t1:closed".into(),
        },
    );
    let telemetry = telemetry_from_config(&closed, 1);

    let (result, mut telemetry) =
        pass_with(&closed, &closed.invocation, &mut client, &mut store, telemetry);
    result.unwrap();
    telemetry.recording_mut().finish(&Ok(()), 2);
    let record = telemetry.recording_mut();

    assert!(client.process_queries.is_empty());
    assert!(client.renamed.is_empty());
    assert_eq!(record.tab_decisions.len(), 0);
    assert_eq!(record.terminal_outcome, "pane_mapping_missing");
    let mapping = record.pane_mapping.as_ref().unwrap();
    assert_eq!(mapping.resolution, "missing");
    assert_eq!(mapping.validation, "not_run");
    assert!(!mapping.consumed);
}

#[test]
fn mismatched_closed_pane_mapping_is_an_observable_no_op() {
    let mut store = Store::new();
    set_pane_mapping(&mut store, "w1:t1:closed", "w2:t2");
    let session = snapshot(vec![
        tab("w1:t1", "w1", "[1] ai board", false),
        tab("w2:t2", "w2", "[1] other", false),
    ]);
    let mut client = FakeClient::new(session, &[]);
    let closed = config(Invocation::ClosedPane {
            workspace_id: "w1".into(),
            pane_id: "w1:t1:closed".into(),
        },
    );
    let telemetry = telemetry_from_config(&closed, 1);

    let (result, mut telemetry) =
        pass_with(&closed, &closed.invocation, &mut client, &mut store, telemetry);
    result.unwrap();
    telemetry.recording_mut().finish(&Ok(()), 2);
    let record = telemetry.recording_mut();

    assert!(client.process_queries.is_empty());
    assert!(client.renamed.is_empty());
    assert_eq!(record.terminal_outcome, "pane_mapping_invalid");
    assert_eq!(
        record.pane_mapping.as_ref().unwrap().validation,
        "workspace_mismatch"
    );
}

#[test]
fn closed_pane_refresh_preserves_manual_ownership() {
    let mut store = Store::new();
    set_ownership(&mut store, TabOwnership::Manual);
    set_pane_mapping(&mut store, "w1:t1:closed", "w1:t1");
    let session = snapshot(vec![tab("w1:t1", "w1", "[1] manual", false)]);
    let mut client = FakeClient::new(session, &[("w1:t1:pane", "zsh")]);
    let closed = config(Invocation::ClosedPane {
            workspace_id: "w1".into(),
            pane_id: "w1:t1:closed".into(),
        },
    );

    run_pass(&closed, &closed.invocation, &mut client, &mut store).unwrap();

    assert!(client.process_queries.is_empty());
    assert!(client.renamed.is_empty());
    assert_eq!(
        store.load().ownership("w1:t1"),
        Some(&TabOwnership::Manual)
    );
}

#[test]
fn closed_pane_refresh_preserves_disabled_ownership() {
    let mut store = Store::new();
    set_ownership(&mut store, TabOwnership::AutomaticDisabled);
    set_pane_mapping(&mut store, "w1:t1:closed", "w1:t1");
    let session = snapshot(vec![tab("w1:t1", "w1", "[1] disabled", false)]);
    let mut client = FakeClient::new(session, &[("w1:t1:pane", "zsh")]);
    let closed = config(Invocation::ClosedPane {
            workspace_id: "w1".into(),
            pane_id: "w1:t1:closed".into(),
        },
    );

    run_pass(&closed, &closed.invocation, &mut client, &mut store).unwrap();

    assert!(client.process_queries.is_empty());
    assert!(client.renamed.is_empty());
    assert_eq!(
        store.load().ownership("w1:t1"),
        Some(&TabOwnership::AutomaticDisabled)
    );
}

#[test]
fn close_telemetry_uses_the_decision_snapshot_and_process_observation() {
    let mut store = Store::new();
    set_ownership(
        &mut store,
        TabOwnership::Owned {
            last_base: "ai board".into(),
            last_rendered: "[1] ai board".into(),
        },
    );
    set_pane_mapping(&mut store, "w1:t1:closed", "w1:t1");
    let mut surviving = tab("w1:t1", "w1", "[1] ai board", false);
    surviving.pane_count = 1;
    let mut session = snapshot(vec![surviving]);
    session.panes[0].pane_id = "w1:t1:survivor".into();
    let mut client = FakeClient::new(session, &[("w1:t1:survivor", "zsh")]);
    let mut closed = config(Invocation::ClosedPane {
            workspace_id: "w1".into(),
            pane_id: "w1:t1:closed".into(),
        },
    );
    closed.event = Some("pane.closed".into());
    closed.event_workspace_id = Some("w1".into());
    closed.event_pane_id = Some("w1:t1:closed".into());
    let telemetry = telemetry_from_config(&closed, 1);

    let (result, mut telemetry) =
        pass_with(&closed, &closed.invocation, &mut client, &mut store, telemetry);
    result.unwrap();
    telemetry.recording_mut().finish(&Ok(()), 2);
    let record = telemetry.recording_mut();

    let candidate = &record.tab_decisions[0];
    let mapping = record.pane_mapping.as_ref().unwrap();
    assert_eq!(mapping.mapped_tab_id.as_deref(), Some("w1:t1"));
    assert_eq!(mapping.resolution, "resolved");
    assert_eq!(mapping.validation, "valid");
    assert!(mapping.consumed);
    assert_eq!(
        store.load().pane_tab("w1:t1:closed"),
        None
    );
    assert_eq!(
        record.snapshot.as_ref().unwrap().closed_pane_present,
        Some(false)
    );
    assert_eq!(
        candidate.selected_naming_pane.as_deref(),
        Some("w1:t1:survivor")
    );
    assert_eq!(
        candidate.process_info.as_ref().unwrap().pane_id,
        "w1:t1:survivor"
    );
    assert_eq!(
        candidate
            .representative_process
            .as_ref()
            .unwrap()
            .executable_basename,
        "zsh"
    );
    assert_eq!(candidate.desired_label.as_deref(), Some("[1] zsh"));
    assert_eq!(candidate.rename_result.as_deref(), Some("renamed"));
    assert_eq!(record.terminal_outcome, "renamed");
}

#[test]
fn guarded_tab_read_failure_keeps_the_real_candidate_trace_without_claiming_a_rename() {
    let mut store = Store::new();
    set_ownership(
        &mut store,
        TabOwnership::Owned {
            last_base: "ai board".into(),
            last_rendered: "[1] ai board".into(),
        },
    );
    set_pane_mapping(&mut store, "w1:t1:closed", "w1:t1");
    let mut session = snapshot(vec![tab("w1:t1", "w1", "[1] ai board", false)]);
    session.panes[0].pane_id = "w1:t1:survivor".into();
    let mut client = FakeClient::new(session, &[("w1:t1:survivor", "zsh")]);
    client.get_error = Some("tab.get unavailable".into());
    let closed = config(Invocation::ClosedPane {
            workspace_id: "w1".into(),
            pane_id: "w1:t1:closed".into(),
        },
    );
    let telemetry = telemetry_from_config(&closed, 1);

    let (result, mut telemetry) =
        pass_with(&closed, &closed.invocation, &mut client, &mut store, telemetry);
    let error = result.unwrap_err();
    telemetry.recording_mut().finish(&Err(error), 2);
    let record = telemetry.recording_mut();

    let candidate = &record.tab_decisions[0];
    assert_eq!(
        candidate.selected_naming_pane.as_deref(),
        Some("w1:t1:survivor")
    );
    assert!(candidate.process_info.is_some());
    assert_eq!(candidate.desired_label.as_deref(), Some("[1] zsh"));
    assert!(candidate.guarded_tab.is_none());
    assert!(matches!(
        candidate.ownership_after,
        Some(TabOwnership::PendingRename { .. })
    ));
    assert!(matches!(
        store.load().ownership("w1:t1"),
        Some(TabOwnership::PendingRename { .. })
    ));
    assert!(!candidate.rename_attempted);
    assert!(
        candidate
            .rename_result
            .as_deref()
            .is_some_and(|result| result.contains("tab.get unavailable"))
    );
    assert_eq!(candidate.outcome.as_deref(), Some("guard_read_error"));
}

#[test]
fn missing_tab_keeps_the_persisted_pending_rename_in_telemetry() {
    let mut store = Store::new();
    set_ownership(
        &mut store,
        TabOwnership::Owned {
            last_base: "ai board".into(),
            last_rendered: "[1] ai board".into(),
        },
    );
    set_pane_mapping(&mut store, "w1:t1:closed", "w1:t1");
    let mut session = snapshot(vec![tab("w1:t1", "w1", "[1] ai board", false)]);
    session.panes[0].pane_id = "w1:t1:survivor".into();
    let mut client = FakeClient::new(session, &[("w1:t1:survivor", "zsh")]);
    client.current.clear();
    let closed = config(Invocation::ClosedPane {
            workspace_id: "w1".into(),
            pane_id: "w1:t1:closed".into(),
        },
    );
    let telemetry = telemetry_from_config(&closed, 1);

    let (result, mut telemetry) =
        pass_with(&closed, &closed.invocation, &mut client, &mut store, telemetry);
    result.unwrap();
    telemetry.recording_mut().finish(&Ok(()), 2);
    let record = telemetry.recording_mut();

    let candidate = &record.tab_decisions[0];
    assert_eq!(candidate.rename_result.as_deref(), Some("tab_not_found"));
    assert!(matches!(
        candidate.ownership_after,
        Some(TabOwnership::PendingRename { .. })
    ));
    assert!(matches!(
        store.load().ownership("w1:t1"),
        Some(TabOwnership::PendingRename { .. })
    ));
    assert_eq!(candidate.outcome.as_deref(), Some("tab_missing"));
}

#[test]
fn tab_rename_failure_keeps_the_guard_observation_and_records_the_attempt() {
    let mut store = Store::new();
    set_ownership(
        &mut store,
        TabOwnership::Owned {
            last_base: "ai board".into(),
            last_rendered: "[1] ai board".into(),
        },
    );
    set_pane_mapping(&mut store, "w1:t1:closed", "w1:t1");
    let mut session = snapshot(vec![tab("w1:t1", "w1", "[1] ai board", false)]);
    session.panes[0].pane_id = "w1:t1:survivor".into();
    let mut client = FakeClient::new(session, &[("w1:t1:survivor", "zsh")]);
    client.rename_error = Some("tab.rename rejected".into());
    let closed = config(Invocation::ClosedPane {
            workspace_id: "w1".into(),
            pane_id: "w1:t1:closed".into(),
        },
    );
    let telemetry = telemetry_from_config(&closed, 1);

    let (result, mut telemetry) =
        pass_with(&closed, &closed.invocation, &mut client, &mut store, telemetry);
    let error = result.unwrap_err();
    telemetry.recording_mut().finish(&Err(error), 2);
    let record = telemetry.recording_mut();

    let candidate = &record.tab_decisions[0];
    assert_eq!(
        candidate.guarded_tab.as_ref().unwrap().label,
        "[1] ai board"
    );
    assert!(matches!(
        candidate.ownership_after,
        Some(TabOwnership::PendingRename { .. })
    ));
    assert!(matches!(
        store.load().ownership("w1:t1"),
        Some(TabOwnership::PendingRename { .. })
    ));
    assert!(candidate.rename_attempted);
    assert!(
        candidate
            .rename_result
            .as_deref()
            .is_some_and(|result| result.contains("tab.rename rejected"))
    );
    assert_eq!(candidate.outcome.as_deref(), Some("rename_error"));
}

#[test]
fn exiting_a_focused_pane_updates_an_owned_tab_from_the_survivor() {
    let mut store = Store::new();
    set_ownership(
        &mut store,
        TabOwnership::Owned {
            last_base: "nvim".into(),
            last_rendered: "[1] nvim".into(),
        },
    );
    let mut surviving = tab("w1:t1", "w1", "[1] nvim", true);
    surviving.pane_count = 1;
    let mut session = snapshot(vec![surviving]);
    session.panes[0].pane_id = "w1:t1:survivor".into();
    let mut client = FakeClient::new(session, &[("w1:t1:survivor", "cargo")]);
    let exited = config(Invocation::Tab {
            workspace_id: "w1".into(),
            tab_id: "w1:t1".into(),
        },
    );

    run_pass(&exited, &exited.invocation, &mut client, &mut store).unwrap();

    assert_eq!(client.renamed, [("w1:t1".into(), "[1] cargo".into())]);
    assert!(matches!(
        store.load().ownership("w1:t1"),
        Some(TabOwnership::Owned { last_base, .. }) if last_base == "cargo"
    ));
}

#[test]
fn preexec_applies_only_while_that_program_is_foreground() {
    let mut store = Store::new();
    let owned = || TabOwnership::Owned {
        last_base: "zsh".into(),
        last_rendered: "[1] zsh".into(),
    };
    set_ownership(&mut store, owned());
    let invocation = Invocation::Preexec {
        pane_id: "w1:t1:pane".into(),
        shell: "zsh".into(),
        program: Some("nvim".into()),
    };
    let current = snapshot(vec![tab("w1:t1", "w1", "[1] zsh", false)]);
    let mut running = FakeClient::new(current.clone(), &[("w1:t1:pane", "nvim")]);
    let config = config(invocation);
    run_pass(&config, &config.invocation, &mut running, &mut store).unwrap();
    assert_eq!(running.renamed[0].1, "[1] nvim");

    set_ownership(&mut store, owned());
    let mut finished = FakeClient::new(current, &[("w1:t1:pane", "zsh")]);
    run_pass(&config, &config.invocation, &mut finished, &mut store).unwrap();
    assert!(finished.renamed.is_empty());
}

#[test]
fn clear_strips_numbers_and_suspends_future_events() {
    let mut store = Store::new();
    let mut client = FakeClient::new(
        snapshot(vec![tab("w1:t1", "w1", "[1] nvim", false)]),
        &[("w1:t1:pane", "nvim")],
    );
    let clear = config(Invocation::Clear);
    run_pass(&clear, &clear.invocation, &mut client, &mut store).unwrap();
    assert_eq!(client.renamed[0].1, "nvim");
    assert!(store.load().is_suspended());

    client.snapshot.tabs[0].tab.label = "nvim".into();
    let event = config(Invocation::Full);
    run_pass(&event, &event.invocation, &mut client, &mut store).unwrap();
    assert_eq!(client.renamed.len(), 1);
}

fn owned(label: &str) -> TabOwnership {
    TabOwnership::Owned {
        last_base: label.into(),
        last_rendered: format!("[1] {label}"),
    }
}

fn prompt() -> Invocation {
    Invocation::Precmd {
        pane_id: "w1:t1:pane".into(),
        shell: "zsh".into(),
        shell_pid: 7,
    }
}

#[test]
fn a_failed_rename_is_tried_again_by_the_next_prompt() {
    let mut store = Store::new();
    let mut client = FakeClient::new(
        snapshot(vec![tab("w1:t1", "w1", "1", false)]),
        &[("w1:t1:pane", "zsh")],
    );
    client.rename_error = Some("tab.rename rejected".into());
    let config = config(prompt());
    assert_eq!(
        run_pass(&config, &config.invocation, &mut client, &mut store).unwrap_err(),
        "tab.rename rejected"
    );
    assert!(matches!(
        store.load().ownership("w1:t1"),
        Some(TabOwnership::PendingRename { .. })
    ));

    client.rename_error = None;
    run_pass(&config, &config.invocation, &mut client, &mut store).unwrap();
    assert_eq!(client.renamed, [("w1:t1".into(), "[1] zsh".into())]);
    assert_eq!(store.load().ownership("w1:t1"), Some(&owned("zsh")));
}

#[test]
fn only_the_targets_of_an_event_are_touched() {
    let mut store = Store::new();
    let mut client = FakeClient::new(
        snapshot(vec![
            tab("w1:t1", "w1", "1", false),
            tab("w1:t2", "w1", "notes", false),
        ]),
        &[("w1:t1:pane", "zsh"), ("w1:t2:pane", "zsh")],
    );
    let config = config(prompt());
    run_pass(&config, &config.invocation, &mut client, &mut store).unwrap();
    assert_eq!(client.renamed, [("w1:t1".into(), "[1] zsh".into())]);
    assert_eq!(client.process_queries, ["w1:t1:pane"]);
    assert_eq!(store.load().ownership("w1:t2"), None);
}

#[test]
fn recording_does_not_change_what_is_done() {
    let mut silent_store = Store::new();
    let mut recorded_store = Store::new();
    set_pane_mapping(&mut silent_store, "w1:t1:closed", "w1:t1");
    set_pane_mapping(&mut recorded_store, "w1:t1:closed", "w1:t1");
    set_ownership(&mut silent_store, owned("nvim"));
    set_ownership(&mut recorded_store, owned("nvim"));
    let session = snapshot(vec![tab("w1:t1", "w1", "[1] nvim", false)]);
    let mut silent = FakeClient::new(session.clone(), &[("w1:t1:pane", "zsh")]);
    let mut recorded = FakeClient::new(session, &[("w1:t1:pane", "zsh")]);
    let closed = config(Invocation::ClosedPane {
        workspace_id: "w1".into(),
        pane_id: "w1:t1:closed".into(),
    });
    run_pass(&closed, &closed.invocation, &mut silent, &mut silent_store).unwrap();
    let telemetry = telemetry_from_config(&closed, 1);
    let (result, telemetry) = pass_with(
        &closed,
        &closed.invocation,
        &mut recorded,
        &mut recorded_store,
        telemetry,
    );
    result.unwrap();
    assert!(telemetry.is_recording());
    assert_eq!(silent.renamed, recorded.renamed);
    assert_eq!(silent.process_queries, recorded.process_queries);
    assert_eq!(silent_store.contents(), recorded_store.contents());
}

#[test]
fn toggling_alternates() {
    let session = snapshot(vec![tab("w1:t1", "w1", "[1] nvim", false)]);
    let mut state = State::load(None).unwrap();
    state.set_ownership("w1:t1", owned("nvim"));
    toggle_ownership(&session, &mut state, "w1:t1");
    assert_eq!(state.ownership("w1:t1"), Some(&TabOwnership::AutomaticDisabled));
    toggle_ownership(&session, &mut state, "w1:t1");
    assert_eq!(state.ownership("w1:t1"), Some(&TabOwnership::ResetPending));
    toggle_ownership(&session, &mut state, "w1:t1");
    assert_eq!(state.ownership("w1:t1"), Some(&TabOwnership::AutomaticDisabled));
}

#[test]
fn recovery_settles_every_rename_of_a_visible_tab() {
    let pending = TabOwnership::PendingRename {
        observed: "1".into(),
        desired: "[1] zsh".into(),
        desired_base: "zsh".into(),
        previous_base: None,
        previous_rendered: None,
        previous_reset_pending: false,
    };
    let mut state = State::load(None).unwrap();
    state.set_ownership("w1:t1", pending.clone());
    state.set_ownership("w1:t2", TabOwnership::Manual);
    recover_pending(
        &snapshot(vec![
            tab("w1:t1", "w1", "[1] zsh", false),
            tab("w1:t2", "w1", "[2] notes", false),
        ]),
        &mut state,
    );
    assert_eq!(state.ownership("w1:t1"), Some(&owned("zsh")));
    assert_eq!(state.ownership("w1:t2"), Some(&TabOwnership::Manual));
}

#[test]
fn a_pane_matches_the_program_that_it_runs() {
    let settings = Settings::default();
    assert_eq!(pane_matches_program(Ok(process_info("nvim")), "/bin/nvim", &settings), Ok(true));
    assert_eq!(pane_matches_program(Ok(process_info("zsh")), "nvim", &settings), Ok(false));
    assert_eq!(
        pane_matches_program(Err("unavailable".into()), "nvim", &settings),
        Err("unavailable".to_owned())
    );
}

#[test]
fn errors_end_a_pass() {
    let mut store = Store::new();
    let mut client = FakeClient::new(
        snapshot(vec![tab("w1:t1", "w1", "[1] nvim", false)]),
        &[("w1:t1:pane", "nvim")],
    );
    client.get_error = Some("tab.get unavailable".into());
    let clear = config(Invocation::Clear);
    assert_eq!(
        run_pass(&clear, &clear.invocation, &mut client, &mut store).unwrap_err(),
        "tab.get unavailable"
    );
    assert!(store.load().is_suspended());
    assert!(client.renamed.is_empty());

    let reset = config(Invocation::Reset {
        workspace_id: Some("w1".into()),
        tab_id: Some("w1:t1".into()),
    });
    client.get_error = None;
    run_pass(&reset, &reset.invocation, &mut client, &mut store).unwrap();
    assert!(!store.load().is_suspended());
}

fn three_tabs() -> SessionSnapshot {
    snapshot(vec![
        tab("w1:t1", "w1", "1", false),
        tab("w1:t2", "w1", "notes", false),
        tab("w2:t1", "w2", "[4] build", false),
    ])
}

fn show_current_labels(client: &mut FakeClient) {
    for shown in &mut client.snapshot.tabs {
        shown.tab.label = client.current[&shown.tab.tab_id].label.clone();
    }
}

#[test]
fn a_repeated_event_changes_nothing() {
    for invocation in [
        prompt(),
        Invocation::Full,
        Invocation::Workspace("w1".into()),
        Invocation::Tab {
            workspace_id: "w1".into(),
            tab_id: "w1:t2".into(),
        },
    ] {
        let mut store = Store::new();
        let programs = [
            ("w1:t1:pane", "zsh"),
            ("w1:t2:pane", "nvim"),
            ("w2:t1:pane", "cargo"),
        ];
        let mut client = FakeClient::new(three_tabs(), &programs);
        let event = config(invocation);
        run_pass(&event, &event.invocation, &mut client, &mut store).unwrap();
        let renamed = client.renamed.clone();
        let stored = store.contents();
        show_current_labels(&mut client);

        run_pass(&event, &event.invocation, &mut client, &mut store).unwrap();
        assert_eq!(client.renamed, renamed);
        assert_eq!(store.contents(), stored);
    }
}

#[test]
fn the_renames_of_an_event_are_those_to_the_labels_it_leaves() {
    let mut store = Store::new();
    let session = snapshot(vec![
        tab("w1:t1", "w1", "notes", false),
        tab("w1:t2", "w1", "[2] build", false),
        tab("w2:t1", "w2", "[4] deploy", false),
    ]);
    let programs = [
        ("w1:t1:pane", "zsh"),
        ("w1:t2:pane", "nvim"),
        ("w2:t1:pane", "cargo"),
    ];
    let mut client = FakeClient::new(session, &programs);
    let event = config(Invocation::Full);
    let expected = [
        ("w1:t1".to_owned(), "[1] notes".to_owned()),
        ("w2:t1".to_owned(), "[1] deploy".to_owned()),
    ];
    run_pass(&event, &event.invocation, &mut client, &mut store).unwrap();
    assert_eq!(client.renamed, expected);

    show_current_labels(&mut client);
    run_pass(&event, &event.invocation, &mut client, &mut store).unwrap();
    assert_eq!(client.renamed, expected);
}

#[test]
fn clearing_twice_renames_once() {
    let mut store = Store::new();
    let mut client = FakeClient::new(three_tabs(), &[]);
    let clear = config(Invocation::Clear);
    run_pass(&clear, &clear.invocation, &mut client, &mut store).unwrap();
    assert_eq!(client.renamed, [("w2:t1".into(), "build".into())]);
    let stored = store.contents();
    show_current_labels(&mut client);
    run_pass(&clear, &clear.invocation, &mut client, &mut store).unwrap();
    assert_eq!(client.renamed.len(), 1);
    assert_eq!(store.contents(), stored);
}

#[test]
fn a_closed_pane_is_acted_on_once() {
    let mut store = Store::new();
    set_ownership(&mut store, owned("nvim"));
    set_pane_mapping(&mut store, "w1:t1:closed", "w1:t1");
    let mut client = FakeClient::new(
        snapshot(vec![tab("w1:t1", "w1", "[1] nvim", false)]),
        &[("w1:t1:pane", "zsh")],
    );
    let closed = config(Invocation::ClosedPane {
        workspace_id: "w1".into(),
        pane_id: "w1:t1:closed".into(),
    });
    run_pass(&closed, &closed.invocation, &mut client, &mut store).unwrap();
    assert_eq!(client.renamed.len(), 1);
    show_current_labels(&mut client);
    client
        .processes
        .insert("w1:t1:pane".into(), process_info("cargo"));
    run_pass(&closed, &closed.invocation, &mut client, &mut store).unwrap();
    assert_eq!(client.renamed.len(), 1);
    assert_eq!(client.process_queries.len(), 1);
}

#[test]
fn records_are_handed_back_unless_diagnostics_are_asked_for() {
    let mut closed = config(Invocation::ClosedPane {
        workspace_id: "w1".into(),
        pane_id: "w1:t1:closed".into(),
    });
    let begin = |closed: &Config, telemetry: Telemetry| {
        run_pass_with_telemetry(
            closed.settings.clone(),
            closed.invocation.clone(),
            "zsh".into(),
            State::load(None).unwrap(),
            telemetry,
        )
    };
    let (step, kept) = begin(&closed, telemetry_from_config(&closed, 1));
    assert!(matches!(step, PassStep::Snapshot(_)));
    assert!(!kept.is_recording());

    let telemetry = telemetry_from_config(&closed, 1);
    closed.settings.diagnostic_telemetry = false;
    let (step, kept) = begin(&closed, telemetry);
    assert!(matches!(step, PassStep::Snapshot(_)));
    assert!(kept.is_recording());
}
