use herdr_labels::filesystem::FileFailure;
use herdr_labels::herdr::{PaneInfo, SessionTab};
use herdr_labels::numbering::Tab;
use herdr_labels::state::{
    create_temp_file, snapshot_tab_ids, state_file, temporary_state_name, CreateStep,
    PendingRenameResolution, PersistedState, State, StateError, TabOwnership, STATE_VERSION,
    TEMPORARY_FILE_ATTEMPTS,
};

fn pending() -> TabOwnership {
    TabOwnership::PendingRename {
        observed: "work".into(),
        desired: "[1] work".into(),
        desired_base: "work".into(),
        previous_base: None,
        previous_rendered: None,
        previous_reset_pending: false,
    }
}

#[test]
fn ownership_can_be_set_removed_and_pruned() {
    let mut state = State::load(None).unwrap();
    assert_eq!(state.set_ownership("one", TabOwnership::Manual), None);
    state.set_ownership("two", pending());
    state.set_ownership("three", TabOwnership::Manual);

    assert_eq!(
        state.set_ownership("one", pending()),
        Some(TabOwnership::Manual)
    );
    assert_eq!(state.remove_ownership("three"), Some(TabOwnership::Manual));
    state.prune_tabs(&vec!["two".into()]);

    assert!(state.ownership("one").is_none());
    assert_eq!(state.ownership("two"), Some(&pending()));
    assert!(state.ownership("three").is_none());
}

#[test]
fn desired_pending_label_promotes_to_owned() {
    let mut state = State::load(None).unwrap();
    state.set_ownership("tab", pending());

    assert_eq!(
        state.resolve_pending_rename("tab", "[1] work"),
        Some(PendingRenameResolution::Owned)
    );
    assert_eq!(
        state.ownership("tab"),
        Some(&TabOwnership::Owned {
            last_base: "work".into(),
            last_rendered: "[1] work".into(),
        })
    );
}

#[test]
fn observed_pending_label_is_removed_for_retry() {
    let mut state = State::load(None).unwrap();
    state.set_ownership("tab", pending());

    assert_eq!(
        state.resolve_pending_rename("tab", "work"),
        Some(PendingRenameResolution::Retry)
    );
    assert!(state.ownership("tab").is_none());
}

#[test]
fn observed_reset_rename_restores_pending_reset_intent() {
    let mut state = State::load(None).unwrap();
    state.set_ownership(
        "tab",
        TabOwnership::PendingRename {
            observed: "[1] manual".into(),
            desired: "[1] cargo".into(),
            desired_base: "cargo".into(),
            previous_base: None,
            previous_rendered: None,
            previous_reset_pending: true,
        },
    );

    assert_eq!(
        state.resolve_pending_rename("tab", "[1] manual"),
        Some(PendingRenameResolution::Retry)
    );
    assert_eq!(state.ownership("tab"), Some(&TabOwnership::ResetPending));
}

#[test]
fn unexpected_pending_label_becomes_manual() {
    let mut state = State::load(None).unwrap();
    state.set_ownership("tab", pending());

    assert_eq!(
        state.resolve_pending_rename("tab", "user edit"),
        Some(PendingRenameResolution::Manual)
    );
    assert_eq!(state.ownership("tab"), Some(&TabOwnership::Manual));
}

#[test]
fn recovery_ignores_non_pending_and_unknown_tabs() {
    let mut state = State::load(None).unwrap();
    state.set_ownership("manual", TabOwnership::Manual);

    assert_eq!(state.resolve_pending_rename("manual", "anything"), None);
    assert_eq!(state.resolve_pending_rename("missing", "anything"), None);
    assert_eq!(state.ownership("manual"), Some(&TabOwnership::Manual));
}


fn session_tab(tab_id: &str) -> SessionTab {
    SessionTab {
        tab: Tab {
            tab_id: tab_id.into(),
            workspace_id: "w1".into(),
            label: "work".into(),
        },
        focused: false,
        pane_count: 1,
    }
}

fn pane(pane_id: &str, tab_id: &str) -> PaneInfo {
    PaneInfo {
        pane_id: pane_id.into(),
        tab_id: tab_id.into(),
        agent: None,
    }
}

#[test]
fn absent_state_is_empty_and_active() {
    let state = State::load(None).unwrap();

    assert!(!state.is_suspended());
    assert!(state.ownership("tab-1").is_none());
    assert_eq!(state.persisted().version, STATE_VERSION);
}

#[test]
fn all_fields_and_ownership_variants_round_trip() {
    let mut state = State::load(None).unwrap();
    state.set_suspended(true);
    state.set_ownership("manual", TabOwnership::Manual);
    state.set_ownership("disabled", TabOwnership::AutomaticDisabled);
    state.set_ownership(
        "owned",
        TabOwnership::Owned {
            last_base: "build".into(),
            last_rendered: "[2] build".into(),
        },
    );
    state.set_ownership("pending", pending());
    state.set_pane_tab("pane", "owned");

    let loaded = State::load(Some(state.persisted())).unwrap();

    assert!(loaded.is_suspended());
    assert_eq!(loaded.ownership("manual"), Some(&TabOwnership::Manual));
    assert_eq!(
        loaded.ownership("disabled"),
        Some(&TabOwnership::AutomaticDisabled)
    );
    assert_eq!(
        loaded.ownership("owned"),
        Some(&TabOwnership::Owned {
            last_base: "build".into(),
            last_rendered: "[2] build".into(),
        })
    );
    assert_eq!(loaded.ownership("pending"), Some(&pending()));
    assert_eq!(loaded.pane_tab("pane"), Some("owned"));
}

#[test]
fn malformed_and_unsupported_state_fail_conservatively() {
    let error = serde_json::from_slice::<serde_json::Value>(b"not json").unwrap_err();
    assert_eq!(
        State::read(Ok(Err(error.to_string()))).unwrap_err(),
        StateError::InvalidData(error.to_string())
    );

    let stored: serde_json::Value =
        serde_json::from_slice(br#"{"version":2,"suspended":false,"tabs":{}}"#).unwrap();
    let persisted = || PersistedState {
        version: stored["version"].as_u64().unwrap() as u32,
        suspended: stored["suspended"].as_bool().unwrap(),
        tabs: Vec::new(),
        pane_tabs: Vec::new(),
    };
    let unsupported = StateError::InvalidData("unsupported state version 2".into());
    assert_eq!(State::read(Ok(Ok(persisted()))).unwrap_err(), unsupported);
    assert_eq!(State::load(Some(persisted())).unwrap_err(), unsupported);
    assert_eq!(unsupported.into_text(), "unsupported state version 2");
}

#[test]
fn only_missing_files_start_afresh() {
    let state = State::read(Err(FileFailure::Missing("no such file".into()))).unwrap();
    assert!(!state.is_suspended());
    assert!(state.ownership("tab-1").is_none());

    let unreadable = FileFailure::Other("permission denied".into());
    let error = State::read(Err(unreadable)).unwrap_err();
    assert_eq!(error, StateError::Unreadable("permission denied".into()));
    assert_eq!(error.into_text(), "permission denied");

    let mut state = State::load(None).unwrap();
    state.set_ownership("tab", TabOwnership::Manual);
    let read = State::read(Ok(Ok(state.persisted()))).unwrap();
    assert_eq!(read.ownership("tab"), Some(&TabOwnership::Manual));
}

#[test]
fn temporary_files_are_tried_a_bounded_number_of_times() {
    let taken = || Err(FileFailure::Exists("file exists".into()));
    assert_eq!(create_temp_file(0, Ok(())), CreateStep::Created);
    assert_eq!(create_temp_file(0, taken()), CreateStep::Retry);
    assert_eq!(create_temp_file(TEMPORARY_FILE_ATTEMPTS - 2, taken()), CreateStep::Retry);
    assert_eq!(
        create_temp_file(TEMPORARY_FILE_ATTEMPTS - 1, taken()),
        CreateStep::Failed("could not allocate a unique state temporary file".into())
    );
    assert_eq!(
        create_temp_file(0, Err(FileFailure::Missing("no directory".into()))),
        CreateStep::Failed("no directory".into())
    );
}

#[test]
fn a_later_entry_for_the_same_tab_wins() {
    let stored = PersistedState {
        version: 1,
        suspended: false,
        tabs: vec![
            ("tab".into(), TabOwnership::Manual),
            ("tab".into(), TabOwnership::ResetPending),
        ],
        pane_tabs: Vec::new(),
    };
    let state = State::load(Some(stored)).unwrap();
    assert_eq!(state.ownership("tab"), Some(&TabOwnership::ResetPending));
}

#[test]
fn a_failed_rename_gives_the_previous_label_back() {
    let mut state = State::load(None).unwrap();
    state.set_ownership(
        "tab",
        TabOwnership::PendingRename {
            observed: "[1] zsh".into(),
            desired: "[1] nvim".into(),
            desired_base: "nvim".into(),
            previous_base: Some("zsh".into()),
            previous_rendered: Some("[1] zsh".into()),
            previous_reset_pending: false,
        },
    );
    assert_eq!(
        state.resolve_pending_rename("tab", "[1] zsh"),
        Some(PendingRenameResolution::Retry)
    );
    assert_eq!(
        state.ownership("tab"),
        Some(&TabOwnership::Owned {
            last_base: "zsh".into(),
            last_rendered: "[1] zsh".into(),
        })
    );
    assert_eq!(state.resolve_pending_rename("tab", "[1] zsh"), None);
}

#[test]
fn absent_panes_are_remembered_while_their_tab_is_there() {
    let mut state = State::load(None).unwrap();
    state.set_pane_tab("gone", "w1:t1");
    state.set_pane_tab("lost", "w1:t9");
    state.set_pane_tab("moved", "w1:t1");
    state.refresh_pane_tabs(
        &vec![pane("moved", "w1:t2"), pane("new", "w1:t1")],
        &vec![session_tab("w1:t1"), session_tab("w1:t2")],
    );
    assert_eq!(state.pane_tab("gone"), Some("w1:t1"));
    assert_eq!(state.pane_tab("lost"), None);
    assert_eq!(state.pane_tab("moved"), Some("w1:t2"));
    assert_eq!(state.pane_tab("new"), Some("w1:t1"));
    state.remove_pane_tab("gone");
    assert_eq!(state.pane_tab("gone"), None);
}

#[test]
fn state_files_are_named_by_their_process() {
    assert_eq!(state_file(&b"/s".to_vec()), b"/s/state.json".to_vec());
    assert_eq!(temporary_state_name(42, 7), ".state.json.42.7.tmp");
    assert_eq!(
        snapshot_tab_ids(&vec![session_tab("b"), session_tab("a")]),
        ["b", "a"]
    );
}
