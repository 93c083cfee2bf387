use herdr_labels::config::Invocation;
use herdr_labels::herdr::{PaneInfo, SessionSnapshot, SessionTab};
use herdr_labels::numbering::Tab;
use herdr_labels::state::State;
use herdr_labels::targeting::{
    find_pane, find_tab, naming_pane, pane_targets_tab, resolve_closed_pane,
    scoped_closed_pane_tabs, scoped_tabs, tab_positions,
};

fn tab(id: &str, workspace: &str, label: &str, focused: bool) -> SessionTab {
    SessionTab {
        tab: Tab {
            tab_id: id.into(),
            workspace_id: workspace.into(),
            label: label.into(),
        },
        focused,
        pane_count: 1,
    }
}

fn snapshot(tabs: Vec<SessionTab>) -> SessionSnapshot {
    let panes = tabs
        .iter()
        .map(|tab| PaneInfo {
            pane_id: format!("{}:pane", tab.tab.tab_id),
            tab_id: tab.tab.tab_id.clone(),
            agent: None,
        })
        .collect();
    SessionSnapshot {
        focused_pane_id: None,
        tabs,
        panes,
    }
}

#[test]
fn positions_are_independent_per_workspace_and_continue_after_nine() {
    let mut tabs = (1..=11)
        .map(|position| tab(&format!("w1:t{position}"), "w1", "name", false))
        .collect::<Vec<_>>();
    tabs.push(tab("w2:t1", "w2", "other", false));
    let positions = tab_positions(&snapshot(tabs));
    assert_eq!(*positions.get("w1:t10").unwrap(), 10);
    assert_eq!(*positions.get("w1:t11").unwrap(), 11);
    assert_eq!(*positions.get("w2:t1").unwrap(), 1);
}

#[test]
fn pane_selection_is_conservative_for_background_splits() {
    let mut split = tab("w1:t1", "w1", "1", false);
    split.pane_count = 2;
    let mut session = snapshot(vec![split.clone()]);
    session.panes.push(PaneInfo {
        pane_id: "other".into(),
        tab_id: "w1:t1".into(),
        agent: None,
    });
    assert_eq!(naming_pane(&session, &split), None);

    split.focused = true;
    session.focused_pane_id = Some("other".into());
    assert_eq!(naming_pane(&session, &split), Some("other"));
}

#[test]
fn shell_invocations_follow_the_pane_after_it_moves() {
    let session = snapshot(vec![
        tab("w1:t1", "w1", "one", false),
        tab("w2:t1", "w2", "two", false),
    ]);
    let invocation = Invocation::Preexec {
        pane_id: "w2:t1:pane".into(),
        shell: "zsh".into(),
        program: Some("nvim".into()),
    };
    let targets = scoped_tabs(&session, &invocation);
    assert_eq!(targets.len(), 1);
    assert_eq!(targets[0].tab.tab_id, "w2:t1");

    let stale = Invocation::Preexec {
        pane_id: "w1:old-pane-id".into(),
        shell: "zsh".into(),
        program: Some("nvim".into()),
    };
    assert!(scoped_tabs(&session, &stale).is_empty());
}

fn ids(tabs: &[&SessionTab]) -> Vec<String> {
    tabs.iter().map(|tab| tab.tab.tab_id.clone()).collect()
}

fn two_workspaces() -> SessionSnapshot {
    snapshot(vec![
        tab("w1:t1", "w1", "one", false),
        tab("w2:t1", "w2", "two", false),
        tab("w1:t2", "w1", "three", false),
    ])
}

#[test]
fn positions_count_up_without_gaps_in_each_workspace() {
    let positions = tab_positions(&two_workspaces());
    assert_eq!(positions.get("w1:t1"), Some(&1));
    assert_eq!(positions.get("w2:t1"), Some(&1));
    assert_eq!(positions.get("w1:t2"), Some(&2));
    assert_eq!(positions.get("w1:t3"), None);
}

#[test]
fn each_invocation_has_its_scope() {
    let session = two_workspaces();
    assert_eq!(ids(&scoped_tabs(&session, &Invocation::Full)), ["w1:t1", "w2:t1", "w1:t2"]);
    assert_eq!(
        ids(&scoped_tabs(&session, &Invocation::Workspace("w1".into()))),
        ["w1:t1", "w1:t2"]
    );
    assert_eq!(
        ids(&scoped_tabs(
            &session,
            &Invocation::Tab {
                workspace_id: "w1".into(),
                tab_id: "w1:t2".into(),
            }
        )),
        ["w1:t2"]
    );
    assert_eq!(
        ids(&scoped_tabs(
            &session,
            &Invocation::Reset {
                workspace_id: Some("w1".into()),
                tab_id: Some("w1:t1".into()),
            }
        )),
        ["w1:t1"]
    );
    let closed = Invocation::ClosedPane {
        workspace_id: "w1".into(),
        pane_id: "w1:t1:gone".into(),
    };
    assert_eq!(
        ids(&scoped_closed_pane_tabs(&session, &closed, Some("w1:t2"))),
        ["w1:t2"]
    );
}

#[test]
fn panes_and_tabs_are_found_by_id() {
    let session = two_workspaces();
    assert_eq!(find_pane(&session, "w2:t1:pane").unwrap().tab_id, "w2:t1");
    assert!(find_pane(&session, "w2:t2:pane").is_none());
    assert_eq!(find_tab(&session, "w1:t2").unwrap().tab.label, "three");
    assert!(find_tab(&session, "w1:t3").is_none());
    assert!(pane_targets_tab(&session, "w1:t1:pane", "w1:t1"));
    assert!(!pane_targets_tab(&session, "w1:t1:pane", "w2:t1"));
}

#[test]
fn closed_panes_are_resolved_through_their_remembered_tab() {
    let session = two_workspaces();
    let mut state = State::load(None).unwrap();
    let missing = resolve_closed_pane(&state, &session, "w1", "w1:t1:gone");
    assert_eq!(missing.resolution, "missing");
    assert_eq!(missing.validation, "not_run");
    assert!(!missing.valid);

    state.set_pane_tab("w1:t1:gone", "w1:t1");
    let resolved = resolve_closed_pane(&state, &session, "w1", "w1:t1:gone");
    assert_eq!(resolved.mapped_tab_id.as_deref(), Some("w1:t1"));
    assert_eq!(resolved.resolution, "resolved");
    assert_eq!(resolved.validation, "valid");
    assert!(resolved.valid);

    let mismatched = resolve_closed_pane(&state, &session, "w2", "w1:t1:gone");
    assert_eq!(mismatched.validation, "workspace_mismatch");
    assert!(!mismatched.valid);
}
