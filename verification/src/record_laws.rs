//! Which invocations are recorded, and what their records show.

use vstd::prelude::*;

use crate::config::{Config, Invocation};
use crate::herdr::{PaneProcessInfo, SessionSnapshot, SessionTab};
use crate::process_record;
use crate::runner;
use crate::runner::{
    EmitPurpose, LockOutcome, ReadPurpose, ReleasePurpose, RunView, RunnerView, TakePurpose,
    TryPurpose,
};
use crate::state;
use crate::tab_decision::TabDecisionView;
use crate::targeting;
use crate::telemetry;
use crate::telemetry::{
    AttemptView, DecisionView, PaneMappingView, PaneSnapshotView, ScopeView, TabSnapshotView,
};
use crate::text;

verus! {

/// An optional text as characters.
pub open spec fn shown_text(text: Option<String>) -> Option<Seq<char>> {
    if text is Some {
        Some(text->0@)
    } else {
        None
    }
}

/// Whether a record says what it is about and nothing more: nothing was seen or decided yet.
pub open spec fn about(
    record: Option<DecisionView>,
    trigger: Seq<char>,
    path: Seq<char>,
    kind: Seq<char>,
    workspace_id: Option<Seq<char>>,
    pane_id: Option<Seq<char>>,
    tab_id: Option<Seq<char>>,
    started: u64,
) -> bool {
    record matches Some(record) && {
        &&& record.record_type == "herdr_labels_decision"@
        &&& record.schema_version == 1
        &&& record.trigger == trigger
        &&& record.path == path
        &&& record.started_monotonic_ns == started
        &&& record.workspace_id == workspace_id
        &&& record.event_pane_id == pane_id
        &&& record.event_tab_id == tab_id
        &&& record.target_scope == (ScopeView { kind, workspace_id, tab_id, pane_id })
        &&& record.finished_monotonic_ns is None && record.snapshot is None
        &&& record.pane_mapping is None && record.process_error is None
        &&& record.available_tab_ids.len() == 0 && record.tab_decisions.len() == 0
        &&& record.lock_attempts.len() == 0 && !record.benign_timeout_or_drop
        &&& !record.rerun_requested && record.rerun_handoff == "not_requested"@
        &&& record.terminal_outcome == "pending"@ && record.process_status == "pending"@
    }
}

proof fn lemma_names()
    ensures
        "pane.closed"@ != "pane.focused"@,
        "pane.closed"@ != "tab.focused"@,
{
    reveal_strlit("pane.closed");
    reveal_strlit("pane.focused");
    reveal_strlit("tab.focused");
    assert("pane.closed"@.len() == 11 && "pane.focused"@.len() == 12);
    assert("pane.closed"@[0] == 'p' && "tab.focused"@[0] == 't');
}

/// With recording switched on, the closing of a pane is recorded as one of its workspace and the
/// refresh of a focused tab as one of the tab, with the ids of the event where it has any; nothing
/// else is recorded.
pub proof fn closings_and_focus_refreshes_are_recorded(config: Config, started: u64)
    requires
        config.settings.diagnostic_telemetry,
    ensures
        ({
            let record = telemetry::config_record(config, started);
            let event = shown_text(config.event);
            let or = |given: Option<String>, named: Option<Seq<char>>|
                if given is Some {
                    Some(given->0@)
                } else {
                    named
                };
            match config.invocation {
                Invocation::ClosedPane { workspace_id, pane_id } => about(
                    record,
                    "pane.closed"@,
                    "pane_closed"@,
                    "workspace"@,
                    or(config.event_workspace_id, Some(workspace_id@)),
                    or(config.event_pane_id, Some(pane_id@)),
                    shown_text(config.event_tab_id),
                    started,
                ),
                Invocation::Tab { workspace_id, tab_id } => {
                    &&& event == Some("pane.closed"@) ==> about(
                        record,
                        "pane.closed"@,
                        "pane_closed"@,
                        "workspace"@,
                        or(config.event_workspace_id, Some(workspace_id@)),
                        shown_text(config.event_pane_id),
                        or(config.event_tab_id, Some(tab_id@)),
                        started,
                    )
                    &&& event == Some("pane.focused"@) || event == Some("tab.focused"@) ==> about(
                        record,
                        event->0,
                        "focus_control"@,
                        "tab"@,
                        or(config.event_workspace_id, Some(workspace_id@)),
                        shown_text(config.event_pane_id),
                        or(config.event_tab_id, Some(tab_id@)),
                        started,
                    )
                    &&& event != Some("pane.closed"@) && event != Some("pane.focused"@) && event
                        != Some("tab.focused"@) ==> record is None
                },
                Invocation::Workspace(workspace_id) => if event == Some("pane.closed"@) {
                    about(
                        record,
                        "pane.closed"@,
                        "pane_closed"@,
                        "workspace"@,
                        or(config.event_workspace_id, Some(workspace_id@)),
                        shown_text(config.event_pane_id),
                        shown_text(config.event_tab_id),
                        started,
                    )
                } else {
                    record is None
                },
                _ => if event == Some("pane.closed"@) {
                    about(
                        record,
                        "pane.closed"@,
                        "pane_closed"@,
                        "workspace"@,
                        shown_text(config.event_workspace_id),
                        shown_text(config.event_pane_id),
                        shown_text(config.event_tab_id),
                        started,
                    )
                } else {
                    record is None
                },
            }
        }),
{
    lemma_names();
}

/// A request that is run for another process is recorded with its own ids: the closing of a pane,
/// and the refresh of a tab that was focused.
pub proof fn requests_are_recorded_with_their_own_ids(
    config: Config,
    invocation: Invocation,
    started: u64,
)
    requires
        config.settings.diagnostic_telemetry,
    ensures
        ({
            let record = telemetry::invocation_record(config, invocation, started);
            let event = shown_text(config.event);
            match invocation {
                Invocation::ClosedPane { workspace_id, pane_id } => about(
                    record,
                    "pane.closed"@,
                    "pane_closed"@,
                    "workspace"@,
                    Some(workspace_id@),
                    Some(pane_id@),
                    None,
                    started,
                ),
                Invocation::Tab { workspace_id, tab_id } => if event == Some("pane.focused"@)
                    || event == Some("tab.focused"@) {
                    about(
                        record,
                        event->0,
                        "focus_control"@,
                        "tab"@,
                        Some(workspace_id@),
                        shown_text(config.event_pane_id),
                        Some(tab_id@),
                        started,
                    )
                } else {
                    record is None
                },
                _ => record is None,
            }
        }),
{
}

/// What is noted on a record leaves the rest of it as it is.
pub proof fn notes_leave_the_rest_of_a_record(
    record: DecisionView,
    mapping: PaneMappingView,
    decision: TabDecisionView,
    attempt: AttemptView,
    handoff: Seq<char>,
    outcome: Seq<char>,
)
    ensures
        telemetry::recording_pane_mapping(Some(record), mapping) == Some(
            DecisionView { pane_mapping: Some(mapping), ..record },
        ),
        telemetry::recording_tab_decision(Some(record), Some(decision)) == Some(
            DecisionView { tab_decisions: record.tab_decisions + seq![decision], ..record },
        ),
        telemetry::recording_tab_decision(Some(record), None) == Some(record),
        telemetry::recording_lock_attempt(Some(record), attempt) == Some(
            DecisionView { lock_attempts: record.lock_attempts + seq![attempt], ..record },
        ),
        telemetry::recording_rerun_requested(Some(record)) == Some(
            DecisionView { rerun_requested: true, rerun_handoff: "requested"@, ..record },
        ),
        telemetry::recording_handoff(Some(record), handoff) == Some(
            DecisionView { rerun_handoff: handoff, ..record },
        ),
        outcome != "lock_dropped"@ ==> telemetry::recording_terminal_outcome(Some(record), outcome)
            == Some(DecisionView { terminal_outcome: outcome, ..record }),
        telemetry::recording_terminal_outcome(Some(record), "lock_dropped"@) == Some(
            DecisionView {
                terminal_outcome: "lock_dropped"@,
                benign_timeout_or_drop: true,
                ..record
            },
        ),
{
    assert(record.tab_decisions.push(decision) =~= record.tab_decisions + seq![decision]);
    assert(record.lock_attempts.push(attempt) =~= record.lock_attempts + seq![attempt]);
}

/// Where nothing is recorded, nothing is noted.
pub proof fn nothing_is_noted_without_a_record(
    snapshot: SessionSnapshot,
    target_ids: Seq<Seq<char>>,
    mapping: PaneMappingView,
    decision: Option<TabDecisionView>,
    attempt: AttemptView,
    note: Seq<char>,
    result: Result<(), Seq<char>>,
    now: u64,
)
    ensures
        telemetry::recording_snapshot(None, snapshot, target_ids) is None,
        telemetry::recording_pane_mapping(None, mapping) is None,
        telemetry::recording_tab_decision(None, decision) is None,
        telemetry::recording_lock_attempt(None, attempt) is None,
        telemetry::recording_rerun_requested(None) is None,
        telemetry::recording_handoff(None, note) is None,
        telemetry::recording_terminal_outcome(None, note) is None,
        telemetry::closed_record(None, result, now) is None,
{
}

/// Whether a tab is one that a record is about.
pub open spec fn within(record: DecisionView, tab: SessionTab) -> bool {
    record.workspace_id matches Some(workspace_id) ==> tab.tab.workspace_id@ == workspace_id
}

/// A record takes over the tabs of its workspace, or all tabs without one, and the panes of these
/// tabs, with everything it needs of them; a single target is named.
pub proof fn records_show_the_session(
    record: DecisionView,
    snapshot: SessionSnapshot,
    target_ids: Seq<Seq<char>>,
    tab: int,
    pane: int,
)
    requires
        0 <= tab < snapshot.tabs@.len(),
        0 <= pane < snapshot.panes@.len(),
    ensures
        ({
            let shown = telemetry::with_snapshot(record, snapshot, target_ids);
            let listed = snapshot.tabs@[tab];
            let held = snapshot.panes@[pane];
            &&& shown == (DecisionView {
                available_tab_ids: shown.available_tab_ids,
                snapshot: shown.snapshot,
                target_scope: shown.target_scope,
                ..record
            })
            &&& shown.target_scope == (ScopeView {
                tab_id: shown.target_scope.tab_id,
                ..record.target_scope
            })
            &&& target_ids.len() == 1 ==> shown.target_scope.tab_id == Some(target_ids[0])
            &&& target_ids.len() != 1 ==> shown.target_scope.tab_id == record.target_scope.tab_id
            &&& shown.snapshot matches Some(seen) && {
                &&& seen.tabs.len() == shown.available_tab_ids.len()
                &&& seen.focused_pane_id == shown_text(snapshot.focused_pane_id)
                &&& record.event_pane_id is None ==> seen.closed_pane_present is None
                &&& record.event_pane_id matches Some(pane_id) ==> seen.closed_pane_present == Some(
                    targeting::pane_by_id(snapshot, pane_id) is Some,
                )
                &&& within(record, listed) ==> shown.available_tab_ids.contains(listed.tab.tab_id@)
                &&& within(record, listed) ==> seen.tabs.contains(
                    TabSnapshotView {
                        tab_id: listed.tab.tab_id@,
                        workspace_id: listed.tab.workspace_id@,
                        label: listed.tab.label@,
                        pane_count: listed.pane_count,
                        focused: listed.focused,
                    },
                )
                &&& within(record, listed) && held.tab_id@ == listed.tab.tab_id@
                    ==> seen.panes.contains(
                    PaneSnapshotView {
                        pane_id: held.pane_id@,
                        tab_id: held.tab_id@,
                        agent: shown_text(held.agent),
                    },
                )
            }
        }),
{
    let tabs = telemetry::recorded_tabs(record.workspace_id, snapshot);
    let listed = snapshot.tabs@[tab];
    let held = snapshot.panes@[pane];
    let shown = telemetry::with_snapshot(record, snapshot, target_ids);
    let seen = shown.snapshot->0;
    if within(record, listed) {
        snapshot.tabs@.lemma_filter_contains(telemetry::recorded_tab(record.workspace_id), tab);
        let place = choose|i: int| 0 <= i < tabs.len() && tabs[i] == listed;
        assert(shown.available_tab_ids[place] == listed.tab.tab_id@);
        assert(seen.tabs[place] == telemetry::tab_snapshot(listed));
        if held.tab_id@ == listed.tab.tab_id@ {
            assert(tabs[place].tab.tab_id@ == held.tab_id@);
            assert(state::tab_ids(tabs).contains(held.tab_id@));
            let panes = snapshot.panes@.filter(telemetry::recorded_pane(tabs));
            snapshot.panes@.lemma_filter_contains(telemetry::recorded_pane(tabs), pane);
            let at = choose|i: int| 0 <= i < panes.len() && panes[i] == held;
            assert(seen.panes[at] == telemetry::pane_snapshot(held));
        }
    }
}

/// A record takes over nothing of other workspaces.
pub proof fn records_show_nothing_else(
    record: DecisionView,
    snapshot: SessionSnapshot,
    target_ids: Seq<Seq<char>>,
    place: int,
)
    ensures
        ({
            let shown = telemetry::with_snapshot(record, snapshot, target_ids);
            let seen = shown.snapshot->0;
            &&& 0 <= place < seen.tabs.len() ==> {
                &&& record.workspace_id matches Some(workspace_id) ==> seen.tabs[place].workspace_id
                    == workspace_id
                &&& shown.available_tab_ids[place] == seen.tabs[place].tab_id
            }
            &&& 0 <= place < seen.panes.len() ==> shown.available_tab_ids.contains(
                seen.panes[place].tab_id,
            )
        }),
{
    let tabs = telemetry::recorded_tabs(record.workspace_id, snapshot);
    let shown = telemetry::with_snapshot(record, snapshot, target_ids);
    let seen = shown.snapshot->0;
    if 0 <= place < seen.tabs.len() {
        snapshot.tabs@.lemma_filter_pred(telemetry::recorded_tab(record.workspace_id), place);
    }
    if 0 <= place < seen.panes.len() {
        let wanted = telemetry::recorded_pane(tabs);
        snapshot.panes@.lemma_filter_pred(wanted, place);
        let pane = snapshot.panes@.filter(wanted)[place];
        assert(state::tab_ids(tabs).contains(pane.tab_id@));
        let at = choose|i: int| 0 <= i < tabs.len() && (#[trigger] tabs[i]).tab.tab_id@ == pane.tab_id@;
        assert(shown.available_tab_ids[at] == pane.tab_id@);
    }
}

/// A record that is closed says when, whether the run went well, and how it failed.
pub proof fn closed_records_say_how_it_ended(
    record: DecisionView,
    error: Seq<char>,
    finished: u64,
)
    ensures
        ({
            let well = telemetry::closed(record, Ok(()), finished);
            let failed = telemetry::closed(record, Err(error), finished);
            let outcome = telemetry::combined_outcome(record.tab_decisions);
            let decided = record.terminal_outcome != "pending"@;
            &&& well == (DecisionView {
                finished_monotonic_ns: Some(finished),
                process_status: "success"@,
                terminal_outcome: if decided {
                    record.terminal_outcome
                } else {
                    outcome
                },
                ..record
            })
            &&& failed == (DecisionView {
                finished_monotonic_ns: Some(finished),
                process_status: "error"@,
                process_error: Some(error),
                terminal_outcome: if decided {
                    record.terminal_outcome
                } else if outcome == "no_candidate_tabs"@ {
                    "error"@
                } else {
                    outcome
                },
                ..record
            })
        }),
{
}

/// The outcomes of tabs follow one another; a tab without one leaves nothing.
pub proof fn outcomes_are_those_of_the_tabs(
    decisions: Seq<TabDecisionView>,
    decision: TabDecisionView,
)
    ensures
        telemetry::outcomes(Seq::empty()).len() == 0,
        telemetry::outcomes(decisions.push(decision)) == match decision.outcome {
            Some(outcome) => telemetry::outcomes(decisions).push(outcome),
            None => telemetry::outcomes(decisions),
        },
{
    assert(decisions.push(decision).drop_last() =~= decisions);
}

/// A run whose tabs all came to the same outcome has that outcome; one without outcomes had no
/// tabs.
pub proof fn shared_outcomes_are_the_outcome_of_the_run(
    decisions: Seq<TabDecisionView>,
    outcome: Seq<char>,
)
    requires
        forall|i: int|
            0 <= i < decisions.len() ==> ((#[trigger] decisions[i]).outcome matches Some(reached)
                ==> reached == outcome),
    ensures
        (exists|i: int| 0 <= i < decisions.len() && (#[trigger] decisions[i]).outcome is Some)
            ==> telemetry::combined_outcome(decisions) == outcome,
        (forall|i: int| 0 <= i < decisions.len() ==> (#[trigger] decisions[i]).outcome is None)
            ==> telemetry::combined_outcome(decisions) == "no_candidate_tabs"@,
{
    lemma_shared(decisions, outcome);
}

proof fn lemma_shared(decisions: Seq<TabDecisionView>, outcome: Seq<char>)
    requires
        forall|i: int|
            0 <= i < decisions.len() ==> ((#[trigger] decisions[i]).outcome matches Some(reached)
                ==> reached == outcome),
    ensures
        text::ascending(telemetry::outcomes(decisions)) == if exists|i: int|
            0 <= i < decisions.len() && (#[trigger] decisions[i]).outcome is Some {
            seq![outcome]
        } else {
            Seq::empty()
        },
    decreases decisions.len(),
{
    if decisions.len() > 0 {
        let before = decisions.drop_last();
        assert forall|i: int| 0 <= i < before.len() implies ((#[trigger] before[i]).outcome matches
            Some(reached) ==> reached == outcome) by {
            assert(before[i] == decisions[i]);
        }
        lemma_shared(before, outcome);
        let earlier = telemetry::outcomes(before);
        if exists|i: int| 0 <= i < before.len() && (#[trigger] before[i]).outcome is Some {
            let i = choose|i: int| 0 <= i < before.len() && (#[trigger] before[i]).outcome is Some;
            assert(decisions[i] == before[i]);
        } else if exists|i: int| 0 <= i < decisions.len() && (#[trigger] decisions[i]).outcome
            is Some {
            let i = choose|i: int|
                0 <= i < decisions.len() && (#[trigger] decisions[i]).outcome is Some;
            if i < before.len() {
                assert(before[i] == decisions[i]);
            }
        }
        let last = decisions.last();
        assert(decisions[decisions.len() - 1] == last);
        if last.outcome is Some {
            assert(earlier.push(outcome).drop_last() =~= earlier);
            text::lemma_precedes_irreflexive(outcome);
            reveal_with_fuel(text::insert_ascending, 2);
            assert(text::insert_ascending(Seq::empty(), outcome) =~= seq![outcome]);
            assert(text::insert_ascending(seq![outcome], outcome) =~= seq![outcome]);
        }
    }
}

/// Outcomes are listed in ascending order, each once, with a comma between each two.
pub proof fn different_outcomes_are_listed(decisions: Seq<TabDecisionView>)
    requires
        text::ascending(telemetry::outcomes(decisions)).len() > 1,
    ensures
        telemetry::combined_outcome(decisions) == "multiple:"@ + text::joined(
            text::ascending(telemetry::outcomes(decisions)),
            ","@,
        ),
        text::strictly_ascending(text::ascending(telemetry::outcomes(decisions))),
        text::ascending(telemetry::outcomes(decisions)).to_set() == telemetry::outcomes(
            decisions,
        ).to_set(),
{
    text::ascending_lists_each_text_once(telemetry::outcomes(decisions));
}

/// A separator stands between each two texts of a list, and nowhere else.
pub proof fn separators_stand_between_texts(
    list: Seq<Seq<char>>,
    text: Seq<char>,
    separator: Seq<char>,
)
    ensures
        text::joined(Seq::empty(), separator).len() == 0,
        text::joined(seq![text], separator) == text,
        list.len() > 0 ==> text::joined(list.push(text), separator) == text::joined(list, separator)
            + separator + text,
{
    assert(list.push(text).drop_last() =~= list);
}

/// A process is recorded by its id and by the file names of its executable and of how it was
/// called.
pub proof fn processes_are_recorded_by_file_name(pane_id: Seq<char>, info: PaneProcessInfo, i: int)
    requires
        0 <= i < info.foreground_processes@.len(),
    ensures
        ({
            let record = process_record::process_record(pane_id, info);
            let process = info.foreground_processes@[i];
            &&& record.pane_id == pane_id
            &&& record.foreground_process_group_id == info.foreground_process_group_id
            &&& record.processes.len() == info.foreground_processes@.len()
            &&& record.processes[i].pid == process.pid
            &&& record.processes[i].executable_basename == process_record::file_name(process.name@)
            &&& process.argv0 matches Some(argv0) ==> record.processes[i].argv0_basename == Some(
                process_record::file_name(argv0@),
            )
            &&& process.argv0 is None ==> record.processes[i].argv0_basename is None
            &&& info.leader_process() is None ==> record.leader is None
            &&& info.leader_process() == Some(process) ==> record.leader == Some(
                record.processes[i],
            )
        }),
{
}

/// The file name of a path is what stands behind its last slash.
pub proof fn file_names_stand_behind_the_last_slash(directory: Seq<char>, name: Seq<char>)
    requires
        directory.len() > 0 ==> directory.last() == '/',
        name.len() > 0,
        name != seq!['.'] && name != seq!['.', '.'],
        forall|i: int| 0 <= i < name.len() ==> #[trigger] name[i] != '/',
    ensures
        process_record::file_name(directory + name) == name,
        process_record::file_name(directory + name + seq!['/']) == name,
        process_record::file_name(directory + name + seq!['/', '.']) == name,
{
    text::lemma_last_segment(directory, name);
    let path = directory + name;
    assert(path.skip(directory.len() as int) =~= name);
    let slashed = path + seq!['/'];
    assert(slashed.last() == '/');
    assert(slashed.skip(slashed.len() as int) =~= Seq::empty());
    assert(slashed.take(slashed.len() - 1) =~= path);
    assert(path + seq!['/', '.'] =~= slashed + seq!['.']);
    text::lemma_last_segment(slashed, seq!['.']);
    assert((slashed + seq!['.']).skip(slashed.len() as int) =~= seq!['.']);
    assert((slashed + seq!['.']).take(slashed.len() - 1) =~= path);
    reveal_with_fuel(process_record::last_component, 3);
}

/// The record of a step, if there is one.
pub open spec fn on_record(step: RunView) -> Option<DecisionView> {
    runner::runner_of(step)->0.record
}

/// A record with one more attempt to take the lock.
pub open spec fn attempted(
    record: DecisionView,
    phase: Seq<char>,
    result: Seq<char>,
    wait_ns: u64,
) -> DecisionView {
    DecisionView {
        lock_attempts: record.lock_attempts + seq![AttemptView { phase, result, wait_ns }],
        ..record
    }
}

proof fn lemma_attempted(record: DecisionView, phase: Seq<char>, result: Seq<char>, wait_ns: u64)
    ensures
        telemetry::recording_lock_attempt(Some(record), AttemptView { phase, result, wait_ns })
            == Some(attempted(record, phase, result, wait_ns)),
{
    let attempt = AttemptView { phase, result, wait_ns };
    assert(record.lock_attempts.push(attempt) =~= record.lock_attempts + seq![attempt]);
}

/// How the lock was waited for is recorded: that it was taken, that an update was dropped, or that
/// it failed.
pub proof fn waits_for_the_lock_are_recorded(
    before: RunnerView,
    record: DecisionView,
    error: String,
    wait_ns: u64,
    now: u64,
)
    requires
        before.record == Some(record),
        !before.locked,
    ensures
        on_record(runner::acquired(before, LockOutcome::Acquired, wait_ns, now)) == Some(
            attempted(record, "exact"@, "acquired"@, wait_ns),
        ),
        on_record(runner::acquired(before, LockOutcome::Failed(error), wait_ns, now)) == Some(
            attempted(record, "exact"@, "error"@, wait_ns),
        ),
        on_record(runner::acquired(before, LockOutcome::TimedOut(error), wait_ns, now)) == Some(
            match before.config.invocation {
                Invocation::Clear | Invocation::Reset { .. } | Invocation::Toggle { .. } =>
                    attempted(record, "exact"@, "error"@, wait_ns),
                Invocation::Tab { .. } | Invocation::Init { .. } | Invocation::Preexec { .. }
                | Invocation::Precmd { .. } => DecisionView {
                    terminal_outcome: "lock_dropped"@,
                    benign_timeout_or_drop: true,
                    ..attempted(record, "exact"@, "timeout"@, wait_ns)
                },
                _ => attempted(record, "exact"@, "error"@, wait_ns),
            },
        ),
{
    lemma_attempted(record, "exact"@, "acquired"@, wait_ns);
    lemma_attempted(record, "exact"@, "error"@, wait_ns);
    lemma_attempted(record, "exact"@, "timeout"@, wait_ns);
}

/// Each attempt to take the lock is recorded with what it was made for and how it went.
pub proof fn attempts_are_recorded(
    before: RunnerView,
    record: DecisionView,
    wait_ns: u64,
    now: u64,
)
    requires
        before.record == Some(record),
        !before.locked,
    ensures
        on_record(runner::tried(before, TryPurpose::First, Ok(true), wait_ns, now)) == Some(
            attempted(record, "try"@, "acquired"@, wait_ns),
        ),
        on_record(runner::tried(before, TryPurpose::First, Ok(false), wait_ns, now)) == Some(
            attempted(record, "try"@, "busy"@, wait_ns),
        ),
        on_record(runner::tried(before, TryPurpose::Queued, Ok(false), wait_ns, now)) == Some(
            attempted(record, "handoff"@, "busy"@, wait_ns),
        ),
        on_record(runner::tried(before, TryPurpose::Handoff, Ok(false), wait_ns, now)) == Some(
            DecisionView {
                rerun_handoff: "busy"@,
                ..attempted(record, "post_release"@, "busy"@, wait_ns)
            },
        ),
{
    lemma_attempted(record, "try"@, "acquired"@, wait_ns);
    lemma_attempted(record, "try"@, "busy"@, wait_ns);
    lemma_attempted(record, "handoff"@, "busy"@, wait_ns);
    lemma_attempted(record, "post_release"@, "busy"@, wait_ns);
}

/// A request that was left behind, a rename of the plugin's own and a command that was dropped are
/// recorded as the outcome of the run.
pub proof fn early_ends_are_recorded(
    before: RunnerView,
    record: DecisionView,
    tab_id: Seq<char>,
    purpose: ReadPurpose,
    now: u64,
)
    requires
        before.record == Some(record),
        !before.locked,
    ensures
        on_record(runner::requested(before, Ok(()))) == Some(
            DecisionView {
                rerun_requested: true,
                rerun_handoff: "queued"@,
                terminal_outcome: "queued"@,
                ..attempted(record, "queue"@, "published"@, 0)
            },
        ),
        purpose is Owned ==> on_record(runner::tab_read(before, tab_id, purpose, Ok(None), now))
            == Some(DecisionView { terminal_outcome: "owned_rename_noop"@, ..record }),
        on_record(runner::probed(before, Ok(false))) == Some(
            DecisionView {
                terminal_outcome: "lock_dropped"@,
                benign_timeout_or_drop: true,
                ..record
            },
        ),
        on_record(runner::checked(before, Ok(false))) == Some(
            DecisionView { rerun_handoff: "not_needed"@, ..record },
        ),
        before.remaining_passes == 0 ==> on_record(
            runner::released(before, ReleasePurpose::Handoff),
        ) == Some(DecisionView { rerun_handoff: "not_needed"@, ..record }),
{
    let asked = DecisionView { rerun_requested: true, rerun_handoff: "requested"@, ..record };
    lemma_attempted(asked, "queue"@, "published"@, 0);
    reveal_strlit("queued");
    reveal_strlit("lock_dropped");
    reveal_strlit("owned_rename_noop");
    assert("queued"@.len() != "lock_dropped"@.len());
    assert("owned_rename_noop"@.len() != "lock_dropped"@.len());
}

/// A request that is run has a record of its own, which says where it came from; without a record
/// of its own, the invocation is recorded for it.
pub proof fn requests_that_are_run_are_recorded(
    before: RunnerView,
    request: Invocation,
    record: DecisionView,
    last: bool,
    wait_ns: u64,
    now: u64,
)
    requires
        before.remaining_passes > 0,
        before.locked,
        telemetry::invocation_record(before.config, request, now) == Some(record),
    ensures
        on_record(runner::took(before, TakePurpose::Queued, Ok(Some(request)), wait_ns, now))
            == Some(
            DecisionView {
                rerun_requested: true,
                rerun_handoff: "deferred_consumed"@,
                ..attempted(record, "handoff"@, "acquired"@, wait_ns)
            },
        ),
        on_record(runner::took(before, TakePurpose::Handoff, Ok(Some(request)), wait_ns, now))
            == Some(
            DecisionView {
                rerun_requested: true,
                rerun_handoff: "deferred_consumed"@,
                ..attempted(record, "post_release"@, "acquired"@, wait_ns)
            },
        ),
        on_record(runner::emitted(before, EmitPurpose::Pass { invocation: request, last }, now))
            == Some(
            DecisionView {
                rerun_requested: true,
                rerun_handoff: "deferred_consumed"@,
                ..record
            },
        ),
{
    let asked = DecisionView { rerun_requested: true, rerun_handoff: "requested"@, ..record };
    lemma_attempted(asked, "handoff"@, "acquired"@, wait_ns);
    lemma_attempted(asked, "post_release"@, "acquired"@, wait_ns);
}

/// A pass that is followed by a request, and a hand-over without one, are recorded as such; what
/// runs without a record is recorded if its invocation calls for it.
pub proof fn hand_overs_are_recorded(
    before: RunnerView,
    request: Invocation,
    record: DecisionView,
    last: bool,
    wait_ns: u64,
    now: u64,
)
    requires
        before.remaining_passes > 0,
        before.locked,
    ensures
        before.record == Some(record) ==> {
            &&& on_record(
                runner::took(before, TakePurpose::Pass { last }, Ok(Some(request)), wait_ns, now),
            ) == Some(
                DecisionView {
                    rerun_requested: true,
                    rerun_handoff: "deferred_published"@,
                    ..record
                },
            )
            &&& on_record(
                runner::took(before, TakePurpose::Pass { last }, Ok(None), wait_ns, now),
            ) == Some(record)
            &&& on_record(
                runner::took(before, TakePurpose::Handoff, Ok(None), wait_ns, now),
            ) == Some(
                DecisionView {
                    rerun_handoff: "empty"@,
                    ..attempted(record, "post_release"@, "acquired"@, wait_ns)
                },
            )
            &&& on_record(
                runner::took(before, TakePurpose::Queued, Ok(None), wait_ns, now),
            ) == Some(record)
        },
        before.record is None ==> on_record(
            runner::took(before, TakePurpose::Queued, Ok(None), wait_ns, now),
        ) == telemetry::invocation_record(before.config, before.config.invocation, now),
        runner::runner_of(runner::begun(before.config, before.fallback_shell, now))->0.record
            == telemetry::config_record(before.config, now),
{
    if before.record == Some(record) {
        lemma_attempted(record, "post_release"@, "acquired"@, wait_ns);
    }
}

/// Of two texts that differ behind a common start the one with the smaller character comes first,
/// and a text comes before every longer one that starts with it.
pub proof fn texts_are_ordered_by_their_characters(
    start: Seq<char>,
    first: char,
    second: char,
    rest: Seq<char>,
    other: Seq<char>,
)
    requires
        first < second,
    ensures
        text::precedes(start.push(first) + rest, start.push(second) + other),
        !text::precedes(start.push(second) + other, start.push(first) + rest),
        text::precedes(start, start.push(first) + rest),
        !text::precedes(start.push(first) + rest, start),
    decreases start.len(),
{
    let left = start.push(first) + rest;
    let right = start.push(second) + other;
    if start.len() > 0 {
        let shorter = start.drop_first();
        assert(left.drop_first() =~= shorter.push(first) + rest);
        assert(right.drop_first() =~= shorter.push(second) + other);
        texts_are_ordered_by_their_characters(shorter, first, second, rest, other);
    }
}

/// A failure is recorded with what was said of it, and only a failure is.
pub proof fn failures_keep_their_text(error: String)
    ensures
        telemetry::result_view(Ok(())) == Ok::<(), Seq<char>>(()),
        telemetry::result_view(Err(error)) == Err::<(), Seq<char>>(error@),
{
}

} // verus!
