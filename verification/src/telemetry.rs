//! In-memory diagnostic decision records emitted through the plugin command log.

use vstd::prelude::*;
#[allow(unused_imports)]
use vstd::string::{StrSliceExecFns, StringExecFns};

use crate::config::{Config, Invocation};
use crate::herdr::{PaneInfo, SessionSnapshot, SessionTab};
use crate::numbering::Tab;
use crate::sequences;
use crate::state;
use crate::state::TabOwnership;
use crate::tab_decision;
use crate::tab_decision::{TabDecisionRecord, TabDecisionView, TabTelemetry};
use crate::targeting;
use crate::targeting::find_pane;
use crate::text;
use crate::text::{add_ascending, borrow_text, join, list_contains, text_eq};

verus! {

/// The type of every record.
pub const RECORD_TYPE: &'static str = "herdr_labels_decision";

/// The version of the record format.
pub const SCHEMA_VERSION: u8 = 1;

/// What an invocation set out to reconcile.
#[derive(Debug, PartialEq, Eq)]
pub struct TargetScope {
    pub kind: String,
    pub workspace_id: Option<String>,
    pub tab_id: Option<String>,
    pub pane_id: Option<String>,
}

/// The attempts to take the session lock.
#[derive(Debug, PartialEq, Eq)]
pub struct LockRecord {
    pub attempts: Vec<LockAttempt>,
    pub benign_timeout_or_drop: bool,
}

/// One attempt to take the session lock.
#[derive(Debug, PartialEq, Eq)]
pub struct LockAttempt {
    pub phase: String,
    pub result: String,
    pub wait_ns: u64,
}

/// Whether a rerun was requested, and what became of it.
#[derive(Debug, PartialEq, Eq)]
pub struct RerunRecord {
    pub requested: bool,
    pub handoff: String,
}

/// The snapshot that a decision was based on.
#[derive(Debug, PartialEq, Eq)]
pub struct SnapshotRecord {
    pub tabs: Vec<TabSnapshotRecord>,
    pub panes: Vec<PaneSnapshotRecord>,
    pub focused_pane_id: Option<String>,
    pub closed_pane_present: Option<bool>,
}

/// How a closed pane was mapped to its tab.
#[derive(Debug, PartialEq, Eq)]
pub struct PaneMappingRecord {
    pub pane_id: String,
    pub mapped_tab_id: Option<String>,
    pub resolution: String,
    pub validation: String,
    pub consumed: bool,
}

/// A tab of a recorded snapshot.
#[derive(Debug, PartialEq, Eq)]
pub struct TabSnapshotRecord {
    pub tab_id: String,
    pub workspace_id: String,
    pub label: String,
    pub pane_count: usize,
    pub focused: bool,
}

/// A pane of a recorded snapshot.
#[derive(Debug, PartialEq, Eq)]
pub struct PaneSnapshotRecord {
    pub pane_id: String,
    pub tab_id: String,
    pub agent: Option<String>,
}

/// One in-memory decision record for a close or focus-control path.
///
/// The record is emitted once, after reconciliation, so collecting it does not add
/// filesystem I/O to the measured decision. Process arguments are intentionally
/// reduced to executable and `argv0` basenames.
#[derive(Debug, PartialEq, Eq)]
pub struct DecisionRecord {
    pub record_type: &'static str,
    pub schema_version: u8,
    pub trigger: String,
    pub path: String,
    pub started_monotonic_ns: u64,
    pub finished_monotonic_ns: Option<u64>,
    pub workspace_id: Option<String>,
    pub event_pane_id: Option<String>,
    pub event_tab_id: Option<String>,
    pub available_tab_ids: Vec<String>,
    pub target_scope: TargetScope,
    pub snapshot: Option<SnapshotRecord>,
    pub pane_mapping: Option<PaneMappingRecord>,
    pub tab_decisions: Vec<TabDecisionRecord>,
    pub lock: LockRecord,
    pub rerun: RerunRecord,
    pub terminal_outcome: String,
    pub process_status: String,
    pub process_error: Option<String>,
}

/// A target scope with its texts as character sequences.
#[verifier::ext_equal]
pub struct ScopeView {
    pub kind: Seq<char>,
    pub workspace_id: Option<Seq<char>>,
    pub tab_id: Option<Seq<char>>,
    pub pane_id: Option<Seq<char>>,
}

/// A lock attempt with its texts as character sequences.
#[verifier::ext_equal]
pub struct AttemptView {
    pub phase: Seq<char>,
    pub result: Seq<char>,
    pub wait_ns: u64,
}

/// A recorded tab with its texts as character sequences.
#[verifier::ext_equal]
pub struct TabSnapshotView {
    pub tab_id: Seq<char>,
    pub workspace_id: Seq<char>,
    pub label: Seq<char>,
    pub pane_count: usize,
    pub focused: bool,
}

/// A recorded pane with its texts as character sequences.
#[verifier::ext_equal]
pub struct PaneSnapshotView {
    pub pane_id: Seq<char>,
    pub tab_id: Seq<char>,
    pub agent: Option<Seq<char>>,
}

/// A recorded snapshot with its texts as character sequences.
#[verifier::ext_equal]
pub struct SnapshotView {
    pub tabs: Seq<TabSnapshotView>,
    pub panes: Seq<PaneSnapshotView>,
    pub focused_pane_id: Option<Seq<char>>,
    pub closed_pane_present: Option<bool>,
}

/// A recorded pane mapping with its texts as character sequences.
#[verifier::ext_equal]
pub struct PaneMappingView {
    pub pane_id: Seq<char>,
    pub mapped_tab_id: Option<Seq<char>>,
    pub resolution: Seq<char>,
    pub validation: Seq<char>,
    pub consumed: bool,
}

/// A decision record with its texts as character sequences.
#[verifier::ext_equal]
pub struct DecisionView {
    pub record_type: Seq<char>,
    pub schema_version: u8,
    pub trigger: Seq<char>,
    pub path: Seq<char>,
    pub started_monotonic_ns: u64,
    pub finished_monotonic_ns: Option<u64>,
    pub workspace_id: Option<Seq<char>>,
    pub event_pane_id: Option<Seq<char>>,
    pub event_tab_id: Option<Seq<char>>,
    pub available_tab_ids: Seq<Seq<char>>,
    pub target_scope: ScopeView,
    pub snapshot: Option<SnapshotView>,
    pub pane_mapping: Option<PaneMappingView>,
    pub tab_decisions: Seq<TabDecisionView>,
    pub lock_attempts: Seq<AttemptView>,
    pub benign_timeout_or_drop: bool,
    pub rerun_requested: bool,
    pub rerun_handoff: Seq<char>,
    pub terminal_outcome: Seq<char>,
    pub process_status: Seq<char>,
    pub process_error: Option<Seq<char>>,
}

impl View for TargetScope {
    type V = ScopeView;

    open spec fn view(&self) -> ScopeView {
        ScopeView {
            kind: self.kind@,
            workspace_id: text::optional_text(self.workspace_id),
            tab_id: text::optional_text(self.tab_id),
            pane_id: text::optional_text(self.pane_id),
        }
    }
}

impl View for LockAttempt {
    type V = AttemptView;

    open spec fn view(&self) -> AttemptView {
        AttemptView { phase: self.phase@, result: self.result@, wait_ns: self.wait_ns }
    }
}

impl View for TabSnapshotRecord {
    type V = TabSnapshotView;

    open spec fn view(&self) -> TabSnapshotView {
        TabSnapshotView {
            tab_id: self.tab_id@,
            workspace_id: self.workspace_id@,
            label: self.label@,
            pane_count: self.pane_count,
            focused: self.focused,
        }
    }
}

impl View for PaneSnapshotRecord {
    type V = PaneSnapshotView;

    open spec fn view(&self) -> PaneSnapshotView {
        PaneSnapshotView {
            pane_id: self.pane_id@,
            tab_id: self.tab_id@,
            agent: text::optional_text(self.agent),
        }
    }
}

impl View for SnapshotRecord {
    type V = SnapshotView;

    open spec fn view(&self) -> SnapshotView {
        SnapshotView {
            tabs: self.tabs@.map_values(|tab: TabSnapshotRecord| tab@),
            panes: self.panes@.map_values(|pane: PaneSnapshotRecord| pane@),
            focused_pane_id: text::optional_text(self.focused_pane_id),
            closed_pane_present: self.closed_pane_present,
        }
    }
}

impl View for PaneMappingRecord {
    type V = PaneMappingView;

    open spec fn view(&self) -> PaneMappingView {
        PaneMappingView {
            pane_id: self.pane_id@,
            mapped_tab_id: text::optional_text(self.mapped_tab_id),
            resolution: self.resolution@,
            validation: self.validation@,
            consumed: self.consumed,
        }
    }
}

/// The views of recorded tab decisions.
pub open spec fn decision_views(decisions: Seq<TabDecisionRecord>) -> Seq<TabDecisionView> {
    decisions.map_values(|decision: TabDecisionRecord| decision@)
}

/// The views of recorded lock attempts.
pub open spec fn attempt_views(attempts: Seq<LockAttempt>) -> Seq<AttemptView> {
    attempts.map_values(|attempt: LockAttempt| attempt@)
}

impl View for DecisionRecord {
    type V = DecisionView;

    open spec fn view(&self) -> DecisionView {
        DecisionView {
            record_type: self.record_type@,
            schema_version: self.schema_version,
            trigger: self.trigger@,
            path: self.path@,
            started_monotonic_ns: self.started_monotonic_ns,
            finished_monotonic_ns: self.finished_monotonic_ns,
            workspace_id: text::optional_text(self.workspace_id),
            event_pane_id: text::optional_text(self.event_pane_id),
            event_tab_id: text::optional_text(self.event_tab_id),
            available_tab_ids: text::texts(self.available_tab_ids@),
            target_scope: self.target_scope@,
            snapshot: match self.snapshot {
                Some(snapshot) => Some(snapshot@),
                None => None,
            },
            pane_mapping: match self.pane_mapping {
                Some(mapping) => Some(mapping@),
                None => None,
            },
            tab_decisions: decision_views(self.tab_decisions@),
            lock_attempts: attempt_views(self.lock.attempts@),
            benign_timeout_or_drop: self.lock.benign_timeout_or_drop,
            rerun_requested: self.rerun.requested,
            rerun_handoff: self.rerun.handoff@,
            terminal_outcome: self.terminal_outcome@,
            process_status: self.process_status@,
            process_error: text::optional_text(self.process_error),
        }
    }
}

/// The record of an invocation before anything was decided.
pub open spec fn opened(
    trigger: Seq<char>,
    path: Seq<char>,
    target_kind: Seq<char>,
    workspace_id: Option<Seq<char>>,
    event_pane_id: Option<Seq<char>>,
    event_tab_id: Option<Seq<char>>,
    started: u64,
) -> DecisionView {
    DecisionView {
        record_type: RECORD_TYPE@,
        schema_version: SCHEMA_VERSION,
        trigger,
        path,
        started_monotonic_ns: started,
        finished_monotonic_ns: None,
        workspace_id,
        event_pane_id,
        event_tab_id,
        available_tab_ids: Seq::empty(),
        target_scope: ScopeView {
            kind: target_kind,
            workspace_id,
            tab_id: event_tab_id,
            pane_id: event_pane_id,
        },
        snapshot: None,
        pane_mapping: None,
        tab_decisions: Seq::empty(),
        lock_attempts: Seq::empty(),
        benign_timeout_or_drop: false,
        rerun_requested: false,
        rerun_handoff: "not_requested"@,
        terminal_outcome: "pending"@,
        process_status: "pending"@,
        process_error: None,
    }
}

/// Whether a tab is in the workspace that a record is about, if it is about one.
pub open spec fn recorded_tab(workspace_id: Option<Seq<char>>) -> spec_fn(SessionTab) -> bool {
    |tab: SessionTab| workspace_id is None || tab.tab.workspace_id@ == workspace_id->0
}

/// What is recorded of a tab of a snapshot.
pub open spec fn tab_snapshot(tab: SessionTab) -> TabSnapshotView {
    TabSnapshotView {
        tab_id: tab.tab.tab_id@,
        workspace_id: tab.tab.workspace_id@,
        label: tab.tab.label@,
        pane_count: tab.pane_count,
        focused: tab.focused,
    }
}

/// What is recorded of a pane of a snapshot.
pub open spec fn pane_snapshot(pane: PaneInfo) -> PaneSnapshotView {
    PaneSnapshotView {
        pane_id: pane.pane_id@,
        tab_id: pane.tab_id@,
        agent: text::optional_text(pane.agent),
    }
}

/// The tabs that a record keeps of a snapshot.
pub open spec fn recorded_tabs(workspace_id: Option<Seq<char>>, snapshot: SessionSnapshot) -> Seq<
    SessionTab,
> {
    snapshot.tabs@.filter(recorded_tab(workspace_id))
}

/// Whether a pane belongs to one of the recorded tabs.
pub open spec fn recorded_pane(tabs: Seq<SessionTab>) -> spec_fn(PaneInfo) -> bool {
    |pane: PaneInfo| state::tab_ids(tabs).contains(pane.tab_id@)
}

/// A record with the part of a snapshot that it is about.
///
/// A single target becomes the recorded target tab.
pub open spec fn with_snapshot(
    record: DecisionView,
    snapshot: SessionSnapshot,
    target_ids: Seq<Seq<char>>,
) -> DecisionView {
    let tabs = recorded_tabs(record.workspace_id, snapshot);
    DecisionView {
        available_tab_ids: tabs.map_values(|tab: SessionTab| tab.tab.tab_id@),
        snapshot: Some(
            SnapshotView {
                tabs: tabs.map_values(|tab: SessionTab| tab_snapshot(tab)),
                panes: snapshot.panes@.filter(recorded_pane(tabs)).map_values(
                    |pane: PaneInfo| pane_snapshot(pane),
                ),
                focused_pane_id: text::optional_text(snapshot.focused_pane_id),
                closed_pane_present: match record.event_pane_id {
                    Some(pane_id) => Some(targeting::pane_by_id(snapshot, pane_id) is Some),
                    None => None,
                },
            },
        ),
        target_scope: ScopeView {
            tab_id: if target_ids.len() == 1 {
                Some(target_ids[0])
            } else {
                record.target_scope.tab_id
            },
            ..record.target_scope
        },
        ..record
    }
}

/// The outcomes of tab decisions, in their order.
pub open spec fn outcomes(decisions: Seq<TabDecisionView>) -> Seq<Seq<char>>
    decreases decisions.len(),
{
    if decisions.len() == 0 {
        Seq::empty()
    } else {
        match decisions.last().outcome {
            Some(outcome) => outcomes(decisions.drop_last()).push(outcome),
            None => outcomes(decisions.drop_last()),
        }
    }
}

/// The outcome of an invocation: that of its tabs, each distinct one named once.
pub open spec fn combined_outcome(decisions: Seq<TabDecisionView>) -> Seq<char> {
    let distinct = text::ascending(outcomes(decisions));
    if distinct.len() == 0 {
        "no_candidate_tabs"@
    } else if distinct.len() == 1 {
        distinct[0]
    } else {
        "multiple:"@ + text::joined(distinct, ","@)
    }
}

/// A record closed with the result of its invocation.
pub open spec fn closed(
    record: DecisionView,
    result: Result<(), Seq<char>>,
    finished: u64,
) -> DecisionView {
    DecisionView {
        finished_monotonic_ns: Some(finished),
        process_status: match result {
            Ok(_) => "success"@,
            Err(_) => "error"@,
        },
        process_error: match result {
            Ok(_) => record.process_error,
            Err(error) => Some(error),
        },
        terminal_outcome: if record.terminal_outcome != "pending"@ {
            record.terminal_outcome
        } else if result is Err && combined_outcome(record.tab_decisions) == "no_candidate_tabs"@ {
            "error"@
        } else {
            combined_outcome(record.tab_decisions)
        },
        ..record
    }
}

/// The view of a result whose error is a text.
pub open spec fn result_view(result: Result<(), String>) -> Result<(), Seq<char>> {
    match result {
        Ok(_) => Ok(()),
        Err(error) => Err(error@),
    }
}

impl DecisionRecord {
    /// Opens the record of an invocation at the given monotonic time.
    pub fn new(
        trigger: &str,
        path: &str,
        target_kind: &str,
        workspace_id: Option<String>,
        event_pane_id: Option<String>,
        event_tab_id: Option<String>,
        started: u64,
    ) -> (record: Self)
        ensures
            record@ == opened(
                trigger@,
                path@,
                target_kind@,
                text::optional_text(workspace_id),
                text::optional_text(event_pane_id),
                text::optional_text(event_tab_id),
                started,
            ),
    {
        let record = DecisionRecord {
            record_type: RECORD_TYPE,
            schema_version: SCHEMA_VERSION,
            trigger: trigger.to_owned(),
            path: path.to_owned(),
            started_monotonic_ns: started,
            finished_monotonic_ns: None,
            target_scope: TargetScope {
                kind: target_kind.to_owned(),
                workspace_id: workspace_id.clone(),
                tab_id: event_tab_id.clone(),
                pane_id: event_pane_id.clone(),
            },
            workspace_id,
            event_pane_id,
            event_tab_id,
            available_tab_ids: Vec::new(),
            snapshot: None,
            pane_mapping: None,
            tab_decisions: Vec::new(),
            lock: LockRecord { attempts: Vec::new(), benign_timeout_or_drop: false },
            rerun: RerunRecord { requested: false, handoff: "not_requested".to_owned() },
            terminal_outcome: "pending".to_owned(),
            process_status: "pending".to_owned(),
            process_error: None,
        };
        assert(record@ =~= opened(
            trigger@,
            path@,
            target_kind@,
            text::optional_text(workspace_id),
            text::optional_text(event_pane_id),
            text::optional_text(event_tab_id),
            started,
        ));
        record
    }

    /// Records the part of a snapshot that the invocation is about.
    pub fn record_snapshot(&mut self, snapshot: &SessionSnapshot, candidate_tab_ids: &Vec<String>)
        ensures
            final(self)@ == with_snapshot(
                old(self)@,
                *snapshot,
                text::texts(candidate_tab_ids@),
            ),
    {
        let (tabs, tab_ids) = snapshot_tabs(snapshot, borrow_text(&self.workspace_id));
        let panes = snapshot_panes(snapshot, &tab_ids, Ghost(self@.workspace_id));
        let closed_pane_present = match &self.event_pane_id {
            Some(pane_id) => Some(find_pane(snapshot, pane_id.as_str()).is_some()),
            None => None,
        };
        self.available_tab_ids = tab_ids;
        self.snapshot = Some(
            SnapshotRecord {
                tabs,
                panes,
                focused_pane_id: snapshot.focused_pane_id.clone(),
                closed_pane_present,
            },
        );
        if candidate_tab_ids.len() == 1 {
            self.target_scope.tab_id = Some(candidate_tab_ids[0].clone());
        }
    }

    /// Closes the record with the result of its invocation at the given monotonic time.
    pub fn finish(&mut self, result: &Result<(), String>, finished: u64)
        ensures
            final(self)@ == closed(old(self)@, result_view(*result), finished),
    {
        self.finished_monotonic_ns = Some(finished);
        let pending = text_eq(self.terminal_outcome.as_str(), "pending");
        match result {
            Ok(_) => {
                self.process_status = "success".to_owned();
                if pending {
                    self.terminal_outcome = terminal_outcome(&self.tab_decisions);
                }
            },
            Err(error) => {
                self.process_status = "error".to_owned();
                self.process_error = Some(error.clone());
                if pending {
                    self.terminal_outcome = terminal_outcome(&self.tab_decisions);
                    if text_eq(self.terminal_outcome.as_str(), "no_candidate_tabs") {
                        self.terminal_outcome = "error".to_owned();
                    }
                }
            },
        }
    }
}

fn snapshot_tabs(snapshot: &SessionSnapshot, workspace_id: Option<&str>) -> (kept: (
    Vec<TabSnapshotRecord>,
    Vec<String>,
))
    ensures
        kept.0@.map_values(|tab: TabSnapshotRecord| tab@) == recorded_tabs(
            text::borrowed_text(workspace_id),
            *snapshot,
        ).map_values(|tab: SessionTab| tab_snapshot(tab)),
        text::texts(kept.1@) == recorded_tabs(
            text::borrowed_text(workspace_id),
            *snapshot,
        ).map_values(|tab: SessionTab| tab.tab.tab_id@),
{
    let ghost wanted = recorded_tab(text::borrowed_text(workspace_id));
    let mut tabs: Vec<TabSnapshotRecord> = Vec::new();
    let mut tab_ids: Vec<String> = Vec::new();
    let mut index: usize = 0;
    assert(snapshot.tabs@.take(0).filter(wanted) == Seq::<SessionTab>::empty()) by {
        reveal(Seq::filter);
    }
    while index < snapshot.tabs.len()
        invariant
            index <= snapshot.tabs@.len(),
            wanted == recorded_tab(text::borrowed_text(workspace_id)),
            tabs@.map_values(|tab: TabSnapshotRecord| tab@) == snapshot.tabs@.take(
                index as int,
            ).filter(wanted).map_values(|tab: SessionTab| tab_snapshot(tab)),
            text::texts(tab_ids@) == snapshot.tabs@.take(index as int).filter(wanted).map_values(
                |tab: SessionTab| tab.tab.tab_id@,
            ),
        decreases snapshot.tabs@.len() - index,
    {
        let tab = &snapshot.tabs[index];
        proof {
            sequences::lemma_filter_step(snapshot.tabs@, index as int, wanted);
        }
        let kept = match workspace_id {
            Some(workspace_id) => text_eq(tab.tab.workspace_id.as_str(), workspace_id),
            None => true,
        };
        let ghost before = snapshot.tabs@.take(index as int).filter(wanted);
        let ghost tabs_before = tabs@;
        let ghost ids_before = tab_ids@;
        if kept {
            tabs.push(
                TabSnapshotRecord {
                    tab_id: tab.tab.tab_id.clone(),
                    workspace_id: tab.tab.workspace_id.clone(),
                    label: tab.tab.label.clone(),
                    pane_count: tab.pane_count,
                    focused: tab.focused,
                },
            );
            tab_ids.push(tab.tab.tab_id.clone());
            assert(before.push(*tab).map_values(|tab: SessionTab| tab_snapshot(tab))
                =~= before.map_values(|tab: SessionTab| tab_snapshot(tab)).push(tab_snapshot(*tab)));
            assert(before.push(*tab).map_values(|tab: SessionTab| tab.tab.tab_id@)
                =~= before.map_values(|tab: SessionTab| tab.tab.tab_id@).push(tab.tab.tab_id@));
            assert(tabs@.map_values(|tab: TabSnapshotRecord| tab@) =~= tabs_before.map_values(
                |tab: TabSnapshotRecord| tab@,
            ).push(tab_snapshot(*tab)));
            assert(text::texts(tab_ids@) =~= text::texts(ids_before).push(tab.tab.tab_id@));
        }
        index = index + 1;
    }
    assert(snapshot.tabs@.take(index as int) == snapshot.tabs@);
    (tabs, tab_ids)
}

fn snapshot_panes(
    snapshot: &SessionSnapshot,
    tab_ids: &Vec<String>,
    Ghost(workspace_id): Ghost<Option<Seq<char>>>,
) -> (panes: Vec<PaneSnapshotRecord>)
    requires
        text::texts(tab_ids@) == recorded_tabs(workspace_id, *snapshot).map_values(
            |tab: SessionTab| tab.tab.tab_id@,
        ),
    ensures
        panes@.map_values(|pane: PaneSnapshotRecord| pane@) == snapshot.panes@.filter(
            recorded_pane(recorded_tabs(workspace_id, *snapshot)),
        ).map_values(|pane: PaneInfo| pane_snapshot(pane)),
{
    let ghost tabs = recorded_tabs(workspace_id, *snapshot);
    let ghost wanted = recorded_pane(tabs);
    proof {
        assert(text::texts(tab_ids@).len() == tab_ids@.len());
        assert(tabs.map_values(|tab: SessionTab| tab.tab.tab_id@).len() == tabs.len());
        assert forall|id: Seq<char>| text::text_set(tab_ids@).contains(id) == state::tab_ids(
            tabs,
        ).contains(id) by {
            if state::tab_ids(tabs).contains(id) {
                let i = choose|i: int| 0 <= i < tabs.len() && (#[trigger] tabs[i]).tab.tab_id@ == id;
                assert(text::texts(tab_ids@)[i] == id);
                assert(tab_ids@[i]@ == id);
            }
            if text::text_set(tab_ids@).contains(id) {
                let i = choose|i: int| 0 <= i < tab_ids@.len() && (#[trigger] tab_ids@[i])@ == id;
                assert(text::texts(tab_ids@)[i] == id);
                assert(tabs[i].tab.tab_id@ == id);
            }
        }
    }
    let mut panes: Vec<PaneSnapshotRecord> = Vec::new();
    let mut index: usize = 0;
    assert(snapshot.panes@.take(0).filter(wanted) == Seq::<PaneInfo>::empty()) by {
        reveal(Seq::filter);
    }
    while index < snapshot.panes.len()
        invariant
            index <= snapshot.panes@.len(),
            wanted == recorded_pane(tabs),
            forall|id: Seq<char>|
                text::text_set(tab_ids@).contains(id) == #[trigger] state::tab_ids(tabs).contains(
                    id,
                ),
            panes@.map_values(|pane: PaneSnapshotRecord| pane@) == snapshot.panes@.take(
                index as int,
            ).filter(wanted).map_values(|pane: PaneInfo| pane_snapshot(pane)),
        decreases snapshot.panes@.len() - index,
    {
        let pane = &snapshot.panes[index];
        proof {
            sequences::lemma_filter_step(snapshot.panes@, index as int, wanted);
        }
        let ghost before = snapshot.panes@.take(index as int).filter(wanted);
        let ghost panes_before = panes@;
        if list_contains(tab_ids, pane.tab_id.as_str()) {
            panes.push(
                PaneSnapshotRecord {
                    pane_id: pane.pane_id.clone(),
                    tab_id: pane.tab_id.clone(),
                    agent: pane.agent.clone(),
                },
            );
            assert(before.push(*pane).map_values(|pane: PaneInfo| pane_snapshot(pane))
                =~= before.map_values(|pane: PaneInfo| pane_snapshot(pane)).push(
                pane_snapshot(*pane),
            ));
            assert(panes@.map_values(|pane: PaneSnapshotRecord| pane@) =~= panes_before.map_values(
                |pane: PaneSnapshotRecord| pane@,
            ).push(pane_snapshot(*pane)));
        }
        index = index + 1;
    }
    assert(snapshot.panes@.take(index as int) == snapshot.panes@);
    panes
}

/// The combined outcome of tab decisions.
pub fn terminal_outcome(decisions: &Vec<TabDecisionRecord>) -> (outcome: String)
    ensures
        outcome@ == combined_outcome(decision_views(decisions@)),
{
    let ghost views = decision_views(decisions@);
    let mut distinct: Vec<String> = Vec::new();
    let mut index: usize = 0;
    assert(views.take(0) == Seq::<TabDecisionView>::empty());
    assert(text::texts(distinct@) == Seq::<Seq<char>>::empty());
    while index < decisions.len()
        invariant
            index <= decisions@.len(),
            views == decision_views(decisions@),
            text::texts(distinct@) == text::ascending(outcomes(views.take(index as int))),
        decreases decisions@.len() - index,
    {
        assert(views.take(index + 1).drop_last() == views.take(index as int));
        let ghost before = outcomes(views.take(index as int));
        if let Some(outcome) = &decisions[index].outcome {
            assert(before.push(outcome@).drop_last() == before);
            add_ascending(&mut distinct, outcome.clone());
        }
        index = index + 1;
    }
    assert(views.take(index as int) == views);
    let ghost listed = text::texts(distinct@);
    if distinct.len() == 0 {
        "no_candidate_tabs".to_owned()
    } else if distinct.len() == 1 {
        assert(listed[0] == distinct@[0]@);
        distinct[0].clone()
    } else {
        let mut outcome = "multiple:".to_owned();
        outcome.append(join(&distinct, ",").as_str());
        outcome
    }
}

/// Diagnostic recording mode for one invocation.
#[derive(Debug, PartialEq, Eq)]
pub enum Telemetry {
    Off,
    Recording(Box<DecisionRecord>),
}

impl View for Telemetry {
    type V = Option<DecisionView>;

    open spec fn view(&self) -> Option<DecisionView> {
        match *self {
            Telemetry::Off => None,
            Telemetry::Recording(record) => Some(record@),
        }
    }
}

/// A record, if there is one, with a snapshot.
pub open spec fn recording_snapshot(
    record: Option<DecisionView>,
    snapshot: SessionSnapshot,
    target_ids: Seq<Seq<char>>,
) -> Option<DecisionView> {
    match record {
        Some(record) => Some(with_snapshot(record, snapshot, target_ids)),
        None => None,
    }
}

/// A record, if there is one, with the mapping of a closed pane.
pub open spec fn recording_pane_mapping(
    record: Option<DecisionView>,
    mapping: PaneMappingView,
) -> Option<DecisionView> {
    match record {
        Some(record) => Some(DecisionView { pane_mapping: Some(mapping), ..record }),
        None => None,
    }
}

/// A record, if there is one, with a tab decision, if that is recorded.
pub open spec fn recording_tab_decision(
    record: Option<DecisionView>,
    decision: Option<TabDecisionView>,
) -> Option<DecisionView> {
    match (record, decision) {
        (Some(record), Some(decision)) => Some(
            DecisionView { tab_decisions: record.tab_decisions.push(decision), ..record },
        ),
        _ => record,
    }
}

/// A record, if there is one, with a lock attempt.
pub open spec fn recording_lock_attempt(
    record: Option<DecisionView>,
    attempt: AttemptView,
) -> Option<DecisionView> {
    match record {
        Some(record) => Some(
            DecisionView { lock_attempts: record.lock_attempts.push(attempt), ..record },
        ),
        None => None,
    }
}

/// A record, if there is one, of an invocation that a rerun was requested in.
pub open spec fn recording_rerun_requested(record: Option<DecisionView>) -> Option<DecisionView> {
    match record {
        Some(record) => Some(
            DecisionView { rerun_requested: true, rerun_handoff: "requested"@, ..record },
        ),
        None => None,
    }
}

/// A record, if there is one, with what became of a rerun request.
pub open spec fn recording_handoff(
    record: Option<DecisionView>,
    handoff: Seq<char>,
) -> Option<DecisionView> {
    match record {
        Some(record) => Some(DecisionView { rerun_handoff: handoff, ..record }),
        None => None,
    }
}

/// A record, if there is one, with its final outcome.
pub open spec fn recording_terminal_outcome(
    record: Option<DecisionView>,
    outcome: Seq<char>,
) -> Option<DecisionView> {
    match record {
        Some(record) => Some(
            DecisionView {
                terminal_outcome: outcome,
                benign_timeout_or_drop: record.benign_timeout_or_drop || outcome
                    == "lock_dropped"@,
                ..record
            },
        ),
        None => None,
    }
}

/// A record, if there is one, closed with the result of its invocation.
pub open spec fn closed_record(
    record: Option<DecisionView>,
    result: Result<(), Seq<char>>,
    finished: u64,
) -> Option<DecisionView> {
    match record {
        Some(record) => Some(closed(record, result, finished)),
        None => None,
    }
}

/// The view of an optional record.
pub open spec fn optional_record(record: Option<DecisionRecord>) -> Option<DecisionView> {
    match record {
        Some(record) => Some(record@),
        None => None,
    }
}

impl Telemetry {
    /// The record of an invocation that is being recorded.
    pub fn recording_mut(&mut self) -> (record: &mut DecisionRecord)
        requires
            old(self)@ is Some,
        ensures
            record@ == old(self)@->0,
            final(self)@ == Some(final(record)@),
    {
        match self {
            Telemetry::Recording(record) => record,
            Telemetry::Off => vstd::pervasive::unreached(),
        }
    }

    /// Whether the invocation is recorded.
    pub fn is_recording(&self) -> (recording: bool)
        ensures
            recording == (self@ is Some),
    {
        match self {
            Telemetry::Recording(_) => true,
            Telemetry::Off => false,
        }
    }

    pub fn record_snapshot(&mut self, snapshot: &SessionSnapshot, candidate_tab_ids: &Vec<String>)
        ensures
            final(self)@ == recording_snapshot(
                old(self)@,
                *snapshot,
                text::texts(candidate_tab_ids@),
            ),
    {
        match self {
            Telemetry::Recording(record) => {
                record.record_snapshot(snapshot, candidate_tab_ids);
            },
            Telemetry::Off => {},
        }
    }

    pub fn record_pane_mapping(
        &mut self,
        pane_id: &str,
        mapped_tab_id: Option<&str>,
        resolution: &str,
        validation: &str,
        consumed: bool,
    )
        ensures
            final(self)@ == recording_pane_mapping(
                old(self)@,
                PaneMappingView {
                    pane_id: pane_id@,
                    mapped_tab_id: text::borrowed_text(mapped_tab_id),
                    resolution: resolution@,
                    validation: validation@,
                    consumed,
                },
            ),
    {
        match self {
            Telemetry::Recording(record) => {
                record.pane_mapping = Some(
                    PaneMappingRecord {
                        pane_id: pane_id.to_owned(),
                        mapped_tab_id: match mapped_tab_id {
                            Some(tab_id) => Some(tab_id.to_owned()),
                            None => None,
                        },
                        resolution: resolution.to_owned(),
                        validation: validation.to_owned(),
                        consumed,
                    },
                );
            },
            Telemetry::Off => {},
        }
    }

    /// Opens the record of a tab if the invocation is recorded.
    pub fn new_tab_decision(
        &self,
        tab: &Tab,
        ownership: Option<TabOwnership>,
        pane_count: usize,
        focused: bool,
    ) -> (decision: TabTelemetry)
        ensures
            decision@ == match self@ {
                Some(_) => Some(
                    tab_decision::undecided(
                        tab_decision::observation(*tab),
                        pane_count,
                        focused,
                        state::optional_ownership(ownership),
                    ),
                ),
                None => None,
            },
    {
        match self {
            Telemetry::Recording(_) => {
                let mut record = TabDecisionRecord::default();
                record.tab_id = tab.tab_id.clone();
                record.workspace_id = tab.workspace_id.clone();
                record.label = tab.label.clone();
                record.pane_count = pane_count;
                record.focused = focused;
                record.ownership_before = ownership;
                TabTelemetry::Recording(Box::new(record))
            },
            Telemetry::Off => TabTelemetry::Off,
        }
    }

    pub fn push_tab_decision(&mut self, decision: TabTelemetry)
        ensures
            final(self)@ == recording_tab_decision(old(self)@, decision@),
    {
        if let Telemetry::Recording(record) = self {
            if let TabTelemetry::Recording(decision) = decision {
                let ghost before = record.tab_decisions@;
                record.tab_decisions.push(*decision);
                assert(decision_views(record.tab_decisions@) =~= decision_views(before).push(
                    decision@,
                ));
            }
        }
    }

    pub fn record_lock_attempt(&mut self, phase: &str, result: &str, wait_ns: u64)
        ensures
            final(self)@ == recording_lock_attempt(
                old(self)@,
                AttemptView { phase: phase@, result: result@, wait_ns },
            ),
    {
        match self {
            Telemetry::Recording(record) => {
                let ghost before = record.lock.attempts@;
                record.lock.attempts.push(
                    LockAttempt { phase: phase.to_owned(), result: result.to_owned(), wait_ns },
                );
                assert(attempt_views(record.lock.attempts@) =~= attempt_views(before).push(
                    AttemptView { phase: phase@, result: result@, wait_ns },
                ));
            },
            Telemetry::Off => {},
        }
    }

    pub fn record_rerun_requested(&mut self)
        ensures
            final(self)@ == recording_rerun_requested(old(self)@),
    {
        match self {
            Telemetry::Recording(record) => {
                record.rerun.requested = true;
                record.rerun.handoff = "requested".to_owned();
            },
            Telemetry::Off => {},
        }
    }

    pub fn record_handoff(&mut self, outcome: &str)
        ensures
            final(self)@ == recording_handoff(old(self)@, outcome@),
    {
        match self {
            Telemetry::Recording(record) => {
                record.rerun.handoff = outcome.to_owned();
            },
            Telemetry::Off => {},
        }
    }

    pub fn set_terminal_outcome(&mut self, outcome: &str)
        ensures
            final(self)@ == recording_terminal_outcome(old(self)@, outcome@),
    {
        match self {
            Telemetry::Recording(record) => {
                record.terminal_outcome = outcome.to_owned();
                if text_eq(outcome, "lock_dropped") {
                    record.lock.benign_timeout_or_drop = true;
                }
            },
            Telemetry::Off => {},
        }
    }

    /// Closes the record and hands it out to be emitted; recording ends with it.
    pub fn finish_and_emit(&mut self, result: &Result<(), String>, finished: u64) -> (emitted:
        Option<DecisionRecord>)
        ensures
            final(self)@ is None,
            optional_record(emitted) == closed_record(
                old(self)@,
                result_view(*result),
                finished,
            ),
    {
        let mut current = Telemetry::Off;
        std::mem::swap(self, &mut current);
        match current {
            Telemetry::Recording(record) => {
                let mut record = *record;
                record.finish(result, finished);
                Some(record)
            },
            Telemetry::Off => None,
        }
    }
}

/// The workspace that an invocation names.
pub open spec fn workspace_of(invocation: Invocation) -> Option<Seq<char>> {
    match invocation {
        Invocation::Workspace(workspace_id) => Some(workspace_id@),
        Invocation::ClosedPane { workspace_id, .. } => Some(workspace_id@),
        Invocation::Tab { workspace_id, .. } => Some(workspace_id@),
        _ => None,
    }
}

/// The tab that an invocation observes.
pub open spec fn tab_of(invocation: Invocation) -> Option<Seq<char>> {
    match invocation {
        Invocation::Tab { tab_id, .. } => Some(tab_id@),
        _ => None,
    }
}

/// The pane whose closing an invocation is about.
pub open spec fn closed_pane_of(invocation: Invocation) -> Option<Seq<char>> {
    match invocation {
        Invocation::ClosedPane { pane_id, .. } => Some(pane_id@),
        _ => None,
    }
}

/// Whether an event is the focusing of a pane or a tab.
pub open spec fn focus_event(event: Option<String>) -> bool {
    event is Some && (event->0@ == "pane.focused"@ || event->0@ == "tab.focused"@)
}

/// The first of two optional texts that is there.
pub open spec fn first_text(first: Option<Seq<char>>, second: Option<Seq<char>>) -> Option<Seq<char>> {
    if first is Some {
        first
    } else {
        second
    }
}

/// The record that the plugin context of an invocation calls for.
///
/// Only the closing of a pane and the focusing of a tab or pane are recorded.
pub open spec fn config_record(config: Config, started: u64) -> Option<DecisionView> {
    let closing = config.event is Some && config.event->0@ == "pane.closed"@;
    let workspace_id = first_text(
        text::optional_text(config.event_workspace_id),
        workspace_of(config.invocation),
    );
    let pane_id = first_text(
        text::optional_text(config.event_pane_id),
        closed_pane_of(config.invocation),
    );
    let tab_id = first_text(text::optional_text(config.event_tab_id), tab_of(config.invocation));
    if !config.settings.diagnostic_telemetry {
        None
    } else if !closing && focus_event(config.event) && config.invocation is Tab {
        Some(
            opened(
                config.event->0@,
                "focus_control"@,
                "tab"@,
                workspace_id,
                pane_id,
                tab_id,
                started,
            ),
        )
    } else if closing || config.invocation is ClosedPane {
        Some(
            opened(
                "pane.closed"@,
                "pane_closed"@,
                "workspace"@,
                workspace_id,
                pane_id,
                tab_id,
                started,
            ),
        )
    } else {
        None
    }
}

/// The record that a rerun request calls for in the process that runs it.
///
/// Its context is that of the request, not that of the process.
pub open spec fn invocation_record(
    config: Config,
    invocation: Invocation,
    started: u64,
) -> Option<DecisionView> {
    if !config.settings.diagnostic_telemetry {
        None
    } else if invocation is ClosedPane {
        Some(
            opened(
                "pane.closed"@,
                "pane_closed"@,
                "workspace"@,
                workspace_of(invocation),
                closed_pane_of(invocation),
                tab_of(invocation),
                started,
            ),
        )
    } else if invocation is Tab && focus_event(config.event) {
        Some(
            opened(
                config.event->0@,
                "focus_control"@,
                "tab"@,
                workspace_of(invocation),
                text::optional_text(config.event_pane_id),
                tab_of(invocation),
                started,
            ),
        )
    } else {
        None
    }
}

/// The workspace that an invocation names.
pub fn invocation_workspace(invocation: &Invocation) -> (workspace_id: Option<String>)
    ensures
        text::optional_text(workspace_id) == workspace_of(*invocation),
{
    match invocation {
        Invocation::Workspace(workspace_id) => Some(workspace_id.clone()),
        Invocation::ClosedPane { workspace_id, .. } => Some(workspace_id.clone()),
        Invocation::Tab { workspace_id, .. } => Some(workspace_id.clone()),
        _ => None,
    }
}

/// The tab that an invocation observes.
pub fn invocation_tab(invocation: &Invocation) -> (tab_id: Option<String>)
    ensures
        text::optional_text(tab_id) == tab_of(*invocation),
{
    match invocation {
        Invocation::Tab { tab_id, .. } => Some(tab_id.clone()),
        _ => None,
    }
}

fn closed_pane_id(invocation: &Invocation) -> (pane_id: Option<String>)
    ensures
        text::optional_text(pane_id) == closed_pane_of(*invocation),
{
    match invocation {
        Invocation::ClosedPane { pane_id, .. } => Some(pane_id.clone()),
        _ => None,
    }
}

fn text_or(first: &Option<String>, second: Option<String>) -> (chosen: Option<String>)
    ensures
        text::optional_text(chosen) == first_text(
            text::optional_text(*first),
            text::optional_text(second),
        ),
{
    match first {
        Some(first) => Some(first.clone()),
        None => second,
    }
}

fn event_is(event: &Option<String>, name: &str) -> (result: bool)
    ensures
        result == (*event is Some && (*event)->0@ == name@),
{
    match event {
        Some(event) => text_eq(event.as_str(), name),
        None => false,
    }
}

fn is_focus_event(event: &Option<String>) -> (result: bool)
    ensures
        result == focus_event(*event),
{
    event_is(event, "pane.focused") || event_is(event, "tab.focused")
}

impl DecisionRecord {
    /// Opens the record that the plugin context of an invocation calls for.
    pub fn from_config(config: &Config, started: u64) -> (record: Option<Self>)
        ensures
            optional_record(record) == config_record(*config, started),
    {
        if !config.settings.diagnostic_telemetry {
            return None;
        }
        let workspace_id = text_or(
            &config.event_workspace_id,
            invocation_workspace(&config.invocation),
        );
        let event_pane_id = text_or(&config.event_pane_id, closed_pane_id(&config.invocation));
        let event_tab_id = text_or(&config.event_tab_id, invocation_tab(&config.invocation));
        let closing = event_is(&config.event, "pane.closed");
        if !closing && is_focus_event(&config.event) {
            if let (Invocation::Tab { .. }, Some(event)) = (&config.invocation, &config.event) {
                return Some(
                    DecisionRecord::new(
                        event.as_str(),
                        "focus_control",
                        "tab",
                        workspace_id,
                        event_pane_id,
                        event_tab_id,
                        started,
                    ),
                );
            }
        }
        if closing || matches!(config.invocation, Invocation::ClosedPane { .. }) {
            return Some(
                DecisionRecord::new(
                    "pane.closed",
                    "pane_closed",
                    "workspace",
                    workspace_id,
                    event_pane_id,
                    event_tab_id,
                    started,
                ),
            );
        }
        None
    }

    /// Opens the record that a rerun request calls for.
    pub fn from_invocation(config: &Config, invocation: &Invocation, started: u64) -> (record:
        Option<Self>)
        ensures
            optional_record(record) == invocation_record(*config, *invocation, started),
    {
        if !config.settings.diagnostic_telemetry {
            return None;
        }
        match (invocation, &config.event) {
            (Invocation::ClosedPane { .. }, _) => Some(
                DecisionRecord::new(
                    "pane.closed",
                    "pane_closed",
                    "workspace",
                    invocation_workspace(invocation),
                    closed_pane_id(invocation),
                    invocation_tab(invocation),
                    started,
                ),
            ),
            (Invocation::Tab { .. }, Some(event)) => if is_focus_event(&config.event) {
                Some(
                    DecisionRecord::new(
                        event.as_str(),
                        "focus_control",
                        "tab",
                        invocation_workspace(invocation),
                        config.event_pane_id.clone(),
                        invocation_tab(invocation),
                        started,
                    ),
                )
            } else {
                None
            },
            _ => None,
        }
    }
}

fn recording(record: Option<DecisionRecord>) -> (telemetry: Telemetry)
    ensures
        telemetry@ == optional_record(record),
{
    match record {
        Some(record) => Telemetry::Recording(Box::new(record)),
        None => Telemetry::Off,
    }
}

/// Starts recording if the plugin context of an invocation calls for it.
pub fn telemetry_from_config(config: &Config, started: u64) -> (telemetry: Telemetry)
    ensures
        telemetry@ == config_record(*config, started),
{
    recording(DecisionRecord::from_config(config, started))
}

/// Starts recording if a rerun request calls for it.
pub fn telemetry_from_invocation(config: &Config, invocation: &Invocation, started: u64) -> (telemetry:
    Telemetry)
    ensures
        telemetry@ == invocation_record(*config, *invocation, started),
{
    recording(DecisionRecord::from_invocation(config, invocation, started))
}

/// The nanoseconds since the process started, as far as they can be recorded.
pub fn monotonic_ns(since_start: u128) -> (recorded: u64)
    ensures
        recorded == if since_start <= u64::MAX {
            since_start as int
        } else {
            u64::MAX as int
        },
{
    if since_start <= u64::MAX as u128 {
        since_start as u64
    } else {
        u64::MAX
    }
}

/// Without the diagnostic setting nothing is recorded.
pub proof fn nothing_is_recorded_by_default(config: Config, invocation: Invocation, started: u64)
    requires
        !config.settings.diagnostic_telemetry,
    ensures
        config_record(config, started) is None,
        invocation_record(config, invocation, started) is None,
{
}

/// Closing a record keeps an outcome that was set before.
pub proof fn closing_keeps_a_terminal_outcome(
    record: DecisionView,
    result: Result<(), Seq<char>>,
    finished: u64,
)
    requires
        record.terminal_outcome != "pending"@,
    ensures
        closed(record, result, finished).terminal_outcome == record.terminal_outcome,
{
}

} // verus!
