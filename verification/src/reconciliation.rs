//! Coordinates process-aware, race-conscious tab label reconciliation.
//!
//! A pass is a chain of steps. Each step but the last asks for one thing outside the library: that
//! the state be stored, that the session or a tab be read, that the processes of a pane be
//! listed, or that a tab be renamed. Resuming a step with what came of it gives the next one.

use vstd::prelude::*;

use crate::config::Invocation;
use crate::herdr::{PaneProcessInfo, SessionSnapshot, SessionTab};
use crate::naming::{NamingPolicy, PolicyView};
use crate::numbering;
use crate::numbering::{is_placeholder, strip_numeric_prefix, Tab};
use crate::process_selection;
use crate::process_selection::process_group_matches_program;
use crate::sequences;
use crate::settings;
use crate::settings::{naming_policy, Settings, SettingsView};
use crate::state;
use crate::state::{snapshot_tab_ids, OwnershipView, State, StateView, TabOwnership};
use crate::tab_decision;
use crate::tab_decision::{TabDecisionView, TabTelemetry};
use crate::tab_reconciliation::{
    complete_rename, guard_rename, name_tab, reconcile_tab, settle_stale_tab, ContextView,
    GuardStep, GuardStepView, PlanView, RenamePlan, TabContext, TabStep, TabStepView,
};
use crate::table::Table;
use crate::targeting;
use crate::targeting::{
    find_tab, resolve_closed_pane, scoped_closed_pane_positions, scoped_positions, tab_positions,
};
use crate::telemetry;
use crate::telemetry::{DecisionView, PaneMappingView, Telemetry};
use crate::text;
use crate::text::{borrow_text, characters, find_segment_start, text_eq, text_of};

verus! {

/// What a pass works with from its beginning to its end.
#[derive(Debug, PartialEq, Eq)]
pub struct Pass {
    pub settings: Settings,
    pub policy: NamingPolicy,
    pub fallback_shell: String,
    pub invocation: Invocation,
    pub state: State,
    pub telemetry: Telemetry,
}

/// A pass with its state and record as mathematical values.
#[verifier::ext_equal]
pub struct PassView {
    pub settings: SettingsView,
    pub policy: PolicyView,
    pub fallback_shell: Seq<char>,
    pub invocation: Invocation,
    pub state: StateView,
    pub record: Option<DecisionView>,
}

impl View for Pass {
    type V = PassView;

    open spec fn view(&self) -> PassView {
        PassView {
            settings: self.settings@,
            policy: self.policy@,
            fallback_shell: self.fallback_shell@,
            invocation: self.invocation,
            state: self.state@,
            record: self.telemetry@,
        }
    }
}

/// A pass on its way through the tabs it is about.
#[verifier::ext_equal]
pub struct RoundView {
    pub pass: PassView,
    pub snapshot: SessionSnapshot,
    /// The positions of the targets in the snapshot.
    pub targets: Seq<int>,
    /// How many targets are done.
    pub next: nat,
}

impl RoundView {
    /// What the reconciliation of the current target is based on.
    pub open spec fn context(self) -> ContextView {
        let tab = self.snapshot.tabs@[self.targets[self.next as int]];
        ContextView {
            snapshot: self.snapshot,
            tab,
            position: targeting::positions_by_id(self.snapshot.tabs@)[tab.tab.tab_id@],
            invocation: self.pass.invocation,
            settings: self.pass.settings,
            policy: self.pass.policy,
            fallback_shell: self.pass.fallback_shell,
        }
    }

    /// The round with another state.
    pub open spec fn with_state(self, state: StateView) -> RoundView {
        RoundView { pass: PassView { state, ..self.pass }, ..self }
    }

    /// The round with the decision on the current target added to the record.
    pub open spec fn with_decision(self, decision: Option<TabDecisionView>) -> RoundView {
        RoundView {
            pass: PassView {
                record: telemetry::recording_tab_decision(self.pass.record, decision),
                ..self.pass
            },
            ..self
        }
    }

    /// The round with the current target done.
    pub open spec fn done(self) -> RoundView {
        RoundView { next: self.next + 1, ..self }
    }

    /// The decision on the current target before anything was decided.
    pub open spec fn undecided(self) -> Option<TabDecisionView> {
        let context = self.context();
        match self.pass.record {
            Some(_) => Some(
                tab_decision::undecided(
                    tab_decision::observation(context.tab.tab),
                    context.tab.pane_count,
                    context.tab.focused,
                    self.pass.state.ownership(context.tab_id()),
                ),
            ),
            None => None,
        }
    }
}

/// The work on the current target of a round.
#[verifier::ext_equal]
pub struct WorkView {
    pub round: RoundView,
    pub decision: Option<TabDecisionView>,
}

/// A pass that takes the numbers off the tabs of a session.
#[verifier::ext_equal]
pub struct ClearView {
    pub pass: PassView,
    pub snapshot: SessionSnapshot,
    /// How many tabs are done.
    pub next: nat,
}

impl ClearView {
    /// The tab that is being cleared.
    pub open spec fn tab(self) -> Tab {
        self.snapshot.tabs@[self.next as int].tab
    }

    /// The label of the tab without its number.
    pub open spec fn desired(self) -> Seq<char> {
        numbering::base_label(self.tab().label@)
    }

    /// The pass with the current tab done.
    pub open spec fn done(self) -> ClearView {
        ClearView { next: self.next + 1, ..self }
    }
}

/// What follows once the state is stored.
#[verifier::ext_equal]
pub enum PendingView {
    /// The session is read.
    Observe(PassView),
    /// The session is read, to be cleared.
    ObserveClear(PassView),
    /// The targets are gone through.
    Targets { pass: PassView, snapshot: SessionSnapshot },
    /// The current target is read before its rename.
    Guard { work: WorkView, plan: PlanView },
    /// The current target is left alone, for another label has appeared.
    Stale(WorkView),
    /// The pass is over.
    Finish(PassView),
}

impl PendingView {
    /// The pass whose state is to be stored.
    pub open spec fn pass(self) -> PassView {
        match self {
            PendingView::Observe(pass) => pass,
            PendingView::ObserveClear(pass) => pass,
            PendingView::Targets { pass, .. } => pass,
            PendingView::Guard { work, .. } => work.round.pass,
            PendingView::Stale(work) => work.round.pass,
            PendingView::Finish(pass) => pass,
        }
    }
}

/// The steps of a pass as mathematical values.
#[verifier::ext_equal]
pub enum StepView {
    /// The state is to be stored.
    Persist(PendingView),
    /// The session is to be read.
    Snapshot(PassView),
    /// The processes of a pane are to be listed.
    Process { work: WorkView, pane_id: Seq<char>, ownership: Option<OwnershipView> },
    /// The current target is to be read before its rename.
    ReadTab { work: WorkView, plan: PlanView },
    /// The current target is to be renamed.
    Rename { work: WorkView, plan: PlanView },
    /// The session is to be read, to be cleared.
    ClearSnapshot(PassView),
    /// A tab is to be read before its number is taken off.
    ClearReadTab(ClearView),
    /// A tab is to be renamed to its label without number.
    ClearRename(ClearView),
    /// The pass is over.
    Finished { pass: PassView, result: Result<(), Seq<char>> },
}

/// The first step of a pass.
///
/// The actions of a user end a suspension; every other invocation respects it.
pub open spec fn begun(pass: PassView) -> StepView {
    let active = StateView { suspended: false, ..pass.state };
    match pass.invocation {
        Invocation::Clear => StepView::Persist(
            PendingView::ObserveClear(
                PassView { state: StateView { suspended: true, ..pass.state }, ..pass },
            ),
        ),
        Invocation::Reset { tab_id, .. } => StepView::Persist(
            PendingView::Observe(
                PassView {
                    state: match tab_id {
                        Some(tab_id) => active.with_ownership(
                            tab_id@,
                            Some(OwnershipView::ResetPending),
                        ),
                        None => active,
                    },
                    ..pass
                },
            ),
        ),
        Invocation::Toggle { .. } => StepView::Persist(
            PendingView::Observe(PassView { state: active, ..pass }),
        ),
        _ => if pass.state.suspended {
            StepView::Finished {
                pass: PassView {
                    record: telemetry::recording_terminal_outcome(pass.record, "suspended"@),
                    ..pass
                },
                result: Ok(()),
            }
        } else {
            StepView::Snapshot(pass)
        },
    }
}

/// The state in which every pending rename is settled by the labels of a snapshot.
pub open spec fn recovered(state: StateView, tabs: Seq<SessionTab>) -> StateView
    decreases tabs.len(),
{
    if tabs.len() == 0 {
        state
    } else {
        recovered(state, tabs.drop_last()).resolve(
            tabs.last().tab.tab_id@,
            tabs.last().tab.label@,
        )
    }
}

/// Whether toggling a tab switches automatic naming on.
pub open spec fn toggles_on(ownership: Option<OwnershipView>, label: Seq<char>) -> bool {
    match ownership {
        Some(OwnershipView::Manual) => true,
        Some(OwnershipView::AutomaticDisabled) => true,
        Some(_) => false,
        None => !numbering::placeholder(numbering::base_label(label)),
    }
}

/// The state after automatic naming was toggled for a tab.
pub open spec fn toggled(state: StateView, snapshot: SessionSnapshot, tab_id: Seq<char>) -> StateView {
    match targeting::tab_by_id(snapshot, tab_id) {
        Some(tab) => state.with_ownership(
            tab_id,
            if toggles_on(state.ownership(tab_id), tab.tab.label@) {
                Some(OwnershipView::ResetPending)
            } else {
                Some(OwnershipView::AutomaticDisabled)
            },
        ),
        None => state,
    }
}

/// The pass whose state follows a snapshot: its panes are known, its renames are settled.
pub open spec fn synchronized(pass: PassView, snapshot: SessionSnapshot) -> PassView {
    PassView {
        state: recovered(pass.state.refresh(snapshot.panes@, snapshot.tabs@), snapshot.tabs@),
        ..pass
    }
}

/// The record of how a closed pane was resolved.
pub open spec fn mapping_of(
    pane_id: Seq<char>,
    resolution: targeting::ClosedPaneView,
) -> PaneMappingView {
    PaneMappingView {
        pane_id,
        mapped_tab_id: resolution.mapped_tab_id,
        resolution: resolution.resolution,
        validation: resolution.validation,
        consumed: resolution.valid,
    }
}

/// The step that follows once the session was read.
pub open spec fn observed(
    pass: PassView,
    snapshot: Result<SessionSnapshot, String>,
) -> StepView {
    match snapshot {
        Ok(snapshot) => match pass.invocation {
            Invocation::ClosedPane { workspace_id, pane_id } => observed_close(
                pass,
                snapshot,
                pane_id@,
                targeting::closed_pane(pass.state, snapshot, workspace_id@, pane_id@),
            ),
            Invocation::Toggle { tab_id: Some(tab_id), .. } => {
                let known = synchronized(pass, snapshot);
                StepView::Persist(
                    PendingView::Targets {
                        pass: PassView { state: toggled(known.state, snapshot, tab_id@), ..known },
                        snapshot,
                    },
                )
            },
            _ => started(
                synchronized(pass, snapshot),
                snapshot,
                targeting::in_scope(snapshot, pass.invocation),
            ),
        },
        Err(error) => StepView::Finished { pass, result: Err(error@) },
    }
}

/// The step that follows once the session was read after a pane was closed.
///
/// Unless the pane's recorded tab stands up to the snapshot, only the state is stored.
pub open spec fn observed_close(
    pass: PassView,
    snapshot: SessionSnapshot,
    pane_id: Seq<char>,
    resolution: targeting::ClosedPaneView,
) -> StepView {
    let refreshed = pass.state.refresh(snapshot.panes@, snapshot.tabs@);
    let mapped = telemetry::recording_pane_mapping(pass.record, mapping_of(pane_id, resolution));
    if resolution.valid {
        let consumed = StateView { pane_tabs: refreshed.pane_tabs.remove(pane_id), ..refreshed };
        started(
            PassView { state: recovered(consumed, snapshot.tabs@), record: mapped, ..pass },
            snapshot,
            targeting::in_closed_scope(pass.invocation, resolution.mapped_tab_id),
        )
    } else {
        StepView::Persist(
            PendingView::Finish(
                PassView {
                    state: refreshed,
                    record: telemetry::recording_terminal_outcome(
                        telemetry::recording_snapshot(mapped, snapshot, Seq::empty()),
                        resolution.outcome,
                    ),
                    ..pass
                },
            ),
        )
    }
}

/// The ids of the targets of a pass.
pub open spec fn target_ids(snapshot: SessionSnapshot, targets: Seq<int>) -> Seq<Seq<char>> {
    targets.map_values(|target: int| snapshot.tabs@[target].tab.tab_id@)
}

/// The first step on the way through the wanted tabs.
pub open spec fn started(
    pass: PassView,
    snapshot: SessionSnapshot,
    wanted: spec_fn(SessionTab) -> bool,
) -> StepView {
    let targets = sequences::positions_where(snapshot.tabs@, wanted);
    advanced(
        RoundView {
            pass: PassView {
                record: telemetry::recording_snapshot(
                    pass.record,
                    snapshot,
                    target_ids(snapshot, targets),
                ),
                ..pass
            },
            snapshot,
            targets,
            next: 0,
        },
    )
}

/// The step that a plan to rename the current target leads to.
///
/// A rename of the plugin's own is stored before the tab is read for it.
pub open spec fn guarding(work: WorkView, plan: PlanView) -> StepView {
    if plan.plugin_owned {
        StepView::Persist(PendingView::Guard { work, plan })
    } else {
        StepView::ReadTab { work, plan }
    }
}

/// The next step on the way through the targets.
///
/// After the last target the state is stored; a full pass forgets the tabs that are gone.
#[verifier::opaque]
pub open spec fn advanced(round: RoundView) -> StepView
    decreases round.targets.len() - round.next,
{
    if round.next >= round.targets.len() {
        StepView::Persist(
            PendingView::Finish(
                PassView {
                    state: if round.pass.invocation is Full {
                        round.pass.state.prune(state::tab_ids(round.snapshot.tabs@))
                    } else {
                        round.pass.state
                    },
                    ..round.pass
                },
            ),
        )
    } else {
        let context = round.context();
        let before = round.pass.state;
        let after = round.with_state(context.opening_state(before));
        let decision = context.traced_opening(before, round.undecided());
        match context.opening(before.ownership(context.tab_id())) {
            TabStepView::Settled => advanced(after.with_decision(decision).done()),
            TabStepView::Observe { pane_id, ownership } => StepView::Process {
                work: WorkView { round: after, decision },
                pane_id,
                ownership,
            },
            TabStepView::Guard(plan) => guarding(WorkView { round: after, decision }, plan),
        }
    }
}

/// The step that follows once the processes of the naming pane are known.
pub open spec fn processed(
    work: WorkView,
    ownership: Option<OwnershipView>,
    observed: Result<PaneProcessInfo, String>,
) -> StepView {
    let context = work.round.context();
    let before = work.round.pass.state;
    let name = context.computed(observed);
    let after = work.round.with_state(context.planned_state(before, ownership, name));
    let decision = context.traced_naming(before, ownership, observed, work.decision);
    match context.planned(ownership, name) {
        TabStepView::Guard(plan) => guarding(WorkView { round: after, decision }, plan),
        _ => advanced(after.with_decision(decision).done()),
    }
}

/// The step that follows once the current target was read before its rename.
pub open spec fn read(
    work: WorkView,
    plan: PlanView,
    latest: Result<Option<Tab>, String>,
) -> StepView {
    let context = work.round.context();
    let before = work.round.pass.state;
    let after = work.round.with_state(context.guarded_state(before, plan, latest));
    let decision = context.traced_guard(before, latest, work.decision);
    match context.guarded(latest) {
        GuardStepView::Settled => advanced(after.with_decision(decision).done()),
        GuardStepView::Failed(error) => StepView::Finished {
            pass: after.with_decision(decision).pass,
            result: Err(error),
        },
        GuardStepView::Stale => if plan.plugin_owned {
            StepView::Persist(PendingView::Stale(WorkView { round: after, decision }))
        } else {
            stale(WorkView { round: after, decision })
        },
        GuardStepView::Rename => StepView::Rename { work: WorkView { round: after, decision }, plan },
    }
}

/// The step that follows once it is settled that another label has appeared.
pub open spec fn stale(work: WorkView) -> StepView {
    advanced(
        work.round.with_decision(
            work.round.context().traced_stale(work.round.pass.state, work.decision),
        ).done(),
    )
}

/// The step that follows once the rename of the current target was sent.
pub open spec fn renamed(work: WorkView, plan: PlanView, result: Result<(), String>) -> StepView {
    let context = work.round.context();
    let before = work.round.pass.state;
    let after = work.round.with_state(
        context.renamed_state(before, plan, result),
    ).with_decision(context.traced_rename(before, plan, result, work.decision));
    match result {
        Ok(_) => advanced(after.done()),
        Err(error) => StepView::Finished { pass: after.pass, result: Err(error@) },
    }
}

/// The pass that ends because its state could not be stored.
pub open spec fn unstored(pending: PendingView) -> PassView {
    match pending {
        PendingView::Guard { work, .. } => work.round.with_decision(work.decision).pass,
        PendingView::Stale(work) => work.round.with_decision(work.decision).pass,
        _ => pending.pass(),
    }
}

/// The step that follows once the state was stored, or could not be.
pub open spec fn stored(pending: PendingView, result: Result<(), String>) -> StepView {
    match result {
        Err(error) => StepView::Finished { pass: unstored(pending), result: Err(error@) },
        Ok(_) => match pending {
            PendingView::Observe(pass) => StepView::Snapshot(pass),
            PendingView::ObserveClear(pass) => StepView::ClearSnapshot(pass),
            PendingView::Targets { pass, snapshot } => started(
                pass,
                snapshot,
                targeting::in_scope(snapshot, pass.invocation),
            ),
            PendingView::Guard { work, plan } => StepView::ReadTab { work, plan },
            PendingView::Stale(work) => stale(work),
            PendingView::Finish(pass) => StepView::Finished { pass, result: Ok(()) },
        },
    }
}

/// The step that follows once a session was read that is to be cleared.
pub open spec fn clear_observed(
    pass: PassView,
    snapshot: Result<SessionSnapshot, String>,
) -> StepView {
    match snapshot {
        Ok(snapshot) => clear_advanced(ClearView { pass, snapshot, next: 0 }),
        Err(error) => StepView::Finished { pass, result: Err(error@) },
    }
}

/// The next step on the way through the tabs whose numbers are taken off.
///
/// Tabs without a number are skipped. After the last tab every ownership is forgotten.
#[verifier::opaque]
pub open spec fn clear_advanced(clear: ClearView) -> StepView
    decreases clear.snapshot.tabs@.len() - clear.next,
{
    if clear.next >= clear.snapshot.tabs@.len() {
        StepView::Persist(
            PendingView::Finish(
                PassView { state: clear.pass.state.prune(Set::empty()), ..clear.pass },
            ),
        )
    } else if clear.desired() == clear.tab().label@ {
        clear_advanced(clear.done())
    } else {
        StepView::ClearReadTab(clear)
    }
}

/// The step that follows once a tab was read whose number is to be taken off.
pub open spec fn clear_read(clear: ClearView, latest: Result<Option<Tab>, String>) -> StepView {
    match latest {
        Ok(Some(latest)) => if latest.label@ == clear.tab().label@ {
            StepView::ClearRename(clear)
        } else {
            clear_advanced(clear.done())
        },
        Ok(None) => clear_advanced(clear.done()),
        Err(error) => StepView::Finished { pass: clear.pass, result: Err(error@) },
    }
}

/// The step that follows once the number of a tab was taken off.
pub open spec fn clear_renamed(clear: ClearView, result: Result<(), String>) -> StepView {
    match result {
        Ok(_) => clear_advanced(clear.done()),
        Err(error) => StepView::Finished { pass: clear.pass, result: Err(error@) },
    }
}

/// A pass on its way through the tabs it is about.
#[derive(Debug, PartialEq, Eq)]
struct Round {
    pass: Pass,
    snapshot: SessionSnapshot,
    positions: Table<usize>,
    targets: Vec<usize>,
    next: usize,
}

impl Round {
    spec fn well_formed(self) -> bool {
        &&& self.positions@ == targeting::positions_by_id(self.snapshot.tabs@)
        &&& self.next <= self.targets@.len()
        &&& forall|i: int|
            0 <= i < self.targets@.len() ==> (#[trigger] self.targets@[i])
                < self.snapshot.tabs@.len()
    }

    spec fn at_target(self) -> bool {
        self.well_formed() && self.next < self.targets@.len()
    }
}

impl View for Round {
    type V = RoundView;

    closed spec fn view(&self) -> RoundView {
        RoundView {
            pass: self.pass@,
            snapshot: self.snapshot,
            targets: targeting::indices(self.targets@),
            next: self.next as nat,
        }
    }
}

/// The work on the current target of a round.
#[derive(Debug, PartialEq, Eq)]
struct Work {
    round: Round,
    decision: TabTelemetry,
}

impl View for Work {
    type V = WorkView;

    closed spec fn view(&self) -> WorkView {
        WorkView { round: self.round@, decision: self.decision@ }
    }
}

/// A pass that takes the numbers off the tabs of a session.
#[derive(Debug, PartialEq, Eq)]
struct Clearing {
    pass: Pass,
    snapshot: SessionSnapshot,
    next: usize,
}

impl View for Clearing {
    type V = ClearView;

    closed spec fn view(&self) -> ClearView {
        ClearView { pass: self.pass@, snapshot: self.snapshot, next: self.next as nat }
    }
}

/// What follows once the state is stored.
#[derive(Debug, PartialEq, Eq)]
enum Pending {
    Observe(Pass),
    ObserveClear(Pass),
    Targets(Pass, SessionSnapshot),
    Guard(Work, RenamePlan),
    Stale(Work),
    Finish(Pass),
}

impl View for Pending {
    type V = PendingView;

    closed spec fn view(&self) -> PendingView {
        match *self {
            Pending::Observe(pass) => PendingView::Observe(pass@),
            Pending::ObserveClear(pass) => PendingView::ObserveClear(pass@),
            Pending::Targets(pass, snapshot) => PendingView::Targets { pass: pass@, snapshot },
            Pending::Guard(work, plan) => PendingView::Guard { work: work@, plan: plan@ },
            Pending::Stale(work) => PendingView::Stale(work@),
            Pending::Finish(pass) => PendingView::Finish(pass@),
        }
    }
}

/// A pass that waits for its state to be stored.
#[derive(Debug, PartialEq, Eq)]
pub struct PersistStep {
    pending: Pending,
}

/// A pass that waits for the session to be read.
#[derive(Debug, PartialEq, Eq)]
pub struct SnapshotStep {
    pass: Pass,
}

/// A pass that waits for the processes of a pane.
#[derive(Debug, PartialEq, Eq)]
pub struct ProcessStep {
    work: Work,
    pane_id: String,
    ownership: Option<TabOwnership>,
}

/// A pass that waits for a tab to be read before its rename.
#[derive(Debug, PartialEq, Eq)]
pub struct ReadTabStep {
    work: Work,
    plan: RenamePlan,
}

/// A pass that waits for a tab to be renamed.
#[derive(Debug, PartialEq, Eq)]
pub struct RenameStep {
    work: Work,
    plan: RenamePlan,
}

/// A clearing pass that waits for the session to be read.
#[derive(Debug, PartialEq, Eq)]
pub struct ClearSnapshotStep {
    pass: Pass,
}

/// A clearing pass that waits for a tab to be read before its rename.
#[derive(Debug, PartialEq, Eq)]
pub struct ClearReadTabStep {
    clearing: Clearing,
}

/// A clearing pass that waits for a tab to be renamed.
#[derive(Debug, PartialEq, Eq)]
pub struct ClearRenameStep {
    clearing: Clearing,
}

/// A pass that is over.
#[derive(Debug, PartialEq, Eq)]
pub struct FinishedPass {
    pub pass: Pass,
    pub result: Result<(), String>,
}

/// The steps of a pass.
#[derive(Debug, PartialEq, Eq)]
pub enum PassStep {
    /// The state is to be stored.
    Persist(PersistStep),
    /// The session is to be read.
    Snapshot(SnapshotStep),
    /// The processes of a pane are to be listed.
    Process(ProcessStep),
    /// A tab is to be read before its rename.
    ReadTab(ReadTabStep),
    /// A tab is to be renamed.
    Rename(RenameStep),
    /// The session is to be read, to be cleared.
    ClearSnapshot(ClearSnapshotStep),
    /// A tab is to be read before its number is taken off.
    ClearReadTab(ClearReadTabStep),
    /// A tab is to be renamed to its label without number.
    ClearRename(ClearRenameStep),
    /// The pass is over.
    Finished(FinishedPass),
}

impl View for PassStep {
    type V = StepView;

    open spec fn view(&self) -> StepView {
        match *self {
            PassStep::Persist(step) => StepView::Persist(step.pending()),
            PassStep::Snapshot(step) => StepView::Snapshot(step.pass()),
            PassStep::Process(step) => StepView::Process {
                work: step.work(),
                pane_id: step.pane(),
                ownership: step.held(),
            },
            PassStep::ReadTab(step) => StepView::ReadTab { work: step.work(), plan: step.plan() },
            PassStep::Rename(step) => StepView::Rename { work: step.work(), plan: step.plan() },
            PassStep::ClearSnapshot(step) => StepView::ClearSnapshot(step.pass()),
            PassStep::ClearReadTab(step) => StepView::ClearReadTab(step.clearing()),
            PassStep::ClearRename(step) => StepView::ClearRename(step.clearing()),
            PassStep::Finished(finished) => StepView::Finished {
                pass: finished.pass@,
                result: telemetry::result_view(finished.result),
            },
        }
    }
}

impl PersistStep {
    #[verifier::type_invariant]
    spec fn well_formed(self) -> bool {
        match self.pending {
            Pending::Guard(work, _) => work.round.at_target(),
            Pending::Stale(work) => work.round.at_target(),
            _ => true,
        }
    }

    /// What follows once the state is stored.
    pub closed spec fn pending(&self) -> PendingView {
        self.pending@
    }

    /// The state that is to be stored.
    pub fn state(&self) -> (state: &State)
        ensures
            state@ == self.pending().pass().state,
    {
        match &self.pending {
            Pending::Observe(pass) => &pass.state,
            Pending::ObserveClear(pass) => &pass.state,
            Pending::Targets(pass, _) => &pass.state,
            Pending::Guard(work, _) => &work.round.pass.state,
            Pending::Stale(work) => &work.round.pass.state,
            Pending::Finish(pass) => &pass.state,
        }
    }

    /// Continues once the state was stored, or could not be.
    pub fn resume(self, result: Result<(), String>) -> (next: PassStep)
        ensures
            next@ == stored(self.pending(), result),
    {
        proof {
            use_type_invariant(&self);
        }
        let pending = self.pending;
        if let Err(error) = result {
            return finish(close_pending(pending), Err(error));
        }
        match pending {
            Pending::Observe(pass) => PassStep::Snapshot(SnapshotStep { pass }),
            Pending::ObserveClear(pass) => PassStep::ClearSnapshot(ClearSnapshotStep { pass }),
            Pending::Targets(pass, snapshot) => {
                let targets = scoped_positions(&snapshot, &pass.invocation);
                let ghost wanted = targeting::in_scope(snapshot, pass.invocation);
                start(pass, snapshot, targets, Ghost(wanted))
            },
            Pending::Guard(work, plan) => PassStep::ReadTab(ReadTabStep { work, plan }),
            Pending::Stale(work) => settle_stale(work),
            Pending::Finish(pass) => finish(pass, Ok(())),
        }
    }
}

impl SnapshotStep {
    /// The pass that waits.
    pub closed spec fn pass(&self) -> PassView {
        self.pass@
    }

    /// Continues once the session was read, or could not be.
    pub fn resume(self, snapshot: Result<SessionSnapshot, String>) -> (next: PassStep)
        ensures
            next@ == observed(self.pass(), snapshot),
    {
        let snapshot = match snapshot {
            Ok(snapshot) => snapshot,
            Err(error) => {
                return finish(self.pass, Err(error));
            },
        };
        let mut pass = self.pass;
        if let Invocation::ClosedPane { workspace_id, pane_id } = &pass.invocation {
            let resolution = resolve_closed_pane(
                &pass.state,
                &snapshot,
                workspace_id.as_str(),
                pane_id.as_str(),
            );
            pass.state.refresh_pane_tabs(&snapshot.panes, &snapshot.tabs);
            pass.telemetry.record_pane_mapping(
                pane_id.as_str(),
                borrow_text(&resolution.mapped_tab_id),
                resolution.resolution,
                resolution.validation,
                resolution.valid,
            );
            if !resolution.valid {
                let no_targets: Vec<String> = Vec::new();
                assert(text::texts(no_targets@) == Seq::<Seq<char>>::empty());
                pass.telemetry.record_snapshot(&snapshot, &no_targets);
                pass.telemetry.set_terminal_outcome(resolution.outcome);
                return persist(Pending::Finish(pass));
            }
            pass.state.remove_pane_tab(pane_id.as_str());
            recover_pending(&snapshot, &mut pass.state);
            let targets = scoped_closed_pane_positions(
                &snapshot,
                &pass.invocation,
                borrow_text(&resolution.mapped_tab_id),
            );
            let ghost wanted = targeting::in_closed_scope(
                pass.invocation,
                resolution@.mapped_tab_id,
            );
            return start(pass, snapshot, targets, Ghost(wanted));
        }
        pass.state.refresh_pane_tabs(&snapshot.panes, &snapshot.tabs);
        recover_pending(&snapshot, &mut pass.state);
        if let Invocation::Toggle { tab_id: Some(tab_id), .. } = &pass.invocation {
            toggle_ownership(&snapshot, &mut pass.state, tab_id.as_str());
            return persist(Pending::Targets(pass, snapshot));
        }
        let targets = scoped_positions(&snapshot, &pass.invocation);
        let ghost wanted = targeting::in_scope(snapshot, pass.invocation);
        start(pass, snapshot, targets, Ghost(wanted))
    }
}

fn finish(pass: Pass, result: Result<(), String>) -> (step: PassStep)
    ensures
        step@ == (StepView::Finished { pass: pass@, result: telemetry::result_view(result) }),
{
    PassStep::Finished(FinishedPass { pass, result })
}

fn persist(pending: Pending) -> (step: PassStep)
    requires
        match pending {
            Pending::Guard(work, _) => work.round.at_target(),
            Pending::Stale(work) => work.round.at_target(),
            _ => true,
        },
    ensures
        step@ == StepView::Persist(pending@),
{
    PassStep::Persist(PersistStep { pending })
}

fn close_pending(pending: Pending) -> (pass: Pass)
    ensures
        pass@ == unstored(pending@),
{
    match pending {
        Pending::Observe(pass) => pass,
        Pending::ObserveClear(pass) => pass,
        Pending::Targets(pass, _) => pass,
        Pending::Guard(work, _) => close_work(work),
        Pending::Stale(work) => close_work(work),
        Pending::Finish(pass) => pass,
    }
}

fn close_work(work: Work) -> (pass: Pass)
    ensures
        pass@ == work@.round.with_decision(work@.decision).pass,
{
    let mut pass = work.round.pass;
    pass.telemetry.push_tab_decision(work.decision);
    pass
}

/// Settles every pending rename by the labels of a snapshot.
pub fn recover_pending(snapshot: &SessionSnapshot, state: &mut State)
    ensures
        final(state)@ == recovered(old(state)@, snapshot.tabs@),
{
    let mut index: usize = 0;
    assert(snapshot.tabs@.take(0) == Seq::<SessionTab>::empty());
    while index < snapshot.tabs.len()
        invariant
            index <= snapshot.tabs@.len(),
            state@ == recovered(old(state)@, snapshot.tabs@.take(index as int)),
        decreases snapshot.tabs@.len() - index,
    {
        assert(snapshot.tabs@.take(index + 1).drop_last() == snapshot.tabs@.take(index as int));
        let tab = &snapshot.tabs[index].tab;
        state.resolve_pending_rename(tab.tab_id.as_str(), tab.label.as_str());
        index = index + 1;
    }
    assert(snapshot.tabs@.take(index as int) == snapshot.tabs@);
}

/// Toggles automatic naming for a tab, if the tab is there.
pub fn toggle_ownership(snapshot: &SessionSnapshot, state: &mut State, tab_id: &str)
    ensures
        final(state)@ == toggled(old(state)@, *snapshot, tab_id@),
{
    let tab = match find_tab(snapshot, tab_id) {
        Some(tab) => tab,
        None => {
            return;
        },
    };
    let enable = match state.ownership(tab_id) {
        Some(TabOwnership::Manual) => true,
        Some(TabOwnership::AutomaticDisabled) => true,
        Some(_) => false,
        None => !is_placeholder(strip_numeric_prefix(tab.tab.label.as_str())),
    };
    if enable {
        state.set_ownership(tab_id, TabOwnership::ResetPending);
    } else {
        state.set_ownership(tab_id, TabOwnership::AutomaticDisabled);
    }
}

/// Begins the way through the targets of a pass.
fn start(
    pass: Pass,
    snapshot: SessionSnapshot,
    targets: Vec<usize>,
    Ghost(wanted): Ghost<spec_fn(SessionTab) -> bool>,
) -> (step: PassStep)
    requires
        targeting::indices(targets@) == sequences::positions_where(snapshot.tabs@, wanted),
    ensures
        step@ == started(pass@, snapshot, wanted),
{
    let mut pass = pass;
    proof {
        targeting::lemma_positions_inside(snapshot.tabs@, targets@, wanted);
    }
    let ids = collect_target_ids(&snapshot, &targets);
    pass.telemetry.record_snapshot(&snapshot, &ids);
    let positions = tab_positions(&snapshot);
    advance(Round { pass, snapshot, positions, targets, next: 0 })
}

fn collect_target_ids(snapshot: &SessionSnapshot, targets: &Vec<usize>) -> (ids: Vec<String>)
    requires
        forall|i: int| 0 <= i < targets@.len() ==> (#[trigger] targets@[i]) < snapshot.tabs@.len(),
    ensures
        text::texts(ids@) == target_ids(*snapshot, targeting::indices(targets@)),
{
    let mut ids: Vec<String> = Vec::new();
    let mut index: usize = 0;
    while index < targets.len()
        invariant
            index <= targets@.len(),
            ids@.len() == index,
            forall|i: int|
                0 <= i < targets@.len() ==> (#[trigger] targets@[i]) < snapshot.tabs@.len(),
            forall|i: int|
                0 <= i < index ==> (#[trigger] ids@[i])@
                    == snapshot.tabs@[targets@[i] as int].tab.tab_id@,
        decreases targets@.len() - index,
    {
        ids.push(snapshot.tabs[targets[index]].tab.tab_id.clone());
        index = index + 1;
    }
    assert(text::texts(ids@) =~= target_ids(*snapshot, targeting::indices(targets@)));
    ids
}

/// What the reconciliation of a target is based on.
fn target_context<'a>(
    settings: &'a Settings,
    policy: &'a NamingPolicy,
    fallback_shell: &'a String,
    invocation: &'a Invocation,
    snapshot: &'a SessionSnapshot,
    positions: &Table<usize>,
    target: usize,
) -> (context: TabContext<'a>)
    requires
        target < snapshot.tabs@.len(),
        positions@ == targeting::positions_by_id(snapshot.tabs@),
    ensures
        context@ == (ContextView {
            snapshot: *snapshot,
            tab: snapshot.tabs@[target as int],
            position: targeting::positions_by_id(
                snapshot.tabs@,
            )[snapshot.tabs@[target as int].tab.tab_id@],
            invocation: *invocation,
            settings: settings@,
            policy: policy@,
            fallback_shell: fallback_shell@,
        }),
{
    let tab = &snapshot.tabs[target];
    proof {
        targeting::every_tab_has_a_position(snapshot.tabs@, target as int);
    }
    let position: usize = match positions.get(tab.tab.tab_id.as_str()) {
        Some(position) => *position,
        None => 0,
    };
    TabContext {
        snapshot,
        tab,
        position,
        invocation,
        settings,
        policy,
        fallback_shell: fallback_shell.as_str(),
    }
}

/// Opens the current target of a round.
///
/// Gives back the round if the target is settled at once, else the step that it needs.
fn open_target(round: Round) -> (opened: Result<Round, PassStep>)
    requires
        round.at_target(),
    ensures
        match opened {
            Ok(after) => after.well_formed() && after.targets@ == round.targets@ && after.next
                == round.next + 1 && advanced(after@) == advanced(round@),
            Err(step) => step@ == advanced(round@),
        },
{
    proof {
        reveal(advanced);
    }
    let mut round = round;
    let ghost before = round@;
    let target: usize = round.targets[round.next];
    assert(before.targets[before.next as int] == target);
    let context = target_context(
        &round.pass.settings,
        &round.pass.policy,
        &round.pass.fallback_shell,
        &round.pass.invocation,
        &round.snapshot,
        &round.positions,
        target,
    );
    assert(context@ == before.context());
    let ownership = match round.pass.state.ownership(context.tab.tab.tab_id.as_str()) {
        Some(ownership) => Some(ownership.clone()),
        None => None,
    };
    let mut decision = round.pass.telemetry.new_tab_decision(
        &context.tab.tab,
        ownership,
        context.tab.pane_count,
        context.tab.focused,
    );
    let step = reconcile_tab(&context, &mut round.pass.state, &mut decision);
    match step {
        TabStep::Settled => Ok(settle(round, decision)),
        TabStep::Observe { pane_id, ownership } => Err(
            PassStep::Process(ProcessStep { work: Work { round, decision }, pane_id, ownership }),
        ),
        TabStep::Guard(plan) => Err(guard(Work { round, decision }, plan)),
    }
}

/// Takes the current target of a round as done.
fn settle(round: Round, decision: TabTelemetry) -> (after: Round)
    requires
        round.at_target(),
    ensures
        after.well_formed(),
        after.targets@ == round.targets@,
        after.next == round.next + 1,
        after@ == round@.with_decision(decision@).done(),
{
    let mut round = round;
    assert(round.next < round.targets.len());
    round.pass.telemetry.push_tab_decision(decision);
    round.next = round.next + 1;
    round
}

/// Goes on to the next target of a round that needs anything from outside.
fn advance(from: Round) -> (step: PassStep)
    requires
        from.well_formed(),
    ensures
        step@ == advanced(from@),
{
    let mut round = from;
    while round.next < round.targets.len()
        invariant
            round.well_formed(),
            advanced(round@) == advanced(from@),
        decreases round.targets@.len() - round.next,
    {
        match open_target(round) {
            Ok(after) => {
                round = after;
            },
            Err(step) => {
                return step;
            },
        }
    }
    proof {
        reveal(advanced);
    }
    let mut pass = round.pass;
    if let Invocation::Full = pass.invocation {
        let ids = snapshot_tab_ids(&round.snapshot.tabs);
        pass.state.prune_tabs(&ids);
    }
    persist(Pending::Finish(pass))
}

/// Prepares the rename of the current target.
fn guard(work: Work, plan: RenamePlan) -> (step: PassStep)
    requires
        work.round.at_target(),
    ensures
        step@ == guarding(work@, plan@),
{
    if plan.plugin_owned {
        persist(Pending::Guard(work, plan))
    } else {
        PassStep::ReadTab(ReadTabStep { work, plan })
    }
}

/// Leaves the current target alone because another label has appeared.
fn settle_stale(work: Work) -> (step: PassStep)
    requires
        work.round.at_target(),
    ensures
        step@ == stale(work@),
{
    let mut work = work;
    let ghost before = work@;
    let target: usize = work.round.targets[work.round.next];
    assert(before.round.targets[before.round.next as int] == target);
    let context = target_context(
        &work.round.pass.settings,
        &work.round.pass.policy,
        &work.round.pass.fallback_shell,
        &work.round.pass.invocation,
        &work.round.snapshot,
        &work.round.positions,
        target,
    );
    settle_stale_tab(&context, &work.round.pass.state, &mut work.decision);
    advance(settle(work.round, work.decision))
}

impl ProcessStep {
    #[verifier::type_invariant]
    spec fn well_formed(self) -> bool {
        self.work.round.at_target()
    }

    /// The work that waits.
    pub closed spec fn work(&self) -> WorkView {
        self.work@
    }

    /// The pane whose processes are needed.
    pub closed spec fn pane(&self) -> Seq<char> {
        self.pane_id@
    }

    /// The ownership that the tab had when the work on it began.
    pub closed spec fn held(&self) -> Option<OwnershipView> {
        state::optional_ownership(self.ownership)
    }

    /// The pane whose processes are needed.
    pub fn pane_id(&self) -> (pane_id: &str)
        ensures
            pane_id@ == self.pane(),
    {
        self.pane_id.as_str()
    }

    /// Continues once the processes were listed, or could not be.
    pub fn resume(self, observed: Result<PaneProcessInfo, String>) -> (next: PassStep)
        ensures
            next@ == processed(self.work(), self.held(), observed),
    {
        proof {
            use_type_invariant(&self);
        }
        let mut work = self.work;
        let ghost before = work@;
        let target: usize = work.round.targets[work.round.next];
        assert(before.round.targets[before.round.next as int] == target);
        let context = target_context(
            &work.round.pass.settings,
            &work.round.pass.policy,
            &work.round.pass.fallback_shell,
            &work.round.pass.invocation,
            &work.round.snapshot,
            &work.round.positions,
            target,
        );
        let step = name_tab(
            &context,
            self.ownership,
            observed,
            &mut work.round.pass.state,
            &mut work.decision,
        );
        match step {
            TabStep::Guard(plan) => guard(work, plan),
            _ => advance(settle(work.round, work.decision)),
        }
    }
}

impl ReadTabStep {
    #[verifier::type_invariant]
    spec fn well_formed(self) -> bool {
        self.work.round.at_target()
    }

    /// The work that waits.
    pub closed spec fn work(&self) -> WorkView {
        self.work@
    }

    /// The rename that is to be guarded.
    pub closed spec fn plan(&self) -> PlanView {
        self.plan@
    }

    /// The tab that is to be read.
    pub fn tab_id(&self) -> (tab_id: &str)
        ensures
            tab_id@ == self.work().round.context().tab_id(),
    {
        proof {
            use_type_invariant(self);
        }
        let round = &self.work.round;
        assert(round@.targets[round@.next as int] == round.targets@[round.next as int]);
        round.snapshot.tabs[round.targets[round.next]].tab.tab_id.as_str()
    }

    /// Continues once the tab was read, is gone, or could not be read.
    pub fn resume(self, latest: Result<Option<Tab>, String>) -> (next: PassStep)
        ensures
            next@ == read(self.work(), self.plan(), latest),
    {
        proof {
            use_type_invariant(&self);
        }
        let mut work = self.work;
        let plan = self.plan;
        let ghost before = work@;
        let target: usize = work.round.targets[work.round.next];
        assert(before.round.targets[before.round.next as int] == target);
        let context = target_context(
            &work.round.pass.settings,
            &work.round.pass.policy,
            &work.round.pass.fallback_shell,
            &work.round.pass.invocation,
            &work.round.snapshot,
            &work.round.positions,
            target,
        );
        let step = guard_rename(
            &context,
            &plan,
            latest,
            &mut work.round.pass.state,
            &mut work.decision,
        );
        match step {
            GuardStep::Settled => advance(settle(work.round, work.decision)),
            GuardStep::Failed(error) => finish(close_work(work), Err(error)),
            GuardStep::Stale => if plan.plugin_owned {
                persist(Pending::Stale(work))
            } else {
                settle_stale(work)
            },
            GuardStep::Rename => PassStep::Rename(RenameStep { work, plan }),
        }
    }
}

impl RenameStep {
    #[verifier::type_invariant]
    spec fn well_formed(self) -> bool {
        self.work.round.at_target()
    }

    /// The work that waits.
    pub closed spec fn work(&self) -> WorkView {
        self.work@
    }

    /// The rename that is to be sent.
    pub closed spec fn plan(&self) -> PlanView {
        self.plan@
    }

    /// The tab that is to be renamed.
    pub fn tab_id(&self) -> (tab_id: &str)
        ensures
            tab_id@ == self.work().round.context().tab_id(),
    {
        proof {
            use_type_invariant(self);
        }
        let round = &self.work.round;
        assert(round@.targets[round@.next as int] == round.targets@[round.next as int]);
        round.snapshot.tabs[round.targets[round.next]].tab.tab_id.as_str()
    }

    /// The label that is to be set.
    pub fn label(&self) -> (label: &str)
        ensures
            label@ == self.plan().desired,
    {
        self.plan.desired.as_str()
    }

    /// Continues once the rename was sent, or could not be.
    pub fn resume(self, result: Result<(), String>) -> (next: PassStep)
        ensures
            next@ == renamed(self.work(), self.plan(), result),
    {
        proof {
            use_type_invariant(&self);
        }
        let mut work = self.work;
        let plan = self.plan;
        let ghost before = work@;
        let target: usize = work.round.targets[work.round.next];
        assert(before.round.targets[before.round.next as int] == target);
        let context = target_context(
            &work.round.pass.settings,
            &work.round.pass.policy,
            &work.round.pass.fallback_shell,
            &work.round.pass.invocation,
            &work.round.snapshot,
            &work.round.positions,
            target,
        );
        complete_rename(
            &context,
            plan,
            &result,
            &mut work.round.pass.state,
            &mut work.decision,
        );
        match result {
            Ok(_) => advance(settle(work.round, work.decision)),
            Err(error) => finish(close_work(work), Err(error)),
        }
    }
}

impl ClearSnapshotStep {
    /// The pass that waits.
    pub closed spec fn pass(&self) -> PassView {
        self.pass@
    }

    /// Continues once the session was read, or could not be.
    pub fn resume(self, snapshot: Result<SessionSnapshot, String>) -> (next: PassStep)
        ensures
            next@ == clear_observed(self.pass(), snapshot),
    {
        match snapshot {
            Ok(snapshot) => clear_advance(Clearing { pass: self.pass, snapshot, next: 0 }),
            Err(error) => finish(self.pass, Err(error)),
        }
    }
}

/// Goes on to the next tab whose number is to be taken off.
fn clear_advance(from: Clearing) -> (step: PassStep)
    requires
        from.next <= from.snapshot.tabs@.len(),
    ensures
        step@ == clear_advanced(from@),
{
    let mut clearing = from;
    proof {
        reveal(clear_advanced);
    }
    while clearing.next < clearing.snapshot.tabs.len()
        invariant
            clearing.next <= clearing.snapshot.tabs@.len(),
            clear_advanced(clearing@) == clear_advanced(from@),
        decreases clearing.snapshot.tabs@.len() - clearing.next,
    {
        proof {
            reveal(clear_advanced);
        }
        let label = clearing.snapshot.tabs[clearing.next].tab.label.as_str();
        if !text_eq(strip_numeric_prefix(label), label) {
            return PassStep::ClearReadTab(ClearReadTabStep { clearing });
        }
        let ghost before = clearing@;
        clearing.next = clearing.next + 1;
        assert(clearing@ == before.done());
    }
    let mut pass = clearing.pass;
    let no_tabs: Vec<String> = Vec::new();
    assert(text::text_set(no_tabs@) =~= Set::<Seq<char>>::empty());
    pass.state.prune_tabs(&no_tabs);
    persist(Pending::Finish(pass))
}

impl ClearReadTabStep {
    #[verifier::type_invariant]
    spec fn well_formed(self) -> bool {
        self.clearing.next < self.clearing.snapshot.tabs@.len()
    }

    /// The pass that waits.
    pub closed spec fn clearing(&self) -> ClearView {
        self.clearing@
    }

    /// The tab that is to be read.
    pub fn tab_id(&self) -> (tab_id: &str)
        ensures
            tab_id@ == self.clearing().tab().tab_id@,
    {
        proof {
            use_type_invariant(self);
        }
        self.clearing.snapshot.tabs[self.clearing.next].tab.tab_id.as_str()
    }

    /// Continues once the tab was read, is gone, or could not be read.
    pub fn resume(self, latest: Result<Option<Tab>, String>) -> (next: PassStep)
        ensures
            next@ == clear_read(self.clearing(), latest),
    {
        proof {
            use_type_invariant(&self);
        }
        let mut clearing = self.clearing;
        assert(clearing.next < clearing.snapshot.tabs.len());
        match latest {
            Ok(Some(latest)) => {
                let label = clearing.snapshot.tabs[clearing.next].tab.label.as_str();
                if text_eq(latest.label.as_str(), label) {
                    return PassStep::ClearRename(ClearRenameStep { clearing });
                }
            },
            Ok(None) => {},
            Err(error) => {
                return finish(clearing.pass, Err(error));
            },
        }
        clearing.next = clearing.next + 1;
        assert(clearing@ == self.clearing().done());
        clear_advance(clearing)
    }
}

impl ClearRenameStep {
    #[verifier::type_invariant]
    spec fn well_formed(self) -> bool {
        self.clearing.next < self.clearing.snapshot.tabs@.len()
    }

    /// The pass that waits.
    pub closed spec fn clearing(&self) -> ClearView {
        self.clearing@
    }

    /// The tab that is to be renamed.
    pub fn tab_id(&self) -> (tab_id: &str)
        ensures
            tab_id@ == self.clearing().tab().tab_id@,
    {
        proof {
            use_type_invariant(self);
        }
        self.clearing.snapshot.tabs[self.clearing.next].tab.tab_id.as_str()
    }

    /// The label that is to be set.
    pub fn label(&self) -> (label: &str)
        ensures
            label@ == self.clearing().desired(),
    {
        proof {
            use_type_invariant(self);
        }
        strip_numeric_prefix(self.clearing.snapshot.tabs[self.clearing.next].tab.label.as_str())
    }

    /// Continues once the rename was sent, or could not be.
    pub fn resume(self, result: Result<(), String>) -> (next: PassStep)
        ensures
            next@ == clear_renamed(self.clearing(), result),
    {
        proof {
            use_type_invariant(&self);
        }
        let mut clearing = self.clearing;
        assert(clearing.next < clearing.snapshot.tabs.len());
        match result {
            Ok(_) => {
                clearing.next = clearing.next + 1;
                assert(clearing@ == self.clearing().done());
                clear_advance(clearing)
            },
            Err(error) => finish(clearing.pass, Err(error)),
        }
    }
}

/// Begins to take the numbers off the tabs of a session, and suspends reconciliation.
pub fn clear_session(pass: Pass) -> (step: PassStep)
    ensures
        step@ == StepView::Persist(
            PendingView::ObserveClear(
                PassView { state: StateView { suspended: true, ..pass@.state }, ..pass@ },
            ),
        ),
{
    let mut pass = pass;
    pass.state.set_suspended(true);
    persist(Pending::ObserveClear(pass))
}

/// Begins a pass over a session whose state was loaded.
pub fn run_pass(
    settings: Settings,
    invocation: Invocation,
    fallback_shell: String,
    state: State,
    telemetry: Telemetry,
) -> (step: PassStep)
    ensures
        step@ == begun(
            PassView {
                settings: settings@,
                policy: settings::policy_of(settings@),
                fallback_shell: fallback_shell@,
                invocation,
                state: state@,
                record: telemetry@,
            },
        ),
{
    let policy = naming_policy(&settings);
    let mut pass = Pass { settings, policy, fallback_shell, invocation, state, telemetry };
    match &pass.invocation {
        Invocation::Clear => clear_session(pass),
        Invocation::Reset { tab_id, .. } => {
            pass.state.set_suspended(false);
            if let Some(tab_id) = tab_id {
                pass.state.set_ownership(tab_id.as_str(), TabOwnership::ResetPending);
            }
            persist(Pending::Observe(pass))
        },
        Invocation::Toggle { .. } => {
            pass.state.set_suspended(false);
            persist(Pending::Observe(pass))
        },
        _ => {
            if pass.state.is_suspended() {
                pass.telemetry.set_terminal_outcome("suspended");
                return finish(pass, Ok(()));
            }
            PassStep::Snapshot(SnapshotStep { pass })
        },
    }
}

/// Begins a pass that records nothing unless the settings ask for diagnostics.
///
/// A record that the settings do not ask for is handed back as it is.
pub fn run_pass_with_telemetry(
    settings: Settings,
    invocation: Invocation,
    fallback_shell: String,
    state: State,
    telemetry: Telemetry,
) -> (begun_pass: (PassStep, Telemetry))
    ensures
        begun_pass.0@ == begun(
            PassView {
                settings: settings@,
                policy: settings::policy_of(settings@),
                fallback_shell: fallback_shell@,
                invocation,
                state: state@,
                record: if settings.diagnostic_telemetry {
                    telemetry@
                } else {
                    None
                },
            },
        ),
        begun_pass.1@ == if settings.diagnostic_telemetry {
            None
        } else {
            telemetry@
        },
{
    if settings.diagnostic_telemetry {
        (run_pass(settings, invocation, fallback_shell, state, telemetry), Telemetry::Off)
    } else {
        (run_pass(settings, invocation, fallback_shell, state, Telemetry::Off), telemetry)
    }
}

/// Checks whether a pane's foreground process group contains the invoked program.
///
/// `observed` is what Herdr answered when it was asked for the processes of the pane.
pub fn pane_matches_program(
    observed: Result<PaneProcessInfo, String>,
    program: &str,
    settings: &Settings,
) -> (result: Result<bool, String>)
    ensures
        match observed {
            Ok(info) => result == Ok::<bool, String>(
                process_selection::group_runs(info, program@),
            ),
            Err(error) => result == Err::<bool, String>(error),
        },
{
    match observed {
        Ok(process_info) => Ok(
            process_group_matches_program(&process_info, program, &naming_policy(settings)),
        ),
        Err(error) => Err(error),
    }
}

/// The name of the login shell: what stands behind the last slash of its path, else `zsh`.
pub open spec fn login_shell(shell: Option<Seq<char>>) -> Seq<char> {
    match shell {
        Some(shell) => if text::segment_start(shell) < shell.len() {
            shell.skip(text::segment_start(shell))
        } else {
            "zsh"@
        },
        None => "zsh"@,
    }
}

/// The name of the login shell, given the value of `SHELL`.
pub fn fallback_shell(shell: Option<&str>) -> (name: String)
    ensures
        name@ == login_shell(text::borrowed_text(shell)),
{
    match shell {
        Some(shell) => {
            let path = characters(shell);
            assert(path@.take(path@.len() as int) == path@);
            let start = find_segment_start(&path, path.len());
            if start < path.len() {
                assert(path@.subrange(start as int, path@.len() as int) == path@.skip(start as int));
                text_of(&path, start, path.len())
            } else {
                "zsh".to_owned()
            }
        },
        None => "zsh".to_owned(),
    }
}

} // verus!
