//! What holds of every reconciliation pass.

use vstd::prelude::*;

use crate::config::Invocation;
use crate::herdr::{PaneInfo, PaneProcessInfo, SessionSnapshot, SessionTab};
use crate::numbering;
use crate::numbering::Tab;
use crate::pass_chain;
use crate::reconciliation;
use crate::reconciliation::{ClearView, PassView, PendingView, RoundView, StepView, WorkView};
use crate::sequences;
use crate::state;
use crate::state::{OwnershipView, StateView};
use crate::tab_decision;
use crate::tab_reconciliation;
use crate::tab_reconciliation::{PlanView, TabStepView};
use crate::table;
use crate::targeting;
use crate::telemetry;

verus! {

/// The pass that a step belongs to.
pub open spec fn pass_of(step: StepView) -> PassView {
    match step {
        StepView::Persist(pending) => pending.pass(),
        StepView::Snapshot(pass) => pass,
        StepView::Process { work, .. } => work.round.pass,
        StepView::ReadTab { work, .. } => work.round.pass,
        StepView::Rename { work, .. } => work.round.pass,
        StepView::ClearSnapshot(pass) => pass,
        StepView::ClearReadTab(clear) => clear.pass,
        StepView::ClearRename(clear) => clear.pass,
        StepView::Finished { pass, .. } => pass,
    }
}

/// Whether the rename of the current target is on record.
pub open spec fn on_record(work: WorkView, plan: PlanView) -> bool {
    let context = work.round.context();
    match work.round.pass.state.ownership(context.tab_id()) {
        Some(OwnershipView::PendingRename { observed, desired, desired_base, .. }) => observed
            == context.label() && desired == plan.desired && desired_base == plan.desired_base,
        _ => false,
    }
}

/// Whether a step asks for no rename that was not prepared.
///
/// It sends no rename at all, it reads no tab for a rename of the plugin's own, and what it stores
/// before such a reading has the rename on record.
pub open spec fn prepared(step: StepView) -> bool {
    match step {
        StepView::Rename { .. } => false,
        StepView::ClearRename(_) => false,
        StepView::ReadTab { plan, .. } => !plan.plugin_owned,
        StepView::Persist(PendingView::Guard { work, plan }) => plan.plugin_owned && on_record(
            work,
            plan,
        ),
        _ => true,
    }
}

/// Whether a step goes on: it ends the pass neither well nor badly.
pub open spec fn ongoing(step: StepView) -> bool {
    !(step is Finished)
}

proof fn lemma_advanced(round: RoundView)
    ensures
        prepared(reconciliation::advanced(round)),
        ongoing(reconciliation::advanced(round)),
    decreases round.targets.len() - round.next,
{
    reveal(reconciliation::advanced);
    if round.next < round.targets.len() {
        let context = round.context();
        let before = round.pass.state;
        let ownership = before.ownership(context.tab_id());
        let after = round.with_state(context.opening_state(before));
        let decision = context.traced_opening(before, round.undecided());
        match context.opening(ownership) {
            TabStepView::Settled => {
                lemma_advanced(after.with_decision(decision).done());
            },
            TabStepView::Observe { .. } => {},
            TabStepView::Guard(plan) => {
                assert(after.context() == context);
                tab_reconciliation::renames_are_recorded_ahead(
                    context,
                    context.claimed_state(before),
                    ownership,
                    None,
                );
            },
        }
    }
}

proof fn lemma_clear_advanced(clear: ClearView)
    ensures
        prepared(reconciliation::clear_advanced(clear)),
        ongoing(reconciliation::clear_advanced(clear)),
        pass_of(reconciliation::clear_advanced(clear)).state.suspended
            == clear.pass.state.suspended,
    decreases clear.snapshot.tabs@.len() - clear.next,
{
    reveal(reconciliation::clear_advanced);
    if clear.next < clear.snapshot.tabs@.len() && clear.desired() == clear.tab().label@ {
        lemma_clear_advanced(clear.done());
    }
}

/// While a session is suspended, a pass that is no action of the user does nothing at all.
pub proof fn suspended_sessions_are_left_alone(pass: PassView)
    requires
        pass.state.suspended,
        !(pass.invocation is Clear || pass.invocation is Reset || pass.invocation is Toggle),
    ensures
        match reconciliation::begun(pass) {
            StepView::Finished { pass: end, result } => end.state == pass.state && result == Ok::<
                (),
                Seq<char>,
            >(()),
            _ => false,
        },
{
}

/// Resetting and toggling end a suspension, and the state that says so is stored first.
pub proof fn user_actions_end_a_suspension(pass: PassView)
    requires
        pass.invocation is Reset || pass.invocation is Toggle,
    ensures
        match reconciliation::begun(pass) {
            StepView::Persist(PendingView::Observe(next)) => !next.state.suspended,
            _ => false,
        },
{
}

/// Clearing suspends the session from its first step on, whatever comes back.
pub proof fn clearing_suspends_the_session(
    pass: PassView,
    clear: ClearView,
    snapshot: Result<SessionSnapshot, String>,
    latest: Result<Option<Tab>, String>,
    result: Result<(), String>,
)
    requires
        pass.invocation is Clear,
        clear.pass.state.suspended,
    ensures
        pass_of(reconciliation::begun(pass)).state.suspended,
        pass_of(
            reconciliation::clear_observed(pass_of(reconciliation::begun(pass)), snapshot),
        ).state.suspended,
        pass_of(reconciliation::clear_read(clear, latest)).state.suspended,
        pass_of(reconciliation::clear_renamed(clear, result)).state.suspended,
{
    let begun = pass_of(reconciliation::begun(pass));
    if let Ok(snapshot) = snapshot {
        lemma_clear_advanced(ClearView { pass: begun, snapshot, next: 0 });
    }
    lemma_clear_advanced(clear.done());
}

/// Clearing renames a tab to its label without number, and only if it has one.
pub proof fn clearing_strips_numbers(clear: ClearView)
    ensures
        match reconciliation::clear_advanced(clear) {
            StepView::ClearReadTab(stop) => stop.desired() != stop.tab().label@ && stop.desired()
                == numbering::base_label(stop.tab().label@),
            StepView::Persist(PendingView::Finish(pass)) => pass.state.tabs == Map::<
                Seq<char>,
                OwnershipView,
            >::empty(),
            _ => false,
        },
    decreases clear.snapshot.tabs@.len() - clear.next,
{
    reveal(reconciliation::clear_advanced);
    if clear.next >= clear.snapshot.tabs@.len() {
        assert(clear.pass.state.prune(Set::empty()).tabs =~= Map::<
            Seq<char>,
            OwnershipView,
        >::empty());
    } else if clear.desired() == clear.tab().label@ {
        clearing_strips_numbers(clear.done());
    }
}

/// Whether a step is entitled to what it asks for by the one before it.
///
/// A tab is renamed right after it was read with the label that the rename was decided for. Before
/// it is read for a rename of the plugin's own, a state with the rename on record is stored.
pub open spec fn entitled(before: StepView, step: StepView) -> bool {
    match step {
        StepView::Rename { plan, .. } => {
            &&& before matches StepView::ReadTab { work, plan: planned }
            &&& planned == plan
            &&& exists|tab: Tab|
                tab.label@ == work.round.context().label() && step
                    == #[trigger] reconciliation::read(work, plan, Ok(Some(tab)))
        },
        StepView::ClearRename(clear) => {
            &&& before == StepView::ClearReadTab(clear)
            &&& exists|tab: Tab|
                tab.label@ == clear.tab().label@ && step == #[trigger] reconciliation::clear_read(
                    clear,
                    Ok(Some(tab)),
                )
        },
        StepView::ReadTab { work, plan } => plan.plugin_owned ==> before == StepView::Persist(
            PendingView::Guard { work, plan },
        ),
        StepView::Persist(PendingView::Guard { work, plan }) => plan.plugin_owned && on_record(
            work,
            plan,
        ),
        _ => true,
    }
}

proof fn lemma_entitled(before: StepView, step: StepView, tabs: nat)
    requires
        pass_chain::follows(before, step, tabs),
    ensures
        entitled(before, step),
{
    match before {
        StepView::Persist(pending) => {
            match pending {
                PendingView::Targets { pass, snapshot } => {
                    lemma_started(pass, snapshot);
                },
                PendingView::Stale(work) => {
                    lemma_stale(work);
                },
                _ => {},
            }
        },
        StepView::Snapshot(pass) => {
            let snapshot = choose|snapshot: Result<SessionSnapshot, String>|
                pass_chain::fits(snapshot, tabs) && step == #[trigger] reconciliation::observed(
                    pass,
                    snapshot,
                );
            if let Ok(snapshot) = snapshot {
                lemma_started(reconciliation::synchronized(pass, snapshot), snapshot);
                if let Invocation::ClosedPane { workspace_id, pane_id } = pass.invocation {
                    lemma_observed_close(
                        pass,
                        snapshot,
                        pane_id@,
                        targeting::closed_pane(pass.state, snapshot, workspace_id@, pane_id@),
                    );
                }
            }
        },
        StepView::Process { work, ownership, .. } => {
            let processes = choose|processes: Result<PaneProcessInfo, String>|
                step == #[trigger] reconciliation::processed(work, ownership, processes);
            lemma_processed(work, ownership, processes);
        },
        StepView::ReadTab { work, plan } => {
            let latest = choose|latest: Result<Option<Tab>, String>|
                step == #[trigger] reconciliation::read(work, plan, latest);
            lemma_read(work, plan, latest);
            if let Ok(Some(tab)) = latest {
                assert(step == reconciliation::read(work, plan, Ok(Some(tab))));
            }
        },
        StepView::Rename { work, plan } => {
            let result = choose|result: Result<(), String>|
                step == #[trigger] reconciliation::renamed(work, plan, result);
            lemma_renamed(work, plan, result);
        },
        StepView::ClearSnapshot(pass) => {
            let snapshot = choose|snapshot: Result<SessionSnapshot, String>|
                pass_chain::fits(snapshot, tabs) && step
                    == #[trigger] reconciliation::clear_observed(pass, snapshot);
            if let Ok(snapshot) = snapshot {
                lemma_clear_advanced(ClearView { pass, snapshot, next: 0 });
            }
        },
        StepView::ClearReadTab(clear) => {
            let latest = choose|latest: Result<Option<Tab>, String>|
                step == #[trigger] reconciliation::clear_read(clear, latest);
            lemma_clear_advanced(clear.done());
            if let Ok(Some(tab)) = latest {
                assert(step == reconciliation::clear_read(clear, Ok(Some(tab))));
            }
        },
        StepView::ClearRename(clear) => {
            lemma_clear_advanced(clear.done());
        },
        StepView::Finished { .. } => {},
    }
}

/// Along every pass, a tab is renamed only right after it was read with the label that the rename
/// was decided for, and a rename of the plugin's own was stored before that.
pub proof fn passes_rename_only_what_they_may(
    pass: PassView,
    steps: Seq<StepView>,
    tabs: nat,
    position: int,
)
    requires
        pass_chain::steps_of(pass, steps, tabs),
        0 <= position < steps.len(),
    ensures
        steps[position] is Rename || steps[position] is ClearRename ==> position > 0,
        position > 0 ==> entitled(steps[position - 1], steps[position]),
        steps[position] matches StepView::Rename { plan, .. } ==> (plan.plugin_owned ==> {
            &&& position > 1
            &&& steps[position - 2] matches StepView::Persist(
                PendingView::Guard { work, plan: stored },
            )
            &&& stored == plan
            &&& on_record(work, plan)
        }),
{
    if position > 0 {
        assert(pass_chain::linked(steps, position, tabs));
        lemma_entitled(steps[position - 1], steps[position], tabs);
    }
    if position > 1 {
        assert(pass_chain::linked(steps, position - 1, tabs));
        lemma_entitled(steps[position - 2], steps[position - 1], tabs);
    }
    if position > 2 {
        assert(pass_chain::linked(steps, position - 2, tabs));
        lemma_entitled(steps[position - 3], steps[position - 2], tabs);
    }
}

proof fn lemma_started(pass: PassView, snapshot: SessionSnapshot)
    ensures
        forall|wanted: spec_fn(SessionTab) -> bool|
            prepared(#[trigger] reconciliation::started(pass, snapshot, wanted)),
        forall|wanted: spec_fn(SessionTab) -> bool|
            ongoing(#[trigger] reconciliation::started(pass, snapshot, wanted)),
{
    assert forall|wanted: spec_fn(SessionTab) -> bool|
        prepared(#[trigger] reconciliation::started(pass, snapshot, wanted)) && ongoing(
            reconciliation::started(pass, snapshot, wanted),
        ) by {
        let targets = sequences::positions_where(snapshot.tabs@, wanted);
        lemma_advanced(
            RoundView {
                pass: PassView {
                    record: telemetry::recording_snapshot(
                        pass.record,
                        snapshot,
                        reconciliation::target_ids(snapshot, targets),
                    ),
                    ..pass
                },
                snapshot,
                targets,
                next: 0,
            },
        );
    }
}

proof fn lemma_observed_close(
    pass: PassView,
    snapshot: SessionSnapshot,
    pane_id: Seq<char>,
    resolution: targeting::ClosedPaneView,
)
    ensures
        prepared(reconciliation::observed_close(pass, snapshot, pane_id, resolution)),
        ongoing(reconciliation::observed_close(pass, snapshot, pane_id, resolution)),
{
    let refreshed = pass.state.refresh(snapshot.panes@, snapshot.tabs@);
    let consumed = StateView { pane_tabs: refreshed.pane_tabs.remove(pane_id), ..refreshed };
    lemma_started(
        PassView {
            state: reconciliation::recovered(consumed, snapshot.tabs@),
            record: telemetry::recording_pane_mapping(
                pass.record,
                reconciliation::mapping_of(pane_id, resolution),
            ),
            ..pass
        },
        snapshot,
    );
}

proof fn lemma_processed(
    work: WorkView,
    ownership: Option<OwnershipView>,
    processes: Result<PaneProcessInfo, String>,
)
    ensures
        prepared(reconciliation::processed(work, ownership, processes)),
        ongoing(reconciliation::processed(work, ownership, processes)),
{
    let context = work.round.context();
    let before = work.round.pass.state;
    let name = context.computed(processes);
    let after = work.round.with_state(context.planned_state(before, ownership, name));
    let decision = context.traced_naming(before, ownership, processes, work.decision);
    assert(after.context() == context);
    tab_reconciliation::renames_are_recorded_ahead(context, before, ownership, name);
    lemma_advanced(after.with_decision(decision).done());
}

proof fn lemma_read(work: WorkView, plan: PlanView, latest: Result<Option<Tab>, String>)
    ensures
        prepared(reconciliation::read(work, plan, latest)) || (reconciliation::read(
            work,
            plan,
            latest,
        ) is Rename && work.round.context().guarded(latest) is Rename),
        latest is Ok ==> ongoing(reconciliation::read(work, plan, latest)),
{
    let context = work.round.context();
    let before = work.round.pass.state;
    let after = work.round.with_state(context.guarded_state(before, plan, latest));
    let decision = context.traced_guard(before, latest, work.decision);
    lemma_advanced(after.with_decision(decision).done());
    lemma_stale(WorkView { round: after, decision });
}

proof fn lemma_stale(work: WorkView)
    ensures
        prepared(reconciliation::stale(work)),
        ongoing(reconciliation::stale(work)),
{
    lemma_advanced(
        work.round.with_decision(
            work.round.context().traced_stale(work.round.pass.state, work.decision),
        ).done(),
    );
}

proof fn lemma_renamed(work: WorkView, plan: PlanView, result: Result<(), String>)
    ensures
        prepared(reconciliation::renamed(work, plan, result)),
        result is Ok ==> ongoing(reconciliation::renamed(work, plan, result)),
{
    let context = work.round.context();
    let before = work.round.pass.state;
    let after = work.round.with_state(
        context.renamed_state(before, plan, result),
    ).with_decision(context.traced_rename(before, plan, result, work.decision));
    lemma_advanced(after.done());
}

/// A pass ends early only if something it asked for failed.
///
/// As long as everything succeeds, it ends only where it is suspended or where its last state was
/// stored. That the processes of a pane cannot be listed is no failure.
pub proof fn passes_end_only_when_done_or_failed(
    pass: PassView,
    pending: PendingView,
    work: WorkView,
    plan: PlanView,
    clear: ClearView,
    ownership: Option<OwnershipView>,
    snapshot: Result<SessionSnapshot, String>,
    processes: Result<PaneProcessInfo, String>,
    latest: Result<Option<Tab>, String>,
    result: Result<(), String>,
)
    ensures
        !ongoing(reconciliation::begun(pass)) ==> pass.state.suspended,
        !ongoing(reconciliation::observed(pass, snapshot)) ==> snapshot is Err,
        ongoing(reconciliation::processed(work, ownership, processes)),
        !ongoing(reconciliation::read(work, plan, latest)) ==> latest is Err,
        !ongoing(reconciliation::renamed(work, plan, result)) ==> result is Err,
        !ongoing(reconciliation::stored(pending, result)) ==> result is Err || pending is Finish,
        !ongoing(reconciliation::clear_observed(pass, snapshot)) ==> snapshot is Err,
        !ongoing(reconciliation::clear_read(clear, latest)) ==> latest is Err,
        !ongoing(reconciliation::clear_renamed(clear, result)) ==> result is Err,
{
    if let Ok(snapshot) = snapshot {
        lemma_started(reconciliation::synchronized(pass, snapshot), snapshot);
        if let Invocation::ClosedPane { workspace_id, pane_id } = pass.invocation {
            let resolution = targeting::closed_pane(
                pass.state,
                snapshot,
                workspace_id@,
                pane_id@,
            );
            lemma_observed_close(pass, snapshot, pane_id@, resolution);
        }
        lemma_clear_advanced(ClearView { pass, snapshot, next: 0 });
    }
    lemma_processed(work, ownership, processes);
    lemma_read(work, plan, latest);
    lemma_renamed(work, plan, result);
    lemma_clear_advanced(clear.done());
    match pending {
        PendingView::Targets { pass, snapshot } => {
            lemma_started(pass, snapshot);
        },
        PendingView::Stale(work) => {
            lemma_stale(work);
        },
        _ => {},
    }
}

/// A pass that is not recorded.
pub open spec fn unrecorded_pass(pass: PassView) -> PassView {
    PassView { record: None, ..pass }
}

/// Work whose pass is not recorded.
pub open spec fn unrecorded_work(work: WorkView) -> WorkView {
    WorkView { round: unrecorded_round(work.round), decision: None }
}

/// A round whose pass is not recorded.
pub open spec fn unrecorded_round(round: RoundView) -> RoundView {
    RoundView { pass: unrecorded_pass(round.pass), ..round }
}

/// A clearing whose pass is not recorded.
pub open spec fn unrecorded_clearing(clear: ClearView) -> ClearView {
    ClearView { pass: unrecorded_pass(clear.pass), ..clear }
}

/// What follows a stored state, in a pass that is not recorded.
pub open spec fn unrecorded_pending(pending: PendingView) -> PendingView {
    match pending {
        PendingView::Observe(pass) => PendingView::Observe(unrecorded_pass(pass)),
        PendingView::ObserveClear(pass) => PendingView::ObserveClear(unrecorded_pass(pass)),
        PendingView::Targets { pass, snapshot } => PendingView::Targets {
            pass: unrecorded_pass(pass),
            snapshot,
        },
        PendingView::Guard { work, plan } => PendingView::Guard {
            work: unrecorded_work(work),
            plan,
        },
        PendingView::Stale(work) => PendingView::Stale(unrecorded_work(work)),
        PendingView::Finish(pass) => PendingView::Finish(unrecorded_pass(pass)),
    }
}

/// A step of a pass that is not recorded.
pub open spec fn unrecorded(step: StepView) -> StepView {
    match step {
        StepView::Persist(pending) => StepView::Persist(unrecorded_pending(pending)),
        StepView::Snapshot(pass) => StepView::Snapshot(unrecorded_pass(pass)),
        StepView::Process { work, pane_id, ownership } => StepView::Process {
            work: unrecorded_work(work),
            pane_id,
            ownership,
        },
        StepView::ReadTab { work, plan } => StepView::ReadTab { work: unrecorded_work(work), plan },
        StepView::Rename { work, plan } => StepView::Rename { work: unrecorded_work(work), plan },
        StepView::ClearSnapshot(pass) => StepView::ClearSnapshot(unrecorded_pass(pass)),
        StepView::ClearReadTab(clear) => StepView::ClearReadTab(unrecorded_clearing(clear)),
        StepView::ClearRename(clear) => StepView::ClearRename(unrecorded_clearing(clear)),
        StepView::Finished { pass, result } => StepView::Finished {
            pass: unrecorded_pass(pass),
            result,
        },
    }
}

proof fn lemma_unrecorded_advanced(round: RoundView)
    ensures
        unrecorded(reconciliation::advanced(round)) == reconciliation::advanced(
            unrecorded_round(round),
        ),
    decreases round.targets.len() - round.next,
{
    reveal(reconciliation::advanced);
    if round.next < round.targets.len() {
        let context = round.context();
        let before = round.pass.state;
        let after = round.with_state(context.opening_state(before));
        let decision = context.traced_opening(before, round.undecided());
        let settled = after.with_decision(decision).done();
        let plain = unrecorded_round(round);
        assert(plain.context() == context);
        assert(context.traced_opening(before, None) is None);
        assert(unrecorded_round(settled) == plain.with_state(
            context.opening_state(before),
        ).with_decision(None).done());
        if context.opening(before.ownership(context.tab_id())) is Settled {
            lemma_unrecorded_advanced(settled);
        }
    }
}

proof fn lemma_unrecorded_clear_advanced(clear: ClearView)
    ensures
        unrecorded(reconciliation::clear_advanced(clear)) == reconciliation::clear_advanced(
            unrecorded_clearing(clear),
        ),
    decreases clear.snapshot.tabs@.len() - clear.next,
{
    reveal(reconciliation::clear_advanced);
    if clear.next < clear.snapshot.tabs@.len() && clear.desired() == clear.tab().label@ {
        lemma_unrecorded_clear_advanced(clear.done());
        assert(unrecorded_clearing(clear.done()) == unrecorded_clearing(clear).done());
    }
}

proof fn lemma_unrecorded_started(
    pass: PassView,
    snapshot: SessionSnapshot,
    wanted: spec_fn(SessionTab) -> bool,
)
    ensures
        unrecorded(reconciliation::started(pass, snapshot, wanted)) == reconciliation::started(
            unrecorded_pass(pass),
            snapshot,
            wanted,
        ),
{
    let targets = sequences::positions_where(snapshot.tabs@, wanted);
    let round = RoundView {
        pass: PassView {
            record: telemetry::recording_snapshot(
                pass.record,
                snapshot,
                reconciliation::target_ids(snapshot, targets),
            ),
            ..pass
        },
        snapshot,
        targets,
        next: 0,
    };
    lemma_unrecorded_advanced(round);
}

proof fn lemma_unrecorded_stale(work: WorkView)
    ensures
        unrecorded(reconciliation::stale(work)) == reconciliation::stale(unrecorded_work(work)),
{
    let context = work.round.context();
    let settled = work.round.with_decision(
        context.traced_stale(work.round.pass.state, work.decision),
    ).done();
    assert(unrecorded_work(work).round.context() == context);
    assert(unrecorded_round(settled) == unrecorded_work(work).round.with_decision(None).done());
    lemma_unrecorded_advanced(settled);
}

proof fn lemma_unrecorded_observed(pass: PassView, snapshot: SessionSnapshot)
    ensures
        unrecorded(reconciliation::observed(pass, Ok(snapshot))) == reconciliation::observed(
            unrecorded_pass(pass),
            Ok(snapshot),
        ),
{
    let known = reconciliation::synchronized(pass, snapshot);
    lemma_unrecorded_started(known, snapshot, targeting::in_scope(snapshot, pass.invocation));
    if let Invocation::ClosedPane { workspace_id, pane_id } = pass.invocation {
        let resolution = targeting::closed_pane(pass.state, snapshot, workspace_id@, pane_id@);
        let refreshed = pass.state.refresh(snapshot.panes@, snapshot.tabs@);
        let consumed = StateView { pane_tabs: refreshed.pane_tabs.remove(pane_id@), ..refreshed };
        lemma_unrecorded_started(
            PassView {
                state: reconciliation::recovered(consumed, snapshot.tabs@),
                record: telemetry::recording_pane_mapping(
                    pass.record,
                    reconciliation::mapping_of(pane_id@, resolution),
                ),
                ..pass
            },
            snapshot,
            targeting::in_closed_scope(pass.invocation, resolution.mapped_tab_id),
        );
    }
}

proof fn lemma_unrecorded_work(
    work: WorkView,
    plan: PlanView,
    ownership: Option<OwnershipView>,
    processes: Result<PaneProcessInfo, String>,
    latest: Result<Option<Tab>, String>,
    result: Result<(), String>,
)
    ensures
        unrecorded(reconciliation::processed(work, ownership, processes))
            == reconciliation::processed(unrecorded_work(work), ownership, processes),
        unrecorded(reconciliation::read(work, plan, latest)) == reconciliation::read(
            unrecorded_work(work),
            plan,
            latest,
        ),
        unrecorded(reconciliation::renamed(work, plan, result)) == reconciliation::renamed(
            unrecorded_work(work),
            plan,
            result,
        ),
{
    let context = work.round.context();
    let before = work.round.pass.state;
    let plain = unrecorded_work(work).round;
    assert(plain.context() == context);
    let name = context.computed(processes);
    let named = work.round.with_state(context.planned_state(before, ownership, name));
    let naming = context.traced_naming(before, ownership, processes, work.decision);
    assert(context.traced_naming(before, ownership, processes, None) is None);
    lemma_unrecorded_advanced(named.with_decision(naming).done());
    assert(unrecorded_round(named.with_decision(naming).done()) == plain.with_state(
        context.planned_state(before, ownership, name),
    ).with_decision(None).done());
    let guarded = work.round.with_state(context.guarded_state(before, plan, latest));
    let guarding = context.traced_guard(before, latest, work.decision);
    assert(context.traced_guard(before, latest, None) is None);
    lemma_unrecorded_advanced(guarded.with_decision(guarding).done());
    assert(unrecorded_round(guarded.with_decision(guarding).done()) == plain.with_state(
        context.guarded_state(before, plan, latest),
    ).with_decision(None).done());
    lemma_unrecorded_stale(WorkView { round: guarded, decision: guarding });
    let after = work.round.with_state(
        context.renamed_state(before, plan, result),
    ).with_decision(context.traced_rename(before, plan, result, work.decision));
    assert(context.traced_rename(before, plan, result, None) is None);
    lemma_unrecorded_advanced(after.done());
    assert(unrecorded_round(after.done()) == plain.with_state(
        context.renamed_state(before, plan, result),
    ).with_decision(None).done());
}

/// Whether a pass is recorded makes no difference to what it asks for, stores or ends with.
pub proof fn recording_changes_nothing(
    pass: PassView,
    pending: PendingView,
    work: WorkView,
    plan: PlanView,
    clear: ClearView,
    ownership: Option<OwnershipView>,
    snapshot: Result<SessionSnapshot, String>,
    processes: Result<PaneProcessInfo, String>,
    latest: Result<Option<Tab>, String>,
    result: Result<(), String>,
)
    ensures
        unrecorded(reconciliation::begun(pass)) == reconciliation::begun(unrecorded_pass(pass)),
        unrecorded(reconciliation::observed(pass, snapshot)) == reconciliation::observed(
            unrecorded_pass(pass),
            snapshot,
        ),
        unrecorded(reconciliation::stored(pending, result)) == reconciliation::stored(
            unrecorded_pending(pending),
            result,
        ),
        unrecorded(reconciliation::processed(work, ownership, processes))
            == reconciliation::processed(unrecorded_work(work), ownership, processes),
        unrecorded(reconciliation::read(work, plan, latest)) == reconciliation::read(
            unrecorded_work(work),
            plan,
            latest,
        ),
        unrecorded(reconciliation::renamed(work, plan, result)) == reconciliation::renamed(
            unrecorded_work(work),
            plan,
            result,
        ),
        unrecorded(reconciliation::clear_observed(pass, snapshot))
            == reconciliation::clear_observed(unrecorded_pass(pass), snapshot),
        unrecorded(reconciliation::clear_read(clear, latest)) == reconciliation::clear_read(
            unrecorded_clearing(clear),
            latest,
        ),
        unrecorded(reconciliation::clear_renamed(clear, result)) == reconciliation::clear_renamed(
            unrecorded_clearing(clear),
            result,
        ),
{
    if let Ok(snapshot) = snapshot {
        lemma_unrecorded_observed(pass, snapshot);
        lemma_unrecorded_clear_advanced(ClearView { pass, snapshot, next: 0 });
    }
    lemma_unrecorded_work(work, plan, ownership, processes, latest, result);
    lemma_unrecorded_clear_advanced(clear.done());
    assert(unrecorded_clearing(clear.done()) == unrecorded_clearing(clear).done());
    match pending {
        PendingView::Targets { pass, snapshot } => {
            lemma_unrecorded_started(
                pass,
                snapshot,
                targeting::in_scope(snapshot, pass.invocation),
            );
        },
        PendingView::Stale(work) => {
            lemma_unrecorded_stale(work);
        },
        _ => {},
    }
}

/// After the renames of a snapshot are settled, none of its tabs has one pending.
pub proof fn recovery_settles_every_rename(state: StateView, tabs: Seq<SessionTab>, index: int)
    requires
        0 <= index < tabs.len(),
    ensures
        match reconciliation::recovered(state, tabs).ownership(tabs[index].tab.tab_id@) {
            Some(ownership) => !(ownership is PendingRename),
            None => true,
        },
    decreases tabs.len(),
{
    let shorter = tabs.drop_last();
    let before = reconciliation::recovered(state, shorter);
    let last = tabs.last().tab;
    state::resolving_is_final(before.ownership(last.tab_id@), last.label@, last.label@);
    if tabs[index].tab.tab_id@ != last.tab_id@ {
        assert(shorter[index] == tabs[index]);
        recovery_settles_every_rename(state, shorter, index);
    }
}

/// Settling the renames of a snapshot leaves every tab alone that is not in the snapshot.
pub proof fn recovery_leaves_other_tabs_alone(
    state: StateView,
    tabs: Seq<SessionTab>,
    tab_id: Seq<char>,
)
    requires
        !state::tab_ids(tabs).contains(tab_id),
    ensures
        reconciliation::recovered(state, tabs).ownership(tab_id) == state.ownership(tab_id),
        reconciliation::recovered(state, tabs).suspended == state.suspended,
        reconciliation::recovered(state, tabs).pane_tabs == state.pane_tabs,
    decreases tabs.len(),
{
    if tabs.len() > 0 {
        let shorter = tabs.drop_last();
        assert(tabs[tabs.len() - 1].tab.tab_id@ != tab_id);
        assert(!state::tab_ids(shorter).contains(tab_id)) by {
            if state::tab_ids(shorter).contains(tab_id) {
                let i = choose|i: int|
                    0 <= i < shorter.len() && (#[trigger] shorter[i]).tab.tab_id@ == tab_id;
                assert(tabs[i].tab.tab_id@ == tab_id);
            }
        }
        recovery_leaves_other_tabs_alone(state, shorter, tab_id);
    }
}

/// Toggling a tab twice ends on the other side than toggling it once.
pub proof fn toggling_alternates(state: StateView, snapshot: SessionSnapshot, tab_id: Seq<char>)
    requires
        targeting::tab_by_id(snapshot, tab_id) is Some,
    ensures
        ({
            let label = targeting::tab_by_id(snapshot, tab_id)->0.tab.label@;
            let once = reconciliation::toggled(state, snapshot, tab_id);
            reconciliation::toggles_on(once.ownership(tab_id), label)
                == !reconciliation::toggles_on(state.ownership(tab_id), label)
        }),
{
}

proof fn lemma_mapped_panes(
    mapping: Map<Seq<char>, Seq<char>>,
    panes: Seq<PaneInfo>,
    pane_id: Seq<char>,
)
    ensures
        (forall|i: int| 0 <= i < panes.len() ==> (#[trigger] panes[i]).pane_id@ != pane_id) ==> (
        state::mapped_panes(mapping, panes).contains_key(pane_id) == mapping.contains_key(pane_id)
            && state::mapped_panes(mapping, panes)[pane_id] == mapping[pane_id]),
    decreases panes.len(),
{
    if panes.len() > 0 {
        let shorter = panes.drop_last();
        lemma_mapped_panes(mapping, shorter, pane_id);
        if forall|i: int| 0 <= i < panes.len() ==> (#[trigger] panes[i]).pane_id@ != pane_id {
            assert forall|i: int| 0 <= i < shorter.len() implies (#[trigger] shorter[i]).pane_id@
                != pane_id by {
                assert(shorter[i] == panes[i]);
            }
            assert(panes[panes.len() - 1].pane_id@ != pane_id);
        }
    }
}

/// A pane of a snapshot is mapped to its tab.
pub proof fn present_panes_are_mapped(
    state: StateView,
    panes: Seq<PaneInfo>,
    tabs: Seq<SessionTab>,
    index: int,
)
    requires
        0 <= index < panes.len(),
        forall|i: int| index < i < panes.len() ==> (#[trigger] panes[i]).pane_id@
            != panes[index].pane_id@,
    ensures
        state.refresh(panes, tabs).pane_tabs.contains_key(panes[index].pane_id@),
        state.refresh(panes, tabs).pane_tabs[panes[index].pane_id@] == panes[index].tab_id@,
    decreases panes.len(),
{
    if index < panes.len() - 1 {
        let shorter = panes.drop_last();
        assert(shorter[index] == panes[index]);
        assert forall|i: int| index < i < shorter.len() implies (#[trigger] shorter[i]).pane_id@
            != shorter[index].pane_id@ by {
            assert(shorter[i] == panes[i]);
        }
        present_panes_are_mapped(state, shorter, tabs, index);
        assert(panes[panes.len() - 1].pane_id@ != panes[index].pane_id@);
    }
}

/// The mapping of a pane that is gone is kept exactly as long as its tab is there.
pub proof fn closed_panes_are_remembered_with_their_tab(
    state: StateView,
    panes: Seq<PaneInfo>,
    tabs: Seq<SessionTab>,
    pane_id: Seq<char>,
)
    requires
        forall|i: int| 0 <= i < panes.len() ==> (#[trigger] panes[i]).pane_id@ != pane_id,
    ensures
        state.refresh(panes, tabs).pane_tabs.contains_key(pane_id) <==> (
        state.pane_tabs.contains_key(pane_id) && state::tab_ids(tabs).contains(
            state.pane_tabs[pane_id],
        )),
        state.refresh(panes, tabs).pane_tabs.contains_key(pane_id) ==> state.refresh(
            panes,
            tabs,
        ).pane_tabs[pane_id] == state.pane_tabs[pane_id],
{
    lemma_mapped_panes(
        table::with_values_in(state.pane_tabs, state::tab_ids(tabs)),
        panes,
        pane_id,
    );
}

/// Whether a round leaves the ownership of a tab as it is.
pub open spec fn leaves_alone(step: StepView, before: PassView, tab_id: Seq<char>) -> bool {
    pass_of(step).state.ownership(tab_id) == before.state.ownership(tab_id)
}

/// No step of a round touches a tab that is no target, unless a full pass forgets it at the end.
pub proof fn only_targets_are_touched(
    round: RoundView,
    decision: Option<tab_decision::TabDecisionView>,
    plan: PlanView,
    ownership: Option<OwnershipView>,
    processes: Result<PaneProcessInfo, String>,
    latest: Result<Option<Tab>, String>,
    result: Result<(), String>,
    tab_id: Seq<char>,
)
    requires
        !(round.pass.invocation is Full),
        round.next < round.targets.len(),
        !reconciliation::target_ids(round.snapshot, round.targets).contains(tab_id),
    ensures
        leaves_alone(reconciliation::advanced(round), round.pass, tab_id),
        leaves_alone(
            reconciliation::processed(WorkView { round, decision }, ownership, processes),
            round.pass,
            tab_id,
        ),
        leaves_alone(
            reconciliation::read(WorkView { round, decision }, plan, latest),
            round.pass,
            tab_id,
        ),
        leaves_alone(
            reconciliation::renamed(WorkView { round, decision }, plan, result),
            round.pass,
            tab_id,
        ),
{
    let context = round.context();
    let before = round.pass.state;
    let work = WorkView { round, decision };
    lemma_untouched_target(round, tab_id);
    lemma_untouched(round, tab_id);
    let name = context.computed(processes);
    let named = round.with_state(context.planned_state(before, ownership, name));
    let naming = context.traced_naming(before, ownership, processes, decision);
    lemma_untouched(named.with_decision(naming).done(), tab_id);
    let guarded = round.with_state(context.guarded_state(before, plan, latest));
    let guarding = context.traced_guard(before, latest, decision);
    lemma_untouched(guarded.with_decision(guarding).done(), tab_id);
    lemma_untouched(
        guarded.with_decision(context.traced_stale(guarded.pass.state, guarding)).done(),
        tab_id,
    );
    let after = round.with_state(context.renamed_state(before, plan, result)).with_decision(
        context.traced_rename(before, plan, result, decision),
    );
    lemma_untouched(after.done(), tab_id);
    assert(guarded.context() == context);
}

proof fn lemma_untouched_target(round: RoundView, tab_id: Seq<char>)
    requires
        round.next < round.targets.len(),
        !reconciliation::target_ids(round.snapshot, round.targets).contains(tab_id),
    ensures
        round.context().tab_id() != tab_id,
{
    assert(reconciliation::target_ids(round.snapshot, round.targets)[round.next as int]
        == round.context().tab_id());
}

proof fn lemma_untouched(round: RoundView, tab_id: Seq<char>)
    requires
        !(round.pass.invocation is Full),
        !reconciliation::target_ids(round.snapshot, round.targets).contains(tab_id),
    ensures
        leaves_alone(reconciliation::advanced(round), round.pass, tab_id),
    decreases round.targets.len() - round.next,
{
    reveal(reconciliation::advanced);
    if round.next < round.targets.len() {
        lemma_untouched_target(round, tab_id);
        let context = round.context();
        let before = round.pass.state;
        let after = round.with_state(context.opening_state(before));
        let decision = context.traced_opening(before, round.undecided());
        if context.opening(before.ownership(context.tab_id())) is Settled {
            lemma_untouched(after.with_decision(decision).done(), tab_id);
        }
    }
}

} // verus!
