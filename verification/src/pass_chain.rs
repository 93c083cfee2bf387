//! The chains of steps that a reconciliation pass can take, and how long they get.

use vstd::prelude::*;

use crate::config::Invocation;
use crate::herdr::{PaneProcessInfo, SessionSnapshot, SessionTab};
use crate::numbering::Tab;
use crate::reconciliation;
use crate::reconciliation::{ClearView, PassView, PendingView, RoundView, StepView, WorkView};
use crate::sequences;
use crate::state::StateView;
use crate::targeting;
use crate::telemetry;

verus! {

/// Whether one step of a pass can be followed by another in a session of at most `tabs` tabs,
/// whatever came of what the first asked for.
pub open spec fn follows(step: StepView, next: StepView, tabs: nat) -> bool {
    match step {
        StepView::Persist(pending) => exists|result: Result<(), String>|
            next == #[trigger] reconciliation::stored(pending, result),
        StepView::Snapshot(pass) => exists|snapshot: Result<SessionSnapshot, String>|
            fits(snapshot, tabs) && next == #[trigger] reconciliation::observed(pass, snapshot),
        StepView::Process { work, ownership, .. } => exists|
            processes: Result<PaneProcessInfo, String>,
        | next == #[trigger] reconciliation::processed(work, ownership, processes),
        StepView::ReadTab { work, plan } => exists|latest: Result<Option<Tab>, String>|
            next == #[trigger] reconciliation::read(work, plan, latest),
        StepView::Rename { work, plan } => exists|result: Result<(), String>|
            next == #[trigger] reconciliation::renamed(work, plan, result),
        StepView::ClearSnapshot(pass) => exists|snapshot: Result<SessionSnapshot, String>|
            fits(snapshot, tabs) && next == #[trigger] reconciliation::clear_observed(
                pass,
                snapshot,
            ),
        StepView::ClearReadTab(clear) => exists|latest: Result<Option<Tab>, String>|
            next == #[trigger] reconciliation::clear_read(clear, latest),
        StepView::ClearRename(clear) => exists|result: Result<(), String>|
            next == #[trigger] reconciliation::clear_renamed(clear, result),
        StepView::Finished { .. } => false,
    }
}

/// Whether a snapshot that was read has at most a number of tabs.
pub open spec fn fits(snapshot: Result<SessionSnapshot, String>, tabs: nat) -> bool {
    match snapshot {
        Ok(snapshot) => snapshot.tabs@.len() <= tabs,
        Err(_) => true,
    }
}

/// How many targets of a round are left.
pub open spec fn targets_left(round: RoundView) -> int {
    round.targets.len() - round.next
}

/// Whether work is on a target, of which there are at most a number.
pub open spec fn on_target(work: WorkView, tabs: nat) -> bool {
    1 <= targets_left(work.round) <= tabs
}

/// How many tabs are left to be cleared.
pub open spec fn tabs_left(clear: ClearView) -> int {
    clear.snapshot.tabs@.len() - clear.next
}

/// Whether a step lies on the way through a session of at most `tabs` tabs.
pub open spec fn on_the_way(step: StepView, tabs: nat) -> bool {
    match step {
        StepView::Persist(PendingView::Targets { snapshot, .. }) => snapshot.tabs@.len() <= tabs,
        StepView::Persist(PendingView::Guard { work, .. }) => on_target(work, tabs),
        StepView::Persist(PendingView::Stale(work)) => on_target(work, tabs),
        StepView::Process { work, .. } => on_target(work, tabs),
        StepView::ReadTab { work, .. } => on_target(work, tabs),
        StepView::Rename { work, .. } => on_target(work, tabs),
        StepView::ClearReadTab(clear) => 1 <= tabs_left(clear) <= tabs,
        StepView::ClearRename(clear) => 1 <= tabs_left(clear) <= tabs,
        _ => true,
    }
}

/// The most steps that can follow a step.
pub open spec fn steps_left(step: StepView, tabs: nat) -> int {
    match step {
        StepView::Persist(pending) => match pending {
            PendingView::Observe(_) => 5 * tabs as int + 4,
            PendingView::ObserveClear(_) => 5 * tabs as int + 4,
            PendingView::Targets { .. } => 5 * tabs as int + 2,
            PendingView::Guard { work, .. } => 5 * targets_left(work.round) - 1,
            PendingView::Stale(work) => 5 * targets_left(work.round) - 3,
            PendingView::Finish(_) => 1,
        },
        StepView::Snapshot(_) => 5 * tabs as int + 3,
        StepView::Process { work, .. } => 5 * targets_left(work.round),
        StepView::ReadTab { work, .. } => 5 * targets_left(work.round) - 2,
        StepView::Rename { work, .. } => 5 * targets_left(work.round) - 3,
        StepView::ClearSnapshot(_) => 5 * tabs as int + 3,
        StepView::ClearReadTab(clear) => 3 * tabs_left(clear),
        StepView::ClearRename(clear) => 3 * tabs_left(clear) - 1,
        StepView::Finished { .. } => 0,
    }
}

/// Whether a step lies on the way, with at most a number of steps to follow.
spec fn bounded(step: StepView, tabs: nat, most: int) -> bool {
    on_the_way(step, tabs) && 0 <= steps_left(step, tabs) <= most
}

proof fn lemma_advanced(round: RoundView, tabs: nat)
    requires
        0 <= targets_left(round) <= tabs,
    ensures
        bounded(reconciliation::advanced(round), tabs, 5 * targets_left(round) + 1),
    decreases targets_left(round),
{
    reveal(reconciliation::advanced);
    if round.next < round.targets.len() {
        let context = round.context();
        let before = round.pass.state;
        let after = round.with_state(context.opening_state(before));
        let decision = context.traced_opening(before, round.undecided());
        lemma_advanced(after.with_decision(decision).done(), tabs);
    }
}

proof fn lemma_clear_advanced(clear: ClearView, tabs: nat)
    requires
        0 <= tabs_left(clear) <= tabs,
    ensures
        bounded(reconciliation::clear_advanced(clear), tabs, 3 * tabs_left(clear) + 1),
    decreases tabs_left(clear),
{
    reveal(reconciliation::clear_advanced);
    if clear.next < clear.snapshot.tabs@.len() {
        lemma_clear_advanced(clear.done(), tabs);
    }
}

proof fn lemma_target_count(items: Seq<SessionTab>, wanted: spec_fn(SessionTab) -> bool)
    ensures
        sequences::positions_where(items, wanted).len() <= items.len(),
    decreases items.len(),
{
    if items.len() > 0 {
        lemma_target_count(items.drop_last(), wanted);
    }
}

proof fn lemma_started(
    pass: PassView,
    snapshot: SessionSnapshot,
    wanted: spec_fn(SessionTab) -> bool,
    tabs: nat,
)
    requires
        snapshot.tabs@.len() <= tabs,
    ensures
        bounded(reconciliation::started(pass, snapshot, wanted), tabs, 5 * tabs as int + 1),
{
    let targets = sequences::positions_where(snapshot.tabs@, wanted);
    lemma_target_count(snapshot.tabs@, wanted);
    lemma_advanced(
        RoundView {
            pass: PassView {
                record: telemetry::recording_snapshot(
                    pass.record,
                    snapshot,
                    reconciliation::target_ids(snapshot, targets),
                ),
                ..pass
            },
            snapshot,
            targets,
            next: 0,
        },
        tabs,
    );
}

proof fn lemma_observed(pass: PassView, snapshot: Result<SessionSnapshot, String>, tabs: nat)
    requires
        fits(snapshot, tabs),
    ensures
        bounded(reconciliation::observed(pass, snapshot), tabs, 5 * tabs as int + 2),
        bounded(reconciliation::clear_observed(pass, snapshot), tabs, 5 * tabs as int + 2),
{
    if let Ok(snapshot) = snapshot {
        let known = reconciliation::synchronized(pass, snapshot);
        lemma_started(known, snapshot, targeting::in_scope(snapshot, pass.invocation), tabs);
        lemma_clear_advanced(ClearView { pass, snapshot, next: 0 }, tabs);
        if let Invocation::ClosedPane { workspace_id, pane_id } = pass.invocation {
            let resolution = targeting::closed_pane(pass.state, snapshot, workspace_id@, pane_id@);
            let refreshed = pass.state.refresh(snapshot.panes@, snapshot.tabs@);
            lemma_started(
                PassView {
                    state: reconciliation::recovered(
                        StateView {
                            pane_tabs: refreshed.pane_tabs.remove(pane_id@),
                            ..refreshed
                        },
                        snapshot.tabs@,
                    ),
                    record: telemetry::recording_pane_mapping(
                        pass.record,
                        reconciliation::mapping_of(pane_id@, resolution),
                    ),
                    ..pass
                },
                snapshot,
                targeting::in_closed_scope(pass.invocation, resolution.mapped_tab_id),
                tabs,
            );
        }
    }
}

proof fn lemma_worked(step: StepView, next: StepView, tabs: nat)
    requires
        step is Process || step is ReadTab || step is Rename,
        on_the_way(step, tabs),
        follows(step, next, tabs),
    ensures
        bounded(next, tabs, steps_left(step, tabs) - 1),
{
    match step {
        StepView::Process { work, ownership, .. } => {
            let processes = choose|processes: Result<PaneProcessInfo, String>|
                next == #[trigger] reconciliation::processed(work, ownership, processes);
            let context = work.round.context();
            let before = work.round.pass.state;
            let after = work.round.with_state(
                context.planned_state(before, ownership, context.computed(processes)),
            );
            let decision = context.traced_naming(before, ownership, processes, work.decision);
            lemma_advanced(after.with_decision(decision).done(), tabs);
        },
        StepView::ReadTab { work, plan } => {
            let latest = choose|latest: Result<Option<Tab>, String>|
                next == #[trigger] reconciliation::read(work, plan, latest);
            let context = work.round.context();
            let before = work.round.pass.state;
            let after = work.round.with_state(context.guarded_state(before, plan, latest));
            let decision = context.traced_guard(before, latest, work.decision);
            lemma_advanced(after.with_decision(decision).done(), tabs);
            lemma_stale(WorkView { round: after, decision }, tabs);
        },
        StepView::Rename { work, plan } => {
            let result = choose|result: Result<(), String>|
                next == #[trigger] reconciliation::renamed(work, plan, result);
            let context = work.round.context();
            let before = work.round.pass.state;
            let after = work.round.with_state(
                context.renamed_state(before, plan, result),
            ).with_decision(context.traced_rename(before, plan, result, work.decision));
            lemma_advanced(after.done(), tabs);
        },
        _ => {},
    }
}

proof fn lemma_stale(work: WorkView, tabs: nat)
    requires
        on_target(work, tabs),
    ensures
        bounded(reconciliation::stale(work), tabs, 5 * targets_left(work.round) - 4),
{
    lemma_advanced(
        work.round.with_decision(
            work.round.context().traced_stale(work.round.pass.state, work.decision),
        ).done(),
        tabs,
    );
}

/// Every step of a pass comes closer to its end, whatever comes back.
pub proof fn every_step_comes_closer_to_the_end(step: StepView, next: StepView, tabs: nat)
    requires
        on_the_way(step, tabs),
        follows(step, next, tabs),
    ensures
        on_the_way(next, tabs),
        0 <= steps_left(next, tabs) < steps_left(step, tabs),
{
    match step {
        StepView::Persist(pending) => {
            match pending {
                PendingView::Targets { pass, snapshot } => {
                    lemma_started(
                        pass,
                        snapshot,
                        targeting::in_scope(snapshot, pass.invocation),
                        tabs,
                    );
                },
                PendingView::Stale(work) => {
                    lemma_stale(work, tabs);
                },
                _ => {},
            }
        },
        StepView::Snapshot(pass) => {
            let snapshot = choose|snapshot: Result<SessionSnapshot, String>|
                fits(snapshot, tabs) && next == #[trigger] reconciliation::observed(pass, snapshot);
            lemma_observed(pass, snapshot, tabs);
        },
        StepView::ClearSnapshot(pass) => {
            let snapshot = choose|snapshot: Result<SessionSnapshot, String>|
                fits(snapshot, tabs) && next == #[trigger] reconciliation::clear_observed(
                    pass,
                    snapshot,
                );
            lemma_observed(pass, snapshot, tabs);
        },
        StepView::ClearReadTab(clear) => {
            lemma_clear_advanced(clear.done(), tabs);
        },
        StepView::ClearRename(clear) => {
            lemma_clear_advanced(clear.done(), tabs);
        },
        StepView::Finished { .. } => {},
        _ => {
            lemma_worked(step, next, tabs);
        },
    }
}

/// Whether the step at a position follows the one before it.
pub open spec fn linked(steps: Seq<StepView>, position: int, tabs: nat) -> bool {
    follows(steps[position - 1], steps[position], tabs)
}

/// Whether steps are those of a pass over a session of at most `tabs` tabs, from its first one on.
pub open spec fn steps_of(pass: PassView, steps: Seq<StepView>, tabs: nat) -> bool {
    &&& steps.len() > 0
    &&& steps[0] == reconciliation::begun(pass)
    &&& forall|position: int| 0 < position < steps.len() ==> #[trigger] linked(
        steps,
        position,
        tabs,
    )
}

proof fn lemma_chain(pass: PassView, steps: Seq<StepView>, tabs: nat)
    requires
        steps_of(pass, steps, tabs),
    ensures
        on_the_way(steps.last(), tabs),
        0 <= steps_left(steps.last(), tabs),
        steps.len() + steps_left(steps.last(), tabs) <= 5 * tabs + 5,
    decreases steps.len(),
{
    if steps.len() > 1 {
        let before = steps.drop_last();
        assert forall|position: int| 0 < position < before.len() implies #[trigger] linked(
            before,
            position,
            tabs,
        ) by {
            assert(linked(steps, position, tabs));
        }
        lemma_chain(pass, before, tabs);
        assert(linked(steps, steps.len() - 1, tabs));
        every_step_comes_closer_to_the_end(before.last(), steps.last(), tabs);
    }
}

/// A pass asks for a bounded number of things: no more than a few for each tab of the session.
pub proof fn passes_are_bounded(pass: PassView, steps: Seq<StepView>, tabs: nat)
    requires
        steps_of(pass, steps, tabs),
    ensures
        steps.len() <= 5 * tabs + 5,
{
    lemma_chain(pass, steps, tabs);
}

} // verus!
