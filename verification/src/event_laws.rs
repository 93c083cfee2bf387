//! How a pass goes about its event, step by step, in terms of what each step was answered.

use vstd::prelude::*;

use crate::config::Invocation;
use crate::herdr::{PaneProcessInfo, SessionSnapshot, SessionTab};
use crate::idempotence;
use crate::idempotence::Answers;
use crate::numbering;
use crate::numbering::Tab;
use crate::reconciliation;
use crate::reconciliation::{ClearView, PassView, PendingView, RoundView, StepView, WorkView};
use crate::sequences;
use crate::settings;
use crate::settings::SettingsView;
use crate::state;
use crate::state::{OwnershipView, StateView};
use crate::tab_decision::TabDecisionView;
use crate::tab_laws;
use crate::tab_reconciliation::{ContextView, GuardStepView, PlanView, TabStepView};
use crate::targeting;
use crate::targeting_laws;
use crate::telemetry;
use crate::telemetry::{DecisionView, PaneMappingView};
use crate::text;

verus! {

/// Whether a pass is another with a given state, whatever is on record.
pub open spec fn continues(pass: PassView, before: PassView, state: StateView) -> bool {
    &&& pass.settings == before.settings
    &&& pass.policy == before.policy
    &&& pass.fallback_shell == before.fallback_shell
    &&& pass.invocation == before.invocation
    &&& pass.state == state
}

/// Whether a round goes through given targets of a snapshot from one on, for a pass with a state.
pub open spec fn goes_through(
    round: RoundView,
    before: PassView,
    state: StateView,
    snapshot: SessionSnapshot,
    targets: Seq<int>,
    next: nat,
) -> bool {
    &&& continues(round.pass, before, state)
    &&& round.snapshot == snapshot
    &&& round.targets == targets
    &&& round.next == next
}

/// Whether a step is one on the way through given targets of a snapshot from one on.
pub open spec fn on_the_way(
    step: StepView,
    before: PassView,
    state: StateView,
    snapshot: SessionSnapshot,
    targets: Seq<int>,
    next: nat,
) -> bool {
    exists|round: RoundView|
        goes_through(round, before, state, snapshot, targets, next) && step
            == #[trigger] reconciliation::advanced(round)
}

/// The actions of a user are stored before the session is read: a reset is pending for its tab, a
/// clearing suspends the session, and the others resume it. A suspended session is left alone by
/// everything else.
pub proof fn actions_are_stored_first(pass: PassView)
    ensures
        match pass.invocation {
            Invocation::Clear => reconciliation::begun(pass) matches StepView::Persist(
                PendingView::ObserveClear(next),
            ) && continues(next, pass, StateView { suspended: true, ..pass.state }),
            Invocation::Reset { tab_id: Some(tab_id), .. } => reconciliation::begun(
                pass,
            ) matches StepView::Persist(PendingView::Observe(next)) && continues(
                next,
                pass,
                StateView {
                    suspended: false,
                    tabs: pass.state.tabs.insert(tab_id@, OwnershipView::ResetPending),
                    pane_tabs: pass.state.pane_tabs,
                },
            ),
            Invocation::Reset { tab_id: None, .. } => reconciliation::begun(
                pass,
            ) matches StepView::Persist(PendingView::Observe(next)) && continues(
                next,
                pass,
                StateView { suspended: false, ..pass.state },
            ),
            Invocation::Toggle { .. } => reconciliation::begun(pass) matches StepView::Persist(
                PendingView::Observe(next),
            ) && continues(next, pass, StateView { suspended: false, ..pass.state }),
            _ => if pass.state.suspended {
                reconciliation::begun(pass) matches StepView::Finished { pass: end, result }
                    && result == Ok::<(), Seq<char>>(()) && continues(end, pass, pass.state)
            } else {
                reconciliation::begun(pass) == StepView::Snapshot(pass)
            },
        },
{
}

/// Once a state is stored the pass goes on where it was; if it cannot be stored the pass fails.
pub proof fn stored_passes_go_on(
    pass: PassView,
    work: WorkView,
    plan: PlanView,
    pending: PendingView,
    error: String,
)
    ensures
        reconciliation::stored(PendingView::Observe(pass), Ok(())) == StepView::Snapshot(pass),
        reconciliation::stored(PendingView::ObserveClear(pass), Ok(()))
            == StepView::ClearSnapshot(pass),
        reconciliation::stored(PendingView::Guard { work, plan }, Ok(())) == (StepView::ReadTab {
            work,
            plan,
        }),
        reconciliation::stored(PendingView::Finish(pass), Ok(())) == (StepView::Finished {
            pass,
            result: Ok(()),
        }),
        reconciliation::stored(pending, Err(error)) matches StepView::Finished { pass: end, result }
            && result == Err::<(), Seq<char>>(error@) && end.state == pending.pass().state,
{
}

/// What is known once a session was read: which panes are where, and which renames came through.
pub open spec fn caught_up(state: StateView, snapshot: SessionSnapshot) -> StateView {
    reconciliation::recovered(state.refresh(snapshot.panes@, snapshot.tabs@), snapshot.tabs@)
}

proof fn lemma_started(
    pass: PassView,
    snapshot: SessionSnapshot,
    wanted: spec_fn(SessionTab) -> bool,
)
    ensures
        on_the_way(
            reconciliation::started(pass, snapshot, wanted),
            pass,
            pass.state,
            snapshot,
            sequences::positions_where(snapshot.tabs@, wanted),
            0,
        ),
{
    let targets = sequences::positions_where(snapshot.tabs@, wanted);
    let round = RoundView {
        pass: PassView {
            record: telemetry::recording_snapshot(
                pass.record,
                snapshot,
                reconciliation::target_ids(snapshot, targets),
            ),
            ..pass
        },
        snapshot,
        targets,
        next: 0,
    };
    assert(goes_through(round, pass, pass.state, snapshot, targets, 0));
    assert(reconciliation::started(pass, snapshot, wanted) == reconciliation::advanced(round));
}

/// Once the session was read, an event goes through the tabs it is about, from the first one on,
/// with the panes and the renames of the session caught up with.
pub proof fn events_go_through_their_tabs(pass: PassView, snapshot: SessionSnapshot, error: String)
    ensures
        reconciliation::observed(pass, Err(error)) == (StepView::Finished {
            pass,
            result: Err(error@),
        }),
        !(pass.invocation is ClosedPane) && !(pass.invocation matches Invocation::Toggle {
            tab_id: Some(_),
            ..
        }) ==> on_the_way(
            reconciliation::observed(pass, Ok(snapshot)),
            pass,
            caught_up(pass.state, snapshot),
            snapshot,
            targeting_laws::targets(snapshot, pass.invocation),
            0,
        ),
{
    let known = reconciliation::synchronized(pass, snapshot);
    lemma_started(known, snapshot, targeting::in_scope(snapshot, pass.invocation));
    if !(pass.invocation is ClosedPane) && !(pass.invocation matches Invocation::Toggle {
        tab_id: Some(_),
        ..
    }) {
        let step = reconciliation::observed(pass, Ok(snapshot));
        let targets = targeting_laws::targets(snapshot, pass.invocation);
        let round = choose|round: RoundView|
            goes_through(round, known, known.state, snapshot, targets, 0) && step
                == #[trigger] reconciliation::advanced(round);
        assert(goes_through(round, pass, caught_up(pass.state, snapshot), snapshot, targets, 0));
    }
}

/// Toggling a tab is stored before the tabs it is about are gone through.
pub proof fn toggles_are_stored_before_they_are_shown(
    pass: PassView,
    snapshot: SessionSnapshot,
    tab_id: String,
)
    requires
        pass.invocation matches Invocation::Toggle { tab_id: Some(named), .. } && named == tab_id,
    ensures
        ({
            let toggled = reconciliation::toggled(
                caught_up(pass.state, snapshot),
                snapshot,
                tab_id@,
            );
            reconciliation::observed(pass, Ok(snapshot)) matches StepView::Persist(
                PendingView::Targets { pass: next, snapshot: read },
            ) && {
                &&& read == snapshot
                &&& continues(next, pass, toggled)
                &&& on_the_way(
                    reconciliation::stored(
                        PendingView::Targets { pass: next, snapshot: read },
                        Ok(()),
                    ),
                    pass,
                    toggled,
                    snapshot,
                    targeting_laws::targets(snapshot, pass.invocation),
                    0,
                )
            }
        }),
{
    if let StepView::Persist(PendingView::Targets { pass: next, snapshot: read }) =
        reconciliation::observed(pass, Ok(snapshot)) {
        lemma_started(next, snapshot, targeting::in_scope(snapshot, next.invocation));
        let step = reconciliation::stored(
            PendingView::Targets { pass: next, snapshot: read },
            Ok(()),
        );
        let targets = targeting_laws::targets(snapshot, pass.invocation);
        let round = choose|round: RoundView|
            goes_through(round, next, next.state, snapshot, targets, 0) && step
                == #[trigger] reconciliation::advanced(round);
        assert(goes_through(round, pass, next.state, snapshot, targets, 0));
    }
}

/// The closing of a pane is about the tab that was recorded for it, and the record of the pane is
/// used up; if the record does not stand, only what is known of panes is stored.
pub proof fn closed_panes_use_up_their_record(
    pass: PassView,
    snapshot: SessionSnapshot,
    workspace_id: String,
    pane_id: String,
)
    requires
        pass.invocation == (Invocation::ClosedPane { workspace_id, pane_id }),
    ensures
        ({
            let resolution = targeting::closed_pane(
                pass.state,
                snapshot,
                workspace_id@,
                pane_id@,
            );
            let known = pass.state.refresh(snapshot.panes@, snapshot.tabs@);
            let used_up = StateView { pane_tabs: known.pane_tabs.remove(pane_id@), ..known };
            let step = reconciliation::observed(pass, Ok(snapshot));
            if resolution.valid {
                on_the_way(
                    step,
                    pass,
                    reconciliation::recovered(used_up, snapshot.tabs@),
                    snapshot,
                    sequences::positions_where(
                        snapshot.tabs@,
                        targeting::in_closed_scope(pass.invocation, resolution.mapped_tab_id),
                    ),
                    0,
                )
            } else {
                step matches StepView::Persist(PendingView::Finish(end)) && continues(
                    end,
                    pass,
                    known,
                )
            }
        }),
{
    let resolution = targeting::closed_pane(pass.state, snapshot, workspace_id@, pane_id@);
    let known = pass.state.refresh(snapshot.panes@, snapshot.tabs@);
    let used_up = StateView { pane_tabs: known.pane_tabs.remove(pane_id@), ..known };
    let state = reconciliation::recovered(used_up, snapshot.tabs@);
    let wanted = targeting::in_closed_scope(pass.invocation, resolution.mapped_tab_id);
    if resolution.valid {
        let next = PassView {
            state,
            record: telemetry::recording_pane_mapping(
                pass.record,
                reconciliation::mapping_of(pane_id@, resolution),
            ),
            ..pass
        };
        lemma_started(next, snapshot, wanted);
        let targets = sequences::positions_where(snapshot.tabs@, wanted);
        let step = reconciliation::observed(pass, Ok(snapshot));
        let round = choose|round: RoundView|
            goes_through(round, next, next.state, snapshot, targets, 0) && step
                == #[trigger] reconciliation::advanced(round);
        assert(goes_through(round, pass, state, snapshot, targets, 0));
    }
}

/// The target that a round has come to is seen with its position and with what the pass works with.
pub proof fn targets_are_seen_in_their_place(round: RoundView)
    requires
        round.next < round.targets.len(),
    ensures
        ({
            let tab = round.snapshot.tabs@[round.targets[round.next as int]];
            &&& round.context().tab == tab
            &&& round.context().position == targeting::positions_by_id(
                round.snapshot.tabs@,
            )[tab.tab.tab_id@]
            &&& round.context().snapshot == round.snapshot
            &&& round.context().invocation == round.pass.invocation
            &&& round.context().settings == round.pass.settings
            &&& round.context().policy == round.pass.policy
            &&& round.context().fallback_shell == round.pass.fallback_shell
        }),
{
}

/// After the last target the state is stored and the pass is over; only a full pass forgets the
/// tabs that the session does not show any more.
pub proof fn passes_end_after_their_last_target(round: RoundView)
    requires
        round.next >= round.targets.len(),
    ensures
        reconciliation::advanced(round) matches StepView::Persist(PendingView::Finish(end))
            && continues(
            end,
            round.pass,
            if round.pass.invocation is Full {
                round.pass.state.prune(state::tab_ids(round.snapshot.tabs@))
            } else {
                round.pass.state
            },
        ),
{
    reveal(reconciliation::advanced);
}

/// Whether a step prepares the rename of a round's target: a rename of the plugin's own is stored
/// first, any other leads straight to reading the tab.
pub open spec fn prepares(
    step: StepView,
    round: RoundView,
    state: StateView,
    plan: PlanView,
) -> bool {
    match step {
        StepView::Persist(PendingView::Guard { work, plan: planned }) => plan.plugin_owned
            && planned == plan && goes_through(
            work.round,
            round.pass,
            state,
            round.snapshot,
            round.targets,
            round.next,
        ),
        StepView::ReadTab { work, plan: planned } => !plan.plugin_owned && planned == plan
            && goes_through(
            work.round,
            round.pass,
            state,
            round.snapshot,
            round.targets,
            round.next,
        ),
        _ => false,
    }
}

/// Each target is opened in turn: it is settled and the next one follows, its processes are looked
/// at, or its rename is prepared.
pub proof fn targets_are_opened_in_turn(round: RoundView)
    requires
        round.next < round.targets.len(),
    ensures
        ({
            let context = round.context();
            let ownership = round.pass.state.ownership(context.tab.tab.tab_id@);
            let state = context.opening_state(round.pass.state);
            let step = reconciliation::advanced(round);
            match context.opening(ownership) {
                TabStepView::Settled => on_the_way(
                    step,
                    round.pass,
                    state,
                    round.snapshot,
                    round.targets,
                    round.next + 1,
                ),
                TabStepView::Observe { pane_id, ownership: held } => step matches
                    StepView::Process { work, pane_id: pane, ownership: kept } && pane == pane_id
                    && kept == held && goes_through(
                    work.round,
                    round.pass,
                    state,
                    round.snapshot,
                    round.targets,
                    round.next,
                ),
                TabStepView::Guard(plan) => prepares(step, round, state, plan),
            }
        }),
{
    reveal(reconciliation::advanced);
    let context = round.context();
    let before = round.pass.state;
    let after = round.with_state(context.opening_state(before));
    let decision = context.traced_opening(before, round.undecided());
    if context.opening(before.ownership(context.tab_id())) is Settled {
        let next = after.with_decision(decision).done();
        assert(goes_through(
            next,
            round.pass,
            context.opening_state(before),
            round.snapshot,
            round.targets,
            round.next + 1,
        ));
        assert(reconciliation::advanced(round) == reconciliation::advanced(next));
    }
}

/// Once the processes of a target are known its rename is prepared, or the next target follows.
pub proof fn named_targets_are_renamed_in_turn(
    work: WorkView,
    ownership: Option<OwnershipView>,
    processes: Result<PaneProcessInfo, String>,
)
    ensures
        ({
            let round = work.round;
            let name = round.context().computed(processes);
            let state = round.context().planned_state(round.pass.state, ownership, name);
            let step = reconciliation::processed(work, ownership, processes);
            match round.context().planned(ownership, name) {
                TabStepView::Guard(plan) => prepares(step, round, state, plan),
                _ => on_the_way(
                    step,
                    round.pass,
                    state,
                    round.snapshot,
                    round.targets,
                    round.next + 1,
                ),
            }
        }),
{
    let round = work.round;
    let context = round.context();
    let name = context.computed(processes);
    let state = context.planned_state(round.pass.state, ownership, name);
    let next = round.with_state(state).with_decision(
        context.traced_naming(round.pass.state, ownership, processes, work.decision),
    ).done();
    assert(goes_through(next, round.pass, state, round.snapshot, round.targets, round.next + 1));
    let step = reconciliation::processed(work, ownership, processes);
    if !(context.planned(ownership, name) is Guard) {
        assert(step == reconciliation::advanced(next));
    }
}

/// Once a target was read it is renamed, left alone with the next one following, or the pass fails;
/// a label that came in between is stored first where a rename was on record.
pub proof fn read_targets_are_renamed_or_left_alone(
    work: WorkView,
    plan: PlanView,
    latest: Result<Option<Tab>, String>,
)
    ensures
        ({
            let round = work.round;
            let state = round.context().guarded_state(round.pass.state, plan, latest);
            let step = reconciliation::read(work, plan, latest);
            match round.context().guarded(latest) {
                GuardStepView::Rename => step matches StepView::Rename {
                    work: sending,
                    plan: sent,
                } && sent == plan && goes_through(
                    sending.round,
                    round.pass,
                    state,
                    round.snapshot,
                    round.targets,
                    round.next,
                ),
                GuardStepView::Settled => on_the_way(
                    step,
                    round.pass,
                    state,
                    round.snapshot,
                    round.targets,
                    round.next + 1,
                ),
                GuardStepView::Failed(error) => step matches StepView::Finished {
                    pass: end,
                    result,
                } && result == Err::<(), Seq<char>>(error) && continues(end, round.pass, state),
                GuardStepView::Stale => if plan.plugin_owned {
                    step matches StepView::Persist(PendingView::Stale(left)) && goes_through(
                        left.round,
                        round.pass,
                        state,
                        round.snapshot,
                        round.targets,
                        round.next,
                    )
                } else {
                    on_the_way(
                        step,
                        round.pass,
                        state,
                        round.snapshot,
                        round.targets,
                        round.next + 1,
                    )
                },
            }
        }),
{
    let round = work.round;
    let context = round.context();
    let state = context.guarded_state(round.pass.state, plan, latest);
    let after = round.with_state(state);
    let decision = context.traced_guard(round.pass.state, latest, work.decision);
    let step = reconciliation::read(work, plan, latest);
    let settled = after.with_decision(decision).done();
    assert(goes_through(
        settled,
        round.pass,
        state,
        round.snapshot,
        round.targets,
        round.next + 1,
    ));
    stale_targets_are_left_behind(WorkView { round: after, decision });
    if context.guarded(latest) is Settled {
        assert(step == reconciliation::advanced(settled));
    }
    if context.guarded(latest) is Stale && !plan.plugin_owned {
        let left = choose|next: RoundView|
            goes_through(
                next,
                after.pass,
                state,
                round.snapshot,
                round.targets,
                round.next + 1,
            ) && step == #[trigger] reconciliation::advanced(next);
        assert(goes_through(left, round.pass, state, round.snapshot, round.targets, round.next + 1));
    }
}

/// Behind a target that shows another label than it was decided on, the next one follows.
pub proof fn stale_targets_are_left_behind(work: WorkView)
    ensures
        on_the_way(
            reconciliation::stale(work),
            work.round.pass,
            work.round.pass.state,
            work.round.snapshot,
            work.round.targets,
            work.round.next + 1,
        ),
        reconciliation::stored(PendingView::Stale(work), Ok(())) == reconciliation::stale(work),
{
    let round = work.round;
    let next = round.with_decision(
        round.context().traced_stale(round.pass.state, work.decision),
    ).done();
    assert(goes_through(
        next,
        round.pass,
        round.pass.state,
        round.snapshot,
        round.targets,
        round.next + 1,
    ));
    assert(reconciliation::stale(work) == reconciliation::advanced(next));
}

/// Behind a target that was renamed, the next one follows; a rename that fails ends the pass.
pub proof fn renamed_targets_are_followed_by_the_next(
    work: WorkView,
    plan: PlanView,
    result: Result<(), String>,
)
    ensures
        ({
            let round = work.round;
            let state = round.context().renamed_state(round.pass.state, plan, result);
            let step = reconciliation::renamed(work, plan, result);
            match result {
                Ok(_) => on_the_way(
                    step,
                    round.pass,
                    state,
                    round.snapshot,
                    round.targets,
                    round.next + 1,
                ),
                Err(error) => step matches StepView::Finished { pass: end, result: failed }
                    && failed == Err::<(), Seq<char>>(error@) && continues(end, round.pass, state),
            }
        }),
{
    let round = work.round;
    let context = round.context();
    let state = context.renamed_state(round.pass.state, plan, result);
    let next = round.with_state(state).with_decision(
        context.traced_rename(round.pass.state, plan, result, work.decision),
    ).done();
    assert(goes_through(next, round.pass, state, round.snapshot, round.targets, round.next + 1));
    if result is Ok {
        assert(reconciliation::renamed(work, plan, result) == reconciliation::advanced(next));
    }
}

/// Clearing comes to the next tab that shows a number, and to nothing else; behind the last one
/// every ownership is forgotten, while panes stay known.
pub proof fn clearing_comes_to_every_numbered_tab(clear: ClearView)
    ensures
        match reconciliation::clear_advanced(clear) {
            StepView::ClearReadTab(stop) => {
                &&& clear.next <= stop.next < clear.snapshot.tabs@.len()
                &&& stop == (ClearView { next: stop.next, ..clear })
                &&& numbering::base_label(clear.snapshot.tabs@[stop.next as int].tab.label@)
                    != clear.snapshot.tabs@[stop.next as int].tab.label@
                &&& forall|i: int|
                    clear.next <= i < stop.next ==> numbering::base_label(
                        (#[trigger] clear.snapshot.tabs@[i]).tab.label@,
                    ) == clear.snapshot.tabs@[i].tab.label@
            },
            StepView::Persist(PendingView::Finish(end)) => {
                &&& continues(
                    end,
                    clear.pass,
                    StateView { tabs: Map::empty(), ..clear.pass.state },
                )
                &&& forall|i: int|
                    clear.next <= i < clear.snapshot.tabs@.len() ==> numbering::base_label(
                        (#[trigger] clear.snapshot.tabs@[i]).tab.label@,
                    ) == clear.snapshot.tabs@[i].tab.label@
            },
            _ => false,
        },
    decreases clear.snapshot.tabs@.len() - clear.next,
{
    reveal(reconciliation::clear_advanced);
    if clear.next >= clear.snapshot.tabs@.len() {
        assert(clear.pass.state.prune(Set::empty()).tabs =~= Map::<
            Seq<char>,
            OwnershipView,
        >::empty());
    } else if clear.desired() == clear.tab().label@ {
        clearing_comes_to_every_numbered_tab(clear.done());
        assert(clear.snapshot.tabs@[clear.next as int].tab == clear.tab());
        assert forall|i: int|
            clear.next <= i < clear.snapshot.tabs@.len() && i < clear.next + 1 implies
            numbering::base_label((#[trigger] clear.snapshot.tabs@[i]).tab.label@)
            == clear.snapshot.tabs@[i].tab.label@ by {}
    }
}

/// A tab that clearing came to is renamed to its label without number if it still shows the label
/// it was found with; it is passed over otherwise, and a failure ends the pass.
pub proof fn clearing_renames_to_the_bare_label(
    pass: PassView,
    snapshot: SessionSnapshot,
    clear: ClearView,
    latest: Result<Option<Tab>, String>,
    result: Result<(), String>,
    error: String,
)
    requires
        clear.next < clear.snapshot.tabs@.len(),
    ensures
        clear.tab() == clear.snapshot.tabs@[clear.next as int].tab,
        clear.desired() == numbering::base_label(
            clear.snapshot.tabs@[clear.next as int].tab.label@,
        ),
        reconciliation::clear_observed(pass, Ok(snapshot)) == reconciliation::clear_advanced(
            ClearView { pass, snapshot, next: 0 },
        ),
        reconciliation::clear_observed(pass, Err(error)) == (StepView::Finished {
            pass,
            result: Err(error@),
        }),
        reconciliation::clear_read(clear, latest) == match latest {
            Ok(Some(tab)) if tab.label@ == clear.snapshot.tabs@[clear.next as int].tab.label@ =>
                StepView::ClearRename(clear),
            Ok(_) => reconciliation::clear_advanced(ClearView { next: clear.next + 1, ..clear }),
            Err(error) => StepView::Finished { pass: clear.pass, result: Err(error@) },
        },
        reconciliation::clear_renamed(clear, result) == match result {
            Ok(_) => reconciliation::clear_advanced(ClearView { next: clear.next + 1, ..clear }),
            Err(error) => StepView::Finished { pass: clear.pass, result: Err(error@) },
        },
{
}

/// An undisturbed event without a look at processes leaves a tab of the plugin's with its name
/// behind its current position, and a tab of the user's with its label behind it.
pub proof fn structural_events_renumber_tabs(
    context: ContextView,
    ownership: Option<OwnershipView>,
    answers: Answers,
)
    requires
        !tab_laws::looks_at_processes(context.invocation),
        tab_laws::still_shows(context, ownership),
    ensures
        ownership matches Some(OwnershipView::Owned { last_base, .. }) ==> {
            &&& idempotence::label_after(context, ownership, answers) == tab_laws::shown_as(
                context,
                last_base,
            )
            &&& idempotence::ownership_after(context, ownership, answers) == Some(
                OwnershipView::Owned {
                    last_base,
                    last_rendered: tab_laws::shown_as(context, last_base),
                },
            )
        },
        tab_laws::kept_by_user(context, ownership) ==> idempotence::label_after(
            context,
            ownership,
            answers,
        ) == tab_laws::shown_as(context, tab_laws::bare_label(context)),
{
}

/// The naming policy of a pass is that of the user's settings.
pub proof fn policies_follow_the_settings(settings: SettingsView)
    ensures
        ({
            let policy = settings::policy_of(settings);
            &&& policy.hide_idle_shell == settings.hide_idle_shell
            &&& policy.max_label_chars == settings.max_label_chars
            &&& policy.shells == settings.shells
            &&& policy.ignored_processes == settings.ignored_processes
            &&& policy.aliases == settings.process_aliases
        }),
{
}

/// The shell that a tab falls back to is the file name of the login shell, and `zsh` where that has
/// none.
pub proof fn fallback_shells_are_file_names(directory: Seq<char>, name: Seq<char>)
    requires
        directory.len() > 0 ==> directory.last() == '/',
        forall|i: int| 0 <= i < name.len() ==> #[trigger] name[i] != '/',
    ensures
        reconciliation::login_shell(Some(directory + name)) == if name.len() > 0 {
            name
        } else {
            "zsh"@
        },
        reconciliation::login_shell(None) == "zsh"@,
{
    text::lemma_last_segment(directory, name);
    assert((directory + name).skip(directory.len() as int) =~= name);
}

/// A suspended session, and a pane whose record does not stand, are the outcome on record; how the
/// pane was resolved and what was seen of the session is on record as well.
pub proof fn passes_that_end_early_are_recorded(pass: PassView, snapshot: SessionSnapshot)
    ensures
        pass.state.suspended && !(pass.invocation is Clear) && !(pass.invocation is Reset) && !(
        pass.invocation is Toggle) ==> (reconciliation::begun(pass) matches StepView::Finished {
            pass: end,
            ..
        } && end.record == telemetry::recording_terminal_outcome(pass.record, "suspended"@)),
        pass.invocation matches Invocation::ClosedPane { workspace_id, pane_id } ==> {
            let resolution = targeting::closed_pane(
                pass.state,
                snapshot,
                workspace_id@,
                pane_id@,
            );
            let mapping = PaneMappingView {
                pane_id: pane_id@,
                mapped_tab_id: resolution.mapped_tab_id,
                resolution: resolution.resolution,
                validation: resolution.validation,
                consumed: resolution.valid,
            };
            let seen = telemetry::recording_snapshot(
                telemetry::recording_pane_mapping(pass.record, mapping),
                snapshot,
                Seq::empty(),
            );
            !resolution.valid ==> (reconciliation::observed(pass, Ok(snapshot)) matches
                StepView::Persist(PendingView::Finish(end)) && end.record
                == telemetry::recording_terminal_outcome(seen, resolution.outcome))
        },
{
}

/// Whether a step is one on the way from a target on, with a record.
pub open spec fn with_record(step: StepView, record: Option<DecisionView>, next: nat) -> bool {
    exists|round: RoundView|
        round.pass.record == record && round.next == next && step
            == #[trigger] reconciliation::advanced(round)
}

/// What was decided on a target is on record once the next one follows.
pub proof fn decisions_go_on_record(
    work: WorkView,
    ownership: Option<OwnershipView>,
    processes: Result<PaneProcessInfo, String>,
    plan: PlanView,
)
    ensures
        ({
            let round = work.round;
            let context = round.context();
            let state = round.pass.state;
            let noted = |decision: Option<TabDecisionView>|
                telemetry::recording_tab_decision(round.pass.record, decision);
            &&& with_record(
                reconciliation::stale(work),
                noted(context.traced_stale(state, work.decision)),
                round.next + 1,
            )
            &&& with_record(
                reconciliation::renamed(work, plan, Ok(())),
                noted(context.traced_rename(state, plan, Ok(()), work.decision)),
                round.next + 1,
            )
            &&& !(context.planned(ownership, context.computed(processes)) is Guard) ==> with_record(
                reconciliation::processed(work, ownership, processes),
                noted(context.traced_naming(state, ownership, processes, work.decision)),
                round.next + 1,
            )
            &&& round.next < round.targets.len() && context.opening(
                state.ownership(context.tab.tab.tab_id@),
            ) is Settled ==> with_record(
                reconciliation::advanced(round),
                noted(context.traced_opening(state, round.undecided())),
                round.next + 1,
            )
        }),
{
    let round = work.round;
    let context = round.context();
    let before = round.pass.state;
    let state = context.planned_state(before, ownership, context.computed(processes));
    let stale = round.with_decision(context.traced_stale(before, work.decision)).done();
    let renamed = round.with_state(context.renamed_state(before, plan, Ok(()))).with_decision(
        context.traced_rename(before, plan, Ok(()), work.decision),
    ).done();
    let named = round.with_state(state).with_decision(
        context.traced_naming(before, ownership, processes, work.decision),
    ).done();
    let opened = round.with_state(context.opening_state(before)).with_decision(
        context.traced_opening(before, round.undecided()),
    ).done();
    assert(reconciliation::stale(work) == reconciliation::advanced(stale));
    assert(reconciliation::renamed(work, plan, Ok(())) == reconciliation::advanced(renamed));
    if !(context.planned(ownership, context.computed(processes)) is Guard) {
        assert(reconciliation::processed(work, ownership, processes) == reconciliation::advanced(
            named,
        ));
    }
    if round.next < round.targets.len() && context.opening(
        before.ownership(context.tab.tab.tab_id@),
    ) is Settled {
        reveal(reconciliation::advanced);
        assert(reconciliation::advanced(round) == reconciliation::advanced(opened));
    }
}

/// If the state of a target cannot be stored before its rename, what was decided so far is on
/// record.
pub proof fn unstored_decisions_go_on_record(work: WorkView, plan: PlanView, error: String)
    ensures
        reconciliation::stored(PendingView::Guard { work, plan }, Err(error)) matches
            StepView::Finished { pass: end, .. } && continues(
            end,
            work.round.pass,
            work.round.pass.state,
        ) && end.record == telemetry::recording_tab_decision(work.round.pass.record, work.decision),
        reconciliation::stored(PendingView::Stale(work), Err(error)) matches StepView::Finished {
            pass: end,
            ..
        } && continues(end, work.round.pass, work.round.pass.state) && end.record
            == telemetry::recording_tab_decision(work.round.pass.record, work.decision),
{
}

} // verus!
