//! What running an event a second time comes to: nothing.

use vstd::prelude::*;

use crate::config::Invocation;
use crate::herdr::{PaneInfo, PaneProcessInfo, SessionSnapshot, SessionTab};
use crate::numbering;
use crate::pass_laws;
use crate::reconciliation;
use crate::reconciliation::{ClearView, PassView, PendingView, RoundView, StepView, WorkView};
use crate::sequences;
use crate::state;
use crate::state::{OwnershipView, StateView};
use crate::tab_reconciliation::{ContextView, PlanView, TabStepView};
use crate::table;
use crate::targeting;
use crate::telemetry;
use crate::text;

verus! {

/// What listing the processes of a pane gives, for each pane.
pub type Answers = spec_fn(Seq<char>) -> Result<PaneProcessInfo, String>;

/// The name that a tab gets, if its processes are looked at.
pub open spec fn found_name(
    context: ContextView,
    ownership: Option<OwnershipView>,
    answers: Answers,
) -> Option<Seq<char>> {
    if context.wants_name(ownership) && context.source().pane() is Some {
        context.computed(answers(context.source().pane()->0))
    } else {
        None
    }
}

/// Whether a tab is left with the label it has before a label is decided on.
pub open spec fn undecided(
    context: ContextView,
    ownership: Option<OwnershipView>,
    answers: Answers,
) -> bool {
    context.ends_early(ownership) || context.adoption_failed(
        ownership,
        found_name(context, ownership, answers),
    )
}

/// The ownership of a tab after it was reconciled without a disturbance.
pub open spec fn ownership_after(
    context: ContextView,
    ownership: Option<OwnershipView>,
    answers: Answers,
) -> Option<OwnershipView> {
    let plan = context.plan(ownership, found_name(context, ownership, answers));
    if undecided(context, ownership, answers) || !plan.plugin_owned {
        context.claimed(ownership)
    } else {
        Some(plan.owned())
    }
}

/// The label of a tab after it was reconciled without a disturbance.
pub open spec fn label_after(
    context: ContextView,
    ownership: Option<OwnershipView>,
    answers: Answers,
) -> Seq<char> {
    if undecided(context, ownership, answers) {
        context.label()
    } else {
        context.plan(ownership, found_name(context, ownership, answers)).desired
    }
}

/// The rename that a tab calls for, unless it has the label it is to have.
pub open spec fn target_change(
    context: ContextView,
    ownership: Option<OwnershipView>,
    answers: Answers,
) -> Seq<(Seq<char>, Seq<char>)> {
    let label = label_after(context, ownership, answers);
    if label == context.label() {
        Seq::empty()
    } else {
        seq![(context.tab_id(), label)]
    }
}

/// Whether a tab is the same but for its label.
pub open spec fn same_tab(first: SessionTab, second: SessionTab) -> bool {
    &&& second.tab.tab_id@ == first.tab.tab_id@
    &&& second.tab.workspace_id@ == first.tab.workspace_id@
    &&& second.focused == first.focused
    &&& second.pane_count == first.pane_count
}

/// Whether a session is the same but for the labels of its tabs.
pub open spec fn same_session(first: SessionSnapshot, second: SessionSnapshot) -> bool {
    &&& second.panes == first.panes
    &&& second.focused_pane_id == first.focused_pane_id
    &&& second.tabs@.len() == first.tabs@.len()
    &&& forall|i: int|
        0 <= i < first.tabs@.len() ==> same_tab(first.tabs@[i], #[trigger] second.tabs@[i])
}

/// Whether a tab is reconciled for the same event in the same session, its label aside.
pub open spec fn same_occasion(first: ContextView, second: ContextView) -> bool {
    &&& same_session(first.snapshot, second.snapshot)
    &&& same_tab(first.tab, second.tab)
    &&& second.position == first.position
    &&& second.invocation == first.invocation
    &&& second.settings == first.settings
    &&& second.policy == first.policy
    &&& second.fallback_shell == first.fallback_shell
}

/// Whether a name is recognized again in the label that shows it.
///
/// It does not start with white space, and does not look numbered.
pub open spec fn recognizable(name: Seq<char>) -> bool {
    numbering::base_label(name) == name && text::trim_start(name) == name
}

/// Whether one look at a tab settles it.
///
/// The user has not renamed it behind the plugin's back, no rename of it is pending, and the name
/// that it is to show is recognizable.
pub open spec fn settles_at_once(
    context: ContextView,
    ownership: Option<OwnershipView>,
    answers: Answers,
) -> bool {
    &&& !context.manually_renamed(ownership)
    &&& !(ownership matches Some(pending) && pending is PendingRename)
    &&& undecided(context, ownership, answers) || recognizable(
        context.desired_base(ownership, found_name(context, ownership, answers)),
    )
}

proof fn lemma_same_source(first: ContextView, second: ContextView)
    requires
        same_occasion(first, second),
    ensures
        second.source() == first.source(),
{
    assert(targeting::names_tab(first.snapshot, first.tab) =~= targeting::names_tab(
        second.snapshot,
        second.tab,
    ));
}

proof fn lemma_rendered_base(context: ContextView, name: Seq<char>)
    requires
        recognizable(name),
    ensures
        numbering::base_label(context.rendered(name)) == name,
{
    numbering::rendering_preserves_the_base(context.position as nat, name);
}

proof fn lemma_blank(name: Seq<char>)
    requires
        text::trim_start(name) == name,
        text::blank(name),
    ensures
        name.len() == 0,
{
    if name.len() > 0 {
        assert(text::whitespace(name[0]));
        text::lemma_trim_start_len(name.drop_first());
    }
}

/// A tab that was reconciled stays as it is when it is reconciled for the same event again.
pub proof fn reconciled_tabs_stay_reconciled(
    context: ContextView,
    later: ContextView,
    ownership: Option<OwnershipView>,
    answers: Answers,
)
    requires
        same_occasion(context, later),
        later.label() == label_after(context, ownership, answers),
        settles_at_once(context, ownership, answers),
    ensures
        ({
            let owned = ownership_after(context, ownership, answers);
            &&& ownership_after(later, owned, answers) == owned
            &&& label_after(later, owned, answers) == later.label()
        }),
{
    lemma_same_source(context, later);
    let name = found_name(context, ownership, answers);
    let plan = context.plan(ownership, name);
    if !undecided(context, ownership, answers) {
        lemma_rendered_base(context, plan.desired_base);
        if text::blank(plan.desired_base) {
            lemma_blank(plan.desired_base);
        }
    }
}

/// The step that follows when nothing interferes: the state is stored, panes answer, tabs still
/// have the labels that they were observed with, and renames succeed.
pub open spec fn undisturbed(step: StepView, answers: Answers) -> StepView {
    match step {
        StepView::Persist(pending) => reconciliation::stored(pending, Ok(())),
        StepView::Process { work, pane_id, ownership } => reconciliation::processed(
            work,
            ownership,
            answers(pane_id),
        ),
        StepView::ReadTab { work, plan } => reconciliation::read(
            work,
            plan,
            Ok(Some(work.round.context().tab.tab)),
        ),
        StepView::Rename { work, plan } => reconciliation::renamed(work, plan, Ok(())),
        _ => step,
    }
}

/// The step after a number of undisturbed ones.
pub open spec fn step_after(step: StepView, answers: Answers, count: nat) -> StepView
    decreases count,
{
    if count == 0 {
        step
    } else {
        step_after(undisturbed(step, answers), answers, (count - 1) as nat)
    }
}

/// The rename that a step asks for, if it does: the id of the tab and its new label.
pub open spec fn rename_sent(step: StepView) -> Seq<(Seq<char>, Seq<char>)> {
    match step {
        StepView::Rename { work, plan } => seq![(work.round.context().tab_id(), plan.desired)],
        StepView::ClearRename(clear) => seq![(clear.tab().tab_id@, clear.desired())],
        _ => Seq::empty(),
    }
}

/// The renames that are sent during a number of undisturbed steps, in their order.
pub open spec fn renames_sent(step: StepView, answers: Answers, count: nat) -> Seq<
    (Seq<char>, Seq<char>),
>
    decreases count,
{
    if count == 0 {
        Seq::empty()
    } else {
        rename_sent(step) + renames_sent(undisturbed(step, answers), answers, (count - 1) as nat)
    }
}

/// Whether nothing but the processes of panes is asked for during a number of steps.
pub open spec fn only_observes(step: StepView, answers: Answers, count: nat) -> bool {
    forall|i: nat| i < count ==> (#[trigger] step_after(step, answers, i)) is Process
}

proof fn lemma_steps_add(step: StepView, answers: Answers, first: nat, second: nat)
    ensures
        step_after(step, answers, first + second) == step_after(
            step_after(step, answers, first),
            answers,
            second,
        ),
    decreases first,
{
    if first > 0 {
        lemma_steps_add(undisturbed(step, answers), answers, (first - 1) as nat, second);
    }
}

proof fn lemma_renames_add(step: StepView, answers: Answers, first: nat, second: nat)
    ensures
        renames_sent(step, answers, first + second) == renames_sent(step, answers, first)
            + renames_sent(step_after(step, answers, first), answers, second),
    decreases first,
{
    if first > 0 {
        lemma_renames_add(undisturbed(step, answers), answers, (first - 1) as nat, second);
    }
    assert(renames_sent(step, answers, first + second) =~= renames_sent(step, answers, first)
        + renames_sent(step_after(step, answers, first), answers, second));
}

/// The round after its current target was reconciled without a disturbance.
pub open spec fn target_done(round: RoundView, answers: Answers) -> RoundView {
    let context = round.context();
    let before = round.pass.state;
    round.with_state(
        before.with_ownership(
            context.tab_id(),
            ownership_after(context, before.ownership(context.tab_id()), answers),
        ),
    ).done()
}

/// Whether two rounds are the same but for what is recorded.
pub open spec fn same_round(first: RoundView, second: RoundView) -> bool {
    pass_laws::unrecorded_round(first) == pass_laws::unrecorded_round(second)
}

proof fn lemma_guarded(work: WorkView, plan: PlanView, answers: Answers) -> (reached: (
    nat,
    RoundView,
))
    requires
        plan.desired != work.round.context().label(),
    ensures
        reached.0 > 0,
        step_after(reconciliation::guarding(work, plan), answers, reached.0)
            == reconciliation::advanced(reached.1),
        same_round(
            reached.1,
            work.round.with_state(
                work.round.context().renamed_state(work.round.pass.state, plan, Ok(())),
            ).done(),
        ),
        step_after(reconciliation::guarding(work, plan), answers, (reached.0 - 1) as nat) matches
            StepView::Rename { work: sending, plan: sent } && sent == plan
            && sending.round.context() == work.round.context(),
        renames_sent(reconciliation::guarding(work, plan), answers, reached.0) == seq![
            (work.round.context().tab_id(), plan.desired),
        ],
{
    let context = work.round.context();
    let before = work.round.pass.state;
    let tab = context.tab.tab;
    let step = reconciliation::guarding(work, plan);
    let reading = StepView::ReadTab { work, plan };
    let guarded = work.round.with_state(context.guarded_state(before, plan, Ok(Some(tab))));
    let sending = WorkView {
        round: guarded,
        decision: context.traced_guard(before, Ok(Some(tab)), work.decision),
    };
    assert(guarded == work.round);
    assert(undisturbed(reading, answers) == StepView::Rename { work: sending, plan });
    let sent = sending.round.with_state(
        context.renamed_state(before, plan, Ok(())),
    ).with_decision(context.traced_rename(before, plan, Ok(()), sending.decision)).done();
    assert(undisturbed(StepView::Rename { work: sending, plan }, answers)
        == reconciliation::advanced(sent));
    reveal_with_fuel(step_after, 4);
    reveal_with_fuel(renames_sent, 4);
    let rename = seq![(context.tab_id(), plan.desired)];
    assert(renames_sent(reading, answers, 2) =~= rename);
    if plan.plugin_owned {
        assert(undisturbed(step, answers) == reading);
        assert(renames_sent(step, answers, 3) =~= rename);
        (3, sent)
    } else {
        (2, sent)
    }
}

proof fn lemma_target(round: RoundView, answers: Answers) -> (reached: (nat, RoundView))
    requires
        round.next < round.targets.len(),
    ensures
        step_after(reconciliation::advanced(round), answers, reached.0)
            == reconciliation::advanced(reached.1),
        same_round(reached.1, target_done(round, answers)),
        ({
            let context = round.context();
            let ownership = round.pass.state.ownership(context.tab_id());
            let label = label_after(context, ownership, answers);
            if label == context.label() {
                only_observes(reconciliation::advanced(round), answers, reached.0)
            } else {
                reached.0 > 0 && (step_after(
                    reconciliation::advanced(round),
                    answers,
                    (reached.0 - 1) as nat,
                ) matches StepView::Rename { work, plan } && plan.desired == label
                    && work.round.context() == context)
            }
        }),
        renames_sent(reconciliation::advanced(round), answers, reached.0) == target_change(
            round.context(),
            round.pass.state.ownership(round.context().tab_id()),
            answers,
        ),
{
    reveal(reconciliation::advanced);
    let context = round.context();
    let before = round.pass.state;
    let tab_id = context.tab_id();
    let ownership = before.ownership(tab_id);
    let name = found_name(context, ownership, answers);
    let plan = context.plan(ownership, name);
    let claimed = context.claimed(ownership);
    let opened = round.with_state(context.opening_state(before));
    let opening = context.traced_opening(before, round.undecided());
    let step = reconciliation::advanced(round);
    state::lemma_later_ownership(before, tab_id, claimed, Some(plan.owned()));
    state::lemma_later_ownership(
        before,
        tab_id,
        claimed,
        Some(state::recorded(ownership, context.label(), plan.desired, plan.desired_base)),
    );
    state::lemma_later_ownership(
        before,
        tab_id,
        Some(state::recorded(ownership, context.label(), plan.desired, plan.desired_base)),
        Some(plan.owned()),
    );
    match context.opening(ownership) {
        TabStepView::Settled => (0, opened.with_decision(opening).done()),
        TabStepView::Guard(_) => {
            lemma_guarded(WorkView { round: opened, decision: opening }, plan, answers)
        },
        TabStepView::Observe { pane_id, .. } => {
            let work = WorkView { round: opened, decision: opening };
            assert(work.round.context() == context);
            let named = opened.with_state(
                context.planned_state(opened.pass.state, ownership, name),
            );
            let naming = context.traced_naming(
                opened.pass.state,
                ownership,
                answers(pane_id),
                opening,
            );
            assert(undisturbed(step, answers) == reconciliation::processed(
                work,
                ownership,
                answers(pane_id),
            ));
            reveal_with_fuel(step_after, 2);
            reveal_with_fuel(renames_sent, 2);
            match context.planned(ownership, name) {
                TabStepView::Guard(_) => {
                    let (count, reached) = lemma_guarded(
                        WorkView { round: named, decision: naming },
                        plan,
                        answers,
                    );
                    assert(step_after(step, answers, count + 1) == step_after(
                        undisturbed(step, answers),
                        answers,
                        count,
                    ));
                    assert(renames_sent(step, answers, count + 1) =~= renames_sent(
                        undisturbed(step, answers),
                        answers,
                        count,
                    ));
                    (count + 1, reached)
                },
                _ => (1, named.with_decision(naming).done()),
            }
        },
    }
}

/// The state after the targets of a round were reconciled without a disturbance.
pub open spec fn round_done(round: RoundView, answers: Answers) -> StateView
    decreases round.targets.len() - round.next,
{
    if round.next >= round.targets.len() {
        round.pass.state
    } else {
        round_done(pass_laws::unrecorded_round(target_done(round, answers)), answers)
    }
}

/// The renames that the targets of a round call for, one after the other.
spec fn round_changes(round: RoundView, answers: Answers) -> Seq<(Seq<char>, Seq<char>)>
    decreases round.targets.len() - round.next,
{
    if round.next >= round.targets.len() {
        Seq::empty()
    } else {
        target_change(
            round.context(),
            round.pass.state.ownership(round.context().tab_id()),
            answers,
        ) + round_changes(pass_laws::unrecorded_round(target_done(round, answers)), answers)
    }
}

/// The state that is stored at the end of a round: a full pass forgets the tabs that are gone.
pub open spec fn closed_state(round: RoundView, state: StateView) -> StateView {
    if round.pass.invocation is Full {
        state.prune(state::tab_ids(round.snapshot.tabs@))
    } else {
        state
    }
}

/// What the reconciliation of a target of a round is based on.
pub open spec fn target_context(round: RoundView, target: int) -> ContextView {
    RoundView { next: target as nat, ..round }.context()
}

/// The id of a target of a round.
pub open spec fn target_id(round: RoundView, target: int) -> Seq<char> {
    round.snapshot.tabs@[round.targets[target]].tab.tab_id@
}

/// Whether a target that is still to come is left as it is.
pub open spec fn stays(round: RoundView, answers: Answers, target: int) -> bool {
    let context = target_context(round, target);
    let ownership = round.pass.state.ownership(target_id(round, target));
    &&& ownership_after(context, ownership, answers) == ownership
    &&& label_after(context, ownership, answers) == context.label()
}

/// Whether the targets of a round have ids of their own.
pub open spec fn distinct_targets(round: RoundView) -> bool {
    forall|i: int, j: int|
        0 <= i < j < round.targets.len() ==> #[trigger] target_id(round, i) != #[trigger] target_id(
            round,
            j,
        )
}

proof fn lemma_round(round: RoundView, answers: Answers) -> (count: nat)
    ensures
        step_after(reconciliation::advanced(round), answers, count) matches StepView::Persist(
            PendingView::Finish(done),
        ) && done.state == closed_state(round, round_done(round, answers)),
        renames_sent(reconciliation::advanced(round), answers, count) == round_changes(
            round,
            answers,
        ),
    decreases round.targets.len() - round.next,
{
    if round.next >= round.targets.len() {
        reveal(reconciliation::advanced);
        0
    } else {
        let (first, reached) = lemma_target(round, answers);
        let second = lemma_round(reached, answers);
        lemma_steps_add(reconciliation::advanced(round), answers, first, second);
        lemma_renames_add(reconciliation::advanced(round), answers, first, second);
        lemma_same_round_done(
            reached,
            pass_laws::unrecorded_round(target_done(round, answers)),
            answers,
        );
        first + second
    }
}

proof fn lemma_same_round_done(first: RoundView, second: RoundView, answers: Answers)
    requires
        same_round(first, second),
    ensures
        round_done(first, answers) == round_done(second, answers),
        round_changes(first, answers) == round_changes(second, answers),
{
    if first.next < first.targets.len() {
        assert(first.context() == second.context());
        assert(same_round(target_done(first, answers), target_done(second, answers)));
    }
}

proof fn lemma_quiet_round(round: RoundView, answers: Answers) -> (count: nat)
    requires
        forall|target: int|
            round.next <= target < round.targets.len() ==> #[trigger] stays(round, answers, target),
    ensures
        only_observes(reconciliation::advanced(round), answers, count),
        step_after(reconciliation::advanced(round), answers, count) matches StepView::Persist(
            PendingView::Finish(done),
        ) && done.state == closed_state(round, round.pass.state),
    decreases round.targets.len() - round.next,
{
    let step = reconciliation::advanced(round);
    if round.next >= round.targets.len() {
        reveal(reconciliation::advanced);
        0
    } else {
        let (first, reached) = lemma_target(round, answers);
        assert(stays(round, answers, round.next as int));
        assert(RoundView { next: round.next, ..round } == round);
        state::lemma_same_ownership(round.pass.state, round.context().tab_id());
        assert(same_round(reached, round.done()));
        assert forall|target: int|
            reached.next <= target < reached.targets.len() implies #[trigger] stays(
            reached,
            answers,
            target,
        ) by {
            assert(stays(round, answers, target));
            assert(target_context(reached, target) == target_context(round, target));
        }
        let second = lemma_quiet_round(reached, answers);
        lemma_steps_add(step, answers, first, second);
        assert forall|i: nat| i < first + second implies (#[trigger] step_after(step, answers, i))
            is Process by {
            if i >= first {
                lemma_steps_add(step, answers, first, (i - first) as nat);
                assert(step_after(reconciliation::advanced(reached), answers, (i - first) as nat)
                    is Process);
            }
        }
        first + second
    }
}

proof fn lemma_round_ownership(round: RoundView, answers: Answers, target: int)
    requires
        distinct_targets(round),
        round.next <= target < round.targets.len(),
    ensures
        round_done(round, answers).ownership(target_id(round, target)) == ownership_after(
            target_context(round, target),
            round.pass.state.ownership(target_id(round, target)),
            answers,
        ),
    decreases round.targets.len() - round.next,
{
    let next = pass_laws::unrecorded_round(target_done(round, answers));
    let tab_id = target_id(round, target);
    assert forall|i: int, j: int| 0 <= i < j < next.targets.len() implies #[trigger] target_id(
        next,
        i,
    ) != #[trigger] target_id(next, j) by {
        assert(target_id(round, i) != target_id(round, j));
    }
    if target == round.next {
        assert(RoundView { next: round.next, ..round } == round);
        assert forall|i: int| next.next <= i < next.targets.len() implies #[trigger] target_id(
            next,
            i,
        ) != tab_id by {
            assert(target_id(round, target) != target_id(round, i));
        }
        lemma_round_rest(next, answers, tab_id);
    } else {
        assert(target_id(round, round.next as int) != tab_id);
        assert(target_context(next, target) == target_context(round, target));
        lemma_round_ownership(next, answers, target);
        assert(target_id(next, target) == tab_id);
    }
}

proof fn lemma_round_rest(round: RoundView, answers: Answers, tab_id: Seq<char>)
    requires
        forall|i: int|
            round.next <= i < round.targets.len() ==> #[trigger] target_id(round, i) != tab_id,
    ensures
        round_done(round, answers).ownership(tab_id) == round.pass.state.ownership(tab_id),
    decreases round.targets.len() - round.next,
{
    if round.next < round.targets.len() {
        let next = pass_laws::unrecorded_round(target_done(round, answers));
        assert(target_id(round, round.next as int) != tab_id);
        assert forall|i: int| next.next <= i < next.targets.len() implies #[trigger] target_id(
            next,
            i,
        ) != tab_id by {
            assert(target_id(round, i) != tab_id);
        }
        lemma_round_rest(next, answers, tab_id);
    }
}

proof fn lemma_round_panes(round: RoundView, answers: Answers)
    ensures
        round_done(round, answers).pane_tabs == round.pass.state.pane_tabs,
        round_done(round, answers).suspended == round.pass.state.suspended,
    decreases round.targets.len() - round.next,
{
    if round.next < round.targets.len() {
        lemma_round_panes(pass_laws::unrecorded_round(target_done(round, answers)), answers);
    }
}

/// Whether an invocation is an event, in contrast to an action of the user.
///
/// The closing of a pane is told apart: it is consumed, whatever comes of it.
pub open spec fn event(invocation: Invocation) -> bool {
    !(invocation is Clear || invocation is Reset || invocation is Toggle || invocation
        is ClosedPane)
}

/// The round that an event gives rise to, its record aside.
pub open spec fn event_round(pass: PassView, snapshot: SessionSnapshot) -> RoundView {
    RoundView {
        pass: reconciliation::synchronized(pass, snapshot),
        snapshot,
        targets: sequences::positions_where(
            snapshot.tabs@,
            targeting::in_scope(snapshot, pass.invocation),
        ),
        next: 0,
    }
}

/// The state that an undisturbed event leaves behind.
pub open spec fn state_left(pass: PassView, snapshot: SessionSnapshot, answers: Answers) -> StateView {
    let round = event_round(pass, snapshot);
    closed_state(round, round_done(round, answers))
}

/// Whether the tabs of a session have ids of their own.
pub open spec fn distinct_tabs(snapshot: SessionSnapshot) -> bool {
    forall|i: int, j: int|
        0 <= i < j < snapshot.tabs@.len() ==> (#[trigger] snapshot.tabs@[i]).tab.tab_id@ != (
        #[trigger] snapshot.tabs@[j]).tab.tab_id@
}

/// Whether a session shows the labels that an undisturbed event leaves behind.
pub open spec fn shows_labels_left(
    pass: PassView,
    before: SessionSnapshot,
    after: SessionSnapshot,
    answers: Answers,
) -> bool {
    let round = event_round(pass, before);
    &&& same_session(before, after)
    &&& forall|target: int|
        0 <= target < round.targets.len() ==> (
        #[trigger] after.tabs@[round.targets[target]]).tab.label@ == label_after(
            target_context(round, target),
            round.pass.state.ownership(target_id(round, target)),
            answers,
        )
}

/// Whether one run of an event settles each of its targets.
pub open spec fn event_settles(pass: PassView, snapshot: SessionSnapshot, answers: Answers) -> bool {
    let round = event_round(pass, snapshot);
    forall|target: int|
        0 <= target < round.targets.len() ==> settles_at_once(
            #[trigger] target_context(round, target),
            round.pass.state.ownership(target_id(round, target)),
            answers,
        )
}

proof fn lemma_distinct_targets(pass: PassView, snapshot: SessionSnapshot)
    requires
        distinct_tabs(snapshot),
    ensures
        distinct_targets(event_round(pass, snapshot)),
{
    let round = event_round(pass, snapshot);
    sequences::lemma_positions(
        snapshot.tabs@,
        targeting::in_scope(snapshot, pass.invocation),
    );
    assert forall|i: int, j: int| 0 <= i < j < round.targets.len() implies #[trigger] target_id(
        round,
        i,
    ) != #[trigger] target_id(round, j) by {
        assert(round.targets[i] < round.targets[j]);
        assert(snapshot.tabs@[round.targets[i]].tab.tab_id@
            != snapshot.tabs@[round.targets[j]].tab.tab_id@);
    }
}

proof fn lemma_observed_event(pass: PassView, snapshot: SessionSnapshot) -> (round: RoundView)
    requires
        event(pass.invocation),
    ensures
        reconciliation::observed(pass, Ok(snapshot)) == reconciliation::advanced(round),
        same_round(round, event_round(pass, snapshot)),
{
    let known = reconciliation::synchronized(pass, snapshot);
    let wanted = targeting::in_scope(snapshot, pass.invocation);
    let targets = sequences::positions_where(snapshot.tabs@, wanted);
    RoundView {
        pass: PassView {
            record: telemetry::recording_snapshot(
                known.record,
                snapshot,
                reconciliation::target_ids(snapshot, targets),
            ),
            ..known
        },
        snapshot,
        targets,
        next: 0,
    }
}

/// An event that nothing interferes with ends with its state stored.
pub proof fn undisturbed_events_come_to_an_end(
    pass: PassView,
    snapshot: SessionSnapshot,
    answers: Answers,
) -> (count: nat)
    requires
        event(pass.invocation),
    ensures
        step_after(reconciliation::observed(pass, Ok(snapshot)), answers, count) matches
            StepView::Persist(PendingView::Finish(done)) && done.state == state_left(
            pass,
            snapshot,
            answers,
        ),
{
    let round = lemma_observed_event(pass, snapshot);
    let count = lemma_round(round, answers);
    lemma_same_round_done(round, event_round(pass, snapshot), answers);
    count
}

/// The renames that the targets of a round call for from one on, each as it was before the round.
pub open spec fn changes_from(round: RoundView, answers: Answers, target: nat) -> Seq<
    (Seq<char>, Seq<char>),
>
    decreases round.targets.len() - target,
{
    if target >= round.targets.len() {
        Seq::empty()
    } else {
        target_change(
            target_context(round, target as int),
            round.pass.state.ownership(target_id(round, target as int)),
            answers,
        ) + changes_from(round, answers, target + 1)
    }
}

proof fn lemma_changes(first: RoundView, round: RoundView, answers: Answers)
    requires
        distinct_targets(first),
        round.snapshot == first.snapshot,
        round.targets == first.targets,
        same_round(
            RoundView { pass: PassView { state: first.pass.state, ..round.pass }, ..round },
            RoundView { next: round.next, ..first },
        ),
        forall|i: int|
            round.next <= i < round.targets.len() ==> round.pass.state.ownership(
                #[trigger] target_id(first, i),
            ) == first.pass.state.ownership(target_id(first, i)),
    ensures
        round_changes(round, answers) == changes_from(first, answers, round.next),
    decreases round.targets.len() - round.next,
{
    if round.next < round.targets.len() {
        let next = pass_laws::unrecorded_round(target_done(round, answers));
        let current = round.next as int;
        assert(target_context(first, current) == round.context());
        assert(target_id(first, current) == round.context().tab_id());
        assert forall|i: int| next.next <= i < next.targets.len() implies next.pass.state.ownership(
            #[trigger] target_id(first, i),
        ) == first.pass.state.ownership(target_id(first, i)) by {
            assert(target_id(first, current) != target_id(first, i));
        }
        lemma_changes(first, next, answers);
    }
}

/// The renames that an undisturbed event sends before it ends are those to the labels it leaves
/// behind: one for each of its targets in turn that shows another label, and no others.
pub proof fn undisturbed_events_send_the_labels_left(
    pass: PassView,
    snapshot: SessionSnapshot,
    answers: Answers,
) -> (count: nat)
    requires
        event(pass.invocation),
        distinct_tabs(snapshot),
    ensures
        ({
            let first = reconciliation::observed(pass, Ok(snapshot));
            &&& step_after(first, answers, count) matches StepView::Persist(
                PendingView::Finish(done),
            ) && done.state == state_left(pass, snapshot, answers)
            &&& renames_sent(first, answers, count) == changes_from(
                event_round(pass, snapshot),
                answers,
                0,
            )
        }),
{
    let expected = event_round(pass, snapshot);
    let round = lemma_observed_event(pass, snapshot);
    let count = lemma_round(round, answers);
    lemma_same_round_done(round, expected, answers);
    lemma_distinct_targets(pass, snapshot);
    lemma_changes(expected, expected, answers);
    count
}

/// The label of a tab once renames were applied.
pub open spec fn label_once_renamed(
    label: Seq<char>,
    tab_id: Seq<char>,
    renames: Seq<(Seq<char>, Seq<char>)>,
) -> Seq<char>
    decreases renames.len(),
{
    if renames.len() == 0 {
        label
    } else if renames.last().0 == tab_id {
        renames.last().1
    } else {
        label_once_renamed(label, tab_id, renames.drop_last())
    }
}

/// Whether a session is the same but for renames that were applied to it.
pub open spec fn shows_renames(
    before: SessionSnapshot,
    after: SessionSnapshot,
    renames: Seq<(Seq<char>, Seq<char>)>,
) -> bool {
    &&& same_session(before, after)
    &&& forall|i: int|
        0 <= i < before.tabs@.len() ==> (#[trigger] after.tabs@[i]).tab.label@
            == label_once_renamed(
            before.tabs@[i].tab.label@,
            before.tabs@[i].tab.tab_id@,
            renames,
        )
}

proof fn lemma_renamed_after(
    label: Seq<char>,
    tab_id: Seq<char>,
    first: Seq<(Seq<char>, Seq<char>)>,
    second: Seq<(Seq<char>, Seq<char>)>,
)
    ensures
        label_once_renamed(label, tab_id, first + second) == label_once_renamed(
            label_once_renamed(label, tab_id, first),
            tab_id,
            second,
        ),
    decreases second.len(),
{
    if second.len() == 0 {
        assert(first + second =~= first);
    } else {
        assert((first + second).drop_last() =~= first + second.drop_last());
        lemma_renamed_after(label, tab_id, first, second.drop_last());
    }
}

proof fn lemma_other_changes(
    round: RoundView,
    answers: Answers,
    from: nat,
    label: Seq<char>,
    tab_id: Seq<char>,
)
    requires
        forall|i: int|
            from <= i < round.targets.len() ==> #[trigger] target_id(round, i) != tab_id,
    ensures
        label_once_renamed(label, tab_id, changes_from(round, answers, from)) == label,
    decreases round.targets.len() - from,
{
    if from < round.targets.len() {
        let change = target_change(
            target_context(round, from as int),
            round.pass.state.ownership(target_id(round, from as int)),
            answers,
        );
        assert(target_id(round, from as int) != tab_id);
        lemma_renamed_after(label, tab_id, change, changes_from(round, answers, from + 1));
        reveal_with_fuel(label_once_renamed, 2);
        lemma_other_changes(round, answers, from + 1, label, tab_id);
    }
}

proof fn lemma_target_renamed(round: RoundView, answers: Answers, from: nat, target: int)
    requires
        distinct_targets(round),
        from <= target < round.targets.len(),
    ensures
        label_once_renamed(
            target_context(round, target).label(),
            target_id(round, target),
            changes_from(round, answers, from),
        ) == label_after(
            target_context(round, target),
            round.pass.state.ownership(target_id(round, target)),
            answers,
        ),
    decreases round.targets.len() - from,
{
    let context = target_context(round, from as int);
    let ownership = round.pass.state.ownership(target_id(round, from as int));
    let change = target_change(context, ownership, answers);
    let tab_id = target_id(round, target);
    let label = target_context(round, target).label();
    lemma_renamed_after(label, tab_id, change, changes_from(round, answers, from + 1));
    reveal_with_fuel(label_once_renamed, 2);
    if from == target {
        assert forall|i: int| from + 1 <= i < round.targets.len() implies #[trigger] target_id(
            round,
            i,
        ) != tab_id by {
            assert(target_id(round, target) != target_id(round, i));
        }
        lemma_other_changes(
            round,
            answers,
            from + 1,
            label_once_renamed(label, tab_id, change),
            tab_id,
        );
    } else {
        assert(target_id(round, from as int) != tab_id);
        lemma_target_renamed(round, answers, from + 1, target);
    }
}

/// A session in which the renames of an undisturbed event were applied, and nothing else happened,
/// shows the labels that the event leaves behind.
pub proof fn applied_renames_show_the_labels_left(
    pass: PassView,
    before: SessionSnapshot,
    after: SessionSnapshot,
    answers: Answers,
)
    requires
        distinct_tabs(before),
        shows_renames(before, after, changes_from(event_round(pass, before), answers, 0)),
    ensures
        shows_labels_left(pass, before, after, answers),
{
    let round = event_round(pass, before);
    sequences::lemma_positions(before.tabs@, targeting::in_scope(before, pass.invocation));
    lemma_distinct_targets(pass, before);
    assert forall|target: int| 0 <= target < round.targets.len() implies (
    #[trigger] after.tabs@[round.targets[target]]).tab.label@ == label_after(
        target_context(round, target),
        round.pass.state.ownership(target_id(round, target)),
        answers,
    ) by {
        lemma_target_renamed(round, answers, 0, target);
        assert(round.targets.contains(round.targets[target]));
    }
}

proof fn lemma_same_positions(first: Seq<SessionTab>, second: Seq<SessionTab>)
    requires
        second.len() == first.len(),
        forall|i: int| 0 <= i < first.len() ==> same_tab(first[i], #[trigger] second[i]),
    ensures
        targeting::positions_by_id(second) == targeting::positions_by_id(first),
        forall|workspace_id: Seq<char>|
            targeting::tabs_in_workspace(second, workspace_id) == #[trigger]
            targeting::tabs_in_workspace(first, workspace_id),
    decreases first.len(),
{
    if first.len() > 0 {
        assert forall|i: int| 0 <= i < first.drop_last().len() implies same_tab(
            first.drop_last()[i],
            #[trigger] second.drop_last()[i],
        ) by {
            assert(same_tab(first[i], second[i]));
        }
        lemma_same_positions(first.drop_last(), second.drop_last());
        assert(same_tab(first[first.len() - 1], second[first.len() - 1]));
        assert forall|workspace_id: Seq<char>|
            targeting::tabs_in_workspace(second, workspace_id) == #[trigger]
            targeting::tabs_in_workspace(first, workspace_id) by {
            assert(targeting::tabs_in_workspace(second.drop_last(), workspace_id)
                == targeting::tabs_in_workspace(first.drop_last(), workspace_id));
        }
    }
}

proof fn lemma_same_targets(
    first: Seq<SessionTab>,
    second: Seq<SessionTab>,
    wanted: spec_fn(SessionTab) -> bool,
    wanted_later: spec_fn(SessionTab) -> bool,
)
    requires
        second.len() == first.len(),
        forall|i: int|
            0 <= i < first.len() ==> wanted(first[i]) == wanted_later(#[trigger] second[i]),
    ensures
        sequences::positions_where(second, wanted_later) == sequences::positions_where(
            first,
            wanted,
        ),
    decreases first.len(),
{
    if first.len() > 0 {
        assert forall|i: int| 0 <= i < first.drop_last().len() implies wanted(
            first.drop_last()[i],
        ) == wanted_later(#[trigger] second.drop_last()[i]) by {
            assert(wanted(first[i]) == wanted_later(second[i]));
        }
        lemma_same_targets(first.drop_last(), second.drop_last(), wanted, wanted_later);
        assert(wanted(first[first.len() - 1]) == wanted_later(second[first.len() - 1]));
    }
}

proof fn lemma_same_ids(first: Seq<SessionTab>, second: Seq<SessionTab>)
    requires
        second.len() == first.len(),
        forall|i: int| 0 <= i < first.len() ==> same_tab(first[i], #[trigger] second[i]),
    ensures
        state::tab_ids(second) == state::tab_ids(first),
{
    assert forall|id: Seq<char>| state::tab_ids(second).contains(id) == state::tab_ids(
        first,
    ).contains(id) by {
        if state::tab_ids(first).contains(id) {
            let i = choose|i: int| 0 <= i < first.len() && (#[trigger] first[i]).tab.tab_id@ == id;
            assert(same_tab(first[i], second[i]));
        }
        if state::tab_ids(second).contains(id) {
            let i = choose|i: int|
                0 <= i < second.len() && (#[trigger] second[i]).tab.tab_id@ == id;
            assert(same_tab(first[i], second[i]));
            assert(first[i].tab.tab_id@ == id);
        }
    }
    assert(state::tab_ids(second) =~= state::tab_ids(first));
}

proof fn lemma_mapped_twice(
    mapping: Map<Seq<char>, Seq<char>>,
    panes: Seq<PaneInfo>,
    tab_ids: Set<Seq<char>>,
)
    requires
        forall|pane_id: Seq<char>| #[trigger]
            mapping.contains_key(pane_id) ==> tab_ids.contains(mapping[pane_id]),
    ensures
        state::mapped_panes(
            table::with_values_in(state::mapped_panes(mapping, panes), tab_ids),
            panes,
        ) == state::mapped_panes(mapping, panes),
{
    let once = state::mapped_panes(mapping, panes);
    let kept = table::with_values_in(once, tab_ids);
    let twice = state::mapped_panes(kept, panes);
    assert forall|pane_id: Seq<char>| twice.dom().contains(pane_id) == once.dom().contains(
        pane_id,
    ) by {
        lemma_mapped(mapping, kept, panes, pane_id);
        assert(mapping.contains_key(pane_id) ==> tab_ids.contains(mapping[pane_id]));
    }
    assert forall|pane_id: Seq<char>| once.dom().contains(pane_id) implies twice[pane_id]
        == once[pane_id] by {
        lemma_mapped(mapping, kept, panes, pane_id);
        assert(mapping.contains_key(pane_id) ==> tab_ids.contains(mapping[pane_id]));
    }
    assert(twice =~= once);
}

/// Panes that are added to two mappings are mapped alike, and the others as before.
proof fn lemma_mapped(
    first: Map<Seq<char>, Seq<char>>,
    second: Map<Seq<char>, Seq<char>>,
    panes: Seq<PaneInfo>,
    pane_id: Seq<char>,
)
    ensures
        ({
            let left = state::mapped_panes(first, panes);
            let right = state::mapped_panes(second, panes);
            ||| left.contains_key(pane_id) && right.contains_key(pane_id) && left[pane_id]
                == right[pane_id]
            ||| {
                &&& left.contains_key(pane_id) == first.contains_key(pane_id)
                &&& right.contains_key(pane_id) == second.contains_key(pane_id)
                &&& left[pane_id] == first[pane_id]
                &&& right[pane_id] == second[pane_id]
            }
        }),
    decreases panes.len(),
{
    if panes.len() > 0 {
        lemma_mapped(first, second, panes.drop_last(), pane_id);
    }
}

proof fn lemma_nothing_to_recover(state: StateView, tabs: Seq<SessionTab>)
    requires
        forall|i: int|
            0 <= i < tabs.len() ==> !(state.ownership((#[trigger] tabs[i]).tab.tab_id@) matches Some(
                pending,
            ) && pending is PendingRename),
    ensures
        reconciliation::recovered(state, tabs) == state,
    decreases tabs.len(),
{
    if tabs.len() > 0 {
        let last = tabs[tabs.len() - 1].tab;
        assert forall|i: int| 0 <= i < tabs.drop_last().len() implies !(state.ownership(
            (#[trigger] tabs.drop_last()[i]).tab.tab_id@,
        ) matches Some(pending) && pending is PendingRename) by {
            assert(tabs[i] == tabs.drop_last()[i]);
        }
        lemma_nothing_to_recover(state, tabs.drop_last());
        state::lemma_same_ownership(state, last.tab_id@);
    }
}

proof fn lemma_recovered_rest(state: StateView, tabs: Seq<SessionTab>)
    ensures
        reconciliation::recovered(state, tabs).suspended == state.suspended,
        reconciliation::recovered(state, tabs).pane_tabs == state.pane_tabs,
    decreases tabs.len(),
{
    if tabs.len() > 0 {
        lemma_recovered_rest(state, tabs.drop_last());
    }
}

proof fn lemma_never_pending(
    context: ContextView,
    ownership: Option<OwnershipView>,
    answers: Answers,
)
    requires
        !(ownership matches Some(pending) && pending is PendingRename),
    ensures
        !(ownership_after(context, ownership, answers) matches Some(pending) && pending
            is PendingRename),
{
}

proof fn lemma_state_left(
    pass: PassView,
    snapshot: SessionSnapshot,
    answers: Answers,
    index: int,
)
    requires
        distinct_tabs(snapshot),
        0 <= index < snapshot.tabs@.len(),
    ensures
        ({
            let round = event_round(pass, snapshot);
            let tab_id = snapshot.tabs@[index].tab.tab_id@;
            let left = state_left(pass, snapshot, answers);
            &&& !(left.ownership(tab_id) matches Some(pending) && pending is PendingRename)
            &&& left.ownership(tab_id) == round_done(round, answers).ownership(tab_id)
        }),
{
    let round = event_round(pass, snapshot);
    let tab_id = snapshot.tabs@[index].tab.tab_id@;
    let wanted = targeting::in_scope(snapshot, pass.invocation);
    let refreshed = pass.state.refresh(snapshot.panes@, snapshot.tabs@);
    assert(state::tab_ids(snapshot.tabs@).contains(tab_id));
    pass_laws::recovery_settles_every_rename(refreshed, snapshot.tabs@, index);
    lemma_distinct_targets(pass, snapshot);
    sequences::lemma_positions(snapshot.tabs@, wanted);
    if round.targets.contains(index) {
        let target = choose|target: int|
            0 <= target < round.targets.len() && round.targets[target] == index;
        lemma_round_ownership(round, answers, target);
        lemma_never_pending(
            target_context(round, target),
            round.pass.state.ownership(tab_id),
            answers,
        );
    } else {
        assert forall|i: int| 0 <= i < round.targets.len() implies #[trigger] target_id(round, i)
            != tab_id by {
            let other = round.targets[i];
            assert(round.targets.contains(other));
            if other < index {
                assert(snapshot.tabs@[other].tab.tab_id@ != snapshot.tabs@[index].tab.tab_id@);
            } else {
                assert(snapshot.tabs@[index].tab.tab_id@ != snapshot.tabs@[other].tab.tab_id@);
            }
        }
        lemma_round_rest(round, answers, tab_id);
    }
}

proof fn lemma_synchronized_again(
    pass: PassView,
    before: SessionSnapshot,
    after: SessionSnapshot,
    answers: Answers,
)
    requires
        distinct_tabs(before),
        same_session(before, after),
    ensures
        reconciliation::synchronized(
            PassView { state: state_left(pass, before, answers), ..pass },
            after,
        ).state == state_left(pass, before, answers),
{
    let round = event_round(pass, before);
    let left = state_left(pass, before, answers);
    let ids = state::tab_ids(before.tabs@);
    let refreshed = pass.state.refresh(before.panes@, before.tabs@);
    lemma_same_ids(before.tabs@, after.tabs@);
    lemma_round_panes(round, answers);
    lemma_recovered_rest(refreshed, before.tabs@);
    lemma_mapped_twice(table::with_values_in(pass.state.pane_tabs, ids), before.panes@, ids);
    assert(left.refresh(after.panes@, after.tabs@) =~= left);
    assert forall|i: int| 0 <= i < after.tabs@.len() implies !(left.ownership(
        (#[trigger] after.tabs@[i]).tab.tab_id@,
    ) matches Some(pending) && pending is PendingRename) by {
        assert(same_tab(before.tabs@[i], after.tabs@[i]));
        lemma_state_left(pass, before, answers, i);
    }
    lemma_nothing_to_recover(left, after.tabs@);
}

/// An event that was handled without a disturbance and comes again changes nothing.
///
/// Panes are observed as before, but no tab is read or renamed, and the state stays as it is.
pub proof fn repeated_events_change_nothing(
    pass: PassView,
    before: SessionSnapshot,
    after: SessionSnapshot,
    answers: Answers,
) -> (count: nat)
    requires
        event(pass.invocation),
        distinct_tabs(before),
        shows_labels_left(pass, before, after, answers),
        event_settles(pass, before, answers),
    ensures
        ({
            let left = state_left(pass, before, answers);
            let again = reconciliation::observed(PassView { state: left, ..pass }, Ok(after));
            &&& only_observes(again, answers, count)
            &&& step_after(again, answers, count) matches StepView::Persist(
                PendingView::Finish(done),
            ) && done.state == left
        }),
{
    let left = state_left(pass, before, answers);
    let later = PassView { state: left, ..pass };
    let first = event_round(pass, before);
    let second = event_round(later, after);
    let wanted = targeting::in_scope(before, pass.invocation);
    let wanted_later = targeting::in_scope(after, pass.invocation);
    lemma_synchronized_again(pass, before, after, answers);
    lemma_same_positions(before.tabs@, after.tabs@);
    lemma_same_ids(before.tabs@, after.tabs@);
    assert forall|i: int| 0 <= i < before.tabs@.len() implies wanted(before.tabs@[i])
        == wanted_later(#[trigger] after.tabs@[i]) by {
        assert(same_tab(before.tabs@[i], after.tabs@[i]));
    }
    lemma_same_targets(before.tabs@, after.tabs@, wanted, wanted_later);
    sequences::lemma_positions(before.tabs@, wanted);
    lemma_distinct_targets(pass, before);
    let round = lemma_observed_event(later, after);
    assert forall|target: int| round.next <= target < round.targets.len() implies #[trigger] stays(
        round,
        answers,
        target,
    ) by {
        let context = target_context(first, target);
        let context_later = target_context(round, target);
        let index = first.targets[target];
        let ownership = first.pass.state.ownership(target_id(first, target));
        assert(same_tab(before.tabs@[index], after.tabs@[index]));
        assert(settles_at_once(context, ownership, answers));
        assert(after.tabs@[first.targets[target]].tab.label@ == label_after(
            context,
            ownership,
            answers,
        ));
        lemma_state_left(pass, before, answers, index);
        lemma_round_ownership(first, answers, target);
        reconciled_tabs_stay_reconciled(context, context_later, ownership, answers);
    }
    let count = lemma_quiet_round(round, answers);
    if pass.invocation is Full {
        assert(left.prune(state::tab_ids(before.tabs@)) =~= left);
    }
    count
}

/// Once the renames of an undisturbed event were applied, the same event comes to nothing: the
/// first run sends the renames to the labels it leaves behind, and the second one sends none.
pub proof fn applied_events_need_no_second_run(
    pass: PassView,
    before: SessionSnapshot,
    after: SessionSnapshot,
    answers: Answers,
) -> (counts: (nat, nat))
    requires
        event(pass.invocation),
        distinct_tabs(before),
        event_settles(pass, before, answers),
        shows_renames(before, after, changes_from(event_round(pass, before), answers, 0)),
    ensures
        ({
            let first = reconciliation::observed(pass, Ok(before));
            let left = state_left(pass, before, answers);
            let second = reconciliation::observed(PassView { state: left, ..pass }, Ok(after));
            &&& renames_sent(first, answers, counts.0) == changes_from(
                event_round(pass, before),
                answers,
                0,
            )
            &&& step_after(first, answers, counts.0) matches StepView::Persist(
                PendingView::Finish(done),
            ) && done.state == left
            &&& renames_sent(second, answers, counts.1) == Seq::<(Seq<char>, Seq<char>)>::empty()
            &&& step_after(second, answers, counts.1) matches StepView::Persist(
                PendingView::Finish(done),
            ) && done.state == left
        }),
{
    let first = undisturbed_events_send_the_labels_left(pass, before, answers);
    applied_renames_show_the_labels_left(pass, before, after, answers);
    let second = repeated_events_change_nothing(pass, before, after, answers);
    let left = state_left(pass, before, answers);
    lemma_observing_sends_nothing(
        reconciliation::observed(PassView { state: left, ..pass }, Ok(after)),
        answers,
        second,
    );
    (first, second)
}

proof fn lemma_observing_sends_nothing(step: StepView, answers: Answers, count: nat)
    requires
        only_observes(step, answers, count),
    ensures
        renames_sent(step, answers, count) == Seq::<(Seq<char>, Seq<char>)>::empty(),
    decreases count,
{
    if count > 0 {
        let next = undisturbed(step, answers);
        assert(step_after(step, answers, 0) is Process);
        assert forall|i: nat| i < count - 1 implies (#[trigger] step_after(next, answers, i))
            is Process by {
            assert(step_after(step, answers, i + 1) is Process);
        }
        lemma_observing_sends_nothing(next, answers, (count - 1) as nat);
    }
}

/// The closing of a pane is acted on once: then its tab is not known any more, and only the state
/// is stored.
pub proof fn closed_panes_are_acted_on_once(
    pass: PassView,
    workspace_id: String,
    pane_id: String,
    snapshot: SessionSnapshot,
)
    requires
        pass.invocation == (Invocation::ClosedPane { workspace_id, pane_id }),
        !pass.state.pane_tabs.contains_key(pane_id@),
    ensures
        reconciliation::observed(pass, Ok(snapshot)) matches StepView::Persist(
            PendingView::Finish(done),
        ) && done.state == pass.state.refresh(snapshot.panes@, snapshot.tabs@),
{
}

/// Clearing a session whose labels have no numbers renames nothing.
pub proof fn cleared_sessions_stay_cleared(clear: ClearView)
    requires
        forall|i: int|
            clear.next <= i < clear.snapshot.tabs@.len() ==> numbering::base_label(
                (#[trigger] clear.snapshot.tabs@[i]).tab.label@,
            ) == clear.snapshot.tabs@[i].tab.label@,
    ensures
        reconciliation::clear_advanced(clear) == StepView::Persist(
            PendingView::Finish(
                PassView { state: clear.pass.state.prune(Set::empty()), ..clear.pass },
            ),
        ),
    decreases clear.snapshot.tabs@.len() - clear.next,
{
    reveal(reconciliation::clear_advanced);
    if clear.next < clear.snapshot.tabs@.len() {
        assert(clear.snapshot.tabs@[clear.next as int].tab == clear.tab());
        cleared_sessions_stay_cleared(clear.done());
    }
}

} // verus!
