//! Laws of running invocations: the pass budget, the session lock, and deferred requests.

use vstd::prelude::*;

use crate::config::{Config, Invocation};
use crate::herdr::PaneProcessInfo;
use crate::lock;
use crate::numbering::Tab;
use crate::runner;
use crate::runner::{
    runner_of, EmitPurpose, LoadPurpose, LockOutcome, ReleasePurpose, RunView, RunnerView,
    TakePurpose, TryPurpose, WakePurpose, MAX_RECONCILIATION_PASSES,
};
use crate::state::{OwnershipView, State};
use crate::telemetry::DecisionView;

verus! {

/// Whether one step can be followed by another, whatever came of what the first asked for.
pub open spec fn follows(step: RunView, next: RunView) -> bool {
    match step {
        RunView::ReadTab { runner, tab_id, purpose } => exists|
            latest: Result<Option<Tab>, String>,
            now: u64,
        | next == #[trigger] runner::tab_read(runner, tab_id, purpose, latest, now),
        RunView::Sleep { runner, purpose, .. } => next == runner::woken(runner, purpose),
        RunView::Probe(runner) => exists|free: Result<bool, String>|
            next == #[trigger] runner::probed(runner, free),
        RunView::Process { runner, pane_id, program, attempt } => exists|
            processes: Result<PaneProcessInfo, String>,
        |
            next == #[trigger] runner::looked(runner, pane_id, program, attempt, processes),
        RunView::Acquire { runner, .. } => exists|outcome: LockOutcome, wait_ns: u64, now: u64|
            next == #[trigger] runner::acquired(runner, outcome, wait_ns, now),
        RunView::TryLock { runner, purpose } => exists|
            taken: Result<bool, String>,
            wait_ns: u64,
            now: u64,
        | next == #[trigger] runner::tried(runner, purpose, taken, wait_ns, now),
        RunView::Load { runner, purpose } => exists|state: Result<State, String>|
            next == #[trigger] runner::loaded(runner, purpose, state),
        RunView::Request { runner, .. } => exists|result: Result<(), String>|
            next == #[trigger] runner::requested(runner, result),
        RunView::Take { runner, purpose } => exists|
            request: Result<Option<Invocation>, String>,
            wait_ns: u64,
            now: u64,
        | next == #[trigger] runner::took(runner, purpose, request, wait_ns, now),
        RunView::Check(runner) => exists|waiting: Result<bool, String>|
            next == #[trigger] runner::checked(runner, waiting),
        RunView::Pass { runner, last, .. } => exists|
            record: Option<DecisionView>,
            result: Result<(), String>,
        | next == #[trigger] runner::passed(runner, last, record, result),
        RunView::Emit { runner, purpose, .. } => exists|now: u64|
            next == #[trigger] runner::emitted(runner, purpose, now),
        RunView::Release { runner, purpose } => next == runner::released(runner, purpose),
        RunView::Finished(_) => false,
    }
}

/// Whether the step at a position follows the one before it.
pub open spec fn linked(steps: Seq<RunView>, position: int) -> bool {
    follows(steps[position - 1], steps[position])
}

/// Whether steps are those of an invocation, from its first one on.
pub open spec fn steps_of(
    config: Config,
    fallback_shell: Seq<char>,
    now: u64,
    steps: Seq<RunView>,
) -> bool {
    &&& steps.len() > 0
    &&& steps[0] == runner::begun(config, fallback_shell, now)
    &&& forall|position: int| 0 < position < steps.len() ==> #[trigger] linked(steps, position)
}

/// How many passes were begun.
pub open spec fn pass_count(steps: Seq<RunView>) -> nat
    decreases steps.len(),
{
    if steps.len() == 0 {
        0
    } else {
        pass_count(steps.drop_last()) + if steps.last() is Pass {
            1nat
        } else {
            0nat
        }
    }
}

/// How many passes may still begin after a step.
pub open spec fn passes_to_come(step: RunView) -> nat {
    match runner_of(step) {
        Some(runner) => runner.remaining_passes + match step {
            RunView::Load { purpose: LoadPurpose::Pass { .. }, .. } => 1nat,
            _ => 0nat,
        },
        None => 0,
    }
}

/// Whether the lock is held in a step.
pub open spec fn holds_lock(step: RunView) -> bool {
    match runner_of(step) {
        Some(runner) => runner.locked,
        None => false,
    }
}

/// Whether a step needs the lock: what it asks for, or what has led to it, happens under it.
pub open spec fn needs_lock(step: RunView) -> bool {
    match step {
        RunView::Load { purpose, .. } => purpose is Pass,
        RunView::Take { .. } => true,
        RunView::Pass { .. } => true,
        RunView::Emit { purpose, .. } => purpose is Fail || purpose is Pass || purpose is Done,
        _ => false,
    }
}

/// Whether a step belongs to an invocation that waits for the lock instead of being deferred.
pub open spec fn undeferred(step: RunView) -> bool {
    match step {
        RunView::ReadTab { purpose, .. } => purpose is Closing,
        RunView::TryLock { purpose, .. } => purpose is Handoff,
        RunView::Load { purpose, .. } => purpose is Pass,
        RunView::Request { .. } => false,
        RunView::Take { purpose, .. } => !(purpose is Queued),
        RunView::Emit { purpose, .. } => !(purpose is Queued),
        _ => true,
    }
}

/// Whether an invocation ends with a result, with nothing left to do but to emit its record.
pub open spec fn ends_with(step: RunView, result: Result<(), Seq<char>>) -> bool {
    match step {
        RunView::Emit { purpose: EmitPurpose::End(end), .. } => end == result,
        _ => false,
    }
}

/// Whether a step keeps what holds along every run: what the lock is held for, the passes that
/// are left, and the configuration.
spec fn kept(step: RunView, next: RunView) -> bool {
    &&& holds_lock(next) == needs_lock(next)
    &&& passes_to_come(next) + if next is Pass {
        1nat
    } else {
        0nat
    } <= passes_to_come(step)
    &&& runner_of(next) is Some ==> runner_of(next)->0.config == runner_of(step)->0.config
}

proof fn lemma_coalesced(
    step: RunView,
    runner: RunnerView,
    invocation: Invocation,
    last: bool,
    now: u64,
)
    requires
        runner.locked,
        runner.remaining_passes <= passes_to_come(step),
        runner_of(step) is Some,
        runner.config == runner_of(step)->0.config,
    ensures
        kept(step, runner::coalesced(runner, invocation, last, now)),
{
}

proof fn lemma_step(step: RunView, next: RunView)
    requires
        follows(step, next),
        holds_lock(step) == needs_lock(step),
    ensures
        kept(step, next),
{
    match step {
        RunView::Acquire { runner, .. } => {
            let (outcome, wait_ns, now) = choose|outcome: LockOutcome, wait_ns: u64, now: u64|
                next == #[trigger] runner::acquired(runner, outcome, wait_ns, now);
            lemma_acquired(runner, outcome, wait_ns, now, step);
        },
        RunView::TryLock { runner, purpose } => {
            let (taken, wait_ns, now) = choose|taken: Result<bool, String>, wait_ns: u64, now: u64|
                next == #[trigger] runner::tried(runner, purpose, taken, wait_ns, now);
            lemma_tried(runner, purpose, taken, wait_ns, now);
        },
        RunView::Take { runner, purpose } => {
            let (request, wait_ns, now) = choose|
                request: Result<Option<Invocation>, String>,
                wait_ns: u64,
                now: u64,
            |
                next == #[trigger] runner::took(runner, purpose, request, wait_ns, now);
            lemma_took(runner, purpose, request, wait_ns, now);
        },
        RunView::Emit { runner, purpose, .. } => {
            let now = choose|now: u64| next == #[trigger] runner::emitted(runner, purpose, now);
            lemma_emitted(step, runner, purpose, now);
        },
        RunView::ReadTab { .. } => {},
        RunView::Sleep { .. } => {},
        RunView::Probe(_) => {},
        RunView::Process { .. } => {},
        RunView::Load { .. } => {},
        RunView::Request { .. } => {},
        RunView::Check(_) => {},
        RunView::Pass { .. } => {},
        RunView::Release { .. } => {},
        RunView::Finished(_) => {},
    }
}

proof fn lemma_acquired(
    runner: RunnerView,
    outcome: LockOutcome,
    wait_ns: u64,
    now: u64,
    step: RunView,
)
    requires
        step matches RunView::Acquire { runner: waiting, .. } && waiting == runner,
        !runner.locked,
    ensures
        kept(step, runner::acquired(runner, outcome, wait_ns, now)),
{
    if outcome is Acquired {
        lemma_coalesced(
            step,
            runner.with_attempt("exact"@, "acquired"@, wait_ns).with_lock(true),
            runner.config.invocation,
            false,
            now,
        );
    }
}

proof fn lemma_tried(
    runner: RunnerView,
    purpose: TryPurpose,
    taken: Result<bool, String>,
    wait_ns: u64,
    now: u64,
)
    requires
        !runner.locked,
    ensures
        kept(
            RunView::TryLock { runner, purpose },
            runner::tried(runner, purpose, taken, wait_ns, now),
        ),
{
    if taken == Ok::<bool, String>(true) && purpose is First {
        lemma_coalesced(
            RunView::TryLock { runner, purpose },
            runner.with_attempt("try"@, "acquired"@, wait_ns).with_lock(true),
            runner.config.invocation,
            false,
            now,
        );
    }
}

proof fn lemma_took(
    runner: RunnerView,
    purpose: TakePurpose,
    request: Result<Option<Invocation>, String>,
    wait_ns: u64,
    now: u64,
)
    requires
        runner.locked,
    ensures
        kept(
            RunView::Take { runner, purpose },
            runner::took(runner, purpose, request, wait_ns, now),
        ),
{
}

proof fn lemma_emitted(step: RunView, runner: RunnerView, purpose: EmitPurpose, now: u64)
    requires
        step matches RunView::Emit { runner: emitting, purpose: emit_purpose, .. } && emitting
            == runner && emit_purpose == purpose,
        holds_lock(step) == needs_lock(step),
    ensures
        kept(step, runner::emitted(runner, purpose, now)),
{
}

proof fn lemma_undeferred(step: RunView, next: RunView)
    requires
        follows(step, next),
        undeferred(step),
        runner_of(step) is Some ==> runner::lock_timeout(
            runner_of(step)->0.config.invocation,
        ) is Some,
    ensures
        undeferred(next),
{
}

pub(crate) proof fn lemma_prefix(
    config: Config,
    fallback_shell: Seq<char>,
    now: u64,
    steps: Seq<RunView>,
)
    requires
        steps_of(config, fallback_shell, now, steps),
    ensures
        holds_lock(steps.last()) == needs_lock(steps.last()),
        pass_count(steps) + passes_to_come(steps.last()) <= MAX_RECONCILIATION_PASSES,
        runner_of(steps.last()) is Some ==> runner_of(steps.last())->0.config == config,
        runner::lock_timeout(config.invocation) is Some ==> undeferred(steps.last()),
        steps.len() > 1 ==> follows(steps[steps.len() - 2], steps.last()) && holds_lock(
            steps[steps.len() - 2],
        ) == needs_lock(steps[steps.len() - 2]),
    decreases steps.len(),
{
    if steps.len() == 1 {
        assert(pass_count(steps.drop_last()) == 0);
    } else {
        let before = steps.drop_last();
        assert forall|position: int| 0 < position < before.len() implies #[trigger] linked(
            before,
            position,
        ) by {
            assert(linked(steps, position));
        }
        lemma_prefix(config, fallback_shell, now, before);
        assert(linked(steps, steps.len() - 1));
        lemma_step(before.last(), steps.last());
        if runner::lock_timeout(config.invocation) is Some {
            lemma_undeferred(before.last(), steps.last());
        }
    }
}

proof fn lemma_at(
    config: Config,
    fallback_shell: Seq<char>,
    now: u64,
    steps: Seq<RunView>,
    position: int,
) -> (prefix: Seq<RunView>)
    requires
        steps_of(config, fallback_shell, now, steps),
        0 <= position < steps.len(),
    ensures
        steps_of(config, fallback_shell, now, prefix),
        prefix == steps.take(position + 1),
        prefix.last() == steps[position],
{
    let prefix = steps.take(position + 1);
    assert forall|i: int| 0 < i < prefix.len() implies #[trigger] linked(prefix, i) by {
        assert(linked(steps, i));
    }
    prefix
}

/// However many events keep arriving, one process runs no more passes than its budget allows.
pub proof fn passes_stay_within_the_budget(
    config: Config,
    fallback_shell: Seq<char>,
    now: u64,
    steps: Seq<RunView>,
)
    requires
        steps_of(config, fallback_shell, now, steps),
    ensures
        pass_count(steps) <= MAX_RECONCILIATION_PASSES,
{
    lemma_prefix(config, fallback_shell, now, steps);
}

/// The state is loaded for a pass, a pass runs and a request is taken only under the lock, and
/// nothing is waited for under it.
pub proof fn passes_run_under_the_lock(
    config: Config,
    fallback_shell: Seq<char>,
    now: u64,
    steps: Seq<RunView>,
    position: int,
)
    requires
        steps_of(config, fallback_shell, now, steps),
        0 <= position < steps.len(),
    ensures
        steps[position] matches RunView::Pass { runner, .. } ==> runner.locked,
        steps[position] matches RunView::Take { runner, .. } ==> runner.locked,
        steps[position] matches RunView::Load { runner, purpose } ==> (runner.locked
            <==> purpose is Pass),
        steps[position] matches RunView::Sleep { runner, .. } ==> !runner.locked,
        steps[position] matches RunView::Process { runner, .. } ==> !runner.locked,
        steps[position] matches RunView::ReadTab { runner, .. } ==> !runner.locked,
        steps[position] matches RunView::Acquire { runner, .. } ==> !runner.locked,
        steps[position] matches RunView::TryLock { runner, .. } ==> !runner.locked,
{
    let prefix = lemma_at(config, fallback_shell, now, steps, position);
    lemma_prefix(config, fallback_shell, now, prefix);
}

/// An invocation is over only after the lock was released.
pub proof fn the_lock_is_released_in_the_end(
    config: Config,
    fallback_shell: Seq<char>,
    now: u64,
    steps: Seq<RunView>,
    position: int,
)
    requires
        steps_of(config, fallback_shell, now, steps),
        0 <= position < steps.len(),
        steps[position] is Finished,
    ensures
        position > 0,
        steps[position - 1] matches RunView::Emit { runner, .. } && !runner.locked,
{
    let prefix = lemma_at(config, fallback_shell, now, steps, position);
    lemma_prefix(config, fallback_shell, now, prefix);
    if position == 0 {
        assert(steps[0] == runner::begun(config, fallback_shell, now));
    } else {
        assert(prefix[prefix.len() - 2] == steps[position - 1]);
        assert(follows(steps[position - 1], steps[position]));
    }
}

/// Shell updates, focus refreshes and user actions never leave a rerun request behind.
pub proof fn exact_operations_are_never_deferred(
    config: Config,
    fallback_shell: Seq<char>,
    now: u64,
    steps: Seq<RunView>,
    position: int,
)
    requires
        steps_of(config, fallback_shell, now, steps),
        0 <= position < steps.len(),
        runner::lock_timeout(config.invocation) is Some,
    ensures
        !(steps[position] is Request),
{
    let prefix = lemma_at(config, fallback_shell, now, steps, position);
    lemma_prefix(config, fallback_shell, now, prefix);
}

/// What is left behind when the lock is taken is the invocation's own deferred form.
pub proof fn deferred_requests_keep_their_scope(
    config: Config,
    fallback_shell: Seq<char>,
    now: u64,
    steps: Seq<RunView>,
    position: int,
)
    requires
        steps_of(config, fallback_shell, now, steps),
        0 <= position < steps.len(),
    ensures
        steps[position] matches RunView::Request { invocation, .. } ==> invocation
            == lock::deferred(config.invocation),
{
    let prefix = lemma_at(config, fallback_shell, now, steps, position);
    lemma_prefix(config, fallback_shell, now, prefix);
    if position > 0 {
        let earlier = lemma_at(config, fallback_shell, now, steps, position - 1);
        lemma_prefix(config, fallback_shell, now, earlier);
        assert(linked(steps, position));
    }
}

/// A shell update or focus refresh that does not get the lock in time is dropped without an error;
/// a user's action reports it.
pub proof fn late_shell_updates_are_dropped(
    runner: RunnerView,
    error: String,
    wait_ns: u64,
    now: u64,
)
    requires
        !runner.locked,
    ensures
        ends_with(
            runner::acquired(runner, LockOutcome::TimedOut(error), wait_ns, now),
            if runner::benign_timeout(runner.config.invocation) {
                Ok(())
            } else {
                Err(error@)
            },
        ),
{
}

/// A command that finds the lock taken is dropped before anything is looked at.
pub proof fn contended_commands_are_dropped_at_once(
    config: Config,
    fallback_shell: Seq<char>,
    now: u64,
)
    requires
        config.invocation is Preexec,
    ensures
        match runner::begun(config, fallback_shell, now) {
            RunView::Probe(runner) => ends_with(runner::probed(runner, Ok(false)), Ok(())),
            _ => false,
        },
{
}

/// An announced program is looked for a bounded number of times, within a second in all, and each
/// wait but the last is followed by another look.
pub proof fn settling_is_bounded(
    runner: RunnerView,
    pane_id: Seq<char>,
    program: Seq<char>,
    attempt: nat,
    processes: Result<PaneProcessInfo, String>,
)
    ensures
        runner::program_settle_schedule().fold_left(0int, |sum: int, delay: u64| sum + delay)
            < 1_000_000_000,
        forall|i: int|
            0 <= i < runner::program_settle_schedule().len()
                ==> runner::program_settle_schedule()[i] > 0,
        match runner::looked(runner, pane_id, program, attempt, processes) {
            RunView::Sleep { purpose: WakePurpose::Settle { attempt: next, .. }, .. } => next
                == attempt + 1 && next <= runner::program_settle_schedule().len(),
            step => step == runner::ready(runner),
        },
{
    let schedule = runner::program_settle_schedule();
    let sum = |sum: int, delay: u64| sum + delay;
    reveal_with_fuel(Seq::fold_left, 6);
    assert(schedule.drop_last() =~= seq![25_000_000u64, 50_000_000u64, 100_000_000u64, 150_000_000u64]);
    assert(schedule.drop_last().drop_last() =~= seq![25_000_000u64, 50_000_000u64, 100_000_000u64]);
    assert(schedule.drop_last().drop_last().drop_last() =~= seq![25_000_000u64, 50_000_000u64]);
    assert(schedule.drop_last().drop_last().drop_last().drop_last() =~= seq![25_000_000u64]);
    assert(schedule.drop_last().drop_last().drop_last().drop_last().drop_last() =~= Seq::empty());
}

/// A rename event that finds the lock taken is dropped if the plugin wrote the label itself, and
/// deferred otherwise.
pub proof fn contended_own_renames_are_not_promoted(
    runner: RunnerView,
    workspace_id: String,
    tab_id: String,
    state: State,
    tab: Tab,
    wait_ns: u64,
    now: u64,
)
    requires
        !runner.locked,
        runner.config.invocation == (Invocation::RenamedTab { workspace_id, tab_id }),
    ensures
        match runner::tried(runner, TryPurpose::First, Ok(false), wait_ns, now) {
            RunView::Load { runner: busy, purpose } => match runner::loaded(
                busy,
                purpose,
                Ok(state),
            ) {
                RunView::ReadTab { runner: reading, tab_id: read, purpose } => {
                    let next = runner::tab_read(reading, read, purpose, Ok(Some(tab)), now);
                    &&& read == tab_id@
                    &&& state@.ownership(tab_id@) matches Some(
                        OwnershipView::Owned { last_rendered, .. },
                    ) ==> (last_rendered == tab.label@ ==> ends_with(next, Ok(())))
                    &&& state@.ownership(tab_id@) matches Some(
                        OwnershipView::PendingRename { desired, .. },
                    ) ==> (desired == tab.label@ ==> ends_with(next, Ok(())))
                    &&& state@.ownership(tab_id@) == Some(OwnershipView::Manual) ==> next
                        is Request
                    &&& state@.ownership(tab_id@) is None ==> next is Request
                },
                _ => false,
            },
            _ => false,
        },
{
}

/// A request that was left behind during a pass is run next, with its own scope, while passes are
/// left.
pub proof fn requests_are_run_after_the_pass(
    runner: RunnerView,
    last: bool,
    request: Invocation,
    state: State,
    wait_ns: u64,
    taken_at: u64,
    emitted_at: u64,
)
    requires
        runner.remaining_passes > 0,
    ensures
        match runner::took(
            runner,
            TakePurpose::Pass { last },
            Ok(Some(request)),
            wait_ns,
            taken_at,
        ) {
            RunView::Emit { runner: done, purpose, .. } => match runner::emitted(
                done,
                purpose,
                emitted_at,
            ) {
                RunView::Load { runner: loading, purpose } => {
                    &&& purpose == (LoadPurpose::Pass { invocation: request, last })
                    &&& loading.remaining_passes == runner.remaining_passes - 1
                },
                _ => false,
            },
            _ => false,
        },
{
}

/// Once the lock is released, requests that were left behind meanwhile are looked for while passes
/// are left, and are otherwise kept for the next event.
pub proof fn releases_look_for_requests(runner: RunnerView, waiting: Result<bool, String>)
    requires
        !runner.locked,
    ensures
        match runner::released(runner, ReleasePurpose::Handoff) {
            RunView::Check(next) => {
                &&& runner.remaining_passes > 0
                &&& next == runner
                &&& waiting == Ok::<bool, String>(true) ==> runner::checked(next, waiting) == (
                RunView::TryLock { runner, purpose: TryPurpose::Handoff })
            },
            step => runner.remaining_passes == 0 && ends_with(step, Ok(())),
        },
{
}

} // verus!
