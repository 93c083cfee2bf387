//! Laws of waiting: how long an invocation waits from its beginning to its end.

use vstd::prelude::*;

use crate::config::{Config, Invocation};
use crate::herdr::PaneProcessInfo;
use crate::numbering::Tab;
use crate::runner;
use crate::runner::{
    runner_of, LockOutcome, ReadPurpose, RunView, RunnerView, WakePurpose, CLOSE_SETTLE_TIMEOUT,
    SAMPLE_DELAY, SHELL_LOCK_TIMEOUT,
};
use crate::runner_laws;
use crate::runner_laws::{follows, steps_of};

verus! {

/// How long a step waits: a time that is to pass, or the time that the lock is waited for at most.
pub open spec fn wait_of(step: RunView) -> nat {
    match step {
        RunView::Sleep { delay, .. } => delay as nat,
        RunView::Acquire { timeout, .. } => timeout as nat,
        _ => 0,
    }
}

/// How long steps wait in all.
pub open spec fn time_waited(steps: Seq<RunView>) -> nat
    decreases steps.len(),
{
    if steps.len() == 0 {
        0
    } else {
        time_waited(steps.drop_last()) + wait_of(steps.last())
    }
}

/// Whether a step that was reached at one time can be followed by another at a later one.
///
/// A time that is to pass has passed by then, and a tab that was read is decided on then.
pub open spec fn follows_at(step: RunView, next: RunView, reached: u64, now: u64) -> bool {
    &&& follows(step, next)
    &&& reached <= now
    &&& step matches RunView::Sleep { delay, .. } ==> reached + delay <= now
    &&& step matches RunView::ReadTab { runner, tab_id, purpose } ==> exists|
        latest: Result<Option<Tab>, String>,
    | next == #[trigger] runner::tab_read(runner, tab_id, purpose, latest, now)
}

/// Whether the step at a position follows the one before it at its time.
pub open spec fn linked_at(steps: Seq<RunView>, times: Seq<u64>, position: int) -> bool {
    follows_at(steps[position - 1], steps[position], times[position - 1], times[position])
}

/// Whether steps are those of an invocation, each reached at its time.
pub open spec fn timed_steps_of(
    config: Config,
    fallback_shell: Seq<char>,
    steps: Seq<RunView>,
    times: Seq<u64>,
) -> bool {
    &&& times.len() == steps.len()
    &&& steps_of(config, fallback_shell, times[0], steps)
    &&& forall|position: int|
        0 < position < steps.len() ==> #[trigger] linked_at(steps, times, position)
}

/// How long an announced program is waited for from a look on.
pub open spec fn settling_left(attempt: nat) -> nat
    decreases runner::program_settle_schedule().len() - attempt,
{
    let schedule = runner::program_settle_schedule();
    if attempt < schedule.len() {
        schedule[attempt as int] as nat + settling_left(attempt + 1)
    } else {
        0
    }
}

/// How long an invocation waits at most.
pub open spec fn longest_wait(invocation: Invocation) -> nat {
    match invocation {
        Invocation::ClosedTab { tab_id: Some(_), .. } => CLOSE_SETTLE_TIMEOUT as nat,
        Invocation::Preexec { program: Some(_), .. } => settling_left(0)
            + SHELL_LOCK_TIMEOUT as nat,
        Invocation::Preexec { program: None, .. } => SAMPLE_DELAY as nat + SHELL_LOCK_TIMEOUT
            as nat,
        _ => match runner::lock_timeout(invocation) {
            Some(timeout) => timeout as nat,
            None => 0,
        },
    }
}

/// What holds of the time waited when a step is reached: what was waited before a closed tab is
/// looked for again has passed, and what is still to be waited fits in.
spec fn in_time(config: Config, step: RunView, begun: u64, reached: u64, waited: nat) -> bool {
    &&& waited <= longest_wait(config.invocation)
    &&& match step {
        RunView::ReadTab { purpose: ReadPurpose::Closing { deadline }, .. } => {
            &&& config.invocation matches Invocation::ClosedTab { tab_id: Some(_), .. }
            &&& deadline == runner::after(begun, CLOSE_SETTLE_TIMEOUT)
            &&& begun + waited <= reached
        },
        RunView::Sleep { purpose: WakePurpose::Closing { deadline, .. }, delay, .. } => {
            &&& config.invocation matches Invocation::ClosedTab { tab_id: Some(_), .. }
            &&& deadline == runner::after(begun, CLOSE_SETTLE_TIMEOUT)
            &&& begun + waited <= reached + delay
        },
        RunView::Probe(_) => config.invocation is Preexec && waited == 0,
        RunView::Process { attempt, .. } => {
            &&& config.invocation matches Invocation::Preexec { program: Some(_), .. }
            &&& waited + settling_left(attempt) <= settling_left(0)
        },
        RunView::Sleep { purpose: WakePurpose::Settle { attempt, .. }, .. } => {
            &&& config.invocation matches Invocation::Preexec { program: Some(_), .. }
            &&& waited + settling_left(attempt) <= settling_left(0)
        },
        RunView::Sleep { purpose: WakePurpose::Ready, .. } => {
            &&& config.invocation matches Invocation::Preexec { program: None, .. }
            &&& waited <= SAMPLE_DELAY
        },
        _ => true,
    }
}

/// Whether nothing is waited for any more from a step on.
spec fn done_waiting(step: RunView) -> bool {
    match step {
        RunView::ReadTab { purpose, .. } => purpose is Owned,
        RunView::Sleep { .. } => false,
        RunView::Probe(_) => false,
        RunView::Process { .. } => false,
        RunView::Acquire { .. } => false,
        _ => true,
    }
}

proof fn lemma_coalesced(runner: RunnerView, invocation: Invocation, last: bool, now: u64)
    ensures
        done_waiting(runner::coalesced(runner, invocation, last, now)),
{
}

proof fn lemma_done(step: RunView, next: RunView)
    requires
        follows(step, next),
        done_waiting(step) || step is Acquire,
    ensures
        done_waiting(next),
{
    match step {
        RunView::Acquire { runner, .. } => {
            let (outcome, wait_ns, now) = choose|outcome: LockOutcome, wait_ns: u64, now: u64|
                next == #[trigger] runner::acquired(runner, outcome, wait_ns, now);
            lemma_coalesced(
                runner.with_attempt("exact"@, "acquired"@, wait_ns).with_lock(true),
                runner.config.invocation,
                false,
                now,
            );
        },
        RunView::TryLock { runner, purpose } => {
            let (taken, wait_ns, now) = choose|taken: Result<bool, String>, wait_ns: u64, now: u64|
                next == #[trigger] runner::tried(runner, purpose, taken, wait_ns, now);
            lemma_coalesced(
                runner.with_attempt("try"@, "acquired"@, wait_ns).with_lock(true),
                runner.config.invocation,
                false,
                now,
            );
        },
        RunView::ReadTab { .. } => {},
        RunView::Sleep { .. } => {},
        RunView::Probe(_) => {},
        RunView::Process { .. } => {},
        RunView::Load { .. } => {},
        RunView::Request { .. } => {},
        RunView::Take { .. } => {},
        RunView::Check(_) => {},
        RunView::Pass { .. } => {},
        RunView::Emit { .. } => {},
        RunView::Release { .. } => {},
        RunView::Finished(_) => {},
    }
}

proof fn lemma_ready(config: Config, runner: RunnerView, begun: u64, reached: u64, waited: nat)
    requires
        runner.config == config,
        match runner::lock_timeout(config.invocation) {
            Some(timeout) => waited + timeout <= longest_wait(config.invocation),
            None => waited <= longest_wait(config.invocation),
        },
    ensures
        in_time(
            config,
            runner::ready(runner),
            begun,
            reached,
            waited + wait_of(runner::ready(runner)),
        ),
{
}

proof fn lemma_closing(
    config: Config,
    runner: RunnerView,
    tab_id: Seq<char>,
    deadline: u64,
    latest: Result<Option<Tab>, String>,
    begun: u64,
    now: u64,
    waited: nat,
)
    requires
        runner.config == config,
        config.invocation matches Invocation::ClosedTab { tab_id: Some(_), .. },
        deadline == runner::after(begun, CLOSE_SETTLE_TIMEOUT),
        begun + waited <= now,
        waited <= CLOSE_SETTLE_TIMEOUT,
    ensures
        ({
            let next = runner::tab_read(
                runner,
                tab_id,
                ReadPurpose::Closing { deadline },
                latest,
                now,
            );
            in_time(config, next, begun, now, waited + wait_of(next))
        }),
{
    lemma_ready(config, runner, begun, now, waited);
}

proof fn lemma_settling(
    config: Config,
    runner: RunnerView,
    pane_id: Seq<char>,
    program: Seq<char>,
    attempt: nat,
    processes: Result<PaneProcessInfo, String>,
    begun: u64,
    now: u64,
    waited: nat,
)
    requires
        runner.config == config,
        config.invocation matches Invocation::Preexec { program: Some(_), .. },
        waited + settling_left(attempt) <= settling_left(0),
    ensures
        ({
            let next = runner::looked(runner, pane_id, program, attempt, processes);
            in_time(config, next, begun, now, waited + wait_of(next))
        }),
{
    lemma_ready(config, runner, begun, now, waited);
}

proof fn lemma_step(
    config: Config,
    step: RunView,
    next: RunView,
    begun: u64,
    reached: u64,
    now: u64,
    waited: nat,
)
    requires
        follows_at(step, next, reached, now),
        runner_of(step) is Some,
        runner_of(step)->0.config == config,
        in_time(config, step, begun, reached, waited),
    ensures
        in_time(config, next, begun, now, waited + wait_of(next)),
{
    if done_waiting(step) || step is Acquire {
        lemma_done(step, next);
    } else {
        match step {
            RunView::ReadTab { runner, tab_id, purpose } => {
                let latest = choose|latest: Result<Option<Tab>, String>|
                    next == #[trigger] runner::tab_read(runner, tab_id, purpose, latest, now);
                if let ReadPurpose::Closing { deadline } = purpose {
                    lemma_closing(config, runner, tab_id, deadline, latest, begun, now, waited);
                }
            },
            RunView::Process { runner, pane_id, program, attempt } => {
                let processes = choose|processes: Result<PaneProcessInfo, String>|
                    next == #[trigger] runner::looked(runner, pane_id, program, attempt, processes);
                lemma_settling(
                    config,
                    runner,
                    pane_id,
                    program,
                    attempt,
                    processes,
                    begun,
                    now,
                    waited,
                );
            },
            RunView::Sleep { runner, purpose, .. } => {
                if purpose is Ready {
                    lemma_ready(config, runner, begun, now, waited);
                }
            },
            _ => {},
        }
    }
}

proof fn lemma_waited(
    config: Config,
    fallback_shell: Seq<char>,
    steps: Seq<RunView>,
    times: Seq<u64>,
)
    requires
        timed_steps_of(config, fallback_shell, steps, times),
    ensures
        in_time(config, steps.last(), times[0], times.last(), time_waited(steps)),
    decreases steps.len(),
{
    if steps.len() == 1 {
        assert(time_waited(steps.drop_last()) == 0);
    } else {
        let before = steps.drop_last();
        let earlier = times.drop_last();
        assert forall|position: int| 0 < position < before.len() implies #[trigger] linked_at(
            before,
            earlier,
            position,
        ) by {
            assert(linked_at(steps, times, position));
        }
        assert forall|position: int| 0 < position < before.len() implies #[trigger]
            runner_laws::linked(before, position) by {
            assert(runner_laws::linked(steps, position));
        }
        lemma_waited(config, fallback_shell, before, earlier);
        runner_laws::lemma_prefix(config, fallback_shell, times[0], before);
        assert(linked_at(steps, times, steps.len() - 1));
        lemma_step(
            config,
            before.last(),
            steps.last(),
            times[0],
            earlier.last(),
            times.last(),
            time_waited(before),
        );
    }
}

/// An invocation waits no longer in all than its kind allows, and none waits longer than a closed
/// tab may remain visible, however often it looks and however long its looks take.
pub proof fn waits_are_bounded(
    config: Config,
    fallback_shell: Seq<char>,
    steps: Seq<RunView>,
    times: Seq<u64>,
)
    requires
        timed_steps_of(config, fallback_shell, steps, times),
    ensures
        time_waited(steps) <= longest_wait(config.invocation) <= CLOSE_SETTLE_TIMEOUT,
{
    lemma_waited(config, fallback_shell, steps, times);
    reveal_with_fuel(settling_left, 6);
}

/// The waits for a closed tab stay within the time it may remain visible, all of them together.
pub proof fn closed_tabs_are_waited_for_within_the_timeout(
    config: Config,
    fallback_shell: Seq<char>,
    steps: Seq<RunView>,
    times: Seq<u64>,
)
    requires
        timed_steps_of(config, fallback_shell, steps, times),
        config.invocation is ClosedTab,
    ensures
        time_waited(steps) <= CLOSE_SETTLE_TIMEOUT,
{
    waits_are_bounded(config, fallback_shell, steps, times);
}

} // verus!
