//! What each kind of invocation does about the session lock, and how a run goes on from what it was
//! answered, whatever is on record.

use vstd::prelude::*;

use crate::config::{Config, Invocation};
use crate::herdr::PaneProcessInfo;
use crate::lock;
use crate::numbering::Tab;
use crate::process_selection;
use crate::reconciliation;
use crate::reconciliation::PassView;
use crate::runner;
use crate::runner::{
    EmitPurpose, LoadPurpose, LockOutcome, ReadPurpose, ReleasePurpose, RunView, RunnerView,
    TakePurpose, TryPurpose, WaitView, WakePurpose,
};
use crate::runner_laws;
use crate::settings;
use crate::state::{OwnershipView, State};
use crate::telemetry::DecisionView;
use crate::text;

verus! {

/// Whether a runner is another one, with the lock or without it and with some passes left, whatever
/// is on record.
pub open spec fn carries_on(
    runner: RunnerView,
    before: RunnerView,
    remaining_passes: int,
    locked: bool,
) -> bool {
    &&& runner.config == before.config
    &&& runner.fallback_shell == before.fallback_shell
    &&& runner.remaining_passes == remaining_passes
    &&& runner.locked == locked
}

/// Whether a runner is another one, whatever is on record.
pub open spec fn same_runner(runner: RunnerView, before: RunnerView) -> bool {
    carries_on(runner, before, before.remaining_passes as int, before.locked)
}

/// Whether an invocation is an action of the user.
pub open spec fn asked_by_user(invocation: Invocation) -> bool {
    match invocation {
        Invocation::Clear => true,
        Invocation::Reset { .. } => true,
        Invocation::Toggle { .. } => true,
        _ => false,
    }
}

/// Whether an invocation is a shell update or a focus refresh.
pub open spec fn updates_shell(invocation: Invocation) -> bool {
    match invocation {
        Invocation::Tab { .. } => true,
        Invocation::Init { .. } => true,
        Invocation::Preexec { .. } => true,
        Invocation::Precmd { .. } => true,
        _ => false,
    }
}

/// Whether a step ends a run that holds the lock or does not: the lock is released, and the record
/// is emitted with the result.
pub open spec fn winds_up(
    step: RunView,
    before: RunnerView,
    result: Result<(), Seq<char>>,
) -> bool {
    match step {
        RunView::Release { runner, purpose } => before.locked && purpose == ReleasePurpose::End(
            result,
        ) && carries_on(runner, before, before.remaining_passes as int, false),
        RunView::Emit { runner, result: shown, purpose } => !before.locked && shown == result
            && purpose == EmitPurpose::End(result) && same_runner(runner, before),
        _ => false,
    }
}

/// Whether a step prepares the pass for an invocation under the lock, with one pass less to come.
pub open spec fn prepares_pass(
    step: RunView,
    before: RunnerView,
    invocation: Invocation,
    last: bool,
) -> bool {
    step matches RunView::Load { runner, purpose } && carries_on(
        runner,
        before,
        before.remaining_passes - 1,
        true,
    ) && purpose == (LoadPurpose::Pass { invocation, last })
}

/// Whether a step leaves the invocation behind for whoever holds the lock: the closing of a pane as
/// it is, and anything else as a full pass.
pub open spec fn leaves_request(step: RunView, before: RunnerView) -> bool {
    step matches RunView::Request { runner, invocation } && same_runner(runner, before)
        && invocation == match before.config.invocation {
        Invocation::ClosedPane { workspace_id, pane_id } => Invocation::ClosedPane {
            workspace_id,
            pane_id,
        },
        _ => Invocation::Full,
    }
}

/// Actions wait two seconds for the lock, shell updates and focus refreshes a quarter of a second,
/// and a shell that starts a tenth; every other event does not wait.
pub proof fn waits_for_the_lock_depend_on_the_invocation(invocation: Invocation)
    ensures
        asked_by_user(invocation) ==> runner::lock_timeout(invocation) == Some(2_000_000_000u64),
        invocation is Init ==> runner::lock_timeout(invocation) == Some(100_000_000u64),
        updates_shell(invocation) && !(invocation is Init) ==> runner::lock_timeout(invocation)
            == Some(250_000_000u64),
        runner::lock_timeout(invocation) is Some <==> asked_by_user(invocation) || updates_shell(
            invocation,
        ),
{
}

/// A clearing, a reset or a toggle waits for the lock for as long as an action does.
pub proof fn actions_wait_for_the_lock(workspace_id: Option<String>, tab_id: Option<String>)
    ensures
        runner::lock_timeout(Invocation::Clear) == Some(runner::ACTION_LOCK_TIMEOUT),
        runner::lock_timeout(Invocation::Reset { workspace_id, tab_id }) == Some(
            runner::ACTION_LOCK_TIMEOUT,
        ),
        runner::lock_timeout(Invocation::Toggle { workspace_id, tab_id }) == Some(
            runner::ACTION_LOCK_TIMEOUT,
        ),
        runner::ACTION_LOCK_TIMEOUT == 2_000_000_000,
{
}

/// No clearing, reset or toggle leaves a request behind, in no step of its run.
pub proof fn actions_are_never_deferred(
    config: Config,
    fallback_shell: Seq<char>,
    now: u64,
    steps: Seq<RunView>,
    position: int,
)
    requires
        runner_laws::steps_of(config, fallback_shell, now, steps),
        0 <= position < steps.len(),
        asked_by_user(config.invocation),
    ensures
        !(steps[position] is Request),
        !(steps[position] matches RunView::TryLock { purpose, .. } && purpose is First),
{
    lemma_undeferred(config, fallback_shell, now, steps, position);
}

/// No shell update and no focus refresh leaves a request behind, in no step of its run.
pub proof fn shell_updates_are_never_deferred(
    config: Config,
    fallback_shell: Seq<char>,
    now: u64,
    steps: Seq<RunView>,
    position: int,
)
    requires
        runner_laws::steps_of(config, fallback_shell, now, steps),
        0 <= position < steps.len(),
        updates_shell(config.invocation),
    ensures
        !(steps[position] is Request),
        !(steps[position] matches RunView::TryLock { purpose, .. } && purpose is First),
{
    lemma_undeferred(config, fallback_shell, now, steps, position);
}

proof fn lemma_undeferred(
    config: Config,
    fallback_shell: Seq<char>,
    now: u64,
    steps: Seq<RunView>,
    position: int,
)
    requires
        runner_laws::steps_of(config, fallback_shell, now, steps),
        0 <= position < steps.len(),
        asked_by_user(config.invocation) || updates_shell(config.invocation),
    ensures
        runner_laws::undeferred(steps[position]),
{
    let prefix = steps.take(position + 1);
    assert forall|i: int| 0 < i < prefix.len() implies #[trigger] runner_laws::linked(prefix, i) by {
        assert(runner_laws::linked(steps, i));
    }
    runner_laws::lemma_prefix(config, fallback_shell, now, prefix);
    assert(prefix.last() == steps[position]);
}

/// A run begins with all its passes and without the lock. The closing of a tab looks for the tab,
/// for at most three seconds; a command sees whether the lock is free; an action or a shell
/// update waits for the lock; everything else tries it.
pub proof fn runs_begin_as_their_invocation_asks(
    config: Config,
    fallback_shell: Seq<char>,
    now: u64,
)
    ensures
        ({
            let step = runner::begun(config, fallback_shell, now);
            let starts = |runner: RunnerView|
                runner.config == config && runner.fallback_shell == fallback_shell
                    && runner.remaining_passes == 8 && !runner.locked;
            match config.invocation {
                Invocation::ClosedTab { tab_id: Some(tab_id), .. } => match step {
                    RunView::ReadTab {
                        runner,
                        tab_id: read,
                        purpose: ReadPurpose::Closing { deadline },
                    } => {
                        &&& starts(runner)
                        &&& read == tab_id@
                        &&& now + 3_000_000_000 <= u64::MAX ==> deadline == now + 3_000_000_000
                        &&& now + 3_000_000_000 > u64::MAX ==> deadline == u64::MAX
                    },
                    _ => false,
                },
                Invocation::Preexec { .. } => step matches RunView::Probe(runner) && starts(runner),
                invocation => if asked_by_user(invocation) || updates_shell(invocation) {
                    step matches RunView::Acquire { runner, timeout } && starts(runner) && Some(
                        timeout,
                    ) == runner::lock_timeout(invocation)
                } else {
                    step matches RunView::TryLock { runner, purpose } && starts(runner)
                        && purpose is First
                },
            }
        }),
{
}

/// A tab whose closing was announced is looked for until it is gone: every twentieth of a second,
/// never beyond the deadline, and in vain once that is reached.
pub proof fn closing_tabs_are_looked_for_until_they_are_gone(
    tab_id: Seq<char>,
    deadline: u64,
    now: u64,
    tab: Tab,
    error: String,
)
    ensures
        ({
            let seen = |latest: Result<Option<Tab>, String>|
                runner::waited(tab_id, deadline, now, runner::CLOSE_RETRY_DELAY, latest);
            &&& seen(Ok(None)) is Closed
            &&& seen(Err(error)) == WaitView::Failed(error@)
            &&& deadline <= now ==> seen(Ok(Some(tab))) == WaitView::Failed(
                "tab "@ + tab_id + " remained visible after its close event"@,
            )
            &&& now + 50_000_000 <= deadline ==> seen(Ok(Some(tab))) == WaitView::Wait(50_000_000)
            &&& now < deadline < now + 50_000_000 ==> seen(Ok(Some(tab))) == WaitView::Wait(
                (deadline - now) as u64,
            )
        }),
{
}

/// Once a tab that was closed is gone, the lock is tried; as long as it is there, it is looked for
/// again after a wait; if it stays, or cannot be looked for, the run fails.
pub proof fn closings_go_on_once_the_tab_is_gone(
    before: RunnerView,
    tab_id: Seq<char>,
    deadline: u64,
    latest: Result<Option<Tab>, String>,
    now: u64,
)
    requires
        before.config.invocation is ClosedTab,
    ensures
        ({
            let step = runner::tab_read(
                before,
                tab_id,
                ReadPurpose::Closing { deadline },
                latest,
                now,
            );
            match latest {
                Ok(None) => step == (RunView::TryLock {
                    runner: before,
                    purpose: TryPurpose::First,
                }),
                Ok(Some(_)) => if now < deadline {
                    &&& step matches RunView::Sleep { runner, delay, purpose }
                    &&& runner == before
                    &&& 0 < delay <= 50_000_000 && now + delay <= deadline
                    &&& runner::woken(runner, purpose) == (RunView::ReadTab {
                        runner: before,
                        tab_id,
                        purpose: ReadPurpose::Closing { deadline },
                    })
                } else {
                    winds_up(
                        step,
                        before,
                        Err("tab "@ + tab_id + " remained visible after its close event"@),
                    )
                },
                Err(error) => winds_up(step, before, Err(error@)),
            }
        }),
{
}

/// A command that finds the lock free looks for its program in its pane, or gives a program
/// without a name a fifth of a second; one that finds the lock taken is over.
pub proof fn commands_look_for_their_program(
    before: RunnerView,
    pane_id: String,
    shell: String,
    program: Option<String>,
    error: String,
)
    requires
        before.config.invocation == (Invocation::Preexec { pane_id, shell, program }),
    ensures
        match program {
            Some(name) => runner::probed(before, Ok(true)) == (RunView::Process {
                runner: before,
                pane_id: pane_id@,
                program: name@,
                attempt: 0,
            }),
            None => {
                let wait = RunView::Sleep {
                    runner: before,
                    delay: 200_000_000,
                    purpose: WakePurpose::Ready,
                };
                &&& runner::probed(before, Ok(true)) == wait
                &&& runner::woken(before, WakePurpose::Ready) == (RunView::Acquire {
                    runner: before,
                    timeout: 250_000_000,
                })
            },
        },
        winds_up(runner::probed(before, Ok(false)), before, Ok(())),
        winds_up(runner::probed(before, Err(error)), before, Err(error@)),
{
}

/// The waits between two looks for an announced program, in nanoseconds.
pub open spec fn waits_between_looks() -> Seq<u64> {
    seq![25_000_000, 50_000_000, 100_000_000, 150_000_000, 200_000_000]
}

/// A program that was announced is looked for until its pane runs it, its pane cannot be looked at,
/// or the looks are used up; then the lock is waited for.
pub proof fn announced_programs_are_waited_for(
    before: RunnerView,
    pane_id: Seq<char>,
    program: Seq<char>,
    attempt: nat,
    info: PaneProcessInfo,
    error: String,
)
    requires
        before.config.invocation is Preexec,
    ensures
        ({
            let lock = RunView::Acquire { runner: before, timeout: 250_000_000 };
            let step = runner::looked(before, pane_id, program, attempt, Ok(info));
            &&& runner::looked(before, pane_id, program, attempt, Err(error)) == lock
            &&& process_selection::group_runs(info, program) ==> step == lock
            &&& attempt >= 5 ==> step == lock
            &&& !process_selection::group_runs(info, program) && attempt < 5 ==> {
                let again = WakePurpose::Settle { pane_id, program, attempt: attempt + 1 };
                &&& step == (RunView::Sleep {
                    runner: before,
                    delay: waits_between_looks()[attempt as int],
                    purpose: again,
                })
                &&& runner::woken(before, again) == (RunView::Process {
                    runner: before,
                    pane_id,
                    program,
                    attempt: attempt + 1,
                })
            }
        }),
{
}

/// Whoever got the lock runs the invocation. An action that did not get it in time fails with
/// what was said of it; a shell update or a focus refresh is over. If the lock cannot be taken,
/// both fail.
pub proof fn waiting_for_the_lock_ends_one_way_or_another(
    before: RunnerView,
    error: String,
    wait_ns: u64,
    now: u64,
)
    requires
        !before.locked,
    ensures
        before.remaining_passes > 0 ==> prepares_pass(
            runner::acquired(before, LockOutcome::Acquired, wait_ns, now),
            before,
            before.config.invocation,
            false,
        ),
        asked_by_user(before.config.invocation) ==> winds_up(
            runner::acquired(before, LockOutcome::TimedOut(error), wait_ns, now),
            before,
            Err(error@),
        ),
        updates_shell(before.config.invocation) ==> winds_up(
            runner::acquired(before, LockOutcome::TimedOut(error), wait_ns, now),
            before,
            Ok(()),
        ),
        winds_up(
            runner::acquired(before, LockOutcome::Failed(error), wait_ns, now),
            before,
            Err(error@),
        ),
        runner::benign_timeout(before.config.invocation) <==> updates_shell(
            before.config.invocation,
        ),
{
}

/// An event that finds the lock free is run; one that finds it taken leaves a request behind, the
/// rename of a tab only after the state was looked at.
pub proof fn events_try_the_lock(before: RunnerView, error: String, wait_ns: u64, now: u64)
    requires
        !before.locked,
    ensures
        before.remaining_passes > 0 ==> prepares_pass(
            runner::tried(before, TryPurpose::First, Ok(true), wait_ns, now),
            before,
            before.config.invocation,
            false,
        ),
        ({
            let step = runner::tried(before, TryPurpose::First, Ok(false), wait_ns, now);
            match before.config.invocation {
                Invocation::RenamedTab { tab_id, .. } => step matches RunView::Load {
                    runner,
                    purpose: LoadPurpose::Owned { tab_id: looked_up },
                } && same_runner(runner, before) && looked_up == tab_id@,
                _ => leaves_request(step, before),
            }
        }),
        forall|purpose: TryPurpose|
            winds_up(
                #[trigger] runner::tried(before, purpose, Err(error), wait_ns, now),
                before,
                Err(error@),
            ),
{
}

/// The lock that is tried once more, after a request was left behind or because one is waiting, is
/// used to take a request; without it there is nothing more to do.
pub proof fn further_attempts_take_requests(before: RunnerView, wait_ns: u64, now: u64)
    requires
        !before.locked,
    ensures
        runner::tried(before, TryPurpose::Queued, Ok(true), wait_ns, now) matches RunView::Take {
            runner,
            purpose,
        } && purpose is Queued && carries_on(
            runner,
            before,
            before.remaining_passes as int,
            true,
        ),
        runner::tried(before, TryPurpose::Handoff, Ok(true), wait_ns, now) matches RunView::Take {
            runner,
            purpose,
        } && purpose is Handoff && carries_on(
            runner,
            before,
            before.remaining_passes as int,
            true,
        ),
        winds_up(
            runner::tried(before, TryPurpose::Queued, Ok(false), wait_ns, now),
            before,
            Ok(()),
        ),
        winds_up(
            runner::tried(before, TryPurpose::Handoff, Ok(false), wait_ns, now),
            before,
            Ok(()),
        ),
{
}

/// Once a request was left behind, the lock is tried once more; if it cannot be left, the run
/// fails.
pub proof fn requests_are_followed_by_another_attempt(
    before: RunnerView,
    error: String,
    now: u64,
)
    requires
        !before.locked,
    ensures
        match runner::requested(before, Ok(())) {
            RunView::Emit { runner, result, purpose } => {
                &&& result is Ok
                &&& same_runner(runner, before)
                &&& runner::emitted(runner, purpose, now) matches RunView::TryLock {
                    runner: next,
                    purpose: again,
                } && same_runner(next, before) && again is Queued
            },
            _ => false,
        },
        winds_up(runner::requested(before, Err(error)), before, Err(error@)),
{
}

/// A rename that finds the lock taken is over if the tab is gone, or shows what the plugin has
/// written or is about to write; otherwise it leaves a request behind.
pub proof fn contended_renames_look_at_the_tab(
    before: RunnerView,
    tab_id: Seq<char>,
    state: State,
    error: String,
    tab: Tab,
    now: u64,
)
    requires
        !before.locked,
    ensures
        winds_up(
            runner::loaded(before, LoadPurpose::Owned { tab_id }, Err(error)),
            before,
            Err(error@),
        ),
        match runner::loaded(before, LoadPurpose::Owned { tab_id }, Ok(state)) {
            RunView::ReadTab { runner, tab_id: read, purpose } => {
                let shown = runner::tab_read(runner, read, purpose, Ok(Some(tab)), now);
                &&& runner == before
                &&& read == tab_id
                &&& winds_up(
                    runner::tab_read(runner, read, purpose, Ok(None), now),
                    before,
                    Ok(()),
                )
                &&& winds_up(
                    runner::tab_read(runner, read, purpose, Err(error), now),
                    before,
                    Err(error@),
                )
                &&& match state@.ownership(tab_id) {
                    Some(OwnershipView::PendingRename { desired, .. }) => if desired
                        == tab.label@ {
                        winds_up(shown, before, Ok(()))
                    } else {
                        leaves_request(shown, before)
                    },
                    Some(OwnershipView::Owned { last_rendered, .. }) => if last_rendered
                        == tab.label@ {
                        winds_up(shown, before, Ok(()))
                    } else {
                        leaves_request(shown, before)
                    },
                    _ => leaves_request(shown, before),
                }
            },
            _ => false,
        },
{
}

/// A pass is run for its invocation with the stored state and the user's settings; without a state
/// the run fails.
pub proof fn passes_are_run_with_the_stored_state(
    before: RunnerView,
    invocation: Invocation,
    last: bool,
    state: State,
    error: String,
    now: u64,
)
    requires
        before.locked,
    ensures
        match runner::loaded(before, LoadPurpose::Pass { invocation, last }, Ok(state)) {
            RunView::Pass { runner, pass, last: final_batch } => {
                &&& same_runner(runner, before)
                &&& final_batch == last
                &&& pass == reconciliation::begun(
                    PassView {
                        settings: before.config.settings@,
                        policy: settings::policy_of(before.config.settings@),
                        fallback_shell: before.fallback_shell,
                        invocation,
                        state: state@,
                        record: before.record,
                    },
                )
            },
            _ => false,
        },
        fails(
            runner::loaded(before, LoadPurpose::Pass { invocation, last }, Err(error)),
            before,
            error@,
            now,
        ),
{
}

/// Whether a step ends a run in failure under the lock: the record is emitted, then the lock is
/// released, and the failure is reported.
pub open spec fn fails(step: RunView, before: RunnerView, error: Seq<char>, now: u64) -> bool {
    step matches RunView::Emit { runner, result, purpose } && same_runner(runner, before) && result
        == Err::<(), Seq<char>>(error) && winds_up(
        runner::emitted(runner, purpose, now),
        before,
        Err(error),
    )
}

/// Whether a step ends a batch of passes: after the last batch the run is over, and otherwise the
/// lock is released and requests are looked for.
pub open spec fn batch_done(step: RunView, before: RunnerView, last: bool) -> bool {
    if last {
        winds_up(step, before, Ok(()))
    } else {
        step matches RunView::Release { runner, purpose } && purpose is Handoff && carries_on(
            runner,
            before,
            before.remaining_passes as int,
            false,
        )
    }
}

/// A pass that went well is followed by a look for requests as long as passes are left, and ends
/// the batch otherwise; one that failed ends the run in failure.
pub proof fn passes_are_followed_by_requests(
    before: RunnerView,
    last: bool,
    record: Option<DecisionView>,
    error: String,
    now: u64,
)
    requires
        before.locked,
    ensures
        before.remaining_passes > 0 ==> (runner::passed(before, last, record, Ok(())) matches
            RunView::Take { runner, purpose } && same_runner(runner, before) && runner.record
            == record && purpose == (TakePurpose::Pass { last })),
        before.remaining_passes == 0 ==> (runner::passed(before, last, record, Ok(())) matches
            RunView::Emit { runner, result, purpose } && same_runner(runner, before)
            && runner.record == record && result is Ok && batch_done(
            runner::emitted(runner, purpose, now),
            before,
            last,
        )),
        fails(runner::passed(before, last, record, Err(error)), before, error@, now),
{
}

/// A request that was taken is run; if there is none, the invocation itself is run after it was
/// left behind, the batch is done after a pass, and the run is over after a hand-over.
pub proof fn taken_requests_are_run(
    before: RunnerView,
    request: Invocation,
    last: bool,
    error: String,
    wait_ns: u64,
    now: u64,
)
    requires
        before.locked,
        before.remaining_passes > 0,
    ensures
        prepares_pass(
            runner::took(before, TakePurpose::Queued, Ok(Some(request)), wait_ns, now),
            before,
            request,
            false,
        ),
        prepares_pass(
            runner::took(before, TakePurpose::Queued, Ok(None), wait_ns, now),
            before,
            before.config.invocation,
            false,
        ),
        winds_up(
            runner::took(before, TakePurpose::Queued, Err(error), wait_ns, now),
            before,
            Err(error@),
        ),
        match runner::took(before, TakePurpose::Pass { last }, Ok(Some(request)), wait_ns, now) {
            RunView::Emit { runner, result, purpose } => result is Ok && same_runner(runner, before)
                && prepares_pass(runner::emitted(runner, purpose, now), before, request, last),
            _ => false,
        },
        match runner::took(before, TakePurpose::Pass { last }, Ok(None), wait_ns, now) {
            RunView::Emit { runner, result, purpose } => result is Ok && same_runner(runner, before)
                && batch_done(runner::emitted(runner, purpose, now), before, last),
            _ => false,
        },
        fails(
            runner::took(before, TakePurpose::Pass { last }, Err(error), wait_ns, now),
            before,
            error@,
            now,
        ),
        prepares_pass(
            runner::took(before, TakePurpose::Handoff, Ok(Some(request)), wait_ns, now),
            before,
            request,
            true,
        ),
        winds_up(
            runner::took(before, TakePurpose::Handoff, Ok(None), wait_ns, now),
            before,
            Ok(()),
        ),
        fails(
            runner::took(before, TakePurpose::Handoff, Err(error), wait_ns, now),
            before,
            error@,
            now,
        ),
{
}

/// After a batch the lock is tried again exactly if passes are left and a request is waiting.
pub proof fn requests_are_handed_over(before: RunnerView, error: String)
    requires
        !before.locked,
    ensures
        before.remaining_passes == 0 ==> winds_up(
            runner::released(before, ReleasePurpose::Handoff),
            before,
            Ok(()),
        ),
        before.remaining_passes > 0 ==> runner::released(before, ReleasePurpose::Handoff)
            == RunView::Check(before),
        runner::checked(before, Ok(true)) == (RunView::TryLock {
            runner: before,
            purpose: TryPurpose::Handoff,
        }),
        winds_up(runner::checked(before, Ok(false)), before, Ok(())),
        winds_up(runner::checked(before, Err(error)), before, Err(error@)),
{
}

/// A run ends with the result that it was wound up with.
pub proof fn runs_end_with_their_result(
    before: RunnerView,
    result: Result<(), Seq<char>>,
    now: u64,
)
    ensures
        runner::released(before.with_lock(false), ReleasePurpose::End(result)) matches
            RunView::Emit { runner, result: shown, purpose } && shown == result && carries_on(
            runner,
            before,
            before.remaining_passes as int,
            false,
        ) && runner::emitted(runner, purpose, now) == RunView::Finished(result),
        runner::emitted(before, EmitPurpose::End(result), now) == RunView::Finished(result),
{
}

/// The closing of a pane is left behind with its ids; anything else is left behind as a full pass.
pub proof fn requests_cover_what_they_stand_for(invocation: Invocation)
    ensures
        lock::deferred(invocation) == match invocation {
            Invocation::ClosedPane { workspace_id, pane_id } => Invocation::ClosedPane {
                workspace_id,
                pane_id,
            },
            _ => Invocation::Full,
        },
{
}

/// An attempt is made again after its delay, or right at the deadline if that comes first; there is
/// no further attempt from the deadline on.
pub proof fn attempts_are_made_up_to_the_deadline(deadline: u64, now: u64, delay: u64)
    ensures
        now >= deadline ==> lock::delay_within(deadline, now, delay) is None,
        now < deadline && now + delay <= deadline ==> lock::delay_within(deadline, now, delay)
            == Some(delay),
        now < deadline && now + delay > deadline ==> (lock::delay_within(deadline, now, delay)
            matches Some(wait) && now + wait == deadline),
        lock::LOCK_RETRY_DELAY == 25_000_000,
{
}

/// Of two names that differ behind a common start the one with the smaller byte comes first, and a
/// name comes before every longer one that starts with it.
pub proof fn names_are_ordered_by_their_bytes(
    start: Seq<u8>,
    first: u8,
    second: u8,
    rest: Seq<u8>,
    other: Seq<u8>,
)
    requires
        first < second,
    ensures
        lock::name_precedes(start.push(first) + rest, start.push(second) + other),
        !lock::name_precedes(start.push(second) + other, start.push(first) + rest),
        lock::name_precedes(start, start.push(first) + rest),
        !lock::name_precedes(start.push(first) + rest, start),
    decreases start.len(),
{
    let left = start.push(first) + rest;
    let right = start.push(second) + other;
    if start.len() > 0 {
        let shorter = start.drop_first();
        assert(left.drop_first() =~= shorter.push(first) + rest);
        assert(right.drop_first() =~= shorter.push(second) + other);
        names_are_ordered_by_their_bytes(shorter, first, second, rest, other);
    }
}

/// A request is named by its process and, behind a dash, by its number in twenty digits; it is
/// published as a JSON file of that name.
pub proof fn requests_are_named_by_process_and_number(process: u32, request: u64)
    ensures
        ({
            let numeral = text::decimal(request as nat);
            &&& numeral.len() <= 20 ==> lock::rerun_name(process, request) == text::decimal(
                process as nat,
            ) + seq!['-'] + (Seq::new((20 - numeral.len()) as nat, |i: int| '0') + numeral)
            &&& lock::rerun_file(process, request) == lock::rerun_name(process, request) + ".json"@
        }),
{
    let numeral = text::decimal(request as nat);
    if numeral.len() == 20 {
        assert(Seq::new(0, |i: int| '0') + numeral =~= numeral);
    }
}

/// A file counts as a published request exactly if its name has the extension of a JSON file and
/// more than that.
pub proof fn published_requests_have_their_extension(stem: Seq<u8>, name: Seq<u8>)
    requires
        stem.len() > 0,
        lock::published(name),
    ensures
        lock::published(stem + seq![46u8, 106u8, 115u8, 111u8, 110u8]),
        !lock::published(seq![46u8, 106u8, 115u8, 111u8, 110u8]),
        name.len() > 5 && name == name.take(name.len() - 5) + seq![
            46u8,
            106u8,
            115u8,
            111u8,
            110u8,
        ],
{
    let extension = seq![46u8, 106u8, 115u8, 111u8, 110u8];
    let whole = stem + extension;
    assert(whole.skip(whole.len() - 5) =~= extension);
    assert(name =~= name.take(name.len() - 5) + name.skip(name.len() - 5));
}

/// The request that comes first is listed and published, and no other one is in front of it.
pub proof fn first_requests_have_none_in_front(
    names: Seq<Vec<u8>>,
    name: Seq<u8>,
    place: int,
)
    requires
        lock::comes_first(names, name),
        0 <= place < names.len(),
    ensures
        lock::published(name),
        exists|i: int| 0 <= i < names.len() && (#[trigger] names[i])@ == name,
        lock::published(names[place]@) ==> !lock::name_precedes(names[place]@, name),
{
}

} // verus!
