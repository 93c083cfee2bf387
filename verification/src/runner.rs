//! Invocation scheduling, close settling, locking, and event coalescing.
//!
//! Running an invocation is a chain of steps, like a pass: each step but the last asks for one
//! thing outside the library, and resuming it with what came of that gives the next step. Times
//! are monotonic, in nanoseconds.

use vstd::prelude::*;
#[allow(unused_imports)]
use vstd::string::{StrSliceExecFns, StringExecFns};

use crate::config::{Config, Invocation};
use crate::herdr::PaneProcessInfo;
use crate::lock;
use crate::lock::{bounded_delay, request_rerun};
use crate::numbering::Tab;
use crate::process_selection;
use crate::reconciliation;
use crate::reconciliation::{pane_matches_program, run_pass, FinishedPass, PassStep, PassView, StepView};
use crate::settings;
use crate::settings::Settings;
use crate::state;
use crate::state::{OwnershipView, State, StateView, TabOwnership};
use crate::telemetry;
use crate::telemetry::{
    telemetry_from_config, telemetry_from_invocation, AttemptView, DecisionRecord, DecisionView,
    Telemetry,
};
use crate::text::text_eq;

verus! {

/// How long a user's action waits for the session lock.
pub const ACTION_LOCK_TIMEOUT: u64 = 2_000_000_000;

/// How long a closed tab may remain visible.
pub const CLOSE_SETTLE_TIMEOUT: u64 = 3_000_000_000;

/// How long to wait before a closed tab is looked for again.
pub const CLOSE_RETRY_DELAY: u64 = 50_000_000;

/// How long an eager shell claim waits for the session lock.
pub const INIT_LOCK_TIMEOUT: u64 = 100_000_000;

/// How long a shell or focus update waits for the session lock.
pub const SHELL_LOCK_TIMEOUT: u64 = 250_000_000;

/// How long to wait before a command of unknown name is sampled.
pub const SAMPLE_DELAY: u64 = 200_000_000;

/// How many passes one process may run.
pub const MAX_RECONCILIATION_PASSES: usize = 8;

/// The waits between two looks for an announced program.
pub open spec fn program_settle_schedule() -> Seq<u64> {
    seq![25_000_000u64, 50_000_000u64, 100_000_000u64, 150_000_000u64, 200_000_000u64]
}

/// The waits between two looks for an announced program.
pub fn program_settle_delays() -> (delays: Vec<u64>)
    ensures
        delays@ == program_settle_schedule(),
{
    let mut delays: Vec<u64> = Vec::new();
    delays.push(25_000_000);
    delays.push(50_000_000);
    delays.push(100_000_000);
    delays.push(150_000_000);
    delays.push(200_000_000);
    assert(delays@ =~= program_settle_schedule());
    delays
}

/// How long an invocation that must be run exactly waits for the session lock.
pub open spec fn lock_timeout(invocation: Invocation) -> Option<u64> {
    match invocation {
        Invocation::Init { .. } => Some(INIT_LOCK_TIMEOUT),
        Invocation::Tab { .. } => Some(SHELL_LOCK_TIMEOUT),
        Invocation::Preexec { .. } => Some(SHELL_LOCK_TIMEOUT),
        Invocation::Precmd { .. } => Some(SHELL_LOCK_TIMEOUT),
        Invocation::Clear => Some(ACTION_LOCK_TIMEOUT),
        Invocation::Reset { .. } => Some(ACTION_LOCK_TIMEOUT),
        Invocation::Toggle { .. } => Some(ACTION_LOCK_TIMEOUT),
        _ => None,
    }
}

/// How long an invocation that must be run exactly waits for the session lock.
///
/// Any other invocation leaves a rerun request behind if the lock is taken.
pub fn exact_lock_timeout(invocation: &Invocation) -> (timeout: Option<u64>)
    ensures
        timeout == lock_timeout(*invocation),
{
    match invocation {
        Invocation::Init { .. } => Some(INIT_LOCK_TIMEOUT),
        Invocation::Tab { .. } => Some(SHELL_LOCK_TIMEOUT),
        Invocation::Preexec { .. } => Some(SHELL_LOCK_TIMEOUT),
        Invocation::Precmd { .. } => Some(SHELL_LOCK_TIMEOUT),
        Invocation::Clear => Some(ACTION_LOCK_TIMEOUT),
        Invocation::Reset { .. } => Some(ACTION_LOCK_TIMEOUT),
        Invocation::Toggle { .. } => Some(ACTION_LOCK_TIMEOUT),
        _ => None,
    }
}

/// Whether an invocation that did not get the lock in time is simply dropped.
pub open spec fn benign_timeout(invocation: Invocation) -> bool {
    invocation is Tab || invocation is Init || invocation is Preexec || invocation is Precmd
}

/// Whether an invocation that did not get the lock in time is simply dropped.
pub fn timeout_is_benign(invocation: &Invocation) -> (result: bool)
    ensures
        result == benign_timeout(*invocation),
{
    match invocation {
        Invocation::Tab { .. } => true,
        Invocation::Init { .. } => true,
        Invocation::Preexec { .. } => true,
        Invocation::Precmd { .. } => true,
        _ => false,
    }
}

/// The nanoseconds between two points in time, as far as they can be recorded.
pub fn elapsed_ns(started: u128, now: u128) -> (elapsed: u64)
    ensures
        elapsed == if now <= started {
            0int
        } else if now - started <= u64::MAX {
            now - started
        } else {
            u64::MAX as int
        },
{
    if now <= started {
        0
    } else if now - started <= u64::MAX as u128 {
        (now - started) as u64
    } else {
        u64::MAX
    }
}

/// What follows a look for a closed tab.
#[derive(Debug, PartialEq, Eq)]
pub enum WaitStep {
    /// The tab is gone.
    Closed,
    /// The tab is to be looked for again after this time.
    Wait(u64),
    /// The tab could not be looked for, or remained visible for too long.
    Failed(String),
}

/// What follows a look for a closed tab, with its text as a character sequence.
#[verifier::ext_equal]
pub enum WaitView {
    Closed,
    Wait(u64),
    Failed(Seq<char>),
}

impl View for WaitStep {
    type V = WaitView;

    open spec fn view(&self) -> WaitView {
        match *self {
            WaitStep::Closed => WaitView::Closed,
            WaitStep::Wait(delay) => WaitView::Wait(delay),
            WaitStep::Failed(error) => WaitView::Failed(error@),
        }
    }
}

/// The error for a tab that remained visible for too long.
pub open spec fn remained_visible(tab_id: Seq<char>) -> Seq<char> {
    "tab "@ + tab_id + " remained visible after its close event"@
}

/// What follows a look for a closed tab.
pub open spec fn waited(
    tab_id: Seq<char>,
    deadline: u64,
    now: u64,
    delay: u64,
    latest: Result<Option<Tab>, String>,
) -> WaitView {
    match latest {
        Ok(Some(_)) => match lock::delay_within(deadline, now, delay) {
            Some(wait) => WaitView::Wait(wait),
            None => WaitView::Failed(remained_visible(tab_id)),
        },
        Ok(None) => WaitView::Closed,
        Err(error) => WaitView::Failed(error@),
    }
}

/// Decides what follows a look for a closed tab.
pub fn wait_until_closed(
    tab_id: &str,
    deadline: u64,
    now: u64,
    retry_delay: u64,
    latest: Result<Option<Tab>, String>,
) -> (step: WaitStep)
    ensures
        step@ == waited(tab_id@, deadline, now, retry_delay, latest),
{
    match latest {
        Ok(Some(_)) => match bounded_delay(deadline, now, retry_delay) {
            Some(delay) => WaitStep::Wait(delay),
            None => {
                let mut message = "tab ".to_owned();
                message.append(tab_id);
                message.append(" remained visible after its close event");
                WaitStep::Failed(message)
            },
        },
        Ok(None) => WaitStep::Closed,
        Err(error) => WaitStep::Failed(error),
    }
}

/// How long to wait before an announced program is looked for again.
///
/// There is no other look once the program runs, its pane cannot be observed, or every wait was
/// spent.
pub open spec fn settle_wait(
    observed: Result<PaneProcessInfo, String>,
    program: Seq<char>,
    delays: Seq<u64>,
    attempt: nat,
) -> Option<u64> {
    match observed {
        Ok(info) => if !process_selection::group_runs(info, program) && attempt < delays.len() {
            Some(delays[attempt as int])
        } else {
            None
        },
        Err(_) => None,
    }
}

/// Decides how long to wait before an announced program is looked for again.
pub fn settle_program(
    observed: Result<PaneProcessInfo, String>,
    program: &str,
    settings: &Settings,
    delays: &Vec<u64>,
    attempt: usize,
) -> (delay: Option<u64>)
    ensures
        delay == settle_wait(observed, program@, delays@, attempt as nat),
{
    match pane_matches_program(observed, program, settings) {
        Ok(false) => if attempt < delays.len() {
            Some(delays[attempt])
        } else {
            None
        },
        _ => None,
    }
}

/// Whether a rename event reports what the plugin did itself, or concerns a tab that is gone.
pub open spec fn owned_rename(ownership: Option<OwnershipView>, latest: Option<Tab>) -> bool {
    match latest {
        None => true,
        Some(tab) => match ownership {
            Some(OwnershipView::PendingRename { desired, .. }) => desired == tab.label@,
            Some(OwnershipView::Owned { last_rendered, .. }) => last_rendered == tab.label@,
            _ => false,
        },
    }
}

/// Decides whether a rename event reports what the plugin did itself.
pub fn is_owned_rename_event(ownership: Option<&TabOwnership>, latest: Option<&Tab>) -> (result:
    bool)
    ensures
        result == owned_rename(
            state::borrowed_ownership(ownership),
            match latest {
                Some(tab) => Some(*tab),
                None => None,
            },
        ),
{
    let tab = match latest {
        Some(tab) => tab,
        None => {
            return true;
        },
    };
    match ownership {
        Some(TabOwnership::PendingRename { desired, .. }) => text_eq(
            desired.as_str(),
            tab.label.as_str(),
        ),
        Some(TabOwnership::Owned { last_rendered, .. }) => text_eq(
            last_rendered.as_str(),
            tab.label.as_str(),
        ),
        _ => false,
    }
}

/// What an invocation runs with from its beginning to its end.
#[derive(Debug, PartialEq, Eq)]
pub struct Runner {
    pub config: Config,
    pub fallback_shell: String,
    /// How many passes this process may still run.
    pub remaining_passes: usize,
    pub telemetry: Telemetry,
    /// Whether this process holds the session lock.
    pub locked: bool,
}

/// A runner with its record as a mathematical value.
#[verifier::ext_equal]
pub struct RunnerView {
    pub config: Config,
    pub fallback_shell: Seq<char>,
    pub remaining_passes: nat,
    pub record: Option<DecisionView>,
    pub locked: bool,
}

impl View for Runner {
    type V = RunnerView;

    open spec fn view(&self) -> RunnerView {
        RunnerView {
            config: self.config,
            fallback_shell: self.fallback_shell@,
            remaining_passes: self.remaining_passes as nat,
            record: self.telemetry@,
            locked: self.locked,
        }
    }
}

impl RunnerView {
    /// The runner with another record.
    pub open spec fn with_record(self, record: Option<DecisionView>) -> RunnerView {
        RunnerView { record, ..self }
    }

    /// The runner with a lock attempt on record.
    pub open spec fn with_attempt(self, phase: Seq<char>, result: Seq<char>, wait_ns: u64) -> RunnerView {
        self.with_record(
            telemetry::recording_lock_attempt(
                self.record,
                AttemptView { phase, result, wait_ns },
            ),
        )
    }

    /// The runner with what became of a rerun request on record.
    pub open spec fn with_handoff(self, handoff: Seq<char>) -> RunnerView {
        self.with_record(telemetry::recording_handoff(self.record, handoff))
    }

    /// The runner with its final outcome on record.
    pub open spec fn with_outcome(self, outcome: Seq<char>) -> RunnerView {
        self.with_record(telemetry::recording_terminal_outcome(self.record, outcome))
    }

    /// The runner with a rerun request on record.
    pub open spec fn with_rerun_requested(self) -> RunnerView {
        self.with_record(telemetry::recording_rerun_requested(self.record))
    }

    /// The runner that holds the session lock, or does not.
    pub open spec fn with_lock(self, locked: bool) -> RunnerView {
        RunnerView { locked, ..self }
    }

    /// The runner with the record that a rerun request calls for.
    pub open spec fn recording(self, invocation: Invocation, now: u64) -> RunnerView {
        self.with_record(telemetry::invocation_record(self.config, invocation, now))
    }
}

/// What a tab is read for.
#[verifier::ext_equal]
pub enum ReadPurpose {
    /// To see whether it is gone.
    Closing { deadline: u64 },
    /// To see whether its rename was the plugin's own.
    Owned { ownership: Option<OwnershipView> },
}

/// What follows a wait.
#[verifier::ext_equal]
pub enum WakePurpose {
    /// A closed tab is looked for again.
    Closing { tab_id: Seq<char>, deadline: u64 },
    /// An announced program is looked for again.
    Settle { pane_id: Seq<char>, program: Seq<char>, attempt: nat },
    /// The invocation is run.
    Ready,
}

/// What the session lock is tried for.
#[verifier::ext_equal]
pub enum TryPurpose {
    /// The first attempt.
    First,
    /// The attempt right after a rerun request was left behind.
    Queued,
    /// The attempt to run a request that was left behind meanwhile.
    Handoff,
}

/// What the state is loaded for.
#[verifier::ext_equal]
pub enum LoadPurpose {
    /// To see whether a rename was the plugin's own.
    Owned { tab_id: Seq<char> },
    /// For a pass.
    Pass { invocation: Invocation, last: bool },
}

/// What a rerun request is taken for.
#[verifier::ext_equal]
pub enum TakePurpose {
    /// To run it in place of the invocation.
    Queued,
    /// To run it after a pass.
    Pass { last: bool },
    /// To run it after everything else.
    Handoff,
}

/// What follows once a record was emitted.
#[verifier::ext_equal]
pub enum EmitPurpose {
    /// The invocation is over.
    End(Result<(), Seq<char>>),
    /// The invocation has failed.
    Fail(Seq<char>),
    /// The lock is tried again.
    Queued,
    /// A rerun request is run.
    Pass { invocation: Invocation, last: bool },
    /// No pass is left to run.
    Done { last: bool },
}

/// What follows once the lock was released.
#[verifier::ext_equal]
pub enum ReleasePurpose {
    /// Requests that were left behind meanwhile are looked for.
    Handoff,
    /// The invocation is over.
    End(Result<(), Seq<char>>),
}

/// The steps of running an invocation, as mathematical values.
#[allow(inconsistent_fields)]
#[verifier::ext_equal]
pub enum RunView {
    /// A tab is to be read.
    ReadTab { runner: RunnerView, tab_id: Seq<char>, purpose: ReadPurpose },
    /// Time is to pass.
    Sleep { runner: RunnerView, delay: u64, purpose: WakePurpose },
    /// It is to be seen whether the lock is free.
    Probe(RunnerView),
    /// The processes of a pane are to be listed.
    Process { runner: RunnerView, pane_id: Seq<char>, program: Seq<char>, attempt: nat },
    /// The lock is to be taken within a time.
    Acquire { runner: RunnerView, timeout: u64 },
    /// The lock is to be taken if it is free.
    TryLock { runner: RunnerView, purpose: TryPurpose },
    /// The state is to be loaded.
    Load { runner: RunnerView, purpose: LoadPurpose },
    /// A rerun request is to be left behind.
    Request { runner: RunnerView, invocation: Invocation },
    /// A rerun request is to be taken.
    Take { runner: RunnerView, purpose: TakePurpose },
    /// It is to be seen whether a rerun request is waiting.
    Check(RunnerView),
    /// A pass is to be run.
    Pass { runner: RunnerView, pass: StepView, last: bool },
    /// A record is to be emitted.
    Emit { runner: RunnerView, result: Result<(), Seq<char>>, purpose: EmitPurpose },
    /// The lock is to be released.
    Release { runner: RunnerView, purpose: ReleasePurpose },
    /// The invocation is over.
    Finished(Result<(), Seq<char>>),
}

/// The runner of a step, unless the invocation is over.
pub open spec fn runner_of(step: RunView) -> Option<RunnerView> {
    match step {
        RunView::ReadTab { runner, .. } => Some(runner),
        RunView::Sleep { runner, .. } => Some(runner),
        RunView::Probe(runner) => Some(runner),
        RunView::Process { runner, .. } => Some(runner),
        RunView::Acquire { runner, .. } => Some(runner),
        RunView::TryLock { runner, .. } => Some(runner),
        RunView::Load { runner, .. } => Some(runner),
        RunView::Request { runner, .. } => Some(runner),
        RunView::Take { runner, .. } => Some(runner),
        RunView::Check(runner) => Some(runner),
        RunView::Pass { runner, .. } => Some(runner),
        RunView::Emit { runner, .. } => Some(runner),
        RunView::Release { runner, .. } => Some(runner),
        RunView::Finished(_) => None,
    }
}

/// The end of an invocation: the lock is released first, then the record is emitted.
pub open spec fn ended(runner: RunnerView, result: Result<(), Seq<char>>) -> RunView {
    if runner.locked {
        RunView::Release { runner: runner.with_lock(false), purpose: ReleasePurpose::End(result) }
    } else {
        RunView::Emit { runner, result, purpose: EmitPurpose::End(result) }
    }
}

/// The end of an invocation that failed in or between passes: its record is emitted at once.
pub open spec fn failed(runner: RunnerView, error: Seq<char>) -> RunView {
    RunView::Emit { runner, result: Err(error), purpose: EmitPurpose::Fail(error) }
}

/// A point in time that lies a duration ahead.
pub open spec fn after(now: u64, duration: u64) -> u64 {
    if now + duration <= u64::MAX {
        (now + duration) as u64
    } else {
        u64::MAX
    }
}

/// The first step of an invocation.
pub open spec fn begun(config: Config, fallback_shell: Seq<char>, now: u64) -> RunView {
    let runner = RunnerView {
        config,
        fallback_shell,
        remaining_passes: MAX_RECONCILIATION_PASSES as nat,
        record: telemetry::config_record(config, now),
        locked: false,
    };
    match config.invocation {
        Invocation::ClosedTab { tab_id: Some(tab_id), .. } => RunView::ReadTab {
            runner,
            tab_id: tab_id@,
            purpose: ReadPurpose::Closing { deadline: after(now, CLOSE_SETTLE_TIMEOUT) },
        },
        _ => admitted(runner),
    }
}

/// The step that follows once nothing has to be waited for any more.
///
/// A command is dropped before it is looked for if the lock is taken.
pub open spec fn admitted(runner: RunnerView) -> RunView {
    if runner.config.invocation is Preexec {
        RunView::Probe(runner)
    } else {
        ready(runner)
    }
}

/// The step that takes the lock.
pub open spec fn ready(runner: RunnerView) -> RunView {
    match lock_timeout(runner.config.invocation) {
        Some(timeout) => RunView::Acquire { runner, timeout },
        None => RunView::TryLock { runner, purpose: TryPurpose::First },
    }
}

/// The step that follows once a tab was read.
pub open spec fn tab_read(
    runner: RunnerView,
    tab_id: Seq<char>,
    purpose: ReadPurpose,
    latest: Result<Option<Tab>, String>,
    now: u64,
) -> RunView {
    match purpose {
        ReadPurpose::Closing { deadline } => match waited(
            tab_id,
            deadline,
            now,
            CLOSE_RETRY_DELAY,
            latest,
        ) {
            WaitView::Closed => admitted(runner),
            WaitView::Wait(delay) => RunView::Sleep {
                runner,
                delay,
                purpose: WakePurpose::Closing { tab_id, deadline },
            },
            WaitView::Failed(error) => ended(runner, Err(error)),
        },
        ReadPurpose::Owned { ownership } => match latest {
            Ok(tab) => if owned_rename(ownership, tab) {
                ended(runner.with_outcome("owned_rename_noop"@), Ok(()))
            } else {
                requesting(runner)
            },
            Err(error) => ended(runner, Err(error@)),
        },
    }
}

/// The step that follows once time has passed.
pub open spec fn woken(runner: RunnerView, purpose: WakePurpose) -> RunView {
    match purpose {
        WakePurpose::Closing { tab_id, deadline } => RunView::ReadTab {
            runner,
            tab_id,
            purpose: ReadPurpose::Closing { deadline },
        },
        WakePurpose::Settle { pane_id, program, attempt } => RunView::Process {
            runner,
            pane_id,
            program,
            attempt,
        },
        WakePurpose::Ready => ready(runner),
    }
}

/// The step that follows once it was seen whether the lock is free.
pub open spec fn probed(runner: RunnerView, free: Result<bool, String>) -> RunView {
    match free {
        Ok(true) => match runner.config.invocation {
            Invocation::Preexec { pane_id, program: Some(program), .. } => RunView::Process {
                runner,
                pane_id: pane_id@,
                program: program@,
                attempt: 0,
            },
            _ => RunView::Sleep { runner, delay: SAMPLE_DELAY, purpose: WakePurpose::Ready },
        },
        Ok(false) => ended(runner.with_outcome("lock_dropped"@), Ok(())),
        Err(error) => ended(runner, Err(error@)),
    }
}

/// The step that follows a look for an announced program.
pub open spec fn looked(
    runner: RunnerView,
    pane_id: Seq<char>,
    program: Seq<char>,
    attempt: nat,
    observed: Result<PaneProcessInfo, String>,
) -> RunView {
    match settle_wait(observed, program, program_settle_schedule(), attempt) {
        Some(delay) => RunView::Sleep {
            runner,
            delay,
            purpose: WakePurpose::Settle { pane_id, program, attempt: attempt + 1 },
        },
        None => ready(runner),
    }
}

/// What became of an attempt to take the lock within a time.
#[derive(Debug, PartialEq, Eq)]
pub enum LockOutcome {
    Acquired,
    /// The time was over; the error says so.
    TimedOut(String),
    Failed(String),
}

/// The step that follows an attempt to take the lock within a time.
pub open spec fn acquired(
    runner: RunnerView,
    outcome: LockOutcome,
    wait_ns: u64,
    now: u64,
) -> RunView {
    match outcome {
        LockOutcome::Acquired => coalesced(
            runner.with_attempt("exact"@, "acquired"@, wait_ns).with_lock(true),
            runner.config.invocation,
            false,
            now,
        ),
        LockOutcome::TimedOut(error) => if benign_timeout(runner.config.invocation) {
            ended(
                runner.with_attempt("exact"@, "timeout"@, wait_ns).with_outcome("lock_dropped"@),
                Ok(()),
            )
        } else {
            ended(runner.with_attempt("exact"@, "error"@, wait_ns), Err(error@))
        },
        LockOutcome::Failed(error) => ended(
            runner.with_attempt("exact"@, "error"@, wait_ns),
            Err(error@),
        ),
    }
}

/// The step that leaves a rerun request behind.
pub open spec fn requesting(runner: RunnerView) -> RunView {
    RunView::Request { runner, invocation: lock::deferred(runner.config.invocation) }
}

/// The step that follows an attempt to take the lock.
pub open spec fn tried(
    runner: RunnerView,
    purpose: TryPurpose,
    taken: Result<bool, String>,
    wait_ns: u64,
    now: u64,
) -> RunView {
    match taken {
        Err(error) => ended(runner, Err(error@)),
        Ok(taken) => match purpose {
            TryPurpose::First => if taken {
                coalesced(
                    runner.with_attempt("try"@, "acquired"@, wait_ns).with_lock(true),
                    runner.config.invocation,
                    false,
                    now,
                )
            } else {
                let busy = runner.with_attempt("try"@, "busy"@, wait_ns);
                match runner.config.invocation {
                    Invocation::RenamedTab { tab_id, .. } => RunView::Load {
                        runner: busy,
                        purpose: LoadPurpose::Owned { tab_id: tab_id@ },
                    },
                    _ => requesting(busy),
                }
            },
            TryPurpose::Queued => if taken {
                RunView::Take { runner: runner.with_lock(true), purpose: TakePurpose::Queued }
            } else {
                ended(runner.with_attempt("handoff"@, "busy"@, wait_ns), Ok(()))
            },
            TryPurpose::Handoff => if taken {
                RunView::Take { runner: runner.with_lock(true), purpose: TakePurpose::Handoff }
            } else {
                ended(
                    runner.with_attempt("post_release"@, "busy"@, wait_ns).with_handoff("busy"@),
                    Ok(()),
                )
            },
        },
    }
}

/// The step that follows once a rerun request was left behind.
pub open spec fn requested(runner: RunnerView, result: Result<(), String>) -> RunView {
    match result {
        Ok(_) => RunView::Emit {
            runner: runner.with_rerun_requested().with_attempt(
                "queue"@,
                "published"@,
                0,
            ).with_handoff("queued"@).with_outcome("queued"@),
            result: Ok(()),
            purpose: EmitPurpose::Queued,
        },
        Err(error) => ended(runner, Err(error@)),
    }
}

/// The next step of running passes.
///
/// Without passes left, a request stays behind for the next event.
pub open spec fn coalesced(
    runner: RunnerView,
    invocation: Invocation,
    last: bool,
    now: u64,
) -> RunView {
    if runner.remaining_passes == 0 {
        passes_done(runner, last)
    } else {
        RunView::Load {
            runner: RunnerView {
                remaining_passes: (runner.remaining_passes - 1) as nat,
                record: if runner.record is Some {
                    runner.record
                } else {
                    telemetry::invocation_record(runner.config, invocation, now)
                },
                ..runner
            },
            purpose: LoadPurpose::Pass { invocation, last },
        }
    }
}

/// The step that follows the last pass of a batch.
pub open spec fn passes_done(runner: RunnerView, last: bool) -> RunView {
    if last {
        ended(runner, Ok(()))
    } else {
        RunView::Release { runner: runner.with_lock(false), purpose: ReleasePurpose::Handoff }
    }
}

/// The pass that an invocation is run with.
pub open spec fn pass_of(runner: RunnerView, invocation: Invocation, state: StateView) -> PassView {
    PassView {
        settings: runner.config.settings@,
        policy: settings::policy_of(runner.config.settings@),
        fallback_shell: runner.fallback_shell,
        invocation,
        state,
        record: runner.record,
    }
}

/// The step that follows once the state was loaded.
pub open spec fn loaded(
    runner: RunnerView,
    purpose: LoadPurpose,
    state: Result<State, String>,
) -> RunView {
    match purpose {
        LoadPurpose::Owned { tab_id } => match state {
            Ok(state) => RunView::ReadTab {
                runner,
                tab_id,
                purpose: ReadPurpose::Owned { ownership: state@.ownership(tab_id) },
            },
            Err(error) => ended(runner, Err(error@)),
        },
        LoadPurpose::Pass { invocation, last } => match state {
            Ok(state) => RunView::Pass {
                runner: runner.with_record(None),
                pass: reconciliation::begun(pass_of(runner, invocation, state@)),
                last,
            },
            Err(error) => failed(runner, error@),
        },
    }
}

/// The step that follows once a pass is over.
pub open spec fn passed(
    runner: RunnerView,
    last: bool,
    record: Option<DecisionView>,
    result: Result<(), String>,
) -> RunView {
    let kept = runner.with_record(record);
    match result {
        Err(error) => failed(kept, error@),
        Ok(_) => if runner.remaining_passes == 0 {
            RunView::Emit { runner: kept, result: Ok(()), purpose: EmitPurpose::Done { last } }
        } else {
            RunView::Take { runner: kept, purpose: TakePurpose::Pass { last } }
        },
    }
}

/// The step that follows once a rerun request was taken, if there was one.
pub open spec fn took(
    runner: RunnerView,
    purpose: TakePurpose,
    request: Result<Option<Invocation>, String>,
    wait_ns: u64,
    now: u64,
) -> RunView {
    match purpose {
        TakePurpose::Queued => match request {
            Ok(Some(invocation)) => coalesced(
                runner.recording(invocation, now).with_rerun_requested().with_attempt(
                    "handoff"@,
                    "acquired"@,
                    wait_ns,
                ).with_handoff("deferred_consumed"@),
                invocation,
                false,
                now,
            ),
            Ok(None) => coalesced(runner, runner.config.invocation, false, now),
            Err(error) => ended(runner, Err(error@)),
        },
        TakePurpose::Pass { last } => match request {
            Ok(Some(invocation)) => RunView::Emit {
                runner: runner.with_rerun_requested().with_handoff("deferred_published"@),
                result: Ok(()),
                purpose: EmitPurpose::Pass { invocation, last },
            },
            Ok(None) => RunView::Emit {
                runner,
                result: Ok(()),
                purpose: EmitPurpose::Done { last },
            },
            Err(error) => failed(runner, error@),
        },
        TakePurpose::Handoff => match request {
            Ok(Some(invocation)) => coalesced(
                runner.recording(invocation, now).with_rerun_requested().with_attempt(
                    "post_release"@,
                    "acquired"@,
                    wait_ns,
                ).with_handoff("deferred_consumed"@),
                invocation,
                true,
                now,
            ),
            Ok(None) => ended(
                runner.with_attempt("post_release"@, "acquired"@, wait_ns).with_handoff("empty"@),
                Ok(()),
            ),
            Err(error) => failed(runner, error@),
        },
    }
}

/// The step that looks for requests that were left behind while the lock was held.
pub open spec fn handed_off(runner: RunnerView) -> RunView {
    if runner.remaining_passes == 0 {
        ended(runner.with_handoff("not_needed"@), Ok(()))
    } else {
        RunView::Check(runner)
    }
}

/// The step that follows once it was seen whether a rerun request is waiting.
pub open spec fn checked(runner: RunnerView, waiting: Result<bool, String>) -> RunView {
    match waiting {
        Ok(true) => RunView::TryLock { runner, purpose: TryPurpose::Handoff },
        Ok(false) => ended(runner.with_handoff("not_needed"@), Ok(())),
        Err(error) => ended(runner, Err(error@)),
    }
}

/// The step that follows once a record was emitted.
pub open spec fn emitted(runner: RunnerView, purpose: EmitPurpose, now: u64) -> RunView {
    let silent = runner.with_record(None);
    match purpose {
        EmitPurpose::End(result) => RunView::Finished(result),
        EmitPurpose::Fail(error) => ended(silent, Err(error)),
        EmitPurpose::Queued => RunView::TryLock { runner: silent, purpose: TryPurpose::Queued },
        EmitPurpose::Pass { invocation, last } => coalesced(
            silent.recording(invocation, now).with_rerun_requested().with_handoff(
                "deferred_consumed"@,
            ),
            invocation,
            last,
            now,
        ),
        EmitPurpose::Done { last } => passes_done(silent, last),
    }
}

/// The step that follows once the lock was released.
pub open spec fn released(runner: RunnerView, purpose: ReleasePurpose) -> RunView {
    match purpose {
        ReleasePurpose::Handoff => handed_off(runner),
        ReleasePurpose::End(result) => ended(runner, result),
    }
}

/// What a tab is read for.
#[derive(Debug, PartialEq, Eq)]
enum ReadReason {
    Closing { deadline: u64 },
    Owned { ownership: Option<TabOwnership> },
}

impl View for ReadReason {
    type V = ReadPurpose;

    closed spec fn view(&self) -> ReadPurpose {
        match *self {
            ReadReason::Closing { deadline } => ReadPurpose::Closing {
                deadline,
            },
            ReadReason::Owned { ownership } => ReadPurpose::Owned {
                ownership: state::optional_ownership(ownership),
            },
        }
    }
}

/// What follows a wait.
#[derive(Debug, PartialEq, Eq)]
enum WakeReason {
    Closing { tab_id: String, deadline: u64 },
    Settle { pane_id: String, program: String, attempt: usize },
    Ready,
}

impl View for WakeReason {
    type V = WakePurpose;

    closed spec fn view(&self) -> WakePurpose {
        match *self {
            WakeReason::Closing { tab_id, deadline } => WakePurpose::Closing {
                tab_id: tab_id@,
                deadline,
            },
            WakeReason::Settle { pane_id, program, attempt } => WakePurpose::Settle {
                pane_id: pane_id@,
                program: program@,
                attempt: attempt as nat,
            },
            WakeReason::Ready => WakePurpose::Ready,
        }
    }
}

/// What the session lock is tried for.
#[derive(Debug, PartialEq, Eq)]
enum TryReason {
    First,
    Queued,
    Handoff,
}

impl View for TryReason {
    type V = TryPurpose;

    closed spec fn view(&self) -> TryPurpose {
        match *self {
            TryReason::First => TryPurpose::First,
            TryReason::Queued => TryPurpose::Queued,
            TryReason::Handoff => TryPurpose::Handoff,
        }
    }
}

/// What the state is loaded for.
#[derive(Debug, PartialEq, Eq)]
enum LoadReason {
    Owned { tab_id: String },
    Pass { invocation: Invocation, last: bool },
}

impl View for LoadReason {
    type V = LoadPurpose;

    closed spec fn view(&self) -> LoadPurpose {
        match *self {
            LoadReason::Owned { tab_id } => LoadPurpose::Owned {
                tab_id: tab_id@,
            },
            LoadReason::Pass { invocation, last } => LoadPurpose::Pass {
                invocation,
                last,
            },
        }
    }
}

/// What a rerun request is taken for.
#[derive(Debug, PartialEq, Eq)]
enum TakeReason {
    Queued,
    Pass { last: bool },
    Handoff,
}

impl View for TakeReason {
    type V = TakePurpose;

    closed spec fn view(&self) -> TakePurpose {
        match *self {
            TakeReason::Queued => TakePurpose::Queued,
            TakeReason::Pass { last } => TakePurpose::Pass {
                last,
            },
            TakeReason::Handoff => TakePurpose::Handoff,
        }
    }
}

/// What follows once a record was emitted.
#[derive(Debug, PartialEq, Eq)]
enum EmitReason {
    End(Result<(), String>),
    Fail(String),
    Queued,
    Pass { invocation: Invocation, last: bool },
    Done { last: bool },
}

impl View for EmitReason {
    type V = EmitPurpose;

    closed spec fn view(&self) -> EmitPurpose {
        match *self {
            EmitReason::End(result) => EmitPurpose::End(telemetry::result_view(result)),
            EmitReason::Fail(error) => EmitPurpose::Fail(error@),
            EmitReason::Queued => EmitPurpose::Queued,
            EmitReason::Pass { invocation, last } => EmitPurpose::Pass {
                invocation,
                last,
            },
            EmitReason::Done { last } => EmitPurpose::Done {
                last,
            },
        }
    }
}

/// What follows once the lock was released.
#[derive(Debug, PartialEq, Eq)]
enum ReleaseReason {
    Handoff,
    End(Result<(), String>),
}

impl View for ReleaseReason {
    type V = ReleasePurpose;

    closed spec fn view(&self) -> ReleasePurpose {
        match *self {
            ReleaseReason::Handoff => ReleasePurpose::Handoff,
            ReleaseReason::End(result) => ReleasePurpose::End(telemetry::result_view(result)),
        }
    }
}

/// An invocation that waits for a tab to be read.
#[derive(Debug, PartialEq, Eq)]
pub struct ReadTabRun {
    runner: Runner,
    tab_id: String,
    reason: ReadReason,
}

/// An invocation that waits for time to pass.
#[derive(Debug, PartialEq, Eq)]
pub struct SleepRun {
    runner: Runner,
    delay: u64,
    reason: WakeReason,
}

/// An invocation that waits to see whether the lock is free.
#[derive(Debug, PartialEq, Eq)]
pub struct ProbeRun {
    runner: Runner,
}

/// An invocation that waits for the processes of a pane.
#[derive(Debug, PartialEq, Eq)]
pub struct ProcessRun {
    runner: Runner,
    pane_id: String,
    program: String,
    attempt: usize,
}

/// An invocation that waits for the lock to be taken within a time.
#[derive(Debug, PartialEq, Eq)]
pub struct AcquireRun {
    runner: Runner,
    timeout: u64,
}

/// An invocation that waits for the lock to be tried.
#[derive(Debug, PartialEq, Eq)]
pub struct TryLockRun {
    runner: Runner,
    reason: TryReason,
}

/// An invocation that waits for the state to be loaded.
#[derive(Debug, PartialEq, Eq)]
pub struct LoadRun {
    runner: Runner,
    reason: LoadReason,
}

/// An invocation that waits for a rerun request to be left behind.
#[derive(Debug, PartialEq, Eq)]
pub struct RequestRun {
    runner: Runner,
    invocation: Invocation,
}

/// An invocation that waits for a rerun request to be taken.
#[derive(Debug, PartialEq, Eq)]
pub struct TakeRun {
    runner: Runner,
    reason: TakeReason,
}

/// An invocation that waits to see whether a rerun request is there.
#[derive(Debug, PartialEq, Eq)]
pub struct CheckRun {
    runner: Runner,
}

/// An invocation with a pass to be run.
#[derive(Debug, PartialEq, Eq)]
pub struct PassRun {
    runner: Runner,
    pass: PassStep,
    last: bool,
}

/// An invocation that waits for its pass to be over.
#[derive(Debug, PartialEq, Eq)]
pub struct RunningPass {
    runner: Runner,
    last: bool,
}

/// An invocation with a record to be emitted.
#[derive(Debug, PartialEq, Eq)]
pub struct EmitRun {
    runner: Runner,
    result: Result<(), String>,
    reason: EmitReason,
}

/// An invocation that waits for the lock to be released.
#[derive(Debug, PartialEq, Eq)]
pub struct ReleaseRun {
    runner: Runner,
    reason: ReleaseReason,
}

/// The steps of running an invocation.
#[derive(Debug, PartialEq, Eq)]
pub enum RunStep {
    /// A tab is to be read.
    ReadTab(ReadTabRun),
    /// Time is to pass.
    Sleep(SleepRun),
    /// It is to be seen whether the lock is free.
    Probe(ProbeRun),
    /// The processes of a pane are to be listed.
    Process(ProcessRun),
    /// The lock is to be taken within a time.
    Acquire(AcquireRun),
    /// The lock is to be taken if it is free.
    TryLock(TryLockRun),
    /// The state is to be loaded.
    Load(LoadRun),
    /// A rerun request is to be left behind.
    Request(RequestRun),
    /// A rerun request is to be taken.
    Take(TakeRun),
    /// It is to be seen whether a rerun request is waiting.
    Check(CheckRun),
    /// A pass is to be run.
    Pass(PassRun),
    /// A record is to be emitted.
    Emit(EmitRun),
    /// The lock is to be released.
    Release(ReleaseRun),
    /// The invocation is over.
    Finished(Result<(), String>),
}

impl View for RunStep {
    type V = RunView;

    open spec fn view(&self) -> RunView {
        match *self {
            RunStep::ReadTab(step) => RunView::ReadTab {
                runner: step.runner(),
                tab_id: step.tab(),
                purpose: step.purpose(),
            },
            RunStep::Sleep(step) => RunView::Sleep {
                runner: step.runner(),
                delay: step.wait(),
                purpose: step.purpose(),
            },
            RunStep::Probe(step) => RunView::Probe(step.runner()),
            RunStep::Process(step) => RunView::Process {
                runner: step.runner(),
                pane_id: step.pane(),
                program: step.announced(),
                attempt: step.looks(),
            },
            RunStep::Acquire(step) => RunView::Acquire {
                runner: step.runner(),
                timeout: step.bound(),
            },
            RunStep::TryLock(step) => RunView::TryLock {
                runner: step.runner(),
                purpose: step.purpose(),
            },
            RunStep::Load(step) => RunView::Load {
                runner: step.runner(),
                purpose: step.purpose(),
            },
            RunStep::Request(step) => RunView::Request {
                runner: step.runner(),
                invocation: step.requested(),
            },
            RunStep::Take(step) => RunView::Take {
                runner: step.runner(),
                purpose: step.purpose(),
            },
            RunStep::Check(step) => RunView::Check(step.runner()),
            RunStep::Pass(step) => RunView::Pass {
                runner: step.runner(),
                pass: step.begun(),
                last: step.final_batch(),
            },
            RunStep::Emit(step) => RunView::Emit {
                runner: step.runner(),
                result: step.outcome(),
                purpose: step.purpose(),
            },
            RunStep::Release(step) => RunView::Release {
                runner: step.runner(),
                purpose: step.purpose(),
            },
            RunStep::Finished(result) => RunView::Finished(telemetry::result_view(result)),
        }
    }
}

impl RunStep {
    /// How many passes this process may still run, unless the invocation is over.
    pub fn remaining_passes(&self) -> (remaining: Option<usize>)
        ensures
            match remaining {
                Some(remaining) => runner_of(self@) matches Some(runner) && runner.remaining_passes
                    == remaining,
                None => runner_of(self@) is None,
            },
    {
        match self {
            RunStep::ReadTab(step) => Some(step.runner.remaining_passes),
            RunStep::Sleep(step) => Some(step.runner.remaining_passes),
            RunStep::Probe(step) => Some(step.runner.remaining_passes),
            RunStep::Process(step) => Some(step.runner.remaining_passes),
            RunStep::Acquire(step) => Some(step.runner.remaining_passes),
            RunStep::TryLock(step) => Some(step.runner.remaining_passes),
            RunStep::Load(step) => Some(step.runner.remaining_passes),
            RunStep::Request(step) => Some(step.runner.remaining_passes),
            RunStep::Take(step) => Some(step.runner.remaining_passes),
            RunStep::Check(step) => Some(step.runner.remaining_passes),
            RunStep::Pass(step) => Some(step.runner.remaining_passes),
            RunStep::Emit(step) => Some(step.runner.remaining_passes),
            RunStep::Release(step) => Some(step.runner.remaining_passes),
            RunStep::Finished(_) => None,
        }
    }
}

impl ReadTabRun {
    /// The runner that waits.
    pub closed spec fn runner(&self) -> RunnerView {
        self.runner@
    }

    /// What it waits for.
    pub closed spec fn purpose(&self) -> ReadPurpose {
        self.reason@
    }

    /// The tab that is to be read.
    pub closed spec fn tab(&self) -> Seq<char> {
        self.tab_id@
    }

    /// The tab that is to be read.
    pub fn tab_id(&self) -> (tab_id: &str)
        ensures
            tab_id@ == self.tab(),
    {
        self.tab_id.as_str()
    }

    /// Continues once the tab was read, is gone, or could not be read.
    pub fn resume(self, latest: Result<Option<Tab>, String>, now: u64) -> (next: RunStep)
        ensures
            next@ == tab_read(self.runner(), self.tab(), self.purpose(), latest, now),
    {
        let mut runner = self.runner;
        match self.reason {
            ReadReason::Closing { deadline } => match wait_until_closed(
                self.tab_id.as_str(),
                deadline,
                now,
                CLOSE_RETRY_DELAY,
                latest,
            ) {
                WaitStep::Closed => let_in(runner),
                WaitStep::Wait(delay) => RunStep::Sleep(
                    SleepRun {
                        runner,
                        delay,
                        reason: WakeReason::Closing { tab_id: self.tab_id, deadline },
                    },
                ),
                WaitStep::Failed(error) => end(runner, Err(error)),
            },
            ReadReason::Owned { ownership } => match latest {
                Ok(latest) => {
                    if is_owned_rename_event(ownership.as_ref(), latest.as_ref()) {
                        runner.telemetry.set_terminal_outcome("owned_rename_noop");
                        return end(runner, Ok(()));
                    }
                    defer(runner)
                },
                Err(error) => end(runner, Err(error)),
            },
        }
    }
}

impl SleepRun {
    #[verifier::type_invariant]
    spec fn well_formed(self) -> bool {
        self.reason matches WakeReason::Settle { attempt, .. } ==> attempt
            <= program_settle_schedule().len()
    }

    /// The runner that waits.
    pub closed spec fn runner(&self) -> RunnerView {
        self.runner@
    }

    /// What it waits for.
    pub closed spec fn purpose(&self) -> WakePurpose {
        self.reason@
    }

    /// How long is to be waited.
    pub closed spec fn wait(&self) -> u64 {
        self.delay
    }

    /// How long is to be waited.
    pub fn delay(&self) -> (delay: u64)
        ensures
            delay == self.wait(),
    {
        self.delay
    }

    /// Continues once the time has passed.
    pub fn resume(self) -> (next: RunStep)
        ensures
            next@ == woken(self.runner(), self.purpose()),
    {
        proof {
            use_type_invariant(&self);
        }
        match self.reason {
            WakeReason::Closing { tab_id, deadline } => RunStep::ReadTab(
                ReadTabRun {
                    runner: self.runner,
                    tab_id,
                    reason: ReadReason::Closing { deadline },
                },
            ),
            WakeReason::Settle { pane_id, program, attempt } => RunStep::Process(
                ProcessRun { runner: self.runner, pane_id, program, attempt },
            ),
            WakeReason::Ready => take_lock(self.runner),
        }
    }
}

impl ProbeRun {
    /// The runner that waits.
    pub closed spec fn runner(&self) -> RunnerView {
        self.runner@
    }

    /// Continues once it was seen whether the lock is free.
    ///
    /// Settling must not hold the session lock: a newer prompt update needs to overtake a stale
    /// command after it has finished fast.
    pub fn resume(self, free: Result<bool, String>) -> (next: RunStep)
        ensures
            next@ == probed(self.runner(), free),
    {
        let mut runner = self.runner;
        match free {
            Ok(true) => {},
            Ok(false) => {
                runner.telemetry.set_terminal_outcome("lock_dropped");
                return end(runner, Ok(()));
            },
            Err(error) => {
                return end(runner, Err(error));
            },
        }
        if let Invocation::Preexec { pane_id, program: Some(program), .. } = &runner.config.invocation {
            let pane_id = pane_id.clone();
            let program = program.clone();
            return RunStep::Process(ProcessRun { runner, pane_id, program, attempt: 0 });
        }
        RunStep::Sleep(SleepRun { runner, delay: SAMPLE_DELAY, reason: WakeReason::Ready })
    }
}

impl ProcessRun {
    #[verifier::type_invariant]
    spec fn well_formed(self) -> bool {
        self.attempt <= program_settle_schedule().len()
    }

    /// The runner that waits.
    pub closed spec fn runner(&self) -> RunnerView {
        self.runner@
    }

    /// The pane whose processes are needed.
    pub closed spec fn pane(&self) -> Seq<char> {
        self.pane_id@
    }

    /// The program that was announced.
    pub closed spec fn announced(&self) -> Seq<char> {
        self.program@
    }

    /// How often the program was looked for before.
    pub closed spec fn looks(&self) -> nat {
        self.attempt as nat
    }

    /// The pane whose processes are needed.
    pub fn pane_id(&self) -> (pane_id: &str)
        ensures
            pane_id@ == self.pane(),
    {
        self.pane_id.as_str()
    }

    /// Continues once the processes were listed, or could not be.
    pub fn resume(self, observed: Result<PaneProcessInfo, String>) -> (next: RunStep)
        ensures
            next@ == looked(
                self.runner(),
                self.pane(),
                self.announced(),
                self.looks(),
                observed,
            ),
    {
        let delays = program_settle_delays();
        match settle_program(
            observed,
            self.program.as_str(),
            &self.runner.config.settings,
            &delays,
            self.attempt,
        ) {
            Some(delay) => RunStep::Sleep(
                SleepRun {
                    runner: self.runner,
                    delay,
                    reason: WakeReason::Settle {
                        pane_id: self.pane_id,
                        program: self.program,
                        attempt: self.attempt + 1,
                    },
                },
            ),
            None => take_lock(self.runner),
        }
    }
}

impl AcquireRun {
    /// The runner that waits.
    pub closed spec fn runner(&self) -> RunnerView {
        self.runner@
    }

    /// How long may be waited for the lock.
    pub closed spec fn bound(&self) -> u64 {
        self.timeout
    }

    /// How long may be waited for the lock.
    pub fn timeout(&self) -> (timeout: u64)
        ensures
            timeout == self.bound(),
    {
        self.timeout
    }

    /// Continues once the lock was taken, or was not.
    pub fn resume(self, outcome: LockOutcome, wait_ns: u64, now: u64) -> (next: RunStep)
        ensures
            next@ == acquired(self.runner(), outcome, wait_ns, now),
    {
        let mut runner = self.runner;
        match outcome {
            LockOutcome::Acquired => {
                runner.telemetry.record_lock_attempt("exact", "acquired", wait_ns);
                runner.locked = true;
                let invocation = runner.config.invocation.clone();
                run_coalesced_passes(runner, invocation, false, now)
            },
            LockOutcome::TimedOut(error) => {
                if timeout_is_benign(&runner.config.invocation) {
                    runner.telemetry.record_lock_attempt("exact", "timeout", wait_ns);
                    runner.telemetry.set_terminal_outcome("lock_dropped");
                    return end(runner, Ok(()));
                }
                runner.telemetry.record_lock_attempt("exact", "error", wait_ns);
                end(runner, Err(error))
            },
            LockOutcome::Failed(error) => {
                runner.telemetry.record_lock_attempt("exact", "error", wait_ns);
                end(runner, Err(error))
            },
        }
    }
}

impl TryLockRun {
    /// The runner that waits.
    pub closed spec fn runner(&self) -> RunnerView {
        self.runner@
    }

    /// What it waits for.
    pub closed spec fn purpose(&self) -> TryPurpose {
        self.reason@
    }

    /// Continues once the lock was taken, or was not.
    pub fn resume(self, taken: Result<bool, String>, wait_ns: u64, now: u64) -> (next: RunStep)
        ensures
            next@ == tried(self.runner(), self.purpose(), taken, wait_ns, now),
    {
        let mut runner = self.runner;
        let taken = match taken {
            Ok(taken) => taken,
            Err(error) => {
                return end(runner, Err(error));
            },
        };
        match self.reason {
            TryReason::First => {
                if taken {
                    runner.telemetry.record_lock_attempt("try", "acquired", wait_ns);
                    runner.locked = true;
                    let invocation = runner.config.invocation.clone();
                    return run_coalesced_passes(runner, invocation, false, now);
                }
                runner.telemetry.record_lock_attempt("try", "busy", wait_ns);
                if let Invocation::RenamedTab { tab_id, .. } = &runner.config.invocation {
                    let tab_id = tab_id.clone();
                    return RunStep::Load(LoadRun { runner, reason: LoadReason::Owned { tab_id } });
                }
                defer(runner)
            },
            TryReason::Queued => {
                if taken {
                    runner.locked = true;
                    return RunStep::Take(TakeRun { runner, reason: TakeReason::Queued });
                }
                runner.telemetry.record_lock_attempt("handoff", "busy", wait_ns);
                end(runner, Ok(()))
            },
            TryReason::Handoff => {
                if taken {
                    runner.locked = true;
                    return RunStep::Take(TakeRun { runner, reason: TakeReason::Handoff });
                }
                runner.telemetry.record_lock_attempt("post_release", "busy", wait_ns);
                runner.telemetry.record_handoff("busy");
                end(runner, Ok(()))
            },
        }
    }
}

impl LoadRun {
    /// The runner that waits.
    pub closed spec fn runner(&self) -> RunnerView {
        self.runner@
    }

    /// What it waits for.
    pub closed spec fn purpose(&self) -> LoadPurpose {
        self.reason@
    }

    /// Continues once the state was loaded, or could not be.
    pub fn resume(self, state: Result<State, String>) -> (next: RunStep)
        ensures
            next@ == loaded(self.runner(), self.purpose(), state),
    {
        let mut runner = self.runner;
        match self.reason {
            LoadReason::Owned { tab_id } => match state {
                Ok(state) => {
                    let ownership = match state.ownership(tab_id.as_str()) {
                        Some(ownership) => Some(ownership.clone()),
                        None => None,
                    };
                    RunStep::ReadTab(
                        ReadTabRun { runner, tab_id, reason: ReadReason::Owned { ownership } },
                    )
                },
                Err(error) => end(runner, Err(error)),
            },
            LoadReason::Pass { invocation, last } => match state {
                Ok(state) => {
                    let mut record = Telemetry::Off;
                    std::mem::swap(&mut runner.telemetry, &mut record);
                    let pass = run_pass(
                        runner.config.settings.clone(),
                        invocation,
                        runner.fallback_shell.clone(),
                        state,
                        record,
                    );
                    RunStep::Pass(PassRun { runner, pass, last })
                },
                Err(error) => fail(runner, error),
            },
        }
    }
}

impl RequestRun {
    /// The runner that waits.
    pub closed spec fn runner(&self) -> RunnerView {
        self.runner@
    }

    /// The invocation that is to be requested.
    pub closed spec fn requested(&self) -> Invocation {
        self.invocation
    }

    /// The invocation that is to be requested.
    pub fn invocation(&self) -> (invocation: &Invocation)
        ensures
            *invocation == self.requested(),
    {
        &self.invocation
    }

    /// Continues once the request was left behind, or could not be.
    pub fn resume(self, result: Result<(), String>) -> (next: RunStep)
        ensures
            next@ == requested(self.runner(), result),
    {
        let mut runner = self.runner;
        match result {
            Ok(_) => {
                runner.telemetry.record_rerun_requested();
                runner.telemetry.record_lock_attempt("queue", "published", 0);
                runner.telemetry.record_handoff("queued");
                runner.telemetry.set_terminal_outcome("queued");
                RunStep::Emit(EmitRun { runner, result: Ok(()), reason: EmitReason::Queued })
            },
            Err(error) => end(runner, Err(error)),
        }
    }
}

impl TakeRun {
    /// The runner that waits.
    pub closed spec fn runner(&self) -> RunnerView {
        self.runner@
    }

    /// What it waits for.
    pub closed spec fn purpose(&self) -> TakePurpose {
        self.reason@
    }

    /// Continues once a request was taken, none was there, or it could not be taken.
    pub fn resume(self, request: Result<Option<Invocation>, String>, wait_ns: u64, now: u64) -> (next:
        RunStep)
        ensures
            next@ == took(self.runner(), self.purpose(), request, wait_ns, now),
    {
        let mut runner = self.runner;
        match self.reason {
            TakeReason::Queued => match request {
                Ok(Some(invocation)) => {
                    runner.telemetry = telemetry_from_invocation(&runner.config, &invocation, now);
                    runner.telemetry.record_rerun_requested();
                    runner.telemetry.record_lock_attempt("handoff", "acquired", wait_ns);
                    runner.telemetry.record_handoff("deferred_consumed");
                    run_coalesced_passes(runner, invocation, false, now)
                },
                Ok(None) => {
                    let invocation = runner.config.invocation.clone();
                    run_coalesced_passes(runner, invocation, false, now)
                },
                Err(error) => end(runner, Err(error)),
            },
            TakeReason::Pass { last } => match request {
                Ok(Some(invocation)) => {
                    runner.telemetry.record_rerun_requested();
                    runner.telemetry.record_handoff("deferred_published");
                    RunStep::Emit(
                        EmitRun {
                            runner,
                            result: Ok(()),
                            reason: EmitReason::Pass { invocation, last },
                        },
                    )
                },
                Ok(None) => RunStep::Emit(
                    EmitRun { runner, result: Ok(()), reason: EmitReason::Done { last } },
                ),
                Err(error) => fail(runner, error),
            },
            TakeReason::Handoff => match request {
                Ok(Some(invocation)) => {
                    runner.telemetry = telemetry_from_invocation(&runner.config, &invocation, now);
                    runner.telemetry.record_rerun_requested();
                    runner.telemetry.record_lock_attempt("post_release", "acquired", wait_ns);
                    runner.telemetry.record_handoff("deferred_consumed");
                    run_coalesced_passes(runner, invocation, true, now)
                },
                Ok(None) => {
                    runner.telemetry.record_lock_attempt("post_release", "acquired", wait_ns);
                    runner.telemetry.record_handoff("empty");
                    end(runner, Ok(()))
                },
                Err(error) => fail(runner, error),
            },
        }
    }
}

impl CheckRun {
    /// The runner that waits.
    pub closed spec fn runner(&self) -> RunnerView {
        self.runner@
    }

    /// Continues once it was seen whether a request is waiting.
    pub fn resume(self, waiting: Result<bool, String>) -> (next: RunStep)
        ensures
            next@ == checked(self.runner(), waiting),
    {
        let mut runner = self.runner;
        match waiting {
            Ok(true) => RunStep::TryLock(TryLockRun { runner, reason: TryReason::Handoff }),
            Ok(false) => {
                runner.telemetry.record_handoff("not_needed");
                end(runner, Ok(()))
            },
            Err(error) => end(runner, Err(error)),
        }
    }
}

impl PassRun {
    /// The runner that waits.
    pub closed spec fn runner(&self) -> RunnerView {
        self.runner@
    }

    /// The first step of the pass.
    pub closed spec fn begun(&self) -> StepView {
        self.pass@
    }

    /// Whether no other batch of passes follows.
    pub closed spec fn final_batch(&self) -> bool {
        self.last
    }

    /// Hands out the first step of the pass.
    pub fn start(self) -> (started: (PassStep, RunningPass))
        ensures
            started.0@ == self.begun(),
            started.1.runner() == self.runner(),
            started.1.final_batch() == self.final_batch(),
    {
        (self.pass, RunningPass { runner: self.runner, last: self.last })
    }
}

impl RunningPass {
    /// The runner that waits.
    pub closed spec fn runner(&self) -> RunnerView {
        self.runner@
    }

    /// Whether no other batch of passes follows.
    pub closed spec fn final_batch(&self) -> bool {
        self.last
    }

    /// Continues once the pass is over.
    pub fn resume(self, finished: FinishedPass) -> (next: RunStep)
        ensures
            next@ == passed(
                self.runner(),
                self.final_batch(),
                finished.pass.telemetry@,
                finished.result,
            ),
    {
        let mut runner = self.runner;
        runner.telemetry = finished.pass.telemetry;
        match finished.result {
            Err(error) => fail(runner, error),
            Ok(_) => {
                if runner.remaining_passes == 0 {
                    return RunStep::Emit(
                        EmitRun {
                            runner,
                            result: Ok(()),
                            reason: EmitReason::Done { last: self.last },
                        },
                    );
                }
                RunStep::Take(TakeRun { runner, reason: TakeReason::Pass { last: self.last } })
            },
        }
    }
}

impl EmitRun {
    /// The runner that waits.
    pub closed spec fn runner(&self) -> RunnerView {
        self.runner@
    }

    /// What it waits for.
    pub closed spec fn purpose(&self) -> EmitPurpose {
        self.reason@
    }

    /// The result that the record is closed with.
    pub closed spec fn outcome(&self) -> Result<(), Seq<char>> {
        telemetry::result_view(self.result)
    }

    /// Hands out the closed record, if there is one, and continues.
    pub fn resume(self, now: u64) -> (emitted_next: (Option<DecisionRecord>, RunStep))
        ensures
            telemetry::optional_record(emitted_next.0) == telemetry::closed_record(
                self.runner().record,
                self.outcome(),
                now,
            ),
            emitted_next.1@ == emitted(self.runner(), self.purpose(), now),
    {
        let mut runner = self.runner;
        let record = runner.telemetry.finish_and_emit(&self.result, now);
        let next = match self.reason {
            EmitReason::End(result) => RunStep::Finished(result),
            EmitReason::Fail(error) => end(runner, Err(error)),
            EmitReason::Queued => RunStep::TryLock(
                TryLockRun { runner, reason: TryReason::Queued },
            ),
            EmitReason::Pass { invocation, last } => {
                runner.telemetry = telemetry_from_invocation(&runner.config, &invocation, now);
                runner.telemetry.record_rerun_requested();
                runner.telemetry.record_handoff("deferred_consumed");
                run_coalesced_passes(runner, invocation, last, now)
            },
            EmitReason::Done { last } => end_batch(runner, last),
        };
        (record, next)
    }
}

impl ReleaseRun {
    /// The runner that waits.
    pub closed spec fn runner(&self) -> RunnerView {
        self.runner@
    }

    /// What it waits for.
    pub closed spec fn purpose(&self) -> ReleasePurpose {
        self.reason@
    }

    /// Continues once the lock was released.
    pub fn resume(self) -> (next: RunStep)
        ensures
            next@ == released(self.runner(), self.purpose()),
    {
        match self.reason {
            ReleaseReason::Handoff => handoff_after_release(self.runner),
            ReleaseReason::End(result) => end(self.runner, result),
        }
    }
}

fn end(runner: Runner, result: Result<(), String>) -> (step: RunStep)
    ensures
        step@ == ended(runner@, telemetry::result_view(result)),
{
    let mut runner = runner;
    if runner.locked {
        runner.locked = false;
        return RunStep::Release(ReleaseRun { runner, reason: ReleaseReason::End(result) });
    }
    let reason = EmitReason::End(
        match &result {
            Ok(_) => Ok(()),
            Err(error) => Err(error.clone()),
        },
    );
    RunStep::Emit(EmitRun { runner, result, reason })
}

fn fail(runner: Runner, error: String) -> (step: RunStep)
    ensures
        step@ == failed(runner@, error@),
{
    let reason = EmitReason::Fail(error.clone());
    RunStep::Emit(EmitRun { runner, result: Err(error), reason })
}

fn let_in(runner: Runner) -> (step: RunStep)
    ensures
        step@ == admitted(runner@),
{
    if let Invocation::Preexec { .. } = runner.config.invocation {
        RunStep::Probe(ProbeRun { runner })
    } else {
        take_lock(runner)
    }
}

fn take_lock(runner: Runner) -> (step: RunStep)
    ensures
        step@ == ready(runner@),
{
    match exact_lock_timeout(&runner.config.invocation) {
        Some(timeout) => RunStep::Acquire(AcquireRun { runner, timeout }),
        None => RunStep::TryLock(TryLockRun { runner, reason: TryReason::First }),
    }
}

fn defer(runner: Runner) -> (step: RunStep)
    ensures
        step@ == requesting(runner@),
{
    let invocation = request_rerun(&runner.config.invocation);
    RunStep::Request(RequestRun { runner, invocation })
}

fn end_batch(runner: Runner, last: bool) -> (step: RunStep)
    ensures
        step@ == passes_done(runner@, last),
{
    if last {
        return end(runner, Ok(()));
    }
    let mut runner = runner;
    runner.locked = false;
    RunStep::Release(ReleaseRun { runner, reason: ReleaseReason::Handoff })
}

/// Runs a pass for an invocation, as long as this process may run one.
///
/// `last` says that no other batch of passes follows this one.
pub fn run_coalesced_passes(runner: Runner, invocation: Invocation, last: bool, now: u64) -> (step:
    RunStep)
    ensures
        step@ == coalesced(runner@, invocation, last, now),
{
    if runner.remaining_passes == 0 {
        return end_batch(runner, last);
    }
    let mut runner = runner;
    runner.remaining_passes = runner.remaining_passes - 1;
    if !runner.telemetry.is_recording() {
        runner.telemetry = telemetry_from_invocation(&runner.config, &invocation, now);
    }
    RunStep::Load(LoadRun { runner, reason: LoadReason::Pass { invocation, last } })
}

/// Looks for requests that were left behind while the lock was held.
pub fn handoff_after_release(runner: Runner) -> (step: RunStep)
    ensures
        step@ == handed_off(runner@),
{
    let mut runner = runner;
    if runner.remaining_passes == 0 {
        runner.telemetry.record_handoff("not_needed");
        return end(runner, Ok(()));
    }
    RunStep::Check(CheckRun { runner })
}

/// Runs one invocation, preserving exact operations and coalescing structural events.
pub fn run(config: Config, fallback_shell: String, now: u64) -> (step: RunStep)
    ensures
        step@ == begun(config, fallback_shell@, now),
{
    let telemetry = telemetry_from_config(&config, now);
    let runner = Runner {
        config,
        fallback_shell,
        remaining_passes: MAX_RECONCILIATION_PASSES,
        telemetry,
        locked: false,
    };
    if let Invocation::ClosedTab { tab_id: Some(tab_id), .. } = &runner.config.invocation {
        let tab_id = tab_id.clone();
        let deadline = if now <= u64::MAX - CLOSE_SETTLE_TIMEOUT {
            now + CLOSE_SETTLE_TIMEOUT
        } else {
            u64::MAX
        };
        return RunStep::ReadTab(
            ReadTabRun { runner, tab_id, reason: ReadReason::Closing { deadline } },
        );
    }
    let_in(runner)
}

} // verus!
