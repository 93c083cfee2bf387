use std::collections::VecDeque;

use herdr_labels::config::{Config, Invocation};
use herdr_labels::herdr::{PaneProcessInfo, ProcessInfo, SessionSnapshot};
use herdr_labels::lock::{acquire_with_timeout, request_rerun, LockStep};
use herdr_labels::numbering::Tab;
use herdr_labels::reconciliation::{FinishedPass, PassStep};
use herdr_labels::runner::{
    elapsed_ns, exact_lock_timeout, handoff_after_release, is_owned_rename_event,
    program_settle_delays, run, run_coalesced_passes, settle_program, timeout_is_benign,
    wait_until_closed, LockOutcome, RunStep, Runner, WaitStep, ACTION_LOCK_TIMEOUT,
    CLOSE_SETTLE_TIMEOUT, INIT_LOCK_TIMEOUT, MAX_RECONCILIATION_PASSES, SAMPLE_DELAY,
    SHELL_LOCK_TIMEOUT,
};
use herdr_labels::settings::Settings;
use herdr_labels::state::{PersistedState, State, StateError, TabOwnership};
use herdr_labels::telemetry::{DecisionRecord, Telemetry};

const SECOND: u64 = 1_000_000_000;

/// Everything around one invocation: the clock, the lock, the requests, the state and the session.
struct World {
    now: u64,
    held_elsewhere: bool,
    held: bool,
    requests: VecDeque<Invocation>,
    stored: Option<PersistedState>,
    tabs: VecDeque<Option<Tab>>,
    fallback_tab: Option<Tab>,
    processes: VecDeque<Result<PaneProcessInfo, String>>,
    request_during_first_snapshot: Option<Invocation>,
    request_during_every_snapshot: bool,
    snapshots: usize,
    tab_reads: usize,
    observations: usize,
    emitted: Vec<DecisionRecord>,
    left_behind: usize,
    remaining_passes: usize,
    lock_taken_after_probe: bool,
}

impl World {
    fn new() -> Self {
        World {
            now: 10 * SECOND,
            held_elsewhere: false,
            held: false,
            requests: VecDeque::new(),
            stored: None,
            tabs: VecDeque::new(),
            fallback_tab: None,
            processes: VecDeque::new(),
            request_during_first_snapshot: None,
            request_during_every_snapshot: false,
            snapshots: 0,
            tab_reads: 0,
            observations: 0,
            emitted: Vec::new(),
            left_behind: 0,
            remaining_passes: MAX_RECONCILIATION_PASSES,
            lock_taken_after_probe: false,
        }
    }

    fn load(&self) -> Result<State, String> {
        State::load(self.stored.as_ref().map(|stored| PersistedState {
            version: stored.version,
            suspended: stored.suspended,
            tabs: stored.tabs.clone(),
            pane_tabs: stored.pane_tabs.clone(),
        }))
        .map_err(StateError::into_text)
    }

    fn set_ownership(&mut self, ownership: TabOwnership) {
        let mut state = self.load().unwrap();
        state.set_ownership("w1:t1", ownership);
        self.stored = Some(state.persisted());
    }

    fn get_tab(&mut self) -> Result<Option<Tab>, String> {
        self.tab_reads += 1;
        Ok(self
            .tabs
            .pop_front()
            .unwrap_or_else(|| self.fallback_tab.clone()))
    }

    fn pane_process_info(&mut self) -> Result<PaneProcessInfo, String> {
        self.observations += 1;
        self.processes
            .pop_front()
            .unwrap_or_else(|| Ok(process_info("zsh")))
    }

    fn snapshot(&mut self) -> Result<SessionSnapshot, String> {
        assert!(self.held, "a session is read only under the lock");
        self.snapshots += 1;
        if self.snapshots == 1 {
            if let Some(request) = self.request_during_first_snapshot.take() {
                self.requests.push_back(request_rerun(&request));
            }
        }
        if self.request_during_every_snapshot {
            self.requests.push_back(request_rerun(&Invocation::Full));
        }
        Ok(SessionSnapshot {
            focused_pane_id: None,
            tabs: Vec::new(),
            panes: Vec::new(),
        })
    }

    fn pass(&mut self, mut step: PassStep) -> FinishedPass {
        loop {
            step = match step {
                PassStep::Persist(step) => {
                    self.stored = Some(step.state().persisted());
                    step.resume(Ok(()))
                }
                PassStep::Snapshot(step) => step.resume(self.snapshot()),
                PassStep::ClearSnapshot(step) => step.resume(self.snapshot()),
                PassStep::Finished(finished) => return finished,
                _ => panic!("an empty session has no tab to work on"),
            };
        }
    }

    fn try_lock(&mut self) -> bool {
        assert!(!self.held);
        self.held = !self.held_elsewhere && !self.lock_taken_after_probe;
        self.held
    }

    fn drive(&mut self, mut step: RunStep) -> Result<(), String> {
        loop {
            if let Some(remaining) = step.remaining_passes() {
                self.remaining_passes = remaining;
            }
            step = match step {
                RunStep::ReadTab(step) => {
                    let latest = self.get_tab();
                    step.resume(latest, self.now)
                }
                RunStep::Sleep(step) => {
                    assert!(!self.held, "nothing is waited for under the lock");
                    self.now += step.delay();
                    step.resume()
                }
                RunStep::Probe(step) => step.resume(Ok(!self.held_elsewhere)),
                RunStep::Process(step) => {
                    let observed = self.pane_process_info();
                    step.resume(observed)
                }
                RunStep::Acquire(step) => {
                    let started = self.now;
                    let deadline = started + step.timeout();
                    let outcome = loop {
                        let taken = self.try_lock();
                        match acquire_with_timeout(Ok(taken), deadline, self.now) {
                            LockStep::Acquired => break LockOutcome::Acquired,
                            LockStep::Wait(delay) => self.now += delay,
                            LockStep::TimedOut(error) => break LockOutcome::TimedOut(error),
                            LockStep::Failed(error) => break LockOutcome::Failed(error),
                        }
                    };
                    step.resume(outcome, self.now - started, self.now)
                }
                RunStep::TryLock(step) => {
                    let taken = self.try_lock();
                    step.resume(Ok(taken), 0, self.now)
                }
                RunStep::Load(step) => step.resume(self.load()),
                RunStep::Request(step) => {
                    self.left_behind += 1;
                    self.requests.push_back(request_rerun(step.invocation()));
                    step.resume(Ok(()))
                }
                RunStep::Take(step) => {
                    assert!(self.held);
                    let request = self.requests.pop_front();
                    step.resume(Ok(request), 0, self.now)
                }
                RunStep::Check(step) => step.resume(Ok(!self.requests.is_empty())),
                RunStep::Pass(step) => {
                    let (pass, running) = step.start();
                    let finished = self.pass(pass);
                    running.resume(finished)
                }
                RunStep::Emit(step) => {
                    let (record, next) = step.resume(self.now);
                    self.emitted.extend(record);
                    next
                }
                RunStep::Release(step) => {
                    assert!(self.held);
                    self.held = false;
                    step.resume()
                }
                RunStep::Finished(result) => {
                    assert!(!self.held);
                    return result;
                }
            };
        }
    }

    fn run(&mut self, invocation: Invocation) -> Result<(), String> {
        let step = run(config(invocation), "zsh".into(), self.now);
        self.drive(step)
    }
}

fn tab(label: &str) -> Tab {
    Tab {
        tab_id: "w1:t1".into(),
        workspace_id: "w1".into(),
        label: label.into(),
    }
}

fn process_info(program: &str) -> PaneProcessInfo {
    PaneProcessInfo {
        foreground_process_group_id: Some(7),
        foreground_processes: vec![ProcessInfo {
            pid: 7,
            name: program.into(),
            argv0: Some(program.into()),
            argv: None,
        }],
    }
}

fn config(invocation: Invocation) -> Config {
    Config {
        socket_path: b"unused.sock".to_vec(),
        state_dir: b"unused-state".to_vec(),
        settings: Settings::default(),
        invocation,
        event: None,
        event_workspace_id: None,
        event_tab_id: None,
        event_pane_id: None,
    }
}

fn runner(remaining_passes: usize, locked: bool) -> Runner {
    Runner {
        config: config(Invocation::Full),
        fallback_shell: "zsh".into(),
        remaining_passes,
        telemetry: Telemetry::Off,
        locked,
    }
}

fn renamed() -> Invocation {
    Invocation::RenamedTab {
        workspace_id: "w1".into(),
        tab_id: "w1:t1".into(),
    }
}

fn command(program: Option<&str>) -> Invocation {
    Invocation::Preexec {
        pane_id: "w1:t1:pane".into(),
        shell: "zsh".into(),
        program: program.map(str::to_owned),
    }
}

#[test]
fn contended_own_rename_is_not_promoted_to_a_full_pass() {
    let mut state = State::load(None).unwrap();
    state.set_ownership(
        "w1:t1",
        TabOwnership::PendingRename {
            observed: "[1] zsh".into(),
            desired: "[1] nvim".into(),
            desired_base: "nvim".into(),
            previous_base: Some("zsh".into()),
            previous_rendered: Some("[1] zsh".into()),
            previous_reset_pending: false,
        },
    );
    let current = tab("[1] nvim");

    assert!(is_owned_rename_event(state.ownership("w1:t1"), Some(&current)));
    state.set_ownership(
        "w1:t1",
        TabOwnership::Owned {
            last_base: "nvim".into(),
            last_rendered: "[1] nvim".into(),
        },
    );
    assert!(is_owned_rename_event(state.ownership("w1:t1"), Some(&current)));
    state.set_ownership("w1:t1", TabOwnership::Manual);
    assert!(!is_owned_rename_event(state.ownership("w1:t1"), Some(&current)));
    assert!(is_owned_rename_event(state.ownership("w1:t1"), None));
}

#[test]
fn a_contended_own_rename_leaves_no_request_behind() {
    let mut world = World::new();
    world.held_elsewhere = true;
    world.set_ownership(TabOwnership::Owned {
        last_base: "nvim".into(),
        last_rendered: "[1] nvim".into(),
    });
    world.fallback_tab = Some(tab("[1] nvim"));
    world.run(renamed()).unwrap();
    assert_eq!(world.left_behind, 0);

    world.fallback_tab = Some(tab("by hand"));
    world.run(renamed()).unwrap();
    assert_eq!(world.left_behind, 1);
    assert_eq!(world.requests, [Invocation::Full]);
    assert_eq!(world.snapshots, 0);
}

#[test]
fn coalescing_consumes_a_rerun_requested_during_the_first_pass() {
    let mut world = World::new();
    world.request_during_first_snapshot = Some(Invocation::Full);
    world.held = true;

    let step = run_coalesced_passes(
        runner(MAX_RECONCILIATION_PASSES, true),
        Invocation::Workspace("w1".into()),
        true,
        world.now,
    );
    world.drive(step).unwrap();

    assert_eq!(world.snapshots, 2);
    assert_eq!(world.remaining_passes, MAX_RECONCILIATION_PASSES - 2);
    assert!(world.requests.is_empty());
}

#[test]
fn continuous_reruns_stop_at_the_process_pass_budget() {
    let mut world = World::new();
    world.request_during_every_snapshot = true;
    world.held = true;

    let step = run_coalesced_passes(
        runner(MAX_RECONCILIATION_PASSES, true),
        Invocation::Full,
        true,
        world.now,
    );
    world.drive(step).unwrap();

    assert_eq!(world.snapshots, MAX_RECONCILIATION_PASSES);
    assert_eq!(world.remaining_passes, 0);
    assert!(!world.requests.is_empty());
}

#[test]
fn continuous_reruns_stop_a_whole_invocation() {
    let mut world = World::new();
    world.request_during_every_snapshot = true;

    world.run(Invocation::Full).unwrap();

    assert_eq!(world.snapshots, MAX_RECONCILIATION_PASSES);
    assert_eq!(world.remaining_passes, 0);
    assert!(!world.requests.is_empty());
}

#[test]
fn handoff_uses_only_the_remaining_process_pass_budget() {
    let mut world = World::new();
    world.request_during_every_snapshot = true;
    world.requests.push_back(Invocation::Full);

    let step = handoff_after_release(runner(2, false));
    world.drive(step).unwrap();

    assert_eq!(world.snapshots, 2);
    assert_eq!(world.remaining_passes, 0);
    assert!(!world.requests.is_empty());
}

#[test]
fn invocation_classes_have_distinct_bounded_lock_policies() {
    let init = Invocation::Init {
        pane_id: "pane".into(),
        shell: "zsh".into(),
        shell_pid: 7,
    };
    let shell = Invocation::Precmd {
        pane_id: "pane".into(),
        shell: "zsh".into(),
        shell_pid: 7,
    };
    let focus = Invocation::Tab {
        workspace_id: "w1".into(),
        tab_id: "w1:t1".into(),
    };
    let action = Invocation::Clear;

    assert_eq!(exact_lock_timeout(&init), Some(INIT_LOCK_TIMEOUT));
    assert_eq!(exact_lock_timeout(&shell), Some(SHELL_LOCK_TIMEOUT));
    assert_eq!(exact_lock_timeout(&focus), Some(SHELL_LOCK_TIMEOUT));
    assert_eq!(exact_lock_timeout(&action), Some(ACTION_LOCK_TIMEOUT));
    assert!(timeout_is_benign(&init));
    assert!(timeout_is_benign(&shell));
    assert!(timeout_is_benign(&focus));
    assert!(!timeout_is_benign(&action));
    assert!(exact_lock_timeout(&Invocation::Full).is_none());
}

#[test]
fn contended_init_times_out_without_requesting_a_generic_rerun() {
    let mut world = World::new();
    world.held_elsewhere = true;
    let started = world.now;

    world
        .run(Invocation::Init {
            pane_id: "w1:t1:pane".into(),
            shell: "zsh".into(),
            shell_pid: 7,
        })
        .unwrap();

    assert!(world.requests.is_empty());
    assert_eq!(world.now - started, INIT_LOCK_TIMEOUT);
    assert!(INIT_LOCK_TIMEOUT < SECOND);
}

#[test]
fn contended_shell_update_exits_within_its_short_admission_bound() {
    let mut world = World::new();
    world.held_elsewhere = true;
    let started = world.now;

    world
        .run(Invocation::Precmd {
            pane_id: "w1:t1:pane".into(),
            shell: "zsh".into(),
            shell_pid: 7,
        })
        .unwrap();

    assert!(world.now - started < SECOND);
    assert!(world.requests.is_empty());
}

#[test]
fn contended_focus_refresh_is_not_downgraded_to_a_generic_rerun() {
    let mut world = World::new();
    world.held_elsewhere = true;
    let started = world.now;

    world
        .run(Invocation::Tab {
            workspace_id: "w1".into(),
            tab_id: "w1:t1".into(),
        })
        .unwrap();

    assert!(world.now - started < SECOND);
    assert!(world.requests.is_empty());
}

#[test]
fn contended_preexec_skips_settling_before_it_touches_the_socket() {
    let mut world = World::new();
    world.held_elsewhere = true;
    let started = world.now;

    world.run(command(Some("nvim"))).unwrap();

    assert!(world.now - started < SHELL_LOCK_TIMEOUT);
    assert_eq!(world.observations, 0);
    assert!(world.requests.is_empty());
}

#[test]
fn close_settling_stops_when_the_tab_disappears() {
    let mut tabs = VecDeque::from([Some(tab("work")), None]);
    let mut now = 0;
    let deadline = 1_000_000;
    loop {
        let latest = tabs.pop_front().unwrap();
        match wait_until_closed("w1:t1", deadline, now, 0, Ok(latest)) {
            WaitStep::Closed => break,
            WaitStep::Wait(delay) => now += delay,
            WaitStep::Failed(error) => panic!("{error}"),
        }
    }

    assert!(tabs.is_empty());
}

#[test]
fn close_settling_stops_when_its_deadline_is_exhausted() {
    let step = wait_until_closed("w1:t1", 5, 5, 0, Ok(Some(tab("work"))));

    assert_eq!(
        step,
        WaitStep::Failed("tab w1:t1 remained visible after its close event".into())
    );
    assert_eq!(
        wait_until_closed("w1:t1", 9, 5, 0, Err("socket closed".into())),
        WaitStep::Failed("socket closed".into())
    );
}

#[test]
fn a_closed_tab_is_waited_for_before_the_pass() {
    let closed = || Invocation::ClosedTab {
        workspace_id: Some("w1".into()),
        tab_id: Some("w1:t1".into()),
    };
    let mut world = World::new();
    world.tabs = VecDeque::from([Some(tab("work")), Some(tab("work")), None]);
    let started = world.now;
    world.run(closed()).unwrap();
    assert_eq!(world.tab_reads, 3);
    assert_eq!(world.now - started, 100_000_000);
    assert_eq!(world.snapshots, 1);

    let mut stuck = World::new();
    stuck.fallback_tab = Some(tab("work"));
    let started = stuck.now;
    let error = stuck.run(closed()).unwrap_err();
    assert!(error.contains("remained visible"));
    assert_eq!(stuck.now - started, 3 * SECOND);
    assert_eq!(stuck.snapshots, 0);
}

fn settle(
    processes: &mut VecDeque<Result<PaneProcessInfo, String>>,
    fallback: Result<PaneProcessInfo, String>,
    delays: &Vec<u64>,
) -> usize {
    let mut observations: usize = 0;
    loop {
        let observed = processes.pop_front().unwrap_or_else(|| fallback.clone());
        observations += 1;
        if settle_program(observed, "bv", &Settings::default(), delays, observations - 1).is_none() {
            return observations;
        }
    }
}

#[test]
fn program_settling_stops_as_soon_as_the_program_appears() {
    let mut processes = VecDeque::from([Ok(process_info("zsh")), Ok(process_info("bv"))]);

    assert_eq!(settle(&mut processes, Ok(process_info("zsh")), &vec![0, 0]), 2);
}

#[test]
fn program_settling_has_a_strict_nonzero_production_bound() {
    let delays = program_settle_delays();
    assert_eq!(delays.len(), 5);
    assert!(delays.iter().all(|delay| *delay > 0));
    assert!(delays.iter().sum::<u64>() < SECOND);

    assert_eq!(
        settle(&mut VecDeque::new(), Ok(process_info("zsh")), &vec![0, 0, 0]),
        4
    );
}

#[test]
fn program_settling_does_not_retry_api_errors() {
    assert_eq!(
        settle(
            &mut VecDeque::new(),
            Err("process API unavailable".into()),
            &vec![0, 0]
        ),
        1
    );
}

#[test]
fn commands_settle_before_the_lock_is_taken() {
    let mut world = World::new();
    let started = world.now;
    world.run(command(Some("bv"))).unwrap();
    assert_eq!(world.observations, 6);
    assert_eq!(world.now - started, program_settle_delays().iter().sum::<u64>());
    assert_eq!(world.snapshots, 1);

    let mut sampled = World::new();
    let started = sampled.now;
    sampled.run(command(None)).unwrap();
    assert_eq!(sampled.observations, 0);
    assert_eq!(sampled.now - started, SAMPLE_DELAY);
    assert_eq!(sampled.snapshots, 1);
}

#[test]
fn waits_end_within_the_time_of_their_invocation() {
    let invocations = [
        (
            Invocation::ClosedTab {
                workspace_id: None,
                tab_id: Some("w1:t1".into()),
            },
            CLOSE_SETTLE_TIMEOUT,
        ),
        (command(Some("bv")), 525_000_000 + SHELL_LOCK_TIMEOUT),
        (command(None), SAMPLE_DELAY + SHELL_LOCK_TIMEOUT),
        (Invocation::Clear, ACTION_LOCK_TIMEOUT),
        (Invocation::Full, 0),
    ];
    for (invocation, longest) in invocations {
        let mut world = World::new();
        world.fallback_tab = Some(tab("work"));
        world.lock_taken_after_probe = true;
        let started = world.now;
        let _ = world.run(invocation);
        assert_eq!(world.now - started, longest);
        assert!(longest <= CLOSE_SETTLE_TIMEOUT);
    }
}

#[test]
fn contended_events_are_left_to_the_holder() {
    let mut world = World::new();
    world.held_elsewhere = true;
    world.run(Invocation::Workspace("w1".into())).unwrap();
    assert_eq!(world.requests, [Invocation::Full]);
    assert_eq!(world.snapshots, 0);
}

#[test]
fn contended_actions_report_the_timeout() {
    let mut world = World::new();
    world.held_elsewhere = true;
    let started = world.now;
    assert_eq!(
        world.run(Invocation::Clear).unwrap_err(),
        "timed out waiting for another reconciliation"
    );
    assert_eq!(world.now - started, ACTION_LOCK_TIMEOUT);
    assert!(world.requests.is_empty());
}

#[test]
fn requests_that_arrive_after_the_release_are_run() {
    let mut world = World::new();
    world.held = true;
    let step = run_coalesced_passes(runner(3, true), Invocation::Full, false, world.now);
    world.drive(step).unwrap();
    assert_eq!(world.snapshots, 1);

    world.requests.push_back(Invocation::Full);
    let step = handoff_after_release(runner(3, false));
    world.drive(step).unwrap();
    assert_eq!(world.snapshots, 2);
    assert!(world.requests.is_empty());

    world.requests.push_back(Invocation::Full);
    let step = handoff_after_release(runner(0, false));
    world.drive(step).unwrap();
    assert_eq!(world.snapshots, 2);
    assert_eq!(world.requests.len(), 1);
}

#[test]
fn one_record_is_emitted_for_each_pass() {
    let mut world = World::new();
    world.request_during_first_snapshot = Some(Invocation::ClosedPane {
        workspace_id: "w2".into(),
        pane_id: "w2:p1".into(),
    });
    let mut config = config(Invocation::ClosedPane {
        workspace_id: "w1".into(),
        pane_id: "w1:p1".into(),
    });
    config.settings.diagnostic_telemetry = true;
    config.event = Some("pane.closed".into());
    let step = run(config, "zsh".into(), world.now);
    world.drive(step).unwrap();

    assert_eq!(world.emitted.len(), 2);
    assert_eq!(world.emitted[0].event_pane_id.as_deref(), Some("w1:p1"));
    assert_eq!(world.emitted[0].rerun.handoff, "deferred_published");
    assert_eq!(world.emitted[0].terminal_outcome, "pane_mapping_missing");
    assert_eq!(world.emitted[1].event_pane_id.as_deref(), Some("w2:p1"));
    assert_eq!(world.emitted[1].rerun.handoff, "deferred_consumed");
    assert_eq!(world.emitted[0].lock.attempts[0].phase, "try");
    assert_eq!(world.emitted[0].lock.attempts[0].result, "acquired");
}

#[test]
fn an_unreadable_state_ends_the_invocation() {
    let mut world = World::new();
    world.stored = Some(PersistedState {
        version: 7,
        suspended: false,
        tabs: Vec::new(),
        pane_tabs: Vec::new(),
    });
    assert_eq!(
        world.run(Invocation::Full).unwrap_err(),
        "unsupported state version 7"
    );
    assert!(!world.held);
    assert_eq!(world.snapshots, 0);
}

#[test]
fn elapsed_time_saturates() {
    assert_eq!(elapsed_ns(5, 12), 7);
    assert_eq!(elapsed_ns(12, 5), 0);
    assert_eq!(elapsed_ns(0, u128::MAX), u64::MAX);
}
