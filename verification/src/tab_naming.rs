//! Process-derived label computation for one tab.

use vstd::prelude::*;

use crate::config::Invocation;
use crate::herdr::{PaneProcessInfo, SessionSnapshot, SessionTab};
use crate::naming::{NamingPolicy, ObservedProcess, PolicyView};
use crate::process_selection;
use crate::process_selection::{
    process_group_matches_program, representative_process_with_trace_mode,
};
use crate::tab_decision;
use crate::tab_decision::{TabDecisionView, TabTelemetry};
use crate::tab_trace::{
    trace_naming_pane, trace_process_error, trace_process_info, trace_rejection,
    trace_representative, trace_selection,
};
use crate::targeting;
use crate::targeting::{find_pane, naming_pane, pane_targets_tab};
use crate::text;
use crate::text::borrow_text;

verus! {

/// Where the name of a tab comes from.
pub enum NamingSource {
    /// A shell hook announced a program in one of the tab's panes.
    Program { pane_id: Seq<char>, shell: Seq<char>, program: Seq<char> },
    /// A shell hook announced its prompt in one of the tab's panes.
    Shell { pane_id: Seq<char>, shell: Seq<char>, shell_pid: u32 },
    /// The tab's naming pane is observed; Herdr may have recognized an agent in it.
    Ambient { pane_id: Seq<char>, agent: Option<Seq<char>> },
    /// No pane may name the tab.
    Nowhere,
}

impl NamingSource {
    /// The pane whose processes are observed.
    pub open spec fn pane(self) -> Option<Seq<char>> {
        match self {
            NamingSource::Program { pane_id, .. } => Some(pane_id),
            NamingSource::Shell { pane_id, .. } => Some(pane_id),
            NamingSource::Ambient { pane_id, .. } => Some(pane_id),
            NamingSource::Nowhere => None,
        }
    }
}

/// The source of a tab's name where no shell hook speaks for the tab.
pub open spec fn ambient_source(snapshot: SessionSnapshot, tab: SessionTab) -> NamingSource {
    match targeting::naming_pane_of(snapshot, tab) {
        Some(pane_id) => NamingSource::Ambient {
            pane_id,
            agent: match targeting::pane_by_id(snapshot, pane_id) {
                Some(pane) => text::optional_text(pane.agent),
                None => None,
            },
        },
        None => NamingSource::Nowhere,
    }
}

/// The source of a tab's name for an invocation.
pub open spec fn naming_source(
    snapshot: SessionSnapshot,
    tab: SessionTab,
    invocation: Invocation,
) -> NamingSource {
    match invocation {
        Invocation::Preexec { pane_id, shell, program: Some(program) } => if targeting::targets_tab(
            snapshot,
            pane_id@,
            tab.tab.tab_id@,
        ) {
            NamingSource::Program { pane_id: pane_id@, shell: shell@, program: program@ }
        } else {
            ambient_source(snapshot, tab)
        },
        Invocation::Init { pane_id, shell, shell_pid } => if targeting::targets_tab(
            snapshot,
            pane_id@,
            tab.tab.tab_id@,
        ) {
            NamingSource::Shell { pane_id: pane_id@, shell: shell@, shell_pid }
        } else {
            ambient_source(snapshot, tab)
        },
        Invocation::Precmd { pane_id, shell, shell_pid } => if targeting::targets_tab(
            snapshot,
            pane_id@,
            tab.tab.tab_id@,
        ) {
            NamingSource::Shell { pane_id: pane_id@, shell: shell@, shell_pid }
        } else {
            ambient_source(snapshot, tab)
        },
        _ => ambient_source(snapshot, tab),
    }
}

/// A decision with the pane that the name comes from, or why there is none.
pub open spec fn with_source(
    decision: Option<TabDecisionView>,
    source: NamingSource,
    pane_count: usize,
) -> Option<TabDecisionView> {
    match source {
        NamingSource::Program { pane_id, .. } => tab_decision::with_naming_pane(
            decision,
            pane_id,
            "event_pane"@,
        ),
        NamingSource::Shell { pane_id, .. } => tab_decision::with_naming_pane(
            decision,
            pane_id,
            "event_pane"@,
        ),
        NamingSource::Ambient { pane_id, .. } => tab_decision::with_naming_pane(
            decision,
            pane_id,
            "snapshot_selection"@,
        ),
        NamingSource::Nowhere => tab_decision::with_rejection(
            decision,
            if pane_count > 1 {
                "background_multi_pane"@
            } else {
                "no_naming_pane"@
            },
        ),
    }
}

/// The label of an observation; a hidden one is shown as nothing.
pub open spec fn shown(label: Option<Seq<char>>) -> Seq<char> {
    match label {
        Some(label) => label,
        None => Seq::empty(),
    }
}

/// Whether the process that represents an observed pane may name its tab.
pub open spec fn nameable(policy: PolicyView, program: Seq<char>, shell_only: bool) -> bool {
    (shell_only ==> policy.shell_program(program)) && !policy.ignored_program(program)
}

/// The name that the processes of a pane give a tab.
///
/// With `shell_only`, an observed pane names its tab only after a shell.
pub open spec fn named(
    source: NamingSource,
    policy: PolicyView,
    fallback_shell: Seq<char>,
    info: PaneProcessInfo,
    shell_only: bool,
) -> Option<Seq<char>> {
    match source {
        NamingSource::Program { shell, program, .. } => if process_selection::group_runs(
            info,
            program,
        ) && (process_selection::representative(info, policy, None) is Some
            || policy.ignored_program(program)) {
            Some(shown(policy.program_label(shell, program, None)))
        } else {
            None
        },
        NamingSource::Shell { shell, shell_pid, .. } => if info.foreground_process_group_id == Some(
            shell_pid,
        ) {
            Some(shown(policy.label(shell, None)))
        } else {
            None
        },
        NamingSource::Ambient { agent, .. } => match process_selection::representative(
            info,
            policy,
            agent,
        ) {
            Some((process, _)) => if nameable(policy, process.program_name(), shell_only) {
                Some(
                    shown(policy.program_label(fallback_shell, process.program_name(), None)),
                )
            } else {
                None
            },
            None => None,
        },
        NamingSource::Nowhere => None,
    }
}

/// A decision with what the processes of a pane showed.
pub open spec fn with_observation(
    decision: Option<TabDecisionView>,
    source: NamingSource,
    policy: PolicyView,
    info: PaneProcessInfo,
    shell_only: bool,
) -> Option<TabDecisionView> {
    match source {
        NamingSource::Program { pane_id, program, .. } => {
            let observed = tab_decision::with_process_info(decision, pane_id, info);
            if !process_selection::group_runs(info, program) {
                tab_decision::with_rejection(observed, "event_program_not_foreground"@)
            } else {
                match process_selection::representative(info, policy, None) {
                    Some((process, reason)) => tab_decision::with_selection(
                        observed,
                        process,
                        reason,
                        info,
                        policy,
                    ),
                    None => if policy.ignored_program(program) {
                        observed
                    } else {
                        tab_decision::with_rejection(observed, "no_representative_process"@)
                    },
                }
            }
        },
        NamingSource::Shell { pane_id, shell_pid, .. } => {
            let observed = tab_decision::with_process_info(decision, pane_id, info);
            let led = match info.leader_process() {
                Some(leader) => tab_decision::with_representative(observed, leader),
                None => observed,
            };
            if info.foreground_process_group_id == Some(shell_pid) {
                led
            } else {
                tab_decision::with_rejection(led, "shell_pid_mismatch"@)
            }
        },
        NamingSource::Ambient { pane_id, agent } => {
            let observed = tab_decision::with_process_info(decision, pane_id, info);
            match process_selection::representative(info, policy, agent) {
                Some((process, reason)) => {
                    let selected = tab_decision::with_selection(
                        observed,
                        process,
                        reason,
                        info,
                        policy,
                    );
                    if shell_only && !policy.shell_program(process.program_name()) {
                        tab_decision::with_rejection(selected, "representative_not_shell"@)
                    } else if policy.ignored_program(process.program_name()) {
                        tab_decision::with_rejection(selected, "ignored_process"@)
                    } else {
                        selected
                    }
                },
                None => tab_decision::with_rejection(observed, "no_representative_process"@),
            }
        },
        NamingSource::Nowhere => decision,
    }
}

/// The name that an attempt to observe a pane gives a tab.
pub open spec fn computed(
    source: NamingSource,
    policy: PolicyView,
    fallback_shell: Seq<char>,
    observed: Result<PaneProcessInfo, String>,
    shell_only: bool,
) -> Option<Seq<char>> {
    match observed {
        Ok(info) => named(source, policy, fallback_shell, info, shell_only),
        Err(_) => None,
    }
}

/// A decision with what came of an attempt to observe a pane.
pub open spec fn with_observed(
    decision: Option<TabDecisionView>,
    source: NamingSource,
    policy: PolicyView,
    observed: Result<PaneProcessInfo, String>,
    shell_only: bool,
) -> Option<TabDecisionView> {
    match observed {
        Ok(info) => with_observation(decision, source, policy, info, shell_only),
        Err(error) => if source is Nowhere {
            decision
        } else {
            tab_decision::with_process_error(decision, error@)
        },
    }
}

/// Selects the pane whose processes name a tab.
pub fn naming_query(
    snapshot: &SessionSnapshot,
    tab: &SessionTab,
    invocation: &Invocation,
    telemetry: &mut TabTelemetry,
) -> (pane_id: Option<String>)
    ensures
        text::optional_text(pane_id) == naming_source(*snapshot, *tab, *invocation).pane(),
        final(telemetry)@ == with_source(
            old(telemetry)@,
            naming_source(*snapshot, *tab, *invocation),
            tab.pane_count,
        ),
{
    let event_pane = match invocation {
        Invocation::Preexec { pane_id, program: Some(_), .. } => Some(pane_id),
        Invocation::Init { pane_id, .. } => Some(pane_id),
        Invocation::Precmd { pane_id, .. } => Some(pane_id),
        _ => None,
    };
    if let Some(pane_id) = event_pane {
        if pane_targets_tab(snapshot, pane_id.as_str(), tab.tab.tab_id.as_str()) {
            trace_naming_pane(telemetry, pane_id.as_str(), "event_pane");
            return Some(pane_id.clone());
        }
    }
    match naming_pane(snapshot, tab) {
        Some(pane_id) => {
            trace_naming_pane(telemetry, pane_id, "snapshot_selection");
            Some(pane_id.to_owned())
        },
        None => {
            trace_rejection(
                telemetry,
                if tab.pane_count > 1 {
                    "background_multi_pane"
                } else {
                    "no_naming_pane"
                },
            );
            None
        },
    }
}

fn unwrap_label(label: Option<String>) -> (shown_label: String)
    ensures
        shown_label@ == shown(text::optional_text(label)),
{
    match label {
        Some(label) => label,
        None => String::new(),
    }
}

fn program_label(policy: &NamingPolicy, shell: &str, program: &str) -> (label: String)
    ensures
        label@ == shown(policy@.program_label(shell@, program@, None)),
{
    unwrap_label(
        policy.label(
            shell,
            Some(&ObservedProcess { program: program.to_owned(), command_line: None }),
        ),
    )
}

/// Derives the name of a tab from the processes of its naming pane.
///
/// `observed` is what Herdr answered when it was asked for the processes of the pane that
/// [`naming_query`] selects.
pub fn computed_name(
    snapshot: &SessionSnapshot,
    tab: &SessionTab,
    invocation: &Invocation,
    policy: &NamingPolicy,
    fallback_shell: &str,
    observed: Result<PaneProcessInfo, String>,
    telemetry: &mut TabTelemetry,
) -> (name: Option<String>)
    ensures
        text::optional_text(name) == computed(
            naming_source(*snapshot, *tab, *invocation),
            policy@,
            fallback_shell@,
            observed,
            false,
        ),
        final(telemetry)@ == with_observed(
            old(telemetry)@,
            naming_source(*snapshot, *tab, *invocation),
            policy@,
            observed,
            false,
        ),
{
    computed_name_with_trace(
        snapshot,
        tab,
        invocation,
        policy,
        fallback_shell,
        false,
        observed,
        telemetry,
    )
}

/// Derives the name of a tab from the processes of its naming pane.
///
/// With `ambient_shell_only`, a pane that no shell hook speaks for names its tab only after a
/// shell. `observed` is what Herdr answered when it was asked for the processes of the pane that
/// [`naming_query`] selects.
pub fn computed_name_with_trace(
    snapshot: &SessionSnapshot,
    tab: &SessionTab,
    invocation: &Invocation,
    policy: &NamingPolicy,
    fallback_shell: &str,
    ambient_shell_only: bool,
    observed: Result<PaneProcessInfo, String>,
    telemetry: &mut TabTelemetry,
) -> (name: Option<String>)
    ensures
        text::optional_text(name) == computed(
            naming_source(*snapshot, *tab, *invocation),
            policy@,
            fallback_shell@,
            observed,
            ambient_shell_only,
        ),
        final(telemetry)@ == with_observed(
            old(telemetry)@,
            naming_source(*snapshot, *tab, *invocation),
            policy@,
            observed,
            ambient_shell_only,
        ),
{
    let event_pane = match invocation {
        Invocation::Preexec { pane_id, program: Some(_), .. } => Some(pane_id),
        Invocation::Init { pane_id, .. } => Some(pane_id),
        Invocation::Precmd { pane_id, .. } => Some(pane_id),
        _ => None,
    };
    if let Some(pane_id) = event_pane {
        if pane_targets_tab(snapshot, pane_id.as_str(), tab.tab.tab_id.as_str()) {
            let process_info = match observed {
                Ok(process_info) => process_info,
                Err(error) => {
                    trace_process_error(telemetry, error);
                    return None;
                },
            };
            trace_process_info(telemetry, pane_id.as_str(), &process_info);
            return match invocation {
                Invocation::Preexec { shell, program: Some(program), .. } => program_name(
                    policy,
                    shell.as_str(),
                    program.as_str(),
                    &process_info,
                    telemetry,
                ),
                Invocation::Init { shell, shell_pid, .. } => shell_name(
                    policy,
                    shell.as_str(),
                    *shell_pid,
                    &process_info,
                    telemetry,
                ),
                Invocation::Precmd { shell, shell_pid, .. } => shell_name(
                    policy,
                    shell.as_str(),
                    *shell_pid,
                    &process_info,
                    telemetry,
                ),
                _ => None,
            };
        }
    }
    let pane_id = match naming_pane(snapshot, tab) {
        Some(pane_id) => pane_id,
        None => {
            return None;
        },
    };
    let process_info = match observed {
        Ok(process_info) => process_info,
        Err(error) => {
            trace_process_error(telemetry, error);
            return None;
        },
    };
    trace_process_info(telemetry, pane_id, &process_info);
    let preferred_program = match find_pane(snapshot, pane_id) {
        Some(pane) => borrow_text(&pane.agent),
        None => None,
    };
    ambient_name(
        policy,
        fallback_shell,
        ambient_shell_only,
        preferred_program,
        &process_info,
        telemetry,
    )
}

fn program_name(
    policy: &NamingPolicy,
    shell: &str,
    program: &str,
    process_info: &PaneProcessInfo,
    telemetry: &mut TabTelemetry,
) -> (name: Option<String>)
    ensures
        forall|pane_id: Seq<char>, fallback_shell: Seq<char>, shell_only: bool|
            text::optional_text(name) == #[trigger] named(
                NamingSource::Program { pane_id, shell: shell@, program: program@ },
                policy@,
                fallback_shell,
                *process_info,
                shell_only,
            ),
        forall|decision: Option<TabDecisionView>, pane_id: Seq<char>, shell_only: bool|
            tab_decision::with_process_info(decision, pane_id, *process_info) == old(telemetry)@
                ==> final(telemetry)@ == #[trigger] with_observation(
                decision,
                NamingSource::Program { pane_id, shell: shell@, program: program@ },
                policy@,
                *process_info,
                shell_only,
            ),
{
    if !process_group_matches_program(process_info, program, policy) {
        trace_rejection(telemetry, "event_program_not_foreground");
        return None;
    }
    match representative_process_with_trace_mode(
        process_info,
        policy,
        None,
        telemetry.is_recording(),
    ) {
        Some(selection) => {
            trace_selection(telemetry, &selection);
        },
        None => {
            if !policy.is_ignored_program(program) {
                trace_rejection(telemetry, "no_representative_process");
                return None;
            }
        },
    }
    Some(program_label(policy, shell, program))
}

fn shell_name(
    policy: &NamingPolicy,
    shell: &str,
    shell_pid: u32,
    process_info: &PaneProcessInfo,
    telemetry: &mut TabTelemetry,
) -> (name: Option<String>)
    ensures
        forall|pane_id: Seq<char>, fallback_shell: Seq<char>, shell_only: bool|
            text::optional_text(name) == #[trigger] named(
                NamingSource::Shell { pane_id, shell: shell@, shell_pid },
                policy@,
                fallback_shell,
                *process_info,
                shell_only,
            ),
        forall|decision: Option<TabDecisionView>, pane_id: Seq<char>, shell_only: bool|
            tab_decision::with_process_info(decision, pane_id, *process_info) == old(telemetry)@
                ==> final(telemetry)@ == #[trigger] with_observation(
                decision,
                NamingSource::Shell { pane_id, shell: shell@, shell_pid },
                policy@,
                *process_info,
                shell_only,
            ),
{
    if let Some(leader) = process_info.leader() {
        trace_representative(telemetry, leader);
    }
    let at_prompt = match process_info.foreground_process_group_id {
        Some(group) => group == shell_pid,
        None => false,
    };
    if !at_prompt {
        trace_rejection(telemetry, "shell_pid_mismatch");
        return None;
    }
    Some(unwrap_label(policy.label(shell, None)))
}

fn ambient_name(
    policy: &NamingPolicy,
    fallback_shell: &str,
    shell_only: bool,
    preferred_program: Option<&str>,
    process_info: &PaneProcessInfo,
    telemetry: &mut TabTelemetry,
) -> (name: Option<String>)
    ensures
        forall|pane_id: Seq<char>|
            text::optional_text(name) == #[trigger] named(
                NamingSource::Ambient { pane_id, agent: text::borrowed_text(preferred_program) },
                policy@,
                fallback_shell@,
                *process_info,
                shell_only,
            ),
        forall|decision: Option<TabDecisionView>, pane_id: Seq<char>|
            tab_decision::with_process_info(decision, pane_id, *process_info) == old(telemetry)@
                ==> final(telemetry)@ == #[trigger] with_observation(
                decision,
                NamingSource::Ambient { pane_id, agent: text::borrowed_text(preferred_program) },
                policy@,
                *process_info,
                shell_only,
            ),
{
    let selection = match representative_process_with_trace_mode(
        process_info,
        policy,
        preferred_program,
        telemetry.is_recording(),
    ) {
        Some(selection) => selection,
        None => {
            trace_rejection(telemetry, "no_representative_process");
            return None;
        },
    };
    trace_selection(telemetry, &selection);
    let program = selection.process.program();
    if shell_only && !policy.is_shell_program(program) {
        trace_rejection(telemetry, "representative_not_shell");
        return None;
    }
    if policy.is_ignored_program(program) {
        trace_rejection(telemetry, "ignored_process");
        return None;
    }
    Some(program_label(policy, fallback_shell, program))
}

/// Naming after shells only gives the usual name or none, and none unless a shell represents the
/// pane.
pub proof fn shell_only_naming_is_a_restriction(
    pane_id: Seq<char>,
    agent: Option<Seq<char>>,
    policy: PolicyView,
    fallback_shell: Seq<char>,
    info: PaneProcessInfo,
)
    ensures
        ({
            let source = NamingSource::Ambient { pane_id, agent };
            let restricted = named(source, policy, fallback_shell, info, true);
            restricted is Some ==> {
                &&& restricted == named(source, policy, fallback_shell, info, false)
                &&& process_selection::representative(info, policy, agent) matches Some(
                    (process, _),
                ) && policy.shell_program(process.program_name())
            }
        }),
{
}

} // verus!
