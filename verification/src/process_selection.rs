//! Process-group inspection and representative-process selection.

use vstd::prelude::*;

use crate::herdr::{PaneProcessInfo, ProcessInfo};
use crate::naming;
use crate::naming::{NamingPolicy, PolicyView};
use crate::sequences;
use crate::text;

verus! {

/// Whether two program names come to the same basename.
pub open spec fn same_program(first: Seq<char>, second: Seq<char>) -> bool {
    naming::normalized(first) == naming::normalized(second)
}

/// Whether a process names a program among its arguments, its first argument aside.
pub open spec fn launches(process: ProcessInfo, program: Seq<char>) -> bool {
    process.argv is Some && exists|i: int|
        1 <= i < process.argv->0@.len() && same_program(program, (#[trigger] process.argv->0@[i])@)
}

/// Whether the foreground process group runs a program, or its leader is about to launch it.
pub open spec fn group_runs(info: PaneProcessInfo, program: Seq<char>) -> bool {
    match info.leader_process() {
        Some(leader) => launches(leader, program) || exists|i: int|
            0 <= i < info.foreground_processes@.len() && same_program(
                program,
                (#[trigger] info.foreground_processes@[i]).program_name(),
            ),
        None => false,
    }
}

/// Whether a process runs the preferred program and is not ignored.
pub open spec fn preferred(policy: PolicyView, program: Seq<char>) -> spec_fn(ProcessInfo) -> bool {
    |process: ProcessInfo|
        same_program(program, process.program_name()) && !policy.ignored_program(
            process.program_name(),
        )
}

/// Whether a process was launched by the leader and is not ignored.
pub open spec fn launched(policy: PolicyView, leader: ProcessInfo) -> spec_fn(ProcessInfo) -> bool {
    |process: ProcessInfo|
        process.pid != leader.pid && launches(leader, process.program_name())
            && !policy.ignored_program(process.program_name())
}

/// Whether a process beside the leader is neither a shell nor ignored.
pub open spec fn usable(policy: PolicyView, leader: ProcessInfo) -> spec_fn(ProcessInfo) -> bool {
    |process: ProcessInfo|
        process.pid != leader.pid && !policy.shell_program(process.program_name())
            && !policy.ignored_program(process.program_name())
}

/// Whether a process is ignored by the policy.
pub open spec fn ignored(policy: PolicyView) -> spec_fn(ProcessInfo) -> bool {
    |process: ProcessInfo| policy.ignored_program(process.program_name())
}

/// The process that stands for a pane, with the reason it was chosen for.
pub open spec fn representative(
    info: PaneProcessInfo,
    policy: PolicyView,
    preferred_program: Option<Seq<char>>,
) -> Option<(ProcessInfo, Seq<char>)> {
    let processes = info.foreground_processes@;
    match info.leader_process() {
        None => None,
        Some(leader) => {
            let program = leader.program_name();
            if preferred_program is Some && sequences::first(
                processes,
                preferred(policy, preferred_program->0),
            ) is Some {
                Some(
                    (
                        sequences::first(processes, preferred(policy, preferred_program->0))->0,
                        "preferred"@,
                    ),
                )
            } else if sequences::first(processes, launched(policy, leader)) is Some {
                Some((sequences::first(processes, launched(policy, leader))->0, "launched"@))
            } else if !policy.shell_program(program) && !policy.ignored_program(program) {
                Some((leader, "leader"@))
            } else if sequences::first(processes, usable(policy, leader)) is Some {
                Some((sequences::first(processes, usable(policy, leader))->0, "foreground"@))
            } else if policy.shell_program(program) {
                Some((leader, "shell_leader_fallback"@))
            } else {
                None
            }
        },
    }
}

/// The ignored processes of a pane, in their order.
pub open spec fn ignored_processes(info: PaneProcessInfo, policy: PolicyView) -> Seq<ProcessInfo> {
    info.foreground_processes@.filter(ignored(policy))
}

fn launches_program(process: &ProcessInfo, program: &str, policy: &NamingPolicy) -> (result: bool)
    ensures
        result == launches(*process, program@),
{
    if let Some(arguments) = &process.argv {
        let mut index: usize = 1;
        while index < arguments.len()
            invariant
                1 <= index,
                process.argv == Some(*arguments),
                forall|i: int|
                    1 <= i < index && i < arguments@.len() ==> !same_program(
                        program@,
                        (#[trigger] arguments@[i])@,
                    ),
            decreases arguments@.len() - index,
        {
            if policy.same_program(program, arguments[index].as_str()) {
                assert(same_program(program@, process.argv->0@[index as int]@));
                return true;
            }
            index = index + 1;
        }
    }
    false
}

/// Checks whether the foreground process group runs a program or is about to launch it.
pub fn process_group_matches_program(
    process_info: &PaneProcessInfo,
    program: &str,
    policy: &NamingPolicy,
) -> (result: bool)
    ensures
        result == group_runs(*process_info, program@),
{
    let leader = match process_info.leader() {
        Some(leader) => leader,
        None => {
            return false;
        },
    };
    let mut index: usize = 0;
    while index < process_info.foreground_processes.len()
        invariant
            index <= process_info.foreground_processes@.len(),
            process_info.leader_process() == Some(*leader),
            forall|i: int|
                0 <= i < index ==> !same_program(
                    program@,
                    (#[trigger] process_info.foreground_processes@[i]).program_name(),
                ),
        decreases process_info.foreground_processes@.len() - index,
    {
        if policy.same_program(program, process_info.foreground_processes[index].program()) {
            assert(same_program(
                program@,
                process_info.foreground_processes@[index as int].program_name(),
            ));
            return true;
        }
        index = index + 1;
    }
    launches_program(leader, program, policy)
}

/// The representative process of a pane, why it was chosen, and which processes were passed over.
pub struct RepresentativeSelection<'a> {
    pub process: &'a ProcessInfo,
    pub reason: &'static str,
    pub ignored_processes: Vec<&'a ProcessInfo>,
}

impl RepresentativeSelection<'_> {
    /// The processes that were passed over, as far as they were collected.
    pub open spec fn passed_over(&self) -> Seq<ProcessInfo> {
        self.ignored_processes@.map_values(|process: &ProcessInfo| *process)
    }
}

/// Selects the process that stands for a pane.
pub fn representative_process<'a>(
    process_info: &'a PaneProcessInfo,
    policy: &NamingPolicy,
    preferred_program: Option<&str>,
) -> (process: Option<&'a ProcessInfo>)
    ensures
        match process {
            Some(process) => representative(
                *process_info,
                policy@,
                text::borrowed_text(preferred_program),
            ) matches Some((chosen, _)) && chosen == *process,
            None => representative(
                *process_info,
                policy@,
                text::borrowed_text(preferred_program),
            ) is None,
        },
{
    match representative_process_with_trace(process_info, policy, preferred_program) {
        Some(selection) => Some(selection.process),
        None => None,
    }
}

/// Selects the process that stands for a pane and collects the ignored processes.
pub fn representative_process_with_trace<'a>(
    process_info: &'a PaneProcessInfo,
    policy: &NamingPolicy,
    preferred_program: Option<&str>,
) -> (selection: Option<RepresentativeSelection<'a>>)
    ensures
        selected(selection, *process_info, policy@, text::borrowed_text(preferred_program), true),
{
    representative_process_with_trace_mode(process_info, policy, preferred_program, true)
}

/// Whether a selection is the representative of a pane, with the ignored processes if collected.
pub open spec fn selected(
    selection: Option<RepresentativeSelection>,
    info: PaneProcessInfo,
    policy: PolicyView,
    preferred_program: Option<Seq<char>>,
    collected: bool,
) -> bool {
    match selection {
        Some(selection) => {
            &&& representative(info, policy, preferred_program) == Some(
                (*selection.process, selection.reason@),
            )
            &&& selection.passed_over() == if collected {
                ignored_processes(info, policy)
            } else {
                Seq::empty()
            }
        },
        None => representative(info, policy, preferred_program) is None,
    }
}

fn collect_ignored<'a>(process_info: &'a PaneProcessInfo, policy: &NamingPolicy) -> (collected: Vec<
    &'a ProcessInfo,
>)
    ensures
        collected@.map_values(|process: &ProcessInfo| *process) == ignored_processes(
            *process_info,
            policy@,
        ),
{
    let ghost processes = process_info.foreground_processes@;
    let mut collected: Vec<&'a ProcessInfo> = Vec::new();
    let mut index: usize = 0;
    assert(processes.take(0).filter(ignored(policy@)) == Seq::<ProcessInfo>::empty()) by {
        reveal(Seq::filter);
    }
    while index < process_info.foreground_processes.len()
        invariant
            index <= processes.len(),
            processes == process_info.foreground_processes@,
            collected@.map_values(|process: &ProcessInfo| *process) == processes.take(
                index as int,
            ).filter(ignored(policy@)),
        decreases processes.len() - index,
    {
        let process = &process_info.foreground_processes[index];
        proof {
            sequences::lemma_filter_step(processes, index as int, ignored(policy@));
        }
        let ghost before = collected@;
        if policy.is_ignored_program(process.program()) {
            collected.push(process);
            assert(collected@.map_values(|process: &ProcessInfo| *process) == before.map_values(
                |process: &ProcessInfo| *process,
            ).push(*process));
        }
        index = index + 1;
    }
    assert(processes.take(processes.len() as int) == processes);
    collected
}

fn find_preferred<'a>(
    process_info: &'a PaneProcessInfo,
    policy: &NamingPolicy,
    program: &str,
) -> (found: Option<&'a ProcessInfo>)
    ensures
        match found {
            Some(found) => sequences::first(
                process_info.foreground_processes@,
                preferred(policy@, program@),
            ) == Some(*found),
            None => sequences::first(
                process_info.foreground_processes@,
                preferred(policy@, program@),
            ) is None,
        },
{
    let ghost processes = process_info.foreground_processes@;
    let mut index: usize = 0;
    assert(processes.skip(0) == processes);
    while index < process_info.foreground_processes.len()
        invariant
            index <= processes.len(),
            processes == process_info.foreground_processes@,
            sequences::first(processes.skip(index as int), preferred(policy@, program@))
                == sequences::first(processes, preferred(policy@, program@)),
        decreases processes.len() - index,
    {
        let process = &process_info.foreground_processes[index];
        proof {
            sequences::lemma_first_step(processes, index as int, preferred(policy@, program@));
        }
        if policy.same_program(program, process.program()) && !policy.is_ignored_program(
            process.program(),
        ) {
            return Some(process);
        }
        index = index + 1;
    }
    None
}

fn find_launched<'a>(
    process_info: &'a PaneProcessInfo,
    policy: &NamingPolicy,
    leader: &ProcessInfo,
) -> (found: Option<&'a ProcessInfo>)
    ensures
        match found {
            Some(found) => sequences::first(
                process_info.foreground_processes@,
                launched(policy@, *leader),
            ) == Some(*found),
            None => sequences::first(
                process_info.foreground_processes@,
                launched(policy@, *leader),
            ) is None,
        },
{
    let ghost processes = process_info.foreground_processes@;
    let mut index: usize = 0;
    assert(processes.skip(0) == processes);
    while index < process_info.foreground_processes.len()
        invariant
            index <= processes.len(),
            processes == process_info.foreground_processes@,
            sequences::first(processes.skip(index as int), launched(policy@, *leader))
                == sequences::first(processes, launched(policy@, *leader)),
        decreases processes.len() - index,
    {
        let process = &process_info.foreground_processes[index];
        proof {
            sequences::lemma_first_step(processes, index as int, launched(policy@, *leader));
        }
        if process.pid != leader.pid && launches_program(leader, process.program(), policy)
            && !policy.is_ignored_program(process.program()) {
            return Some(process);
        }
        index = index + 1;
    }
    None
}

fn find_usable<'a>(
    process_info: &'a PaneProcessInfo,
    policy: &NamingPolicy,
    leader: &ProcessInfo,
) -> (found: Option<&'a ProcessInfo>)
    ensures
        match found {
            Some(found) => sequences::first(
                process_info.foreground_processes@,
                usable(policy@, *leader),
            ) == Some(*found),
            None => sequences::first(
                process_info.foreground_processes@,
                usable(policy@, *leader),
            ) is None,
        },
{
    let ghost processes = process_info.foreground_processes@;
    let mut index: usize = 0;
    assert(processes.skip(0) == processes);
    while index < process_info.foreground_processes.len()
        invariant
            index <= processes.len(),
            processes == process_info.foreground_processes@,
            sequences::first(processes.skip(index as int), usable(policy@, *leader))
                == sequences::first(processes, usable(policy@, *leader)),
        decreases processes.len() - index,
    {
        let process = &process_info.foreground_processes[index];
        proof {
            sequences::lemma_first_step(processes, index as int, usable(policy@, *leader));
        }
        if process.pid != leader.pid && !policy.is_shell_program(process.program())
            && !policy.is_ignored_program(process.program()) {
            return Some(process);
        }
        index = index + 1;
    }
    None
}

/// Selects the process that stands for a pane.
///
/// The ignored processes are collected only where they are asked for.
pub fn representative_process_with_trace_mode<'a>(
    process_info: &'a PaneProcessInfo,
    policy: &NamingPolicy,
    preferred_program: Option<&str>,
    collect_ignored_processes: bool,
) -> (selection: Option<RepresentativeSelection<'a>>)
    ensures
        selected(
            selection,
            *process_info,
            policy@,
            text::borrowed_text(preferred_program),
            collect_ignored_processes,
        ),
{
    let leader = match process_info.leader() {
        Some(leader) => leader,
        None => {
            return None;
        },
    };
    let ignored_processes = if collect_ignored_processes {
        collect_ignored(process_info, policy)
    } else {
        let empty: Vec<&'a ProcessInfo> = Vec::new();
        assert(empty@.map_values(|process: &ProcessInfo| *process) == Seq::<ProcessInfo>::empty());
        empty
    };
    if let Some(program) = preferred_program {
        if let Some(process) = find_preferred(process_info, policy, program) {
            return Some(
                RepresentativeSelection { process, reason: "preferred", ignored_processes },
            );
        }
    }
    if let Some(process) = find_launched(process_info, policy, leader) {
        return Some(RepresentativeSelection { process, reason: "launched", ignored_processes });
    }
    if !policy.is_shell_program(leader.program()) && !policy.is_ignored_program(leader.program()) {
        return Some(
            RepresentativeSelection { process: leader, reason: "leader", ignored_processes },
        );
    }
    if let Some(process) = find_usable(process_info, policy, leader) {
        return Some(RepresentativeSelection { process, reason: "foreground", ignored_processes });
    }
    if policy.is_shell_program(leader.program()) {
        return Some(
            RepresentativeSelection {
                process: leader,
                reason: "shell_leader_fallback",
                ignored_processes,
            },
        );
    }
    None
}

/// An ignored program never stands for a pane, unless it also is the pane's shell.
pub proof fn ignored_processes_do_not_represent(
    info: PaneProcessInfo,
    policy: PolicyView,
    preferred_program: Option<Seq<char>>,
)
    ensures
        match representative(info, policy, preferred_program) {
            Some((process, _)) => policy.ignored_program(process.program_name())
                ==> policy.shell_program(process.program_name()) && info.leader_process() == Some(
                process,
            ),
            None => true,
        },
{
    let processes = info.foreground_processes@;
    if let Some(leader) = info.leader_process() {
        if let Some(program) = preferred_program {
            sequences::lemma_first(processes, preferred(policy, program));
        }
        sequences::lemma_first(processes, launched(policy, leader));
        sequences::lemma_first(processes, usable(policy, leader));
    }
}

/// What stands for a pane is one of its foreground processes.
pub proof fn representatives_are_foreground_processes(
    info: PaneProcessInfo,
    policy: PolicyView,
    preferred_program: Option<Seq<char>>,
)
    ensures
        match representative(info, policy, preferred_program) {
            Some((process, _)) => info.foreground_processes@.contains(process),
            None => true,
        },
{
    let processes = info.foreground_processes@;
    if let Some(leader) = info.leader_process() {
        let group = info.foreground_process_group_id->0;
        sequences::lemma_first(processes, |process: ProcessInfo| process.pid == group);
        if let Some(program) = preferred_program {
            sequences::lemma_first(processes, preferred(policy, program));
        }
        sequences::lemma_first(processes, launched(policy, leader));
        sequences::lemma_first(processes, usable(policy, leader));
    }
}

} // verus!
