//! Which process stands for a pane, in terms of the processes that are listed for it.

use vstd::prelude::*;

use crate::herdr::{PaneProcessInfo, ProcessInfo};
use crate::naming;
use crate::naming::PolicyView;
use crate::process_selection;
use crate::process_selection::RepresentativeSelection;
use crate::sequences;

verus! {

/// The basename that a process goes by: its first word that is not empty, else its executable.
pub open spec fn basename(process: ProcessInfo) -> Seq<char> {
    let invoked = if process.argv0 is Some && process.argv0->0@ != Seq::<char>::empty() {
        process.argv0->0@
    } else if process.argv is Some && process.argv->0@.len() > 0 && process.argv->0@[0]@
        != Seq::<char>::empty() {
        process.argv->0@[0]@
    } else {
        process.name@
    };
    naming::normalized(invoked)
}

/// Whether a process at an index leads the foreground process group: it is the first with its id.
pub open spec fn leads(info: PaneProcessInfo, index: int) -> bool {
    &&& 0 <= index < info.foreground_processes@.len()
    &&& info.foreground_process_group_id == Some(info.foreground_processes@[index].pid)
    &&& forall|i: int|
        0 <= i < index ==> (#[trigger] info.foreground_processes@[i]).pid
            != info.foreground_processes@[index].pid
}

/// Whether a program is named in an argument of a process behind its first one.
pub open spec fn argument_names(process: ProcessInfo, name: Seq<char>) -> bool {
    process.argv is Some && exists|i: int|
        1 <= i < process.argv->0@.len() && naming::normalized((#[trigger] process.argv->0@[i])@)
            == name
}

/// Whether a process goes by a name that a policy does not ignore.
pub open spec fn counts(policy: PolicyView, process: ProcessInfo) -> bool {
    !policy.ignored_processes.contains(basename(process))
}

/// Whether a process was asked for, by its name, before all others.
pub open spec fn asked_for(
    policy: PolicyView,
    preferred_program: Option<Seq<char>>,
    process: ProcessInfo,
) -> bool {
    preferred_program is Some && counts(policy, process) && basename(process) == naming::normalized(
        preferred_program->0,
    )
}

/// Whether a process beside the leader was launched by it under its name.
pub open spec fn launched_by(
    policy: PolicyView,
    leader: ProcessInfo,
    process: ProcessInfo,
) -> bool {
    process.pid != leader.pid && counts(policy, process) && argument_names(
        leader,
        basename(process),
    )
}

/// Whether a process beside the leader is a program of its own: neither a shell nor ignored.
pub open spec fn stands_alone(
    policy: PolicyView,
    leader: ProcessInfo,
    process: ProcessInfo,
) -> bool {
    process.pid != leader.pid && counts(policy, process) && !policy.shells.contains(
        basename(process),
    )
}

proof fn lemma_program(process: ProcessInfo)
    ensures
        naming::normalized(process.program_name()) == basename(process),
{
    if process.argv0 is Some {
        assert(process.argv0->0@.len() == 0 ==> process.argv0->0@ =~= Seq::empty());
    }
    if process.argv is Some && process.argv->0@.len() > 0 {
        assert(process.argv->0@[0]@.len() == 0 ==> process.argv->0@[0]@ =~= Seq::empty());
    }
}

proof fn lemma_launches(process: ProcessInfo, program: Seq<char>)
    ensures
        process_selection::launches(process, program) <==> argument_names(
            process,
            naming::normalized(program),
        ),
{
}

proof fn lemma_leader(info: PaneProcessInfo, leader: int)
    requires
        leads(info, leader),
    ensures
        info.leader_process() == Some(info.foreground_processes@[leader]),
{
    let group = info.foreground_process_group_id->0;
    sequences::lemma_first_at(
        info.foreground_processes@,
        |process: ProcessInfo| process.pid == group,
        leader,
    );
}

proof fn lemma_predicates(
    policy: PolicyView,
    preferred_program: Option<Seq<char>>,
    leader: ProcessInfo,
    process: ProcessInfo,
)
    ensures
        preferred_program is Some ==> process_selection::preferred(policy, preferred_program->0)(
            process,
        ) == asked_for(policy, preferred_program, process),
        process_selection::launched(policy, leader)(process) == launched_by(
            policy,
            leader,
            process,
        ),
        process_selection::usable(policy, leader)(process) == stands_alone(
            policy,
            leader,
            process,
        ),
{
    lemma_program(process);
    lemma_launches(leader, process.program_name());
}

proof fn lemma_all_predicates(
    policy: PolicyView,
    preferred_program: Option<Seq<char>>,
    leader: ProcessInfo,
)
    ensures
        preferred_program is Some ==> forall|process: ProcessInfo|
            #[trigger] process_selection::preferred(policy, preferred_program->0)(process)
                == asked_for(policy, preferred_program, process),
        forall|process: ProcessInfo|
            #[trigger] process_selection::launched(policy, leader)(process) == launched_by(
                policy,
                leader,
                process,
            ),
        forall|process: ProcessInfo|
            #[trigger] process_selection::usable(policy, leader)(process) == stands_alone(
                policy,
                leader,
                process,
            ),
{
    assert forall|process: ProcessInfo|
        #[trigger] process_selection::launched(policy, leader)(process) == launched_by(
            policy,
            leader,
            process,
        ) by {
        lemma_predicates(policy, preferred_program, leader, process);
    }
    assert forall|process: ProcessInfo|
        #[trigger] process_selection::usable(policy, leader)(process) == stands_alone(
            policy,
            leader,
            process,
        ) by {
        lemma_predicates(policy, preferred_program, leader, process);
    }
    if preferred_program is Some {
        assert forall|process: ProcessInfo|
            #[trigger] process_selection::preferred(policy, preferred_program->0)(process)
                == asked_for(policy, preferred_program, process) by {
            lemma_predicates(policy, preferred_program, leader, process);
        }
    }
}

/// Whether no process was asked for by name.
pub open spec fn none_asked_for(
    info: PaneProcessInfo,
    policy: PolicyView,
    preferred_program: Option<Seq<char>>,
) -> bool {
    forall|i: int|
        0 <= i < info.foreground_processes@.len() ==> !asked_for(
            policy,
            preferred_program,
            #[trigger] info.foreground_processes@[i],
        )
}

/// Whether no process was launched by the leader under its name.
pub open spec fn none_launched(info: PaneProcessInfo, policy: PolicyView, leader: int) -> bool {
    forall|i: int|
        0 <= i < info.foreground_processes@.len() ==> !launched_by(
            policy,
            info.foreground_processes@[leader],
            #[trigger] info.foreground_processes@[i],
        )
}

/// Whether no process beside the leader is a program of its own.
pub open spec fn none_alone(info: PaneProcessInfo, policy: PolicyView, leader: int) -> bool {
    forall|i: int|
        0 <= i < info.foreground_processes@.len() ==> !stands_alone(
            policy,
            info.foreground_processes@[leader],
            #[trigger] info.foreground_processes@[i],
        )
}

/// Without a leader of the foreground process group no process stands for a pane.
pub proof fn leaderless_panes_have_no_representative(
    info: PaneProcessInfo,
    policy: PolicyView,
    preferred_program: Option<Seq<char>>,
    program: Seq<char>,
)
    requires
        forall|i: int|
            0 <= i < info.foreground_processes@.len() ==> info.foreground_process_group_id != Some(
                (#[trigger] info.foreground_processes@[i]).pid,
            ),
    ensures
        process_selection::representative(info, policy, preferred_program) is None,
        !process_selection::group_runs(info, program),
{
    if info.foreground_process_group_id is Some {
        let group = info.foreground_process_group_id->0;
        sequences::lemma_none(info.foreground_processes@, |process: ProcessInfo| process.pid == group);
    }
}

/// The first process that was asked for by name stands for its pane, before all others.
pub proof fn preferred_processes_come_first(
    info: PaneProcessInfo,
    policy: PolicyView,
    preferred_program: Option<Seq<char>>,
    leader: int,
    chosen: int,
)
    requires
        leads(info, leader),
        0 <= chosen < info.foreground_processes@.len(),
        asked_for(policy, preferred_program, info.foreground_processes@[chosen]),
        forall|i: int|
            0 <= i < chosen ==> !asked_for(
                policy,
                preferred_program,
                #[trigger] info.foreground_processes@[i],
            ),
    ensures
        process_selection::representative(info, policy, preferred_program) == Some(
            (info.foreground_processes@[chosen], "preferred"@),
        ),
{
    let processes = info.foreground_processes@;
    lemma_leader(info, leader);
    lemma_all_predicates(policy, preferred_program, processes[leader]);
    sequences::lemma_first_at(
        processes,
        process_selection::preferred(policy, preferred_program->0),
        chosen,
    );
}

/// Else the first process that the leader launched by name stands for the pane.
pub proof fn launched_processes_come_before_their_leader(
    info: PaneProcessInfo,
    policy: PolicyView,
    preferred_program: Option<Seq<char>>,
    leader: int,
    chosen: int,
)
    requires
        leads(info, leader),
        none_asked_for(info, policy, preferred_program),
        0 <= chosen < info.foreground_processes@.len(),
        launched_by(
            policy,
            info.foreground_processes@[leader],
            info.foreground_processes@[chosen],
        ),
        forall|i: int|
            0 <= i < chosen ==> !launched_by(
                policy,
                info.foreground_processes@[leader],
                #[trigger] info.foreground_processes@[i],
            ),
    ensures
        process_selection::representative(info, policy, preferred_program) == Some(
            (info.foreground_processes@[chosen], "launched"@),
        ),
{
    let processes = info.foreground_processes@;
    lemma_leader(info, leader);
    lemma_all_predicates(policy, preferred_program, processes[leader]);
    if preferred_program is Some {
        sequences::lemma_none(processes, process_selection::preferred(policy, preferred_program->0));
    }
    sequences::lemma_first_at(processes, process_selection::launched(policy, processes[leader]), chosen);
}

/// A leader that is neither a shell nor ignored stands for its pane, whatever runs beside it,
/// unless another process was asked for or launched by name.
pub proof fn leaders_represent_their_group(
    info: PaneProcessInfo,
    policy: PolicyView,
    preferred_program: Option<Seq<char>>,
    leader: int,
)
    requires
        leads(info, leader),
        none_asked_for(info, policy, preferred_program),
        none_launched(info, policy, leader),
        !policy.shells.contains(basename(info.foreground_processes@[leader])),
        counts(policy, info.foreground_processes@[leader]),
    ensures
        process_selection::representative(info, policy, preferred_program) == Some(
            (info.foreground_processes@[leader], "leader"@),
        ),
{
    let processes = info.foreground_processes@;
    lemma_leader(info, leader);
    lemma_all_predicates(policy, preferred_program, processes[leader]);
    lemma_program(processes[leader]);
    if preferred_program is Some {
        sequences::lemma_none(processes, process_selection::preferred(policy, preferred_program->0));
    }
    sequences::lemma_none(processes, process_selection::launched(policy, processes[leader]));
}

/// Under a shell or an ignored leader, the first other program stands for the pane.
pub proof fn programs_under_a_shell_are_found(
    info: PaneProcessInfo,
    policy: PolicyView,
    preferred_program: Option<Seq<char>>,
    leader: int,
    chosen: int,
)
    requires
        leads(info, leader),
        none_asked_for(info, policy, preferred_program),
        none_launched(info, policy, leader),
        policy.shells.contains(basename(info.foreground_processes@[leader])) || !counts(
            policy,
            info.foreground_processes@[leader],
        ),
        0 <= chosen < info.foreground_processes@.len(),
        stands_alone(
            policy,
            info.foreground_processes@[leader],
            info.foreground_processes@[chosen],
        ),
        forall|i: int|
            0 <= i < chosen ==> !stands_alone(
                policy,
                info.foreground_processes@[leader],
                #[trigger] info.foreground_processes@[i],
            ),
    ensures
        process_selection::representative(info, policy, preferred_program) == Some(
            (info.foreground_processes@[chosen], "foreground"@),
        ),
{
    let processes = info.foreground_processes@;
    lemma_leader(info, leader);
    lemma_all_predicates(policy, preferred_program, processes[leader]);
    lemma_program(processes[leader]);
    if preferred_program is Some {
        sequences::lemma_none(processes, process_selection::preferred(policy, preferred_program->0));
    }
    sequences::lemma_none(processes, process_selection::launched(policy, processes[leader]));
    sequences::lemma_first_at(processes, process_selection::usable(policy, processes[leader]), chosen);
}

/// A shell that nothing else runs under stands for its pane, and an ignored program never does.
pub proof fn lone_shells_represent_themselves(
    info: PaneProcessInfo,
    policy: PolicyView,
    preferred_program: Option<Seq<char>>,
    leader: int,
)
    requires
        leads(info, leader),
        none_asked_for(info, policy, preferred_program),
        none_launched(info, policy, leader),
        none_alone(info, policy, leader),
        policy.shells.contains(basename(info.foreground_processes@[leader])) || !counts(
            policy,
            info.foreground_processes@[leader],
        ),
    ensures
        process_selection::representative(info, policy, preferred_program) == if
            policy.shells.contains(basename(info.foreground_processes@[leader])) {
            Some((info.foreground_processes@[leader], "shell_leader_fallback"@))
        } else {
            None
        },
{
    let processes = info.foreground_processes@;
    lemma_leader(info, leader);
    lemma_all_predicates(policy, preferred_program, processes[leader]);
    lemma_program(processes[leader]);
    if preferred_program is Some {
        sequences::lemma_none(processes, process_selection::preferred(policy, preferred_program->0));
    }
    sequences::lemma_none(processes, process_selection::launched(policy, processes[leader]));
    sequences::lemma_none(processes, process_selection::usable(policy, processes[leader]));
}

/// A process that its leader did not launch by name, and that nobody asked for, stands for a pane
/// only where the leader is a shell or ignored.
pub proof fn children_represent_only_shells(
    info: PaneProcessInfo,
    policy: PolicyView,
    preferred_program: Option<Seq<char>>,
    leader: int,
)
    requires
        leads(info, leader),
    ensures
        process_selection::representative(info, policy, preferred_program) matches Some(
            (process, _),
        ) ==> {
            ||| process == info.foreground_processes@[leader]
            ||| asked_for(policy, preferred_program, process)
            ||| launched_by(policy, info.foreground_processes@[leader], process)
            ||| policy.shells.contains(basename(info.foreground_processes@[leader]))
            ||| !counts(policy, info.foreground_processes@[leader])
        },
{
    let processes = info.foreground_processes@;
    lemma_leader(info, leader);
    lemma_all_predicates(policy, preferred_program, processes[leader]);
    lemma_program(processes[leader]);
    if preferred_program is Some {
        sequences::lemma_first(
            processes,
            process_selection::preferred(policy, preferred_program->0),
        );
    }
    sequences::lemma_first(processes, process_selection::launched(policy, processes[leader]));
}

/// A program runs in a group with a leader exactly if a process goes by its basename, or an
/// argument of the leader does.
pub proof fn groups_run_what_they_list(info: PaneProcessInfo, leader: int, program: Seq<char>)
    requires
        leads(info, leader),
    ensures
        process_selection::group_runs(info, program) <==> argument_names(
            info.foreground_processes@[leader],
            naming::normalized(program),
        ) || exists|i: int|
            0 <= i < info.foreground_processes@.len() && basename(
                #[trigger] info.foreground_processes@[i],
            ) == naming::normalized(program),
{
    let processes = info.foreground_processes@;
    lemma_leader(info, leader);
    lemma_launches(processes[leader], program);
    assert forall|i: int| 0 <= i < processes.len() implies basename(#[trigger] processes[i])
        == naming::normalized(processes[i].program_name()) by {
        lemma_program(processes[i]);
    }
    if process_selection::group_runs(info, program) && !process_selection::launches(
        processes[leader],
        program,
    ) {
        let i = choose|i: int|
            0 <= i < processes.len() && process_selection::same_program(
                program,
                (#[trigger] processes[i]).program_name(),
            );
        assert(basename(processes[i]) == naming::normalized(program));
    }
    if exists|i: int|
        0 <= i < processes.len() && basename(#[trigger] processes[i]) == naming::normalized(
            program,
        ) {
        let i = choose|i: int|
            0 <= i < processes.len() && basename(#[trigger] processes[i]) == naming::normalized(
                program,
            );
        assert(process_selection::same_program(program, processes[i].program_name()));
    }
}

/// The processes on record as passed over are those that are ignored, in the order they are listed.
pub proof fn ignored_processes_are_listed(info: PaneProcessInfo, policy: PolicyView)
    ensures
        process_selection::ignored_processes(info, policy) == info.foreground_processes@.filter(
            |process: ProcessInfo| policy.ignored_processes.contains(basename(process)),
        ),
{
    lemma_ignored(info.foreground_processes@, policy);
}

proof fn lemma_ignored(processes: Seq<ProcessInfo>, policy: PolicyView)
    ensures
        processes.filter(process_selection::ignored(policy)) == processes.filter(
            |process: ProcessInfo| policy.ignored_processes.contains(basename(process)),
        ),
    decreases processes.len(),
{
    reveal(Seq::filter);
    let wanted = |process: ProcessInfo| policy.ignored_processes.contains(basename(process));
    if processes.len() > 0 {
        lemma_ignored(processes.drop_last(), policy);
        lemma_program(processes.last());
        assert(wanted(processes.last()) == process_selection::ignored(policy)(processes.last()));
        assert(processes.drop_last().filter(wanted) == processes.drop_last().filter(
            process_selection::ignored(policy),
        ));
    }
    assert(processes.filter(wanted) == processes.filter(process_selection::ignored(policy)));
}

/// A selection is the representative of its pane, with why it is, and lists the ignored processes
/// if it was asked to; there is no selection without a representative.
pub proof fn selections_are_representatives(
    selection: RepresentativeSelection,
    info: PaneProcessInfo,
    policy: PolicyView,
    preferred_program: Option<Seq<char>>,
    collected: bool,
)
    ensures
        process_selection::selected(Some(selection), info, policy, preferred_program, collected) ==> {
            &&& process_selection::representative(info, policy, preferred_program) == Some(
                (*selection.process, selection.reason@),
            )
            &&& collected ==> selection.passed_over() == process_selection::ignored_processes(
                info,
                policy,
            )
            &&& !collected ==> selection.passed_over().len() == 0
        },
        process_selection::selected(None, info, policy, preferred_program, collected)
            <==> process_selection::representative(info, policy, preferred_program) is None,
{
}

} // verus!
