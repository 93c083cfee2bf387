//! Process identities that are safe to record.

use vstd::prelude::*;

use crate::herdr::{PaneProcessInfo, ProcessInfo};
use crate::sequences;
use crate::text;
use crate::text::{characters, find_segment_start, text_of};

verus! {

/// The identity of a process that is safe to record.
#[derive(Debug, PartialEq, Eq)]
pub struct ProcessIdentity {
    pub pid: u32,
    pub executable_basename: String,
    pub argv0_basename: Option<String>,
}

/// An identity with its texts as character sequences.
#[verifier::ext_equal]
pub struct IdentityView {
    pub pid: u32,
    pub executable_basename: Seq<char>,
    pub argv0_basename: Option<Seq<char>>,
}

impl View for ProcessIdentity {
    type V = IdentityView;

    open spec fn view(&self) -> IdentityView {
        IdentityView {
            pid: self.pid,
            executable_basename: self.executable_basename@,
            argv0_basename: text::optional_text(self.argv0_basename),
        }
    }
}

/// The last component of a path that is neither empty nor a single dot.
pub open spec fn last_component(path: Seq<char>) -> Option<Seq<char>>
    decreases path.len(),
{
    let start = text::segment_start(path);
    let segment = path.skip(start);
    if segment.len() > 0 && segment != seq!['.'] {
        Some(segment)
    } else if start == 0 {
        None
    } else {
        proof {
            text::lemma_segment_start(path);
        }
        last_component(path.take(start - 1))
    }
}

/// The file name of a path, or the whole path where it has none.
pub open spec fn file_name(path: Seq<char>) -> Seq<char> {
    match last_component(path) {
        Some(component) => if component == seq!['.', '.'] {
            path
        } else {
            component
        },
        None => path,
    }
}

/// Reduces a path to its file name.
pub fn basename(value: &str) -> (name: String)
    ensures
        name@ == file_name(value@),
{
    let path = characters(value);
    let mut end: usize = path.len();
    assert(path@.take(end as int) == path@);
    loop
        invariant
            end <= path@.len(),
            path@ == value@,
            last_component(path@.take(end as int)) == last_component(path@),
        decreases end,
    {
        let start = find_segment_start(&path, end);
        let ghost prefix = path@.take(end as int);
        assert(prefix.skip(start as int) == path@.subrange(start as int, end as int));
        let single_dot = end - start == 1 && path[start] == '.';
        proof {
            if single_dot {
                assert(prefix.skip(start as int) =~= seq!['.']);
            } else if prefix.skip(start as int) == seq!['.'] {
                assert(prefix.skip(start as int)[0] == path@[start as int]);
                assert(prefix.skip(start as int).len() == 1);
            }
        }
        if end > start && !single_dot {
            if end - start == 2 && path[start] == '.' && path[start + 1] == '.' {
                assert(prefix.skip(start as int) =~= seq!['.', '.']);
                return value.to_owned();
            }
            proof {
                if prefix.skip(start as int) == seq!['.', '.'] {
                    assert(prefix.skip(start as int).len() == 2);
                    assert(prefix.skip(start as int)[0] == path@[start as int]);
                    assert(prefix.skip(start as int)[1] == path@[start + 1]);
                }
            }
            return text_of(&path, start, end);
        }
        if start == 0 {
            return value.to_owned();
        }
        assert(prefix.take(start - 1) == path@.take(start - 1));
        end = start - 1;
    }
}

/// The recorded identity of a process: its arguments are no part of it.
pub open spec fn identity(process: ProcessInfo) -> IdentityView {
    IdentityView {
        pid: process.pid,
        executable_basename: file_name(process.name@),
        argv0_basename: match process.argv0 {
            Some(argv0) => Some(file_name(argv0@)),
            None => None,
        },
    }
}

/// The recorded identities of processes, in their order.
pub open spec fn identities(processes: Seq<ProcessInfo>) -> Seq<IdentityView> {
    processes.map_values(|process: ProcessInfo| identity(process))
}

/// The views of recorded identities.
pub open spec fn identity_views(identities: Seq<ProcessIdentity>) -> Seq<IdentityView> {
    identities.map_values(|identity: ProcessIdentity| identity@)
}

impl ProcessIdentity {
    /// Records the identity of a process.
    pub fn from_process(process: &ProcessInfo) -> (recorded: Self)
        ensures
            recorded@ == identity(*process),
    {
        ProcessIdentity {
            pid: process.pid,
            executable_basename: basename(process.name.as_str()),
            argv0_basename: match &process.argv0 {
                Some(argv0) => Some(basename(argv0.as_str())),
                None => None,
            },
        }
    }
}

/// The processes that a pane was observed with.
#[derive(Debug, PartialEq, Eq)]
pub struct ProcessRecord {
    pub pane_id: String,
    pub foreground_process_group_id: Option<u32>,
    pub leader: Option<ProcessIdentity>,
    pub processes: Vec<ProcessIdentity>,
}

/// A process record with its texts as character sequences.
#[verifier::ext_equal]
pub struct ProcessRecordView {
    pub pane_id: Seq<char>,
    pub foreground_process_group_id: Option<u32>,
    pub leader: Option<IdentityView>,
    pub processes: Seq<IdentityView>,
}

impl View for ProcessRecord {
    type V = ProcessRecordView;

    open spec fn view(&self) -> ProcessRecordView {
        ProcessRecordView {
            pane_id: self.pane_id@,
            foreground_process_group_id: self.foreground_process_group_id,
            leader: match self.leader {
                Some(leader) => Some(leader@),
                None => None,
            },
            processes: identity_views(self.processes@),
        }
    }
}

/// What is recorded of the processes of a pane.
pub open spec fn process_record(pane_id: Seq<char>, info: PaneProcessInfo) -> ProcessRecordView {
    ProcessRecordView {
        pane_id,
        foreground_process_group_id: info.foreground_process_group_id,
        leader: match info.leader_process() {
            Some(leader) => Some(identity(leader)),
            None => None,
        },
        processes: identities(info.foreground_processes@),
    }
}

impl ProcessRecord {
    /// Records the processes of a pane.
    pub fn from_info(pane_id: &str, info: &PaneProcessInfo) -> (record: Self)
        ensures
            record@ == process_record(pane_id@, *info),
    {
        let mut processes: Vec<ProcessIdentity> = Vec::new();
        let mut index: usize = 0;
        while index < info.foreground_processes.len()
            invariant
                index <= info.foreground_processes@.len(),
                identity_views(processes@) == identities(
                    info.foreground_processes@.take(index as int),
                ),
            decreases info.foreground_processes@.len() - index,
        {
            let ghost before = processes@;
            processes.push(ProcessIdentity::from_process(&info.foreground_processes[index]));
            assert(identity_views(processes@) == identity_views(before).push(
                identity(info.foreground_processes@[index as int]),
            ));
            assert(identities(info.foreground_processes@.take(index + 1)) == identities(
                info.foreground_processes@.take(index as int),
            ).push(identity(info.foreground_processes@[index as int])));
            index = index + 1;
        }
        assert(info.foreground_processes@.take(index as int) == info.foreground_processes@);
        ProcessRecord {
            pane_id: pane_id.to_owned(),
            foreground_process_group_id: info.foreground_process_group_id,
            leader: match info.leader() {
                Some(leader) => Some(ProcessIdentity::from_process(leader)),
                None => None,
            },
            processes,
        }
    }
}

/// Whether two observations differ in nothing but the arguments of their processes.
pub open spec fn same_but_for_arguments(first: PaneProcessInfo, second: PaneProcessInfo) -> bool {
    &&& first.foreground_process_group_id == second.foreground_process_group_id
    &&& first.foreground_processes@.len() == second.foreground_processes@.len()
    &&& forall|i: int|
        0 <= i < first.foreground_processes@.len() ==> {
            let left = #[trigger] first.foreground_processes@[i];
            let right = second.foreground_processes@[i];
            left.pid == right.pid && left.name == right.name && left.argv0 == right.argv0
        }
}

proof fn lemma_same_leader(first: Seq<ProcessInfo>, second: Seq<ProcessInfo>, group: u32)
    requires
        first.len() == second.len(),
        forall|i: int|
            0 <= i < first.len() ==> (#[trigger] first[i]).pid == second[i].pid && first[i].name
                == second[i].name && first[i].argv0 == second[i].argv0,
    ensures
        match sequences::first(first, |process: ProcessInfo| process.pid == group) {
            Some(leader) => sequences::first(
                second,
                |process: ProcessInfo| process.pid == group,
            ) matches Some(other) && identity(other) == identity(leader),
            None => sequences::first(second, |process: ProcessInfo| process.pid == group) is None,
        },
    decreases first.len(),
{
    if first.len() > 0 && first[0].pid != group {
        let left = first.drop_first();
        let right = second.drop_first();
        assert forall|i: int| 0 <= i < left.len() implies (#[trigger] left[i]).pid == right[i].pid
            && left[i].name == right[i].name && left[i].argv0 == right[i].argv0 by {
            assert(left[i] == first[i + 1] && right[i] == second[i + 1]);
        }
        lemma_same_leader(left, right, group);
    }
}

/// A process record does not depend on the arguments of the processes.
pub proof fn records_do_not_depend_on_arguments(
    pane_id: Seq<char>,
    first: PaneProcessInfo,
    second: PaneProcessInfo,
)
    requires
        same_but_for_arguments(first, second),
    ensures
        process_record(pane_id, first) == process_record(pane_id, second),
{
    if let Some(group) = first.foreground_process_group_id {
        lemma_same_leader(first.foreground_processes@, second.foreground_processes@, group);
    }
    assert(identities(first.foreground_processes@) =~= identities(second.foreground_processes@));
}

} // verus!
