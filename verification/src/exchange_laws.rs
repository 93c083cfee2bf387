//! What requests say, and what their answers amount to.

use vstd::prelude::*;

use crate::herdr;
use crate::herdr::{
    HerdrApiError, HerdrResponse, PaneProcessInfo, ProcessInfo, Request, SessionSnapshot,
    SessionSnapshotWire, TabGetResult,
};
use crate::numbering::Tab;
use crate::sequences;
use crate::text;

verus! {

/// Each request calls its method with the ids it is about; a rename hands over the label as well.
pub proof fn requests_name_what_they_are_about(
    pane_id: String,
    tab_id: String,
    label: String,
    number: u64,
)
    ensures
        Request::Snapshot.method_name() == "session.snapshot"@,
        Request::Snapshot.parameters().len() == 0,
        (Request::ProcessInfo { pane_id }).method_name() == "pane.process_info"@,
        (Request::ProcessInfo { pane_id }).parameters() == seq![("pane_id"@, pane_id@)],
        (Request::GetTab { tab_id }).method_name() == "tab.get"@,
        (Request::GetTab { tab_id }).parameters() == seq![("tab_id"@, tab_id@)],
        (Request::RenameTab { tab_id, label }).method_name() == "tab.rename"@,
        (Request::RenameTab { tab_id, label }).parameters() == seq![
            ("tab_id"@, tab_id@),
            ("label"@, label@),
        ],
        herdr::request_id(number) == "tabs:"@ + text::decimal(number as nat),
        herdr::SOCKET_TIMEOUT == 1_000_000_000,
{
}

/// A request is sent as one JSON object with its id, its method and its parameters, on a line.
pub proof fn requests_are_lines(number: u64, request: Request)
    ensures
        herdr::request_line(number, request).last() == '\n',
        herdr::request_line(number, request).drop_last() == herdr::object_json(
            seq![
                ("id"@, herdr::FieldView::Text(herdr::request_id(number))),
                ("method"@, herdr::FieldView::Text(request.method_name())),
                ("params"@, herdr::FieldView::Object(request.parameters())),
            ],
        ),
{
    let line = herdr::request_line(number, request);
    let object = herdr::object_json(
        seq![
            ("id"@, herdr::FieldView::Text(herdr::request_id(number))),
            ("method"@, herdr::FieldView::Text(request.method_name())),
            ("params"@, herdr::FieldView::Object(request.parameters())),
        ],
    );
    assert(line.drop_last() =~= object);
}

/// A response counts for the request whose id it has. It is a result or an error of Herdr, and
/// neither of both nor both are accepted.
pub proof fn responses_belong_to_their_request<T>(
    id: Seq<char>,
    other: Seq<char>,
    response: HerdrResponse<T>,
)
    requires
        response.id@ == id,
        other != id,
    ensures
        response.result is Some && response.error is None ==> herdr::accepted(id, response)
            == Ok::<Result<T, HerdrApiError>, Seq<char>>(Ok(response.result->0)),
        response.result is None && response.error is Some ==> herdr::accepted(id, response)
            == Ok::<Result<T, HerdrApiError>, Seq<char>>(Err(response.error->0)),
        (response.result is Some <==> response.error is Some) ==> herdr::accepted(id, response)
            == Err::<Result<T, HerdrApiError>, Seq<char>>(
            "Herdr response contained neither a result nor an error"@,
        ),
        herdr::accepted(other, response) == Err::<Result<T, HerdrApiError>, Seq<char>>(
            "Herdr response id "@ + herdr::literal_text(id) + " did not match request id "@
                + herdr::literal_text(other),
        ),
{
}

/// An answer about a tab gives the tab with its ids and its label; a tab that is not found is gone,
/// and any other error or kind of answer is reported.
pub proof fn answers_about_tabs_give_the_tab(
    operation: Seq<char>,
    id: String,
    result: TabGetResult,
    error: HerdrApiError,
)
    ensures
        ({
            let found = HerdrResponse { id, result: Some(result), error: None };
            let failed = HerdrResponse::<TabGetResult> { id, result: None, error: Some(error) };
            &&& result.kind@ == "tab_info"@ ==> (herdr::tab_answer(operation, id@, found) matches
                Ok(Some(tab)) && tab.tab_id == result.tab.tab_id && tab.workspace_id
                == result.tab.workspace_id && tab.label == result.tab.label)
            &&& result.kind@ != "tab_info"@ ==> herdr::tab_answer(operation, id@, found) == Err::<
                Option<Tab>,
                Seq<char>,
            >(
                operation + " returned unexpected result type "@ + herdr::literal_text(
                    result.kind@,
                ),
            )
            &&& error.code@ == "tab_not_found"@ ==> herdr::tab_answer(operation, id@, failed)
                == Ok::<Option<Tab>, Seq<char>>(None)
            &&& error.code@ != "tab_not_found"@ ==> herdr::tab_answer(operation, id@, failed)
                == Err::<Option<Tab>, Seq<char>>(
                "Herdr API error "@ + error.code@ + ": "@ + error.message@,
            )
        }),
{
}

/// An answer to another request about a tab is reported.
pub proof fn answers_to_other_requests_are_reported(
    operation: Seq<char>,
    id: Seq<char>,
    response: HerdrResponse<TabGetResult>,
)
    requires
        response.id@ != id,
    ensures
        herdr::tab_answer(operation, id, response) == Err::<Option<Tab>, Seq<char>>(
            "Herdr response id "@ + herdr::literal_text(response.id@)
                + " did not match request id "@ + herdr::literal_text(id),
        ),
{
}

/// A snapshot has the tabs that Herdr described, in their order, each with its ids, its label, its
/// focus and its panes.
pub proof fn snapshots_hold_what_was_described(
    wire: SessionSnapshotWire,
    snapshot: SessionSnapshot,
    position: int,
)
    requires
        herdr::snapshot_of(wire, snapshot),
        0 <= position < wire.tabs@.len(),
    ensures
        snapshot.focused_pane_id == wire.focused_pane_id,
        snapshot.panes == wire.panes,
        snapshot.tabs@.len() == wire.tabs@.len(),
        snapshot.tabs@[position].tab.tab_id == wire.tabs@[position].tab_id,
        snapshot.tabs@[position].tab.workspace_id == wire.tabs@[position].workspace_id,
        snapshot.tabs@[position].tab.label == wire.tabs@[position].label,
        snapshot.tabs@[position].focused == wire.tabs@[position].focused,
        snapshot.tabs@[position].pane_count == wire.tabs@[position].pane_count,
{
}

/// The leader of a pane is the first process that has the id of the foreground group.
pub proof fn leaders_have_the_id_of_the_group(info: PaneProcessInfo, group: u32, place: int)
    requires
        info.foreground_process_group_id == Some(group),
    ensures
        0 <= place < info.foreground_processes@.len() && info.foreground_processes@[place].pid
            == group && (forall|i: int|
            0 <= i < place ==> (#[trigger] info.foreground_processes@[i]).pid != group)
            ==> info.leader_process() == Some(info.foreground_processes@[place]),
        (forall|i: int|
            0 <= i < info.foreground_processes@.len() ==> (
            #[trigger] info.foreground_processes@[i]).pid != group)
            ==> info.leader_process() is None,
        (PaneProcessInfo { foreground_process_group_id: None, ..info }).leader_process() is None,
{
    let wanted = |process: ProcessInfo| process.pid == group;
    let processes = info.foreground_processes@;
    if 0 <= place < processes.len() && processes[place].pid == group && (forall|i: int|
        0 <= i < place ==> (#[trigger] processes[i]).pid != group) {
        sequences::lemma_first_at(processes, wanted, place);
    }
    if forall|i: int| 0 <= i < processes.len() ==> (#[trigger] processes[i]).pid != group {
        sequences::lemma_none(processes, wanted);
    }
}

/// A process goes by how it was called, without that by its first argument, and without both by the
/// name of its executable; what is empty does not count.
pub proof fn processes_go_by_how_they_were_called(process: ProcessInfo)
    ensures
        process.argv0 matches Some(argv0) ==> (argv0@.len() > 0 ==> process.program_name()
            == argv0@),
        (process.argv0 matches Some(argv0) ==> argv0@.len() == 0) ==> {
            &&& process.argv matches Some(argv) ==> (argv@.len() > 0 && argv@[0]@.len() > 0
                ==> process.program_name() == argv@[0]@)
            &&& (process.argv matches Some(argv) ==> argv@.len() == 0 || argv@[0]@.len() == 0)
                ==> process.program_name() == process.name@
        },
{
}

} // verus!
