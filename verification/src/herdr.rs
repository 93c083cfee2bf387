//! Protocol model for the subset of Herdr's socket API used here.

use serde_json::Value;
use vstd::prelude::*;
#[allow(unused_imports)]
use vstd::string::{StrSliceExecFns, StringExecFns};

use crate::filesystem::clone_bytes;
use crate::numbering::Tab;
use crate::sequences;
use crate::text;
use crate::text::{decimal_text, text_eq};

verus! {

/// How long a read or a write on the socket may take, in nanoseconds.
pub const SOCKET_TIMEOUT: u64 = 1_000_000_000;

/// Session topology needed by automatic naming.
#[derive(Clone, Debug, PartialEq, Eq)]
pub struct SessionSnapshot {
    pub focused_pane_id: Option<String>,
    pub tabs: Vec<SessionTab>,
    pub panes: Vec<PaneInfo>,
}

/// Tab state plus pane-selection fields from a session snapshot.
#[derive(Clone, Debug, PartialEq, Eq)]
pub struct SessionTab {
    pub tab: Tab,
    pub focused: bool,
    pub pane_count: usize,
}

/// Pane membership fields from a session snapshot.
#[derive(Clone, Debug, PartialEq, Eq)]
pub struct PaneInfo {
    pub pane_id: String,
    pub tab_id: String,
    /// The agent that Herdr recognizes in the pane.
    pub agent: Option<String>,
}

/// Foreground processes associated with one pane.
#[derive(Clone, Debug, PartialEq, Eq)]
pub struct PaneProcessInfo {
    pub foreground_process_group_id: Option<u32>,
    pub foreground_processes: Vec<ProcessInfo>,
}

/// Process identity fields used to derive a tab name.
#[derive(Clone, Debug, PartialEq, Eq)]
pub struct ProcessInfo {
    pub pid: u32,
    pub name: String,
    pub argv0: Option<String>,
    pub argv: Option<Vec<String>>,
}

impl PaneProcessInfo {
    /// The first process whose id is that of the foreground process group.
    pub open spec fn leader_process(self) -> Option<ProcessInfo> {
        match self.foreground_process_group_id {
            Some(group) => sequences::first(
                self.foreground_processes@,
                |process: ProcessInfo| process.pid == group,
            ),
            None => None,
        }
    }

    /// Selects the foreground process-group leader when Herdr reports one.
    pub fn leader(&self) -> (leader: Option<&ProcessInfo>)
        ensures
            match leader {
                Some(leader) => self.leader_process() == Some(*leader),
                None => self.leader_process() is None,
            },
    {
        let group: u32 = match self.foreground_process_group_id {
            Some(group) => group,
            None => {
                return None;
            },
        };
        let ghost wanted = |process: ProcessInfo| process.pid == group;
        let ghost processes = self.foreground_processes@;
        let mut index: usize = 0;
        assert(processes.skip(0) == processes);
        while index < self.foreground_processes.len()
            invariant
                index <= processes.len(),
                processes == self.foreground_processes@,
                self.foreground_process_group_id == Some(group),
                wanted == (|process: ProcessInfo| process.pid == group),
                sequences::first(processes.skip(index as int), wanted) == sequences::first(
                    processes,
                    wanted,
                ),
            decreases processes.len() - index,
        {
            proof {
                sequences::lemma_first_step(processes, index as int, wanted);
            }
            if self.foreground_processes[index].pid == group {
                return Some(&self.foreground_processes[index]);
            }
            index = index + 1;
        }
        None
    }
}

impl ProcessInfo {
    /// The invoked program name: `argv0`, else the first argument, else the executable name,
    /// whichever is the first that is not empty.
    pub open spec fn program_name(self) -> Seq<char> {
        if self.argv0 is Some && self.argv0->0@.len() > 0 {
            self.argv0->0@
        } else if self.argv is Some && self.argv->0@.len() > 0 && self.argv->0@[0]@.len() > 0 {
            self.argv->0@[0]@
        } else {
            self.name@
        }
    }

    /// Returns the invoked program name, preferring argv data over the executable name.
    pub fn program(&self) -> (program: &str)
        ensures
            program@ == self.program_name(),
    {
        if let Some(argv0) = &self.argv0 {
            if !argv0.as_str().is_empty() {
                return argv0.as_str();
            }
        }
        if let Some(arguments) = &self.argv {
            if arguments.len() > 0 && !arguments[0].as_str().is_empty() {
                return arguments[0].as_str();
            }
        }
        self.name.as_str()
    }
}

/// A request for one piece of session state, or for a rename.
#[derive(Debug, PartialEq, Eq)]
pub enum Request {
    /// The session topology.
    Snapshot,
    /// The foreground processes of a pane.
    ProcessInfo { pane_id: String },
    /// The current state of a tab.
    GetTab { tab_id: String },
    /// A new label for a tab.
    RenameTab { tab_id: String, label: String },
}

impl Request {
    /// The method that a request calls.
    pub open spec fn method_name(self) -> Seq<char> {
        match self {
            Request::Snapshot => "session.snapshot"@,
            Request::ProcessInfo { .. } => "pane.process_info"@,
            Request::GetTab { .. } => "tab.get"@,
            Request::RenameTab { .. } => "tab.rename"@,
        }
    }

    /// The parameters that a request hands over.
    pub open spec fn parameters(self) -> Seq<(Seq<char>, Seq<char>)> {
        match self {
            Request::Snapshot => Seq::empty(),
            Request::ProcessInfo { pane_id } => seq![("pane_id"@, pane_id@)],
            Request::GetTab { tab_id } => seq![("tab_id"@, tab_id@)],
            Request::RenameTab { tab_id, label } => seq![("tab_id"@, tab_id@), ("label"@, label@)],
        }
    }

    /// The method that a request calls.
    pub fn method(&self) -> (method: &'static str)
        ensures
            method@ == self.method_name(),
    {
        match self {
            Request::Snapshot => "session.snapshot",
            Request::ProcessInfo { .. } => "pane.process_info",
            Request::GetTab { .. } => "tab.get",
            Request::RenameTab { .. } => "tab.rename",
        }
    }

    /// The parameters that a request hands over.
    pub fn params(&self) -> (params: Vec<(String, String)>)
        ensures
            pair_views(params@) == self.parameters(),
    {
        let mut params: Vec<(String, String)> = Vec::new();
        match self {
            Request::Snapshot => {},
            Request::ProcessInfo { pane_id } => {
                params.push(("pane_id".to_owned(), pane_id.clone()));
            },
            Request::GetTab { tab_id } => {
                params.push(("tab_id".to_owned(), tab_id.clone()));
            },
            Request::RenameTab { tab_id, label } => {
                params.push(("tab_id".to_owned(), tab_id.clone()));
                params.push(("label".to_owned(), label.clone()));
            },
        }
        assert(pair_views(params@) =~= self.parameters());
        params
    }
}

/// The views of pairs of texts.
pub open spec fn pair_views(pairs: Seq<(String, String)>) -> Seq<(Seq<char>, Seq<char>)> {
    pairs.map_values(|pair: (String, String)| (pair.0@, pair.1@))
}

/// A field of a JSON object: a text, or an object whose fields are texts.
#[derive(Debug, PartialEq, Eq)]
pub enum Field {
    Text(String),
    Object(Vec<(String, String)>),
}

/// A field with its texts as character sequences.
#[verifier::ext_equal]
pub enum FieldView {
    Text(Seq<char>),
    Object(Seq<(Seq<char>, Seq<char>)>),
}

impl View for Field {
    type V = FieldView;

    open spec fn view(&self) -> FieldView {
        match *self {
            Field::Text(text) => FieldView::Text(text@),
            Field::Object(entries) => FieldView::Object(pair_views(entries@)),
        }
    }
}

/// The views of named fields.
pub open spec fn field_views(fields: Seq<(String, Field)>) -> Seq<(Seq<char>, FieldView)> {
    fields.map_values(|field: (String, Field)| (field.0@, field.1@))
}

/// The JSON text of an object with the given fields.
pub uninterp spec fn object_json(fields: Seq<(Seq<char>, FieldView)>) -> Seq<char>;

/// `Value::to_string` of the crate `serde_json`, for the object with the given fields.
///
/// The text is named, not described. Stated besides is that it is a single line: the compact form
/// puts no white space between tokens, and a line feed inside a string is escaped.
#[verifier::external_body]
fn object_text(fields: &Vec<(String, Field)>) -> (text: String)
    ensures
        text@ == object_json(field_views(fields@)),
        !text@.contains('\n'),
{
    let convert = |field: &Field| match field {
        Field::Text(text) => Value::String(text.clone()),
        Field::Object(entries) => Value::Object(
            entries.iter().map(|(key, text)| (key.clone(), Value::String(text.clone()))).collect(),
        ),
    };
    Value::Object(
        fields.iter().map(|(key, field)| (key.clone(), convert(field))).collect(),
    ).to_string()
}

/// The id of a request.
pub open spec fn request_id(number: u64) -> Seq<char> {
    "tabs:"@ + text::decimal(number as nat)
}

/// Ends the JSON text of a request, so that it can be sent as a line.
pub fn request_frame(object: String) -> (line: String)
    ensures
        line@ == object@.push('\n'),
{
    let mut line = object;
    line.push('\n');
    line
}

/// The line that a request is sent as.
pub open spec fn request_line(number: u64, request: Request) -> Seq<char> {
    object_json(
        seq![
            ("id"@, FieldView::Text(request_id(number))),
            ("method"@, FieldView::Text(request.method_name())),
            ("params"@, FieldView::Object(request.parameters())),
        ],
    ).push('\n')
}

/// A request that is ready to be sent on a connection of its own, and the id that its response must
/// have.
#[derive(Debug, PartialEq, Eq)]
pub struct RequestLine {
    pub id: String,
    pub line: String,
    /// How long each write of the request may take, in nanoseconds.
    pub write_timeout: u64,
    /// How long each read of the response may take, in nanoseconds.
    pub read_timeout: u64,
}

/// Accepts the line that was read as the response to a request; nothing is read where Herdr closes
/// the socket.
pub fn response_line(line: String) -> (accepted: Result<String, String>)
    ensures
        match accepted {
            Ok(accepted) => line@.len() > 0 && accepted == line,
            Err(error) => line@.len() == 0 && error@
                == "Herdr closed the socket before responding"@,
        },
{
    if line.as_str().unicode_len() == 0 {
        Err("Herdr closed the socket before responding".to_owned())
    } else {
        Ok(line)
    }
}

/// Client for issuing tab requests to one Herdr session.
///
/// Herdr serves one request per socket connection, so each request has a connection of its own.
#[derive(Debug, PartialEq, Eq)]
pub struct HerdrClient {
    socket_path: Vec<u8>,
    next_request_id: u64,
}

impl HerdrClient {
    /// The number of the next request.
    pub closed spec fn next_number(&self) -> u64 {
        self.next_request_id
    }

    /// The socket that requests go to.
    pub closed spec fn socket(&self) -> Seq<u8> {
        self.socket_path@
    }

    /// Creates a client targeting the supplied Herdr socket.
    pub fn new(socket_path: &Vec<u8>) -> (client: Self)
        ensures
            client.socket() == socket_path@,
            client.next_number() == 1,
    {
        HerdrClient { socket_path: clone_bytes(socket_path), next_request_id: 1 }
    }

    /// The socket that requests go to.
    pub fn socket_path(&self) -> (path: &Vec<u8>)
        ensures
            path@ == self.socket(),
    {
        &self.socket_path
    }

    /// Whether another request can be numbered.
    pub fn can_request(&self) -> (result: bool)
        ensures
            result == (self.next_number() < u64::MAX),
    {
        self.next_request_id < u64::MAX
    }

    /// Numbers a request, writes it as a line, and bounds the time on its connection.
    pub fn request(&mut self, request: &Request) -> (sent: RequestLine)
        requires
            old(self).next_number() < u64::MAX,
        ensures
            sent.id@ == request_id(old(self).next_number()),
            sent.line@ == request_line(old(self).next_number(), *request),
            sent.line@.last() == '\n',
            !sent.line@.drop_last().contains('\n'),
            sent.write_timeout == SOCKET_TIMEOUT,
            sent.read_timeout == SOCKET_TIMEOUT,
            final(self).next_number() == old(self).next_number() + 1,
            final(self).socket() == old(self).socket(),
    {
        let mut id = "tabs:".to_owned();
        id.append(decimal_text(self.next_request_id).as_str());
        let mut fields: Vec<(String, Field)> = Vec::new();
        fields.push(("id".to_owned(), Field::Text(id.clone())));
        fields.push(("method".to_owned(), Field::Text(request.method().to_owned())));
        fields.push(("params".to_owned(), Field::Object(request.params())));
        let object = object_text(&fields);
        proof {
            assert(field_views(fields@) =~= seq![
                ("id"@, FieldView::Text(id@)),
                ("method"@, FieldView::Text(request.method_name())),
                ("params"@, FieldView::Object(request.parameters())),
            ]);
        }
        let ghost text = object@;
        let line = request_frame(object);
        assert(line@.drop_last() == text);
        self.next_request_id = self.next_request_id + 1;
        RequestLine { id, line, write_timeout: SOCKET_TIMEOUT, read_timeout: SOCKET_TIMEOUT }
    }
}

/// Requests of one client never share an id.
pub proof fn request_ids_are_unique(first: u64, second: u64)
    requires
        first != second,
    ensures
        request_id(first) != request_id(second),
{
    let prefix = "tabs:"@;
    let left = text::decimal(first as nat);
    let right = text::decimal(second as nat);
    text::decimal_round_trip(first as nat);
    text::decimal_round_trip(second as nat);
    if request_id(first) == request_id(second) {
        assert(left == request_id(first).skip(prefix.len() as int));
        assert(right == request_id(second).skip(prefix.len() as int));
    }
}

/// An error that Herdr answers a request with.
#[derive(Debug, PartialEq, Eq)]
pub struct HerdrApiError {
    pub code: String,
    pub message: String,
}

/// The text that shows an error of Herdr.
pub open spec fn api_error_text(error: HerdrApiError) -> Seq<char> {
    "Herdr API error "@ + error.code@ + ": "@ + error.message@
}

impl HerdrApiError {
    /// The text that shows the error.
    pub fn text(&self) -> (text: String)
        ensures
            text@ == api_error_text(*self),
    {
        let mut text = "Herdr API error ".to_owned();
        text.append(self.code.as_str());
        text.append(": ");
        text.append(self.message.as_str());
        text
    }
}

/// A response as it was read from the socket.
#[derive(Debug, PartialEq, Eq)]
pub struct HerdrResponse<T> {
    pub id: String,
    pub result: Option<T>,
    pub error: Option<HerdrApiError>,
}

/// A tab as Herdr describes it.
#[derive(Debug, PartialEq, Eq)]
pub struct HerdrTab {
    pub tab_id: String,
    pub workspace_id: String,
    pub label: String,
    pub focused: bool,
    pub pane_count: usize,
}

/// The result of a request for a tab.
#[derive(Debug, PartialEq, Eq)]
pub struct TabGetResult {
    pub kind: String,
    pub tab: HerdrTab,
}

/// The result of a request for the processes of a pane.
#[derive(Debug, PartialEq, Eq)]
pub struct PaneProcessInfoResult {
    pub kind: String,
    pub process_info: PaneProcessInfo,
}

/// A session as Herdr describes it.
#[derive(Debug, PartialEq, Eq)]
pub struct SessionSnapshotWire {
    pub focused_pane_id: Option<String>,
    pub tabs: Vec<HerdrTab>,
    pub panes: Vec<PaneInfo>,
}

/// The result of a request for a session.
#[derive(Debug, PartialEq, Eq)]
pub struct SessionSnapshotResult {
    pub kind: String,
    pub snapshot: SessionSnapshotWire,
}

impl Tab {
    /// The tab that Herdr described.
    pub open spec fn described(tab: HerdrTab) -> Tab {
        Tab { tab_id: tab.tab_id, workspace_id: tab.workspace_id, label: tab.label }
    }

    /// Takes over the identity and the label of a tab that Herdr described.
    pub fn from(tab: HerdrTab) -> (converted: Tab)
        ensures
            converted == Tab::described(tab),
    {
        Tab { tab_id: tab.tab_id, workspace_id: tab.workspace_id, label: tab.label }
    }
}

/// The text of a string as a Rust literal.
pub uninterp spec fn literal_text(text: Seq<char>) -> Seq<char>;

/// `format!` of `std` with `{:?}`, for a text.
///
/// The literal is named, not described.
#[verifier::external_body]
fn quoted(text: &str) -> (literal: String)
    ensures
        literal@ == literal_text(text@),
{
    format!("{:?}", text)
}

/// The error for a response to another request, with both ids as literals.
pub open spec fn mismatch_text(response_id: Seq<char>, request_id: Seq<char>) -> Seq<char> {
    "Herdr response id "@ + response_id + " did not match request id "@ + request_id
}

/// The error for a response to another request, with both ids as literals.
pub fn mismatch_message(response_id: &str, request_id: &str) -> (message: String)
    ensures
        message@ == mismatch_text(response_id@, request_id@),
{
    let mut message = "Herdr response id ".to_owned();
    message.append(response_id);
    message.append(" did not match request id ");
    message.append(request_id);
    message
}

/// What a response amounts to: a result, an error of Herdr, or a broken exchange.
pub open spec fn accepted<T>(
    id: Seq<char>,
    response: HerdrResponse<T>,
) -> Result<Result<T, HerdrApiError>, Seq<char>> {
    if response.id@ != id {
        Err(mismatch_text(literal_text(response.id@), literal_text(id)))
    } else {
        match (response.result, response.error) {
            (Some(result), None) => Ok(Ok(result)),
            (None, Some(error)) => Ok(Err(error)),
            _ => Err("Herdr response contained neither a result nor an error"@),
        }
    }
}

/// Accepts a response to the request with the given id.
pub fn accept_response<T>(id: &str, response: HerdrResponse<T>) -> (outcome: Result<
    Result<T, HerdrApiError>,
    String,
>)
    ensures
        match outcome {
            Ok(outcome) => accepted(id@, response) == Ok::<
                Result<T, HerdrApiError>,
                Seq<char>,
            >(outcome),
            Err(error) => accepted(id@, response) == Err::<Result<T, HerdrApiError>, Seq<char>>(
                error@,
            ),
        },
{
    if !text_eq(response.id.as_str(), id) {
        return Err(
            mismatch_message(quoted(response.id.as_str()).as_str(), quoted(id).as_str()),
        );
    }
    match (response.result, response.error) {
        (Some(result), None) => Ok(Ok(result)),
        (None, Some(error)) => Ok(Err(error)),
        _ => Err("Herdr response contained neither a result nor an error".to_owned()),
    }
}

/// The error for a result of a kind that was not asked for, with the kind as a literal.
pub open spec fn kind_text(operation: Seq<char>, kind: Seq<char>) -> Seq<char> {
    operation + " returned unexpected result type "@ + kind
}

/// The error for a result of a kind that was not asked for, with the kind as a literal.
pub fn kind_message(operation: &str, kind: &str) -> (message: String)
    ensures
        message@ == kind_text(operation@, kind@),
{
    let mut message = operation.to_owned();
    message.append(" returned unexpected result type ");
    message.append(kind);
    message
}

/// The error for a result of a kind that was not asked for.
pub open spec fn unexpected_kind(operation: Seq<char>, kind: Seq<char>) -> Seq<char> {
    kind_text(operation, literal_text(kind))
}

fn unexpected_kind_error(operation: &str, kind: &str) -> (error: String)
    ensures
        error@ == unexpected_kind(operation@, kind@),
{
    kind_message(operation, quoted(kind).as_str())
}

/// Whether a snapshot holds what Herdr described.
pub open spec fn snapshot_of(wire: SessionSnapshotWire, snapshot: SessionSnapshot) -> bool {
    &&& snapshot.focused_pane_id == wire.focused_pane_id
    &&& snapshot.panes == wire.panes
    &&& snapshot.tabs@.len() == wire.tabs@.len()
    &&& forall|i: int|
        0 <= i < wire.tabs@.len() ==> (#[trigger] snapshot.tabs@[i]) == (SessionTab {
            tab: Tab::described(wire.tabs@[i]),
            focused: wire.tabs@[i].focused,
            pane_count: wire.tabs@[i].pane_count,
        })
}

fn convert_tabs(tabs: Vec<HerdrTab>) -> (converted: Vec<SessionTab>)
    ensures
        converted@.len() == tabs@.len(),
        forall|i: int|
            0 <= i < tabs@.len() ==> (#[trigger] converted@[i]) == (SessionTab {
                tab: Tab::described(tabs@[i]),
                focused: tabs@[i].focused,
                pane_count: tabs@[i].pane_count,
            }),
{
    let mut converted: Vec<SessionTab> = Vec::new();
    let mut index: usize = 0;
    while index < tabs.len()
        invariant
            index <= tabs@.len(),
            converted@.len() == index,
            forall|i: int|
                0 <= i < index ==> (#[trigger] converted@[i]) == (SessionTab {
                    tab: Tab::described(tabs@[i]),
                    focused: tabs@[i].focused,
                    pane_count: tabs@[i].pane_count,
                }),
        decreases tabs@.len() - index,
    {
        let tab = &tabs[index];
        converted.push(
            SessionTab {
                tab: Tab {
                    tab_id: tab.tab_id.clone(),
                    workspace_id: tab.workspace_id.clone(),
                    label: tab.label.clone(),
                },
                focused: tab.focused,
                pane_count: tab.pane_count,
            },
        );
        index = index + 1;
    }
    converted
}

/// What the answer to a request for a tab amounts to; a tab that is gone is no error.
pub open spec fn tab_answer(
    operation: Seq<char>,
    id: Seq<char>,
    response: HerdrResponse<TabGetResult>,
) -> Result<Option<Tab>, Seq<char>> {
    match accepted(id, response) {
        Ok(Ok(result)) => if result.kind@ == "tab_info"@ {
            Ok(Some(Tab::described(result.tab)))
        } else {
            Err(unexpected_kind(operation, result.kind@))
        },
        Ok(Err(error)) => if error.code@ == "tab_not_found"@ {
            Ok(None)
        } else {
            Err(api_error_text(error))
        },
        Err(error) => Err(error),
    }
}

fn answer_for_tab(operation: &str, id: &str, response: HerdrResponse<TabGetResult>) -> (answer:
    Result<Option<Tab>, String>)
    ensures
        match answer {
            Ok(tab) => tab_answer(operation@, id@, response) == Ok::<Option<Tab>, Seq<char>>(tab),
            Err(error) => tab_answer(operation@, id@, response) == Err::<Option<Tab>, Seq<char>>(
                error@,
            ),
        },
{
    match accept_response(id, response) {
        Ok(Ok(result)) => if text_eq(result.kind.as_str(), "tab_info") {
            Ok(Some(Tab::from(result.tab)))
        } else {
            Err(unexpected_kind_error(operation, result.kind.as_str()))
        },
        Ok(Err(error)) => if text_eq(error.code.as_str(), "tab_not_found") {
            Ok(None)
        } else {
            Err(error.text())
        },
        Err(error) => Err(error),
    }
}

impl HerdrClient {
    /// Returns the session topology used to resolve a tab's naming pane.
    pub fn snapshot(id: &str, response: HerdrResponse<SessionSnapshotResult>) -> (snapshot: Result<
        SessionSnapshot,
        String,
    >)
        ensures
            match (accepted(id@, response), snapshot) {
                (Ok(Ok(result)), Ok(snapshot)) => result.kind@ == "session_snapshot"@
                    && snapshot_of(result.snapshot, snapshot),
                (Ok(Ok(result)), Err(error)) => result.kind@ != "session_snapshot"@ && error@
                    == unexpected_kind("session snapshot"@, result.kind@),
                (Ok(Err(failure)), Err(error)) => error@ == api_error_text(failure),
                (Err(broken), Err(error)) => error@ == broken,
                _ => false,
            },
    {
        match accept_response(id, response) {
            Ok(Ok(result)) => {
                if !text_eq(result.kind.as_str(), "session_snapshot") {
                    return Err(unexpected_kind_error("session snapshot", result.kind.as_str()));
                }
                Ok(
                    SessionSnapshot {
                        focused_pane_id: result.snapshot.focused_pane_id,
                        tabs: convert_tabs(result.snapshot.tabs),
                        panes: result.snapshot.panes,
                    },
                )
            },
            Ok(Err(error)) => Err(error.text()),
            Err(error) => Err(error),
        }
    }

    /// Returns foreground process information for one pane.
    pub fn pane_process_info(id: &str, response: HerdrResponse<PaneProcessInfoResult>) -> (info:
        Result<PaneProcessInfo, String>)
        ensures
            match (accepted(id@, response), info) {
                (Ok(Ok(result)), Ok(info)) => result.kind@ == "pane_process_info"@ && info
                    == result.process_info,
                (Ok(Ok(result)), Err(error)) => result.kind@ != "pane_process_info"@ && error@
                    == unexpected_kind("pane process info"@, result.kind@),
                (Ok(Err(failure)), Err(error)) => error@ == api_error_text(failure),
                (Err(broken), Err(error)) => error@ == broken,
                _ => false,
            },
    {
        match accept_response(id, response) {
            Ok(Ok(result)) => {
                if !text_eq(result.kind.as_str(), "pane_process_info") {
                    return Err(unexpected_kind_error("pane process info", result.kind.as_str()));
                }
                Ok(result.process_info)
            },
            Ok(Err(error)) => Err(error.text()),
            Err(error) => Err(error),
        }
    }

    /// Returns current state for a tab, or `None` if it disappeared.
    pub fn get_tab(id: &str, response: HerdrResponse<TabGetResult>) -> (tab: Result<
        Option<Tab>,
        String,
    >)
        ensures
            match tab {
                Ok(tab) => tab_answer("tab get"@, id@, response) == Ok::<Option<Tab>, Seq<char>>(
                    tab,
                ),
                Err(error) => tab_answer("tab get"@, id@, response) == Err::<
                    Option<Tab>,
                    Seq<char>,
                >(error@),
            },
    {
        answer_for_tab("tab get", id, response)
    }

    /// Checks that a tab's label was replaced, treating concurrent tab removal as benign.
    pub fn rename_tab(id: &str, response: HerdrResponse<TabGetResult>) -> (result: Result<
        (),
        String,
    >)
        ensures
            match result {
                Ok(_) => tab_answer("tab rename"@, id@, response) is Ok,
                Err(error) => tab_answer("tab rename"@, id@, response) == Err::<
                    Option<Tab>,
                    Seq<char>,
                >(error@),
            },
    {
        match answer_for_tab("tab rename", id, response) {
            Ok(_) => Ok(()),
            Err(error) => Err(error),
        }
    }
}

} // verus!
