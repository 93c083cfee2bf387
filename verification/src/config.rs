//! Runtime invocation and typed user settings.

use sha2::{Digest, Sha256};
use vstd::prelude::*;
#[allow(unused_imports)]
use vstd::string::{StrSliceExecFns, StringExecFns};

use crate::filesystem;
use crate::filesystem::{absolute_path, join_path};
use crate::settings;
use crate::settings::Settings;
use crate::text;
use crate::text::{parse_number, text_eq};

verus! {

/// Runtime dependencies and requested operation for one invocation.
#[derive(Debug, PartialEq, Eq)]
pub struct Config {
    pub socket_path: Vec<u8>,
    pub state_dir: Vec<u8>,
    pub settings: Settings,
    pub invocation: Invocation,
    /// The plugin event that the invocation came with.
    pub event: Option<String>,
    pub event_workspace_id: Option<String>,
    pub event_tab_id: Option<String>,
    pub event_pane_id: Option<String>,
}

/// Operation selected by plugin context or a shell-hook command.
#[allow(inconsistent_fields)]
#[derive(Debug, PartialEq, Eq)]
pub enum Invocation {
    Full,
    Workspace(String),
    Tab { workspace_id: String, tab_id: String },
    RenamedTab { workspace_id: String, tab_id: String },
    ClosedTab { workspace_id: Option<String>, tab_id: Option<String> },
    ClosedPane { workspace_id: String, pane_id: String },
    Init { pane_id: String, shell: String, shell_pid: u32 },
    Preexec { pane_id: String, shell: String, program: Option<String> },
    Precmd { pane_id: String, shell: String, shell_pid: u32 },
    Reset { workspace_id: Option<String>, tab_id: Option<String> },
    Toggle { workspace_id: Option<String>, tab_id: Option<String> },
    Clear,
}

impl Clone for Invocation {
    fn clone(&self) -> (copy: Self)
        ensures
            copy == *self,
    {
        match self {
            Invocation::Full => Invocation::Full,
            Invocation::Workspace(workspace_id) => Invocation::Workspace(workspace_id.clone()),
            Invocation::Tab { workspace_id, tab_id } => Invocation::Tab {
                workspace_id: workspace_id.clone(),
                tab_id: tab_id.clone(),
            },
            Invocation::RenamedTab { workspace_id, tab_id } => Invocation::RenamedTab {
                workspace_id: workspace_id.clone(),
                tab_id: tab_id.clone(),
            },
            Invocation::ClosedTab { workspace_id, tab_id } => Invocation::ClosedTab {
                workspace_id: workspace_id.clone(),
                tab_id: tab_id.clone(),
            },
            Invocation::ClosedPane { workspace_id, pane_id } => Invocation::ClosedPane {
                workspace_id: workspace_id.clone(),
                pane_id: pane_id.clone(),
            },
            Invocation::Init { pane_id, shell, shell_pid } => Invocation::Init {
                pane_id: pane_id.clone(),
                shell: shell.clone(),
                shell_pid: *shell_pid,
            },
            Invocation::Preexec { pane_id, shell, program } => Invocation::Preexec {
                pane_id: pane_id.clone(),
                shell: shell.clone(),
                program: program.clone(),
            },
            Invocation::Precmd { pane_id, shell, shell_pid } => Invocation::Precmd {
                pane_id: pane_id.clone(),
                shell: shell.clone(),
                shell_pid: *shell_pid,
            },
            Invocation::Reset { workspace_id, tab_id } => Invocation::Reset {
                workspace_id: workspace_id.clone(),
                tab_id: tab_id.clone(),
            },
            Invocation::Toggle { workspace_id, tab_id } => Invocation::Toggle {
                workspace_id: workspace_id.clone(),
                tab_id: tab_id.clone(),
            },
            Invocation::Clear => Invocation::Clear,
        }
    }
}

/// The invocation that a plugin event asks for.
///
/// An event without the ids it needs falls back to a wider scope.
pub open spec fn for_event(
    event: Option<Seq<char>>,
    workspace_id: Option<String>,
    tab_id: Option<String>,
) -> Invocation {
    let in_workspace = match workspace_id {
        Some(workspace_id) => Invocation::Workspace(workspace_id),
        None => Invocation::Full,
    };
    match event {
        Some(event) => if event == "tab.closed"@ {
            Invocation::ClosedTab { workspace_id, tab_id }
        } else if event == "tab.created"@ || event == "tab.moved"@ || event == "pane.closed"@
            || event == "pane.created"@ || event == "pane.exited"@ {
            in_workspace
        } else if event == "tab.renamed"@ && workspace_id is Some && tab_id is Some {
            Invocation::RenamedTab { workspace_id: workspace_id->0, tab_id: tab_id->0 }
        } else if (event == "tab.focused"@ || event == "pane.focused"@) && workspace_id is Some
            && tab_id is Some {
            Invocation::Tab { workspace_id: workspace_id->0, tab_id: tab_id->0 }
        } else if event == "tab.renamed"@ || event == "tab.focused"@ || event == "pane.focused"@ {
            in_workspace
        } else {
            Invocation::Full
        },
        None => Invocation::Full,
    }
}

fn workspace_or_full(workspace_id: Option<String>) -> (invocation: Invocation)
    ensures
        invocation == match workspace_id {
            Some(workspace_id) => Invocation::Workspace(workspace_id),
            None => Invocation::Full,
        },
{
    match workspace_id {
        Some(workspace_id) => Invocation::Workspace(workspace_id),
        None => Invocation::Full,
    }
}

/// Selects the invocation that a plugin event asks for.
pub fn event_invocation(
    event: Option<&str>,
    workspace_id: Option<String>,
    tab_id: Option<String>,
) -> (invocation: Invocation)
    ensures
        invocation == for_event(text::borrowed_text(event), workspace_id, tab_id),
{
    proof {
        reveal_event_names();
    }
    let event = match event {
        Some(event) => event,
        None => {
            return Invocation::Full;
        },
    };
    if text_eq(event, "tab.closed") {
        return Invocation::ClosedTab { workspace_id, tab_id };
    }
    if text_eq(event, "tab.created") || text_eq(event, "tab.moved") || text_eq(
        event,
        "pane.closed",
    ) || text_eq(event, "pane.created") || text_eq(event, "pane.exited") {
        return workspace_or_full(workspace_id);
    }
    if text_eq(event, "tab.renamed") {
        return match (workspace_id, tab_id) {
            (Some(workspace_id), Some(tab_id)) => Invocation::RenamedTab { workspace_id, tab_id },
            (Some(workspace_id), None) => Invocation::Workspace(workspace_id),
            _ => Invocation::Full,
        };
    }
    if text_eq(event, "tab.focused") || text_eq(event, "pane.focused") {
        return match (workspace_id, tab_id) {
            (Some(workspace_id), Some(tab_id)) => Invocation::Tab { workspace_id, tab_id },
            (Some(workspace_id), None) => Invocation::Workspace(workspace_id),
            _ => Invocation::Full,
        };
    }
    Invocation::Full
}

proof fn reveal_event_names()
    ensures
        "tab.renamed"@ != "tab.focused"@,
        "tab.renamed"@ != "pane.focused"@,
{
    reveal_strlit("tab.renamed");
    reveal_strlit("tab.focused");
    reveal_strlit("pane.focused");
    assert("tab.renamed"@[4] == 'r' && "tab.focused"@[4] == 'f');
    assert("tab.renamed"@.len() == 11 && "pane.focused"@.len() == 12);
}

/// Returns a value that a hook must have been given.
pub fn required_value(name: &str, value: Option<String>) -> (result: Result<String, String>)
    ensures
        match (value, result) {
            (Some(value), Ok(given)) => given == value,
            (None, Err(error)) => error@ == name@ + " is not set"@,
            _ => false,
        },
{
    match value {
        Some(value) => Ok(value),
        None => {
            let mut message = name.to_owned();
            message.append(" is not set");
            Err(message)
        },
    }
}

/// Whether arguments are exactly the given words, with any word in the places of `None`.
pub open spec fn words_are(args: Seq<String>, words: Seq<Option<Seq<char>>>) -> bool {
    args.len() == words.len() && forall|i: int|
        0 <= i < words.len() ==> ((#[trigger] words[i]) is Some ==> args[i]@ == words[i]->0)
}

/// The invocation that arguments and plugin context ask for, or the error they give.
pub open spec fn asked_for(
    args: Seq<String>,
    event: Option<Seq<char>>,
    workspace_id: Option<String>,
    tab_id: Option<String>,
    pane_id: Option<String>,
) -> Result<Invocation, Seq<char>> {
    let unset = "HERDR_PANE_ID"@ + " is not set"@;
    if args.len() == 0 {
        Ok(for_event(event, workspace_id, tab_id))
    } else if words_are(args, seq![Some("clear"@)]) {
        Ok(Invocation::Clear)
    } else if words_are(args, seq![Some("reset"@)]) {
        Ok(Invocation::Reset { workspace_id, tab_id })
    } else if words_are(args, seq![Some("toggle"@)]) {
        Ok(Invocation::Toggle { workspace_id, tab_id })
    } else if words_are(args, seq![Some("preexec"@), Some("--shell"@), None, Some("--sample"@)]) {
        match pane_id {
            Some(pane_id) => Ok(Invocation::Preexec { pane_id, shell: args[2], program: None }),
            None => Err(unset),
        }
    } else if words_are(
        args,
        seq![Some("preexec"@), Some("--shell"@), None, Some("--program"@), None],
    ) {
        match pane_id {
            Some(pane_id) => Ok(
                Invocation::Preexec { pane_id, shell: args[2], program: Some(args[4]) },
            ),
            None => Err(unset),
        }
    } else if words_are(
        args,
        seq![Some("precmd"@), Some("--shell"@), None, Some("--shell-pid"@), None],
    ) {
        match (pane_id, text::parsed_number(args[4]@)) {
            (Some(pane_id), Some(shell_pid)) => Ok(
                Invocation::Precmd { pane_id, shell: args[2], shell_pid },
            ),
            (Some(_), None) => Err("--shell-pid must be an unsigned integer"@),
            _ => Err(unset),
        }
    } else {
        Err("invalid herdr-labels invocation"@)
    }
}

fn word_is(args: &Vec<String>, index: usize, word: &str) -> (result: bool)
    requires
        index < args@.len(),
    ensures
        result == (args@[index as int]@ == word@),
{
    text_eq(args[index].as_str(), word)
}

fn is_single_word(args: &Vec<String>, word: &str) -> (result: bool)
    ensures
        result == words_are(args@, seq![Some(word@)]),
{
    let result = args.len() == 1 && word_is(args, 0, word);
    let ghost words = seq![Some(word@)];
    assert(words.len() == 1 && words[0] == Some(word@));
    result
}

fn is_hook(args: &Vec<String>, mode: &str, action: &str, valued: bool) -> (result: bool)
    ensures
        result == (if valued {
            words_are(args@, seq![Some(mode@), Some("--shell"@), None, Some(action@), None])
        } else {
            words_are(args@, seq![Some(mode@), Some("--shell"@), None, Some(action@)])
        }),
        result ==> args@.len() == if valued {
            5int
        } else {
            4int
        },
{
    let length: usize = if valued {
        5
    } else {
        4
    };
    let result = args.len() == length && word_is(args, 0, mode) && word_is(args, 1, "--shell")
        && word_is(args, 3, action);
    proof {
        let long = seq![Some(mode@), Some("--shell"@), None, Some(action@), None];
        let short = seq![Some(mode@), Some("--shell"@), None, Some(action@)];
        assert(long.len() == 5 && long[0] == Some(mode@) && long[1] == Some("--shell"@) && long[2]
            is None && long[3] == Some(action@) && long[4] is None);
        assert(short.len() == 4 && short[0] == Some(mode@) && short[1] == Some("--shell"@)
            && short[2] is None && short[3] == Some(action@));
    }
    result
}

/// Selects the invocation that arguments and plugin context ask for.
pub fn invocation_from(
    args: &Vec<String>,
    event: Option<&str>,
    workspace_id: Option<String>,
    tab_id: Option<String>,
    pane_id: Option<String>,
) -> (invocation: Result<Invocation, String>)
    ensures
        match invocation {
            Ok(invocation) => asked_for(
                args@,
                text::borrowed_text(event),
                workspace_id,
                tab_id,
                pane_id,
            ) == Ok::<Invocation, Seq<char>>(invocation),
            Err(error) => asked_for(
                args@,
                text::borrowed_text(event),
                workspace_id,
                tab_id,
                pane_id,
            ) == Err::<Invocation, Seq<char>>(error@),
        },
{
    if args.len() == 0 {
        return Ok(event_invocation(event, workspace_id, tab_id));
    }
    if is_single_word(args, "clear") {
        return Ok(Invocation::Clear);
    }
    if is_single_word(args, "reset") {
        return Ok(Invocation::Reset { workspace_id, tab_id });
    }
    if is_single_word(args, "toggle") {
        return Ok(Invocation::Toggle { workspace_id, tab_id });
    }
    if is_hook(args, "preexec", "--sample", false) {
        return match required_value("HERDR_PANE_ID", pane_id) {
            Ok(pane_id) => Ok(
                Invocation::Preexec { pane_id, shell: args[2].clone(), program: None },
            ),
            Err(error) => Err(error),
        };
    }
    if is_hook(args, "preexec", "--program", true) {
        return match required_value("HERDR_PANE_ID", pane_id) {
            Ok(pane_id) => Ok(
                Invocation::Preexec {
                    pane_id,
                    shell: args[2].clone(),
                    program: Some(args[4].clone()),
                },
            ),
            Err(error) => Err(error),
        };
    }
    if is_hook(args, "precmd", "--shell-pid", true) {
        return match required_value("HERDR_PANE_ID", pane_id) {
            Ok(pane_id) => match parse_number(args[4].as_str()) {
                Some(shell_pid) => Ok(
                    Invocation::Precmd { pane_id, shell: args[2].clone(), shell_pid },
                ),
                None => Err("--shell-pid must be an unsigned integer".to_owned()),
            },
            Err(error) => Err(error),
        };
    }
    Err("invalid herdr-labels invocation".to_owned())
}

/// What the environment says of a session and of the plugin context.
#[derive(Debug, PartialEq, Eq)]
pub struct Environment {
    /// `HERDR_SOCKET_PATH`
    pub socket_path: Option<Vec<u8>>,
    /// `XDG_STATE_HOME`
    pub state_home: Option<Vec<u8>>,
    /// `HOME`
    pub home: Option<Vec<u8>>,
    /// `HERDR_PLUGIN_EVENT`
    pub plugin_event: Option<String>,
    /// `HERDR_WORKSPACE_ID`
    pub workspace_id: Option<String>,
    /// `HERDR_TAB_ID`
    pub tab_id: Option<String>,
    /// `HERDR_PANE_ID`
    pub pane_id: Option<String>,
}

/// A path where it is absolute, else the error that says it must be.
pub open spec fn checked_path(path: Seq<u8>, name: Seq<char>) -> Result<Seq<u8>, Seq<char>> {
    if filesystem::absolute(path) {
        Ok(path)
    } else {
        Err(name + " must be an absolute path"@)
    }
}

/// A path that must have been given, and must be absolute.
pub open spec fn given_path(name: Seq<char>, value: Option<Vec<u8>>) -> Result<
    Seq<u8>,
    Seq<char>,
> {
    match value {
        Some(path) => checked_path(path@, name),
        None => Err(name + " is not set"@),
    }
}

/// Returns a path that must have been given, and must be absolute.
pub fn required_path(name: &str, value: Option<Vec<u8>>) -> (path: Result<Vec<u8>, String>)
    ensures
        match path {
            Ok(path) => given_path(name@, value) == Ok::<Seq<u8>, Seq<char>>(path@),
            Err(error) => given_path(name@, value) == Err::<Seq<u8>, Seq<char>>(error@),
        },
{
    match value {
        Some(path) => absolute_path(path, name),
        None => {
            let mut message = name.to_owned();
            message.append(" is not set");
            Err(message)
        },
    }
}

/// The directory under which the plugin keeps the state of all sessions.
pub open spec fn state_base(
    state_home: Option<Vec<u8>>,
    home: Option<Vec<u8>>,
) -> Result<Seq<u8>, Seq<char>> {
    let base = match (state_home, home) {
        (Some(path), _) => checked_path(path@, "state base"@),
        (None, Some(home)) => checked_path(
            filesystem::joined(home@, vstd::utf8::encode_utf8(".local/state"@)),
            "state base"@,
        ),
        (None, None) => Err("HOME and XDG_STATE_HOME are not set"@),
    };
    match base {
        Ok(base) => Ok(filesystem::joined(base, vstd::utf8::encode_utf8("herdr-labels"@))),
        Err(error) => Err(error),
    }
}

/// Locates the directory under which the plugin keeps the state of all sessions.
pub fn state_base_dir(state_home: &Option<Vec<u8>>, home: &Option<Vec<u8>>) -> (path: Result<
    Vec<u8>,
    String,
>)
    ensures
        match path {
            Ok(path) => state_base(*state_home, *home) == Ok::<Seq<u8>, Seq<char>>(path@),
            Err(error) => state_base(*state_home, *home) == Err::<Seq<u8>, Seq<char>>(error@),
        },
{
    let base = match (state_home, home) {
        (Some(path), _) => filesystem::clone_bytes(path),
        (None, Some(home)) => join_path(home, ".local/state"),
        (None, None) => {
            return Err("HOME and XDG_STATE_HOME are not set".to_owned());
        },
    };
    match absolute_path(base, "state base") {
        Ok(base) => Ok(join_path(&base, "herdr-labels")),
        Err(error) => Err(error),
    }
}

/// The SHA-256 digest of bytes in lower-case hexadecimal digits.
pub uninterp spec fn sha256_hex(bytes: Seq<u8>) -> Seq<char>;

/// The lower-case hexadecimal digits.
pub open spec fn hexadecimal(character: char) -> bool {
    '0' <= character <= '9' || 'a' <= character <= 'f'
}

/// `Sha256` of the crate `sha2`, fed with the bytes and written with `{:x}`.
///
/// The digest is named, not described. Stated besides are the shape that the formatting gives it:
/// two lower-case hexadecimal digits for each of its 32 bytes.
#[verifier::external_body]
fn digest_text(bytes: &Vec<u8>) -> (digest: String)
    ensures
        digest@ == sha256_hex(bytes@),
        digest@.len() == 64,
        forall|i: int| 0 <= i < digest@.len() ==> hexadecimal(#[trigger] digest@[i]),
{
    let mut digest = Sha256::new();
    digest.update(bytes.as_slice());
    format!("{:x}", digest.finalize())
}

/// The key that a session's directory is named by.
pub open spec fn session_key(socket_path: Seq<u8>) -> Seq<char> {
    sha256_hex(socket_path).take(16)
}

/// The directory that the state of a session is kept in.
pub open spec fn session_directory(
    state_home: Option<Vec<u8>>,
    home: Option<Vec<u8>>,
    socket_path: Seq<u8>,
) -> Result<Seq<u8>, Seq<char>> {
    match state_base(state_home, home) {
        Ok(base) => Ok(
            filesystem::joined(base, vstd::utf8::encode_utf8(session_key(socket_path))),
        ),
        Err(error) => Err(error),
    }
}

/// Shortens a digest to the key that a session's directory is named by.
pub fn digest_key(digest: &str) -> (key: String)
    requires
        digest@.len() >= 16,
    ensures
        key@ == digest@.take(16),
{
    assert(digest@.subrange(0, 16) == digest@.take(16));
    digest.substring_char(0, 16).to_owned()
}

/// The key that a session's directory is named by.
pub fn session_key_text(socket_path: &Vec<u8>) -> (key: String)
    ensures
        key@ == session_key(socket_path@),
        key@.len() == 16,
        forall|i: int| 0 <= i < key@.len() ==> hexadecimal(#[trigger] key@[i]),
{
    digest_key(digest_text(socket_path).as_str())
}

/// Locates the directory that the state of a session is kept in.
pub fn session_state_dir(
    state_home: &Option<Vec<u8>>,
    home: &Option<Vec<u8>>,
    socket_path: &Vec<u8>,
) -> (path: Result<Vec<u8>, String>)
    ensures
        match path {
            Ok(path) => session_directory(*state_home, *home, socket_path@) == Ok::<
                Seq<u8>,
                Seq<char>,
            >(path@),
            Err(error) => session_directory(*state_home, *home, socket_path@) == Err::<
                Seq<u8>,
                Seq<char>,
            >(error@),
        },
{
    let key = session_key_text(socket_path);
    match state_base_dir(state_home, home) {
        Ok(base) => Ok(join_path(&base, key.as_str())),
        Err(error) => Err(error),
    }
}

/// The first thing that keeps an invocation from being run, if anything does.
pub open spec fn config_defect(environment: Environment, args: Seq<String>) -> Option<Seq<char>> {
    match given_path("HERDR_SOCKET_PATH"@, environment.socket_path) {
        Err(error) => Some(error),
        Ok(socket_path) => match session_directory(
            environment.state_home,
            environment.home,
            socket_path,
        ) {
            Err(error) => Some(error),
            Ok(_) => match asked_for(
                args,
                text::optional_text(environment.plugin_event),
                environment.workspace_id,
                environment.tab_id,
                environment.pane_id,
            ) {
                Err(error) => Some(error),
                Ok(_) => None,
            },
        },
    }
}

/// Whether a configuration is what environment and arguments ask for, settings aside.
pub open spec fn configured(config: Config, environment: Environment, args: Seq<String>) -> bool {
    &&& given_path("HERDR_SOCKET_PATH"@, environment.socket_path) == Ok::<Seq<u8>, Seq<char>>(
        config.socket_path@,
    )
    &&& session_directory(environment.state_home, environment.home, config.socket_path@) == Ok::<
        Seq<u8>,
        Seq<char>,
    >(config.state_dir@)
    &&& asked_for(
        args,
        text::optional_text(environment.plugin_event),
        environment.workspace_id,
        environment.tab_id,
        environment.pane_id,
    ) == Ok::<Invocation, Seq<char>>(config.invocation)
    &&& config.event == environment.plugin_event
    &&& config.event_workspace_id == environment.workspace_id
    &&& config.event_tab_id == environment.tab_id
    &&& config.event_pane_id == environment.pane_id
}

impl Config {
    /// Reads the invocation and session paths from arguments and the environment.
    ///
    /// The settings are the defaults until others are taken over.
    pub fn from_env(environment: Environment, args: &Vec<String>) -> (config: Result<Self, String>)
        ensures
            match config {
                Ok(config) => config_defect(environment, args@) is None && configured(
                    config,
                    environment,
                    args@,
                ) && settings::default_settings(config.settings),
                Err(error) => config_defect(environment, args@) == Some(error@),
            },
    {
        let socket_path = match required_path("HERDR_SOCKET_PATH", environment.socket_path) {
            Ok(path) => path,
            Err(error) => {
                return Err(error);
            },
        };
        let state_dir = match session_state_dir(
            &environment.state_home,
            &environment.home,
            &socket_path,
        ) {
            Ok(path) => path,
            Err(error) => {
                return Err(error);
            },
        };
        let invocation = match invocation_from(
            args,
            text::borrow_text(&environment.plugin_event),
            environment.workspace_id.clone(),
            environment.tab_id.clone(),
            environment.pane_id.clone(),
        ) {
            Ok(invocation) => invocation,
            Err(error) => {
                return Err(error);
            },
        };
        Ok(
            Config {
                socket_path,
                state_dir,
                settings: Settings::default(),
                invocation,
                event: environment.plugin_event,
                event_workspace_id: environment.workspace_id,
                event_tab_id: environment.tab_id,
                event_pane_id: environment.pane_id,
            },
        )
    }

    /// Whether the user's settings matter: clearing a session works without them.
    pub fn needs_settings(&self) -> (result: bool)
        ensures
            result == !(self.invocation is Clear),
    {
        match self.invocation {
            Invocation::Clear => false,
            _ => true,
        }
    }

    /// Takes over the user's settings where they matter, or fails with them.
    pub fn with_settings(self, settings: Result<Settings, String>) -> (config: Result<Self, String>)
        ensures
            match config {
                Ok(config) => if self.invocation is Clear {
                    config == self
                } else {
                    settings is Ok && config == (Config { settings: settings->Ok_0, ..self })
                },
                Err(error) => !(self.invocation is Clear) && settings == Err::<Settings, String>(
                    error,
                ),
            },
    {
        if !self.needs_settings() {
            return Ok(self);
        }
        match settings {
            Ok(settings) => {
                let mut config = self;
                config.settings = settings;
                Ok(config)
            },
            Err(error) => Err(error),
        }
    }
}

/// Two sessions share a directory exactly if their keys are the same.
///
/// The key of a socket path is always the same, so a session always finds its directory again.
pub proof fn sessions_are_isolated(
    state_home: Option<Vec<u8>>,
    home: Option<Vec<u8>>,
    first: Seq<u8>,
    second: Seq<u8>,
)
    requires
        state_base(state_home, home) is Ok,
    ensures
        session_directory(state_home, home, first) is Ok,
        session_directory(state_home, home, second) is Ok,
        hexadecimal_key(session_key(first)) && hexadecimal_key(session_key(second)) ==> (
        session_directory(state_home, home, first) == session_directory(state_home, home, second)
            <==> session_key(first) == session_key(second)),
{
    let left = session_key(first);
    let right = session_key(second);
    if hexadecimal_key(left) && hexadecimal_key(right) && left != right {
        lemma_key_bytes(left);
        lemma_key_bytes(right);
        vstd::utf8::encode_utf8_decode_utf8(left);
        vstd::utf8::encode_utf8_decode_utf8(right);
        filesystem::names_stay_apart(
            state_base(state_home, home)->Ok_0,
            vstd::utf8::encode_utf8(left),
            vstd::utf8::encode_utf8(right),
        );
    }
}

/// Whether a key has the shape that every session key has.
pub open spec fn hexadecimal_key(key: Seq<char>) -> bool {
    key.len() == 16 && forall|i: int| 0 <= i < key.len() ==> hexadecimal(#[trigger] key[i])
}

proof fn lemma_key_bytes(key: Seq<char>)
    requires
        hexadecimal_key(key),
    ensures
        !filesystem::absolute(vstd::utf8::encode_utf8(key)),
{
    assert(vstd::utf8::is_ascii_chars(key)) by {
        assert forall|i: int| 0 <= i < key.len() implies '\0' <= #[trigger] key[i] <= '\u{7f}' by {
            assert(hexadecimal(key[i]));
        }
    }
    vstd::utf8::is_ascii_chars_encode_utf8(key);
    assert(hexadecimal(key[0]));
    assert(vstd::utf8::encode_utf8(key)[0] == key[0] as u8);
}

} // verus!
