//! What arguments, events and paths of the environment ask for.

use vstd::prelude::*;
use vstd::utf8::encode_utf8;

use crate::config;
use crate::config::{Config, Environment, Invocation};
use crate::filesystem;
use crate::settings;
use crate::settings::Settings;
use crate::text;

verus! {

/// The workspace, or the whole session without one.
pub open spec fn wide_scope(workspace_id: Option<String>) -> Invocation {
    if workspace_id is Some {
        Invocation::Workspace(workspace_id->0)
    } else {
        Invocation::Full
    }
}

proof fn lemma_event_names()
    ensures
        ({
            let names = seq![
                "tab.closed"@,
                "tab.created"@,
                "tab.moved"@,
                "pane.closed"@,
                "pane.created"@,
                "pane.exited"@,
                "tab.renamed"@,
                "tab.focused"@,
                "pane.focused"@,
            ];
            forall|i: int, j: int|
                0 <= i < j < 9 ==> #[trigger] names[i] != #[trigger] names[j]
        }),
{
    reveal_strlit("tab.closed");
    reveal_strlit("tab.created");
    reveal_strlit("tab.moved");
    reveal_strlit("pane.closed");
    reveal_strlit("pane.created");
    reveal_strlit("pane.exited");
    reveal_strlit("tab.renamed");
    reveal_strlit("tab.focused");
    reveal_strlit("pane.focused");
    assert("tab.closed"@.len() == 10 && "tab.moved"@.len() == 9);
    assert("tab.created"@.len() == 11 && "tab.created"@[4] == 'c' && "tab.created"@[0] == 't');
    assert("tab.renamed"@.len() == 11 && "tab.renamed"@[4] == 'r' && "tab.renamed"@[0] == 't');
    assert("tab.focused"@.len() == 11 && "tab.focused"@[4] == 'f' && "tab.focused"@[0] == 't');
    assert("pane.closed"@.len() == 11 && "pane.closed"@[5] == 'c' && "pane.closed"@[0] == 'p');
    assert("pane.exited"@.len() == 11 && "pane.exited"@[5] == 'e' && "pane.exited"@[0] == 'p');
    assert("pane.created"@.len() == 12 && "pane.created"@[5] == 'c');
    assert("pane.focused"@.len() == 12 && "pane.focused"@[5] == 'f');
}

/// Every event asks for the tab or the workspace that it names: a closed tab keeps what ids there
/// are, events that move tabs and panes ask for the workspace, and a rename or a focus asks for
/// the tab. Where ids are missing the scope is wider, and an event that is not known asks for a
/// full pass.
pub proof fn events_ask_for_what_they_name(
    event: Seq<char>,
    workspace_id: Option<String>,
    tab_id: Option<String>,
)
    ensures
        ({
            let asked = config::for_event(Some(event), workspace_id, tab_id);
            &&& event == "tab.closed"@ ==> asked == (Invocation::ClosedTab {
                workspace_id,
                tab_id,
            })
            &&& event == "tab.created"@ ==> asked == wide_scope(workspace_id)
            &&& event == "tab.moved"@ ==> asked == wide_scope(workspace_id)
            &&& event == "pane.closed"@ ==> asked == wide_scope(workspace_id)
            &&& event == "pane.created"@ ==> asked == wide_scope(workspace_id)
            &&& event == "pane.exited"@ ==> asked == wide_scope(workspace_id)
            &&& event == "tab.renamed"@ ==> asked == match (workspace_id, tab_id) {
                (Some(workspace_id), Some(tab_id)) => Invocation::RenamedTab {
                    workspace_id,
                    tab_id,
                },
                _ => wide_scope(workspace_id),
            }
            &&& event == "tab.focused"@ || event == "pane.focused"@ ==> asked == match (
                workspace_id,
                tab_id,
            ) {
                (Some(workspace_id), Some(tab_id)) => Invocation::Tab { workspace_id, tab_id },
                _ => wide_scope(workspace_id),
            }
            &&& !seq![
                "tab.closed"@,
                "tab.created"@,
                "tab.moved"@,
                "pane.closed"@,
                "pane.created"@,
                "pane.exited"@,
                "tab.renamed"@,
                "tab.focused"@,
                "pane.focused"@,
            ].contains(event) ==> asked is Full
            &&& config::for_event(None, workspace_id, tab_id) is Full
        }),
{
    lemma_event_names();
    let names = seq![
        "tab.closed"@,
        "tab.created"@,
        "tab.moved"@,
        "pane.closed"@,
        "pane.created"@,
        "pane.exited"@,
        "tab.renamed"@,
        "tab.focused"@,
        "pane.focused"@,
    ];
    assert(names[0] == "tab.closed"@ && names[1] == "tab.created"@ && names[2] == "tab.moved"@);
    assert(names[3] == "pane.closed"@ && names[4] == "pane.created"@ && names[5] == "pane.exited"@);
    assert(names[6] == "tab.renamed"@ && names[7] == "tab.focused"@ && names[8] == "pane.focused"@);
}

/// Whether an argument is a word.
pub open spec fn word(args: Seq<String>, place: int, wanted: Seq<char>) -> bool {
    args[place]@ == wanted
}

proof fn lemma_words(args: Seq<String>, words: Seq<Option<Seq<char>>>)
    ensures
        words.len() == 1 ==> (config::words_are(args, words) <==> args.len() == 1 && (
        words[0] is Some ==> args[0]@ == words[0]->0)),
        words.len() == 4 ==> (config::words_are(args, words) <==> args.len() == 4 && (
        words[0] is Some ==> args[0]@ == words[0]->0) && (words[1] is Some ==> args[1]@
            == words[1]->0) && (words[2] is Some ==> args[2]@ == words[2]->0) && (
        words[3] is Some ==> args[3]@ == words[3]->0)),
        words.len() == 5 ==> (config::words_are(args, words) <==> args.len() == 5 && (
        words[0] is Some ==> args[0]@ == words[0]->0) && (words[1] is Some ==> args[1]@
            == words[1]->0) && (words[2] is Some ==> args[2]@ == words[2]->0) && (
        words[3] is Some ==> args[3]@ == words[3]->0) && (words[4] is Some ==> args[4]@
            == words[4]->0)),
{
    if config::words_are(args, words) {
        assert(0 < words.len() ==> (words[0] is Some ==> args[0]@ == words[0]->0));
        assert(1 < words.len() ==> (words[1] is Some ==> args[1]@ == words[1]->0));
        assert(2 < words.len() ==> (words[2] is Some ==> args[2]@ == words[2]->0));
        assert(3 < words.len() ==> (words[3] is Some ==> args[3]@ == words[3]->0));
        assert(4 < words.len() ==> (words[4] is Some ==> args[4]@ == words[4]->0));
    }
}

/// Without arguments an event is handled, a single word is an action, and anything else that is not
/// the form of a hook is refused.
pub proof fn arguments_name_actions(
    args: Seq<String>,
    event: Option<Seq<char>>,
    workspace_id: Option<String>,
    tab_id: Option<String>,
    pane_id: Option<String>,
)
    ensures
        ({
            let asked = config::asked_for(args, event, workspace_id, tab_id, pane_id);
            let refused = Err::<Invocation, Seq<char>>("invalid herdr-labels invocation"@);
            &&& args.len() == 0 ==> asked == Ok::<Invocation, Seq<char>>(
                config::for_event(event, workspace_id, tab_id),
            )
            &&& args.len() == 1 && word(args, 0, "clear"@) ==> asked == Ok::<
                Invocation,
                Seq<char>,
            >(Invocation::Clear)
            &&& args.len() == 1 && word(args, 0, "reset"@) ==> asked == Ok::<
                Invocation,
                Seq<char>,
            >(Invocation::Reset { workspace_id, tab_id })
            &&& args.len() == 1 && word(args, 0, "toggle"@) ==> asked == Ok::<
                Invocation,
                Seq<char>,
            >(Invocation::Toggle { workspace_id, tab_id })
            &&& args.len() == 1 && !word(args, 0, "clear"@) && !word(args, 0, "reset"@) && !word(
                args,
                0,
                "toggle"@,
            ) ==> asked == refused
            &&& args.len() == 2 || args.len() == 3 || args.len() > 5 ==> asked == refused
            &&& args.len() > 1 && !word(args, 1, "--shell"@) ==> asked == refused
            &&& args.len() > 1 && !word(args, 0, "preexec"@) && !word(args, 0, "precmd"@)
                ==> asked == refused
            &&& args.len() == 4 && !(word(args, 0, "preexec"@) && word(args, 3, "--sample"@))
                ==> asked == refused
            &&& args.len() == 5 && !(word(args, 0, "preexec"@) && word(args, 3, "--program"@)) && !(
            word(args, 0, "precmd"@) && word(args, 3, "--shell-pid"@)) ==> asked == refused
        }),
{
    lemma_forms(args);
}

/// Whether arguments are those of a hook of a shell.
pub open spec fn hook(args: Seq<String>, count: int, mode: Seq<char>, option: Seq<char>) -> bool {
    args.len() == count && word(args, 0, mode) && word(args, 1, "--shell"@) && word(args, 3, option)
}

proof fn lemma_forms(args: Seq<String>)
    ensures
        config::words_are(args, seq![Some("clear"@)]) <==> args.len() == 1 && word(
            args,
            0,
            "clear"@,
        ),
        config::words_are(args, seq![Some("reset"@)]) <==> args.len() == 1 && word(
            args,
            0,
            "reset"@,
        ),
        config::words_are(args, seq![Some("toggle"@)]) <==> args.len() == 1 && word(
            args,
            0,
            "toggle"@,
        ),
        config::words_are(
            args,
            seq![Some("preexec"@), Some("--shell"@), None, Some("--sample"@)],
        ) <==> hook(args, 4, "preexec"@, "--sample"@),
        config::words_are(
            args,
            seq![Some("preexec"@), Some("--shell"@), None, Some("--program"@), None],
        ) <==> hook(args, 5, "preexec"@, "--program"@),
        config::words_are(
            args,
            seq![Some("precmd"@), Some("--shell"@), None, Some("--shell-pid"@), None],
        ) <==> hook(args, 5, "precmd"@, "--shell-pid"@),
        "clear"@ != "reset"@,
        "clear"@ != "toggle"@,
        "reset"@ != "toggle"@,
        "preexec"@ != "precmd"@,
{
    lemma_words(args, seq![Some("clear"@)]);
    lemma_words(args, seq![Some("reset"@)]);
    lemma_words(args, seq![Some("toggle"@)]);
    lemma_words(args, seq![Some("preexec"@), Some("--shell"@), None, Some("--sample"@)]);
    lemma_words(args, seq![Some("preexec"@), Some("--shell"@), None, Some("--program"@), None]);
    lemma_words(args, seq![Some("precmd"@), Some("--shell"@), None, Some("--shell-pid"@), None]);
    reveal_strlit("clear");
    reveal_strlit("reset");
    reveal_strlit("toggle");
    reveal_strlit("preexec");
    reveal_strlit("precmd");
    assert("clear"@[0] == 'c' && "reset"@[0] == 'r' && "toggle"@[0] == 't');
    assert("preexec"@.len() == 7 && "precmd"@.len() == 6);
}

/// The hooks of a shell hand over the shell, and the program that starts or the process of the
/// shell; they need to be told their pane.
pub proof fn hooks_hand_over_their_arguments(
    args: Seq<String>,
    event: Option<Seq<char>>,
    workspace_id: Option<String>,
    tab_id: Option<String>,
    pane_id: String,
)
    ensures
        ({
            let asked = config::asked_for(args, event, workspace_id, tab_id, Some(pane_id));
            let unplaced = config::asked_for(args, event, workspace_id, tab_id, None);
            let unset = Err::<Invocation, Seq<char>>("HERDR_PANE_ID"@ + " is not set"@);
            &&& hook(args, 4, "preexec"@, "--sample"@) ==> unplaced == unset && asked == Ok::<
                Invocation,
                Seq<char>,
            >(Invocation::Preexec { pane_id, shell: args[2], program: None })
            &&& hook(args, 5, "preexec"@, "--program"@) ==> unplaced == unset && asked == Ok::<
                Invocation,
                Seq<char>,
            >(Invocation::Preexec { pane_id, shell: args[2], program: Some(args[4]) })
            &&& hook(args, 5, "precmd"@, "--shell-pid"@) ==> unplaced == unset && asked
                == match text::parsed_number(args[4]@) {
                Some(shell_pid) => Ok::<Invocation, Seq<char>>(
                    Invocation::Precmd { pane_id, shell: args[2], shell_pid },
                ),
                None => Err::<Invocation, Seq<char>>("--shell-pid must be an unsigned integer"@),
            }
        }),
{
    lemma_forms(args);
}

/// A number is read from digits, with a plus sign in front or without, and from nothing else; it is
/// read if it fits.
pub proof fn numbers_are_read_from_digits(digits: Seq<char>, other: Seq<char>, place: int)
    requires
        digits.len() > 0,
        forall|i: int| 0 <= i < digits.len() ==> '0' <= #[trigger] digits[i] <= '9',
        0 <= place < other.len(),
        !('0' <= other[place] <= '9'),
        !(place == 0 && other[place] == '+'),
    ensures
        text::decimal_value(digits) <= u32::MAX ==> text::parsed_number(digits) == Some(
            text::decimal_value(digits) as u32,
        ),
        text::decimal_value(digits) > u32::MAX ==> text::parsed_number(digits) is None,
        text::parsed_number(seq!['+'] + digits) == text::parsed_number(digits),
        text::parsed_number(other) is None,
        text::parsed_number(Seq::empty()) is None,
        text::parsed_number(seq!['+']) is None,
{
    assert forall|i: int| 0 <= i < digits.len() implies text::digit(#[trigger] digits[i]) by {}
    assert(digits[0] != '+');
    assert((seq!['+'] + digits).skip(1) =~= digits);
    assert(seq!['+'].skip(1) =~= Seq::<char>::empty());
    if text::all_digits(text::unsigned_digits(other)) {
        if other[0] == '+' {
            assert(text::unsigned_digits(other)[place - 1] == other[place]);
        } else {
            assert(text::unsigned_digits(other)[place] == other[place]);
        }
    }
}

/// A path is absolute if a slash is its first byte.
pub proof fn absolute_paths_start_with_a_slash(rest: Seq<u8>, path: Seq<u8>)
    ensures
        filesystem::absolute(seq![47u8] + rest),
        !filesystem::absolute(Seq::empty()),
        path.len() > 0 && path[0] != 47 ==> !filesystem::absolute(path),
{
}

/// A name is put behind a directory with one slash between them; an absolute name stands for
/// itself.
pub proof fn names_are_put_behind_a_slash(base: Seq<u8>, name: Seq<u8>)
    requires
        base.len() > 0 ==> base.last() != 47,
        name.len() > 0 ==> name[0] != 47,
    ensures
        base.len() > 0 ==> filesystem::joined(base, name) == base + seq![47u8] + name,
        filesystem::joined(base + seq![47u8], name) == base + seq![47u8] + name,
        filesystem::joined(Seq::empty(), name) == name,
        filesystem::joined(base, seq![47u8] + name) == seq![47u8] + name,
{
    assert((base + seq![47u8]).last() == 47);
    if base.len() > 0 {
        assert(filesystem::joined(base, name) =~= base + seq![47u8] + name);
    }
    assert(filesystem::joined(Seq::empty(), name) =~= name);
}

/// Paths of the environment are taken as they are, and refused unless they are absolute.
pub proof fn relative_paths_are_refused(name: Seq<char>, path: Vec<u8>)
    ensures
        path@.len() > 0 && path@[0] == 47 ==> config::given_path(name, Some(path)) == Ok::<
            Seq<u8>,
            Seq<char>,
        >(path@),
        path@.len() == 0 || path@[0] != 47 ==> config::given_path(name, Some(path)) == Err::<
            Seq<u8>,
            Seq<char>,
        >(name + " must be an absolute path"@),
        config::given_path(name, None) == Err::<Seq<u8>, Seq<char>>(name + " is not set"@),
{
}

/// The state is kept under the state base of the user, or else under the home directory, in a
/// directory of the plugin's and there in one for each session.
pub proof fn states_are_kept_under_the_state_base(
    state_home: Vec<u8>,
    home: Vec<u8>,
    other: Option<Vec<u8>>,
    socket: Seq<u8>,
)
    ensures
        ({
            let plugin = encode_utf8("herdr-labels"@);
            let session = encode_utf8(config::sha256_hex(socket).take(16));
            let within = |base: Seq<u8>|
                Ok::<Seq<u8>, Seq<char>>(
                    filesystem::joined(filesystem::joined(base, plugin), session),
                );
            let refused = Err::<Seq<u8>, Seq<char>>("state base"@ + " must be an absolute path"@);
            let by_home = filesystem::joined(home@, encode_utf8(".local/state"@));
            &&& config::session_directory(Some(state_home), other, socket)
                == if filesystem::absolute(state_home@) {
                within(state_home@)
            } else {
                refused
            }
            &&& config::session_directory(None, Some(home), socket) == if filesystem::absolute(
                by_home,
            ) {
                within(by_home)
            } else {
                refused
            }
            &&& config::session_directory(None, None, socket) == Err::<Seq<u8>, Seq<char>>(
                "HOME and XDG_STATE_HOME are not set"@,
            )
        }),
{
}

/// The settings are those of the path that was asked for, or else those of the plugin under the
/// configuration base of the user or the home directory; none of them may be relative.
pub proof fn settings_are_found_under_the_configuration_base(
    asked: Vec<u8>,
    config_home: Vec<u8>,
    home: Vec<u8>,
    other: Option<Vec<u8>>,
    another: Option<Vec<u8>>,
)
    ensures
        ({
            let file = encode_utf8("herdr-labels/config.toml"@);
            let by_home = filesystem::joined(home@, encode_utf8(".config"@));
            let refused = Err::<Seq<u8>, Seq<char>>(
                "configuration base"@ + " must be an absolute path"@,
            );
            &&& settings::configuration_file(Some(asked), other, another)
                == if filesystem::absolute(asked@) {
                Ok::<Seq<u8>, Seq<char>>(asked@)
            } else {
                Err::<Seq<u8>, Seq<char>>("HERDR_LABELS_CONFIG"@ + " must be an absolute path"@)
            }
            &&& settings::configuration_file(None, Some(config_home), another)
                == if filesystem::absolute(config_home@) {
                Ok::<Seq<u8>, Seq<char>>(filesystem::joined(config_home@, file))
            } else {
                refused
            }
            &&& settings::configuration_file(None, None, Some(home)) == if filesystem::absolute(
                by_home,
            ) {
                Ok::<Seq<u8>, Seq<char>>(filesystem::joined(by_home, file))
            } else {
                refused
            }
            &&& settings::configuration_file(None, None, None) == Err::<Seq<u8>, Seq<char>>(
                "HOME and XDG_CONFIG_HOME are not set"@,
            )
        }),
{
}

/// Without a configuration tabs are named and numbered, idle shells are shown, labels have at most
/// two dozen characters, and nothing is recorded.
pub proof fn unconfigured_settings_name_and_number(configured: Settings, name: Seq<char>)
    requires
        settings::default_settings(configured),
    ensures
        configured@.auto_name_tabs && configured@.number_tabs,
        !configured@.hide_idle_shell && !configured@.diagnostic_telemetry,
        configured@.max_label_chars == 24,
        configured@.shells.contains(name) <==> name == "zsh"@ || name == "bash"@ || name == "sh"@
            || name == "dash"@ || name == "ksh"@,
        configured@.ignored_processes.contains(name) <==> name == "ls"@ || name == "cat"@ || name
            == "pwd"@ || name == "clear"@ || name == "git"@ || name == "direnv"@ || name
            == "scutil"@,
        !configured@.process_aliases.dom().contains(name),
{
    let shells = configured.shells@;
    let ignored = configured.ignored_processes@;
    assert forall|i: int| 0 <= i < shells.len() implies (#[trigger] shells[i])@ == text::texts(
        shells,
    )[i] by {}
    assert forall|i: int| 0 <= i < ignored.len() implies (#[trigger] ignored[i])@ == text::texts(
        ignored,
    )[i] by {}
    let known = seq!["zsh"@, "bash"@, "sh"@, "dash"@, "ksh"@];
    assert(text::texts(shells) == known && known.len() == 5);
    assert(text::texts(shells).len() == shells.len());
    assert(shells[0]@ == "zsh"@ && shells[1]@ == "bash"@ && shells[2]@ == "sh"@ && shells[3]@
        == "dash"@ && shells[4]@ == "ksh"@);
    let passed_over = seq!["ls"@, "cat"@, "pwd"@, "clear"@, "git"@, "direnv"@, "scutil"@];
    assert(text::texts(ignored) == passed_over && passed_over.len() == 7);
    assert(text::texts(ignored).len() == ignored.len());
    assert(ignored[0]@ == "ls"@ && ignored[1]@ == "cat"@ && ignored[2]@ == "pwd"@ && ignored[3]@
        == "clear"@ && ignored[4]@ == "git"@ && ignored[5]@ == "direnv"@ && ignored[6]@
        == "scutil"@);
}

/// An environment is refused for its socket first, then for its directories, then for the
/// arguments; one that is accepted takes over what it was given.
pub proof fn environments_are_checked_in_order(
    environment: Environment,
    args: Seq<String>,
    config: Config,
)
    ensures
        environment.socket_path is None ==> config::config_defect(environment, args) == Some(
            "HERDR_SOCKET_PATH"@ + " is not set"@,
        ),
        environment.socket_path matches Some(socket) ==> {
            let directory = config::session_directory(
                environment.state_home,
                environment.home,
                socket@,
            );
            let asked = config::asked_for(
                args,
                match environment.plugin_event {
                    Some(event) => Some(event@),
                    None => None,
                },
                environment.workspace_id,
                environment.tab_id,
                environment.pane_id,
            );
            &&& !filesystem::absolute(socket@) ==> config::config_defect(environment, args)
                == Some("HERDR_SOCKET_PATH"@ + " must be an absolute path"@)
            &&& filesystem::absolute(socket@) ==> config::config_defect(environment, args)
                == match (directory, asked) {
                (Err(error), _) => Some(error),
                (_, Err(error)) => Some(error),
                _ => None,
            }
            &&& config::configured(config, environment, args) ==> {
                &&& config.socket_path@ == socket@
                &&& directory == Ok::<Seq<u8>, Seq<char>>(config.state_dir@)
                &&& asked == Ok::<Invocation, Seq<char>>(config.invocation)
                &&& config.event == environment.plugin_event
                &&& config.event_workspace_id == environment.workspace_id
                &&& config.event_tab_id == environment.tab_id
                &&& config.event_pane_id == environment.pane_id
            }
        },
{
}

} // verus!
