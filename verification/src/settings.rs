//! Typed user settings.

use vstd::prelude::*;

use crate::filesystem;
use crate::filesystem::{absolute_path, join_path, FileFailure};
use crate::naming::{NamingPolicy, PolicyView};
use crate::table::Table;
use crate::text;
use crate::text::clone_texts;

verus! {

/// User-configurable tab naming and numbering behavior.
#[derive(Debug, PartialEq, Eq)]
pub struct Settings {
    pub auto_name_tabs: bool,
    pub number_tabs: bool,
    pub hide_idle_shell: bool,
    pub max_label_chars: usize,
    pub shells: Vec<String>,
    pub ignored_processes: Vec<String>,
    pub process_aliases: Table<String>,
    /// Record the decisions of pane-close and focus events.
    pub diagnostic_telemetry: bool,
}

/// What settings say, with their lists as sets.
#[verifier::ext_equal]
pub struct SettingsView {
    pub auto_name_tabs: bool,
    pub number_tabs: bool,
    pub hide_idle_shell: bool,
    pub max_label_chars: nat,
    pub shells: Set<Seq<char>>,
    pub ignored_processes: Set<Seq<char>>,
    pub process_aliases: Map<Seq<char>, Seq<char>>,
    pub diagnostic_telemetry: bool,
}

impl View for Settings {
    type V = SettingsView;

    open spec fn view(&self) -> SettingsView {
        SettingsView {
            auto_name_tabs: self.auto_name_tabs,
            number_tabs: self.number_tabs,
            hide_idle_shell: self.hide_idle_shell,
            max_label_chars: self.max_label_chars as nat,
            shells: text::text_set(self.shells@),
            ignored_processes: text::text_set(self.ignored_processes@),
            process_aliases: self.process_aliases@,
            diagnostic_telemetry: self.diagnostic_telemetry,
        }
    }
}

impl Clone for Settings {
    fn clone(&self) -> (copy: Self)
        ensures
            copy@ == self@,
    {
        Settings {
            auto_name_tabs: self.auto_name_tabs,
            number_tabs: self.number_tabs,
            hide_idle_shell: self.hide_idle_shell,
            max_label_chars: self.max_label_chars,
            shells: clone_texts(&self.shells),
            ignored_processes: clone_texts(&self.ignored_processes),
            process_aliases: self.process_aliases.clone(),
            diagnostic_telemetry: self.diagnostic_telemetry,
        }
    }
}

/// Whether settings are those of a user who has configured nothing.
pub open spec fn default_settings(settings: Settings) -> bool {
    &&& settings.auto_name_tabs
    &&& settings.number_tabs
    &&& !settings.hide_idle_shell
    &&& settings.max_label_chars == 24
    &&& text::texts(settings.shells@) == seq!["zsh"@, "bash"@, "sh"@, "dash"@, "ksh"@]
    &&& text::texts(settings.ignored_processes@) == seq![
        "ls"@,
        "cat"@,
        "pwd"@,
        "clear"@,
        "git"@,
        "direnv"@,
        "scutil"@,
    ]
    &&& settings.process_aliases@ == Map::<Seq<char>, Seq<char>>::empty()
    &&& !settings.diagnostic_telemetry
}

impl Default for Settings {
    fn default() -> (settings: Self)
        ensures
            default_settings(settings),
    {
        let mut shells: Vec<String> = Vec::new();
        shells.push("zsh".to_owned());
        shells.push("bash".to_owned());
        shells.push("sh".to_owned());
        shells.push("dash".to_owned());
        shells.push("ksh".to_owned());
        let mut ignored_processes: Vec<String> = Vec::new();
        ignored_processes.push("ls".to_owned());
        ignored_processes.push("cat".to_owned());
        ignored_processes.push("pwd".to_owned());
        ignored_processes.push("clear".to_owned());
        ignored_processes.push("git".to_owned());
        ignored_processes.push("direnv".to_owned());
        ignored_processes.push("scutil".to_owned());
        assert(text::texts(shells@) =~= seq!["zsh"@, "bash"@, "sh"@, "dash"@, "ksh"@]);
        assert(text::texts(ignored_processes@) =~= seq![
            "ls"@,
            "cat"@,
            "pwd"@,
            "clear"@,
            "git"@,
            "direnv"@,
            "scutil"@,
        ]);
        Settings {
            auto_name_tabs: true,
            number_tabs: true,
            hide_idle_shell: false,
            max_label_chars: 24,
            shells,
            ignored_processes,
            process_aliases: Table::new(),
            diagnostic_telemetry: false,
        }
    }
}

impl Settings {
    /// Takes over the settings of the configuration file, or the defaults when it is missing.
    ///
    /// `read` is what the contents of the file were parsed as, or why they could not be read.
    pub fn load(read: Result<Result<Settings, String>, FileFailure>) -> (settings: Result<
        Settings,
        String,
    >)
        ensures
            match read {
                Ok(parsed) => settings == parsed,
                Err(FileFailure::Missing(_)) => settings is Ok && default_settings(
                    settings->Ok_0,
                ),
                Err(failure) => settings == Err::<Settings, String>(failure.text()),
            },
    {
        match read {
            Ok(parsed) => parsed,
            Err(FileFailure::Missing(_)) => Ok(Settings::default()),
            Err(failure) => Err(failure.into_text()),
        }
    }
}

/// The naming policy that settings ask for.
pub open spec fn policy_of(settings: SettingsView) -> PolicyView {
    PolicyView {
        hide_idle_shell: settings.hide_idle_shell,
        max_label_chars: settings.max_label_chars,
        shells: settings.shells,
        ignored_processes: settings.ignored_processes,
        aliases: settings.process_aliases,
    }
}

/// Derives the naming policy from the settings.
pub fn naming_policy(settings: &Settings) -> (policy: NamingPolicy)
    ensures
        policy@ == policy_of(settings@),
{
    NamingPolicy {
        hide_idle_shell: settings.hide_idle_shell,
        max_label_chars: settings.max_label_chars,
        shells: clone_texts(&settings.shells),
        ignored_processes: clone_texts(&settings.ignored_processes),
        aliases: settings.process_aliases.clone(),
    }
}

/// Where the configuration file is, or why it cannot be located.
///
/// A configured path counts before the configuration base, and that before the home directory.
pub open spec fn configuration_file(
    configured: Option<Vec<u8>>,
    config_home: Option<Vec<u8>>,
    home: Option<Vec<u8>>,
) -> Result<Seq<u8>, Seq<char>> {
    let file = vstd::utf8::encode_utf8("herdr-labels/config.toml"@);
    match (configured, config_home, home) {
        (Some(path), _, _) => if filesystem::absolute(path@) {
            Ok(path@)
        } else {
            Err("HERDR_LABELS_CONFIG"@ + " must be an absolute path"@)
        },
        (None, Some(base), _) => if filesystem::absolute(base@) {
            Ok(filesystem::joined(base@, file))
        } else {
            Err("configuration base"@ + " must be an absolute path"@)
        },
        (None, None, Some(home)) => {
            let base = filesystem::joined(home@, vstd::utf8::encode_utf8(".config"@));
            if filesystem::absolute(base) {
                Ok(filesystem::joined(base, file))
            } else {
                Err("configuration base"@ + " must be an absolute path"@)
            }
        },
        (None, None, None) => Err("HOME and XDG_CONFIG_HOME are not set"@),
    }
}

/// Locates the configuration file.
pub fn settings_path(
    configured: Option<Vec<u8>>,
    config_home: Option<Vec<u8>>,
    home: Option<Vec<u8>>,
) -> (path: Result<Vec<u8>, String>)
    ensures
        match path {
            Ok(path) => configuration_file(configured, config_home, home) == Ok::<
                Seq<u8>,
                Seq<char>,
            >(path@),
            Err(error) => configuration_file(configured, config_home, home) == Err::<
                Seq<u8>,
                Seq<char>,
            >(error@),
        },
{
    if let Some(path) = configured {
        return absolute_path(path, "HERDR_LABELS_CONFIG");
    }
    let base = match (config_home, home) {
        (Some(base), _) => base,
        (None, Some(home)) => join_path(&home, ".config"),
        (None, None) => {
            return Err("HOME and XDG_CONFIG_HOME are not set".to_owned());
        },
    };
    match absolute_path(base, "configuration base") {
        Ok(base) => Ok(join_path(&base, "herdr-labels/config.toml")),
        Err(error) => Err(error),
    }
}

} // verus!
