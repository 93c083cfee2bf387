//! Pure policy for deriving semantic tab names from observed processes.

use vstd::prelude::*;

use crate::table::Table;
use crate::text;
use crate::text::{characters, list_contains, text_eq};

verus! {

/// Configuration used to turn an observed foreground process into a label.
#[derive(Debug, PartialEq, Eq)]
pub struct NamingPolicy {
    /// Suppress a semantic label while a shell or ignored program is active.
    pub hide_idle_shell: bool,
    /// Maximum number of Unicode scalar values retained in a generated label.
    pub max_label_chars: usize,
    /// Process basenames considered interactive shells.
    pub shells: Vec<String>,
    /// Process basenames that do not replace the supplied shell name.
    pub ignored_processes: Vec<String>,
    /// Exact command-line or process-basename replacements.
    pub aliases: Table<String>,
}

/// Foreground process data available to the naming policy.
#[derive(Debug, PartialEq, Eq)]
pub struct ObservedProcess {
    /// Executable name, which may be a path or login-shell name.
    pub program: String,
    /// Command line when supplied by the process observer; arguments are opaque.
    pub command_line: Option<String>,
}

/// What a naming policy says, with its lists as sets.
#[verifier::ext_equal]
pub struct PolicyView {
    pub hide_idle_shell: bool,
    pub max_label_chars: nat,
    pub shells: Set<Seq<char>>,
    pub ignored_processes: Set<Seq<char>>,
    pub aliases: Map<Seq<char>, Seq<char>>,
}

impl View for NamingPolicy {
    type V = PolicyView;

    open spec fn view(&self) -> PolicyView {
        PolicyView {
            hide_idle_shell: self.hide_idle_shell,
            max_label_chars: self.max_label_chars as nat,
            shells: text::text_set(self.shells@),
            ignored_processes: text::text_set(self.ignored_processes@),
            aliases: self.aliases@,
        }
    }
}

/// The C0 and C1 control characters.
pub open spec fn control(character: char) -> bool {
    character <= '\u{001f}' || '\u{007f}' <= character <= '\u{009f}'
}

/// A name without its control characters.
pub open spec fn without_controls(name: Seq<char>) -> Seq<char> {
    name.filter(|character: char| !control(character))
}

/// The characters that separate the parts of a path.
pub open spec fn separator(character: char) -> bool {
    character == '/' || character == '\\'
}

/// What stands behind the last path separator of a name.
pub open spec fn last_segment(name: Seq<char>) -> Seq<char>
    decreases name.len(),
{
    if name.len() == 0 || separator(name.last()) {
        Seq::empty()
    } else {
        last_segment(name.drop_last()).push(name.last())
    }
}

/// A name without its leading dashes.
pub open spec fn trim_dashes(name: Seq<char>) -> Seq<char>
    decreases name.len(),
{
    if name.len() > 0 && name[0] == '-' {
        trim_dashes(name.drop_first())
    } else {
        name
    }
}

/// The basename of a program without login-shell markers and control characters.
pub open spec fn normalized(name: Seq<char>) -> Seq<char> {
    without_controls(trim_dashes(last_segment(name)))
}

impl PolicyView {
    /// Whether a program resolves to an interactive shell.
    pub open spec fn shell_program(self, program: Seq<char>) -> bool {
        self.shells.contains(normalized(program))
    }

    /// Whether a program leaves the ambient label unchanged.
    pub open spec fn ignored_program(self, program: Seq<char>) -> bool {
        self.ignored_processes.contains(normalized(program))
    }

    /// A name as it may be shown: no control characters, no more than the allowed length.
    pub open spec fn finished(self, name: Seq<char>) -> Seq<char> {
        let safe = without_controls(name);
        if safe.len() <= self.max_label_chars {
            safe
        } else {
            safe.take(self.max_label_chars as int)
        }
    }

    /// The label of an idle shell, unless idle shells are hidden.
    pub open spec fn idle(self, shell: Seq<char>) -> Option<Seq<char>> {
        if self.hide_idle_shell {
            None
        } else {
            Some(self.finished(shell))
        }
    }

    /// The alias of a program: that of its whole command line before that of its basename.
    pub open spec fn alias(self, program: Seq<char>, command_line: Option<Seq<char>>) -> Option<
        Seq<char>,
    > {
        if command_line is Some && command_line->0.len() > 0 && self.aliases.contains_key(
            command_line->0,
        ) {
            Some(self.aliases[command_line->0])
        } else if self.aliases.contains_key(program) {
            Some(self.aliases[program])
        } else {
            None
        }
    }

    /// The label of a running program.
    pub open spec fn program_label(
        self,
        shell: Seq<char>,
        program: Seq<char>,
        command_line: Option<Seq<char>>,
    ) -> Option<Seq<char>> {
        let name = normalized(program);
        if name.len() == 0 {
            self.idle(normalized(shell))
        } else if let Some(alias) = self.alias(name, command_line) {
            Some(self.finished(alias))
        } else if self.shells.contains(name) {
            self.idle(name)
        } else if self.ignored_processes.contains(name) {
            self.idle(normalized(shell))
        } else {
            Some(self.finished(name))
        }
    }

    /// The label for an observation; without a process the shell itself is shown.
    pub open spec fn label(self, shell: Seq<char>, process: Option<ObservedProcess>) -> Option<
        Seq<char>,
    > {
        match process {
            Some(process) => self.program_label(
                shell,
                process.program@,
                text::optional_text(process.command_line),
            ),
            None => self.idle(normalized(shell)),
        }
    }
}

impl NamingPolicy {
    /// Returns whether a process name resolves to a configured interactive shell.
    pub fn is_shell_program(&self, program: &str) -> (result: bool)
        ensures
            result == self@.shell_program(program@),
    {
        list_contains(&self.shells, normalized_name(program).as_str())
    }

    /// Compares program names after removing paths and login-shell markers.
    pub fn same_program(&self, first: &str, second: &str) -> (result: bool)
        ensures
            result == (normalized(first@) == normalized(second@)),
    {
        text_eq(normalized_name(first).as_str(), normalized_name(second).as_str())
    }

    /// Returns whether a process should leave the current ambient label unchanged.
    pub fn is_ignored_program(&self, program: &str) -> (result: bool)
        ensures
            result == self@.ignored_program(program@),
    {
        list_contains(&self.ignored_processes, normalized_name(program).as_str())
    }

    /// Derives a safe semantic label for reconciliation.
    ///
    /// `None` means an idle shell-like observation should not contribute a
    /// semantic label. Aliases match an entire command line first, then the
    /// normalized process basename. No command-line parsing is performed.
    pub fn label(&self, shell_name: &str, process: Option<&ObservedProcess>) -> (label: Option<
        String,
    >)
        ensures
            text::optional_text(label) == self@.label(
                shell_name@,
                match process {
                    Some(process) => Some(*process),
                    None => None,
                },
            ),
    {
        let shell = normalized_name(shell_name);
        let process = match process {
            Some(process) => process,
            None => {
                return self.idle_label(shell.as_str());
            },
        };
        let program = normalized_name(process.program.as_str());
        if program.as_str().is_empty() {
            return self.idle_label(shell.as_str());
        }
        if let Some(command_line) = &process.command_line {
            if !command_line.as_str().is_empty() {
                if let Some(alias) = self.aliases.get(command_line.as_str()) {
                    return Some(self.finish(alias.as_str()));
                }
            }
        }
        if let Some(alias) = self.aliases.get(program.as_str()) {
            return Some(self.finish(alias.as_str()));
        }
        if list_contains(&self.shells, program.as_str()) {
            return self.idle_label(program.as_str());
        }
        if list_contains(&self.ignored_processes, program.as_str()) {
            return self.idle_label(shell.as_str());
        }
        Some(self.finish(program.as_str()))
    }

    /// The label of an idle shell, unless idle shells are hidden.
    pub fn idle_label(&self, shell_name: &str) -> (label: Option<String>)
        ensures
            text::optional_text(label) == self@.idle(shell_name@),
    {
        if self.hide_idle_shell {
            None
        } else {
            Some(self.finish(shell_name))
        }
    }

    /// Drops the control characters of a name and cuts it to the allowed length.
    pub fn finish(&self, name: &str) -> (label: String)
        ensures
            label@ == self@.finished(name@),
    {
        let safe = drop_controls(&characters(name), 0);
        assert(name@.skip(0) == name@);
        let end = if safe.len() <= self.max_label_chars {
            safe.len()
        } else {
            self.max_label_chars
        };
        let label = text::text_of(&safe, 0, end);
        assert(safe@.subrange(0, safe@.len() as int) == safe@);
        label
    }
}

proof fn lemma_without_controls_push(name: Seq<char>, character: char)
    ensures
        without_controls(name.push(character)) == if control(character) {
            without_controls(name)
        } else {
            without_controls(name).push(character)
        },
{
    reveal(Seq::filter);
    assert(name.push(character).drop_last() == name);
}

/// The characters from `start` on that are no control characters.
fn drop_controls(characters: &Vec<char>, start: usize) -> (kept: Vec<char>)
    requires
        start <= characters@.len(),
    ensures
        kept@ == without_controls(characters@.skip(start as int)),
{
    let mut kept: Vec<char> = Vec::new();
    let mut index: usize = start;
    assert(without_controls(Seq::empty()) == Seq::<char>::empty()) by {
        reveal(Seq::filter);
    }
    assert(characters@.subrange(start as int, start as int) == Seq::<char>::empty());
    while index < characters.len()
        invariant
            start <= index <= characters@.len(),
            kept@ == without_controls(characters@.subrange(start as int, index as int)),
        decreases characters@.len() - index,
    {
        proof {
            lemma_without_controls_push(
                characters@.subrange(start as int, index as int),
                characters@[index as int],
            );
            assert(characters@.subrange(start as int, index + 1) == characters@.subrange(
                start as int,
                index as int,
            ).push(characters@[index as int]));
        }
        if !is_control(characters[index]) {
            kept.push(characters[index]);
        }
        index = index + 1;
    }
    assert(characters@.subrange(start as int, characters@.len() as int) == characters@.skip(
        start as int,
    ));
    kept
}

proof fn lemma_last_segment(name: Seq<char>, start: int)
    requires
        0 <= start <= name.len(),
        start > 0 ==> separator(name[start - 1]),
        forall|i: int| start <= i < name.len() ==> !separator(#[trigger] name[i]),
    ensures
        last_segment(name) == name.skip(start),
    decreases name.len(),
{
    if start < name.len() {
        let shorter = name.drop_last();
        assert forall|i: int| start <= i < shorter.len() implies !separator(#[trigger] shorter[i]) by {
            assert(shorter[i] == name[i]);
        }
        lemma_last_segment(shorter, start);
        assert(shorter.skip(start).push(name.last()) == name.skip(start));
    } else {
        assert(name.skip(start) == Seq::<char>::empty());
    }
}

/// The basename of a program without login-shell markers and control characters.
pub fn normalized_name(name: &str) -> (basename: String)
    ensures
        basename@ == normalized(name@),
{
    let collected = characters(name);
    let mut start: usize = collected.len();
    while start > 0 && collected[start - 1] != '/' && collected[start - 1] != '\\'
        invariant
            start <= collected@.len(),
            forall|i: int| start <= i < collected@.len() ==> !separator(#[trigger] collected@[i]),
        decreases start,
    {
        start = start - 1;
    }
    proof {
        lemma_last_segment(collected@, start as int);
    }
    let ghost segment = collected@.skip(start as int);
    while start < collected.len() && collected[start] == '-'
        invariant
            start <= collected@.len(),
            trim_dashes(collected@.skip(start as int)) == trim_dashes(segment),
        decreases collected@.len() - start,
    {
        assert(collected@.skip(start as int).drop_first() == collected@.skip(start + 1));
        start = start + 1;
    }
    let kept = drop_controls(&collected, start);
    let basename = text::text_of(&kept, 0, kept.len());
    assert(kept@.subrange(0, kept@.len() as int) == kept@);
    basename
}

/// Whether a character is a C0 or C1 control character.
pub fn is_control(character: char) -> (result: bool)
    ensures
        result == control(character),
{
    character <= '\u{001f}' || ('\u{007f}' <= character && character <= '\u{009f}')
}

proof fn lemma_without_controls(name: Seq<char>)
    ensures
        forall|i: int|
            0 <= i < without_controls(name).len() ==> !control(#[trigger] without_controls(name)[i]),
        without_controls(name).len() <= name.len(),
        (forall|i: int| 0 <= i < name.len() ==> !control(#[trigger] name[i])) ==> without_controls(
            name,
        ) == name,
    decreases name.len(),
{
    reveal(Seq::filter);
    if name.len() > 0 {
        let shorter = name.drop_last();
        lemma_without_controls(shorter);
        lemma_without_controls_push(shorter, name.last());
        assert(shorter.push(name.last()) == name);
        if forall|i: int| 0 <= i < name.len() ==> !control(#[trigger] name[i]) {
            assert forall|i: int| 0 <= i < shorter.len() implies !control(#[trigger] shorter[i]) by {
                assert(shorter[i] == name[i]);
            }
            assert(!control(name[name.len() - 1]));
        }
    }
}

proof fn lemma_finished_is_safe(policy: PolicyView, name: Seq<char>)
    ensures
        policy.finished(name).len() <= policy.max_label_chars,
        forall|i: int|
            0 <= i < policy.finished(name).len() ==> !control(#[trigger] policy.finished(name)[i]),
{
    lemma_without_controls(name);
}

/// No label is longer than the policy allows, and none holds a control character.
pub proof fn labels_are_short_and_safe(
    policy: PolicyView,
    shell: Seq<char>,
    process: Option<ObservedProcess>,
)
    ensures
        match policy.label(shell, process) {
            Some(label) => label.len() <= policy.max_label_chars && forall|i: int|
                0 <= i < label.len() ==> !control(#[trigger] label[i]),
            None => true,
        },
{
    lemma_finished_is_safe(policy, normalized(shell));
    if let Some(process) = process {
        let name = normalized(process.program@);
        lemma_finished_is_safe(policy, name);
        if let Some(alias) = policy.alias(name, text::optional_text(process.command_line)) {
            lemma_finished_is_safe(policy, alias);
        }
    }
}

/// A label is missing only where idle shells are hidden.
pub proof fn only_idle_labels_are_hidden(
    policy: PolicyView,
    shell: Seq<char>,
    process: Option<ObservedProcess>,
)
    ensures
        policy.label(shell, process) is None ==> policy.hide_idle_shell,
{
}

} // verus!
