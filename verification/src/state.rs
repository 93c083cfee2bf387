//! Durable per-session tab ownership state.

use vstd::prelude::*;
#[allow(unused_imports)]
use vstd::string::{StrSliceExecFns, StringExecFns};

use crate::filesystem;
use crate::filesystem::{join_path, FileFailure};
use crate::herdr::{PaneInfo, SessionTab};
use crate::table;
use crate::table::Table;
use crate::text;
use crate::text::{decimal_text, text_eq};

verus! {

/// The version of the state format.
pub const STATE_VERSION: u32 = 1;

/// How many temporary files are tried before storing the state is given up.
pub const TEMPORARY_FILE_ATTEMPTS: u32 = 100;

/// The file that holds the state of a session.
pub fn state_file(session_dir: &Vec<u8>) -> (path: Vec<u8>)
    ensures
        path@ == filesystem::joined(session_dir@, vstd::utf8::encode_utf8("state.json"@)),
{
    join_path(session_dir, "state.json")
}

/// Names the file that a process writes the state to before it replaces the stored one.
pub fn temporary_state_name(process: u32, attempt: u64) -> (name: String)
    ensures
        name@ == ".state.json."@ + text::decimal(process as nat) + "."@ + text::decimal(
            attempt as nat,
        ) + ".tmp"@,
{
    let mut name = ".state.json.".to_owned();
    name.append(decimal_text(process as u64).as_str());
    name.append(".");
    name.append(decimal_text(attempt).as_str());
    name.append(".tmp");
    name
}

/// What follows an attempt to create a temporary file for the state.
#[derive(Debug, PartialEq, Eq)]
pub enum CreateStep {
    /// The file is there to be written.
    Created,
    /// The next name is to be tried.
    Retry,
    /// No file could be created.
    Failed(String),
}

/// What follows an attempt to create a temporary file, with its text as a character sequence.
#[verifier::ext_equal]
pub enum CreateView {
    Created,
    Retry,
    Failed(Seq<char>),
}

impl View for CreateStep {
    type V = CreateView;

    open spec fn view(&self) -> CreateView {
        match *self {
            CreateStep::Created => CreateView::Created,
            CreateStep::Retry => CreateView::Retry,
            CreateStep::Failed(error) => CreateView::Failed(error@),
        }
    }
}

/// Decides what follows an attempt to create a temporary file for the state.
///
/// A name that is taken is passed over, as long as attempts are left; `attempt` counts those before
/// this one.
pub fn create_temp_file(attempt: u32, created: Result<(), FileFailure>) -> (step: CreateStep)
    ensures
        step@ == match created {
            Ok(_) => CreateView::Created,
            Err(FileFailure::Exists(_)) => if attempt + 1 < TEMPORARY_FILE_ATTEMPTS {
                CreateView::Retry
            } else {
                CreateView::Failed("could not allocate a unique state temporary file"@)
            },
            Err(failure) => CreateView::Failed(failure.text()@),
        },
{
    match created {
        Ok(_) => CreateStep::Created,
        Err(FileFailure::Exists(_)) => {
            if attempt < TEMPORARY_FILE_ATTEMPTS - 1 {
                CreateStep::Retry
            } else {
                CreateStep::Failed("could not allocate a unique state temporary file".to_owned())
            }
        },
        Err(failure) => CreateStep::Failed(failure.into_text()),
    }
}

/// The plugin's relationship to a tab label.
#[derive(Debug, PartialEq, Eq)]
pub enum TabOwnership {
    /// The label belongs to the user and must not be rewritten automatically.
    Manual,
    /// Automatic naming was explicitly disabled while preserving the current label.
    AutomaticDisabled,
    /// The user requested re-adoption, but a usable process name is not available yet.
    ResetPending,
    /// The label was last rendered by the plugin from `last_base`.
    Owned { last_base: String, last_rendered: String },
    /// A rename was recorded before being sent to Herdr.
    PendingRename {
        observed: String,
        desired: String,
        desired_base: String,
        previous_base: Option<String>,
        previous_rendered: Option<String>,
        previous_reset_pending: bool,
    },
}

/// An ownership with its texts as character sequences.
#[verifier::ext_equal]
pub enum OwnershipView {
    Manual,
    AutomaticDisabled,
    ResetPending,
    Owned { last_base: Seq<char>, last_rendered: Seq<char> },
    PendingRename {
        observed: Seq<char>,
        desired: Seq<char>,
        desired_base: Seq<char>,
        previous_base: Option<Seq<char>>,
        previous_rendered: Option<Seq<char>>,
        previous_reset_pending: bool,
    },
}

impl View for TabOwnership {
    type V = OwnershipView;

    open spec fn view(&self) -> OwnershipView {
        match *self {
            TabOwnership::Manual => OwnershipView::Manual,
            TabOwnership::AutomaticDisabled => OwnershipView::AutomaticDisabled,
            TabOwnership::ResetPending => OwnershipView::ResetPending,
            TabOwnership::Owned { last_base, last_rendered } => OwnershipView::Owned {
                last_base: last_base@,
                last_rendered: last_rendered@,
            },
            TabOwnership::PendingRename {
                observed,
                desired,
                desired_base,
                previous_base,
                previous_rendered,
                previous_reset_pending,
            } => OwnershipView::PendingRename {
                observed: observed@,
                desired: desired@,
                desired_base: desired_base@,
                previous_base: text::optional_text(previous_base),
                previous_rendered: text::optional_text(previous_rendered),
                previous_reset_pending,
            },
        }
    }
}

impl Clone for TabOwnership {
    fn clone(&self) -> (copy: Self)
        ensures
            copy == *self,
    {
        match self {
            TabOwnership::Manual => TabOwnership::Manual,
            TabOwnership::AutomaticDisabled => TabOwnership::AutomaticDisabled,
            TabOwnership::ResetPending => TabOwnership::ResetPending,
            TabOwnership::Owned { last_base, last_rendered } => TabOwnership::Owned {
                last_base: last_base.clone(),
                last_rendered: last_rendered.clone(),
            },
            TabOwnership::PendingRename {
                observed,
                desired,
                desired_base,
                previous_base,
                previous_rendered,
                previous_reset_pending,
            } => TabOwnership::PendingRename {
                observed: observed.clone(),
                desired: desired.clone(),
                desired_base: desired_base.clone(),
                previous_base: previous_base.clone(),
                previous_rendered: previous_rendered.clone(),
                previous_reset_pending: *previous_reset_pending,
            },
        }
    }
}

/// The view of an optional ownership.
pub open spec fn optional_ownership(ownership: Option<TabOwnership>) -> Option<OwnershipView> {
    match ownership {
        Some(ownership) => Some(ownership@),
        None => None,
    }
}

/// The view of an optional borrowed ownership.
pub open spec fn borrowed_ownership(ownership: Option<&TabOwnership>) -> Option<OwnershipView> {
    match ownership {
        Some(ownership) => Some(ownership@),
        None => None,
    }
}

/// Result of reconciling a pending rename with the currently observed label.
#[derive(Clone, Copy, Debug, PartialEq, Eq)]
pub enum PendingRenameResolution {
    /// Herdr applied the desired label, so ownership was established.
    Owned,
    /// Herdr still reports the old label; the pending entry was removed for retry.
    Retry,
    /// A different label appeared and is now treated as user-owned.
    Manual,
}

/// How a pending rename turned out, given the label that a tab now has.
pub open spec fn resolution(
    ownership: Option<OwnershipView>,
    label: Seq<char>,
) -> Option<PendingRenameResolution> {
    match ownership {
        Some(OwnershipView::PendingRename { observed, desired, .. }) => if label == desired {
            Some(PendingRenameResolution::Owned)
        } else if label == observed {
            Some(PendingRenameResolution::Retry)
        } else {
            Some(PendingRenameResolution::Manual)
        },
        _ => None,
    }
}

/// The ownership that a pending rename leaves behind, given the label that a tab now has.
///
/// An ownership without a pending rename stays as it is.
pub open spec fn resolved(ownership: Option<OwnershipView>, label: Seq<char>) -> Option<
    OwnershipView,
> {
    match ownership {
        Some(
            OwnershipView::PendingRename {
                observed,
                desired,
                desired_base,
                previous_base,
                previous_rendered,
                previous_reset_pending,
            },
        ) => if label == desired {
            Some(OwnershipView::Owned { last_base: desired_base, last_rendered: desired })
        } else if label != observed {
            Some(OwnershipView::Manual)
        } else if previous_reset_pending {
            Some(OwnershipView::ResetPending)
        } else if previous_base is Some && previous_rendered is Some {
            Some(
                OwnershipView::Owned {
                    last_base: previous_base->0,
                    last_rendered: previous_rendered->0,
                },
            )
        } else {
            None
        },
        _ => ownership,
    }
}

/// What a session's state says.
#[verifier::ext_equal]
pub struct StateView {
    pub suspended: bool,
    pub tabs: Map<Seq<char>, OwnershipView>,
    pub pane_tabs: Map<Seq<char>, Seq<char>>,
}

impl StateView {
    /// The active state of a session that nothing is known of.
    pub open spec fn fresh() -> StateView {
        StateView { suspended: false, tabs: Map::empty(), pane_tabs: Map::empty() }
    }

    /// The ownership of a tab.
    pub open spec fn ownership(self, tab_id: Seq<char>) -> Option<OwnershipView> {
        if self.tabs.contains_key(tab_id) {
            Some(self.tabs[tab_id])
        } else {
            None
        }
    }

    /// The state in which a tab has a given ownership, or none.
    pub open spec fn with_ownership(
        self,
        tab_id: Seq<char>,
        ownership: Option<OwnershipView>,
    ) -> StateView {
        StateView {
            tabs: match ownership {
                Some(ownership) => self.tabs.insert(tab_id, ownership),
                None => self.tabs.remove(tab_id),
            },
            ..self
        }
    }

    /// The state in which a tab's pending rename is settled by the label that the tab now has.
    pub open spec fn resolve(self, tab_id: Seq<char>, label: Seq<char>) -> StateView {
        self.with_ownership(tab_id, resolved(self.ownership(tab_id), label))
    }

    /// The state that knows of no tab outside a set.
    pub open spec fn prune(self, tab_ids: Set<Seq<char>>) -> StateView {
        StateView { tabs: self.tabs.restrict(tab_ids), ..self }
    }

    /// The state whose pane mappings follow a snapshot.
    ///
    /// A pane of the snapshot is mapped to its tab. The mapping of a pane that is gone stays as
    /// long as its tab is there.
    pub open spec fn refresh(self, panes: Seq<PaneInfo>, tabs: Seq<SessionTab>) -> StateView {
        StateView {
            pane_tabs: mapped_panes(table::with_values_in(self.pane_tabs, tab_ids(tabs)), panes),
            ..self
        }
    }
}

/// Recording the ownership that a tab has changes nothing.
pub proof fn lemma_same_ownership(state: StateView, tab_id: Seq<char>)
    ensures
        state.with_ownership(tab_id, state.ownership(tab_id)) == state,
{
    assert(state.with_ownership(tab_id, state.ownership(tab_id)) =~= state);
}

/// Of two ownerships recorded for one tab the later counts.
pub proof fn lemma_later_ownership(
    state: StateView,
    tab_id: Seq<char>,
    first: Option<OwnershipView>,
    second: Option<OwnershipView>,
)
    ensures
        state.with_ownership(tab_id, first).with_ownership(tab_id, second) == state.with_ownership(
            tab_id,
            second,
        ),
        state.with_ownership(tab_id, first).ownership(tab_id) == first,
{
    assert(state.with_ownership(tab_id, first).with_ownership(tab_id, second)
        =~= state.with_ownership(tab_id, second));
}

/// The ids of the tabs of a snapshot.
pub open spec fn tab_ids(tabs: Seq<SessionTab>) -> Set<Seq<char>> {
    Set::new(
        |id: Seq<char>|
            exists|i: int| 0 <= i < tabs.len() && (#[trigger] tabs[i]).tab.tab_id@ == id,
    )
}

/// A pane mapping with the panes of a snapshot added, one after the other.
pub open spec fn mapped_panes(
    mapping: Map<Seq<char>, Seq<char>>,
    panes: Seq<PaneInfo>,
) -> Map<Seq<char>, Seq<char>>
    decreases panes.len(),
{
    if panes.len() == 0 {
        mapping
    } else {
        mapped_panes(mapping, panes.drop_last()).insert(panes.last().pane_id@, panes.last().tab_id@)
    }
}

/// Versioned state for one Herdr session.
#[derive(Debug, PartialEq, Eq)]
pub struct State {
    suspended: bool,
    tabs: Table<TabOwnership>,
    pane_tabs: Table<String>,
}

impl View for State {
    type V = StateView;

    closed spec fn view(&self) -> StateView {
        StateView { suspended: self.suspended, tabs: self.tabs@, pane_tabs: self.pane_tabs@ }
    }
}

/// A state as it is stored.
#[derive(Debug, PartialEq, Eq)]
pub struct PersistedState {
    pub version: u32,
    pub suspended: bool,
    pub tabs: Vec<(String, TabOwnership)>,
    pub pane_tabs: Vec<(String, String)>,
}

impl PersistedState {
    /// What a stored state says.
    pub open spec fn contents(self) -> StateView {
        StateView {
            suspended: self.suspended,
            tabs: table::entry_map(self.tabs@),
            pane_tabs: table::entry_map(self.pane_tabs@),
        }
    }
}

/// Why the state could not be loaded, each with the error's text.
#[derive(Debug, PartialEq, Eq)]
pub enum StateError {
    /// What is stored is malformed, or of an unsupported version.
    InvalidData(String),
    /// What is stored could not be read.
    Unreadable(String),
}

/// Why the state could not be loaded, with its text as a character sequence.
#[verifier::ext_equal]
pub enum StateErrorView {
    InvalidData(Seq<char>),
    Unreadable(Seq<char>),
}

impl View for StateError {
    type V = StateErrorView;

    open spec fn view(&self) -> StateErrorView {
        match *self {
            StateError::InvalidData(error) => StateErrorView::InvalidData(error@),
            StateError::Unreadable(error) => StateErrorView::Unreadable(error@),
        }
    }
}

impl StateErrorView {
    /// The text of the error.
    pub open spec fn text(self) -> Seq<char> {
        match self {
            StateErrorView::InvalidData(error) => error,
            StateErrorView::Unreadable(error) => error,
        }
    }
}

impl StateError {
    /// Gives up the text of the error.
    pub fn into_text(self) -> (error: String)
        ensures
            error@ == self@.text(),
    {
        match self {
            StateError::InvalidData(error) => error,
            StateError::Unreadable(error) => error,
        }
    }
}

/// What loading gives: an error for a foreign version, a fresh state where nothing was stored.
pub open spec fn loaded(persisted: Option<PersistedState>) -> Result<StateView, StateErrorView> {
    match persisted {
        Some(persisted) => if persisted.version == STATE_VERSION {
            Ok(persisted.contents())
        } else {
            Err(
                StateErrorView::InvalidData(
                    "unsupported state version "@ + text::decimal(persisted.version as nat),
                ),
            )
        },
        None => Ok(StateView::fresh()),
    }
}

/// What reading the stored state gives.
///
/// `read` is what the contents of the file were parsed as, or why they could not be read.
pub open spec fn read_as(read: Result<Result<PersistedState, String>, FileFailure>) -> Result<
    StateView,
    StateErrorView,
> {
    match read {
        Ok(Ok(persisted)) => loaded(Some(persisted)),
        Ok(Err(error)) => Err(StateErrorView::InvalidData(error@)),
        Err(FileFailure::Missing(_)) => loaded(None),
        Err(failure) => Err(StateErrorView::Unreadable(failure.text()@)),
    }
}

/// A loaded state, or why there is none, as mathematical values.
pub open spec fn load_view(state: Result<State, StateError>) -> Result<StateView, StateErrorView> {
    match state {
        Ok(state) => Ok(state@),
        Err(error) => Err(error@),
    }
}

impl State {
    /// Takes over the state that was read, or starts with empty active state when its file is
    /// missing.
    ///
    /// Malformed contents are invalid data, like an unsupported version, and never an empty state.
    pub fn read(read: Result<Result<PersistedState, String>, FileFailure>) -> (state: Result<
        State,
        StateError,
    >)
        ensures
            load_view(state) == read_as(read),
    {
        match read {
            Ok(Ok(persisted)) => State::load(Some(persisted)),
            Ok(Err(error)) => Err(StateError::InvalidData(error)),
            Err(FileFailure::Missing(_)) => State::load(None),
            Err(failure) => Err(StateError::Unreadable(failure.into_text())),
        }
    }

    /// Takes over stored state, or starts with empty active state when there is none.
    ///
    /// An unsupported version is an error, so that callers do not overwrite
    /// ownership information with defaults.
    pub fn load(persisted: Option<PersistedState>) -> (state: Result<State, StateError>)
        ensures
            load_view(state) == loaded(persisted),
    {
        match persisted {
            Some(persisted) => {
                if persisted.version != STATE_VERSION {
                    let mut message = "unsupported state version ".to_owned();
                    message.append(decimal_text(persisted.version as u64).as_str());
                    return Err(StateError::InvalidData(message));
                }
                Ok(
                    State {
                        suspended: persisted.suspended,
                        tabs: Table::from_entries(persisted.tabs),
                        pane_tabs: Table::from_entries(persisted.pane_tabs),
                    },
                )
            },
            None => Ok(State { suspended: false, tabs: Table::new(), pane_tabs: Table::new() }),
        }
    }

    /// The state as it is to be stored.
    pub fn persisted(&self) -> (persisted: PersistedState)
        ensures
            persisted.version == STATE_VERSION,
            persisted.contents() == self@,
    {
        let stored_tabs = self.tabs.entries();
        let mut tabs: Vec<(String, TabOwnership)> = Vec::new();
        let mut index: usize = 0;
        while index < stored_tabs.len()
            invariant
                index <= stored_tabs@.len(),
                tabs@ == stored_tabs@.take(index as int),
            decreases stored_tabs@.len() - index,
        {
            tabs.push((stored_tabs[index].0.clone(), stored_tabs[index].1.clone()));
            assert(stored_tabs@.take(index + 1) == stored_tabs@.take(index as int).push(
                stored_tabs@[index as int],
            ));
            index = index + 1;
        }
        assert(stored_tabs@.take(index as int) == stored_tabs@);
        let stored_panes = self.pane_tabs.entries();
        let mut pane_tabs: Vec<(String, String)> = Vec::new();
        index = 0;
        while index < stored_panes.len()
            invariant
                index <= stored_panes@.len(),
                pane_tabs@ == stored_panes@.take(index as int),
            decreases stored_panes@.len() - index,
        {
            pane_tabs.push((stored_panes[index].0.clone(), stored_panes[index].1.clone()));
            assert(stored_panes@.take(index + 1) == stored_panes@.take(index as int).push(
                stored_panes@[index as int],
            ));
            index = index + 1;
        }
        assert(stored_panes@.take(index as int) == stored_panes@);
        PersistedState { version: STATE_VERSION, suspended: self.suspended, tabs, pane_tabs }
    }

    /// Whether reconciliation is suspended.
    pub fn is_suspended(&self) -> (suspended: bool)
        ensures
            suspended == self@.suspended,
    {
        self.suspended
    }

    /// Suspends or resumes reconciliation.
    pub fn set_suspended(&mut self, suspended: bool)
        ensures
            final(self)@ == (StateView { suspended, ..old(self)@ }),
    {
        self.suspended = suspended;
    }

    /// The ownership of a tab.
    pub fn ownership(&self, tab_id: &str) -> (ownership: Option<&TabOwnership>)
        ensures
            borrowed_ownership(ownership) == self@.ownership(tab_id@),
    {
        self.tabs.get(tab_id)
    }

    /// Records the ownership of a tab and returns the one it had.
    pub fn set_ownership(&mut self, tab_id: &str, ownership: TabOwnership) -> (previous: Option<
        TabOwnership,
    >)
        ensures
            final(self)@ == old(self)@.with_ownership(tab_id@, Some(ownership@)),
            optional_ownership(previous) == old(self)@.ownership(tab_id@),
    {
        self.tabs.insert(tab_id.to_owned(), ownership)
    }

    /// Forgets the ownership of a tab and returns the one it had.
    pub fn remove_ownership(&mut self, tab_id: &str) -> (previous: Option<TabOwnership>)
        ensures
            final(self)@ == old(self)@.with_ownership(tab_id@, None),
            optional_ownership(previous) == old(self)@.ownership(tab_id@),
    {
        self.tabs.remove(tab_id)
    }

    /// Removes ownership records for tabs not present in `tab_ids`.
    pub fn prune_tabs(&mut self, tab_ids: &Vec<String>)
        ensures
            final(self)@ == old(self)@.prune(text::text_set(tab_ids@)),
    {
        self.tabs.retain_keys(tab_ids);
    }

    /// Resolves a recorded rename after reading the tab's current label.
    ///
    /// Returns `None` when the tab has no pending rename.
    pub fn resolve_pending_rename(&mut self, tab_id: &str, current_label: &str) -> (result: Option<
        PendingRenameResolution,
    >)
        ensures
            final(self)@ == old(self)@.resolve(tab_id@, current_label@),
            result == resolution(old(self)@.ownership(tab_id@), current_label@),
    {
        let ownership = match self.tabs.get(tab_id) {
            Some(ownership) => ownership.clone(),
            None => {
                assert(self@ =~= old(self)@.resolve(tab_id@, current_label@));
                return None;
            },
        };
        if let TabOwnership::PendingRename {
            observed,
            desired,
            desired_base,
            previous_base,
            previous_rendered,
            previous_reset_pending,
        } = ownership {
            if text_eq(current_label, desired.as_str()) {
                self.set_ownership(
                    tab_id,
                    TabOwnership::Owned { last_base: desired_base, last_rendered: desired },
                );
                Some(PendingRenameResolution::Owned)
            } else if text_eq(current_label, observed.as_str()) {
                if previous_reset_pending {
                    self.set_ownership(tab_id, TabOwnership::ResetPending);
                } else if let (Some(last_base), Some(last_rendered)) = (
                    previous_base,
                    previous_rendered,
                ) {
                    self.set_ownership(tab_id, TabOwnership::Owned { last_base, last_rendered });
                } else {
                    self.remove_ownership(tab_id);
                }
                Some(PendingRenameResolution::Retry)
            } else {
                self.set_ownership(tab_id, TabOwnership::Manual);
                Some(PendingRenameResolution::Manual)
            }
        } else {
            assert(self@ =~= old(self)@.resolve(tab_id@, current_label@));
            None
        }
    }

    /// The tab that a pane was last seen in.
    pub fn pane_tab(&self, pane_id: &str) -> (tab_id: Option<&str>)
        ensures
            match tab_id {
                Some(tab_id) => self@.pane_tabs.contains_key(pane_id@) && self@.pane_tabs[pane_id@]
                    == tab_id@,
                None => !self@.pane_tabs.contains_key(pane_id@),
            },
    {
        match self.pane_tabs.get(pane_id) {
            Some(tab_id) => Some(tab_id.as_str()),
            None => None,
        }
    }

    /// Records the tab that a pane is in.
    pub fn set_pane_tab(&mut self, pane_id: &str, tab_id: &str)
        ensures
            final(self)@ == (StateView {
                pane_tabs: old(self)@.pane_tabs.insert(pane_id@, tab_id@),
                ..old(self)@
            }),
    {
        self.pane_tabs.insert(pane_id.to_owned(), tab_id.to_owned());
    }

    /// Forgets the tab that a pane was in.
    pub fn remove_pane_tab(&mut self, pane_id: &str)
        ensures
            final(self)@ == (StateView {
                pane_tabs: old(self)@.pane_tabs.remove(pane_id@),
                ..old(self)@
            }),
    {
        self.pane_tabs.remove(pane_id);
    }

    /// Lets the pane mappings follow a snapshot.
    ///
    /// The mapping of a pane that is gone is kept for its close event, as long as its tab is there.
    pub fn refresh_pane_tabs(&mut self, panes: &Vec<PaneInfo>, tabs: &Vec<SessionTab>)
        ensures
            final(self)@ == old(self)@.refresh(panes@, tabs@),
    {
        let ids = snapshot_tab_ids(tabs);
        self.pane_tabs.retain_values(&ids);
        let ghost kept = self.pane_tabs@;
        let mut index: usize = 0;
        assert(panes@.take(0) == Seq::<PaneInfo>::empty());
        while index < panes.len()
            invariant
                index <= panes@.len(),
                self.pane_tabs@ == mapped_panes(kept, panes@.take(index as int)),
                self.suspended == old(self)@.suspended,
                self.tabs@ == old(self)@.tabs,
            decreases panes@.len() - index,
        {
            assert(panes@.take(index + 1).drop_last() == panes@.take(index as int));
            self.pane_tabs.insert(panes[index].pane_id.clone(), panes[index].tab_id.clone());
            index = index + 1;
        }
        assert(panes@.take(index as int) == panes@);
    }
}

/// The ids of the tabs of a snapshot.
pub fn snapshot_tab_ids(tabs: &Vec<SessionTab>) -> (ids: Vec<String>)
    ensures
        text::text_set(ids@) == tab_ids(tabs@),
        ids@.len() == tabs@.len(),
        forall|i: int| 0 <= i < tabs@.len() ==> (#[trigger] ids@[i])@ == tabs@[i].tab.tab_id@,
{
    let mut ids: Vec<String> = Vec::new();
    let mut index: usize = 0;
    while index < tabs.len()
        invariant
            index <= tabs@.len(),
            ids@.len() == index,
            forall|i: int| 0 <= i < index ==> (#[trigger] ids@[i])@ == tabs@[i].tab.tab_id@,
        decreases tabs@.len() - index,
    {
        ids.push(tabs[index].tab.tab_id.clone());
        index = index + 1;
    }
    proof {
        assert forall|id: Seq<char>| text::text_set(ids@).contains(id) == tab_ids(tabs@).contains(
            id,
        ) by {
            if tab_ids(tabs@).contains(id) {
                let i = choose|i: int| 0 <= i < tabs@.len() && (#[trigger] tabs@[i]).tab.tab_id@ == id;
                assert(ids@[i]@ == id);
            }
            if text::text_set(ids@).contains(id) {
                let i = choose|i: int| 0 <= i < ids@.len() && (#[trigger] ids@[i])@ == id;
                assert(tabs@[i].tab.tab_id@ == id);
            }
        }
        assert(text::text_set(ids@) =~= tab_ids(tabs@));
    }
    ids
}

/// Loading gives back the state that was stored.
pub proof fn loading_restores_the_stored_state(state: StateView, persisted: PersistedState)
    requires
        persisted.version == STATE_VERSION,
        persisted.contents() == state,
    ensures
        loaded(Some(persisted)) == Ok::<StateView, StateErrorView>(state),
        read_as(Ok(Ok(persisted))) == Ok::<StateView, StateErrorView>(state),
{
}

/// Malformed contents and foreign versions are invalid data, and only they are; a state begins anew
/// only where none is stored.
pub proof fn damaged_states_are_not_replaced(
    read: Result<Result<PersistedState, String>, FileFailure>,
)
    ensures
        (read_as(read) matches Err(StateErrorView::InvalidData(_))) <==> match read {
            Ok(Ok(persisted)) => persisted.version != STATE_VERSION,
            Ok(Err(_)) => true,
            Err(_) => false,
        },
        read_as(read) is Ok ==> match read {
            Ok(parsed) => parsed is Ok && read_as(read) == Ok::<StateView, StateErrorView>(
                parsed->Ok_0.contents(),
            ),
            Err(failure) => failure is Missing && read_as(read) == Ok::<StateView, StateErrorView>(
                StateView::fresh(),
            ),
        },
{
}

/// The ownership that a rename was recorded over, as the record keeps it.
pub open spec fn recorded(
    previous: Option<OwnershipView>,
    observed: Seq<char>,
    desired: Seq<char>,
    desired_base: Seq<char>,
) -> OwnershipView {
    OwnershipView::PendingRename {
        observed,
        desired,
        desired_base,
        previous_base: match previous {
            Some(OwnershipView::Owned { last_base, .. }) => Some(last_base),
            _ => None,
        },
        previous_rendered: match previous {
            Some(OwnershipView::Owned { last_rendered, .. }) => Some(last_rendered),
            _ => None,
        },
        previous_reset_pending: previous == Some(OwnershipView::ResetPending),
    }
}

/// A rename that Herdr did not apply leaves the ownership it was recorded over.
///
/// Only a tab that was owned, awaiting a reset or unknown is ever renamed by the plugin.
pub proof fn a_rename_that_failed_is_undone(
    previous: Option<OwnershipView>,
    observed: Seq<char>,
    desired: Seq<char>,
    desired_base: Seq<char>,
)
    requires
        observed != desired,
        previous is None || previous->0 is Owned || previous->0 is ResetPending,
    ensures
        resolved(Some(recorded(previous, observed, desired, desired_base)), observed) == previous,
{
}

/// A rename that Herdr applied makes the plugin the owner of the label.
pub proof fn a_rename_that_succeeded_is_owned(
    previous: Option<OwnershipView>,
    observed: Seq<char>,
    desired: Seq<char>,
    desired_base: Seq<char>,
)
    ensures
        resolved(Some(recorded(previous, observed, desired, desired_base)), desired) == Some(
            OwnershipView::Owned { last_base: desired_base, last_rendered: desired },
        ),
{
}

/// A label that neither the plugin nor the record knows belongs to the user.
pub proof fn an_unexpected_label_is_manual(
    previous: Option<OwnershipView>,
    observed: Seq<char>,
    desired: Seq<char>,
    desired_base: Seq<char>,
    label: Seq<char>,
)
    requires
        label != observed,
        label != desired,
    ensures
        resolved(Some(recorded(previous, observed, desired, desired_base)), label) == Some(
            OwnershipView::Manual,
        ),
{
}

/// Settling a pending rename is final: nothing is left to settle, whatever the label.
pub proof fn resolving_is_final(ownership: Option<OwnershipView>, label: Seq<char>, later: Seq<char>)
    ensures
        !(resolved(ownership, label) is Some && resolved(ownership, label)->0 is PendingRename),
        resolution(resolved(ownership, label), later) is None,
        resolved(resolved(ownership, label), later) == resolved(ownership, label),
{
}

} // verus!
