//! Snapshot-derived tab and pane targeting.

use vstd::prelude::*;

use crate::config::Invocation;
use crate::herdr::{PaneInfo, SessionSnapshot, SessionTab};
use crate::sequences;
use crate::state::{State, StateView};
use crate::table::Table;
use crate::text;
use crate::text::{borrow_text, text_eq};

verus! {

/// The predicate that holds of a pane with the given id.
pub open spec fn pane_with_id(pane_id: Seq<char>) -> spec_fn(PaneInfo) -> bool {
    |pane: PaneInfo| pane.pane_id@ == pane_id
}

/// The pane with the given id.
pub open spec fn pane_by_id(snapshot: SessionSnapshot, pane_id: Seq<char>) -> Option<PaneInfo> {
    sequences::first(snapshot.panes@, pane_with_id(pane_id))
}

/// The predicate that holds of a tab with the given id.
pub open spec fn tab_with_id(tab_id: Seq<char>) -> spec_fn(SessionTab) -> bool {
    |tab: SessionTab| tab.tab.tab_id@ == tab_id
}

/// The tab with the given id.
pub open spec fn tab_by_id(snapshot: SessionSnapshot, tab_id: Seq<char>) -> Option<SessionTab> {
    sequences::first(snapshot.tabs@, tab_with_id(tab_id))
}

/// Finds the pane with the given id.
pub fn find_pane<'a>(snapshot: &'a SessionSnapshot, pane_id: &str) -> (found: Option<&'a PaneInfo>)
    ensures
        match found {
            Some(found) => pane_by_id(*snapshot, pane_id@) == Some(*found),
            None => pane_by_id(*snapshot, pane_id@) is None,
        },
{
    let ghost panes = snapshot.panes@;
    let mut index: usize = 0;
    assert(panes.skip(0) == panes);
    while index < snapshot.panes.len()
        invariant
            index <= panes.len(),
            panes == snapshot.panes@,
            sequences::first(panes.skip(index as int), pane_with_id(pane_id@)) == pane_by_id(
                *snapshot,
                pane_id@,
            ),
        decreases panes.len() - index,
    {
        proof {
            sequences::lemma_first_step(panes, index as int, pane_with_id(pane_id@));
        }
        if text_eq(snapshot.panes[index].pane_id.as_str(), pane_id) {
            return Some(&snapshot.panes[index]);
        }
        index = index + 1;
    }
    None
}

/// Finds the tab with the given id.
pub fn find_tab<'a>(snapshot: &'a SessionSnapshot, tab_id: &str) -> (found: Option<&'a SessionTab>)
    ensures
        match found {
            Some(found) => tab_by_id(*snapshot, tab_id@) == Some(*found),
            None => tab_by_id(*snapshot, tab_id@) is None,
        },
{
    let ghost tabs = snapshot.tabs@;
    let mut index: usize = 0;
    assert(tabs.skip(0) == tabs);
    while index < snapshot.tabs.len()
        invariant
            index <= tabs.len(),
            tabs == snapshot.tabs@,
            sequences::first(tabs.skip(index as int), tab_with_id(tab_id@)) == tab_by_id(
                *snapshot,
                tab_id@,
            ),
        decreases tabs.len() - index,
    {
        proof {
            sequences::lemma_first_step(tabs, index as int, tab_with_id(tab_id@));
        }
        if text_eq(snapshot.tabs[index].tab.tab_id.as_str(), tab_id) {
            return Some(&snapshot.tabs[index]);
        }
        index = index + 1;
    }
    None
}

/// The predicate that holds of a pane that may name a tab.
///
/// The only pane of a tab may, and the focused pane of a focused tab.
pub open spec fn names_tab(snapshot: SessionSnapshot, tab: SessionTab) -> spec_fn(PaneInfo) -> bool {
    |pane: PaneInfo|
        pane.tab_id@ == tab.tab.tab_id@ && (tab.pane_count == 1 || (tab.focused
            && snapshot.focused_pane_id is Some && snapshot.focused_pane_id->0@ == pane.pane_id@))
}

/// The pane whose processes name a tab.
pub open spec fn naming_pane_of(snapshot: SessionSnapshot, tab: SessionTab) -> Option<Seq<char>> {
    match sequences::first(snapshot.panes@, names_tab(snapshot, tab)) {
        Some(pane) => Some(pane.pane_id@),
        None => None,
    }
}

/// Selects the pane whose processes name a tab.
///
/// A background tab with several panes has none.
pub fn naming_pane<'a>(snapshot: &'a SessionSnapshot, tab: &SessionTab) -> (pane_id: Option<&'a str>)
    ensures
        match pane_id {
            Some(pane_id) => naming_pane_of(*snapshot, *tab) == Some(pane_id@),
            None => naming_pane_of(*snapshot, *tab) is None,
        },
{
    let ghost panes = snapshot.panes@;
    let mut index: usize = 0;
    assert(panes.skip(0) == panes);
    while index < snapshot.panes.len()
        invariant
            index <= panes.len(),
            panes == snapshot.panes@,
            sequences::first(panes.skip(index as int), names_tab(*snapshot, *tab))
                == sequences::first(panes, names_tab(*snapshot, *tab)),
        decreases panes.len() - index,
    {
        let pane = &snapshot.panes[index];
        proof {
            sequences::lemma_first_step(panes, index as int, names_tab(*snapshot, *tab));
        }
        if text_eq(pane.tab_id.as_str(), tab.tab.tab_id.as_str()) {
            if tab.pane_count == 1 {
                return Some(pane.pane_id.as_str());
            }
            if tab.focused {
                if let Some(focused) = &snapshot.focused_pane_id {
                    if text_eq(focused.as_str(), pane.pane_id.as_str()) {
                        return Some(pane.pane_id.as_str());
                    }
                }
            }
        }
        index = index + 1;
    }
    None
}

/// The predicate that holds of the tabs an invocation is about.
///
/// A closed pane is targeted through its recorded tab, never through the snapshot.
pub open spec fn in_scope(snapshot: SessionSnapshot, invocation: Invocation) -> spec_fn(
    SessionTab,
) -> bool {
    |tab: SessionTab|
        match invocation {
            Invocation::ClosedPane { .. } => false,
            Invocation::Workspace(workspace_id) => tab.tab.workspace_id@ == workspace_id@,
            Invocation::ClosedTab { workspace_id: Some(workspace_id), .. } => tab.tab.workspace_id@
                == workspace_id@,
            Invocation::Tab { workspace_id, tab_id } => tab.tab.workspace_id@ == workspace_id@
                && tab.tab.tab_id@ == tab_id@,
            Invocation::RenamedTab { workspace_id, tab_id } => tab.tab.workspace_id@
                == workspace_id@ && tab.tab.tab_id@ == tab_id@,
            Invocation::Init { pane_id, .. } => pane_in_tab(snapshot, pane_id@, tab),
            Invocation::Preexec { pane_id, .. } => pane_in_tab(snapshot, pane_id@, tab),
            Invocation::Precmd { pane_id, .. } => pane_in_tab(snapshot, pane_id@, tab),
            Invocation::Reset { workspace_id: Some(workspace_id), tab_id } => tab.tab.workspace_id@
                == workspace_id@ && (tab_id is Some ==> tab.tab.tab_id@ == tab_id->0@),
            Invocation::Toggle { workspace_id: Some(workspace_id), tab_id } => tab.tab.workspace_id@
                == workspace_id@ && (tab_id is Some ==> tab.tab.tab_id@ == tab_id->0@),
            _ => true,
        }
}

/// Whether a pane is in the snapshot and belongs to a tab.
pub open spec fn pane_in_tab(snapshot: SessionSnapshot, pane_id: Seq<char>, tab: SessionTab) -> bool {
    match pane_by_id(snapshot, pane_id) {
        Some(pane) => tab.tab.tab_id@ == pane.tab_id@,
        None => false,
    }
}

/// The predicate that holds of the tab a closed pane was recorded for.
pub open spec fn in_closed_scope(invocation: Invocation, tab_id: Option<Seq<char>>) -> spec_fn(
    SessionTab,
) -> bool {
    |tab: SessionTab|
        match invocation {
            Invocation::ClosedPane { workspace_id, .. } => tab_id is Some && tab.tab.workspace_id@
                == workspace_id@ && tab.tab.tab_id@ == tab_id->0,
            _ => false,
        }
}

fn matches_optional(id: &str, wanted: Option<&str>) -> (result: bool)
    ensures
        result == (match wanted {
            Some(wanted) => id@ == wanted@,
            None => true,
        }),
{
    match wanted {
        Some(wanted) => text_eq(id, wanted),
        None => true,
    }
}

/// Collects the positions of the tabs with the given workspace and tab ids, where given.
fn tabs_matching(
    snapshot: &SessionSnapshot,
    workspace: Option<&str>,
    tab: Option<&str>,
    Ghost(wanted): Ghost<spec_fn(SessionTab) -> bool>,
) -> (positions: Vec<usize>)
    requires
        forall|candidate: SessionTab| #[trigger]
            wanted(candidate) == ((match workspace {
                Some(workspace) => candidate.tab.workspace_id@ == workspace@,
                None => true,
            }) && (match tab {
                Some(tab) => candidate.tab.tab_id@ == tab@,
                None => true,
            })),
    ensures
        indices(positions@) == sequences::positions_where(snapshot.tabs@, wanted),
{
    let mut positions: Vec<usize> = Vec::new();
    let mut index: usize = 0;
    assert(snapshot.tabs@.take(0) == Seq::<SessionTab>::empty());
    assert(indices(positions@) == Seq::<int>::empty());
    while index < snapshot.tabs.len()
        invariant
            index <= snapshot.tabs@.len(),
            forall|candidate: SessionTab| #[trigger]
                wanted(candidate) == ((match workspace {
                    Some(workspace) => candidate.tab.workspace_id@ == workspace@,
                    None => true,
                }) && (match tab {
                    Some(tab) => candidate.tab.tab_id@ == tab@,
                    None => true,
                })),
            indices(positions@) == sequences::positions_where(
                snapshot.tabs@.take(index as int),
                wanted,
            ),
        decreases snapshot.tabs@.len() - index,
    {
        let candidate = &snapshot.tabs[index].tab;
        proof {
            sequences::lemma_positions_step(snapshot.tabs@, index as int, wanted);
        }
        let ghost before = positions@;
        if matches_optional(candidate.workspace_id.as_str(), workspace) && matches_optional(
            candidate.tab_id.as_str(),
            tab,
        ) {
            positions.push(index);
            assert(indices(positions@) == indices(before).push(index as int));
        }
        index = index + 1;
    }
    assert(snapshot.tabs@.take(index as int) == snapshot.tabs@);
    positions
}

/// Machine positions as mathematical ones.
pub open spec fn indices(positions: Seq<usize>) -> Seq<int> {
    positions.map_values(|position: usize| position as int)
}

fn no_positions(snapshot: &SessionSnapshot, Ghost(wanted): Ghost<spec_fn(SessionTab) -> bool>) -> (positions:
    Vec<usize>)
    requires
        forall|candidate: SessionTab| !#[trigger] wanted(candidate),
    ensures
        indices(positions@) == sequences::positions_where(snapshot.tabs@, wanted),
{
    let positions: Vec<usize> = Vec::new();
    proof {
        sequences::lemma_positions(snapshot.tabs@, wanted);
        let selected = sequences::positions_where(snapshot.tabs@, wanted);
        if selected.len() > 0 {
            assert(wanted(snapshot.tabs@[selected[0]]));
        }
        assert(indices(positions@) =~= selected);
    }
    positions
}

/// The positions of the tabs that an invocation is about.
pub fn scoped_positions(snapshot: &SessionSnapshot, invocation: &Invocation) -> (positions: Vec<usize>)
    ensures
        indices(positions@) == sequences::positions_where(
            snapshot.tabs@,
            in_scope(*snapshot, *invocation),
        ),
{
    let ghost wanted = in_scope(*snapshot, *invocation);
    match invocation {
        Invocation::ClosedPane { .. } => no_positions(snapshot, Ghost(wanted)),
        Invocation::Workspace(workspace_id) => tabs_matching(
            snapshot,
            Some(workspace_id.as_str()),
            None,
            Ghost(wanted),
        ),
        Invocation::ClosedTab { workspace_id: Some(workspace_id), .. } => tabs_matching(
            snapshot,
            Some(workspace_id.as_str()),
            None,
            Ghost(wanted),
        ),
        Invocation::Tab { workspace_id, tab_id } => tabs_matching(
            snapshot,
            Some(workspace_id.as_str()),
            Some(tab_id.as_str()),
            Ghost(wanted),
        ),
        Invocation::RenamedTab { workspace_id, tab_id } => tabs_matching(
            snapshot,
            Some(workspace_id.as_str()),
            Some(tab_id.as_str()),
            Ghost(wanted),
        ),
        Invocation::Init { pane_id, .. } => match find_pane(snapshot, pane_id.as_str()) {
            Some(pane) => tabs_matching(snapshot, None, Some(pane.tab_id.as_str()), Ghost(wanted)),
            None => no_positions(snapshot, Ghost(wanted)),
        },
        Invocation::Preexec { pane_id, .. } => match find_pane(snapshot, pane_id.as_str()) {
            Some(pane) => tabs_matching(snapshot, None, Some(pane.tab_id.as_str()), Ghost(wanted)),
            None => no_positions(snapshot, Ghost(wanted)),
        },
        Invocation::Precmd { pane_id, .. } => match find_pane(snapshot, pane_id.as_str()) {
            Some(pane) => tabs_matching(snapshot, None, Some(pane.tab_id.as_str()), Ghost(wanted)),
            None => no_positions(snapshot, Ghost(wanted)),
        },
        Invocation::Reset { workspace_id: Some(workspace_id), tab_id } => tabs_matching(
            snapshot,
            Some(workspace_id.as_str()),
            borrow_text(tab_id),
            Ghost(wanted),
        ),
        Invocation::Toggle { workspace_id: Some(workspace_id), tab_id } => tabs_matching(
            snapshot,
            Some(workspace_id.as_str()),
            borrow_text(tab_id),
            Ghost(wanted),
        ),
        _ => tabs_matching(snapshot, None, None, Ghost(wanted)),
    }
}

/// The tabs at the given positions, in that order.
pub open spec fn tabs_at(tabs: Seq<SessionTab>, positions: Seq<int>) -> Seq<SessionTab> {
    positions.map_values(|position: int| tabs[position])
}

fn borrow_tabs<'a>(snapshot: &'a SessionSnapshot, positions: &Vec<usize>) -> (tabs: Vec<
    &'a SessionTab,
>)
    requires
        forall|i: int| 0 <= i < positions@.len() ==> (#[trigger] positions@[i]) < snapshot.tabs@.len(),
    ensures
        tabs@.map_values(|tab: &SessionTab| *tab) == tabs_at(snapshot.tabs@, indices(positions@)),
{
    let mut tabs: Vec<&'a SessionTab> = Vec::new();
    let mut index: usize = 0;
    while index < positions.len()
        invariant
            index <= positions@.len(),
            tabs@.len() == index,
            forall|i: int|
                0 <= i < positions@.len() ==> (#[trigger] positions@[i]) < snapshot.tabs@.len(),
            forall|i: int|
                0 <= i < index ==> *(#[trigger] tabs@[i]) == snapshot.tabs@[positions@[i] as int],
        decreases positions@.len() - index,
    {
        tabs.push(&snapshot.tabs[positions[index]]);
        index = index + 1;
    }
    assert(tabs@.map_values(|tab: &SessionTab| *tab) =~= tabs_at(
        snapshot.tabs@,
        indices(positions@),
    ));
    tabs
}

/// The selected positions lie inside the snapshot.
pub proof fn lemma_positions_inside(
    tabs: Seq<SessionTab>,
    positions: Seq<usize>,
    wanted: spec_fn(SessionTab) -> bool,
)
    requires
        indices(positions) == sequences::positions_where(tabs, wanted),
    ensures
        forall|i: int| 0 <= i < positions.len() ==> (#[trigger] positions[i]) < tabs.len(),
{
    sequences::lemma_positions(tabs, wanted);
    assert forall|i: int| 0 <= i < positions.len() implies (#[trigger] positions[i]) < tabs.len() by {
        assert(indices(positions)[i] == positions[i]);
    }
}

/// The tabs that an invocation is about, in snapshot order.
pub fn scoped_tabs<'a>(snapshot: &'a SessionSnapshot, invocation: &Invocation) -> (tabs: Vec<
    &'a SessionTab,
>)
    ensures
        tabs@.map_values(|tab: &SessionTab| *tab) == tabs_at(
            snapshot.tabs@,
            sequences::positions_where(snapshot.tabs@, in_scope(*snapshot, *invocation)),
        ),
{
    let positions = scoped_positions(snapshot, invocation);
    proof {
        lemma_positions_inside(
            snapshot.tabs@,
            positions@,
            in_scope(*snapshot, *invocation),
        );
    }
    borrow_tabs(snapshot, &positions)
}

/// The positions of the tab that a closed pane was recorded for.
pub fn scoped_closed_pane_positions(
    snapshot: &SessionSnapshot,
    invocation: &Invocation,
    tab_id: Option<&str>,
) -> (positions: Vec<usize>)
    ensures
        indices(positions@) == sequences::positions_where(
            snapshot.tabs@,
            in_closed_scope(
                *invocation,
                text::borrowed_text(tab_id),
            ),
        ),
{
    let ghost wanted = in_closed_scope(
        *invocation,
        text::borrowed_text(tab_id),
    );
    match (invocation, tab_id) {
        (Invocation::ClosedPane { workspace_id, .. }, Some(tab_id)) => tabs_matching(
            snapshot,
            Some(workspace_id.as_str()),
            Some(tab_id),
            Ghost(wanted),
        ),
        _ => no_positions(snapshot, Ghost(wanted)),
    }
}

/// The tab that a closed pane was recorded for, if it is in the pane's workspace.
pub fn scoped_closed_pane_tabs<'a>(
    snapshot: &'a SessionSnapshot,
    invocation: &Invocation,
    tab_id: Option<&str>,
) -> (tabs: Vec<&'a SessionTab>)
    ensures
        tabs@.map_values(|tab: &SessionTab| *tab) == tabs_at(
            snapshot.tabs@,
            sequences::positions_where(
                snapshot.tabs@,
                in_closed_scope(
                    *invocation,
                    text::borrowed_text(tab_id),
                ),
            ),
        ),
{
    let positions = scoped_closed_pane_positions(snapshot, invocation, tab_id);
    proof {
        lemma_positions_inside(
            snapshot.tabs@,
            positions@,
            in_closed_scope(
                *invocation,
                text::borrowed_text(tab_id),
            ),
        );
    }
    borrow_tabs(snapshot, &positions)
}

/// What became of the recorded tab of a closed pane.
#[derive(Debug, PartialEq, Eq)]
pub struct ClosedPaneResolution {
    pub mapped_tab_id: Option<String>,
    pub resolution: &'static str,
    pub validation: &'static str,
    pub valid: bool,
    pub outcome: &'static str,
}

/// A resolution with its texts as character sequences.
#[verifier::ext_equal]
pub struct ClosedPaneView {
    pub mapped_tab_id: Option<Seq<char>>,
    pub resolution: Seq<char>,
    pub validation: Seq<char>,
    pub valid: bool,
    pub outcome: Seq<char>,
}

impl View for ClosedPaneResolution {
    type V = ClosedPaneView;

    open spec fn view(&self) -> ClosedPaneView {
        ClosedPaneView {
            mapped_tab_id: text::optional_text(self.mapped_tab_id),
            resolution: self.resolution@,
            validation: self.validation@,
            valid: self.valid,
            outcome: self.outcome@,
        }
    }
}

/// Why a recorded tab does not stand for a closed pane; `None` where it does.
pub open spec fn mapping_defect(
    snapshot: SessionSnapshot,
    workspace_id: Seq<char>,
    pane_id: Seq<char>,
    tab_id: Seq<char>,
) -> Option<Seq<char>> {
    match tab_by_id(snapshot, tab_id) {
        None => Some("tab_absent"@),
        Some(tab) => if tab.tab.workspace_id@ != workspace_id {
            Some("workspace_mismatch"@)
        } else if pane_by_id(snapshot, pane_id) is Some {
            Some("pane_still_present"@)
        } else {
            None
        },
    }
}

/// The resolution of a closed pane against the recorded mappings and a snapshot.
pub open spec fn closed_pane(
    state: StateView,
    snapshot: SessionSnapshot,
    workspace_id: Seq<char>,
    pane_id: Seq<char>,
) -> ClosedPaneView {
    if !state.pane_tabs.contains_key(pane_id) {
        ClosedPaneView {
            mapped_tab_id: None,
            resolution: "missing"@,
            validation: "not_run"@,
            valid: false,
            outcome: "pane_mapping_missing"@,
        }
    } else {
        let tab_id = state.pane_tabs[pane_id];
        match mapping_defect(snapshot, workspace_id, pane_id, tab_id) {
            Some(defect) => ClosedPaneView {
                mapped_tab_id: Some(tab_id),
                resolution: "resolved"@,
                validation: defect,
                valid: false,
                outcome: "pane_mapping_invalid"@,
            },
            None => ClosedPaneView {
                mapped_tab_id: Some(tab_id),
                resolution: "resolved"@,
                validation: "valid"@,
                valid: true,
                outcome: "pane_mapping_consumed"@,
            },
        }
    }
}

/// Resolves a closed pane to the tab that was recorded for it.
///
/// The recorded tab counts only if it is still there, in the pane's workspace, and the pane is gone.
pub fn resolve_closed_pane(
    state: &State,
    snapshot: &SessionSnapshot,
    workspace_id: &str,
    pane_id: &str,
) -> (resolution: ClosedPaneResolution)
    ensures
        resolution@ == closed_pane(state@, *snapshot, workspace_id@, pane_id@),
{
    let mapped_tab_id = match state.pane_tab(pane_id) {
        Some(tab_id) => tab_id.to_owned(),
        None => {
            return ClosedPaneResolution {
                mapped_tab_id: None,
                resolution: "missing",
                validation: "not_run",
                valid: false,
                outcome: "pane_mapping_missing",
            };
        },
    };
    let tab = match find_tab(snapshot, mapped_tab_id.as_str()) {
        Some(tab) => tab,
        None => {
            return ClosedPaneResolution {
                mapped_tab_id: Some(mapped_tab_id),
                resolution: "resolved",
                validation: "tab_absent",
                valid: false,
                outcome: "pane_mapping_invalid",
            };
        },
    };
    if !text_eq(tab.tab.workspace_id.as_str(), workspace_id) {
        return ClosedPaneResolution {
            mapped_tab_id: Some(mapped_tab_id),
            resolution: "resolved",
            validation: "workspace_mismatch",
            valid: false,
            outcome: "pane_mapping_invalid",
        };
    }
    if find_pane(snapshot, pane_id).is_some() {
        return ClosedPaneResolution {
            mapped_tab_id: Some(mapped_tab_id),
            resolution: "resolved",
            validation: "pane_still_present",
            valid: false,
            outcome: "pane_mapping_invalid",
        };
    }
    ClosedPaneResolution {
        mapped_tab_id: Some(mapped_tab_id),
        resolution: "resolved",
        validation: "valid",
        valid: true,
        outcome: "pane_mapping_consumed",
    }
}

/// Whether some pane of the snapshot has the given pane and tab ids.
pub open spec fn targets_tab(
    snapshot: SessionSnapshot,
    pane_id: Seq<char>,
    tab_id: Seq<char>,
) -> bool {
    exists|i: int|
        0 <= i < snapshot.panes@.len() && (#[trigger] snapshot.panes@[i]).pane_id@ == pane_id
            && snapshot.panes@[i].tab_id@ == tab_id
}

/// Whether a pane belongs to a tab.
pub fn pane_targets_tab(snapshot: &SessionSnapshot, pane_id: &str, tab_id: &str) -> (result: bool)
    ensures
        result == targets_tab(*snapshot, pane_id@, tab_id@),
{
    let mut index: usize = 0;
    while index < snapshot.panes.len()
        invariant
            index <= snapshot.panes@.len(),
            forall|i: int|
                0 <= i < index ==> !((#[trigger] snapshot.panes@[i]).pane_id@ == pane_id@
                    && snapshot.panes@[i].tab_id@ == tab_id@),
        decreases snapshot.panes@.len() - index,
    {
        let pane = &snapshot.panes[index];
        if text_eq(pane.pane_id.as_str(), pane_id) && text_eq(pane.tab_id.as_str(), tab_id) {
            return true;
        }
        index = index + 1;
    }
    false
}

/// How many of the tabs are in a workspace.
pub open spec fn tabs_in_workspace(tabs: Seq<SessionTab>, workspace_id: Seq<char>) -> nat
    decreases tabs.len(),
{
    if tabs.len() == 0 {
        0
    } else {
        tabs_in_workspace(tabs.drop_last(), workspace_id) + if tabs.last().tab.workspace_id@
            == workspace_id {
            1nat
        } else {
            0nat
        }
    }
}

/// The position of a tab in its workspace, counted from one.
pub open spec fn position_in_workspace(tabs: Seq<SessionTab>, index: int) -> nat {
    tabs_in_workspace(tabs.take(index + 1), tabs[index].tab.workspace_id@)
}

/// The position of each tab in its workspace; of two tabs with one id the later counts.
pub open spec fn positions_by_id(tabs: Seq<SessionTab>) -> Map<Seq<char>, usize>
    decreases tabs.len(),
{
    if tabs.len() == 0 {
        Map::empty()
    } else {
        positions_by_id(tabs.drop_last()).insert(
            tabs.last().tab.tab_id@,
            tabs_in_workspace(tabs, tabs.last().tab.workspace_id@) as usize,
        )
    }
}

proof fn lemma_tabs_in_workspace_bound(tabs: Seq<SessionTab>, workspace_id: Seq<char>)
    ensures
        tabs_in_workspace(tabs, workspace_id) <= tabs.len(),
    decreases tabs.len(),
{
    if tabs.len() > 0 {
        lemma_tabs_in_workspace_bound(tabs.drop_last(), workspace_id);
    }
}

/// Every tab of a snapshot has a position.
pub proof fn every_tab_has_a_position(tabs: Seq<SessionTab>, index: int)
    requires
        0 <= index < tabs.len(),
    ensures
        positions_by_id(tabs).contains_key(tabs[index].tab.tab_id@),
    decreases tabs.len(),
{
    if index < tabs.len() - 1 {
        every_tab_has_a_position(tabs.drop_last(), index);
        assert(tabs.drop_last()[index] == tabs[index]);
    } else {
        assert(tabs.last() == tabs[index]);
    }
}

/// The position of each tab in its workspace.
pub fn tab_positions(snapshot: &SessionSnapshot) -> (positions: Table<usize>)
    ensures
        positions@ == positions_by_id(snapshot.tabs@),
{
    let mut counters: Table<usize> = Table::new();
    let mut positions: Table<usize> = Table::new();
    let mut index: usize = 0;
    assert(snapshot.tabs@.take(0) == Seq::<SessionTab>::empty());
    while index < snapshot.tabs.len()
        invariant
            index <= snapshot.tabs@.len(),
            positions@ == positions_by_id(snapshot.tabs@.take(index as int)),
            forall|workspace_id: Seq<char>| #[trigger]
                tabs_in_workspace(snapshot.tabs@.take(index as int), workspace_id) == (
                if counters@.contains_key(workspace_id) {
                    counters@[workspace_id] as nat
                } else {
                    0nat
                }),
        decreases snapshot.tabs@.len() - index,
    {
        let tab = &snapshot.tabs[index].tab;
        let ghost seen = snapshot.tabs@.take(index as int);
        let ghost grown = snapshot.tabs@.take(index + 1);
        proof {
            assert(grown.drop_last() == seen);
            lemma_tabs_in_workspace_bound(seen, tab.workspace_id@);
        }
        let previous: usize = match counters.get(tab.workspace_id.as_str()) {
            Some(count) => *count,
            None => 0,
        };
        assert(previous == tabs_in_workspace(seen, tab.workspace_id@));
        let position: usize = previous + 1;
        counters.insert(tab.workspace_id.clone(), position);
        positions.insert(tab.tab_id.clone(), position);
        assert forall|workspace_id: Seq<char>| #[trigger]
            tabs_in_workspace(grown, workspace_id) == (if counters@.contains_key(workspace_id) {
                counters@[workspace_id] as nat
            } else {
                0nat
            }) by {
            assert(tabs_in_workspace(seen, workspace_id) == tabs_in_workspace(
                grown.drop_last(),
                workspace_id,
            ));
        }
        index = index + 1;
    }
    assert(snapshot.tabs@.take(index as int) == snapshot.tabs@);
    positions
}

proof fn lemma_tabs_in_workspace_grows(
    tabs: Seq<SessionTab>,
    first: int,
    second: int,
    workspace_id: Seq<char>,
)
    requires
        0 <= first <= second <= tabs.len(),
    ensures
        tabs_in_workspace(tabs.take(first), workspace_id) <= tabs_in_workspace(
            tabs.take(second),
            workspace_id,
        ),
    decreases second - first,
{
    if first < second {
        lemma_tabs_in_workspace_grows(tabs, first, second - 1, workspace_id);
        assert(tabs.take(second).drop_last() == tabs.take(second - 1));
    }
}

/// Within a workspace, positions start at one and rise with the order of the tabs.
pub proof fn positions_rise_within_a_workspace(tabs: Seq<SessionTab>, first: int, second: int)
    requires
        0 <= first < second < tabs.len(),
        tabs[first].tab.workspace_id@ == tabs[second].tab.workspace_id@,
    ensures
        1 <= position_in_workspace(tabs, first) < position_in_workspace(tabs, second),
{
    let workspace_id = tabs[first].tab.workspace_id@;
    assert(tabs.take(first + 1).last() == tabs[first]);
    assert(tabs.take(second + 1).last() == tabs[second]);
    assert(tabs.take(second + 1).drop_last() == tabs.take(second));
    lemma_tabs_in_workspace_grows(tabs, first + 1, second, workspace_id);
}

/// No position of a workspace is left out.
pub proof fn positions_have_no_gaps(tabs: Seq<SessionTab>, workspace_id: Seq<char>, position: nat)
    requires
        1 <= position <= tabs_in_workspace(tabs, workspace_id),
    ensures
        exists|i: int|
            0 <= i < tabs.len() && tabs[i].tab.workspace_id@ == workspace_id
                && #[trigger] position_in_workspace(tabs, i) == position,
    decreases tabs.len(),
{
    let last = tabs.len() - 1;
    assert(tabs.take(last + 1) == tabs);
    if tabs.last().tab.workspace_id@ == workspace_id && position == tabs_in_workspace(
        tabs,
        workspace_id,
    ) {
        assert(position_in_workspace(tabs, last) == position);
    } else {
        let shorter = tabs.drop_last();
        positions_have_no_gaps(shorter, workspace_id, position);
        let i = choose|i: int|
            0 <= i < shorter.len() && shorter[i].tab.workspace_id@ == workspace_id
                && #[trigger] position_in_workspace(shorter, i) == position;
        assert(shorter.take(i + 1) == tabs.take(i + 1));
        assert(shorter[i] == tabs[i]);
        assert(position_in_workspace(tabs, i) == position);
    }
}

/// Tabs of other workspaces do not change a position.
pub proof fn positions_are_independent_per_workspace(
    tabs: Seq<SessionTab>,
    other: SessionTab,
    workspace_id: Seq<char>,
)
    requires
        other.tab.workspace_id@ != workspace_id,
    ensures
        tabs_in_workspace(tabs.push(other), workspace_id) == tabs_in_workspace(tabs, workspace_id),
{
    assert(tabs.push(other).drop_last() == tabs);
}

/// Where tab ids are unique, each tab is rendered with its position in its workspace.
pub proof fn unique_ids_have_their_own_position(tabs: Seq<SessionTab>, index: int)
    requires
        0 <= index < tabs.len() <= usize::MAX,
        forall|i: int, j: int|
            0 <= i < j < tabs.len() ==> (#[trigger] tabs[i]).tab.tab_id@ != (
            #[trigger] tabs[j]).tab.tab_id@,
    ensures
        positions_by_id(tabs)[tabs[index].tab.tab_id@] as nat == position_in_workspace(tabs, index),
    decreases tabs.len(),
{
    let last = tabs.len() - 1;
    assert(tabs.take(last + 1) == tabs);
    lemma_tabs_in_workspace_bound(tabs, tabs[index].tab.workspace_id@);
    if index < last {
        let shorter = tabs.drop_last();
        assert forall|i: int, j: int| 0 <= i < j < shorter.len() implies (
        #[trigger] shorter[i]).tab.tab_id@ != (#[trigger] shorter[j]).tab.tab_id@ by {
            assert(shorter[i] == tabs[i] && shorter[j] == tabs[j]);
        }
        unique_ids_have_their_own_position(shorter, index);
        assert(shorter[index] == tabs[index]);
        assert(shorter.take(index + 1) == tabs.take(index + 1));
        assert(tabs[index].tab.tab_id@ != tabs[last].tab.tab_id@);
    }
}

} // verus!
