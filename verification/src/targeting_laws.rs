//! Which tabs and panes an event is about, in terms of the ids that a snapshot lists.

use vstd::prelude::*;

use crate::config::Invocation;
use crate::herdr::{PaneInfo, SessionSnapshot, SessionTab};
use crate::sequences;
use crate::state::StateView;
use crate::targeting;

verus! {

/// The indices of the tabs that an invocation is about.
pub open spec fn targets(snapshot: SessionSnapshot, invocation: Invocation) -> Seq<int> {
    sequences::positions_where(snapshot.tabs@, targeting::in_scope(snapshot, invocation))
}

/// Whether indices are those of the tabs for which something holds, each once and in order.
pub open spec fn selects(
    snapshot: SessionSnapshot,
    indices: Seq<int>,
    wanted: spec_fn(SessionTab) -> bool,
) -> bool {
    &&& forall|i: int, j: int| 0 <= i < j < indices.len() ==> #[trigger] indices[i] < #[trigger] indices[j]
    &&& forall|k: int| #[trigger]
        indices.contains(k) <==> 0 <= k < snapshot.tabs@.len() && wanted(snapshot.tabs@[k])
}

proof fn lemma_selects(
    snapshot: SessionSnapshot,
    predicate: spec_fn(SessionTab) -> bool,
    wanted: spec_fn(SessionTab) -> bool,
)
    requires
        forall|tab: SessionTab| #[trigger] predicate(tab) == wanted(tab),
    ensures
        selects(snapshot, sequences::positions_where(snapshot.tabs@, predicate), wanted),
{
    let indices = sequences::positions_where(snapshot.tabs@, predicate);
    sequences::lemma_positions(snapshot.tabs@, predicate);
    assert forall|k: int| #[trigger] indices.contains(k) implies 0 <= k < snapshot.tabs@.len()
        && wanted(snapshot.tabs@[k]) by {
        let i = choose|i: int| 0 <= i < indices.len() && indices[i] == k;
        assert(predicate(snapshot.tabs@[indices[i]]));
    }
    assert forall|k: int|
        0 <= k < snapshot.tabs@.len() && wanted(snapshot.tabs@[k]) implies #[trigger] indices.contains(
        k,
    ) by {
        assert(predicate(snapshot.tabs@[k]));
    }
}

/// Whether a pane is the first of a snapshot with its id.
pub open spec fn found_at(snapshot: SessionSnapshot, pane_id: Seq<char>, index: int) -> bool {
    &&& 0 <= index < snapshot.panes@.len()
    &&& snapshot.panes@[index].pane_id@ == pane_id
    &&& forall|i: int| 0 <= i < index ==> (#[trigger] snapshot.panes@[i]).pane_id@ != pane_id
}

/// Whether a snapshot lists no pane with an id.
pub open spec fn lists_no_pane(snapshot: SessionSnapshot, pane_id: Seq<char>) -> bool {
    forall|i: int|
        0 <= i < snapshot.panes@.len() ==> (#[trigger] snapshot.panes@[i]).pane_id@ != pane_id
}

/// A full pass, and every invocation that names no workspace, is about all tabs.
pub proof fn unscoped_invocations_are_about_all_tabs(
    snapshot: SessionSnapshot,
    invocation: Invocation,
)
    requires
        match invocation {
            Invocation::Full => true,
            Invocation::Clear => true,
            Invocation::ClosedTab { workspace_id, .. } => workspace_id is None,
            Invocation::Reset { workspace_id, .. } => workspace_id is None,
            Invocation::Toggle { workspace_id, .. } => workspace_id is None,
            _ => false,
        },
    ensures
        selects(snapshot, targets(snapshot, invocation), |tab: SessionTab| true),
{
    lemma_selects(snapshot, targeting::in_scope(snapshot, invocation), |tab: SessionTab| true);
}

/// An event of a workspace is about every tab of that workspace: each one shows its position anew
/// when a tab was opened, moved or closed.
pub proof fn workspace_events_are_about_the_whole_workspace(
    snapshot: SessionSnapshot,
    workspace_id: String,
    tab_id: Option<String>,
)
    ensures
        selects(
            snapshot,
            targets(snapshot, Invocation::Workspace(workspace_id)),
            |tab: SessionTab| tab.tab.workspace_id@ == workspace_id@,
        ),
        selects(
            snapshot,
            targets(
                snapshot,
                Invocation::ClosedTab { workspace_id: Some(workspace_id), tab_id },
            ),
            |tab: SessionTab| tab.tab.workspace_id@ == workspace_id@,
        ),
{
    let wanted = |tab: SessionTab| tab.tab.workspace_id@ == workspace_id@;
    lemma_selects(
        snapshot,
        targeting::in_scope(snapshot, Invocation::Workspace(workspace_id)),
        wanted,
    );
    lemma_selects(
        snapshot,
        targeting::in_scope(
            snapshot,
            Invocation::ClosedTab { workspace_id: Some(workspace_id), tab_id },
        ),
        wanted,
    );
}

/// An event of a tab is about the tab with its id in its workspace.
pub proof fn tab_events_are_about_their_tab(
    snapshot: SessionSnapshot,
    workspace_id: String,
    tab_id: String,
)
    ensures
        selects(
            snapshot,
            targets(snapshot, Invocation::Tab { workspace_id, tab_id }),
            |tab: SessionTab|
                tab.tab.workspace_id@ == workspace_id@ && tab.tab.tab_id@ == tab_id@,
        ),
        selects(
            snapshot,
            targets(snapshot, Invocation::RenamedTab { workspace_id, tab_id }),
            |tab: SessionTab|
                tab.tab.workspace_id@ == workspace_id@ && tab.tab.tab_id@ == tab_id@,
        ),
{
    let wanted = |tab: SessionTab|
        tab.tab.workspace_id@ == workspace_id@ && tab.tab.tab_id@ == tab_id@;
    lemma_selects(
        snapshot,
        targeting::in_scope(snapshot, Invocation::Tab { workspace_id, tab_id }),
        wanted,
    );
    lemma_selects(
        snapshot,
        targeting::in_scope(snapshot, Invocation::RenamedTab { workspace_id, tab_id }),
        wanted,
    );
}

/// A user's action in a workspace is about the tab it names there, or else about all tabs there.
pub proof fn actions_are_about_their_tab_or_workspace(
    snapshot: SessionSnapshot,
    workspace_id: String,
    tab_id: Option<String>,
)
    ensures
        selects(
            snapshot,
            targets(snapshot, Invocation::Reset { workspace_id: Some(workspace_id), tab_id }),
            |tab: SessionTab|
                tab.tab.workspace_id@ == workspace_id@ && (tab_id is None || tab.tab.tab_id@
                    == tab_id->0@),
        ),
        selects(
            snapshot,
            targets(snapshot, Invocation::Toggle { workspace_id: Some(workspace_id), tab_id }),
            |tab: SessionTab|
                tab.tab.workspace_id@ == workspace_id@ && (tab_id is None || tab.tab.tab_id@
                    == tab_id->0@),
        ),
{
    let wanted = |tab: SessionTab|
        tab.tab.workspace_id@ == workspace_id@ && (tab_id is None || tab.tab.tab_id@
            == tab_id->0@);
    lemma_selects(
        snapshot,
        targeting::in_scope(
            snapshot,
            Invocation::Reset { workspace_id: Some(workspace_id), tab_id },
        ),
        wanted,
    );
    lemma_selects(
        snapshot,
        targeting::in_scope(
            snapshot,
            Invocation::Toggle { workspace_id: Some(workspace_id), tab_id },
        ),
        wanted,
    );
}

/// A shell hook is about the tab of the pane it runs in, and about none if that pane is not listed.
pub proof fn shell_hooks_are_about_the_tab_of_their_pane(
    snapshot: SessionSnapshot,
    invocation: Invocation,
    pane_id: String,
    index: int,
)
    requires
        match invocation {
            Invocation::Init { pane_id: hook, .. } => hook == pane_id,
            Invocation::Preexec { pane_id: hook, .. } => hook == pane_id,
            Invocation::Precmd { pane_id: hook, .. } => hook == pane_id,
            _ => false,
        },
    ensures
        found_at(snapshot, pane_id@, index) ==> selects(
            snapshot,
            targets(snapshot, invocation),
            |tab: SessionTab| tab.tab.tab_id@ == snapshot.panes@[index].tab_id@,
        ),
        lists_no_pane(snapshot, pane_id@) ==> targets(snapshot, invocation).len() == 0,
{
    if found_at(snapshot, pane_id@, index) {
        sequences::lemma_first_at(snapshot.panes@, targeting::pane_with_id(pane_id@), index);
        lemma_selects(
            snapshot,
            targeting::in_scope(snapshot, invocation),
            |tab: SessionTab| tab.tab.tab_id@ == snapshot.panes@[index].tab_id@,
        );
    }
    if lists_no_pane(snapshot, pane_id@) {
        sequences::lemma_none(snapshot.panes@, targeting::pane_with_id(pane_id@));
        let nothing = |tab: SessionTab| false;
        lemma_selects(snapshot, targeting::in_scope(snapshot, invocation), nothing);
        if targets(snapshot, invocation).len() > 0 {
            assert(targets(snapshot, invocation).contains(targets(snapshot, invocation)[0]));
        }
    }
}

/// The closing of a pane is about the tab that was recorded for it, in its workspace, and never
/// about a tab that a snapshot shows it in.
pub proof fn closed_panes_are_about_their_recorded_tab(
    snapshot: SessionSnapshot,
    workspace_id: String,
    pane_id: String,
    tab_id: Option<Seq<char>>,
)
    ensures
        targets(snapshot, Invocation::ClosedPane { workspace_id, pane_id }).len() == 0,
        selects(
            snapshot,
            sequences::positions_where(
                snapshot.tabs@,
                targeting::in_closed_scope(
                    Invocation::ClosedPane { workspace_id, pane_id },
                    tab_id,
                ),
            ),
            |tab: SessionTab|
                tab_id is Some && tab.tab.workspace_id@ == workspace_id@ && tab.tab.tab_id@
                    == tab_id->0,
        ),
{
    let closed = Invocation::ClosedPane { workspace_id, pane_id };
    let nothing = |tab: SessionTab| false;
    lemma_selects(snapshot, targeting::in_scope(snapshot, closed), nothing);
    if targets(snapshot, closed).len() > 0 {
        assert(targets(snapshot, closed).contains(targets(snapshot, closed)[0]));
    }
    lemma_selects(
        snapshot,
        targeting::in_closed_scope(closed, tab_id),
        |tab: SessionTab|
            tab_id is Some && tab.tab.workspace_id@ == workspace_id@ && tab.tab.tab_id@
                == tab_id->0,
    );
}

/// The tabs that are handed out are those at the selected indices, in order.
pub proof fn selected_tabs_are_handed_out_in_order(tabs: Seq<SessionTab>, indices: Seq<int>)
    ensures
        targeting::tabs_at(tabs, indices).len() == indices.len(),
        forall|i: int|
            0 <= i < indices.len() ==> #[trigger] targeting::tabs_at(tabs, indices)[i]
                == tabs[indices[i]],
{
}

/// Whether a tab is in a workspace.
pub open spec fn in_workspace(workspace_id: Seq<char>) -> spec_fn(SessionTab) -> bool {
    |tab: SessionTab| tab.tab.workspace_id@ == workspace_id
}

/// The position of a tab is one more than the number of tabs in front of it in its workspace.
pub proof fn positions_count_the_tabs_in_front(tabs: Seq<SessionTab>, index: int)
    requires
        0 <= index < tabs.len(),
    ensures
        targeting::position_in_workspace(tabs, index) == 1 + tabs.take(index).filter(
            in_workspace(tabs[index].tab.workspace_id@),
        ).len(),
{
    let workspace_id = tabs[index].tab.workspace_id@;
    assert(tabs.take(index + 1).drop_last() =~= tabs.take(index));
    lemma_counted(tabs.take(index), workspace_id);
}

proof fn lemma_counted(tabs: Seq<SessionTab>, workspace_id: Seq<char>)
    ensures
        targeting::tabs_in_workspace(tabs, workspace_id) == tabs.filter(
            in_workspace(workspace_id),
        ).len(),
    decreases tabs.len(),
{
    reveal(Seq::filter);
    if tabs.len() > 0 {
        lemma_counted(tabs.drop_last(), workspace_id);
    }
}

/// A tab is shown at its position in its workspace; of tabs with one id the last counts.
pub proof fn ids_have_the_position_of_their_last_tab(tabs: Seq<SessionTab>, index: int)
    requires
        0 <= index < tabs.len() <= usize::MAX,
        forall|i: int|
            index < i < tabs.len() ==> (#[trigger] tabs[i]).tab.tab_id@ != tabs[index].tab.tab_id@,
    ensures
        targeting::positions_by_id(tabs).dom().contains(tabs[index].tab.tab_id@),
        targeting::positions_by_id(tabs)[tabs[index].tab.tab_id@] == 1 + tabs.take(index).filter(
            in_workspace(tabs[index].tab.workspace_id@),
        ).len(),
    decreases tabs.len(),
{
    let last = tabs.len() - 1;
    if index < last {
        let shorter = tabs.drop_last();
        assert forall|i: int| index < i < shorter.len() implies (
        #[trigger] shorter[i]).tab.tab_id@ != shorter[index].tab.tab_id@ by {
            assert(tabs[i].tab.tab_id@ != tabs[index].tab.tab_id@);
        }
        ids_have_the_position_of_their_last_tab(shorter, index);
        assert(shorter.take(index) =~= tabs.take(index));
        assert(tabs[last].tab.tab_id@ != tabs[index].tab.tab_id@);
    } else {
        let workspace_id = tabs[index].tab.workspace_id@;
        positions_count_the_tabs_in_front(tabs, index);
        assert(tabs.take(index + 1) =~= tabs);
        tabs.take(index).lemma_filter_len(in_workspace(workspace_id));
    }
}

/// The pane that names a tab with a single pane is the first that is listed for the tab.
pub proof fn single_panes_name_their_tab(snapshot: SessionSnapshot, tab: SessionTab, index: int)
    requires
        tab.pane_count == 1,
        0 <= index < snapshot.panes@.len(),
        snapshot.panes@[index].tab_id@ == tab.tab.tab_id@,
        forall|i: int|
            0 <= i < index ==> (#[trigger] snapshot.panes@[i]).tab_id@ != tab.tab.tab_id@,
    ensures
        targeting::naming_pane_of(snapshot, tab) == Some(snapshot.panes@[index].pane_id@),
{
    sequences::lemma_first_at(snapshot.panes@, targeting::names_tab(snapshot, tab), index);
}

/// The pane that names a focused tab with several panes is the focused one, if it is the tab's.
pub proof fn focused_panes_name_their_tab(snapshot: SessionSnapshot, tab: SessionTab)
    requires
        tab.pane_count != 1,
        tab.focused,
        snapshot.focused_pane_id is Some,
    ensures
        targeting::naming_pane_of(snapshot, tab) == if exists|i: int|
            0 <= i < snapshot.panes@.len() && (#[trigger] snapshot.panes@[i]).tab_id@
                == tab.tab.tab_id@ && snapshot.panes@[i].pane_id@ == snapshot.focused_pane_id->0@ {
            Some(snapshot.focused_pane_id->0@)
        } else {
            None
        },
{
    sequences::lemma_first(snapshot.panes@, targeting::names_tab(snapshot, tab));
}

/// No pane names a tab without panes of its own, a tab in the background with several panes, or one
/// in a session without a focused pane.
pub proof fn ambiguous_tabs_have_no_naming_pane(snapshot: SessionSnapshot, tab: SessionTab)
    requires
        ({
            ||| tab.pane_count != 1 && !tab.focused
            ||| tab.pane_count != 1 && snapshot.focused_pane_id is None
            ||| forall|i: int|
                0 <= i < snapshot.panes@.len() ==> (#[trigger] snapshot.panes@[i]).tab_id@
                    != tab.tab.tab_id@
        }),
    ensures
        targeting::naming_pane_of(snapshot, tab) is None,
{
    sequences::lemma_none(snapshot.panes@, targeting::names_tab(snapshot, tab));
}

/// A pane is found by its id: the first that has it, or none if none has.
pub proof fn panes_are_found_by_id(snapshot: SessionSnapshot, pane_id: Seq<char>, index: int)
    ensures
        found_at(snapshot, pane_id, index) ==> targeting::pane_by_id(snapshot, pane_id) == Some(
            snapshot.panes@[index],
        ),
        lists_no_pane(snapshot, pane_id) <==> targeting::pane_by_id(snapshot, pane_id) is None,
{
    if found_at(snapshot, pane_id, index) {
        sequences::lemma_first_at(snapshot.panes@, targeting::pane_with_id(pane_id), index);
    }
    sequences::lemma_first(snapshot.panes@, targeting::pane_with_id(pane_id));
    if lists_no_pane(snapshot, pane_id) {
        sequences::lemma_none(snapshot.panes@, targeting::pane_with_id(pane_id));
    }
}

/// A tab is found by its id: the first that has it, or none if none has.
pub proof fn tabs_are_found_by_id(snapshot: SessionSnapshot, tab_id: Seq<char>, index: int)
    ensures
        0 <= index < snapshot.tabs@.len() && snapshot.tabs@[index].tab.tab_id@ == tab_id && (forall|
            i: int,
        |
            0 <= i < index ==> (#[trigger] snapshot.tabs@[i]).tab.tab_id@ != tab_id)
            ==> targeting::tab_by_id(snapshot, tab_id) == Some(snapshot.tabs@[index]),
        targeting::tab_by_id(snapshot, tab_id) is None <==> forall|i: int|
            0 <= i < snapshot.tabs@.len() ==> (#[trigger] snapshot.tabs@[i]).tab.tab_id@ != tab_id,
{
    let wanted = targeting::tab_with_id(tab_id);
    sequences::lemma_first(snapshot.tabs@, wanted);
    if 0 <= index < snapshot.tabs@.len() && snapshot.tabs@[index].tab.tab_id@ == tab_id && (forall|
        i: int,
    |
        0 <= i < index ==> (#[trigger] snapshot.tabs@[i]).tab.tab_id@ != tab_id) {
        sequences::lemma_first_at(snapshot.tabs@, wanted, index);
    }
    if forall|i: int|
        0 <= i < snapshot.tabs@.len() ==> (#[trigger] snapshot.tabs@[i]).tab.tab_id@ != tab_id {
        sequences::lemma_none(snapshot.tabs@, wanted);
    }
}

/// The tab that was recorded for a closed pane counts exactly if the first tab with its id is in
/// the pane's workspace and the pane itself is gone; it is handed on whenever one is recorded.
pub proof fn closed_panes_resolve_to_their_recorded_tab(
    state: StateView,
    snapshot: SessionSnapshot,
    workspace_id: Seq<char>,
    pane_id: Seq<char>,
)
    ensures
        ({
            let resolution = targeting::closed_pane(state, snapshot, workspace_id, pane_id);
            let tab = targeting::tab_by_id(snapshot, state.pane_tabs[pane_id]);
            &&& resolution.valid <==> {
                &&& state.pane_tabs.dom().contains(pane_id)
                &&& tab is Some
                &&& tab->0.tab.workspace_id@ == workspace_id
                &&& lists_no_pane(snapshot, pane_id)
            }
            &&& resolution.mapped_tab_id == if state.pane_tabs.dom().contains(pane_id) {
                Some(state.pane_tabs[pane_id])
            } else {
                None
            }
            &&& resolution.resolution == if state.pane_tabs.dom().contains(pane_id) {
                "resolved"@
            } else {
                "missing"@
            }
            &&& resolution.outcome == if resolution.valid {
                "pane_mapping_consumed"@
            } else if state.pane_tabs.dom().contains(pane_id) {
                "pane_mapping_invalid"@
            } else {
                "pane_mapping_missing"@
            }
            &&& resolution.validation == if !state.pane_tabs.dom().contains(pane_id) {
                "not_run"@
            } else if tab is None {
                "tab_absent"@
            } else if tab->0.tab.workspace_id@ != workspace_id {
                "workspace_mismatch"@
            } else if !lists_no_pane(snapshot, pane_id) {
                "pane_still_present"@
            } else {
                "valid"@
            }
        }),
{
    panes_are_found_by_id(snapshot, pane_id, 0);
}

/// A pane belongs to a tab exactly if a pane with both ids is listed.
pub proof fn panes_belong_to_the_tab_they_are_listed_with(
    snapshot: SessionSnapshot,
    pane_id: Seq<char>,
    tab_id: Seq<char>,
)
    ensures
        targeting::targets_tab(snapshot, pane_id, tab_id) <==> exists|pane: PaneInfo|
            snapshot.panes@.contains(pane) && pane.pane_id@ == pane_id && pane.tab_id@ == tab_id,
{
    if targeting::targets_tab(snapshot, pane_id, tab_id) {
        let i = choose|i: int|
            0 <= i < snapshot.panes@.len() && (#[trigger] snapshot.panes@[i]).pane_id@ == pane_id
                && snapshot.panes@[i].tab_id@ == tab_id;
        assert(snapshot.panes@.contains(snapshot.panes@[i]));
    }
}

} // verus!
