//! What is known of a session after each change, tab by tab and pane by pane.

use vstd::prelude::*;

use crate::filesystem::FileFailure;
use crate::herdr::{PaneInfo, SessionSnapshot, SessionTab};
use crate::numbering;
use crate::reconciliation;
use crate::state;
use crate::state::{
    OwnershipView, PendingRenameResolution, PersistedState, StateErrorView, StateView,
};
use crate::table;
use crate::targeting;
use crate::text;

verus! {

/// A rename that was under way is settled by the label that the tab shows: the plugin owns the
/// label it wanted, goes back to what it knew where the old label is still there, and leaves any
/// other label to the user.
pub proof fn pending_renames_are_settled_by_the_label(
    observed: Seq<char>,
    desired: Seq<char>,
    desired_base: Seq<char>,
    previous_base: Option<Seq<char>>,
    previous_rendered: Option<Seq<char>>,
    previous_reset_pending: bool,
    label: Seq<char>,
)
    ensures
        ({
            let pending = Some(
                OwnershipView::PendingRename {
                    observed,
                    desired,
                    desired_base,
                    previous_base,
                    previous_rendered,
                    previous_reset_pending,
                },
            );
            &&& label == desired ==> {
                &&& state::resolved(pending, label) == Some(
                    OwnershipView::Owned { last_base: desired_base, last_rendered: desired },
                )
                &&& state::resolution(pending, label) == Some(PendingRenameResolution::Owned)
            }
            &&& label != desired && label == observed ==> {
                &&& state::resolution(pending, label) == Some(PendingRenameResolution::Retry)
                &&& previous_reset_pending ==> state::resolved(pending, label) == Some(
                    OwnershipView::ResetPending,
                )
                &&& !previous_reset_pending && previous_base is Some && previous_rendered is Some
                    ==> state::resolved(pending, label) == Some(
                    OwnershipView::Owned {
                        last_base: previous_base->0,
                        last_rendered: previous_rendered->0,
                    },
                )
                &&& !previous_reset_pending && (previous_base is None || previous_rendered is None)
                    ==> state::resolved(pending, label) is None
            }
            &&& label != desired && label != observed ==> {
                &&& state::resolved(pending, label) == Some(OwnershipView::Manual)
                &&& state::resolution(pending, label) == Some(PendingRenameResolution::Manual)
            }
        }),
{
}

/// Without a rename under way nothing is settled.
pub proof fn nothing_else_is_settled(ownership: Option<OwnershipView>, label: Seq<char>)
    requires
        ownership is None || !(ownership->0 is PendingRename),
    ensures
        state::resolved(ownership, label) == ownership,
        state::resolution(ownership, label) is None,
{
}

/// Recording or forgetting the ownership of a tab changes that tab's ownership and nothing else.
pub proof fn ownerships_are_recorded_tab_by_tab(
    state: StateView,
    tab_id: Seq<char>,
    ownership: Option<OwnershipView>,
    other: Seq<char>,
)
    ensures
        ({
            let after = state.with_ownership(tab_id, ownership);
            &&& after.ownership(tab_id) == ownership
            &&& other != tab_id ==> after.ownership(other) == state.ownership(other)
            &&& after.suspended == state.suspended
            &&& after.pane_tabs == state.pane_tabs
            &&& ownership is None <==> !after.tabs.dom().contains(tab_id)
            &&& ownership is Some ==> after.tabs[tab_id] == ownership->0
        }),
{
}

/// Settling a tab's rename changes that tab's ownership and nothing else.
pub proof fn renames_are_settled_tab_by_tab(
    state: StateView,
    tab_id: Seq<char>,
    label: Seq<char>,
    other: Seq<char>,
)
    ensures
        ({
            let after = state.resolve(tab_id, label);
            &&& after.ownership(tab_id) == state::resolved(state.ownership(tab_id), label)
            &&& other != tab_id ==> after.ownership(other) == state.ownership(other)
            &&& after.suspended == state.suspended
            &&& after.pane_tabs == state.pane_tabs
        }),
{
}

/// Forgetting the tabs that are gone keeps what is known of the others, and of the panes.
pub proof fn only_missing_tabs_are_forgotten(
    state: StateView,
    tab_ids: Set<Seq<char>>,
    tab_id: Seq<char>,
)
    ensures
        ({
            let after = state.prune(tab_ids);
            &&& after.ownership(tab_id) == if tab_ids.contains(tab_id) {
                state.ownership(tab_id)
            } else {
                None
            }
            &&& after.suspended == state.suspended
            &&& after.pane_tabs == state.pane_tabs
        }),
{
}

/// A state that nothing is known of is active, and knows of no tab and no pane.
pub proof fn fresh_states_know_nothing(tab_id: Seq<char>)
    ensures
        !StateView::fresh().suspended,
        StateView::fresh().ownership(tab_id) is None,
        !StateView::fresh().pane_tabs.dom().contains(tab_id),
{
}

/// The ids of the tabs of a snapshot are those that a tab of it has.
pub proof fn snapshots_have_the_ids_of_their_tabs(tabs: Seq<SessionTab>, tab_id: Seq<char>)
    ensures
        state::tab_ids(tabs).contains(tab_id) <==> exists|tab: SessionTab|
            tabs.contains(tab) && tab.tab.tab_id@ == tab_id,
{
    if state::tab_ids(tabs).contains(tab_id) {
        let i = choose|i: int| 0 <= i < tabs.len() && (#[trigger] tabs[i]).tab.tab_id@ == tab_id;
        assert(tabs.contains(tabs[i]));
    }
}

/// A pane that is listed is known to be in the tab it was last listed with; a pane that is not
/// stays known exactly as long as its tab is there.
pub proof fn panes_are_known_by_their_last_listing(
    state: StateView,
    panes: Seq<PaneInfo>,
    tabs: Seq<SessionTab>,
    pane_id: Seq<char>,
)
    ensures
        ({
            let after = state.refresh(panes, tabs);
            &&& after.tabs == state.tabs
            &&& after.suspended == state.suspended
            &&& (forall|i: int| 0 <= i < panes.len() ==> (#[trigger] panes[i]).pane_id@ != pane_id)
                ==> {
                let kept = state.pane_tabs.dom().contains(pane_id) && state::tab_ids(
                    tabs,
                ).contains(state.pane_tabs[pane_id]);
                &&& after.pane_tabs.dom().contains(pane_id) <==> kept
                &&& kept ==> after.pane_tabs[pane_id] == state.pane_tabs[pane_id]
            }
            &&& forall|last: int|
                0 <= last < panes.len() && panes[last].pane_id@ == pane_id && (forall|i: int|
                    last < i < panes.len() ==> (#[trigger] panes[i]).pane_id@ != pane_id) ==> {
                    &&& after.pane_tabs.dom().contains(pane_id)
                    &&& after.pane_tabs[pane_id] == (#[trigger] panes[last]).tab_id@
                }
        }),
{
    let kept = table::with_values_in(state.pane_tabs, state::tab_ids(tabs));
    if forall|i: int| 0 <= i < panes.len() ==> (#[trigger] panes[i]).pane_id@ != pane_id {
        lemma_unlisted(kept, panes, pane_id);
    }
    assert forall|last: int|
        0 <= last < panes.len() && panes[last].pane_id@ == pane_id && (forall|i: int|
            last < i < panes.len() ==> (#[trigger] panes[i]).pane_id@ != pane_id) implies {
        let after = state.refresh(panes, tabs);
        &&& after.pane_tabs.dom().contains(pane_id)
        &&& after.pane_tabs[pane_id] == (#[trigger] panes[last]).tab_id@
    } by {
        lemma_listed(kept, panes, pane_id, last);
    }
}

proof fn lemma_unlisted(
    mapping: Map<Seq<char>, Seq<char>>,
    panes: Seq<PaneInfo>,
    pane_id: Seq<char>,
)
    requires
        forall|i: int| 0 <= i < panes.len() ==> (#[trigger] panes[i]).pane_id@ != pane_id,
    ensures
        ({
            let after = state::mapped_panes(mapping, panes);
            &&& after.dom().contains(pane_id) == mapping.dom().contains(pane_id)
            &&& mapping.dom().contains(pane_id) ==> after[pane_id] == mapping[pane_id]
        }),
    decreases panes.len(),
{
    if panes.len() > 0 {
        assert forall|i: int| 0 <= i < panes.drop_last().len() implies (
        #[trigger] panes.drop_last()[i]).pane_id@ != pane_id by {
            assert(panes[i].pane_id@ != pane_id);
        }
        lemma_unlisted(mapping, panes.drop_last(), pane_id);
        assert(panes[panes.len() - 1].pane_id@ != pane_id);
    }
}

proof fn lemma_listed(
    mapping: Map<Seq<char>, Seq<char>>,
    panes: Seq<PaneInfo>,
    pane_id: Seq<char>,
    last: int,
)
    requires
        0 <= last < panes.len(),
        panes[last].pane_id@ == pane_id,
        forall|i: int| last < i < panes.len() ==> (#[trigger] panes[i]).pane_id@ != pane_id,
    ensures
        state::mapped_panes(mapping, panes).dom().contains(pane_id),
        state::mapped_panes(mapping, panes)[pane_id] == panes[last].tab_id@,
    decreases panes.len(),
{
    if last < panes.len() - 1 {
        let shorter = panes.drop_last();
        assert forall|i: int| last < i < shorter.len() implies (#[trigger] shorter[i]).pane_id@
            != pane_id by {
            assert(panes[i].pane_id@ != pane_id);
        }
        lemma_listed(mapping, shorter, pane_id, last);
        assert(panes[panes.len() - 1].pane_id@ != pane_id);
    }
}

/// After recovery, a tab that is listed once has the ownership that its label settles; a tab that
/// is not listed keeps the one it had.
pub proof fn recovery_goes_by_the_labels_shown(
    state: StateView,
    tabs: Seq<SessionTab>,
    index: int,
    tab_id: Seq<char>,
)
    ensures
        0 <= index < tabs.len() && tabs[index].tab.tab_id@ == tab_id && (forall|i: int|
            0 <= i < tabs.len() && i != index ==> (#[trigger] tabs[i]).tab.tab_id@ != tab_id)
            ==> reconciliation::recovered(state, tabs).ownership(tab_id) == state::resolved(
            state.ownership(tab_id),
            tabs[index].tab.label@,
        ),
        (forall|i: int| 0 <= i < tabs.len() ==> (#[trigger] tabs[i]).tab.tab_id@ != tab_id)
            ==> reconciliation::recovered(state, tabs).ownership(tab_id) == state.ownership(tab_id),
        reconciliation::recovered(state, tabs).pane_tabs == state.pane_tabs,
        reconciliation::recovered(state, tabs).suspended == state.suspended,
    decreases tabs.len(),
{
    if tabs.len() > 0 {
        let shorter = tabs.drop_last();
        recovery_goes_by_the_labels_shown(state, shorter, index, tab_id);
        assert forall|i: int| 0 <= i < shorter.len() implies #[trigger] shorter[i] == tabs[i] by {}
        let last = tabs.len() - 1;
        assert(tabs[last] == tabs.last());
        if 0 <= index < tabs.len() && tabs[index].tab.tab_id@ == tab_id && (forall|i: int|
            0 <= i < tabs.len() && i != index ==> (#[trigger] tabs[i]).tab.tab_id@ != tab_id) {
            assert forall|i: int| 0 <= i < shorter.len() && i != index implies (
            #[trigger] shorter[i]).tab.tab_id@ != tab_id by {
                assert(tabs[i].tab.tab_id@ != tab_id);
            }
            if index == last {
                assert forall|i: int| 0 <= i < shorter.len() implies (
                #[trigger] shorter[i]).tab.tab_id@ != tab_id by {
                    assert(tabs[i].tab.tab_id@ != tab_id);
                }
            } else {
                assert(tabs[last].tab.tab_id@ != tab_id);
            }
        }
        if forall|i: int| 0 <= i < tabs.len() ==> (#[trigger] tabs[i]).tab.tab_id@ != tab_id {
            assert forall|i: int| 0 <= i < shorter.len() implies (
            #[trigger] shorter[i]).tab.tab_id@ != tab_id by {
                assert(tabs[i].tab.tab_id@ != tab_id);
            }
            assert(tabs[last].tab.tab_id@ != tab_id);
        }
    }
}

/// What is stored of a state says of each tab and pane what its last entry says.
pub proof fn stored_entries_are_taken_over(
    persisted: PersistedState,
    tab: int,
    pane: int,
)
    ensures
        persisted.contents().suspended == persisted.suspended,
        0 <= tab < persisted.tabs@.len() && (forall|i: int|
            tab < i < persisted.tabs@.len() ==> (#[trigger] persisted.tabs@[i]).0@
                != persisted.tabs@[tab].0@) ==> persisted.contents().ownership(
            persisted.tabs@[tab].0@,
        ) == Some(persisted.tabs@[tab].1@),
        0 <= pane < persisted.pane_tabs@.len() && (forall|i: int|
            pane < i < persisted.pane_tabs@.len() ==> (#[trigger] persisted.pane_tabs@[i]).0@
                != persisted.pane_tabs@[pane].0@) ==> {
            &&& persisted.contents().pane_tabs.dom().contains(persisted.pane_tabs@[pane].0@)
            &&& persisted.contents().pane_tabs[persisted.pane_tabs@[pane].0@]
                == persisted.pane_tabs@[pane].1@
        },
{
    if 0 <= tab < persisted.tabs@.len() && (forall|i: int|
        tab < i < persisted.tabs@.len() ==> (#[trigger] persisted.tabs@[i]).0@
            != persisted.tabs@[tab].0@) {
        lemma_entry(persisted.tabs@, tab);
    }
    if 0 <= pane < persisted.pane_tabs@.len() && (forall|i: int|
        pane < i < persisted.pane_tabs@.len() ==> (#[trigger] persisted.pane_tabs@[i]).0@
            != persisted.pane_tabs@[pane].0@) {
        lemma_entry(persisted.pane_tabs@, pane);
    }
}

proof fn lemma_entry<V: View>(entries: Seq<(String, V)>, index: int)
    requires
        0 <= index < entries.len(),
        forall|i: int|
            index < i < entries.len() ==> (#[trigger] entries[i]).0@ != entries[index].0@,
    ensures
        table::entry_map(entries).dom().contains(entries[index].0@),
        table::entry_map(entries)[entries[index].0@] == entries[index].1@,
    decreases entries.len(),
{
    let last = entries.len() - 1;
    if index < last {
        let shorter = entries.drop_last();
        assert forall|i: int| index < i < shorter.len() implies (#[trigger] shorter[i]).0@
            != shorter[index].0@ by {
            assert(entries[i].0@ != entries[index].0@);
        }
        lemma_entry(shorter, index);
        assert(entries[last].0@ != entries[index].0@);
    }
}

/// Toggling a tab that is listed turns automatic naming on where the user had named the tab or
/// turned it off, and off everywhere else; nothing happens for a tab that is not listed.
pub proof fn toggling_switches_automatic_naming(
    state: StateView,
    snapshot: SessionSnapshot,
    tab_id: Seq<char>,
)
    ensures
        match targeting::tab_by_id(snapshot, tab_id) {
            None => reconciliation::toggled(state, snapshot, tab_id) == state,
            Some(tab) => {
                let on = match state.ownership(tab_id) {
                    Some(OwnershipView::Manual) => true,
                    Some(OwnershipView::AutomaticDisabled) => true,
                    Some(OwnershipView::ResetPending) => false,
                    Some(OwnershipView::Owned { .. }) => false,
                    Some(OwnershipView::PendingRename { .. }) => false,
                    None => !numbering::placeholder(numbering::base_label(tab.tab.label@)),
                };
                reconciliation::toggled(state, snapshot, tab_id) == state.with_ownership(
                    tab_id,
                    Some(
                        if on {
                            OwnershipView::ResetPending
                        } else {
                            OwnershipView::AutomaticDisabled
                        },
                    ),
                )
            },
        },
{
}

/// What was never stored is not known.
pub proof fn what_was_not_stored_is_not_known(persisted: PersistedState, id: Seq<char>)
    ensures
        (forall|i: int| 0 <= i < persisted.tabs@.len() ==> (#[trigger] persisted.tabs@[i]).0@ != id)
            ==> persisted.contents().ownership(id) is None,
        (forall|i: int|
            0 <= i < persisted.pane_tabs@.len() ==> (#[trigger] persisted.pane_tabs@[i]).0@ != id)
            ==> !persisted.contents().pane_tabs.dom().contains(id),
{
    if forall|i: int|
        0 <= i < persisted.tabs@.len() ==> (#[trigger] persisted.tabs@[i]).0@ != id {
        lemma_no_entry(persisted.tabs@, id);
    }
    if forall|i: int|
        0 <= i < persisted.pane_tabs@.len() ==> (#[trigger] persisted.pane_tabs@[i]).0@ != id {
        lemma_no_entry(persisted.pane_tabs@, id);
    }
}

proof fn lemma_no_entry<V: View>(entries: Seq<(String, V)>, key: Seq<char>)
    requires
        forall|i: int| 0 <= i < entries.len() ==> (#[trigger] entries[i]).0@ != key,
    ensures
        !table::entry_map(entries).dom().contains(key),
    decreases entries.len(),
{
    if entries.len() > 0 {
        let shorter = entries.drop_last();
        assert forall|i: int| 0 <= i < shorter.len() implies (#[trigger] shorter[i]).0@ != key by {
            assert(shorter[i] == entries[i]);
        }
        lemma_no_entry(shorter, key);
        assert(entries[entries.len() - 1].0@ != key);
    }
}

/// A state is read if its version is the first; one that is missing is fresh, and everything else
/// is reported with what was said of it.
pub proof fn states_are_read_or_reported(persisted: PersistedState, error: String)
    ensures
        persisted.version == 1 ==> state::read_as(Ok(Ok(persisted))) == Ok::<
            StateView,
            StateErrorView,
        >(persisted.contents()),
        persisted.version != 1 ==> state::read_as(Ok(Ok(persisted))) == Err::<
            StateView,
            StateErrorView,
        >(
            StateErrorView::InvalidData(
                "unsupported state version "@ + text::decimal(persisted.version as nat),
            ),
        ),
        state::read_as(Ok(Err(error))) == Err::<StateView, StateErrorView>(
            StateErrorView::InvalidData(error@),
        ),
        state::read_as(Err(FileFailure::Missing(error))) == Ok::<StateView, StateErrorView>(
            StateView { suspended: false, tabs: Map::empty(), pane_tabs: Map::empty() },
        ),
        state::read_as(Err(FileFailure::Exists(error))) == Err::<StateView, StateErrorView>(
            StateErrorView::Unreadable(error@),
        ),
        state::read_as(Err(FileFailure::Other(error))) == Err::<StateView, StateErrorView>(
            StateErrorView::Unreadable(error@),
        ),
        StateErrorView::InvalidData(error@).text() == error@,
        StateErrorView::Unreadable(error@).text() == error@,
{
}

} // verus!
