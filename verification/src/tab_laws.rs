//! What becomes of one tab, in terms of its label, its owner and the event.

use vstd::prelude::*;

use crate::config::Invocation;
use crate::herdr::PaneProcessInfo;
use crate::naming;
use crate::naming::PolicyView;
use crate::numbering;
use crate::numbering::Tab;
use crate::process_selection;
use crate::state;
use crate::state::{OwnershipView, StateView};
use crate::tab_naming;
use crate::tab_naming::NamingSource;
use crate::tab_reconciliation::{ContextView, GuardStepView, PlanView, TabStepView};
use crate::targeting;
use crate::text;

verus! {

/// The label that a tab shows a name with: behind its position, unless tabs are not numbered.
pub open spec fn shown_as(context: ContextView, name: Seq<char>) -> Seq<char> {
    if context.settings.number_tabs {
        numbering::numbered(context.position as nat, name)
    } else {
        name
    }
}

/// The label of a tab without its number.
pub open spec fn bare_label(context: ContextView) -> Seq<char> {
    numbering::base_label(context.tab.tab.label@)
}

/// The step that brings a tab to a label: none if it shows it, else a guarded rename.
pub open spec fn brought_to(
    context: ContextView,
    name: Seq<char>,
    plugin_owned: bool,
) -> TabStepView {
    if shown_as(context, name) == context.tab.tab.label@ {
        TabStepView::Settled
    } else {
        TabStepView::Guard(
            PlanView { desired: shown_as(context, name), desired_base: name, plugin_owned },
        )
    }
}

/// What the plugin knows of a tab that it names: that it owns the label, or that a rename to it is
/// under way, with what it is to go back to.
pub open spec fn taken_over(
    context: ContextView,
    previous: Option<OwnershipView>,
    name: Seq<char>,
) -> OwnershipView {
    if shown_as(context, name) == context.tab.tab.label@ {
        OwnershipView::Owned { last_base: name, last_rendered: context.tab.tab.label@ }
    } else {
        OwnershipView::PendingRename {
            observed: context.tab.tab.label@,
            desired: shown_as(context, name),
            desired_base: name,
            previous_base: match previous {
                Some(OwnershipView::Owned { last_base, .. }) => Some(last_base),
                _ => None,
            },
            previous_rendered: match previous {
                Some(OwnershipView::Owned { last_rendered, .. }) => Some(last_rendered),
                _ => None,
            },
            previous_reset_pending: match previous {
                Some(OwnershipView::ResetPending) => true,
                _ => false,
            },
        }
    }
}

/// Whether an event makes the plugin look at the processes of the tabs it is about.
pub open spec fn looks_at_processes(invocation: Invocation) -> bool {
    match invocation {
        Invocation::Full => false,
        Invocation::Workspace(_) => false,
        Invocation::RenamedTab { .. } => false,
        Invocation::ClosedTab { .. } => false,
        Invocation::Clear => false,
        Invocation::Tab { .. } => true,
        Invocation::ClosedPane { .. } => true,
        Invocation::Init { .. } => true,
        Invocation::Preexec { .. } => true,
        Invocation::Precmd { .. } => true,
        Invocation::Reset { .. } => true,
        Invocation::Toggle { .. } => true,
    }
}

/// Whether an event says what runs in the shell of a pane.
pub open spec fn speaks_for_a_shell(invocation: Invocation) -> bool {
    match invocation {
        Invocation::Init { .. } => true,
        Invocation::Precmd { .. } => true,
        Invocation::Preexec { program, .. } => program is Some,
        _ => false,
    }
}

/// Whether the event is that this tab was renamed.
pub open spec fn tells_of_a_rename(context: ContextView) -> bool {
    context.invocation matches Invocation::RenamedTab { tab_id, .. } && tab_id@
        == context.tab.tab.tab_id@
}

/// Whether the event is that this tab was renamed to white space.
pub open spec fn tells_of_a_blank_label(context: ContextView) -> bool {
    tells_of_a_rename(context) && context.tab.tab.label@.len() > 0 && text::blank(
        context.tab.tab.label@,
    )
}

/// Whether the user asked for this tab to be named again.
pub open spec fn asked_to_rename(context: ContextView) -> bool {
    context.invocation matches Invocation::Reset { tab_id: Some(tab_id), .. } && tab_id@
        == context.tab.tab.tab_id@
}

/// Whether a tab is the user's: its label stays, but for its number.
pub open spec fn kept_by_user(context: ContextView, ownership: Option<OwnershipView>) -> bool {
    !asked_to_rename(context) && match ownership {
        Some(OwnershipView::Manual) => !text::blank(bare_label(context)),
        Some(OwnershipView::AutomaticDisabled) => !tells_of_a_blank_label(context),
        Some(OwnershipView::PendingRename { .. }) => true,
        None => !numbering::placeholder(bare_label(context)),
        _ => false,
    }
}

/// Whether the user gave a tab back to the plugin by emptying its label.
pub open spec fn handed_back(context: ContextView, ownership: Option<OwnershipView>) -> bool {
    match ownership {
        Some(OwnershipView::Manual) => text::blank(bare_label(context)),
        Some(OwnershipView::AutomaticDisabled) => tells_of_a_blank_label(context),
        _ => false,
    }
}

/// Whether the label of a tab that the plugin named is still the one it gave it.
pub open spec fn still_shows(context: ContextView, ownership: Option<OwnershipView>) -> bool {
    match ownership {
        Some(OwnershipView::Owned { last_base, last_rendered }) => context.tab.tab.label@
            == last_rendered && bare_label(context) == last_base,
        _ => true,
    }
}

/// A tab that the plugin named keeps its name and shows it behind its current position: unless it
/// does already, it is renamed to exactly that, and the rename is on record.
pub proof fn owned_tabs_follow_their_position(
    context: ContextView,
    state: StateView,
    last_base: Seq<char>,
)
    requires
        state.ownership(context.tab.tab.tab_id@) == Some(
            OwnershipView::Owned { last_base, last_rendered: context.tab.tab.label@ },
        ),
        bare_label(context) == last_base,
    ensures
        ({
            let tab_id = context.tab.tab.tab_id@;
            let ownership = state.ownership(tab_id);
            &&& context.planned(ownership, None) == brought_to(context, last_base, true)
            &&& context.planned_state(state, ownership, None) == state.with_ownership(
                tab_id,
                Some(taken_over(context, ownership, last_base)),
            )
            &&& !(context.opening(ownership) is Observe) ==> {
                &&& context.opening(ownership) == brought_to(context, last_base, true)
                &&& context.opening_state(state) == state.with_ownership(
                    tab_id,
                    Some(taken_over(context, ownership, last_base)),
                )
            }
            &&& !looks_at_processes(context.invocation) || !context.settings.auto_name_tabs
                || context.source().pane() is None ==> !(context.opening(ownership) is Observe)
        }),
{
    let tab_id = context.tab.tab.tab_id@;
    state::lemma_same_ownership(state, tab_id);
}

/// A name that was found for a tab that the plugin may name is shown, and becomes the plugin's.
pub proof fn found_names_are_shown(
    context: ContextView,
    state: StateView,
    ownership: Option<OwnershipView>,
    name: Seq<char>,
)
    requires
        ({
            ||| asked_to_rename(context)
            ||| handed_back(context, ownership)
            ||| ownership is None && numbering::placeholder(bare_label(context))
            ||| ownership is Some && (ownership->0 is Owned || ownership->0 is ResetPending)
        }),
    ensures
        context.planned(ownership, Some(name)) == brought_to(context, name, true),
        context.planned_state(state, ownership, Some(name)) == state.with_ownership(
            context.tab.tab.tab_id@,
            Some(taken_over(context, ownership, name)),
        ),
{
}

/// The label of a tab that is the user's is kept, but for its number, and no process is looked at.
///
/// A label that nobody was known to own becomes the user's; otherwise nothing is recorded.
pub proof fn labels_of_users_are_kept(context: ContextView, state: StateView)
    requires
        kept_by_user(context, state.ownership(context.tab.tab.tab_id@)),
    ensures
        ({
            let tab_id = context.tab.tab.tab_id@;
            let ownership = state.ownership(tab_id);
            &&& context.opening(ownership) == brought_to(context, bare_label(context), false)
            &&& context.opening_state(state) == if ownership is None {
                state.with_ownership(tab_id, Some(OwnershipView::Manual))
            } else {
                state
            }
        }),
{
    state::lemma_same_ownership(state, context.tab.tab.tab_id@);
}

/// Whatever is found for a tab that is the user's, the tab stays the user's.
pub proof fn tabs_of_users_are_not_claimed(
    context: ContextView,
    state: StateView,
    ownership: Option<OwnershipView>,
    name: Seq<char>,
)
    requires
        kept_by_user(context, ownership),
    ensures
        context.planned(ownership, Some(name)) == brought_to(context, name, false),
        context.planned(ownership, None) == brought_to(context, bare_label(context), false),
        context.planned_state(state, ownership, Some(name)) == state,
        context.planned_state(state, ownership, None) == state,
{
}

/// A tab that the user asked to be named again is looked at if tabs are named automatically and a
/// pane can name it; otherwise, and without a name, it is numbered at most, and nothing is
/// recorded.
pub proof fn tabs_asked_to_be_renamed_are_looked_at(context: ContextView, state: StateView)
    requires
        ({
            let ownership = state.ownership(context.tab.tab.tab_id@);
            &&& asked_to_rename(context)
            &&& ownership is None ==> !numbering::placeholder(bare_label(context))
            &&& ownership is Some ==> !(ownership->0 is Owned)
        }),
    ensures
        ({
            let ownership = state.ownership(context.tab.tab.tab_id@);
            &&& context.opening(ownership) == if context.settings.auto_name_tabs
                && context.source().pane() is Some {
                TabStepView::Observe { pane_id: context.source().pane()->0, ownership }
            } else {
                brought_to(context, bare_label(context), false)
            }
            &&& context.opening_state(state) == state
            &&& context.planned(ownership, None) == brought_to(context, bare_label(context), false)
            &&& context.planned_state(state, ownership, None) == state
        }),
{
    state::lemma_same_ownership(state, context.tab.tab.tab_id@);
}

/// A label that the plugin did not give to a tab of its own makes the tab the user's; the tab is
/// left alone this time, whatever the event.
pub proof fn foreign_labels_make_tabs_manual(context: ContextView, state: StateView)
    requires
        !still_shows(context, state.ownership(context.tab.tab.tab_id@)),
    ensures
        context.opening(state.ownership(context.tab.tab.tab_id@)) == TabStepView::Settled,
        context.opening_state(state) == state.with_ownership(
            context.tab.tab.tab_id@,
            Some(OwnershipView::Manual),
        ),
{
}

/// A placeholder that nobody owns is named only if an event says what runs in its shell; its
/// processes are looked at then, and it is left alone if there is no pane to look at, or no name.
pub proof fn placeholders_are_adopted_for_their_shell(context: ContextView, state: StateView)
    requires
        state.ownership(context.tab.tab.tab_id@) is None,
        numbering::placeholder(bare_label(context)),
        context.settings.auto_name_tabs,
    ensures
        context.opening_state(state) == state,
        context.opening(None) == if speaks_for_a_shell(context.invocation)
            && context.source().pane() is Some {
            TabStepView::Observe { pane_id: context.source().pane()->0, ownership: None }
        } else {
            TabStepView::Settled
        },
        context.planned(None, None) == TabStepView::Settled,
        context.planned_state(state, None, None) == state,
{
    state::lemma_same_ownership(state, context.tab.tab.tab_id@);
}

/// Where tabs are not named automatically, a placeholder is numbered and stays nobody's.
pub proof fn unnamed_placeholders_are_numbered(context: ContextView, state: StateView)
    requires
        state.ownership(context.tab.tab.tab_id@) is None,
        numbering::placeholder(bare_label(context)),
        !context.settings.auto_name_tabs,
    ensures
        context.opening(None) == brought_to(context, bare_label(context), false),
        context.opening_state(state) == state,
{
    state::lemma_same_ownership(state, context.tab.tab.tab_id@);
}

/// The processes of a tab that the plugin may name are looked at exactly if tabs are named
/// automatically, a pane can name it, and the event, an emptied label or a pending reset calls for
/// it; the plugin's own rename calls for nothing.
pub proof fn processes_are_looked_at_when_called_for(context: ContextView, state: StateView)
    requires
        ({
            let ownership = state.ownership(context.tab.tab.tab_id@);
            &&& still_shows(context, ownership)
            &&& !kept_by_user(context, ownership)
            &&& ownership is Some
        }),
    ensures
        ({
            let ownership = state.ownership(context.tab.tab.tab_id@);
            let called_for = {
                &&& context.settings.auto_name_tabs
                &&& context.source().pane() is Some
                &&& looks_at_processes(context.invocation) || tells_of_a_blank_label(context)
                    || ownership->0 is ResetPending
                &&& !(tells_of_a_rename(context) && ownership->0 is Owned)
            };
            &&& called_for ==> context.opening(ownership) == (TabStepView::Observe {
                pane_id: context.source().pane()->0,
                ownership,
            })
            &&& !called_for ==> !(context.opening(ownership) is Observe)
        }),
{
}

/// A tab that the user handed back belongs to nobody until a name is found; without one it is
/// numbered at most.
pub proof fn tabs_handed_back_are_released(context: ContextView, state: StateView)
    requires
        handed_back(context, state.ownership(context.tab.tab.tab_id@)),
        !asked_to_rename(context),
    ensures
        ({
            let tab_id = context.tab.tab.tab_id@;
            let ownership = state.ownership(tab_id);
            &&& context.opening_state(state) == state.with_ownership(tab_id, None)
            &&& !(context.opening(ownership) is Observe) ==> context.opening(ownership)
                == brought_to(context, bare_label(context), false)
            &&& context.planned(ownership, None) == brought_to(context, bare_label(context), false)
            &&& context.planned_state(state, ownership, None) == state
        }),
{
}

/// A pending reset stays pending until a name is found; without one the tab is numbered at most.
pub proof fn resets_stay_pending_until_a_name_is_found(context: ContextView, state: StateView)
    requires
        state.ownership(context.tab.tab.tab_id@) == Some(OwnershipView::ResetPending),
    ensures
        ({
            let ownership = state.ownership(context.tab.tab.tab_id@);
            &&& context.opening_state(state) == state
            &&& !(context.opening(ownership) is Observe) ==> context.opening(ownership)
                == brought_to(context, bare_label(context), false)
            &&& context.planned(ownership, None) == brought_to(context, bare_label(context), false)
            &&& context.planned_state(state, ownership, None) == state
        }),
{
    state::lemma_same_ownership(state, context.tab.tab.tab_id@);
}

/// Looking at processes changes nothing by itself: the plugin still owns what it owned.
pub proof fn looking_changes_nothing(context: ContextView, state: StateView)
    requires
        !handed_back(context, state.ownership(context.tab.tab.tab_id@)),
        context.opening(state.ownership(context.tab.tab.tab_id@)) is Observe,
    ensures
        context.opening_state(state) == state,
{
    state::lemma_same_ownership(state, context.tab.tab.tab_id@);
}

/// A tab that was read before its rename is renamed if it still shows the label it was decided on;
/// it is left alone if it shows another or is gone, and the pass fails if it cannot be read.
pub proof fn renames_are_guarded(
    context: ContextView,
    state: StateView,
    plan: PlanView,
    latest: Result<Option<Tab>, String>,
)
    ensures
        match latest {
            Ok(Some(tab)) if tab.label@ == context.tab.tab.label@ => {
                &&& context.guarded(latest) == GuardStepView::Rename
                &&& context.guarded_state(state, plan, latest) == state
            },
            Ok(Some(tab)) => {
                let tab_id = context.tab.tab.tab_id@;
                &&& context.guarded(latest) == GuardStepView::Stale
                &&& !plan.plugin_owned ==> context.guarded_state(state, plan, latest) == state
                &&& plan.plugin_owned ==> context.guarded_state(state, plan, latest)
                    == state.with_ownership(
                    tab_id,
                    state::resolved(state.ownership(tab_id), tab.label@),
                )
            },
            Ok(None) => {
                &&& context.guarded(latest) == GuardStepView::Settled
                &&& context.guarded_state(state, plan, latest) == state
            },
            Err(error) => {
                &&& context.guarded(latest) == GuardStepView::Failed(error@)
                &&& context.guarded_state(state, plan, latest) == state
            },
        },
{
}

/// A rename of the plugin's own that was sent makes it the owner of the label; any other outcome
/// leaves the state as it is.
pub proof fn sent_renames_are_owned(
    context: ContextView,
    state: StateView,
    plan: PlanView,
    result: Result<(), String>,
)
    ensures
        context.renamed_state(state, plan, result) == if result is Ok && plan.plugin_owned {
            state.with_ownership(
                context.tab.tab.tab_id@,
                Some(
                    OwnershipView::Owned {
                        last_base: plan.desired_base,
                        last_rendered: plan.desired,
                    },
                ),
            )
        } else {
            state
        },
{
}

/// The pane of the shell hook that an event comes from, if it comes from one that names a program
/// or a prompt.
pub open spec fn hook_pane(invocation: Invocation) -> Option<Seq<char>> {
    match invocation {
        Invocation::Preexec { pane_id, program: Some(_), .. } => Some(pane_id@),
        Invocation::Init { pane_id, .. } => Some(pane_id@),
        Invocation::Precmd { pane_id, .. } => Some(pane_id@),
        _ => None,
    }
}

/// Whether a shell hook speaks for a tab: its pane is listed as one of the tab's.
pub open spec fn hooked(context: ContextView) -> bool {
    hook_pane(context.invocation) is Some && targeting::targets_tab(
        context.snapshot,
        hook_pane(context.invocation)->0,
        context.tab.tab.tab_id@,
    )
}

/// A tab is named after the pane of the shell hook that speaks for it, and otherwise after the pane
/// that names it in the snapshot.
pub proof fn tabs_are_named_after_their_pane(context: ContextView)
    ensures
        context.source().pane() == if hooked(context) {
            hook_pane(context.invocation)
        } else {
            targeting::naming_pane_of(context.snapshot, context.tab)
        },
{
}

/// What a label comes to in a tab: nothing is shown for a hidden one.
pub open spec fn or_nothing(label: Option<Seq<char>>) -> Seq<char> {
    match label {
        Some(label) => label,
        None => Seq::empty(),
    }
}

/// A pane that cannot be observed names no tab.
pub proof fn unobserved_panes_name_nothing(context: ContextView, error: String)
    ensures
        context.computed(Err(error)) is None,
{
}

/// A program that a shell hook announced names its tab if it runs in the pane and something
/// represents the pane, or if it is ignored.
pub proof fn announced_programs_name_their_tab(
    context: ContextView,
    info: PaneProcessInfo,
    announced_in: String,
    shell: String,
    program: String,
)
    requires
        hooked(context),
        context.invocation == (Invocation::Preexec {
            pane_id: announced_in,
            shell,
            program: Some(program),
        }),
    ensures
        context.computed(Ok(info)) == if process_selection::group_runs(info, program@) && (
        process_selection::representative(info, context.policy, None) is Some
            || context.policy.ignored_processes.contains(naming::normalized(program@))) {
            Some(or_nothing(context.policy.program_label(shell@, program@, None)))
        } else {
            None
        },
{
}

/// A prompt names its tab after its shell if that shell leads the foreground of the pane.
pub proof fn prompts_name_their_tab(
    context: ContextView,
    info: PaneProcessInfo,
    announced_in: String,
    shell: String,
    shell_pid: u32,
)
    requires
        hooked(context),
        context.invocation == (Invocation::Init { pane_id: announced_in, shell, shell_pid })
            || context.invocation == (Invocation::Precmd {
            pane_id: announced_in,
            shell,
            shell_pid,
        }),
    ensures
        context.computed(Ok(info)) == if info.foreground_process_group_id == Some(shell_pid) {
            Some(or_nothing(context.policy.label(shell@, None)))
        } else {
            None
        },
{
}

/// A pane that no hook speaks for names its tab after the process that represents it, unless that
/// is ignored; an agent that Herdr recognized in the pane is preferred.
pub proof fn observed_processes_name_their_tab(
    context: ContextView,
    info: PaneProcessInfo,
    pane_id: Seq<char>,
)
    requires
        !hooked(context),
        targeting::naming_pane_of(context.snapshot, context.tab) == Some(pane_id),
    ensures
        ({
            let agent = match targeting::pane_by_id(context.snapshot, pane_id) {
                Some(pane) => text::optional_text(pane.agent),
                None => None,
            };
            let chosen = process_selection::representative(info, context.policy, agent);
            context.computed(Ok(info)) == match chosen {
                Some((process, _)) => if context.policy.ignored_processes.contains(
                    naming::normalized(process.program_name()),
                ) {
                    None
                } else {
                    Some(
                        or_nothing(
                            context.policy.program_label(
                                context.fallback_shell,
                                process.program_name(),
                                None,
                            ),
                        ),
                    )
                },
                None => None,
            }
        }),
{
}

/// Where a tab is to be named after a shell only, an observed pane names it as always if a shell
/// represents the pane, and not at all otherwise.
pub proof fn shells_name_tabs_where_only_they_may(
    policy: PolicyView,
    fallback_shell: Seq<char>,
    info: PaneProcessInfo,
    pane_id: Seq<char>,
    agent: Option<Seq<char>>,
)
    ensures
        ({
            let source = NamingSource::Ambient { pane_id, agent };
            let chosen = process_selection::representative(info, policy, agent);
            tab_naming::computed(source, policy, fallback_shell, Ok(info), true) == if chosen
                is Some && policy.shells.contains(
                naming::normalized((chosen->0).0.program_name()),
            ) {
                tab_naming::computed(source, policy, fallback_shell, Ok(info), false)
            } else {
                None
            }
        }),
{
}

} // verus!
