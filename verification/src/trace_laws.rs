//! What the record of a decision shows of the tab it is about.

use vstd::prelude::*;

use crate::herdr::PaneProcessInfo;
use crate::naming::PolicyView;
use crate::numbering;
use crate::numbering::Tab;
use crate::process_record;
use crate::process_selection;
use crate::reconciliation;
use crate::reconciliation::RoundView;
use crate::state;
use crate::state::{OwnershipView, StateView};
use crate::tab_decision;
use crate::tab_decision::{ObservationView, TabDecisionView};
use crate::tab_laws;
use crate::tab_naming;
use crate::tab_naming::NamingSource;
use crate::tab_reconciliation::{ContextView, PlanView};
use crate::tab_trace;
use crate::targeting::ClosedPaneView;
use crate::telemetry::PaneMappingView;

verus! {

/// A decision that was recorded.
pub open spec fn written(decision: TabDecisionView) -> Option<TabDecisionView> {
    Some(decision)
}

/// The decision on a tab begins with the tab as it is and with who owns it, and with nothing else.
pub proof fn decisions_begin_with_the_tab(
    tab: Tab,
    pane_count: usize,
    focused: bool,
    ownership: Option<OwnershipView>,
)
    ensures
        ({
            let decision = tab_decision::undecided(
                tab_decision::observation(tab),
                pane_count,
                focused,
                ownership,
            );
            &&& decision.tab_id == tab.tab_id@
            &&& decision.workspace_id == tab.workspace_id@
            &&& decision.label == tab.label@
            &&& decision.pane_count == pane_count
            &&& decision.focused == focused
            &&& decision.ownership_before == ownership
            &&& decision.ownership_after is None && decision.eligible is None
            &&& decision.rejection_reason is None && decision.outcome is None
            &&& decision.selected_naming_pane is None && decision.naming_pane_reason is None
            &&& decision.process_info is None && decision.process_error is None
            &&& decision.representative_process is None
            &&& decision.representative_selection is None
            &&& decision.ignored_processes_skipped.len() == 0
            &&& decision.computed_base_label is None && decision.desired_label is None
            &&& decision.guarded_tab is None && decision.rename_result is None
            &&& !decision.rename_attempted
        }),
{
}

/// Each target of a recorded pass has a decision on record that begins with the tab and its owner.
pub proof fn targets_are_recorded(round: RoundView)
    requires
        round.next < round.targets.len(),
    ensures
        ({
            let tab = round.snapshot.tabs@[round.targets[round.next as int]];
            &&& round.pass.record is None ==> round.undecided() is None
            &&& round.pass.record is Some ==> round.undecided() == written(
                tab_decision::undecided(
                    ObservationView {
                        tab_id: tab.tab.tab_id@,
                        workspace_id: tab.tab.workspace_id@,
                        label: tab.tab.label@,
                    },
                    tab.pane_count,
                    tab.focused,
                    round.pass.state.ownership(tab.tab.tab_id@),
                ),
            )
        }),
{
}

/// How a closed pane was resolved goes on record as it is.
pub proof fn resolutions_are_recorded(pane_id: Seq<char>, resolution: ClosedPaneView)
    ensures
        reconciliation::mapping_of(pane_id, resolution) == (PaneMappingView {
            pane_id,
            mapped_tab_id: resolution.mapped_tab_id,
            resolution: resolution.resolution,
            validation: resolution.validation,
            consumed: resolution.valid,
        }),
{
}

/// A tab that may not be named is recorded with the reason: whose it is, or that it is not known.
pub proof fn owners_are_reasons(pending: OwnershipView, other: OwnershipView)
    requires
        pending is PendingRename,
        other is Owned || other is ResetPending,
    ensures
        tab_trace::rejection(Some(OwnershipView::Manual)) == "manual_ownership"@,
        tab_trace::rejection(Some(OwnershipView::AutomaticDisabled)) == "automatic_disabled"@,
        tab_trace::rejection(Some(pending)) == "pending_rename"@,
        tab_trace::rejection(None) == "non_placeholder_unowned"@,
        tab_trace::rejection(Some(other)) == "ineligible"@,
{
}

/// A placeholder that no event speaks for, and a tab with a label that is not the plugin's, are
/// recorded as left alone.
pub proof fn tabs_left_alone_are_recorded(
    context: ContextView,
    state: StateView,
    decision: TabDecisionView,
)
    ensures
        ({
            let ownership = state.ownership(context.tab.tab.tab_id@);
            let traced = context.traced_opening(state, Some(decision));
            &&& ownership is None && context.settings.auto_name_tabs && numbering::placeholder(
                tab_laws::bare_label(context),
            ) && !tab_laws::speaks_for_a_shell(context.invocation) ==> traced == written(
                TabDecisionView {
                    eligible: Some(false),
                    rejection_reason: Some("initial_adoption_requires_authoritative_event"@),
                    outcome: Some("no_op"@),
                    ownership_after: None,
                    ..decision
                },
            )
            &&& !tab_laws::still_shows(context, ownership) ==> traced == written(
                TabDecisionView {
                    eligible: Some(false),
                    rejection_reason: Some("manual_rename"@),
                    outcome: Some("ownership_blocked"@),
                    ownership_after: Some(OwnershipView::Manual),
                    ..decision
                },
            )
        }),
{
}

/// A tab of the user's is recorded with its reason, with the label it should have, and, where it
/// shows that already, with the reason as its outcome.
pub proof fn tabs_of_users_are_recorded(
    context: ContextView,
    state: StateView,
    decision: TabDecisionView,
)
    requires
        tab_laws::kept_by_user(context, state.ownership(context.tab.tab.tab_id@)),
    ensures
        ({
            let tab_id = context.tab.tab.tab_id@;
            let ownership = state.ownership(tab_id);
            let reason = tab_trace::rejection(ownership);
            let desired = tab_laws::shown_as(context, tab_laws::bare_label(context));
            let planned = TabDecisionView {
                eligible: Some(false),
                rejection_reason: Some(reason),
                computed_base_label: None,
                desired_label: Some(desired),
                ..decision
            };
            context.traced_opening(state, Some(decision)) == written(
                if desired == context.tab.tab.label@ {
                    TabDecisionView {
                        outcome: Some(reason),
                        ownership_after: if ownership is None {
                            Some(OwnershipView::Manual)
                        } else {
                            ownership
                        },
                        ..planned
                    }
                } else {
                    planned
                },
            )
        }),
{
    state::lemma_same_ownership(state, context.tab.tab.tab_id@);
}

/// A tab whose processes are to be looked at is recorded as one that may be named, with the pane
/// that names it and why that pane does.
pub proof fn naming_panes_are_recorded(
    context: ContextView,
    state: StateView,
    decision: TabDecisionView,
)
    requires
        context.opening(state.ownership(context.tab.tab.tab_id@)) is Observe,
    ensures
        context.traced_opening(state, Some(decision)) == written(
            TabDecisionView {
                eligible: Some(true),
                selected_naming_pane: context.source().pane(),
                naming_pane_reason: Some(
                    if context.source() is Ambient {
                        "snapshot_selection"@
                    } else {
                        "event_pane"@
                    },
                ),
                ..decision
            },
        ),
{
}

/// A tab that no pane can name is recorded with why: it has several panes and none is focused, or
/// it has none.
pub proof fn missing_naming_panes_are_recorded(decision: TabDecisionView, pane_count: usize)
    requires
        decision.outcome is None,
    ensures
        ({
            let reason = if pane_count > 1 {
                "background_multi_pane"@
            } else {
                "no_naming_pane"@
            };
            tab_naming::with_source(Some(decision), NamingSource::Nowhere, pane_count) == written(
                TabDecisionView {
                    rejection_reason: Some(reason),
                    outcome: Some(reason),
                    ..decision
                },
            )
        }),
{
}

/// A reason that is found later replaces the reason, and is the outcome unless there is one.
pub proof fn reasons_become_outcomes(decision: TabDecisionView, reason: Seq<char>)
    ensures
        tab_decision::with_rejection(Some(decision), reason) == written(
            TabDecisionView {
                rejection_reason: Some(reason),
                outcome: Some(
                    if decision.outcome is Some {
                        decision.outcome->0
                    } else {
                        reason
                    },
                ),
                ..decision
            },
        ),
        tab_decision::with_rejection(None, reason) is None,
{
}

/// The processes of a pane that was looked at are recorded, with the one that stands for the pane
/// and the ignored ones; what keeps it from naming the tab is recorded as a reason.
pub proof fn observed_panes_are_recorded(
    decision: TabDecisionView,
    pane_id: Seq<char>,
    agent: Option<Seq<char>>,
    policy: PolicyView,
    info: PaneProcessInfo,
    error: String,
)
    requires
        decision.outcome is None,
    ensures
        ({
            let source = NamingSource::Ambient { pane_id, agent };
            let traced = tab_naming::with_observed(Some(decision), source, policy, Ok(info), false);
            let seen = TabDecisionView {
                process_info: Some(process_record::process_record(pane_id, info)),
                process_error: None,
                ..decision
            };
            &&& match process_selection::representative(info, policy, agent) {
                None => traced == written(
                    TabDecisionView {
                        rejection_reason: Some("no_representative_process"@),
                        outcome: Some("no_representative_process"@),
                        ..seen
                    },
                ),
                Some((process, reason)) => {
                    let chosen = TabDecisionView {
                        representative_process: Some(process_record::identity(process)),
                        representative_selection: Some(reason),
                        ignored_processes_skipped: process_record::identities(
                            process_selection::ignored_processes(info, policy),
                        ),
                        ..seen
                    };
                    traced == written(
                        if policy.ignored_program(process.program_name()) {
                            TabDecisionView {
                                rejection_reason: Some("ignored_process"@),
                                outcome: Some("ignored_process"@),
                                ..chosen
                            }
                        } else {
                            chosen
                        },
                    )
                },
            }
            &&& tab_naming::with_observed(Some(decision), source, policy, Err(error), false)
                == written(
                TabDecisionView {
                    process_error: Some(error@),
                    rejection_reason: Some("process_unavailable"@),
                    outcome: Some("process_unavailable"@),
                    ..decision
                },
            )
        }),
{
}

/// Where a shell announced a program or its prompt, what is recorded besides the processes is
/// whether the program or the shell is in the foreground.
pub proof fn announcements_are_recorded(
    decision: TabDecisionView,
    pane_id: Seq<char>,
    shell: Seq<char>,
    program: Seq<char>,
    shell_pid: u32,
    policy: PolicyView,
    info: PaneProcessInfo,
)
    requires
        decision.outcome is None,
    ensures
        ({
            let seen = TabDecisionView {
                process_info: Some(process_record::process_record(pane_id, info)),
                process_error: None,
                ..decision
            };
            let led = match info.leader_process() {
                Some(leader) => TabDecisionView {
                    representative_process: Some(process_record::identity(leader)),
                    ..seen
                },
                None => seen,
            };
            let command = tab_naming::with_observed(
                Some(decision),
                NamingSource::Program { pane_id, shell, program },
                policy,
                Ok(info),
                false,
            );
            let prompt = tab_naming::with_observed(
                Some(decision),
                NamingSource::Shell { pane_id, shell, shell_pid },
                policy,
                Ok(info),
                false,
            );
            &&& !process_selection::group_runs(info, program) ==> command == written(
                TabDecisionView {
                    rejection_reason: Some("event_program_not_foreground"@),
                    outcome: Some("event_program_not_foreground"@),
                    ..seen
                },
            )
            &&& process_selection::group_runs(info, program) ==> match process_selection::representative(
                info,
                policy,
                None,
            ) {
                Some((process, reason)) => command == written(
                    TabDecisionView {
                        representative_process: Some(process_record::identity(process)),
                        representative_selection: Some(reason),
                        ignored_processes_skipped: process_record::identities(
                            process_selection::ignored_processes(info, policy),
                        ),
                        ..seen
                    },
                ),
                None => command == written(
                    if policy.ignored_program(program) {
                        seen
                    } else {
                        TabDecisionView {
                            rejection_reason: Some("no_representative_process"@),
                            outcome: Some("no_representative_process"@),
                            ..seen
                        }
                    },
                ),
            }
            &&& info.foreground_process_group_id == Some(shell_pid) ==> prompt == written(led)
            &&& info.foreground_process_group_id != Some(shell_pid) ==> prompt == written(
                TabDecisionView {
                    rejection_reason: Some("shell_pid_mismatch"@),
                    outcome: Some("shell_pid_mismatch"@),
                    ..led
                },
            )
        }),
{
}

/// A name that was found is recorded, with the label that shows it; a tab that shows it already is
/// recorded as correct, and as the plugin's.
pub proof fn found_names_are_recorded(
    context: ContextView,
    state: StateView,
    ownership: Option<OwnershipView>,
    name: Seq<char>,
    decision: TabDecisionView,
)
    requires
        ({
            ||| tab_laws::asked_to_rename(context)
            ||| tab_laws::handed_back(context, ownership)
            ||| ownership is None && numbering::placeholder(tab_laws::bare_label(context))
            ||| ownership is Some && (ownership->0 is Owned || ownership->0 is ResetPending)
        }),
        decision.rejection_reason is None,
    ensures
        ({
            let desired = tab_laws::shown_as(context, name);
            let planned = TabDecisionView {
                computed_base_label: Some(name),
                desired_label: Some(desired),
                ..decision
            };
            context.traced_plan(state, ownership, Some(name), Some(decision)) == written(
                if desired == context.tab.tab.label@ {
                    TabDecisionView {
                        outcome: Some("already_correct"@),
                        ownership_after: Some(
                            OwnershipView::Owned { last_base: name, last_rendered: desired },
                        ),
                        ..planned
                    }
                } else {
                    planned
                },
            )
        }),
{
}

/// A placeholder that no name was found for is recorded as not adopted, with the reason that is
/// known.
pub proof fn unadopted_placeholders_are_recorded(
    context: ContextView,
    state: StateView,
    decision: TabDecisionView,
)
    requires
        numbering::placeholder(tab_laws::bare_label(context)),
        context.settings.auto_name_tabs,
    ensures
        ({
            let reason = if decision.rejection_reason is Some {
                decision.rejection_reason->0
            } else {
                "process_or_naming_unavailable"@
            };
            context.traced_plan(state, None, None, Some(decision)) == written(
                TabDecisionView {
                    computed_base_label: None,
                    eligible: Some(false),
                    rejection_reason: Some(reason),
                    outcome: Some(reason),
                    ownership_after: state.ownership(context.tab.tab.tab_id@),
                    ..decision
                },
            )
        }),
{
}

/// A tab that keeps its label is recorded with the reason why, or as correct, or as nothing to do.
pub proof fn unchanged_labels_are_recorded(decision: TabDecisionView, plugin_owned: bool)
    ensures
        tab_decision::with_unchanged_outcome(Some(decision), plugin_owned) == written(
            TabDecisionView {
                outcome: Some(
                    match decision.rejection_reason {
                        Some(reason) => reason,
                        None => if plugin_owned {
                            "already_correct"@
                        } else {
                            "no_op"@
                        },
                    },
                ),
                ..decision
            },
        ),
{
}

/// What came of a rename is recorded: that the tab was gone, could not be read, showed another
/// label, or was renamed, or that the rename failed; and who owns the tab then.
pub proof fn renames_are_recorded(
    context: ContextView,
    state: StateView,
    plan: PlanView,
    tab: Tab,
    error: String,
    decision: TabDecisionView,
)
    ensures
        ({
            let owner = state.ownership(context.tab.tab.tab_id@);
            &&& context.traced_guard(state, Ok(Some(tab)), Some(decision)) == written(
                TabDecisionView {
                    guarded_tab: Some(
                        ObservationView {
                            tab_id: tab.tab_id@,
                            workspace_id: tab.workspace_id@,
                            label: tab.label@,
                        },
                    ),
                    ..decision
                },
            )
            &&& context.traced_guard(state, Ok(None), Some(decision)) == written(
                TabDecisionView {
                    rename_result: Some("tab_not_found"@),
                    outcome: Some("tab_missing"@),
                    ownership_after: owner,
                    ..decision
                },
            )
            &&& context.traced_guard(state, Err(error), Some(decision)) == written(
                TabDecisionView {
                    rename_attempted: false,
                    rename_result: Some("error: "@ + error@),
                    outcome: Some("guard_read_error"@),
                    ownership_after: owner,
                    ..decision
                },
            )
            &&& context.traced_stale(state, Some(decision)) == written(
                TabDecisionView {
                    rename_result: Some("stale_guard"@),
                    outcome: Some("stale_guard"@),
                    ownership_after: owner,
                    ..decision
                },
            )
            &&& context.traced_rename(state, plan, Ok(()), Some(decision)) == written(
                TabDecisionView {
                    rename_attempted: true,
                    rename_result: Some("renamed"@),
                    outcome: Some("renamed"@),
                    ownership_after: context.renamed_state(state, plan, Ok(())).ownership(
                        context.tab.tab.tab_id@,
                    ),
                    ..decision
                },
            )
            &&& context.traced_rename(state, plan, Err(error), Some(decision)) == written(
                TabDecisionView {
                    rename_attempted: true,
                    rename_result: Some("error: "@ + error@),
                    outcome: Some("rename_error"@),
                    ownership_after: context.renamed_state(state, plan, Err(error)).ownership(
                        context.tab.tab.tab_id@,
                    ),
                    ..decision
                },
            )
        }),
{
}

/// The result of a tab keeps what it does not state.
pub proof fn results_keep_what_they_do_not_state(
    decision: TabDecisionView,
    eligible: Option<bool>,
    reason: Option<Seq<char>>,
    outcome: Seq<char>,
)
    ensures
        tab_trace::with_result(Some(decision), eligible, reason, outcome) == written(
            TabDecisionView {
                eligible: match eligible {
                    Some(_) => eligible,
                    None => decision.eligible,
                },
                rejection_reason: match reason {
                    Some(_) => reason,
                    None => decision.rejection_reason,
                },
                outcome: Some(outcome),
                ..decision
            },
        ),
        tab_decision::with_outcome(Some(decision), outcome) == written(
            TabDecisionView { outcome: Some(outcome), ..decision },
        ),
{
}

} // verus!
