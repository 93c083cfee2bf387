//! Recording of the steps that lead to the decision on one tab.

use vstd::prelude::*;

use crate::herdr::{PaneProcessInfo, ProcessInfo};
use crate::naming::PolicyView;
use crate::process_record;
use crate::process_record::ProcessIdentity;
use crate::process_selection;
use crate::process_selection::RepresentativeSelection;
use crate::state;
use crate::state::{OwnershipView, State, TabOwnership};
use crate::tab_decision;
use crate::tab_decision::{TabDecisionView, TabTelemetry};
use crate::text;

verus! {

/// A decision with its eligibility and reason, where given, and its outcome.
pub open spec fn with_result(
    decision: Option<TabDecisionView>,
    eligible: Option<bool>,
    reason: Option<Seq<char>>,
    outcome: Seq<char>,
) -> Option<TabDecisionView> {
    match decision {
        Some(decision) => Some(
            TabDecisionView {
                eligible: if eligible is Some {
                    eligible
                } else {
                    decision.eligible
                },
                rejection_reason: if reason is Some {
                    reason
                } else {
                    decision.rejection_reason
                },
                outcome: Some(outcome),
                ..decision
            },
        ),
        None => None,
    }
}

/// Records a decision that ends the reconciliation of a tab.
pub fn trace_result(
    telemetry: &mut TabTelemetry,
    eligible: Option<bool>,
    rejection_reason: Option<&str>,
    outcome: &str,
)
    ensures
        final(telemetry)@ == with_result(
            old(telemetry)@,
            eligible,
            text::borrowed_text(rejection_reason),
            outcome@,
        ),
{
    match telemetry {
        TabTelemetry::Recording(record) => {
            if eligible.is_some() {
                record.eligible = eligible;
            }
            if let Some(reason) = rejection_reason {
                record.rejection_reason = Some(reason.to_owned());
            }
            record.outcome = Some(outcome.to_owned());
        },
        TabTelemetry::Off => {},
    }
}

/// Records the ownership that a tab ended up with.
pub fn trace_ownership_after(telemetry: &mut TabTelemetry, state: &State, tab_id: &str)
    ensures
        final(telemetry)@ == tab_decision::with_ownership_after(
            old(telemetry)@,
            state@.ownership(tab_id@),
        ),
{
    telemetry.set_ownership_after(state, tab_id);
}

/// Records the pane that names a tab.
pub fn trace_naming_pane(telemetry: &mut TabTelemetry, pane_id: &str, reason: &str)
    ensures
        final(telemetry)@ == tab_decision::with_naming_pane(old(telemetry)@, pane_id@, reason@),
{
    telemetry.record_naming_pane(pane_id, reason);
}

/// Records why a tab is not named.
pub fn trace_rejection(telemetry: &mut TabTelemetry, reason: &str)
    ensures
        final(telemetry)@ == tab_decision::with_rejection(old(telemetry)@, reason@),
{
    telemetry.reject(reason);
}

/// Records the processes of the naming pane.
pub fn trace_process_info(
    telemetry: &mut TabTelemetry,
    pane_id: &str,
    process_info: &PaneProcessInfo,
)
    ensures
        final(telemetry)@ == tab_decision::with_process_info(
            old(telemetry)@,
            pane_id@,
            *process_info,
        ),
{
    telemetry.record_process_info(pane_id, process_info);
}

/// Records that the processes of the naming pane could not be read.
pub fn trace_process_error(telemetry: &mut TabTelemetry, error: String)
    ensures
        final(telemetry)@ == tab_decision::with_process_error(old(telemetry)@, error@),
{
    telemetry.record_process_error(error);
}

/// Records the process that stands for the naming pane.
pub fn trace_representative(telemetry: &mut TabTelemetry, process: &ProcessInfo)
    ensures
        final(telemetry)@ == tab_decision::with_representative(old(telemetry)@, *process),
{
    telemetry.record_representative(process);
}

/// Records how the process that stands for the naming pane was selected.
///
/// The processes on record are those that the selection itself passed over. Where it was made with
/// them collected, they are the ignored processes of the pane.
pub fn trace_selection(telemetry: &mut TabTelemetry, selection: &RepresentativeSelection)
    ensures
        final(telemetry)@ == tab_decision::with_chosen(
            old(telemetry)@,
            *selection.process,
            selection.reason@,
            selection.passed_over(),
        ),
        forall|info: PaneProcessInfo, policy: PolicyView, preferred_program: Option<Seq<char>>|
            #[trigger] process_selection::selected(
                Some(*selection),
                info,
                policy,
                preferred_program,
                true,
            ) ==> final(telemetry)@ == tab_decision::with_selection(
                old(telemetry)@,
                *selection.process,
                selection.reason@,
                info,
                policy,
            ),
{
    match telemetry {
        TabTelemetry::Recording(record) => {
            record.representative_process = Some(ProcessIdentity::from_process(selection.process));
            record.representative_selection = Some(selection.reason.to_owned());
            record.ignored_processes_skipped = identities_of(&selection.ignored_processes);
        },
        TabTelemetry::Off => {},
    }
}

fn identities_of(processes: &Vec<&ProcessInfo>) -> (identities: Vec<ProcessIdentity>)
    ensures
        process_record::identity_views(identities@) == process_record::identities(
            processes@.map_values(|process: &ProcessInfo| *process),
        ),
{
    let mut identities: Vec<ProcessIdentity> = Vec::new();
    let mut index: usize = 0;
    while index < processes.len()
        invariant
            index <= processes@.len(),
            identities@.len() == index,
            forall|i: int|
                0 <= i < index ==> (#[trigger] identities@[i])@ == process_record::identity(
                    *processes@[i],
                ),
        decreases processes@.len() - index,
    {
        identities.push(ProcessIdentity::from_process(processes[index]));
        index = index + 1;
    }
    assert(process_record::identity_views(identities@) =~= process_record::identities(
        processes@.map_values(|process: &ProcessInfo| *process),
    ));
    identities
}

/// Records that a rename was sent and failed.
pub fn trace_rename_error(telemetry: &mut TabTelemetry, error: String)
    ensures
        final(telemetry)@ == tab_decision::with_request_error(
            old(telemetry)@,
            true,
            error@,
            "rename_error"@,
        ),
{
    telemetry.record_rename_error(error);
}

/// Records that a tab could not be read before its rename.
pub fn trace_guard_error(telemetry: &mut TabTelemetry, error: String)
    ensures
        final(telemetry)@ == tab_decision::with_request_error(
            old(telemetry)@,
            false,
            error@,
            "guard_read_error"@,
        ),
{
    telemetry.record_guard_error(error);
}

/// Why a tab with the given ownership is not named.
pub open spec fn rejection(ownership: Option<OwnershipView>) -> Seq<char> {
    match ownership {
        Some(OwnershipView::Manual) => "manual_ownership"@,
        Some(OwnershipView::AutomaticDisabled) => "automatic_disabled"@,
        Some(OwnershipView::PendingRename { .. }) => "pending_rename"@,
        None => "non_placeholder_unowned"@,
        _ => "ineligible"@,
    }
}

/// Why a tab with the given ownership is not named.
pub fn rejection_reason(ownership: Option<&TabOwnership>) -> (reason: String)
    ensures
        reason@ == rejection(state::borrowed_ownership(ownership)),
{
    match ownership {
        Some(TabOwnership::Manual) => "manual_ownership".to_owned(),
        Some(TabOwnership::AutomaticDisabled) => "automatic_disabled".to_owned(),
        Some(TabOwnership::PendingRename { .. }) => "pending_rename".to_owned(),
        None => "non_placeholder_unowned".to_owned(),
        _ => "ineligible".to_owned(),
    }
}

} // verus!
