//! The recorded decision on one tab.

use vstd::prelude::*;
#[allow(unused_imports)]
use vstd::string::{StrSliceExecFns, StringExecFns};

use crate::herdr::{PaneProcessInfo, ProcessInfo};
use crate::naming::{NamingPolicy, PolicyView};
use crate::numbering::Tab;
use crate::process_record;
use crate::process_record::{IdentityView, ProcessIdentity, ProcessRecord, ProcessRecordView};
use crate::process_selection;
use crate::sequences;
use crate::state;
use crate::state::{OwnershipView, State, TabOwnership};
use crate::text;

verus! {

/// A tab as it was read right before a rename.
#[derive(Debug, PartialEq, Eq)]
pub struct TabObservation {
    pub tab_id: String,
    pub workspace_id: String,
    pub label: String,
}

/// An observation with its texts as character sequences.
#[verifier::ext_equal]
pub struct ObservationView {
    pub tab_id: Seq<char>,
    pub workspace_id: Seq<char>,
    pub label: Seq<char>,
}

impl View for TabObservation {
    type V = ObservationView;

    open spec fn view(&self) -> ObservationView {
        ObservationView {
            tab_id: self.tab_id@,
            workspace_id: self.workspace_id@,
            label: self.label@,
        }
    }
}

/// What is recorded of a tab that was read.
pub open spec fn observation(tab: Tab) -> ObservationView {
    ObservationView { tab_id: tab.tab_id@, workspace_id: tab.workspace_id@, label: tab.label@ }
}

/// The decision on one tab.
#[derive(Debug, PartialEq, Eq)]
pub struct TabDecisionRecord {
    pub tab_id: String,
    pub workspace_id: String,
    pub label: String,
    pub pane_count: usize,
    pub focused: bool,
    pub ownership_before: Option<TabOwnership>,
    pub ownership_after: Option<TabOwnership>,
    pub eligible: Option<bool>,
    pub rejection_reason: Option<String>,
    pub selected_naming_pane: Option<String>,
    pub naming_pane_reason: Option<String>,
    pub process_info: Option<ProcessRecord>,
    pub process_error: Option<String>,
    pub representative_process: Option<ProcessIdentity>,
    pub representative_selection: Option<String>,
    pub ignored_processes_skipped: Vec<ProcessIdentity>,
    pub computed_base_label: Option<String>,
    pub desired_label: Option<String>,
    pub guarded_tab: Option<TabObservation>,
    pub rename_attempted: bool,
    pub rename_result: Option<String>,
    pub outcome: Option<String>,
}

/// A tab decision with its texts as character sequences.
#[verifier::ext_equal]
pub struct TabDecisionView {
    pub tab_id: Seq<char>,
    pub workspace_id: Seq<char>,
    pub label: Seq<char>,
    pub pane_count: usize,
    pub focused: bool,
    pub ownership_before: Option<OwnershipView>,
    pub ownership_after: Option<OwnershipView>,
    pub eligible: Option<bool>,
    pub rejection_reason: Option<Seq<char>>,
    pub selected_naming_pane: Option<Seq<char>>,
    pub naming_pane_reason: Option<Seq<char>>,
    pub process_info: Option<ProcessRecordView>,
    pub process_error: Option<Seq<char>>,
    pub representative_process: Option<IdentityView>,
    pub representative_selection: Option<Seq<char>>,
    pub ignored_processes_skipped: Seq<IdentityView>,
    pub computed_base_label: Option<Seq<char>>,
    pub desired_label: Option<Seq<char>>,
    pub guarded_tab: Option<ObservationView>,
    pub rename_attempted: bool,
    pub rename_result: Option<Seq<char>>,
    pub outcome: Option<Seq<char>>,
}

impl View for TabDecisionRecord {
    type V = TabDecisionView;

    open spec fn view(&self) -> TabDecisionView {
        TabDecisionView {
            tab_id: self.tab_id@,
            workspace_id: self.workspace_id@,
            label: self.label@,
            pane_count: self.pane_count,
            focused: self.focused,
            ownership_before: state::optional_ownership(self.ownership_before),
            ownership_after: state::optional_ownership(self.ownership_after),
            eligible: self.eligible,
            rejection_reason: text::optional_text(self.rejection_reason),
            selected_naming_pane: text::optional_text(self.selected_naming_pane),
            naming_pane_reason: text::optional_text(self.naming_pane_reason),
            process_info: match self.process_info {
                Some(process_info) => Some(process_info@),
                None => None,
            },
            process_error: text::optional_text(self.process_error),
            representative_process: match self.representative_process {
                Some(process) => Some(process@),
                None => None,
            },
            representative_selection: text::optional_text(self.representative_selection),
            ignored_processes_skipped: process_record::identity_views(self.ignored_processes_skipped@),
            computed_base_label: text::optional_text(self.computed_base_label),
            desired_label: text::optional_text(self.desired_label),
            guarded_tab: match self.guarded_tab {
                Some(tab) => Some(tab@),
                None => None,
            },
            rename_attempted: self.rename_attempted,
            rename_result: text::optional_text(self.rename_result),
            outcome: text::optional_text(self.outcome),
        }
    }
}

/// The decision on a tab before anything was decided.
pub open spec fn undecided(
    tab: ObservationView,
    pane_count: usize,
    focused: bool,
    ownership: Option<OwnershipView>,
) -> TabDecisionView {
    TabDecisionView {
        tab_id: tab.tab_id,
        workspace_id: tab.workspace_id,
        label: tab.label,
        pane_count,
        focused,
        ownership_before: ownership,
        ownership_after: None,
        eligible: None,
        rejection_reason: None,
        selected_naming_pane: None,
        naming_pane_reason: None,
        process_info: None,
        process_error: None,
        representative_process: None,
        representative_selection: None,
        ignored_processes_skipped: Seq::empty(),
        computed_base_label: None,
        desired_label: None,
        guarded_tab: None,
        rename_attempted: false,
        rename_result: None,
        outcome: None,
    }
}

impl Default for TabDecisionRecord {
    fn default() -> (record: Self)
        ensures
            record@ == undecided(
                ObservationView { tab_id: Seq::empty(), workspace_id: Seq::empty(), label: Seq::empty() },
                0,
                false,
                None,
            ),
    {
        TabDecisionRecord {
            tab_id: String::new(),
            workspace_id: String::new(),
            label: String::new(),
            pane_count: 0,
            focused: false,
            ownership_before: None,
            ownership_after: None,
            eligible: None,
            rejection_reason: None,
            selected_naming_pane: None,
            naming_pane_reason: None,
            process_info: None,
            process_error: None,
            representative_process: None,
            representative_selection: None,
            ignored_processes_skipped: Vec::new(),
            computed_base_label: None,
            desired_label: None,
            guarded_tab: None,
            rename_attempted: false,
            rename_result: None,
            outcome: None,
        }
    }
}

/// Diagnostic recording mode for one reconciled tab.
#[derive(Debug, PartialEq, Eq)]
pub enum TabTelemetry {
    Off,
    Recording(Box<TabDecisionRecord>),
}

impl View for TabTelemetry {
    type V = Option<TabDecisionView>;

    open spec fn view(&self) -> Option<TabDecisionView> {
        match *self {
            TabTelemetry::Off => None,
            TabTelemetry::Recording(record) => Some(record@),
        }
    }
}

/// A decision with the eligibility of its tab, and the reason where there is one.
pub open spec fn with_eligibility(
    decision: Option<TabDecisionView>,
    eligible: bool,
    reason: Option<Seq<char>>,
) -> Option<TabDecisionView> {
    match decision {
        Some(decision) => Some(
            TabDecisionView {
                eligible: Some(eligible),
                rejection_reason: if reason is Some {
                    reason
                } else {
                    decision.rejection_reason
                },
                ..decision
            },
        ),
        None => None,
    }
}

/// A decision with the ownership that a tab ended up with.
pub open spec fn with_ownership_after(
    decision: Option<TabDecisionView>,
    ownership: Option<OwnershipView>,
) -> Option<TabDecisionView> {
    match decision {
        Some(decision) => Some(TabDecisionView { ownership_after: ownership, ..decision }),
        None => None,
    }
}

/// A decision with a reason for rejecting, which is its outcome unless it had one.
pub open spec fn with_rejection(
    decision: Option<TabDecisionView>,
    reason: Seq<char>,
) -> Option<TabDecisionView> {
    match decision {
        Some(decision) => Some(
            TabDecisionView {
                rejection_reason: Some(reason),
                outcome: if decision.outcome is None {
                    Some(reason)
                } else {
                    decision.outcome
                },
                ..decision
            },
        ),
        None => None,
    }
}

/// A decision with an outcome.
pub open spec fn with_outcome(
    decision: Option<TabDecisionView>,
    outcome: Seq<char>,
) -> Option<TabDecisionView> {
    match decision {
        Some(decision) => Some(TabDecisionView { outcome: Some(outcome), ..decision }),
        None => None,
    }
}

/// A decision to leave a label as it is; a reason for rejecting is the outcome.
pub open spec fn with_unchanged_outcome(
    decision: Option<TabDecisionView>,
    plugin_owned: bool,
) -> Option<TabDecisionView> {
    match decision {
        Some(decision) => Some(
            TabDecisionView {
                outcome: if decision.rejection_reason is Some {
                    decision.rejection_reason
                } else if plugin_owned {
                    Some("already_correct"@)
                } else {
                    Some("no_op"@)
                },
                ..decision
            },
        ),
        None => None,
    }
}

/// A decision not to adopt a placeholder after all.
pub open spec fn with_adoption_failure(decision: Option<TabDecisionView>) -> Option<
    TabDecisionView,
> {
    match decision {
        Some(decision) => {
            let reason = if decision.rejection_reason is Some {
                decision.rejection_reason
            } else {
                Some("process_or_naming_unavailable"@)
            };
            Some(
                TabDecisionView {
                    eligible: Some(false),
                    rejection_reason: reason,
                    outcome: reason,
                    ..decision
                },
            )
        },
        None => None,
    }
}

/// A decision with the pane that was chosen to name the tab.
pub open spec fn with_naming_pane(
    decision: Option<TabDecisionView>,
    pane_id: Seq<char>,
    reason: Seq<char>,
) -> Option<TabDecisionView> {
    match decision {
        Some(decision) => Some(
            TabDecisionView {
                selected_naming_pane: Some(pane_id),
                naming_pane_reason: Some(reason),
                ..decision
            },
        ),
        None => None,
    }
}

/// A decision with the processes that were observed.
pub open spec fn with_process_info(
    decision: Option<TabDecisionView>,
    pane_id: Seq<char>,
    info: PaneProcessInfo,
) -> Option<TabDecisionView> {
    match decision {
        Some(decision) => Some(
            TabDecisionView {
                process_info: Some(process_record::process_record(pane_id, info)),
                process_error: None,
                ..decision
            },
        ),
        None => None,
    }
}

/// A decision without processes to observe.
pub open spec fn with_process_error(
    decision: Option<TabDecisionView>,
    error: Seq<char>,
) -> Option<TabDecisionView> {
    match decision {
        Some(decision) => Some(
            TabDecisionView {
                process_error: Some(error),
                rejection_reason: Some("process_unavailable"@),
                outcome: Some("process_unavailable"@),
                ..decision
            },
        ),
        None => None,
    }
}

/// A decision with the process that stands for the pane.
pub open spec fn with_representative(
    decision: Option<TabDecisionView>,
    process: ProcessInfo,
) -> Option<TabDecisionView> {
    match decision {
        Some(decision) => Some(
            TabDecisionView { representative_process: Some(process_record::identity(process)), ..decision },
        ),
        None => None,
    }
}

/// A decision with the process that stands for the pane, why it does, and who was passed over.
pub open spec fn with_chosen(
    decision: Option<TabDecisionView>,
    process: ProcessInfo,
    reason: Seq<char>,
    passed_over: Seq<ProcessInfo>,
) -> Option<TabDecisionView> {
    match decision {
        Some(decision) => Some(
            TabDecisionView {
                representative_process: Some(process_record::identity(process)),
                representative_selection: Some(reason),
                ignored_processes_skipped: process_record::identities(passed_over),
                ..decision
            },
        ),
        None => None,
    }
}

/// A decision with the process that stands for the pane, why it does, and the pane's ignored
/// processes as those that were passed over.
pub open spec fn with_selection(
    decision: Option<TabDecisionView>,
    process: ProcessInfo,
    reason: Seq<char>,
    info: PaneProcessInfo,
    policy: PolicyView,
) -> Option<TabDecisionView> {
    with_chosen(decision, process, reason, process_selection::ignored_processes(info, policy))
}

/// A decision with the name that was computed.
pub open spec fn with_computed_base(
    decision: Option<TabDecisionView>,
    base: Option<Seq<char>>,
) -> Option<TabDecisionView> {
    match decision {
        Some(decision) => Some(TabDecisionView { computed_base_label: base, ..decision }),
        None => None,
    }
}

/// A decision with the label that the tab should have.
pub open spec fn with_desired_label(
    decision: Option<TabDecisionView>,
    label: Seq<char>,
) -> Option<TabDecisionView> {
    match decision {
        Some(decision) => Some(TabDecisionView { desired_label: Some(label), ..decision }),
        None => None,
    }
}

/// A decision with the tab as it was read before the rename.
pub open spec fn with_guarded_tab(decision: Option<TabDecisionView>, tab: Tab) -> Option<
    TabDecisionView,
> {
    match decision {
        Some(decision) => Some(
            TabDecisionView { guarded_tab: Some(observation(tab)), ..decision },
        ),
        None => None,
    }
}

/// A decision with the failure of a request.
pub open spec fn with_request_error(
    decision: Option<TabDecisionView>,
    attempted: bool,
    error: Seq<char>,
    outcome: Seq<char>,
) -> Option<TabDecisionView> {
    match decision {
        Some(decision) => Some(
            TabDecisionView {
                rename_attempted: attempted,
                rename_result: Some("error: "@ + error),
                outcome: Some(outcome),
                ..decision
            },
        ),
        None => None,
    }
}

/// A decision with the result of a rename that was not sent.
pub open spec fn with_rename_result(
    decision: Option<TabDecisionView>,
    result: Seq<char>,
    outcome: Seq<char>,
) -> Option<TabDecisionView> {
    match decision {
        Some(decision) => Some(
            TabDecisionView { rename_result: Some(result), outcome: Some(outcome), ..decision },
        ),
        None => None,
    }
}

/// A decision whose rename was applied.
pub open spec fn with_rename_success(decision: Option<TabDecisionView>) -> Option<TabDecisionView> {
    match decision {
        Some(decision) => Some(
            TabDecisionView {
                rename_attempted: true,
                rename_result: Some("renamed"@),
                outcome: Some("renamed"@),
                ..decision
            },
        ),
        None => None,
    }
}

fn error_result(error: String) -> (result: String)
    ensures
        result@ == "error: "@ + error@,
{
    let mut result = "error: ".to_owned();
    result.append(error.as_str());
    result
}

impl TabTelemetry {
    /// The record of a tab that is being recorded.
    pub fn recording_mut(&mut self) -> (record: &mut TabDecisionRecord)
        requires
            old(self)@ is Some,
        ensures
            record@ == old(self)@->0,
            final(self)@ == Some(final(record)@),
    {
        match self {
            TabTelemetry::Recording(record) => record,
            TabTelemetry::Off => vstd::pervasive::unreached(),
        }
    }

    /// Whether the decision is recorded.
    pub fn is_recording(&self) -> (recording: bool)
        ensures
            recording == (self@ is Some),
    {
        match self {
            TabTelemetry::Recording(_) => true,
            TabTelemetry::Off => false,
        }
    }

    pub fn set_eligible(&mut self, eligible: bool, rejection_reason: Option<&str>)
        ensures
            final(self)@ == with_eligibility(
                old(self)@,
                eligible,
                text::borrowed_text(rejection_reason),
            ),
    {
        match self {
            TabTelemetry::Recording(record) => {
                record.eligible = Some(eligible);
                if let Some(reason) = rejection_reason {
                    record.rejection_reason = Some(reason.to_owned());
                }
            },
            TabTelemetry::Off => {},
        }
    }

    pub fn set_ownership_after(&mut self, state: &State, tab_id: &str)
        ensures
            final(self)@ == with_ownership_after(old(self)@, state@.ownership(tab_id@)),
    {
        match self {
            TabTelemetry::Recording(record) => {
                record.ownership_after = match state.ownership(tab_id) {
                    Some(ownership) => Some(ownership.clone()),
                    None => None,
                };
            },
            TabTelemetry::Off => {},
        }
    }

    pub fn reject(&mut self, reason: &str)
        ensures
            final(self)@ == with_rejection(old(self)@, reason@),
    {
        match self {
            TabTelemetry::Recording(record) => {
                record.rejection_reason = Some(reason.to_owned());
                if record.outcome.is_none() {
                    record.outcome = Some(reason.to_owned());
                }
            },
            TabTelemetry::Off => {},
        }
    }

    pub fn set_outcome(&mut self, outcome: &str)
        ensures
            final(self)@ == with_outcome(old(self)@, outcome@),
    {
        match self {
            TabTelemetry::Recording(record) => {
                record.outcome = Some(outcome.to_owned());
            },
            TabTelemetry::Off => {},
        }
    }

    pub fn set_unchanged_outcome(&mut self, plugin_owned: bool)
        ensures
            final(self)@ == with_unchanged_outcome(old(self)@, plugin_owned),
    {
        match self {
            TabTelemetry::Recording(record) => {
                let outcome = match &record.rejection_reason {
                    Some(reason) => reason.clone(),
                    None => if plugin_owned {
                        "already_correct".to_owned()
                    } else {
                        "no_op".to_owned()
                    },
                };
                record.outcome = Some(outcome);
            },
            TabTelemetry::Off => {},
        }
    }

    pub fn set_initial_adoption_failure(&mut self)
        ensures
            final(self)@ == with_adoption_failure(old(self)@),
    {
        match self {
            TabTelemetry::Recording(record) => {
                let reason = match &record.rejection_reason {
                    Some(reason) => reason.clone(),
                    None => "process_or_naming_unavailable".to_owned(),
                };
                record.eligible = Some(false);
                record.outcome = Some(reason.clone());
                record.rejection_reason = Some(reason);
            },
            TabTelemetry::Off => {},
        }
    }

    pub fn record_naming_pane(&mut self, pane_id: &str, reason: &str)
        ensures
            final(self)@ == with_naming_pane(old(self)@, pane_id@, reason@),
    {
        match self {
            TabTelemetry::Recording(record) => {
                record.selected_naming_pane = Some(pane_id.to_owned());
                record.naming_pane_reason = Some(reason.to_owned());
            },
            TabTelemetry::Off => {},
        }
    }

    pub fn record_process_info(&mut self, pane_id: &str, process_info: &PaneProcessInfo)
        ensures
            final(self)@ == with_process_info(old(self)@, pane_id@, *process_info),
    {
        match self {
            TabTelemetry::Recording(record) => {
                record.process_info = Some(ProcessRecord::from_info(pane_id, process_info));
                record.process_error = None;
            },
            TabTelemetry::Off => {},
        }
    }

    pub fn record_process_error(&mut self, error: String)
        ensures
            final(self)@ == with_process_error(old(self)@, error@),
    {
        match self {
            TabTelemetry::Recording(record) => {
                record.process_error = Some(error);
                record.rejection_reason = Some("process_unavailable".to_owned());
                record.outcome = Some("process_unavailable".to_owned());
            },
            TabTelemetry::Off => {},
        }
    }

    pub fn record_representative(&mut self, process: &ProcessInfo)
        ensures
            final(self)@ == with_representative(old(self)@, *process),
    {
        match self {
            TabTelemetry::Recording(record) => {
                record.representative_process = Some(ProcessIdentity::from_process(process));
            },
            TabTelemetry::Off => {},
        }
    }

    pub fn record_representative_selection(
        &mut self,
        process: &ProcessInfo,
        reason: &str,
        process_info: &PaneProcessInfo,
        policy: &NamingPolicy,
    )
        ensures
            final(self)@ == with_selection(
                old(self)@,
                *process,
                reason@,
                *process_info,
                policy@,
            ),
    {
        match self {
            TabTelemetry::Recording(record) => {
                record.representative_process = Some(ProcessIdentity::from_process(process));
                record.representative_selection = Some(reason.to_owned());
                record.ignored_processes_skipped = ignored_identities(process_info, policy);
            },
            TabTelemetry::Off => {},
        }
    }

    pub fn record_computed_base(&mut self, computed_base: Option<&str>)
        ensures
            final(self)@ == with_computed_base(old(self)@, text::borrowed_text(computed_base)),
    {
        match self {
            TabTelemetry::Recording(record) => {
                record.computed_base_label = match computed_base {
                    Some(base) => Some(base.to_owned()),
                    None => None,
                };
            },
            TabTelemetry::Off => {},
        }
    }

    pub fn record_desired_label(&mut self, desired: &str)
        ensures
            final(self)@ == with_desired_label(old(self)@, desired@),
    {
        match self {
            TabTelemetry::Recording(record) => {
                record.desired_label = Some(desired.to_owned());
            },
            TabTelemetry::Off => {},
        }
    }

    pub fn record_guarded_tab(&mut self, tab: &Tab)
        ensures
            final(self)@ == with_guarded_tab(old(self)@, *tab),
    {
        match self {
            TabTelemetry::Recording(record) => {
                record.guarded_tab = Some(
                    TabObservation {
                        tab_id: tab.tab_id.clone(),
                        workspace_id: tab.workspace_id.clone(),
                        label: tab.label.clone(),
                    },
                );
            },
            TabTelemetry::Off => {},
        }
    }

    pub fn record_rename_error(&mut self, error: String)
        ensures
            final(self)@ == with_request_error(old(self)@, true, error@, "rename_error"@),
    {
        match self {
            TabTelemetry::Recording(record) => {
                record.rename_attempted = true;
                record.rename_result = Some(error_result(error));
                record.outcome = Some("rename_error".to_owned());
            },
            TabTelemetry::Off => {},
        }
    }

    pub fn record_guard_error(&mut self, error: String)
        ensures
            final(self)@ == with_request_error(old(self)@, false, error@, "guard_read_error"@),
    {
        match self {
            TabTelemetry::Recording(record) => {
                record.rename_attempted = false;
                record.rename_result = Some(error_result(error));
                record.outcome = Some("guard_read_error".to_owned());
            },
            TabTelemetry::Off => {},
        }
    }

    pub fn record_rename_result(&mut self, result: &str, outcome: &str)
        ensures
            final(self)@ == with_rename_result(old(self)@, result@, outcome@),
    {
        match self {
            TabTelemetry::Recording(record) => {
                record.rename_result = Some(result.to_owned());
                record.outcome = Some(outcome.to_owned());
            },
            TabTelemetry::Off => {},
        }
    }

    pub fn record_rename_success(&mut self)
        ensures
            final(self)@ == with_rename_success(old(self)@),
    {
        match self {
            TabTelemetry::Recording(record) => {
                record.rename_attempted = true;
                record.rename_result = Some("renamed".to_owned());
                record.outcome = Some("renamed".to_owned());
            },
            TabTelemetry::Off => {},
        }
    }
}

fn ignored_identities(process_info: &PaneProcessInfo, policy: &NamingPolicy) -> (collected: Vec<
    ProcessIdentity,
>)
    ensures
        process_record::identity_views(collected@) == process_record::identities(
            process_selection::ignored_processes(*process_info, policy@),
        ),
{
    let ghost processes = process_info.foreground_processes@;
    let ghost wanted = process_selection::ignored(policy@);
    let mut collected: Vec<ProcessIdentity> = Vec::new();
    let mut index: usize = 0;
    assert(processes.take(0).filter(wanted) == Seq::<ProcessInfo>::empty()) by {
        reveal(Seq::filter);
    }
    assert(process_record::identity_views(collected@) =~= process_record::identities(
        Seq::<ProcessInfo>::empty(),
    ));
    while index < process_info.foreground_processes.len()
        invariant
            index <= processes.len(),
            processes == process_info.foreground_processes@,
            wanted == process_selection::ignored(policy@),
            process_record::identity_views(collected@) == process_record::identities(
                processes.take(index as int).filter(wanted),
            ),
        decreases processes.len() - index,
    {
        let process = &process_info.foreground_processes[index];
        proof {
            sequences::lemma_filter_step(processes, index as int, wanted);
        }
        let ghost before = collected@;
        if policy.is_ignored_program(process.program()) {
            collected.push(ProcessIdentity::from_process(process));
            let ghost passed_over = processes.take(index as int).filter(wanted);
            assert(process_record::identity_views(collected@) =~= process_record::identity_views(
                before,
            ).push(process_record::identity(*process)));
            assert(process_record::identities(passed_over.push(*process))
                =~= process_record::identities(passed_over).push(
                process_record::identity(*process),
            ));
        }
        index = index + 1;
    }
    assert(processes.take(index as int) == processes);
    collected
}

} // verus!
