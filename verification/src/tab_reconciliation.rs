//! One-tab reconciliation.
//!
//! A tab is reconciled in phases, with a request to Herdr or a write of the state between two of
//! them: the opening decides whether the tab is named at all, the naming turns the observed
//! processes into a label, and the rename is guarded by reading the tab once more.

use vstd::prelude::*;

use crate::config::Invocation;
use crate::herdr::{PaneProcessInfo, SessionSnapshot, SessionTab};
use crate::naming::{NamingPolicy, PolicyView};
use crate::numbering;
use crate::numbering::{is_placeholder, numbered_label, strip_numeric_prefix, Tab};
use crate::settings::{Settings, SettingsView};
use crate::state;
use crate::state::{OwnershipView, State, StateView, TabOwnership};
use crate::tab_decision;
use crate::tab_decision::{TabDecisionView, TabTelemetry};
use crate::tab_naming;
use crate::tab_naming::{computed_name, naming_query};
use crate::tab_trace;
use crate::tab_trace::{
    rejection_reason, trace_guard_error, trace_ownership_after, trace_rename_error, trace_result,
};
use crate::text;
use crate::text::{borrow_text, is_blank, text_eq};

verus! {

/// What the reconciliation of one tab is based on.
pub struct TabContext<'a> {
    pub snapshot: &'a SessionSnapshot,
    pub tab: &'a SessionTab,
    pub position: usize,
    pub invocation: &'a Invocation,
    pub settings: &'a Settings,
    pub policy: &'a NamingPolicy,
    pub fallback_shell: &'a str,
}

/// A context with its policy and fallback shell as mathematical values.
#[verifier::ext_equal]
pub struct ContextView {
    pub snapshot: SessionSnapshot,
    pub tab: SessionTab,
    pub position: usize,
    pub invocation: Invocation,
    pub settings: SettingsView,
    pub policy: PolicyView,
    pub fallback_shell: Seq<char>,
}

impl<'a> View for TabContext<'a> {
    type V = ContextView;

    open spec fn view(&self) -> ContextView {
        ContextView {
            snapshot: *self.snapshot,
            tab: *self.tab,
            position: self.position,
            invocation: *self.invocation,
            settings: self.settings@,
            policy: self.policy@,
            fallback_shell: self.fallback_shell@,
        }
    }
}

impl ContextView {
    /// The id of the tab.
    pub open spec fn tab_id(self) -> Seq<char> {
        self.tab.tab.tab_id@
    }

    /// The label that the tab was observed with.
    pub open spec fn label(self) -> Seq<char> {
        self.tab.tab.label@
    }

    /// The label without its number.
    pub open spec fn base(self) -> Seq<char> {
        numbering::base_label(self.label())
    }

    /// Whether the invocation reports a rename of this tab.
    pub open spec fn reports_rename(self) -> bool {
        match self.invocation {
            Invocation::RenamedTab { tab_id, .. } => tab_id@ == self.tab_id(),
            _ => false,
        }
    }

    /// Whether the user renamed the tab to nothing but white space.
    pub open spec fn renamed_to_whitespace(self) -> bool {
        self.label().len() > 0 && text::blank(self.label()) && self.reports_rename()
    }

    /// Whether the user asked for this very tab to be named again.
    pub open spec fn forced(self) -> bool {
        match self.invocation {
            Invocation::Reset { tab_id: Some(tab_id), .. } => tab_id@ == self.tab_id(),
            _ => false,
        }
    }

    /// Whether the tab is an unknown placeholder that could be adopted.
    pub open spec fn initial_adoption(self, ownership: Option<OwnershipView>) -> bool {
        self.settings.auto_name_tabs && ownership is None && numbering::placeholder(self.base())
    }

    /// Whether the label of an owned tab is not the one that the plugin gave it.
    pub open spec fn manually_renamed(self, ownership: Option<OwnershipView>) -> bool {
        match ownership {
            Some(OwnershipView::Owned { last_base, last_rendered }) => self.base() != last_base
                || self.label() != last_rendered,
            _ => false,
        }
    }

    /// Whether the user gave the tab back to the plugin by clearing its label.
    pub open spec fn given_back(self, ownership: Option<OwnershipView>) -> bool {
        match ownership {
            Some(OwnershipView::Manual) => text::blank(self.base()),
            Some(OwnershipView::AutomaticDisabled) => self.renamed_to_whitespace(),
            _ => false,
        }
    }

    /// Whether the plugin may name the tab.
    pub open spec fn eligible(self, ownership: Option<OwnershipView>) -> bool {
        self.forced() || match ownership {
            Some(OwnershipView::Manual) => self.given_back(ownership),
            Some(OwnershipView::AutomaticDisabled) => self.given_back(ownership),
            Some(OwnershipView::ResetPending) => true,
            Some(OwnershipView::Owned { .. }) => true,
            Some(OwnershipView::PendingRename { .. }) => false,
            None => numbering::placeholder(self.base()),
        }
    }

    /// Whether the reconciliation of the tab ends before it is decided who owns the tab.
    pub open spec fn ends_early(self, ownership: Option<OwnershipView>) -> bool {
        (self.initial_adoption(ownership) && !authoritative(self.invocation))
            || self.manually_renamed(ownership)
    }

    /// The ownership of the tab once it is decided who owns it.
    pub open spec fn claimed(self, ownership: Option<OwnershipView>) -> Option<OwnershipView> {
        if self.initial_adoption(ownership) && !authoritative(self.invocation) {
            ownership
        } else if self.manually_renamed(ownership) {
            Some(OwnershipView::Manual)
        } else if self.forced() {
            ownership
        } else if self.given_back(ownership) {
            None
        } else if ownership is None && !numbering::placeholder(self.base()) {
            Some(OwnershipView::Manual)
        } else {
            ownership
        }
    }

    /// Whether the invocation reports the plugin's own rename.
    pub open spec fn own_rename_event(self, ownership: Option<OwnershipView>) -> bool {
        self.reports_rename() && match ownership {
            Some(OwnershipView::Owned { last_rendered, .. }) => last_rendered == self.label(),
            _ => false,
        }
    }

    /// Whether the tab is to be named after its processes.
    pub open spec fn wants_name(self, ownership: Option<OwnershipView>) -> bool {
        &&& self.settings.auto_name_tabs
        &&& self.eligible(ownership)
        &&& (observes_processes(self.invocation) || self.renamed_to_whitespace() || ownership
            == Some(OwnershipView::ResetPending))
        &&& !self.own_rename_event(ownership)
    }

    /// Where the name of the tab comes from.
    pub open spec fn source(self) -> tab_naming::NamingSource {
        tab_naming::naming_source(self.snapshot, self.tab, self.invocation)
    }

    /// The name that the plugin gave the tab before, if it may still name it.
    pub open spec fn owned_base(self, ownership: Option<OwnershipView>) -> Option<Seq<char>> {
        match ownership {
            Some(OwnershipView::Owned { last_base, .. }) => Some(last_base),
            _ => None,
        }
    }

    /// The name that the tab should have: the computed one, else the one it had.
    pub open spec fn desired_base(
        self,
        ownership: Option<OwnershipView>,
        computed: Option<Seq<char>>,
    ) -> Seq<char> {
        match computed {
            Some(name) => name,
            None => match self.owned_base(ownership) {
                Some(name) => name,
                None => self.base(),
            },
        }
    }

    /// The label that shows a name.
    pub open spec fn rendered(self, name: Seq<char>) -> Seq<char> {
        if self.settings.number_tabs {
            numbering::numbered(self.position as nat, name)
        } else {
            name
        }
    }

    /// How the tab is to be renamed.
    pub open spec fn plan(
        self,
        ownership: Option<OwnershipView>,
        computed: Option<Seq<char>>,
    ) -> PlanView {
        let desired_base = self.desired_base(ownership, computed);
        PlanView {
            desired: self.rendered(desired_base),
            desired_base,
            plugin_owned: self.eligible(ownership) && (computed is Some || self.owned_base(
                ownership,
            ) is Some),
        }
    }

    /// Whether a placeholder is left alone because no name could be found for it.
    pub open spec fn adoption_failed(
        self,
        ownership: Option<OwnershipView>,
        computed: Option<Seq<char>>,
    ) -> bool {
        self.initial_adoption(ownership) && computed is None
    }

    /// What is left to do for the tab once its name is known.
    pub open spec fn planned(
        self,
        ownership: Option<OwnershipView>,
        computed: Option<Seq<char>>,
    ) -> TabStepView {
        let plan = self.plan(ownership, computed);
        if self.adoption_failed(ownership, computed) || plan.desired == self.label() {
            TabStepView::Settled
        } else {
            TabStepView::Guard(plan)
        }
    }

    /// The ownership that is recorded for the tab once its name is known, if one is.
    ///
    /// A rename of the plugin's own is recorded before it is sent.
    pub open spec fn planned_ownership(
        self,
        ownership: Option<OwnershipView>,
        computed: Option<Seq<char>>,
    ) -> Option<OwnershipView> {
        let plan = self.plan(ownership, computed);
        if self.adoption_failed(ownership, computed) || !plan.plugin_owned {
            None
        } else if plan.desired == self.label() {
            Some(plan.owned())
        } else {
            Some(state::recorded(ownership, self.label(), plan.desired, plan.desired_base))
        }
    }

    /// The state once the name of the tab is known.
    pub open spec fn planned_state(
        self,
        state: StateView,
        ownership: Option<OwnershipView>,
        computed: Option<Seq<char>>,
    ) -> StateView {
        match self.planned_ownership(ownership, computed) {
            Some(recorded) => state.with_ownership(self.tab_id(), Some(recorded)),
            None => state,
        }
    }

    /// What is left to do for the tab after the opening.
    pub open spec fn opening(self, ownership: Option<OwnershipView>) -> TabStepView {
        if self.ends_early(ownership) {
            TabStepView::Settled
        } else if self.wants_name(ownership) && self.source().pane() is Some {
            TabStepView::Observe { pane_id: self.source().pane()->0, ownership }
        } else {
            self.planned(ownership, None)
        }
    }

    /// The state in which it is decided who owns the tab.
    pub open spec fn claimed_state(self, state: StateView) -> StateView {
        state.with_ownership(self.tab_id(), self.claimed(state.ownership(self.tab_id())))
    }

    /// The state after the opening.
    pub open spec fn opening_state(self, state: StateView) -> StateView {
        let ownership = state.ownership(self.tab_id());
        if self.ends_early(ownership) || (self.wants_name(ownership)
            && self.source().pane() is Some) {
            self.claimed_state(state)
        } else {
            self.planned_state(self.claimed_state(state), ownership, None)
        }
    }

    /// The name that the observation of a pane gives the tab.
    pub open spec fn computed(self, observed: Result<PaneProcessInfo, String>) -> Option<Seq<char>> {
        tab_naming::computed(self.source(), self.policy, self.fallback_shell, observed, false)
    }

    /// The decision with the eligibility of the tab.
    pub open spec fn traced_eligibility(
        self,
        ownership: Option<OwnershipView>,
        decision: Option<TabDecisionView>,
    ) -> Option<TabDecisionView> {
        tab_decision::with_eligibility(
            decision,
            self.eligible(ownership),
            if self.eligible(ownership) {
                None
            } else {
                Some(tab_trace::rejection(ownership))
            },
        )
    }

    /// The decision once the name of the tab is known.
    pub open spec fn traced_plan(
        self,
        state: StateView,
        ownership: Option<OwnershipView>,
        computed: Option<Seq<char>>,
        decision: Option<TabDecisionView>,
    ) -> Option<TabDecisionView> {
        let plan = self.plan(ownership, computed);
        let named = tab_decision::with_computed_base(decision, computed);
        if self.adoption_failed(ownership, computed) {
            tab_decision::with_ownership_after(
                tab_decision::with_adoption_failure(named),
                self.planned_state(state, ownership, computed).ownership(self.tab_id()),
            )
        } else {
            let desired = tab_decision::with_desired_label(named, plan.desired);
            if plan.desired == self.label() {
                tab_decision::with_ownership_after(
                    tab_decision::with_unchanged_outcome(desired, plan.plugin_owned),
                    self.planned_state(state, ownership, computed).ownership(self.tab_id()),
                )
            } else {
                desired
            }
        }
    }

    /// The decision after the opening.
    pub open spec fn traced_opening(
        self,
        state: StateView,
        decision: Option<TabDecisionView>,
    ) -> Option<TabDecisionView> {
        let ownership = state.ownership(self.tab_id());
        if self.initial_adoption(ownership) && !authoritative(self.invocation) {
            tab_decision::with_ownership_after(
                tab_trace::with_result(
                    decision,
                    Some(false),
                    Some("initial_adoption_requires_authoritative_event"@),
                    "no_op"@,
                ),
                ownership,
            )
        } else if self.manually_renamed(ownership) {
            tab_decision::with_ownership_after(
                tab_trace::with_result(
                    decision,
                    Some(false),
                    Some("manual_rename"@),
                    "ownership_blocked"@,
                ),
                Some(OwnershipView::Manual),
            )
        } else {
            let eligibility = self.traced_eligibility(ownership, decision);
            if self.wants_name(ownership) {
                let sourced = tab_naming::with_source(
                    eligibility,
                    self.source(),
                    self.tab.pane_count,
                );
                if self.source().pane() is Some {
                    sourced
                } else {
                    self.traced_plan(self.claimed_state(state), ownership, None, sourced)
                }
            } else {
                self.traced_plan(self.claimed_state(state), ownership, None, eligibility)
            }
        }
    }

    /// The decision after a pane was observed.
    pub open spec fn traced_naming(
        self,
        state: StateView,
        ownership: Option<OwnershipView>,
        observed: Result<PaneProcessInfo, String>,
        decision: Option<TabDecisionView>,
    ) -> Option<TabDecisionView> {
        self.traced_plan(
            state,
            ownership,
            self.computed(observed),
            tab_naming::with_observed(decision, self.source(), self.policy, observed, false),
        )
    }
}

impl ContextView {
    /// What is left to do for a tab that was read before its rename.
    ///
    /// A tab is renamed only if its label is still the one that the decision was based on.
    pub open spec fn guarded(self, latest: Result<Option<Tab>, String>) -> GuardStepView {
        match latest {
            Ok(Some(latest)) => if latest.label@ == self.label() {
                GuardStepView::Rename
            } else {
                GuardStepView::Stale
            },
            Ok(None) => GuardStepView::Settled,
            Err(error) => GuardStepView::Failed(error@),
        }
    }

    /// The state after a tab was read before its rename.
    ///
    /// If the label has changed meanwhile, a recorded rename is settled by the new label.
    pub open spec fn guarded_state(
        self,
        state: StateView,
        plan: PlanView,
        latest: Result<Option<Tab>, String>,
    ) -> StateView {
        match latest {
            Ok(Some(latest)) => if latest.label@ != self.label() && plan.plugin_owned {
                state.resolve(self.tab_id(), latest.label@)
            } else {
                state
            },
            _ => state,
        }
    }

    /// The decision after a tab was read before its rename.
    pub open spec fn traced_guard(
        self,
        state: StateView,
        latest: Result<Option<Tab>, String>,
        decision: Option<TabDecisionView>,
    ) -> Option<TabDecisionView> {
        match latest {
            Ok(Some(latest)) => tab_decision::with_guarded_tab(decision, latest),
            Ok(None) => tab_decision::with_ownership_after(
                tab_decision::with_rename_result(decision, "tab_not_found"@, "tab_missing"@),
                state.ownership(self.tab_id()),
            ),
            Err(error) => tab_decision::with_ownership_after(
                tab_decision::with_request_error(decision, false, error@, "guard_read_error"@),
                state.ownership(self.tab_id()),
            ),
        }
    }

    /// The decision on a tab whose label has changed meanwhile.
    pub open spec fn traced_stale(
        self,
        state: StateView,
        decision: Option<TabDecisionView>,
    ) -> Option<TabDecisionView> {
        tab_decision::with_ownership_after(
            tab_decision::with_rename_result(decision, "stale_guard"@, "stale_guard"@),
            state.ownership(self.tab_id()),
        )
    }

    /// The state after a rename was sent.
    pub open spec fn renamed_state(
        self,
        state: StateView,
        plan: PlanView,
        result: Result<(), String>,
    ) -> StateView {
        if result is Ok && plan.plugin_owned {
            state.with_ownership(self.tab_id(), Some(plan.owned()))
        } else {
            state
        }
    }

    /// The decision after a rename was sent.
    pub open spec fn traced_rename(
        self,
        state: StateView,
        plan: PlanView,
        result: Result<(), String>,
        decision: Option<TabDecisionView>,
    ) -> Option<TabDecisionView> {
        tab_decision::with_ownership_after(
            match result {
                Ok(_) => tab_decision::with_rename_success(decision),
                Err(error) => tab_decision::with_request_error(
                    decision,
                    true,
                    error@,
                    "rename_error"@,
                ),
            },
            self.renamed_state(state, plan, result).ownership(self.tab_id()),
        )
    }
}

/// Whether an invocation speaks for the shell of a pane, so that a placeholder may be adopted.
pub open spec fn authoritative(invocation: Invocation) -> bool {
    match invocation {
        Invocation::Init { .. } => true,
        Invocation::Preexec { program: Some(_), .. } => true,
        Invocation::Precmd { .. } => true,
        _ => false,
    }
}

/// Whether an invocation looks at the processes of the tabs it is about.
pub open spec fn observes_processes(invocation: Invocation) -> bool {
    match invocation {
        Invocation::Tab { .. } => true,
        Invocation::ClosedPane { .. } => true,
        Invocation::Init { .. } => true,
        Invocation::Preexec { .. } => true,
        Invocation::Precmd { .. } => true,
        Invocation::Reset { .. } => true,
        Invocation::Toggle { .. } => true,
        _ => false,
    }
}

/// A rename that was decided on.
#[derive(Debug, PartialEq, Eq)]
pub struct RenamePlan {
    /// The label to be set.
    pub desired: String,
    /// The name that the label shows.
    pub desired_base: String,
    /// Whether the plugin owns the label, so that the rename is recorded before it is sent.
    pub plugin_owned: bool,
}

/// A rename with its texts as character sequences.
#[verifier::ext_equal]
pub struct PlanView {
    pub desired: Seq<char>,
    pub desired_base: Seq<char>,
    pub plugin_owned: bool,
}

impl View for RenamePlan {
    type V = PlanView;

    open spec fn view(&self) -> PlanView {
        PlanView {
            desired: self.desired@,
            desired_base: self.desired_base@,
            plugin_owned: self.plugin_owned,
        }
    }
}

impl PlanView {
    /// The ownership that the rename establishes.
    pub open spec fn owned(self) -> OwnershipView {
        OwnershipView::Owned { last_base: self.desired_base, last_rendered: self.desired }
    }
}

/// What is left to do for a tab.
#[derive(Debug, PartialEq, Eq)]
pub enum TabStep {
    /// Nothing.
    Settled,
    /// The processes of a pane are needed; the ownership is that from before the opening.
    Observe { pane_id: String, ownership: Option<TabOwnership> },
    /// The tab is to be renamed, once it was read again.
    Guard(RenamePlan),
}

/// A step with its texts as character sequences.
#[verifier::ext_equal]
pub enum TabStepView {
    Settled,
    Observe { pane_id: Seq<char>, ownership: Option<OwnershipView> },
    Guard(PlanView),
}

impl View for TabStep {
    type V = TabStepView;

    open spec fn view(&self) -> TabStepView {
        match *self {
            TabStep::Settled => TabStepView::Settled,
            TabStep::Observe { pane_id, ownership } => TabStepView::Observe {
                pane_id: pane_id@,
                ownership: state::optional_ownership(ownership),
            },
            TabStep::Guard(plan) => TabStepView::Guard(plan@),
        }
    }
}

fn is_renamed_to_whitespace(context: &TabContext) -> (result: bool)
    ensures
        result == context@.renamed_to_whitespace(),
{
    let label = context.tab.tab.label.as_str();
    if label.is_empty() || !is_blank(label) {
        return false;
    }
    match context.invocation {
        Invocation::RenamedTab { tab_id, .. } => text_eq(
            tab_id.as_str(),
            context.tab.tab.tab_id.as_str(),
        ),
        _ => false,
    }
}

fn is_forced(context: &TabContext) -> (result: bool)
    ensures
        result == context@.forced(),
{
    match context.invocation {
        Invocation::Reset { tab_id: Some(tab_id), .. } => text_eq(
            tab_id.as_str(),
            context.tab.tab.tab_id.as_str(),
        ),
        _ => false,
    }
}

fn is_initial_adoption(context: &TabContext, ownership: &Option<TabOwnership>) -> (result: bool)
    ensures
        result == context@.initial_adoption(state::optional_ownership(*ownership)),
{
    context.settings.auto_name_tabs && ownership.is_none() && is_placeholder(
        strip_numeric_prefix(context.tab.tab.label.as_str()),
    )
}

fn is_manually_renamed(context: &TabContext, ownership: &Option<TabOwnership>) -> (result: bool)
    ensures
        result == context@.manually_renamed(state::optional_ownership(*ownership)),
{
    let label = context.tab.tab.label.as_str();
    match ownership {
        Some(TabOwnership::Owned { last_base, last_rendered }) => !text_eq(
            strip_numeric_prefix(label),
            last_base.as_str(),
        ) || !text_eq(label, last_rendered.as_str()),
        _ => false,
    }
}

fn is_given_back(context: &TabContext, ownership: &Option<TabOwnership>) -> (result: bool)
    ensures
        result == context@.given_back(state::optional_ownership(*ownership)),
{
    match ownership {
        Some(TabOwnership::Manual) => is_blank(
            strip_numeric_prefix(context.tab.tab.label.as_str()),
        ),
        Some(TabOwnership::AutomaticDisabled) => is_renamed_to_whitespace(context),
        _ => false,
    }
}

fn is_eligible(context: &TabContext, ownership: &Option<TabOwnership>) -> (result: bool)
    ensures
        result == context@.eligible(state::optional_ownership(*ownership)),
{
    if is_forced(context) {
        return true;
    }
    match ownership {
        Some(TabOwnership::Manual) => is_given_back(context, ownership),
        Some(TabOwnership::AutomaticDisabled) => is_given_back(context, ownership),
        Some(TabOwnership::ResetPending) => true,
        Some(TabOwnership::Owned { .. }) => true,
        Some(TabOwnership::PendingRename { .. }) => false,
        None => is_placeholder(strip_numeric_prefix(context.tab.tab.label.as_str())),
    }
}

fn is_authoritative(invocation: &Invocation) -> (result: bool)
    ensures
        result == authoritative(*invocation),
{
    match invocation {
        Invocation::Init { .. } => true,
        Invocation::Preexec { program: Some(_), .. } => true,
        Invocation::Precmd { .. } => true,
        _ => false,
    }
}

fn is_observing(invocation: &Invocation) -> (result: bool)
    ensures
        result == observes_processes(*invocation),
{
    match invocation {
        Invocation::Tab { .. } => true,
        Invocation::ClosedPane { .. } => true,
        Invocation::Init { .. } => true,
        Invocation::Preexec { .. } => true,
        Invocation::Precmd { .. } => true,
        Invocation::Reset { .. } => true,
        Invocation::Toggle { .. } => true,
        _ => false,
    }
}

fn is_own_rename_event(context: &TabContext, ownership: &Option<TabOwnership>) -> (result: bool)
    ensures
        result == context@.own_rename_event(state::optional_ownership(*ownership)),
{
    match (context.invocation, ownership) {
        (
            Invocation::RenamedTab { tab_id, .. },
            Some(TabOwnership::Owned { last_rendered, .. }),
        ) => text_eq(tab_id.as_str(), context.tab.tab.tab_id.as_str()) && text_eq(
            last_rendered.as_str(),
            context.tab.tab.label.as_str(),
        ),
        _ => false,
    }
}

fn is_reset_pending(ownership: &Option<TabOwnership>) -> (result: bool)
    ensures
        result == (state::optional_ownership(*ownership) == Some(OwnershipView::ResetPending)),
{
    match ownership {
        Some(TabOwnership::ResetPending) => true,
        _ => false,
    }
}

fn does_want_name(context: &TabContext, ownership: &Option<TabOwnership>) -> (result: bool)
    ensures
        result == context@.wants_name(state::optional_ownership(*ownership)),
{
    context.settings.auto_name_tabs && is_eligible(context, ownership) && (is_observing(
        context.invocation,
    ) || is_renamed_to_whitespace(context) || is_reset_pending(ownership)) && !is_own_rename_event(
        context,
        ownership,
    )
}

/// Records who owns the tab, for a tab whose reconciliation does not end early.
fn claim_tab(context: &TabContext, ownership: &Option<TabOwnership>, state: &mut State)
    requires
        old(state)@.ownership(context@.tab_id()) == state::optional_ownership(*ownership),
        !context@.ends_early(state::optional_ownership(*ownership)),
    ensures
        final(state)@ == old(state)@.with_ownership(
            context@.tab_id(),
            context@.claimed(state::optional_ownership(*ownership)),
        ),
{
    let tab_id = context.tab.tab.tab_id.as_str();
    proof {
        state::lemma_same_ownership(state@, tab_id@);
    }
    if is_forced(context) {
        return;
    }
    if is_given_back(context, ownership) {
        state.remove_ownership(tab_id);
    } else if ownership.is_none() && !is_placeholder(
        strip_numeric_prefix(context.tab.tab.label.as_str()),
    ) {
        state.set_ownership(tab_id, TabOwnership::Manual);
    }
}

/// Begins the reconciliation of a tab.
///
/// It is decided who owns the tab, and whether its name is to be computed from its processes.
pub fn reconcile_tab(context: &TabContext, state: &mut State, telemetry: &mut TabTelemetry) -> (step:
    TabStep)
    ensures
        step@ == context@.opening(old(state)@.ownership(context@.tab_id())),
        final(state)@ == context@.opening_state(old(state)@),
        final(telemetry)@ == context@.traced_opening(old(state)@, old(telemetry)@),
{
    let tab_id = context.tab.tab.tab_id.as_str();
    let ownership = match state.ownership(tab_id) {
        Some(ownership) => Some(ownership.clone()),
        None => None,
    };
    let ghost before = state@;
    if is_initial_adoption(context, &ownership) && !is_authoritative(context.invocation) {
        trace_result(
            telemetry,
            Some(false),
            Some("initial_adoption_requires_authoritative_event"),
            "no_op",
        );
        trace_ownership_after(telemetry, state, tab_id);
        proof {
            state::lemma_same_ownership(before, tab_id@);
        }
        return TabStep::Settled;
    }
    if is_manually_renamed(context, &ownership) {
        state.set_ownership(tab_id, TabOwnership::Manual);
        trace_result(telemetry, Some(false), Some("manual_rename"), "ownership_blocked");
        trace_ownership_after(telemetry, state, tab_id);
        return TabStep::Settled;
    }
    claim_tab(context, &ownership, state);
    if is_eligible(context, &ownership) {
        telemetry.set_eligible(true, None);
    } else {
        let reason = rejection_reason(ownership.as_ref());
        telemetry.set_eligible(false, Some(reason.as_str()));
    }
    if does_want_name(context, &ownership) {
        if let Some(pane_id) = naming_query(
            context.snapshot,
            context.tab,
            context.invocation,
            telemetry,
        ) {
            return TabStep::Observe { pane_id, ownership };
        }
    }
    plan_rename(context, &ownership, None, state, telemetry)
}

/// Continues the reconciliation of a tab with the processes of its naming pane.
pub fn name_tab(
    context: &TabContext,
    ownership: Option<TabOwnership>,
    observed: Result<PaneProcessInfo, String>,
    state: &mut State,
    telemetry: &mut TabTelemetry,
) -> (step: TabStep)
    ensures
        step@ == context@.planned(
            state::optional_ownership(ownership),
            context@.computed(observed),
        ),
        final(state)@ == context@.planned_state(
            old(state)@,
            state::optional_ownership(ownership),
            context@.computed(observed),
        ),
        final(telemetry)@ == context@.traced_naming(
            old(state)@,
            state::optional_ownership(ownership),
            observed,
            old(telemetry)@,
        ),
{
    let name = computed_name(
        context.snapshot,
        context.tab,
        context.invocation,
        context.policy,
        context.fallback_shell,
        observed,
        telemetry,
    );
    plan_rename(context, &ownership, name, state, telemetry)
}

/// Decides which label a tab should have.
fn plan_rename(
    context: &TabContext,
    ownership: &Option<TabOwnership>,
    name: Option<String>,
    state: &mut State,
    telemetry: &mut TabTelemetry,
) -> (step: TabStep)
    ensures
        step@ == context@.planned(
            state::optional_ownership(*ownership),
            text::optional_text(name),
        ),
        final(state)@ == context@.planned_state(
            old(state)@,
            state::optional_ownership(*ownership),
            text::optional_text(name),
        ),
        final(telemetry)@ == context@.traced_plan(
            old(state)@,
            state::optional_ownership(*ownership),
            text::optional_text(name),
            old(telemetry)@,
        ),
{
    let tab_id = context.tab.tab.tab_id.as_str();
    let label = context.tab.tab.label.as_str();
    let ghost held = state::optional_ownership(*ownership);
    telemetry.record_computed_base(borrow_text(&name));
    if name.is_none() && is_initial_adoption(context, ownership) {
        telemetry.set_initial_adoption_failure();
        trace_ownership_after(telemetry, state, tab_id);
        return TabStep::Settled;
    }
    let named = name.is_some();
    let owned = match ownership {
        Some(TabOwnership::Owned { .. }) => true,
        _ => false,
    };
    let desired_base = match name {
        Some(name) => name,
        None => match ownership {
            Some(TabOwnership::Owned { last_base, .. }) => last_base.clone(),
            _ => strip_numeric_prefix(label).to_owned(),
        },
    };
    let desired = if context.settings.number_tabs {
        numbered_label(context.position, desired_base.as_str())
    } else {
        desired_base.clone()
    };
    telemetry.record_desired_label(desired.as_str());
    let plan = RenamePlan {
        desired,
        desired_base,
        plugin_owned: is_eligible(context, ownership) && (named || owned),
    };
    assert(plan@ == context@.plan(held, text::optional_text(name)));
    if text_eq(plan.desired.as_str(), label) {
        telemetry.set_unchanged_outcome(plan.plugin_owned);
        if plan.plugin_owned {
            establish_ownership(tab_id, plan, state);
        }
        trace_ownership_after(telemetry, state, tab_id);
        return TabStep::Settled;
    }
    if plan.plugin_owned {
        record_rename(context, ownership, &plan, state);
    }
    TabStep::Guard(plan)
}

/// Records a rename before it is sent.
fn record_rename(
    context: &TabContext,
    ownership: &Option<TabOwnership>,
    plan: &RenamePlan,
    state: &mut State,
)
    ensures
        final(state)@ == old(state)@.with_ownership(
            context@.tab_id(),
            Some(
                state::recorded(
                    state::optional_ownership(*ownership),
                    context@.label(),
                    plan.desired@,
                    plan.desired_base@,
                ),
            ),
        ),
{
    let (previous_base, previous_rendered, previous_reset_pending) = match ownership {
        Some(TabOwnership::Owned { last_base, last_rendered }) => (
            Some(last_base.clone()),
            Some(last_rendered.clone()),
            false,
        ),
        Some(TabOwnership::ResetPending) => (None, None, true),
        _ => (None, None, false),
    };
    state.set_ownership(
        context.tab.tab.tab_id.as_str(),
        TabOwnership::PendingRename {
            observed: context.tab.tab.label.clone(),
            desired: plan.desired.clone(),
            desired_base: plan.desired_base.clone(),
            previous_base,
            previous_rendered,
            previous_reset_pending,
        },
    );
}

fn establish_ownership(tab_id: &str, plan: RenamePlan, state: &mut State)
    ensures
        final(state)@ == old(state)@.with_ownership(tab_id@, Some(plan@.owned())),
{
    state.set_ownership(
        tab_id,
        TabOwnership::Owned { last_base: plan.desired_base, last_rendered: plan.desired },
    );
}

/// What is left to do for a tab that was read before its rename.
#[derive(Debug, PartialEq, Eq)]
pub enum GuardStep {
    /// Nothing: the tab is gone.
    Settled,
    /// The tab could not be read.
    Failed(String),
    /// Another label appeared, and the tab is left alone.
    Stale,
    /// The rename is to be sent.
    Rename,
}

/// A guarded step with its text as a character sequence.
#[verifier::ext_equal]
pub enum GuardStepView {
    Settled,
    Failed(Seq<char>),
    Stale,
    Rename,
}

impl View for GuardStep {
    type V = GuardStepView;

    open spec fn view(&self) -> GuardStepView {
        match *self {
            GuardStep::Settled => GuardStepView::Settled,
            GuardStep::Failed(error) => GuardStepView::Failed(error@),
            GuardStep::Stale => GuardStepView::Stale,
            GuardStep::Rename => GuardStepView::Rename,
        }
    }
}

/// Decides on a rename after the tab was read again.
pub fn guard_rename(
    context: &TabContext,
    plan: &RenamePlan,
    latest: Result<Option<Tab>, String>,
    state: &mut State,
    telemetry: &mut TabTelemetry,
) -> (step: GuardStep)
    ensures
        step@ == context@.guarded(latest),
        final(state)@ == context@.guarded_state(old(state)@, plan@, latest),
        final(telemetry)@ == context@.traced_guard(old(state)@, latest, old(telemetry)@),
{
    let tab_id = context.tab.tab.tab_id.as_str();
    let latest = match latest {
        Ok(latest) => latest,
        Err(error) => {
            trace_guard_error(telemetry, error.clone());
            trace_ownership_after(telemetry, state, tab_id);
            return GuardStep::Failed(error);
        },
    };
    let latest = match latest {
        Some(latest) => latest,
        None => {
            telemetry.record_rename_result("tab_not_found", "tab_missing");
            trace_ownership_after(telemetry, state, tab_id);
            return GuardStep::Settled;
        },
    };
    telemetry.record_guarded_tab(&latest);
    if text_eq(latest.label.as_str(), context.tab.tab.label.as_str()) {
        return GuardStep::Rename;
    }
    if plan.plugin_owned {
        state.resolve_pending_rename(tab_id, latest.label.as_str());
    }
    GuardStep::Stale
}

/// Ends the reconciliation of a tab whose label has changed meanwhile.
pub fn settle_stale_tab(context: &TabContext, state: &State, telemetry: &mut TabTelemetry)
    ensures
        final(telemetry)@ == context@.traced_stale(state@, old(telemetry)@),
{
    telemetry.record_rename_result("stale_guard", "stale_guard");
    trace_ownership_after(telemetry, state, context.tab.tab.tab_id.as_str());
}

/// Ends the reconciliation of a tab whose rename was sent.
pub fn complete_rename(
    context: &TabContext,
    plan: RenamePlan,
    result: &Result<(), String>,
    state: &mut State,
    telemetry: &mut TabTelemetry,
)
    ensures
        final(state)@ == context@.renamed_state(old(state)@, plan@, *result),
        final(telemetry)@ == context@.traced_rename(
            old(state)@,
            plan@,
            *result,
            old(telemetry)@,
        ),
{
    let tab_id = context.tab.tab.tab_id.as_str();
    match result {
        Ok(_) => {
            telemetry.record_rename_success();
            if plan.plugin_owned {
                establish_ownership(tab_id, plan, state);
            }
        },
        Err(error) => {
            trace_rename_error(telemetry, error.clone());
        },
    }
    trace_ownership_after(telemetry, state, tab_id);
}

/// Whether two states differ in nothing but the ownership of one tab.
pub open spec fn differ_only_in(first: StateView, second: StateView, tab_id: Seq<char>) -> bool {
    &&& first.suspended == second.suspended
    &&& first.pane_tabs == second.pane_tabs
    &&& forall|other: Seq<char>|
        other != tab_id ==> #[trigger] first.ownership(other) == second.ownership(other)
}

/// No phase touches anything but the ownership of its own tab.
pub proof fn reconciling_touches_only_its_tab(
    context: ContextView,
    state: StateView,
    ownership: Option<OwnershipView>,
    name: Option<Seq<char>>,
    plan: PlanView,
    latest: Result<Option<Tab>, String>,
    result: Result<(), String>,
)
    ensures
        differ_only_in(state, context.opening_state(state), context.tab_id()),
        differ_only_in(state, context.planned_state(state, ownership, name), context.tab_id()),
        differ_only_in(state, context.guarded_state(state, plan, latest), context.tab_id()),
        differ_only_in(state, context.renamed_state(state, plan, result), context.tab_id()),
{
}

/// A placeholder that nobody owns is adopted only for an event that speaks for its shell.
pub proof fn adoption_needs_an_authoritative_event(context: ContextView, state: StateView)
    requires
        context.initial_adoption(state.ownership(context.tab_id())),
        !authoritative(context.invocation),
    ensures
        context.opening(state.ownership(context.tab_id())) is Settled,
        context.opening_state(state) == state,
{
    state::lemma_same_ownership(state, context.tab_id());
}

/// A placeholder for which no name is found is left alone.
pub proof fn unnamed_placeholders_are_left_alone(context: ContextView, state: StateView)
    requires
        context.initial_adoption(state.ownership(context.tab_id())),
    ensures
        context.planned(state.ownership(context.tab_id()), None) is Settled,
        context.planned_state(state, state.ownership(context.tab_id()), None) == state,
{
}

/// A label that the plugin did not give an owned tab makes the tab the user's, and nothing is sent.
pub proof fn manual_renames_transfer_ownership(context: ContextView, state: StateView)
    requires
        context.manually_renamed(state.ownership(context.tab_id())),
    ensures
        context.opening(state.ownership(context.tab_id())) is Settled,
        context.opening_state(state).ownership(context.tab_id()) == Some(OwnershipView::Manual),
{
}

/// The tab of a user who did not clear its label keeps its name, and stays the user's.
///
/// So does the tab of a user who switched automatic naming off. At most the number in front of the
/// name changes.
pub proof fn names_of_users_are_kept(context: ContextView, state: StateView)
    requires
        ({
            let ownership = state.ownership(context.tab_id());
            &&& ownership == Some(OwnershipView::Manual) || ownership == Some(
                OwnershipView::AutomaticDisabled,
            )
            &&& !context.given_back(ownership)
            &&& !context.forced()
        }),
    ensures
        context.opening_state(state) == state,
        match context.opening(state.ownership(context.tab_id())) {
            TabStepView::Settled => true,
            TabStepView::Guard(plan) => !plan.plugin_owned && plan.desired_base == context.base()
                && plan.desired == context.rendered(context.base()),
            TabStepView::Observe { .. } => false,
        },
{
    state::lemma_same_ownership(state, context.tab_id());
}

/// A meaningful label that nobody owns becomes the user's, and keeps its name.
pub proof fn meaningful_labels_become_manual(context: ContextView, state: StateView)
    requires
        state.ownership(context.tab_id()) is None,
        !numbering::placeholder(context.base()),
        !context.forced(),
    ensures
        context.opening_state(state).ownership(context.tab_id()) == Some(OwnershipView::Manual),
        match context.opening(None) {
            TabStepView::Settled => true,
            TabStepView::Guard(plan) => !plan.plugin_owned && plan.desired_base == context.base(),
            TabStepView::Observe { .. } => false,
        },
{
}

/// A rename of the plugin's own is on record before the tab is read for it.
pub proof fn renames_are_recorded_ahead(
    context: ContextView,
    state: StateView,
    ownership: Option<OwnershipView>,
    name: Option<Seq<char>>,
)
    ensures
        match context.planned(ownership, name) {
            TabStepView::Guard(plan) => plan.plugin_owned ==> context.planned_state(
                state,
                ownership,
                name,
            ).ownership(context.tab_id()) == Some(
                state::recorded(ownership, context.label(), plan.desired, plan.desired_base),
            ),
            _ => true,
        },
{
}

/// A rename is sent only if the tab still has the label that the rename was decided for.
pub proof fn stale_labels_are_not_overwritten(
    context: ContextView,
    latest: Result<Option<Tab>, String>,
)
    ensures
        context.guarded(latest) is Rename <==> (latest matches Ok(Some(tab)) && tab.label@
            == context.label()),
{
}

/// If the recorded rename turns out not to have been applied, the tab is as it was claimed.
///
/// A forced reset is left out: it records its own intent before the tab is reconciled.
pub proof fn unapplied_renames_restore_the_claim(
    context: ContextView,
    state: StateView,
    name: Option<Seq<char>>,
)
    requires
        !context.forced() || state.ownership(context.tab_id()) == Some(OwnershipView::ResetPending),
        !context.ends_early(state.ownership(context.tab_id())),
    ensures
        ({
            let ownership = state.ownership(context.tab_id());
            let claimed = context.claimed_state(state);
            context.planned(ownership, name) is Guard && context.plan(
                ownership,
                name,
            ).plugin_owned ==> context.planned_state(claimed, ownership, name).resolve(
                context.tab_id(),
                context.label(),
            ) == claimed
        }),
{
    let ownership = state.ownership(context.tab_id());
    let claimed = context.claimed_state(state);
    let plan = context.plan(ownership, name);
    let recorded = state::recorded(ownership, context.label(), plan.desired, plan.desired_base);
    state::lemma_same_ownership(claimed, context.tab_id());
    state::lemma_later_ownership(
        claimed,
        context.tab_id(),
        Some(recorded),
        state::resolved(Some(recorded), context.label()),
    );
}

/// The label that shows a name is recognized as the plugin's own the next time it is seen.
///
/// This needs a name that does not look numbered itself and, where tabs are numbered, does not
/// start with white space.
pub proof fn own_labels_are_recognized(context: ContextView, name: Seq<char>)
    requires
        context.label() == context.rendered(name),
        numbering::base_label(name) == name,
        context.settings.number_tabs ==> text::trim_start(name) == name,
    ensures
        !context.manually_renamed(
            Some(
                OwnershipView::Owned { last_base: name, last_rendered: context.rendered(name) },
            ),
        ),
{
    numbering::rendering_preserves_the_base(context.position as nat, name);
}

/// An owned tab that shows its name at its position is left as it is unless it gets a new name.
pub proof fn settled_tabs_stay_settled(context: ContextView, state: StateView, name: Seq<char>)
    requires
        context.label() == context.rendered(name),
        state.ownership(context.tab_id()) == Some(
            OwnershipView::Owned { last_base: name, last_rendered: context.label() },
        ),
    ensures
        context.planned(state.ownership(context.tab_id()), None) is Settled,
        context.planned_state(state, state.ownership(context.tab_id()), None) == state,
        context.planned(state.ownership(context.tab_id()), Some(name)) is Settled,
        context.planned_state(state, state.ownership(context.tab_id()), Some(name)) == state,
{
    state::lemma_same_ownership(state, context.tab_id());
}

/// Where tabs are numbered, every label that is set shows the position of its tab.
pub proof fn labels_show_the_position(
    context: ContextView,
    ownership: Option<OwnershipView>,
    name: Option<Seq<char>>,
)
    requires
        context.settings.number_tabs,
    ensures
        context.plan(ownership, name).desired == numbering::numbered(
            context.position as nat,
            context.desired_base(ownership, name),
        ),
{
}

/// Without automatic naming no processes are looked at, and no tab is taken over.
pub proof fn disabled_naming_takes_nothing_over(context: ContextView, state: StateView)
    requires
        !context.settings.auto_name_tabs,
    ensures
        !(context.opening(state.ownership(context.tab_id())) is Observe),
        match context.opening(state.ownership(context.tab_id())) {
            TabStepView::Guard(plan) => plan.plugin_owned ==> state.ownership(
                context.tab_id(),
            ) is Some && state.ownership(context.tab_id())->0 is Owned,
            _ => true,
        },
{
}

} // verus!
