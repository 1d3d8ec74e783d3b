//! The flow of one run: select a context, list the nodes, extract the
//! credentials, select a node, resolve its instance, launch the session.
//!
//! The flow itself performs nothing. Each step answers the event that the
//! outside work of its state produced with the next state and the action
//! that the driver is to perform next.

use crate::aws::{
    all_instances, extract_aws_profile, extract_aws_region, get_ec2_instance_id,
    get_ec2_node_ips, inventory_of, profile_of, region_of, resolve, Reservation,
    ReservationView,
};
use crate::error::{Error, ErrorKind, ErrorView};
use crate::kube::{
    choose_context, list_node_ips, node_names, select_context_spec, Config, ConfigView,
    Kubeconfig, KubeconfigView, Node, NodeView,
};
use crate::session::{
    finish_ssm_session, session_command, session_result, start_ssm_session, ProcessOutcome,
    ProcessOutcomeView, SessionCommand, SessionCommandView, SessionTarget, SessionTargetView,
};
use crate::text::{trim, trim_str};
use vstd::prelude::*;
use vstd::string::*;

verus! {

/// Where a run stands. Every state but the last two waits for the outcome
/// of one piece of outside work.
#[derive(Debug, Clone, PartialEq, Eq)]
pub enum FlowState {
    /// Waiting for the operator's choice of context.
    SelectContext,
    /// Waiting for the node listing of the cluster.
    ListNodes,
    /// About to read profile and region off the client configuration.
    ExtractCredentials { config: Config, nodes: Vec<String> },
    /// Waiting for the operator's choice of node.
    SelectNode { profile: String, region: String },
    /// Waiting for the instances that the cloud provider describes.
    ResolveInstance { node: String, profile: String, region: String },
    /// Waiting for the session to end.
    LaunchSession { target: SessionTarget },
    /// The session was held and is over.
    Done,
    /// The run was given up.
    Aborted,
}

/// What the driver reports back to the flow.
#[derive(Debug, Clone, PartialEq, Eq)]
pub enum FlowEvent {
    /// The Kubernetes configuration was read and the operator typed `line`.
    ContextInput { kubeconfig: Kubeconfig, line: String },
    /// The cluster was reached with `config` and listed `nodes`.
    NodesListed { config: Config, nodes: Vec<Node> },
    /// Nothing was to be done outside; the flow may go on.
    Proceed,
    /// The operator typed `line` as the choice of node.
    NodeInput { line: String },
    /// The cloud provider described `reservations`.
    InstancesListed { reservations: Vec<Reservation> },
    /// The session command ended with `outcome`.
    SessionEnded { outcome: ProcessOutcome },
    /// The outside work of the state failed with `error`.
    Failed { error: Error },
}

/// What the flow asks the driver to do next.
#[derive(Debug, Clone, PartialEq, Eq)]
pub enum FlowAction {
    /// Read the Kubernetes configuration, show its contexts, read a line.
    PromptContext,
    /// Reach the cluster of the active context and list its nodes.
    ListNodes { kubeconfig: Kubeconfig },
    /// Do nothing outside; report `Proceed`.
    Proceed,
    /// Show the nodes, read a line.
    PromptNode { nodes: Vec<String> },
    /// Ask the cloud provider, under the profile, for its instances.
    ListInstances { profile: String },
    /// Announce the instance, run the command, wait for its end.
    RunSession { instance_id: String, command: SessionCommand },
    /// Show the diagnostic of the failure; the run is over.
    Report { error: Error },
    /// Nothing is left to do.
    Halt,
}

/// The view of `FlowState`: its fields as character sequences.
pub enum FlowStateView {
    SelectContext,
    ListNodes,
    ExtractCredentials { config: ConfigView, nodes: Seq<Seq<char>> },
    SelectNode { profile: Seq<char>, region: Seq<char> },
    ResolveInstance { node: Seq<char>, profile: Seq<char>, region: Seq<char> },
    LaunchSession { target: SessionTargetView },
    Done,
    Aborted,
}

/// The view of `FlowEvent`: its fields as character sequences.
pub enum FlowEventView {
    ContextInput { kubeconfig: KubeconfigView, line: Seq<char> },
    NodesListed { config: ConfigView, nodes: Seq<NodeView> },
    Proceed,
    NodeInput { line: Seq<char> },
    InstancesListed { reservations: Seq<ReservationView> },
    SessionEnded { outcome: ProcessOutcomeView },
    Failed { error: ErrorView },
}

/// The view of `FlowAction`: its fields as character sequences.
pub enum FlowActionView {
    PromptContext,
    ListNodes { kubeconfig: KubeconfigView },
    Proceed,
    PromptNode { nodes: Seq<Seq<char>> },
    ListInstances { profile: Seq<char> },
    RunSession { instance_id: Seq<char>, command: SessionCommandView },
    Report { error: ErrorView },
    Halt,
}

impl View for FlowState {
    type V = FlowStateView;

    open spec fn view(&self) -> FlowStateView {
        match *self {
            FlowState::SelectContext => FlowStateView::SelectContext,
            FlowState::ListNodes => FlowStateView::ListNodes,
            FlowState::ExtractCredentials { config, nodes } => FlowStateView::ExtractCredentials {
                config: config@,
                nodes: nodes.deep_view(),
            },
            FlowState::SelectNode { profile, region } => FlowStateView::SelectNode {
                profile: profile@,
                region: region@,
            },
            FlowState::ResolveInstance { node, profile, region } => FlowStateView::ResolveInstance {
                node: node@,
                profile: profile@,
                region: region@,
            },
            FlowState::LaunchSession { target } => FlowStateView::LaunchSession { target: target@ },
            FlowState::Done => FlowStateView::Done,
            FlowState::Aborted => FlowStateView::Aborted,
        }
    }
}

impl View for FlowEvent {
    type V = FlowEventView;

    open spec fn view(&self) -> FlowEventView {
        match *self {
            FlowEvent::ContextInput { kubeconfig, line } => FlowEventView::ContextInput {
                kubeconfig: kubeconfig@,
                line: line@,
            },
            FlowEvent::NodesListed { config, nodes } => FlowEventView::NodesListed {
                config: config@,
                nodes: nodes.deep_view(),
            },
            FlowEvent::Proceed => FlowEventView::Proceed,
            FlowEvent::NodeInput { line } => FlowEventView::NodeInput { line: line@ },
            FlowEvent::InstancesListed { reservations } => FlowEventView::InstancesListed {
                reservations: reservations.deep_view(),
            },
            FlowEvent::SessionEnded { outcome } => FlowEventView::SessionEnded {
                outcome: outcome@,
            },
            FlowEvent::Failed { error } => FlowEventView::Failed { error: error@ },
        }
    }
}

impl View for FlowAction {
    type V = FlowActionView;

    open spec fn view(&self) -> FlowActionView {
        match *self {
            FlowAction::PromptContext => FlowActionView::PromptContext,
            FlowAction::ListNodes { kubeconfig } => FlowActionView::ListNodes {
                kubeconfig: kubeconfig@,
            },
            FlowAction::Proceed => FlowActionView::Proceed,
            FlowAction::PromptNode { nodes } => FlowActionView::PromptNode {
                nodes: nodes.deep_view(),
            },
            FlowAction::ListInstances { profile } => FlowActionView::ListInstances {
                profile: profile@,
            },
            FlowAction::RunSession { instance_id, command } => FlowActionView::RunSession {
                instance_id: instance_id@,
                command: command@,
            },
            FlowAction::Report { error } => FlowActionView::Report { error: error@ },
            FlowAction::Halt => FlowActionView::Halt,
        }
    }
}

impl FlowStateView {
    /// Whether the run is over in this state.
    pub open spec fn is_terminal(self) -> bool {
        self is Done || self is Aborted
    }
}

/// The outcome of giving a run up over `error`.
pub open spec fn aborted(error: ErrorView) -> (FlowStateView, FlowActionView) {
    (FlowStateView::Aborted, FlowActionView::Report { error })
}

/// The step after the operator's choice of context.
pub open spec fn after_context_input(kubeconfig: KubeconfigView, line: Seq<char>) -> (
    FlowStateView,
    FlowActionView,
) {
    match select_context_spec(kubeconfig, trim(line)) {
        Ok(chosen) => (FlowStateView::ListNodes, FlowActionView::ListNodes { kubeconfig: chosen }),
        Err(error) => aborted(error),
    }
}

/// The step that reads profile and region off the client configuration.
/// A configuration whose endpoint names no region ends the run.
pub open spec fn after_credentials(config: ConfigView, nodes: Seq<Seq<char>>) -> (
    FlowStateView,
    FlowActionView,
) {
    match region_of(config.cluster_url) {
        Some(region) => (
            FlowStateView::SelectNode { profile: profile_of(config), region },
            FlowActionView::PromptNode { nodes },
        ),
        None => aborted(ErrorView::RegionNotFound { endpoint: config.cluster_url }),
    }
}

/// The step after the cloud provider described its instances.
pub open spec fn after_instances(
    node: Seq<char>,
    profile: Seq<char>,
    region: Seq<char>,
    reservations: Seq<ReservationView>,
) -> (FlowStateView, FlowActionView) {
    match resolve(inventory_of(all_instances(reservations)), node) {
        Ok(instance_id) => {
            let target = SessionTargetView { instance_id, region, profile };
            (
                FlowStateView::LaunchSession { target },
                FlowActionView::RunSession { instance_id, command: session_command(target) },
            )
        },
        Err(error) => aborted(error),
    }
}

/// The step after the session command ended.
pub open spec fn after_session(outcome: ProcessOutcomeView) -> (FlowStateView, FlowActionView) {
    match session_result(outcome) {
        Ok(()) => (FlowStateView::Done, FlowActionView::Halt),
        Err(error) => aborted(error),
    }
}

/// The transition of the flow: the next state and the next action for a
/// state and the event that arrived in it. A run that is over stays as it
/// is. A failure of the outside work, and an event that the state does not
/// wait for, end the run.
pub open spec fn step_spec(state: FlowStateView, event: FlowEventView) -> (
    FlowStateView,
    FlowActionView,
) {
    if state.is_terminal() {
        (state, FlowActionView::Halt)
    } else if event is Failed {
        aborted(event->error)
    } else {
        match (state, event) {
            (
                FlowStateView::SelectContext,
                FlowEventView::ContextInput { kubeconfig, line },
            ) => after_context_input(kubeconfig, line),
            (FlowStateView::ListNodes, FlowEventView::NodesListed { config, nodes }) => (
                FlowStateView::ExtractCredentials { config, nodes: node_names(nodes) },
                FlowActionView::Proceed,
            ),
            (
                FlowStateView::ExtractCredentials { config, nodes },
                FlowEventView::Proceed,
            ) => after_credentials(config, nodes),
            (FlowStateView::SelectNode { profile, region }, FlowEventView::NodeInput { line }) => (
                FlowStateView::ResolveInstance { node: trim(line), profile, region },
                FlowActionView::ListInstances { profile },
            ),
            (
                FlowStateView::ResolveInstance { node, profile, region },
                FlowEventView::InstancesListed { reservations },
            ) => after_instances(node, profile, region, reservations),
            (
                FlowStateView::LaunchSession { target },
                FlowEventView::SessionEnded { outcome },
            ) => after_session(outcome),
            _ => aborted(ErrorView::UnexpectedEvent),
        }
    }
}

/// How far a run has come: the place of its state in the order of the
/// flow. Both ways in which a run is over count as the end.
pub open spec fn progress(state: FlowStateView) -> nat {
    match state {
        FlowStateView::SelectContext => 0,
        FlowStateView::ListNodes => 1,
        FlowStateView::ExtractCredentials { .. } => 2,
        FlowStateView::SelectNode { .. } => 3,
        FlowStateView::ResolveInstance { .. } => 4,
        FlowStateView::LaunchSession { .. } => 5,
        FlowStateView::Done => 6,
        FlowStateView::Aborted => 6,
    }
}

/// The actions that a run issues, one for each event, when it is in
/// `state` and the events arrive in order.
pub open spec fn run(state: FlowStateView, events: Seq<FlowEventView>) -> Seq<FlowActionView>
    decreases events.len(),
{
    if events.len() == 0 {
        Seq::empty()
    } else {
        let (next, action) = step_spec(state, events[0]);
        seq![action] + run(next, events.drop_first())
    }
}

/// How many of `actions` ask for a session.
pub open spec fn sessions_requested(actions: Seq<FlowActionView>) -> nat
    decreases actions.len(),
{
    if actions.len() == 0 {
        0
    } else if actions[0] is RunSession {
        1 + sessions_requested(actions.drop_first())
    } else {
        sessions_requested(actions.drop_first())
    }
}

/// A run that is over stays as it is and asks for nothing more, whatever
/// arrives.
pub proof fn lemma_terminal_absorbs(state: FlowStateView, event: FlowEventView)
    requires
        state.is_terminal(),
    ensures
        step_spec(state, event) == (state, FlowActionView::Halt),
{
}

/// A failure of the outside work gives the run up from every state in
/// which it is not over, and the failure is what is reported.
pub proof fn lemma_failure_aborts(state: FlowStateView, error: ErrorView)
    requires
        !state.is_terminal(),
    ensures
        step_spec(state, FlowEventView::Failed { error }) == aborted(error),
{
}

/// A step of a run that is not over either gives the run up and reports
/// why, or moves to the state that follows in the order of the flow and
/// reports nothing. No state is entered again and none is passed over.
pub proof fn lemma_step_advances_or_aborts(state: FlowStateView, event: FlowEventView)
    requires
        !state.is_terminal(),
    ensures
        ({
            let (next, action) = step_spec(state, event);
            if next is Aborted {
                action is Report
            } else {
                progress(next) == progress(state) + 1 && !(action is Report)
            }
        }),
{
}

/// A session is asked for only on the step that resolves the instance, and
/// a run becomes done only on the step that sees the session end well.
pub proof fn lemma_session_and_done(state: FlowStateView, event: FlowEventView)
    ensures
        ({
            let (next, action) = step_spec(state, event);
            &&& action is RunSession ==> state is ResolveInstance && next is LaunchSession
            &&& next is Done && !(state is Done) ==> {
                &&& state is LaunchSession
                &&& event matches FlowEventView::SessionEnded { outcome }
                &&& outcome matches ProcessOutcomeView::Ended { success, .. }
                &&& success
            }
        }),
{
}

/// A session that did not start, or did not end well, gives the run up
/// with a failure of the process-launch class.
pub proof fn lemma_failed_session_aborts(target: SessionTargetView, outcome: ProcessOutcomeView)
    requires
        outcome is NotStarted || !outcome->success,
    ensures
        ({
            let (next, action) = step_spec(
                FlowStateView::LaunchSession { target },
                FlowEventView::SessionEnded { outcome },
            );
            &&& next is Aborted
            &&& action matches FlowActionView::Report { error }
            &&& error.kind() == ErrorKind::ProcessLaunch
        }),
{
}

/// Whatever events arrive, and in whatever order, a run asks for a session
/// at most once, and never again once it has passed the step that resolves
/// the instance.
pub proof fn lemma_at_most_one_session(state: FlowStateView, events: Seq<FlowEventView>)
    ensures
        sessions_requested(run(state, events)) <= 1,
        progress(state) > 4 ==> sessions_requested(run(state, events)) == 0,
    decreases events.len(),
{
    if events.len() > 0 {
        let (next, action) = step_spec(state, events[0]);
        let rest = run(next, events.drop_first());
        lemma_at_most_one_session(next, events.drop_first());
        lemma_session_and_done(state, events[0]);
        assert((seq![action] + rest).drop_first() =~= rest);
        if !state.is_terminal() {
            lemma_step_advances_or_aborts(state, events[0]);
        }
    }
}

/// Where a run begins: in `SelectContext`, with the request to prompt for
/// a context.
pub fn start() -> (first: (FlowState, FlowAction))
    ensures
        first.0@ == FlowStateView::SelectContext,
        first.1@ == FlowActionView::PromptContext,
{
    (FlowState::SelectContext, FlowAction::PromptContext)
}

/// Gives the run up over `error`.
fn abort(error: Error) -> (next: (FlowState, FlowAction))
    ensures
        (next.0@, next.1@) == aborted(error@),
{
    (FlowState::Aborted, FlowAction::Report { error })
}

/// Answers an event that is no failure in a state that is not terminal.
fn advance(state: FlowState, event: FlowEvent) -> (next: (FlowState, FlowAction))
    requires
        !state@.is_terminal(),
        !(event@ is Failed),
    ensures
        (next.0@, next.1@) == step_spec(state@, event@),
{
    match (state, event) {
        (FlowState::SelectContext, FlowEvent::ContextInput { kubeconfig, line }) => {
            match choose_context(kubeconfig, line.as_str()) {
                Ok(chosen) => (FlowState::ListNodes, FlowAction::ListNodes { kubeconfig: chosen }),
                Err(error) => abort(error),
            }
        },
        (FlowState::ListNodes, FlowEvent::NodesListed { config, nodes }) => {
            let names = list_node_ips(&nodes);
            (FlowState::ExtractCredentials { config, nodes: names }, FlowAction::Proceed)
        },
        (FlowState::ExtractCredentials { config, nodes }, FlowEvent::Proceed) => {
            let profile = extract_aws_profile(&config);
            match extract_aws_region(&config) {
                Some(region) => (
                    FlowState::SelectNode { profile, region },
                    FlowAction::PromptNode { nodes },
                ),
                None => abort(Error::RegionNotFound { endpoint: config.cluster_url }),
            }
        },
        (FlowState::SelectNode { profile, region }, FlowEvent::NodeInput { line }) => {
            let node = trim_str(line.as_str()).to_owned();
            let wanted = profile.clone();
            (
                FlowState::ResolveInstance { node, profile, region },
                FlowAction::ListInstances { profile: wanted },
            )
        },
        (
            FlowState::ResolveInstance { node, profile, region },
            FlowEvent::InstancesListed { reservations },
        ) => {
            let inventory = get_ec2_node_ips(&reservations);
            match get_ec2_instance_id(node, &inventory) {
                Ok(instance_id) => {
                    let command = start_ssm_session(
                        instance_id.clone(),
                        region.clone(),
                        profile.clone(),
                    );
                    let target = SessionTarget { instance_id: instance_id.clone(), region, profile };
                    (
                        FlowState::LaunchSession { target },
                        FlowAction::RunSession { instance_id, command },
                    )
                },
                Err(error) => abort(error),
            }
        },
        (FlowState::LaunchSession { target: _ }, FlowEvent::SessionEnded { outcome }) => {
            match finish_ssm_session(outcome) {
                Ok(()) => (FlowState::Done, FlowAction::Halt),
                Err(error) => abort(error),
            }
        },
        _ => abort(Error::UnexpectedEvent),
    }
}

/// Takes one step of the flow: answers the event that arrived in `state`
/// with the next state and the action to perform next.
pub fn step(state: FlowState, event: FlowEvent) -> (next: (FlowState, FlowAction))
    ensures
        (next.0@, next.1@) == step_spec(state@, event@),
{
    match state {
        FlowState::Done => (FlowState::Done, FlowAction::Halt),
        FlowState::Aborted => (FlowState::Aborted, FlowAction::Halt),
        state => match event {
            FlowEvent::Failed { error } => abort(error),
            event => advance(state, event),
        },
    }
}

} // verus!
