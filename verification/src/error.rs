//! The failures a node session can meet, and the text each is shown with.

use vstd::prelude::*;
use vstd::string::*;

verus! {

/// Why a flow was aborted. Every variant carries the detail that names the
/// offending input or repeats what the collaborator reported.
#[derive(Debug, Clone, PartialEq, Eq)]
pub enum Error {
    /// The requested context is not listed in the Kubernetes configuration.
    ContextNotFound { context: String },
    /// No client configuration could be built from the Kubernetes
    /// configuration.
    ClientConfig { reason: String },
    /// No cluster client could be created from the client configuration.
    ClientCreation { reason: String },
    /// The cluster API failed to list the nodes.
    NodeListing { reason: String },
    /// No segment of the cluster endpoint names a cloud region.
    RegionNotFound { endpoint: String },
    /// The cloud provider failed to list the instances.
    InstanceListing { reason: String },
    /// No instance carries the node's internal network name.
    InstanceNotFound { node: String },
    /// The session-manager client could not be started.
    SessionSpawn { reason: String },
    /// The session-manager client ended with a failure status.
    SessionExit { status: String },
    /// The flow was handed an event that its current state does not wait for.
    UnexpectedEvent,
}

/// The classes that failures fall into.
#[derive(Debug, Clone, Copy, PartialEq, Eq, Structural)]
pub enum ErrorKind {
    /// The Kubernetes configuration does not hold what was asked of it.
    Configuration,
    /// A collaborator could not be reached or refused to answer.
    Connectivity,
    /// The selected node has no instance in the inventory.
    ResolutionMiss,
    /// The session-manager client did not start or did not end well.
    ProcessLaunch,
    /// The flow was driven out of order.
    Protocol,
}

/// The view of `Error`: the same variants over character sequences.
pub enum ErrorView {
    ContextNotFound { context: Seq<char> },
    ClientConfig { reason: Seq<char> },
    ClientCreation { reason: Seq<char> },
    NodeListing { reason: Seq<char> },
    RegionNotFound { endpoint: Seq<char> },
    InstanceListing { reason: Seq<char> },
    InstanceNotFound { node: Seq<char> },
    SessionSpawn { reason: Seq<char> },
    SessionExit { status: Seq<char> },
    UnexpectedEvent,
}

impl View for Error {
    type V = ErrorView;

    open spec fn view(&self) -> ErrorView {
        match *self {
            Error::ContextNotFound { context } => ErrorView::ContextNotFound { context: context@ },
            Error::ClientConfig { reason } => ErrorView::ClientConfig { reason: reason@ },
            Error::ClientCreation { reason } => ErrorView::ClientCreation { reason: reason@ },
            Error::NodeListing { reason } => ErrorView::NodeListing { reason: reason@ },
            Error::RegionNotFound { endpoint } => ErrorView::RegionNotFound { endpoint: endpoint@ },
            Error::InstanceListing { reason } => ErrorView::InstanceListing { reason: reason@ },
            Error::InstanceNotFound { node } => ErrorView::InstanceNotFound { node: node@ },
            Error::SessionSpawn { reason } => ErrorView::SessionSpawn { reason: reason@ },
            Error::SessionExit { status } => ErrorView::SessionExit { status: status@ },
            Error::UnexpectedEvent => ErrorView::UnexpectedEvent,
        }
    }
}

impl DeepView for Error {
    type V = ErrorView;

    open spec fn deep_view(&self) -> ErrorView {
        self@
    }
}

impl ErrorView {
    /// The class of the failure.
    pub open spec fn kind(self) -> ErrorKind {
        match self {
            ErrorView::ContextNotFound { .. } | ErrorView::RegionNotFound { .. } => {
                ErrorKind::Configuration
            },
            ErrorView::ClientConfig { .. }
            | ErrorView::ClientCreation { .. }
            | ErrorView::NodeListing { .. }
            | ErrorView::InstanceListing { .. } => ErrorKind::Connectivity,
            ErrorView::InstanceNotFound { .. } => ErrorKind::ResolutionMiss,
            ErrorView::SessionSpawn { .. } | ErrorView::SessionExit { .. } => {
                ErrorKind::ProcessLaunch
            },
            ErrorView::UnexpectedEvent => ErrorKind::Protocol,
        }
    }

    /// The message of the failure: a fixed text that names the operation,
    /// around the detail.
    pub open spec fn message(self) -> Seq<char> {
        match self {
            ErrorView::ContextNotFound { context } => "Context '"@ + context
                + "' not found in kubeconfig"@,
            ErrorView::ClientConfig { reason } => "Failed to build Kubernetes client config: "@
                + reason,
            ErrorView::ClientCreation { reason } => "Error creating Kubernetes client: "@ + reason,
            ErrorView::NodeListing { reason } => "Error listing nodes: "@ + reason,
            ErrorView::RegionNotFound { endpoint } => "No AWS region found in cluster endpoint: "@
                + endpoint,
            ErrorView::InstanceListing { reason } => "Error listing EC2 instances: "@ + reason,
            ErrorView::InstanceNotFound { node } => "No instance ID found for private dns: "@
                + node,
            ErrorView::SessionSpawn { reason } => "Failed to execute AWS CLI: "@ + reason,
            ErrorView::SessionExit { status } => "AWS CLI returned non-zero exit status: "@
                + status,
            ErrorView::UnexpectedEvent => "Unexpected event for the current step"@,
        }
    }

    /// The line a flow shows for the failure: the message, behind the name
    /// of the session step where the session-manager client failed.
    pub open spec fn diagnostic(self) -> Seq<char> {
        if self.kind() == ErrorKind::ProcessLaunch {
            "Failed to start SSM session: "@ + self.message()
        } else {
            self.message()
        }
    }
}

impl Error {
    /// The class of the failure.
    pub fn kind(&self) -> (kind: ErrorKind)
        ensures
            kind == self@.kind(),
    {
        match self {
            Error::ContextNotFound { .. } | Error::RegionNotFound { .. } => {
                ErrorKind::Configuration
            },
            Error::ClientConfig { .. }
            | Error::ClientCreation { .. }
            | Error::NodeListing { .. }
            | Error::InstanceListing { .. } => ErrorKind::Connectivity,
            Error::InstanceNotFound { .. } => ErrorKind::ResolutionMiss,
            Error::SessionSpawn { .. } | Error::SessionExit { .. } => ErrorKind::ProcessLaunch,
            Error::UnexpectedEvent => ErrorKind::Protocol,
        }
    }

    /// The message of the failure.
    pub fn message(&self) -> (text: String)
        ensures
            text@ == self@.message(),
    {
        match self {
            Error::ContextNotFound { context } => String::from_str("Context '").concat(
                context.as_str(),
            ).concat("' not found in kubeconfig"),
            Error::ClientConfig { reason } => String::from_str(
                "Failed to build Kubernetes client config: ",
            ).concat(reason.as_str()),
            Error::ClientCreation { reason } => String::from_str(
                "Error creating Kubernetes client: ",
            ).concat(reason.as_str()),
            Error::NodeListing { reason } => String::from_str("Error listing nodes: ").concat(
                reason.as_str(),
            ),
            Error::RegionNotFound { endpoint } => String::from_str(
                "No AWS region found in cluster endpoint: ",
            ).concat(endpoint.as_str()),
            Error::InstanceListing { reason } => String::from_str(
                "Error listing EC2 instances: ",
            ).concat(reason.as_str()),
            Error::InstanceNotFound { node } => String::from_str(
                "No instance ID found for private dns: ",
            ).concat(node.as_str()),
            Error::SessionSpawn { reason } => String::from_str(
                "Failed to execute AWS CLI: ",
            ).concat(reason.as_str()),
            Error::SessionExit { status } => String::from_str(
                "AWS CLI returned non-zero exit status: ",
            ).concat(status.as_str()),
            Error::UnexpectedEvent => String::from_str("Unexpected event for the current step"),
        }
    }

    /// The line a flow shows for the failure.
    pub fn diagnostic(&self) -> (text: String)
        ensures
            text@ == self@.diagnostic(),
    {
        let message = self.message();
        match self.kind() {
            ErrorKind::ProcessLaunch => String::from_str("Failed to start SSM session: ").concat(
                message.as_str(),
            ),
            _ => message,
        }
    }
}

} // verus!
