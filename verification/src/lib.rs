//! Opens a session-manager session on the cloud instance behind a
//! Kubernetes node.
//!
//! The library holds the decisions of a run and none of its effects: which
//! profile and region a client configuration carries, which instance stands
//! behind a node, which command opens the session, and in which order the
//! steps follow each other. A driver reads the configuration, talks to the
//! cluster and the cloud provider, runs the command, and hands what came
//! back to [`flow::step`].

pub mod aws;
pub mod endpoint;
pub mod error;
pub mod flow;
pub mod inventory;
pub mod kube;
pub mod pattern;
pub mod session;
pub mod text;
