//! The Kubernetes side: what a client configuration holds, choosing a
//! context, and reading node identities off a node listing.

use crate::error::{Error, ErrorView};
use crate::text::{trim, trim_str};
use vstd::prelude::*;
use vstd::string::*;

verus! {

/// A context of a Kubernetes configuration, known by its name.
#[derive(Debug, Clone, PartialEq, Eq)]
pub struct NamedContext {
    pub name: String,
}

impl View for NamedContext {
    type V = Seq<char>;

    open spec fn view(&self) -> Seq<char> {
        self.name@
    }
}

impl DeepView for NamedContext {
    type V = Seq<char>;

    open spec fn deep_view(&self) -> Seq<char> {
        self@
    }
}

/// A Kubernetes configuration as far as context selection reads it: the
/// contexts it lists and the one that is active.
#[derive(Debug, Clone, PartialEq, Eq)]
pub struct Kubeconfig {
    pub contexts: Vec<NamedContext>,
    pub current_context: Option<String>,
}

/// The view of `Kubeconfig`: the names of its contexts, in order,
/// and the name of the active one.
pub struct KubeconfigView {
    pub contexts: Seq<Seq<char>>,
    pub current_context: Option<Seq<char>>,
}

impl View for Kubeconfig {
    type V = KubeconfigView;

    open spec fn view(&self) -> KubeconfigView {
        KubeconfigView {
            contexts: self.contexts.deep_view(),
            current_context: self.current_context.deep_view(),
        }
    }
}

impl DeepView for Kubeconfig {
    type V = KubeconfigView;

    open spec fn deep_view(&self) -> KubeconfigView {
        self@
    }
}

/// What selecting `selected` does to a configuration: it becomes the active
/// context where the configuration lists it, and is reported as not found
/// where it does not.
pub open spec fn select_context_spec(config: KubeconfigView, selected: Seq<char>) -> Result<
    KubeconfigView,
    ErrorView,
> {
    if config.contexts.contains(selected) {
        Ok(KubeconfigView { contexts: config.contexts, current_context: Some(selected) })
    } else {
        Err(ErrorView::ContextNotFound { context: selected })
    }
}

/// The view of a selection's outcome.
pub open spec fn selection_view(outcome: Result<Kubeconfig, Error>) -> Result<
    KubeconfigView,
    ErrorView,
> {
    match outcome {
        Ok(config) => Ok(config@),
        Err(error) => Err(error@),
    }
}

/// Makes `selected` the active context of `kubeconfig`. Fails, naming
/// `selected`, where the configuration lists no context of that name.
pub fn select_context(kubeconfig: Kubeconfig, selected: &str) -> (outcome: Result<
    Kubeconfig,
    Error,
>)
    ensures
        selection_view(outcome) == select_context_spec(kubeconfig@, selected@),
{
    let wanted = String::from_str(selected);
    let ghost names = kubeconfig.contexts.deep_view();
    let mut found = false;
    let mut i: usize = 0;
    while i < kubeconfig.contexts.len()
        invariant
            i <= kubeconfig.contexts.len(),
            wanted@ == selected@,
            names == kubeconfig.contexts.deep_view(),
            found <==> exists|j: int| 0 <= j < i && names[j] == selected@,
        decreases kubeconfig.contexts.len() - i,
    {
        assert(names[i as int] == kubeconfig.contexts[i as int].name@);
        if kubeconfig.contexts[i].name == wanted {
            found = true;
        }
        i += 1;
    }
    if found {
        let chosen = Kubeconfig { contexts: kubeconfig.contexts, current_context: Some(wanted) };
        Ok(chosen)
    } else {
        Err(Error::ContextNotFound { context: wanted })
    }
}

/// Reads a context name off an input line, ignoring the whitespace around
/// it, and makes it the active context of `kubeconfig`.
pub fn choose_context(kubeconfig: Kubeconfig, line: &str) -> (outcome: Result<Kubeconfig, Error>)
    ensures
        selection_view(outcome) == select_context_spec(kubeconfig@, trim(line@)),
{
    select_context(kubeconfig, trim_str(line))
}

/// One entry of the environment that an exec credential plugin is started
/// with. Either half may be missing from the configuration.
#[derive(Debug, Clone, PartialEq, Eq)]
pub struct ExecEnvVar {
    pub name: Option<String>,
    pub value: Option<String>,
}

/// The view of `ExecEnvVar`: its fields as character sequences.
pub struct ExecEnvVarView {
    pub name: Option<Seq<char>>,
    pub value: Option<Seq<char>>,
}

impl View for ExecEnvVar {
    type V = ExecEnvVarView;

    open spec fn view(&self) -> ExecEnvVarView {
        ExecEnvVarView { name: self.name.deep_view(), value: self.value.deep_view() }
    }
}

impl DeepView for ExecEnvVar {
    type V = ExecEnvVarView;

    open spec fn deep_view(&self) -> ExecEnvVarView {
        self@
    }
}

/// The exec credential plugin of an authentication descriptor, as far as
/// its environment goes.
#[derive(Debug, Clone, PartialEq, Eq)]
pub struct ExecConfig {
    pub env: Option<Vec<ExecEnvVar>>,
}

/// The view of `ExecConfig`: its fields as character sequences.
pub struct ExecConfigView {
    pub env: Option<Seq<ExecEnvVarView>>,
}

impl View for ExecConfig {
    type V = ExecConfigView;

    open spec fn view(&self) -> ExecConfigView {
        ExecConfigView { env: self.env.deep_view() }
    }
}

impl DeepView for ExecConfig {
    type V = ExecConfigView;

    open spec fn deep_view(&self) -> ExecConfigView {
        self@
    }
}

/// The authentication descriptor of a client configuration.
#[derive(Debug, Clone, PartialEq, Eq)]
pub struct AuthInfo {
    pub exec_plugin: Option<ExecConfig>,
}

/// The view of `AuthInfo`: its fields as character sequences.
pub struct AuthInfoView {
    pub exec_plugin: Option<ExecConfigView>,
}

impl View for AuthInfo {
    type V = AuthInfoView;

    open spec fn view(&self) -> AuthInfoView {
        AuthInfoView { exec_plugin: self.exec_plugin.deep_view() }
    }
}

impl DeepView for AuthInfo {
    type V = AuthInfoView;

    open spec fn deep_view(&self) -> AuthInfoView {
        self@
    }
}

/// A client configuration: where the cluster API is reached and how the
/// client authenticates.
#[derive(Debug, Clone, PartialEq, Eq)]
pub struct Config {
    pub cluster_url: String,
    pub auth_info: AuthInfo,
}

/// The view of `Config`: its fields as character sequences.
pub struct ConfigView {
    pub cluster_url: Seq<char>,
    pub auth_info: AuthInfoView,
}

impl View for Config {
    type V = ConfigView;

    open spec fn view(&self) -> ConfigView {
        ConfigView { cluster_url: self.cluster_url@, auth_info: self.auth_info@ }
    }
}

impl DeepView for Config {
    type V = ConfigView;

    open spec fn deep_view(&self) -> ConfigView {
        self@
    }
}

impl ConfigView {
    /// The environment of the exec credential plugin, empty where the
    /// configuration names no plugin or the plugin has no environment.
    pub open spec fn exec_env(self) -> Seq<ExecEnvVarView> {
        match self.auth_info.exec_plugin {
            Some(plugin) => match plugin.env {
                Some(env) => env,
                None => Seq::empty(),
            },
            None => Seq::empty(),
        }
    }
}

/// A node of a listing, as far as its identity goes. The control plane may
/// leave the name out.
#[derive(Debug, Clone, PartialEq, Eq)]
pub struct Node {
    pub name: Option<String>,
}

/// The view of `Node`: its fields as character sequences.
pub struct NodeView {
    pub name: Option<Seq<char>>,
}

impl View for Node {
    type V = NodeView;

    open spec fn view(&self) -> NodeView {
        NodeView { name: self.name.deep_view() }
    }
}

impl DeepView for Node {
    type V = NodeView;

    open spec fn deep_view(&self) -> NodeView {
        self@
    }
}

/// The identities of the listed nodes: the names that are present, in the
/// order of the listing.
pub open spec fn node_names(nodes: Seq<NodeView>) -> Seq<Seq<char>> {
    nodes.filter_map(|node: NodeView| node.name)
}

/// Reads the node identities off a node listing, in the order of the
/// listing. Nodes without a name are passed over.
pub fn list_node_ips(nodes: &Vec<Node>) -> (names: Vec<String>)
    ensures
        names.deep_view() == node_names(nodes.deep_view()),
{
    let ghost listing = nodes.deep_view();
    let ghost name_of = |node: NodeView| node.name;
    let mut names: Vec<String> = Vec::new();
    let mut i: usize = 0;
    assert(names.deep_view() =~= listing.take(0).filter_map(name_of));
    while i < nodes.len()
        invariant
            i <= nodes.len(),
            listing == nodes.deep_view(),
            name_of == |node: NodeView| node.name,
            names.deep_view() == listing.take(i as int).filter_map(name_of),
        decreases nodes.len() - i,
    {
        proof {
            listing.lemma_filter_map_take_succ(name_of, i as int);
            assert(listing[i as int] == nodes[i as int]@);
        }
        let ghost before = names.deep_view();
        match &nodes[i].name {
            Some(name) => {
                names.push(name.clone());
                assert(names.deep_view() =~= before + seq![name@]);
            },
            None => {},
        }
        i += 1;
    }
    assert(listing.take(i as int) =~= listing);
    names
}

} // verus!
