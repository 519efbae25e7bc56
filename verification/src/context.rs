//! What every reconciliation is run with.

use crate::objects::{ObjectMeta, ObjectMetaView};
use vstd::prelude::*;

verus! {

/// The settings of the operator that decide what a reconciliation does.
#[derive(Debug, Clone, Copy, PartialEq, Eq, Structural)]
pub struct OperatorConfig {
    /// Find the target nodes from the service itself, not from its node selector.
    pub dynamic_node_selector: bool,
    /// Report the IPv6 address of the load balancer too.
    pub ipv6_ingress: bool,
}

/// The surroundings of a reconciliation.
#[derive(Debug)]
pub struct CurrentContext {
    /// The namespace of objects that name none.
    pub default_namespace: String,
    pub config: OperatorConfig,
}

/// What a [`CurrentContext`] says.
pub struct ContextView {
    pub default_namespace: Seq<char>,
    pub config: OperatorConfig,
}

impl DeepView for CurrentContext {
    type V = ContextView;

    open spec fn deep_view(&self) -> ContextView {
        ContextView { default_namespace: self.default_namespace@, config: self.config }
    }
}

impl ContextView {
    /// The namespace of an object.
    pub open spec fn namespace_of(self, meta: ObjectMetaView) -> Seq<char> {
        match meta.namespace {
            Some(namespace) => namespace,
            None => self.default_namespace,
        }
    }
}

impl CurrentContext {
    pub fn new(default_namespace: String, config: OperatorConfig) -> (r: CurrentContext)
        ensures
            r.default_namespace == default_namespace,
            r.config == config,
    {
        CurrentContext { default_namespace, config }
    }

    /// The namespace of an object: its own, or the default one.
    pub fn namespace_of(&self, meta: &ObjectMeta) -> (r: String)
        ensures
            r@ == self.deep_view().namespace_of(meta.deep_view()),
    {
        match &meta.namespace {
            Some(namespace) => namespace.clone(),
            None => self.default_namespace.clone(),
        }
    }
}

} // verus!
