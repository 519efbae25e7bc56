//! The Kubernetes objects that the operator reads, with the fields that it
//! reads of them.

use crate::string_map::StringMap;
use vstd::prelude::*;

verus! {

/// The metadata of a Kubernetes object.
#[derive(Debug)]
pub struct ObjectMeta {
    pub name: Option<String>,
    pub generate_name: Option<String>,
    pub namespace: Option<String>,
    pub labels: Option<StringMap>,
    pub annotations: Option<StringMap>,
    pub finalizers: Option<Vec<String>>,
    /// Whether the object has a deletion timestamp.
    pub deletion_requested: bool,
}

/// What a [`ObjectMeta`] says.
pub struct ObjectMetaView {
    pub name: Option<Seq<char>>,
    pub generate_name: Option<Seq<char>>,
    pub namespace: Option<Seq<char>>,
    pub labels: Option<Map<Seq<char>, Seq<char>>>,
    pub annotations: Option<Map<Seq<char>, Seq<char>>>,
    pub finalizers: Option<Seq<Seq<char>>>,
    pub deletion_requested: bool,
}

impl DeepView for ObjectMeta {
    type V = ObjectMetaView;

    open spec fn deep_view(&self) -> ObjectMetaView {
        ObjectMetaView {
            name: self.name.deep_view(),
            generate_name: self.generate_name.deep_view(),
            namespace: self.namespace.deep_view(),
            labels: self.labels.deep_view(),
            annotations: self.annotations.deep_view(),
            finalizers: self.finalizers.deep_view(),
            deletion_requested: self.deletion_requested,
        }
    }
}

impl Default for ObjectMeta {
    fn default() -> (r: ObjectMeta)
        ensures
            r.deep_view() == ObjectMetaView::unset(),
    {
        ObjectMeta {
            name: None,
            generate_name: None,
            namespace: None,
            labels: None,
            annotations: None,
            finalizers: None,
            deletion_requested: false,
        }
    }
}

/// One port of a service.
#[derive(Debug)]
pub struct ServicePort {
    pub port: i32,
    pub node_port: Option<i32>,
    pub protocol: Option<String>,
}

/// What a [`ServicePort`] says.
pub struct ServicePortView {
    pub port: i32,
    pub node_port: Option<i32>,
    pub protocol: Option<Seq<char>>,
}

impl DeepView for ServicePort {
    type V = ServicePortView;

    open spec fn deep_view(&self) -> ServicePortView {
        ServicePortView {
            port: self.port,
            node_port: self.node_port,
            protocol: self.protocol.deep_view(),
        }
    }
}

impl Default for ServicePort {
    fn default() -> (r: ServicePort)
        ensures
            r.port == 0,
            r.node_port is None,
            r.protocol is None,
    {
        ServicePort {
            port: 0,
            node_port: None,
            protocol: None,
        }
    }
}

/// What is asked of a service.
#[derive(Debug)]
pub struct ServiceSpec {
    pub type_: Option<String>,
    pub load_balancer_class: Option<String>,
    pub external_traffic_policy: Option<String>,
    pub selector: Option<StringMap>,
    pub ports: Option<Vec<ServicePort>>,
}

/// What a [`ServiceSpec`] says.
pub struct ServiceSpecView {
    pub type_: Option<Seq<char>>,
    pub load_balancer_class: Option<Seq<char>>,
    pub external_traffic_policy: Option<Seq<char>>,
    pub selector: Option<Map<Seq<char>, Seq<char>>>,
    pub ports: Option<Seq<ServicePortView>>,
}

impl DeepView for ServiceSpec {
    type V = ServiceSpecView;

    open spec fn deep_view(&self) -> ServiceSpecView {
        ServiceSpecView {
            type_: self.type_.deep_view(),
            load_balancer_class: self.load_balancer_class.deep_view(),
            external_traffic_policy: self.external_traffic_policy.deep_view(),
            selector: self.selector.deep_view(),
            ports: self.ports.deep_view(),
        }
    }
}

impl Default for ServiceSpec {
    fn default() -> (r: ServiceSpec)
        ensures
            r.type_ is None,
            r.load_balancer_class is None,
            r.external_traffic_policy is None,
            r.selector is None,
            r.ports is None,
    {
        ServiceSpec {
            type_: None,
            load_balancer_class: None,
            external_traffic_policy: None,
            selector: None,
            ports: None,
        }
    }
}

/// A service.
#[derive(Debug)]
pub struct Service {
    pub metadata: ObjectMeta,
    pub spec: Option<ServiceSpec>,
}

/// What a [`Service`] says.
pub struct ServiceView {
    pub metadata: ObjectMetaView,
    pub spec: Option<ServiceSpecView>,
}

impl DeepView for Service {
    type V = ServiceView;

    open spec fn deep_view(&self) -> ServiceView {
        ServiceView {
            metadata: self.metadata.deep_view(),
            spec: self.spec.deep_view(),
        }
    }
}

impl Default for Service {
    fn default() -> (r: Service)
        ensures
            r.metadata.deep_view() == ObjectMetaView::unset(),
            r.spec is None,
    {
        Service {
            metadata: ObjectMeta::default(),
            spec: None,
        }
    }
}

/// An address of a node, with its type, such as `InternalIP`.
#[derive(Debug)]
pub struct NodeAddress {
    pub type_: String,
    pub address: String,
}

/// What a [`NodeAddress`] says.
pub struct NodeAddressView {
    pub type_: Seq<char>,
    pub address: Seq<char>,
}

impl DeepView for NodeAddress {
    type V = NodeAddressView;

    open spec fn deep_view(&self) -> NodeAddressView {
        NodeAddressView {
            type_: self.type_.deep_view(),
            address: self.address.deep_view(),
        }
    }
}

/// What is known of a node.
#[derive(Debug)]
pub struct NodeStatus {
    pub addresses: Option<Vec<NodeAddress>>,
}

/// What a [`NodeStatus`] says.
pub struct NodeStatusView {
    pub addresses: Option<Seq<NodeAddressView>>,
}

impl DeepView for NodeStatus {
    type V = NodeStatusView;

    open spec fn deep_view(&self) -> NodeStatusView {
        NodeStatusView {
            addresses: self.addresses.deep_view(),
        }
    }
}

/// What is asked of a node.
#[derive(Debug)]
pub struct NodeSpec {
    pub unschedulable: Option<bool>,
}

/// What a [`NodeSpec`] says.
pub struct NodeSpecView {
    pub unschedulable: Option<bool>,
}

impl DeepView for NodeSpec {
    type V = NodeSpecView;

    open spec fn deep_view(&self) -> NodeSpecView {
        NodeSpecView {
            unschedulable: self.unschedulable,
        }
    }
}

impl Default for NodeSpec {
    fn default() -> (r: NodeSpec)
        ensures
            r.unschedulable is None,
    {
        NodeSpec {
            unschedulable: None,
        }
    }
}

/// A node of the cluster.
#[derive(Debug)]
pub struct Node {
    pub metadata: ObjectMeta,
    pub spec: Option<NodeSpec>,
    pub status: Option<NodeStatus>,
}

/// What a [`Node`] says.
pub struct NodeView {
    pub metadata: ObjectMetaView,
    pub spec: Option<NodeSpecView>,
    pub status: Option<NodeStatusView>,
}

impl DeepView for Node {
    type V = NodeView;

    open spec fn deep_view(&self) -> NodeView {
        NodeView {
            metadata: self.metadata.deep_view(),
            spec: self.spec.deep_view(),
            status: self.status.deep_view(),
        }
    }
}

impl Default for Node {
    fn default() -> (r: Node)
        ensures
            r.metadata.deep_view() == ObjectMetaView::unset(),
            r.spec is None,
            r.status is None,
    {
        Node {
            metadata: ObjectMeta::default(),
            spec: None,
            status: None,
        }
    }
}

/// What is asked of a pod.
#[derive(Debug)]
pub struct PodSpec {
    pub node_name: Option<String>,
}

/// What a [`PodSpec`] says.
pub struct PodSpecView {
    pub node_name: Option<Seq<char>>,
}

impl DeepView for PodSpec {
    type V = PodSpecView;

    open spec fn deep_view(&self) -> PodSpecView {
        PodSpecView {
            node_name: self.node_name.deep_view(),
        }
    }
}

/// A pod.
#[derive(Debug)]
pub struct Pod {
    pub spec: Option<PodSpec>,
}

/// What a [`Pod`] says.
pub struct PodView {
    pub spec: Option<PodSpecView>,
}

impl DeepView for Pod {
    type V = PodView;

    open spec fn deep_view(&self) -> PodView {
        PodView {
            spec: self.spec.deep_view(),
        }
    }
}

/// The state of an endpoint.
#[derive(Debug)]
pub struct EndpointConditions {
    pub ready: Option<bool>,
}

/// What a [`EndpointConditions`] says.
pub struct EndpointConditionsView {
    pub ready: Option<bool>,
}

impl DeepView for EndpointConditions {
    type V = EndpointConditionsView;

    open spec fn deep_view(&self) -> EndpointConditionsView {
        EndpointConditionsView {
            ready: self.ready,
        }
    }
}

/// One backend of a service.
#[derive(Debug)]
pub struct Endpoint {
    pub conditions: Option<EndpointConditions>,
    pub node_name: Option<String>,
}

/// What a [`Endpoint`] says.
pub struct EndpointView {
    pub conditions: Option<EndpointConditionsView>,
    pub node_name: Option<Seq<char>>,
}

impl DeepView for Endpoint {
    type V = EndpointView;

    open spec fn deep_view(&self) -> EndpointView {
        EndpointView {
            conditions: self.conditions.deep_view(),
            node_name: self.node_name.deep_view(),
        }
    }
}

/// A part of the backends of a service.
#[derive(Debug)]
pub struct EndpointSlice {
    pub endpoints: Vec<Endpoint>,
}

/// What a [`EndpointSlice`] says.
pub struct EndpointSliceView {
    pub endpoints: Seq<EndpointView>,
}

impl DeepView for EndpointSlice {
    type V = EndpointSliceView;

    open spec fn deep_view(&self) -> EndpointSliceView {
        EndpointSliceView {
            endpoints: self.endpoints.deep_view(),
        }
    }
}

impl ObjectMetaView {
    /// Metadata that say nothing.
    pub open spec fn unset() -> ObjectMetaView {
        ObjectMetaView {
            name: None,
            generate_name: None,
            namespace: None,
            labels: None,
            annotations: None,
            finalizers: None,
            deletion_requested: false,
        }
    }

    /// The most useful name at hand: the name, else the prefix from which a
    /// name is generated, else nothing.
    pub open spec fn name_any(self) -> Seq<char> {
        match (self.name, self.generate_name) {
            (Some(name), _) => name,
            (None, Some(prefix)) => prefix,
            (None, None) => Seq::empty(),
        }
    }

    /// The labels; none where there is no map of labels.
    pub open spec fn all_labels(self) -> Map<Seq<char>, Seq<char>> {
        match self.labels {
            Some(labels) => labels,
            None => Map::empty(),
        }
    }

    /// The annotations; none where there is no map of annotations.
    pub open spec fn all_annotations(self) -> Map<Seq<char>, Seq<char>> {
        match self.annotations {
            Some(annotations) => annotations,
            None => Map::empty(),
        }
    }
}

impl ObjectMeta {
    /// The most useful name at hand: the name, else the prefix from which a
    /// name is generated, else nothing.
    pub fn name_any(&self) -> (r: String)
        ensures
            r@ == self.deep_view().name_any(),
    {
        match &self.name {
            Some(name) => name.clone(),
            None => match &self.generate_name {
                Some(prefix) => prefix.clone(),
                None => String::new(),
            },
        }
    }

    /// The value of an annotation.
    pub fn annotation(&self, key: &str) -> (r: Option<&String>)
        ensures
            match r {
                Some(value) => self.deep_view().all_annotations().contains_pair(key@, value@),
                None => !self.deep_view().all_annotations().contains_key(key@),
            },
    {
        match &self.annotations {
            Some(annotations) => annotations.get(key),
            None => None,
        }
    }
}

} // verus!
