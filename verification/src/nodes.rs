//! Which nodes of the cluster a load balancer sends its traffic to.

use crate::consts::EXCLUDE_FROM_LB_LABEL_NAME;
use crate::label_filter::{filter_holds, LabelFilter, RuleView};
use crate::objects::{
    Endpoint, EndpointSlice, EndpointSliceView, EndpointView, Node, NodeAddressView, NodeView, Pod,
    PodView,
};
use crate::string_map::StringMap;
use vstd::hash_set::StringHashSet;
use vstd::prelude::*;

verus! {

impl PodView {
    /// The node on which the pod runs.
    pub open spec fn node(self) -> Option<Seq<char>> {
        match self.spec {
            Some(spec) => spec.node_name,
            None => None,
        }
    }
}

impl EndpointView {
    /// Whether the endpoint takes traffic: it does unless it says otherwise.
    pub open spec fn is_ready(self) -> bool {
        match self.conditions {
            Some(conditions) => conditions.ready != Some(false),
            None => true,
        }
    }

    /// The node on which the endpoint runs, if it takes traffic.
    pub open spec fn ready_node(self) -> Option<Seq<char>> {
        if self.is_ready() {
            self.node_name
        } else {
            None
        }
    }
}

/// Why a node may not be a target.
#[derive(Debug, Clone, Copy, PartialEq, Eq, Structural)]
pub enum NodeExclusion {
    /// It carries the label that keeps it out of external load balancers.
    Labelled,
    /// It is cordoned.
    Unschedulable,
}

impl NodeView {
    /// Why it may not be a target, if it may not. The label is looked at first.
    pub open spec fn exclusion(self) -> Option<NodeExclusion> {
        if self.metadata.all_labels().contains_key(EXCLUDE_FROM_LB_LABEL_NAME@) {
            Some(NodeExclusion::Labelled)
        } else if self.is_lb_eligible() {
            None
        } else {
            Some(NodeExclusion::Unschedulable)
        }
    }

    /// Whether the node may be a target: it carries no label that keeps it out
    /// of external load balancers, and it is not cordoned.
    pub open spec fn is_lb_eligible(self) -> bool {
        &&& !self.metadata.all_labels().contains_key(EXCLUDE_FROM_LB_LABEL_NAME@)
        &&& !(self.spec is Some && self.spec->0.unschedulable == Some(true))
    }

    /// Its addresses; none where its status reports none.
    pub open spec fn all_addresses(self) -> Seq<NodeAddressView> {
        match self.status {
            Some(status) => match status.addresses {
                Some(addresses) => addresses,
                None => Seq::empty(),
            },
            None => Seq::empty(),
        }
    }

    /// Its addresses of one type, in the order of its addresses.
    pub open spec fn addresses_of_type(self, ip_type: Seq<char>) -> Seq<Seq<char>> {
        self.all_addresses().filter_map(
            |a: NodeAddressView|
                if a.type_ == ip_type {
                    Some(a.address)
                } else {
                    None
                },
        )
    }
}

/// The nodes on which the pods run.
pub open spec fn nodes_of_pods(pods: Seq<PodView>) -> Set<Seq<char>> {
    pods.filter_map(|pod: PodView| pod.node()).to_set()
}

/// The endpoints of the slices, slice by slice.
pub open spec fn all_endpoints(slices: Seq<EndpointSliceView>) -> Seq<EndpointView> {
    slices.map_values(|slice: EndpointSliceView| slice.endpoints).flatten()
}

/// The nodes on which the endpoints of the slices that take traffic run.
pub open spec fn nodes_of_slices(slices: Seq<EndpointSliceView>) -> Set<Seq<char>> {
    all_endpoints(slices).filter_map(|e: EndpointView| e.ready_node()).to_set()
}

/// The addresses of one type of all nodes, node by node.
pub open spec fn addresses_of_nodes(nodes: Seq<NodeView>, ip_type: Seq<char>) -> Seq<Seq<char>> {
    nodes.map_values(|node: NodeView| node.addresses_of_type(ip_type)).flatten()
}

/// Which nodes become targets.
pub enum NodeFilter {
    /// The nodes of these names.
    Named(StringHashSet),
    /// The nodes whose labels meet the filter.
    Labelled(LabelFilter),
    /// Every node that may be a target at all.
    Eligible,
}

/// What a [`NodeFilter`] says.
pub enum NodeFilterView {
    Named(Set<Seq<char>>),
    Labelled(Seq<RuleView>),
    Eligible,
}

impl DeepView for NodeFilter {
    type V = NodeFilterView;

    open spec fn deep_view(&self) -> NodeFilterView {
        match self {
            NodeFilter::Named(names) => NodeFilterView::Named(names@),
            NodeFilter::Labelled(filter) => NodeFilterView::Labelled(filter.deep_view()),
            NodeFilter::Eligible => NodeFilterView::Eligible,
        }
    }
}

impl NodeFilterView {
    /// Whether a node becomes a target.
    pub open spec fn admits(self, node: NodeView) -> bool {
        match self {
            NodeFilterView::Named(names) => names.contains(node.metadata.name_any()),
            NodeFilterView::Labelled(rules) => filter_holds(rules, node.metadata.all_labels()),
            NodeFilterView::Eligible => node.is_lb_eligible(),
        }
    }

    /// The nodes that become targets, in the order of `nodes`.
    pub open spec fn select(self, nodes: Seq<NodeView>) -> Seq<NodeView> {
        nodes.filter(|node: NodeView| self.admits(node))
    }
}

/// Why a node may not be used as a load balancer target, if it may not.
pub fn why_not_eligible(node: &Node) -> (r: Option<NodeExclusion>)
    ensures
        r == node.deep_view().exclusion(),
{
    if let Some(labels) = &node.metadata.labels {
        if labels.contains_key(EXCLUDE_FROM_LB_LABEL_NAME) {
            return Some(NodeExclusion::Labelled);
        }
    }
    if let Some(spec) = &node.spec {
        if let Some(true) = spec.unschedulable {
            return Some(NodeExclusion::Unschedulable);
        }
    }
    None
}

/// Whether a node may be used as a load balancer target. Cordoned nodes are
/// draining, and the exclusion label is how a cluster declares that a node must
/// stay out of external load balancers.
pub fn is_lb_eligible_node(node: &Node) -> (r: bool)
    ensures
        r == node.deep_view().is_lb_eligible(),
{
    why_not_eligible(node).is_none()
}

impl NodeFilter {
    /// Whether a node becomes a target.
    pub fn admits(&self, node: &Node) -> (r: bool)
        ensures
            r == self.deep_view().admits(node.deep_view()),
    {
        match self {
            NodeFilter::Named(names) => names.contains(node.metadata.name_any().as_str()),
            NodeFilter::Labelled(filter) => match &node.metadata.labels {
                Some(labels) => filter.check(labels),
                None => filter.check(&StringMap::new()),
            },
            NodeFilter::Eligible => is_lb_eligible_node(node),
        }
    }

    /// The nodes that become targets, in the order of `nodes`.
    pub fn select(&self, nodes: Vec<Node>) -> (r: Vec<Node>)
        ensures
            r.deep_view() == self.deep_view().select(nodes.deep_view()),
    {
        let ghost all = nodes.deep_view();
        let ghost pred = |node: NodeView| self.deep_view().admits(node);
        let mut selected: Vec<Node> = Vec::new();
        assert(selected.deep_view() =~= all.take(0).filter(pred));
        for node in it: nodes
            invariant
                all == it.seq().map_values(|node: Node| node.deep_view()),
                pred == (|node: NodeView| self.deep_view().admits(node)),
                selected.deep_view() == all.take(it.index()).filter(pred),
        {
            let ghost before = selected.deep_view();
            let ghost view = node.deep_view();
            if self.admits(&node) {
                selected.push(node);
                assert(selected.deep_view() =~= before.push(view));
            }
            proof {
                assert(all.take(it.index() + 1) =~= all.take(it.index()).push(view));
                all.take(it.index()).lemma_filter_push(view, pred);
            }
        }
        assert(all.take(all.len() as int) =~= all);
        selected
    }
}

/// The nodes on which the pods run.
pub fn target_nodes_of_pods(pods: &Vec<Pod>) -> (r: StringHashSet)
    ensures
        r@ == nodes_of_pods(pods.deep_view()),
{
    let ghost f = |pod: PodView| pod.node();
    let ghost all = pods.deep_view();
    let mut names = StringHashSet::new();
    let mut i: usize = 0;
    assert(all.take(0).filter_map(f) =~= Seq::empty());
    assert(names@ =~= all.take(0).filter_map(f).to_set());
    while i < pods.len()
        invariant
            i <= pods@.len(),
            all == pods.deep_view(),
            f == (|pod: PodView| pod.node()),
            names@ == all.take(i as int).filter_map(f).to_set(),
        decreases pods@.len() - i,
    {
        proof {
            all.lemma_filter_map_take_succ(f, i as int);
        }
        if let Some(spec) = &pods[i].spec {
            if let Some(name) = &spec.node_name {
                names.insert(name.clone());
                proof {
                    all.take(i as int).filter_map(f).lemma_push_to_set_commute(name@);
                    assert(all.take(i as int).filter_map(f) + seq![name@] =~= all.take(
                        i as int,
                    ).filter_map(f).push(name@));
                }
            }
        }
        proof {
            assert(all[i as int] == pods@[i as int].deep_view());
            if f(all[i as int]) is None {
                assert(all.take(i + 1).filter_map(f) =~= all.take(i as int).filter_map(f));
            }
        }
        i = i + 1;
    }
    assert(all.take(i as int) == all);
    names
}

fn is_ready(endpoint: &Endpoint) -> (r: bool)
    ensures
        r == endpoint.deep_view().is_ready(),
{
    match &endpoint.conditions {
        Some(conditions) => match conditions.ready {
            Some(ready) => ready,
            None => true,
        },
        None => true,
    }
}

fn add_ready_nodes(names: &mut StringHashSet, endpoints: &Vec<Endpoint>)
    ensures
        final(names)@ == old(names)@.union(
            endpoints.deep_view().filter_map(|e: EndpointView| e.ready_node()).to_set(),
        ),
{
    let ghost f = |e: EndpointView| e.ready_node();
    let ghost all = endpoints.deep_view();
    let ghost start = names@;
    let mut i: usize = 0;
    assert(all.take(0).filter_map(f) =~= Seq::empty());
    assert(names@ =~= start.union(all.take(0).filter_map(f).to_set()));
    while i < endpoints.len()
        invariant
            i <= endpoints@.len(),
            all == endpoints.deep_view(),
            f == (|e: EndpointView| e.ready_node()),
            names@ == start.union(all.take(i as int).filter_map(f).to_set()),
        decreases endpoints@.len() - i,
    {
        proof {
            all.lemma_filter_map_take_succ(f, i as int);
            assert(all[i as int] == endpoints@[i as int].deep_view());
        }
        let ghost found = all.take(i as int).filter_map(f);
        if is_ready(&endpoints[i]) {
            if let Some(name) = &endpoints[i].node_name {
                names.insert(name.clone());
                proof {
                    found.lemma_push_to_set_commute(name@);
                    assert(found + seq![name@] =~= found.push(name@));
                    assert(names@ =~= start.union(found.push(name@).to_set()));
                }
            }
        }
        proof {
            if f(all[i as int]) is None {
                assert(all.take(i + 1).filter_map(f) =~= found);
            }
        }
        i = i + 1;
    }
    assert(all.take(i as int) == all);
}

proof fn lemma_filter_map_concat<A, B>(a: Seq<A>, b: Seq<A>, f: spec_fn(A) -> Option<B>)
    ensures
        (a + b).filter_map(f) == a.filter_map(f) + b.filter_map(f),
    decreases b.len(),
{
    if b.len() == 0 {
        assert(a + b =~= a);
        assert(a.filter_map(f) + b.filter_map(f) =~= a.filter_map(f));
    } else {
        let n = (a + b).len() - 1;
        lemma_filter_map_concat(a, b.drop_last(), f);
        (a + b).lemma_filter_map_take_succ(f, n as int);
        b.lemma_filter_map_take_succ(f, b.len() - 1);
        assert((a + b).take(n as int) =~= a + b.drop_last());
        assert((a + b).take(n + 1) =~= a + b);
        assert(b.take(b.len() - 1) =~= b.drop_last());
        assert(b.take(b.len() as int) =~= b);
        assert((a + b).filter_map(f) =~= a.filter_map(f) + b.filter_map(f));
    }
}

/// The nodes on which the endpoints of the slices that take traffic run.
pub fn target_nodes_of_slices(slices: &Vec<EndpointSlice>) -> (r: StringHashSet)
    ensures
        r@ == nodes_of_slices(slices.deep_view()),
{
    let ghost f = |e: EndpointView| e.ready_node();
    let ghost all = slices.deep_view();
    let mut names = StringHashSet::new();
    let mut i: usize = 0;
    proof {
        assert(all.take(0).map_values(|slice: EndpointSliceView| slice.endpoints) =~= Seq::empty());
        assert(all_endpoints(all.take(0)) =~= Seq::empty());
        assert(all_endpoints(all.take(0)).filter_map(f) =~= Seq::empty());
        assert(names@ =~= nodes_of_slices(all.take(0)));
    }
    while i < slices.len()
        invariant
            i <= slices@.len(),
            all == slices.deep_view(),
            f == (|e: EndpointView| e.ready_node()),
            names@ == nodes_of_slices(all.take(i as int)),
        decreases slices@.len() - i,
    {
        add_ready_nodes(&mut names, &slices[i].endpoints);
        proof {
            let (done, next) = (all.take(i as int), all[i as int].endpoints);
            lemma_endpoints_push(done, all[i as int]);
            assert(all.take(i + 1) =~= done.push(all[i as int]));
            lemma_filter_map_concat(all_endpoints(done), next, f);
            lemma_to_set_concat(all_endpoints(done).filter_map(f), next.filter_map(f));
        }
        i = i + 1;
    }
    assert(all.take(i as int) == all);
    names
}

proof fn lemma_endpoints_push(slices: Seq<EndpointSliceView>, slice: EndpointSliceView)
    ensures
        all_endpoints(slices.push(slice)) == all_endpoints(slices) + slice.endpoints,
{
    let f = |slice: EndpointSliceView| slice.endpoints;
    assert(slices.push(slice).map_values(f) =~= slices.map_values(f).push(slice.endpoints));
    slices.map_values(f).lemma_flatten_push(slice.endpoints);
}

proof fn lemma_to_set_concat<A>(a: Seq<A>, b: Seq<A>)
    ensures
        (a + b).to_set() == a.to_set().union(b.to_set()),
{
    assert forall|x: A| #[trigger]
        (a + b).to_set().contains(x) == a.to_set().union(b.to_set()).contains(x) by {
        if a.contains(x) {
            let i = choose|i: int| 0 <= i < a.len() && a[i] == x;
            assert((a + b)[i] == x);
        }
        if b.contains(x) {
            let i = choose|i: int| 0 <= i < b.len() && b[i] == x;
            assert((a + b)[a.len() + i] == x);
        }
        if (a + b).contains(x) {
            let i = choose|i: int| 0 <= i < (a + b).len() && (a + b)[i] == x;
            if i < a.len() {
                assert(a[i] == x);
            } else {
                assert(b[i - a.len()] == x);
            }
        }
    }
    assert((a + b).to_set() =~= a.to_set().union(b.to_set()));
}

} // verus!
