//! What the decisions about single objects come to, told in the fields of the
//! objects, in how a list grows by one entry, and in what that changes.

use crate::context::ContextView;
use crate::label_filter::{filter_holds, RuleView};
use crate::lb::{LBService, PublicNetView};
use crate::nodes::{
    addresses_of_nodes, nodes_of_pods, nodes_of_slices, NodeExclusion, NodeFilterView,
};
use crate::objects::{
    EndpointSliceView, EndpointView, NodeAddressView, NodeStatusView, NodeView, ObjectMetaView,
    PodView, ServicePortView, ServiceSpecView, ServiceView,
};
use crate::services::{PortSkip, ServiceSkip};
use crate::status::IngressView;
use crate::laws::{
    target_nodes_host_a_pod, target_nodes_host_a_ready_endpoint,
    targets_are_the_addresses_of_the_nodes,
};
use vstd::prelude::*;

verus! {

/// An object that names its namespace is in that namespace, whatever the default
/// is; only one that names none is in the default namespace.
pub proof fn the_own_namespace_counts(ctx: ContextView, meta: ObjectMetaView)
    ensures
        meta.namespace matches Some(own) ==> ctx.namespace_of(meta) == own,
        meta.namespace is None ==> ctx.namespace_of(meta) == ctx.default_namespace,
{
}

/// An object goes by its name, whatever else it says; by the prefix of a name to
/// be generated only if it has no name; and by nothing if it has neither.
pub proof fn an_object_goes_by_its_name(meta: ObjectMetaView)
    ensures
        meta.name matches Some(name) ==> meta.name_any() == name,
        meta.name is None ==> (meta.generate_name matches Some(prefix) ==> meta.name_any()
            == prefix),
        meta.name is None && meta.generate_name is None ==> meta.name_any().len() == 0,
{
}

/// Metadata that say nothing have no field set and ask for no deletion.
pub proof fn unset_metadata_say_nothing()
    ensures
        ({
            let unset = ObjectMetaView::unset();
            &&& unset.name is None && unset.generate_name is None && unset.namespace is None
            &&& unset.labels is None && unset.annotations is None && unset.finalizers is None
            &&& !unset.deletion_requested
        }),
{
}

/// A label or an annotation is there exactly if the object lists it, with the
/// value that it lists.
pub proof fn labels_and_annotations_are_those_listed(
    meta: ObjectMetaView,
    key: Seq<char>,
    value: Seq<char>,
)
    ensures
        meta.all_labels().contains_pair(key, value) <==> meta.labels is Some
            && meta.labels->0.contains_key(key) && meta.labels->0[key] == value,
        meta.all_labels().contains_key(key) <==> meta.labels is Some
            && meta.labels->0.contains_key(key),
        meta.all_annotations().contains_pair(key, value) <==> meta.annotations is Some
            && meta.annotations->0.contains_key(key) && meta.annotations->0[key] == value,
        meta.all_annotations().contains_key(key) <==> meta.annotations is Some
            && meta.annotations->0.contains_key(key),
{
}

/// A service is served exactly if it is of the type `LoadBalancer` and names no
/// class, or the class `robotlb`. Its type is the reason if the type is another,
/// and its class if only the class is another's.
pub proof fn load_balancers_of_the_own_class_are_served(svc: ServiceView)
    ensures
        svc.is_served() <==> {
            &&& svc.spec is Some
            &&& svc.spec->0.type_ == Some("LoadBalancer"@)
            &&& svc.spec->0.load_balancer_class is None || svc.spec->0.load_balancer_class == Some(
                "robotlb"@,
            )
        },
        svc.skip() == Some(ServiceSkip::Type) <==> !(svc.spec is Some && svc.spec->0.type_ == Some(
            "LoadBalancer"@,
        )),
        svc.skip() == Some(ServiceSkip::Class) <==> {
            &&& svc.spec is Some
            &&& svc.spec->0.type_ == Some("LoadBalancer"@)
            &&& svc.spec->0.load_balancer_class is Some
            &&& svc.spec->0.load_balancer_class != Some("robotlb"@)
        },
{
}

/// The policy is local exactly if the service says `Local`.
pub proof fn only_the_word_local_makes_a_policy_local(svc: ServiceView)
    ensures
        svc.is_local_traffic_policy() <==> svc.spec is Some
            && svc.spec->0.external_traffic_policy == Some("Local"@),
{
}

/// A service selects pods exactly if it has a selector with an entry, and then
/// that whole selector is what its pods must meet.
pub proof fn a_selector_with_an_entry_selects_pods(
    svc: ServiceView,
    selector: Map<Seq<char>, Seq<char>>,
)
    ensures
        svc.pod_selector() == Some(selector) <==> {
            &&& svc.spec is Some
            &&& svc.spec->0.selector == Some(selector)
            &&& exists|key: Seq<char>| #[trigger] selector.contains_key(key)
        },
        svc.pod_selector() is None <==> svc.spec is None || svc.spec->0.selector is None || (
        forall|key: Seq<char>| !(#[trigger] svc.spec->0.selector->0.contains_key(key))),
{
    if selector != Map::<Seq<char>, Seq<char>>::empty() {
        if forall|key: Seq<char>| !(#[trigger] selector.contains_key(key)) {
            assert(selector =~= Map::empty());
        }
    }
    if svc.spec is Some && svc.spec->0.selector is Some {
        let own = svc.spec->0.selector->0;
        if forall|key: Seq<char>| !(#[trigger] own.contains_key(key)) {
            assert(own =~= Map::empty());
        }
    }
}

/// Of a service that lists ports, a pair of ports is exposed exactly if one of the
/// listed ports, at any place of the list, asks for it. A service that lists none
/// exposes none.
pub proof fn every_listed_port_can_be_exposed(svc: ServiceView, listen_port: i32, target_port: i32)
    ensures
        svc.spec is Some && svc.spec->0.ports is Some ==> (svc.lb_services().contains(
            (LBService { listen_port, target_port }),
        ) <==> exists|i: int|
            0 <= i < svc.spec->0.ports->0.len() && (#[trigger] svc.spec->0.ports->0[i]).port
                == listen_port && svc.spec->0.ports->0[i].node_port == Some(target_port) && (
            svc.spec->0.ports->0[i].protocol is None || svc.spec->0.ports->0[i].protocol == Some(
                "TCP"@,
            ))),
        svc.spec is None || svc.spec->0.ports is None ==> svc.lb_services().len() == 0,
{
    crate::laws::exactly_the_tcp_node_ports_are_exposed(svc, LBService { listen_port, target_port });
    if svc.spec is Some && svc.spec->0.ports is Some {
        assert(svc.all_ports() == svc.spec->0.ports->0);
    }
}

/// One more port at the end of the list adds one more exposed port at the end if
/// it is for TCP, or for no protocol in particular, and has a node port. Else it
/// changes nothing. What was exposed before stays as it was.
pub proof fn one_more_port_adds_at_most_itself(
    svc: ServiceView,
    spec: ServiceSpecView,
    ports: Seq<ServicePortView>,
    port: ServicePortView,
)
    requires
        svc.spec == Some(spec),
        spec.ports == Some(ports),
    ensures
        ({
            let more = ServiceView {
                spec: Some(ServiceSpecView { ports: Some(ports.push(port)), ..spec }),
                ..svc
            };
            let tcp = port.protocol is None || port.protocol == Some("TCP"@);
            &&& ports.len() == 0 ==> svc.lb_services().len() == 0
            &&& tcp && port.node_port is Some ==> more.lb_services() == svc.lb_services().push(
                (LBService { listen_port: port.port, target_port: port.node_port->0 }),
            )
            &&& !(tcp && port.node_port is Some) ==> more.lb_services() == svc.lb_services()
        }),
{
    assert(ports.push(port).drop_last() =~= ports);
}

/// A port is left out for its protocol exactly if it names one that is not TCP,
/// and for want of a node port exactly if that is all it lacks.
pub proof fn why_a_port_is_left_out(port: ServicePortView)
    ensures
        port.skip() == Some(PortSkip::Protocol) <==> port.protocol is Some && port.protocol != Some(
            "TCP"@,
        ),
        port.skip() == Some(PortSkip::NoNodePort) <==> (port.protocol is None || port.protocol
            == Some("TCP"@)) && port.node_port is None,
        port.lb_service() is Some <==> (port.protocol is None || port.protocol == Some("TCP"@))
            && port.node_port is Some,
        port.lb_service() matches Some(service) ==> service.listen_port == port.port
            && service.target_port == port.node_port->0,
{
}

/// A node may be a target exactly if it does not carry the label that keeps it
/// out and is not cordoned. A cordoned node is out whatever its labels are, and a
/// labelled one whether it is cordoned or not.
pub proof fn cordoned_and_labelled_nodes_are_out(node: NodeView)
    ensures
        ({
            let labelled = node.metadata.labels is Some && node.metadata.labels->0.contains_key(
                "node.kubernetes.io/exclude-from-external-load-balancers"@,
            );
            let cordoned = node.spec is Some && node.spec->0.unschedulable == Some(true);
            &&& node.is_lb_eligible() <==> !labelled && !cordoned
            &&& NodeFilterView::Eligible.admits(node) <==> !labelled && !cordoned
            &&& cordoned ==> !NodeFilterView::Eligible.admits(node)
            &&& labelled ==> !NodeFilterView::Eligible.admits(node)
            &&& node.exclusion() == Some(NodeExclusion::Labelled) <==> labelled
            &&& node.exclusion() == Some(NodeExclusion::Unschedulable) <==> cordoned && !labelled
        }),
{
}

/// Names admit the nodes that go by them; rules admit the nodes whose labels meet
/// every one of them, where a node without labels has none.
pub proof fn names_and_rules_admit_nodes(
    names: Set<Seq<char>>,
    rules: Seq<RuleView>,
    node: NodeView,
)
    ensures
        node.metadata.name matches Some(name) ==> (NodeFilterView::Named(names).admits(node)
            <==> names.contains(name)),
        node.metadata.name is None ==> (node.metadata.generate_name matches Some(prefix) ==> (
        NodeFilterView::Named(names).admits(node) <==> names.contains(prefix))),
        node.metadata.name is None && node.metadata.generate_name is None ==> (
        NodeFilterView::Named(names).admits(node) <==> names.contains(Seq::empty())),
        node.metadata.labels matches Some(labels) ==> (NodeFilterView::Labelled(rules).admits(node)
            <==> forall|i: int| 0 <= i < rules.len() ==> (#[trigger] rules[i]).holds(labels)),
        node.metadata.labels is None ==> (NodeFilterView::Labelled(rules).admits(node)
            <==> filter_holds(rules, Map::empty())),
{
}

/// One more node at the end of the list is selected, after those before it, if
/// the filter admits it, and else changes nothing.
pub proof fn one_more_node_is_selected_or_not(
    filter: NodeFilterView,
    nodes: Seq<NodeView>,
    node: NodeView,
)
    ensures
        filter.select(Seq::empty()).len() == 0,
        filter.admits(node) ==> filter.select(nodes.push(node)) == filter.select(nodes).push(node),
        !filter.admits(node) ==> filter.select(nodes.push(node)) == filter.select(nodes),
{
    let pred = |n: NodeView| filter.admits(n);
    nodes.lemma_filter_push(node, pred);
    assert(Seq::<NodeView>::empty().filter(pred).len() == 0) by {
        reveal(Seq::filter);
    }
}

/// A node is looked for exactly if some pod, at any place of the list, says that
/// it runs there.
pub proof fn pods_tell_their_nodes(pods: Seq<PodView>, name: Seq<char>)
    ensures
        nodes_of_pods(pods).contains(name) <==> exists|i: int|
            0 <= i < pods.len() && (#[trigger] pods[i]).spec is Some && pods[i].spec->0.node_name
                == Some(name),
{
    target_nodes_host_a_pod(pods, name);
    if nodes_of_pods(pods).contains(name) {
        let i = choose|i: int| 0 <= i < pods.len() && (#[trigger] pods[i]).node() == Some(name);
        assert(pods[i].spec is Some);
    }
    if exists|i: int|
        0 <= i < pods.len() && (#[trigger] pods[i]).spec is Some && pods[i].spec->0.node_name
            == Some(name) {
        let i = choose|i: int|
            0 <= i < pods.len() && (#[trigger] pods[i]).spec is Some && pods[i].spec->0.node_name
                == Some(name);
        assert(pods[i].node() == Some(name));
    }
}

/// A node is looked for exactly if some endpoint of some slice, at any place,
/// names it and does not say that it is not ready.
pub proof fn endpoints_tell_their_nodes(slices: Seq<EndpointSliceView>, name: Seq<char>)
    ensures
        nodes_of_slices(slices).contains(name) <==> exists|i: int, j: int|
            0 <= i < slices.len() && 0 <= j < slices[i].endpoints.len() && (
            #[trigger] slices[i].endpoints[j]).node_name == Some(name) && !(
            slices[i].endpoints[j].conditions is Some
                && slices[i].endpoints[j].conditions->0.ready == Some(false)),
{
    target_nodes_host_a_ready_endpoint(slices, name);
    if nodes_of_slices(slices).contains(name) {
        let (i, j) = choose|i: int, j: int|
            0 <= i < slices.len() && 0 <= j < slices[i].endpoints.len() && (
            #[trigger] slices[i].endpoints[j]).is_ready() && slices[i].endpoints[j].node_name
                == Some(name);
        assert(slices[i].endpoints[j].node_name == Some(name));
    }
    if exists|i: int, j: int|
        0 <= i < slices.len() && 0 <= j < slices[i].endpoints.len() && (
        #[trigger] slices[i].endpoints[j]).node_name == Some(name) && !(
        slices[i].endpoints[j].conditions is Some && slices[i].endpoints[j].conditions->0.ready
            == Some(false)) {
        let (i, j) = choose|i: int, j: int|
            0 <= i < slices.len() && 0 <= j < slices[i].endpoints.len() && (
            #[trigger] slices[i].endpoints[j]).node_name == Some(name) && !(
            slices[i].endpoints[j].conditions is Some && slices[i].endpoints[j].conditions->0.ready
                == Some(false));
        assert(slices[i].endpoints[j].is_ready());
    }
}

/// An endpoint takes traffic unless its conditions say that it is not ready.
pub proof fn an_endpoint_is_ready_unless_it_denies_it(endpoint: EndpointView)
    ensures
        endpoint.is_ready() <==> !(endpoint.conditions is Some && endpoint.conditions->0.ready
            == Some(false)),
{
}

/// An address is among those of a list of nodes exactly if the status of some
/// node, at any place of the list, lists it under the asked type.
pub proof fn every_node_counts(nodes: Seq<NodeView>, ip_type: Seq<char>, address: Seq<char>)
    ensures
        addresses_of_nodes(nodes, ip_type).contains(address) <==> exists|i: int, j: int|
            0 <= i < nodes.len() && nodes[i].status is Some && nodes[i].status->0.addresses is Some
                && 0 <= j < nodes[i].status->0.addresses->0.len() && (
            #[trigger] nodes[i].status->0.addresses->0[j]).type_ == ip_type
                && nodes[i].status->0.addresses->0[j].address == address,
{
    targets_are_the_addresses_of_the_nodes(nodes, ip_type, address);
    let wanted = NodeAddressView { type_: ip_type, address };
    if addresses_of_nodes(nodes, ip_type).contains(address) {
        let (i, j) = choose|i: int, j: int|
            0 <= i < nodes.len() && 0 <= j < nodes[i].all_addresses().len()
                && #[trigger] nodes[i].all_addresses()[j] == wanted;
        assert(nodes[i].status->0.addresses->0[j] == wanted);
    }
    if exists|i: int, j: int|
        0 <= i < nodes.len() && nodes[i].status is Some && nodes[i].status->0.addresses is Some
            && 0 <= j < nodes[i].status->0.addresses->0.len() && (
        #[trigger] nodes[i].status->0.addresses->0[j]).type_ == ip_type
            && nodes[i].status->0.addresses->0[j].address == address {
        let (i, j) = choose|i: int, j: int|
            0 <= i < nodes.len() && nodes[i].status is Some && nodes[i].status->0.addresses is Some
                && 0 <= j < nodes[i].status->0.addresses->0.len() && (
            #[trigger] nodes[i].status->0.addresses->0[j]).type_ == ip_type
                && nodes[i].status->0.addresses->0[j].address == address;
        assert(nodes[i].all_addresses()[j] == wanted);
    }
}

/// The addresses of two lists of nodes, one after the other, are those of the
/// first and then those of the second. No nodes have no addresses, and neither
/// has a node whose status lists none.
pub proof fn addresses_come_node_by_node(
    first: Seq<NodeView>,
    second: Seq<NodeView>,
    ip_type: Seq<char>,
    node: NodeView,
)
    ensures
        addresses_of_nodes(first + second, ip_type) == addresses_of_nodes(first, ip_type)
            + addresses_of_nodes(second, ip_type),
        addresses_of_nodes(Seq::empty(), ip_type).len() == 0,
        node.status is None || node.status->0.addresses is None
            || node.status->0.addresses->0.len() == 0 ==> addresses_of_nodes(
            seq![node],
            ip_type,
        ).len() == 0,
    decreases second.len(),
{
    let f = |n: NodeView| n.addresses_of_type(ip_type);
    assert(Seq::<NodeView>::empty().map_values(f) =~= Seq::empty());
    lemma_addresses_of_one(node, ip_type);
    if second.len() == 0 {
        assert(first + second =~= first);
        assert(second =~= Seq::empty());
        assert(addresses_of_nodes(first, ip_type) + addresses_of_nodes(second, ip_type)
            =~= addresses_of_nodes(first, ip_type));
    } else {
        let rest = second.drop_last();
        let last = second.last();
        addresses_come_node_by_node(first, rest, ip_type, node);
        assert((first + second) =~= (first + rest).push(last));
        assert(second =~= rest.push(last));
        lemma_addresses_push(first + rest, last, ip_type);
        lemma_addresses_push(rest, last, ip_type);
        assert(addresses_of_nodes(first + second, ip_type) =~= addresses_of_nodes(first, ip_type)
            + addresses_of_nodes(second, ip_type));
    }
}

proof fn lemma_addresses_push(nodes: Seq<NodeView>, node: NodeView, ip_type: Seq<char>)
    ensures
        addresses_of_nodes(nodes.push(node), ip_type) == addresses_of_nodes(nodes, ip_type)
            + node.addresses_of_type(ip_type),
{
    let f = |n: NodeView| n.addresses_of_type(ip_type);
    assert(nodes.push(node).map_values(f) =~= nodes.map_values(f).push(f(node)));
    nodes.map_values(f).lemma_flatten_push(f(node));
}

proof fn lemma_addresses_of_one(node: NodeView, ip_type: Seq<char>)
    ensures
        addresses_of_nodes(seq![node], ip_type) == node.addresses_of_type(ip_type),
{
    let none = Seq::<NodeView>::empty();
    let f = |n: NodeView| n.addresses_of_type(ip_type);
    lemma_addresses_push(none, node, ip_type);
    assert(none.push(node) =~= seq![node]);
    assert(none.map_values(f) =~= Seq::empty());
    assert(addresses_of_nodes(seq![node], ip_type) =~= node.addresses_of_type(ip_type));
}

/// One more address at the end of those of a node comes at the end if it is of
/// the asked type, and else changes nothing.
pub proof fn one_more_address_adds_at_most_itself(
    node: NodeView,
    addresses: Seq<NodeAddressView>,
    address: NodeAddressView,
    ip_type: Seq<char>,
)
    requires
        node.status == Some((NodeStatusView { addresses: Some(addresses) })),
    ensures
        ({
            let more = NodeView {
                status: Some(NodeStatusView { addresses: Some(addresses.push(address)) }),
                ..node
            };
            let before = addresses_of_nodes(seq![node], ip_type);
            let after = addresses_of_nodes(seq![more], ip_type);
            &&& address.type_ == ip_type ==> after == before.push(address.address)
            &&& address.type_ != ip_type ==> after == before
        }),
{
    let more = NodeView {
        status: Some(NodeStatusView { addresses: Some(addresses.push(address)) }),
        ..node
    };
    lemma_addresses_of_one(node, ip_type);
    lemma_addresses_of_one(more, ip_type);
    assert(addresses.push(address).drop_last() =~= addresses);
    assert(node.all_addresses() == addresses);
    assert(more.all_addresses() == addresses.push(address));
}

/// The finalizer of this operator is `robotlb/finalizer`, and a service carries
/// it exactly if it lists it, at any place of the list.
pub proof fn a_listed_finalizer_is_found(svc: ServiceView)
    ensures
        svc.has_finalizer() <==> svc.metadata.finalizers is Some && exists|i: int|
            0 <= i < svc.metadata.finalizers->0.len() && #[trigger] svc.metadata.finalizers->0[i]
                == "robotlb/finalizer"@,
{
}

/// With the finalizer of this operator a service lists what it listed, in the
/// same order, and then that finalizer. Without it, it lists every other one that
/// it listed, in the same order.
pub proof fn finalizers_are_added_last_and_removed_alone(
    svc: ServiceView,
    finalizers: Seq<Seq<char>>,
    finalizer: Seq<char>,
)
    requires
        svc.metadata.finalizers == Some(finalizers),
    ensures
        ({
            let more = ServiceView {
                metadata: ObjectMetaView {
                    finalizers: Some(finalizers.push(finalizer)),
                    ..svc.metadata
                },
                ..svc
            };
            &&& svc.finalizers_with_ours() == finalizers.push("robotlb/finalizer"@)
            &&& finalizers.len() == 0 ==> svc.finalizers_without_ours().len() == 0
            &&& finalizer == "robotlb/finalizer"@ ==> more.finalizers_without_ours()
                == svc.finalizers_without_ours()
            &&& finalizer != "robotlb/finalizer"@ ==> more.finalizers_without_ours()
                == svc.finalizers_without_ours().push(finalizer)
        }),
{
    let ours = seq!["robotlb/finalizer"@];
    let pred = |s: Seq<char>| !ours.contains(s);
    assert(ours[0] == "robotlb/finalizer"@);
    assert(ours.contains(finalizer) <==> finalizer == "robotlb/finalizer"@);
    finalizers.lemma_filter_push(finalizer, pred);
    if finalizers.len() == 0 {
        reveal(Seq::filter);
    }
}

/// A service without a list of finalizers gets one with that of this operator
/// alone, and has none to keep.
pub proof fn a_first_finalizer_stands_alone(svc: ServiceView)
    requires
        svc.metadata.finalizers is None,
    ensures
        svc.finalizers_with_ours() == seq!["robotlb/finalizer"@],
        svc.finalizers_without_ours().len() == 0,
{
    reveal(Seq::filter);
    assert(svc.finalizers_with_ours() =~= seq!["robotlb/finalizer"@]);
}

/// A load balancer is named, and put into a network, as the annotations of its
/// service say; else it has the name of the service and the default network.
pub proof fn annotations_decide_name_and_network(
    svc: ServiceView,
    default_network: Option<Seq<char>>,
)
    ensures
        ({
            let asked = |key: Seq<char>|
                svc.metadata.annotations is Some && svc.metadata.annotations->0.contains_key(key);
            let (name, network) = ("robotlb/balancer"@, "robotlb/lb-network"@);
            &&& asked(name) ==> svc.balancer_name() == svc.metadata.annotations->0[name]
            &&& !asked(name) ==> (svc.metadata.name matches Some(own) ==> svc.balancer_name()
                == own)
            &&& !asked(name) ==> svc.balancer_name() == svc.metadata.name_any()
            &&& asked(network) ==> svc.network_name(default_network) == Some(
                svc.metadata.annotations->0[network],
            )
            &&& !asked(network) ==> svc.network_name(default_network) == default_network
        }),
{
}

/// What is reported of the public addresses: the IPv4 address if there is one,
/// then, on request, the IPv6 address if there is one, each with its own name if
/// it has one, and nothing else.
pub proof fn the_public_addresses_are_reported(net: PublicNetView, ipv6_ingress: bool)
    ensures
        ({
            let ingress = net.ingress(ipv6_ingress);
            let v4 = net.ipv4.ip matches Some(Some(_));
            let v6 = ipv6_ingress && (net.ipv6.ip matches Some(Some(_)));
            let name = |dns: Option<Option<Seq<char>>>|
                if dns is Some && dns->0 is Some {
                    Some(dns->0->0)
                } else {
                    None
                };
            let first = IngressView {
                ip: net.ipv4.ip->0->0,
                dns: name(net.ipv4.dns_ptr),
                ip_mode: "VIP"@,
            };
            let second = IngressView {
                ip: net.ipv6.ip->0->0,
                dns: name(net.ipv6.dns_ptr),
                ip_mode: "VIP"@,
            };
            &&& v4 && v6 ==> ingress == seq![first, second]
            &&& v4 && !v6 ==> ingress == seq![first]
            &&& !v4 && v6 ==> ingress == seq![second]
            &&& !v4 && !v6 ==> ingress.len() == 0
        }),
{
    assert(net.ipv4.ingress() + Seq::empty() =~= net.ipv4.ingress());
}

} // verus!
