//! What holds of targets, ports, addresses, finalizers and filters in general.

use crate::consts::FINALIZER_NAME;
use crate::error::ErrorView;
use crate::label_filter::{
    filter_holds, filter_of, lemma_split_is_not_empty, rule_of, rules_of, RuleView,
};
use crate::lb::{LBService, PublicNetView};
use crate::nodes::{
    addresses_of_nodes, all_endpoints, nodes_of_pods, nodes_of_slices, NodeFilterView,
};
use crate::objects::{
    EndpointSliceView, EndpointView, NodeAddressView, NodeView, PodView, ServicePortView,
    ServiceView,
};
use crate::text::{excluding, joined, split_at_each};
use vstd::prelude::*;

verus! {

proof fn lemma_filter_map_contains<A, B>(s: Seq<A>, f: spec_fn(A) -> Option<B>, b: B)
    ensures
        s.filter_map(f).contains(b) <==> exists|i: int|
            0 <= i < s.len() && f(#[trigger] s[i]) == Some(b),
    decreases s.len(),
{
    if s.len() == 0 {
        assert(s.filter_map(f) =~= Seq::empty());
    } else {
        let n = s.len() - 1;
        let front = s.drop_last();
        lemma_filter_map_contains(front, f, b);
        s.lemma_filter_map_take_succ(f, n as int);
        assert(s.take(n as int) =~= front);
        assert(s.take(n + 1) =~= s);
        let (whole, part) = (s.filter_map(f), front.filter_map(f));
        if part.contains(b) {
            let k = choose|k: int| 0 <= k < part.len() && part[k] == b;
            assert(whole[k] == b);
            let i = choose|i: int| 0 <= i < front.len() && f(#[trigger] front[i]) == Some(b);
            assert(s[i] == front[i]);
        }
        if f(s[n as int]) == Some(b) {
            assert(whole[part.len() as int] == b);
        }
        if whole.contains(b) {
            let k = choose|k: int| 0 <= k < whole.len() && whole[k] == b;
            if k < part.len() {
                assert(part[k] == b);
            } else {
                assert(f(s[n as int]) == Some(b));
            }
        }
        assert forall|i: int| 0 <= i < s.len() && f(#[trigger] s[i]) == Some(b) implies whole.contains(
            b,
        ) by {
            if i < n {
                assert(front[i] == s[i]);
            }
        }
    }
}

proof fn lemma_flatten_contains<A>(s: Seq<Seq<A>>, a: A)
    ensures
        s.flatten().contains(a) <==> exists|i: int|
            0 <= i < s.len() && (#[trigger] s[i]).contains(a),
    decreases s.len(),
{
    if s.len() > 0 {
        let n = s.len() - 1;
        let front = s.drop_last();
        lemma_flatten_contains(front, a);
        front.lemma_flatten_push(s.last());
        assert(front.push(s.last()) =~= s);
        let (whole, part) = (s.flatten(), front.flatten());
        assert(whole == part + s.last());
        if part.contains(a) {
            let k = choose|k: int| 0 <= k < part.len() && part[k] == a;
            assert(whole[k] == a);
            let i = choose|i: int| 0 <= i < front.len() && (#[trigger] front[i]).contains(a);
            assert(s[i] == front[i]);
        }
        if s.last().contains(a) {
            let k = choose|k: int| 0 <= k < s.last().len() && s.last()[k] == a;
            assert(whole[part.len() + k] == a);
            assert(s[n as int].contains(a));
        }
        if whole.contains(a) {
            let k = choose|k: int| 0 <= k < whole.len() && whole[k] == a;
            if k < part.len() {
                assert(part[k] == a);
            } else {
                assert(s.last()[k - part.len()] == a);
                assert(s[n as int].contains(a));
            }
        }
        assert forall|i: int| 0 <= i < s.len() && (#[trigger] s[i]).contains(a) implies whole.contains(
            a,
        ) by {
            if i < n {
                assert(front[i] == s[i]);
            }
        }
    }
}

proof fn lemma_filter_contains_exactly<A>(s: Seq<A>, pred: spec_fn(A) -> bool, a: A)
    ensures
        s.filter(pred).contains(a) <==> s.contains(a) && pred(a),
{
    let kept = s.filter(pred);
    if kept.contains(a) {
        let i = choose|i: int| 0 <= i < kept.len() && kept[i] == a;
        s.lemma_filter_pred(pred, i);
        s.lemma_filter_contains_rev(pred, a);
    }
    if s.contains(a) && pred(a) {
        let i = choose|i: int| 0 <= i < s.len() && s[i] == a;
        s.lemma_filter_contains(pred, i);
    }
}

/// A node becomes a target exactly if it is in the cluster and the filter admits it.
pub proof fn exactly_the_admitted_nodes_are_selected(
    filter: NodeFilterView,
    nodes: Seq<NodeView>,
    node: NodeView,
)
    ensures
        filter.select(nodes).contains(node) <==> nodes.contains(node) && filter.admits(node),
{
    lemma_filter_contains_exactly(nodes, |n: NodeView| filter.admits(n), node);
}

/// An address is among the targets exactly if some of the nodes has it as an
/// address of the asked type.
pub proof fn targets_are_the_addresses_of_the_nodes(
    nodes: Seq<NodeView>,
    ip_type: Seq<char>,
    address: Seq<char>,
)
    ensures
        addresses_of_nodes(nodes, ip_type).contains(address) <==> exists|i: int, j: int|
            0 <= i < nodes.len() && 0 <= j < nodes[i].all_addresses().len()
                && #[trigger] nodes[i].all_addresses()[j] == (NodeAddressView {
                type_: ip_type,
                address,
            }),
{
    let f = |node: NodeView| node.addresses_of_type(ip_type);
    let g = |a: NodeAddressView|
        if a.type_ == ip_type {
            Some(a.address)
        } else {
            None
        };
    let lists = nodes.map_values(f);
    let wanted = NodeAddressView { type_: ip_type, address };
    lemma_flatten_contains(lists, address);
    if addresses_of_nodes(nodes, ip_type).contains(address) {
        let i = choose|i: int| 0 <= i < lists.len() && (#[trigger] lists[i]).contains(address);
        lemma_filter_map_contains(nodes[i].all_addresses(), g, address);
        let all = nodes[i].all_addresses();
        let j = choose|j: int| 0 <= j < all.len() && g(#[trigger] all[j]) == Some(address);
        assert(nodes[i].all_addresses()[j] == wanted);
    }
    if exists|i: int, j: int|
        0 <= i < nodes.len() && 0 <= j < nodes[i].all_addresses().len()
            && #[trigger] nodes[i].all_addresses()[j] == wanted {
        let (i, j) = choose|i: int, j: int|
            0 <= i < nodes.len() && 0 <= j < nodes[i].all_addresses().len()
                && #[trigger] nodes[i].all_addresses()[j] == wanted;
        lemma_filter_map_contains(nodes[i].all_addresses(), g, address);
        let all = nodes[i].all_addresses();
        assert(g(all[j]) == Some(address));
        assert(lists[i].contains(address));
    }
}

/// The nodes found through pods are those on which some of the pods runs.
pub proof fn target_nodes_host_a_pod(pods: Seq<PodView>, name: Seq<char>)
    ensures
        nodes_of_pods(pods).contains(name) <==> exists|i: int|
            0 <= i < pods.len() && (#[trigger] pods[i]).node() == Some(name),
{
    let f = |pod: PodView| pod.node();
    lemma_filter_map_contains(pods, f, name);
    if exists|i: int| 0 <= i < pods.len() && (#[trigger] pods[i]).node() == Some(name) {
        let i = choose|i: int| 0 <= i < pods.len() && (#[trigger] pods[i]).node() == Some(name);
        assert(f(pods[i]) == Some(name));
    }
}

/// The nodes found through endpoint slices are those that a ready endpoint names.
/// An endpoint is ready unless it says that it is not.
pub proof fn target_nodes_host_a_ready_endpoint(slices: Seq<EndpointSliceView>, name: Seq<char>)
    ensures
        nodes_of_slices(slices).contains(name) <==> exists|i: int, j: int|
            0 <= i < slices.len() && 0 <= j < slices[i].endpoints.len()
                && (#[trigger] slices[i].endpoints[j]).is_ready()
                && slices[i].endpoints[j].node_name == Some(name),
{
    let f = |e: EndpointView| e.ready_node();
    let lists = slices.map_values(|slice: EndpointSliceView| slice.endpoints);
    let all = all_endpoints(slices);
    lemma_filter_map_contains(all, f, name);
    if nodes_of_slices(slices).contains(name) {
        let k = choose|k: int| 0 <= k < all.len() && f(#[trigger] all[k]) == Some(name);
        assert(all.contains(all[k]));
        lemma_flatten_contains(lists, all[k]);
        let i = choose|i: int| 0 <= i < lists.len() && (#[trigger] lists[i]).contains(all[k]);
        let j = choose|j: int| 0 <= j < lists[i].len() && lists[i][j] == all[k];
        assert(slices[i].endpoints[j].is_ready());
    }
    if exists|i: int, j: int|
        0 <= i < slices.len() && 0 <= j < slices[i].endpoints.len()
            && (#[trigger] slices[i].endpoints[j]).is_ready()
            && slices[i].endpoints[j].node_name == Some(name) {
        let (i, j) = choose|i: int, j: int|
            0 <= i < slices.len() && 0 <= j < slices[i].endpoints.len()
                && (#[trigger] slices[i].endpoints[j]).is_ready()
                && slices[i].endpoints[j].node_name == Some(name);
        let e = slices[i].endpoints[j];
        assert(lists[i].contains(e));
        lemma_flatten_contains(lists, e);
        let k = choose|k: int| 0 <= k < all.len() && all[k] == e;
        assert(f(all[k]) == Some(name));
    }
}

/// Looking up no names selects no nodes: a service for which no target node was
/// found gets the same targets whether or not the nodes are listed.
pub proof fn no_names_select_no_nodes(nodes: Seq<NodeView>)
    ensures
        NodeFilterView::Named(Set::empty()).select(nodes) == Seq::<NodeView>::empty(),
{
    let filter = NodeFilterView::Named(Set::empty());
    if filter.select(nodes).len() > 0 {
        let node = filter.select(nodes)[0];
        assert(filter.select(nodes).contains(node));
        exactly_the_admitted_nodes_are_selected(filter, nodes, node);
    }
    assert(filter.select(nodes) =~= Seq::empty());
}

/// A pair of ports is exposed exactly if a port of the service asks for it: one
/// for TCP, or for no protocol in particular, that has a node port.
pub proof fn exactly_the_tcp_node_ports_are_exposed(svc: ServiceView, service: LBService)
    ensures
        svc.lb_services().contains(service) <==> exists|i: int|
            0 <= i < svc.all_ports().len() && {
                let port = #[trigger] svc.all_ports()[i];
                &&& port.port == service.listen_port
                &&& port.node_port == Some(service.target_port)
                &&& port.protocol is None || port.protocol == Some("TCP"@)
            },
{
    let f = |port: ServicePortView| port.lb_service();
    let ports = svc.all_ports();
    lemma_filter_map_contains(ports, f, service);
    if svc.lb_services().contains(service) {
        let i = choose|i: int| 0 <= i < ports.len() && f(#[trigger] ports[i]) == Some(service);
        assert(ports[i].node_port == Some(service.target_port));
    }
    assert forall|i: int|
        0 <= i < ports.len() && {
            let port = #[trigger] ports[i];
            &&& port.port == service.listen_port
            &&& port.node_port == Some(service.target_port)
            &&& port.protocol is None || port.protocol == Some("TCP"@)
        } implies f(ports[i]) == Some(service) by {
    }
}

/// The IPv6 address has no part in what is reported unless it was asked for.
pub proof fn ipv6_is_reported_on_request_only(net: PublicNetView, other: PublicNetView)
    ensures
        net.ipv4 == other.ipv4 ==> net.ingress(false) == other.ingress(false),
        net.ingress(true) == net.ingress(false) + net.ipv6.ingress(),
{
}

/// A reason is given for exactly the services that are not served, the ports that
/// are not exposed, and the nodes that may not be targets.
pub proof fn what_is_left_out_has_a_reason(svc: ServiceView, port: ServicePortView, node: NodeView)
    ensures
        svc.skip() is None <==> svc.is_served(),
        port.skip() is None <==> port.lb_service() is Some,
        node.exclusion() is None <==> node.is_lb_eligible(),
{
}

/// Adding the finalizer of this operator to a service, or removing it, leaves
/// the other finalizers as they are; afterwards it is there, or gone.
pub proof fn other_finalizers_are_kept(svc: ServiceView, name: Seq<char>)
    ensures
        svc.finalizers_with_ours().contains(name) <==> svc.all_finalizers().contains(name) || name
            == FINALIZER_NAME@,
        svc.finalizers_without_ours().contains(name) <==> svc.all_finalizers().contains(name)
            && name != FINALIZER_NAME@,
{
    let all = svc.all_finalizers();
    let with = svc.finalizers_with_ours();
    assert(with.last() == FINALIZER_NAME@);
    if all.contains(name) {
        let i = choose|i: int| 0 <= i < all.len() && all[i] == name;
        assert(with[i] == name);
    }
    let ours = seq![FINALIZER_NAME@];
    assert(ours.contains(name) <==> name == FINALIZER_NAME@) by {
        assert(ours[0] == FINALIZER_NAME@);
    }
    lemma_filter_contains_exactly(all, |s: Seq<char>| !ours.contains(s), name);
}

/// Removing the finalizer undoes adding it to a service that did not carry it.
pub proof fn removing_undoes_adding_the_finalizer(before: ServiceView, after: ServiceView)
    requires
        !before.has_finalizer(),
        after.metadata.finalizers == Some(before.finalizers_with_ours()),
    ensures
        after.has_finalizer(),
        after.finalizers_without_ours() == before.all_finalizers(),
{
    let all = before.all_finalizers();
    let ours = seq![FINALIZER_NAME@];
    let pred = |s: Seq<char>| !ours.contains(s);
    assert(after.all_finalizers().last() == FINALIZER_NAME@);
    assert(ours[0] == FINALIZER_NAME@);
    all.lemma_filter_push(FINALIZER_NAME@, pred);
    assert forall|i: int| 0 <= i < all.len() implies pred(#[trigger] all[i]) by {
        assert(all.contains(all[i]));
    }
    lemma_filter_keeps_all(all, pred);
}

proof fn lemma_filter_keeps_all<A>(s: Seq<A>, pred: spec_fn(A) -> bool)
    requires
        forall|i: int| 0 <= i < s.len() ==> pred(#[trigger] s[i]),
    ensures
        s.filter(pred) == s,
    decreases s.len(),
{
    reveal(Seq::filter);
    if s.len() > 0 {
        lemma_filter_keeps_all(s.drop_last(), pred);
        assert(s.drop_last().push(s.last()) =~= s);
    } else {
        assert(s.filter(pred) =~= s);
    }
}

/// A list that loses what is not wanted and gains what is missing holds exactly
/// what is wanted.
pub proof fn removing_and_adding_reaches_what_is_wanted<A>(
    wanted: Seq<A>,
    current: Seq<A>,
    item: A,
)
    ensures
        (current.contains(item) && !excluding(current, wanted).contains(item)) || excluding(
            wanted,
            current,
        ).contains(item) <==> wanted.contains(item),
{
    lemma_filter_contains_exactly(current, |a: A| !wanted.contains(a), item);
    lemma_filter_contains_exactly(wanted, |a: A| !current.contains(a), item);
}

/// A separator splits a text into what is before it and what is after it.
pub proof fn lemma_split_concat(a: Seq<char>, b: Seq<char>, separator: char)
    ensures
        split_at_each(a.push(separator) + b, separator) == split_at_each(a, separator)
            + split_at_each(b, separator),
    decreases b.len(),
{
    let whole = a.push(separator) + b;
    if b.len() == 0 {
        assert(whole =~= a.push(separator));
        assert(whole.drop_last() =~= a);
        assert(split_at_each(a, separator).push(Seq::empty()) =~= split_at_each(a, separator)
            + split_at_each(b, separator));
    } else {
        lemma_split_concat(a, b.drop_last(), separator);
        lemma_split_is_not_empty(b.drop_last(), separator);
        assert(whole.drop_last() =~= a.push(separator) + b.drop_last());
        assert(split_at_each(whole, separator) =~= split_at_each(a, separator) + split_at_each(
            b,
            separator,
        ));
    }
}

/// The rules of two lists of texts, one after the other.
pub proof fn lemma_rules_concat(a: Seq<Seq<char>>, b: Seq<Seq<char>>)
    ensures
        rules_of(a + b) == (match (rules_of(a), rules_of(b)) {
            (Err(e), _) => Err(e),
            (Ok(_), Err(e)) => Err(e),
            (Ok(x), Ok(y)) => Ok::<Seq<RuleView>, ErrorView>(x + y),
        }),
    decreases b.len(),
{
    if b.len() == 0 {
        assert(a + b =~= a);
        if let Ok(x) = rules_of(a) {
            assert(x + Seq::<RuleView>::empty() =~= x);
        }
    } else {
        lemma_rules_concat(a, b.drop_last());
        assert((a + b).drop_last() =~= a + b.drop_last());
        if let (Ok(x), Ok(y), Some(rule)) = (
            rules_of(a),
            rules_of(b.drop_last()),
            rule_of(b.last()),
        ) {
            assert((x + y).push(rule) =~= x + y.push(rule));
        }
    }
}

/// A comma joins two filters into one that asks for both: it is a filter exactly
/// if both sides are, and it holds exactly where both hold.
pub proof fn a_comma_means_and(a: Seq<char>, b: Seq<char>, labels: Map<Seq<char>, Seq<char>>)
    ensures
        filter_of(a.push(',') + b) is Ok <==> filter_of(a) is Ok && filter_of(b) is Ok,
        filter_of(a.push(',') + b) is Ok ==> (filter_holds(
            filter_of(a.push(',') + b)->Ok_0,
            labels,
        ) <==> filter_holds(filter_of(a)->Ok_0, labels) && filter_holds(
            filter_of(b)->Ok_0,
            labels,
        )),
{
    lemma_split_concat(a, b, ',');
    lemma_rules_concat(split_at_each(a, ','), split_at_each(b, ','));
    if filter_of(a) is Ok && filter_of(b) is Ok {
        let (x, y) = (filter_of(a)->Ok_0, filter_of(b)->Ok_0);
        let both = x + y;
        if filter_holds(both, labels) {
            assert forall|i: int| 0 <= i < x.len() implies (#[trigger] x[i]).holds(labels) by {
                assert(both[i].holds(labels));
            }
            assert forall|i: int| 0 <= i < y.len() implies (#[trigger] y[i]).holds(labels) by {
                assert(both[x.len() + i].holds(labels));
            }
        }
        if filter_holds(x, labels) && filter_holds(y, labels) {
            assert forall|i: int| 0 <= i < both.len() implies (#[trigger] both[i]).holds(labels) by {
                if i < x.len() {
                    assert(x[i].holds(labels));
                } else {
                    assert(y[i - x.len()].holds(labels));
                }
            }
        }
    }
}

/// Joining what splitting gave yields the text again, and no piece holds the
/// separator.
pub proof fn joining_undoes_splitting(text: Seq<char>, separator: char)
    ensures
        joined(split_at_each(text, separator), seq![separator]) == text,
        forall|i: int|
            0 <= i < split_at_each(text, separator).len() ==> !(#[trigger] split_at_each(
                text,
                separator,
            )[i]).contains(separator),
    decreases text.len(),
{
    let pieces = split_at_each(text, separator);
    let glue = seq![separator];
    if text.len() > 0 {
        let before = split_at_each(text.drop_last(), separator);
        joining_undoes_splitting(text.drop_last(), separator);
        lemma_split_is_not_empty(text.drop_last(), separator);
        if text.last() == separator {
            assert(pieces.drop_last() =~= before);
            assert(joined(pieces, glue) =~= text);
        } else {
            assert(pieces.drop_last() =~= before.drop_last());
            assert(joined(pieces, glue) =~= joined(before, glue).push(text.last()));
            assert(joined(pieces, glue) =~= text);
            assert forall|i: int| 0 <= i < pieces.len() implies !(#[trigger] pieces[i]).contains(
                separator,
            ) by {
                if i == pieces.len() - 1 {
                    assert(!before[i].contains(separator));
                    let piece = pieces[i];
                    if piece.contains(separator) {
                        let k = choose|k: int| 0 <= k < piece.len() && piece[k] == separator;
                        if k < before[i].len() {
                            assert(before[i][k] == separator);
                        }
                    }
                } else {
                    assert(pieces[i] == before[i]);
                }
            }
        }
    } else {
        assert(joined(pieces, glue) =~= text);
    }
}

} // verus!
