//! What each step of a reconciliation leads to, told in the fields of the service,
//! the settings and the answer.

use crate::context::ContextView;
use crate::error::ErrorView;
use crate::fields::{
    a_listed_finalizer_is_found, a_selector_with_an_entry_selects_pods,
    addresses_come_node_by_node, endpoints_tell_their_nodes, every_listed_port_can_be_exposed,
    every_node_counts, load_balancers_of_the_own_class_are_served, one_more_node_is_selected_or_not,
    pods_tell_their_nodes, the_public_addresses_are_reported,
};
use crate::label_filter::filter_of;
use crate::laws::exactly_the_admitted_nodes_are_selected;
use crate::lb::{LBService, LoadBalancerView, PublicNetView};
use crate::nodes::{addresses_of_nodes, NodeFilterView};
use crate::objects::{EndpointSliceView, NodeView, PodView, ServiceView};
use crate::reconcile::{
    balanced, load_balancer_known, load_balancer_start, next, nodes_by_selector,
    nodes_dynamically, nodes_from_endpointslices, reported, service_start, Action, ReplyView,
    StepView,
};
use crate::string_map::label_selector_text;
use vstd::prelude::*;

verus! {

/// A service is taken on exactly if it is of the type `LoadBalancer` and names no
/// class, or the class `robotlb`. Any other is skipped.
pub proof fn a_run_starts_or_skips(svc: ServiceView)
    ensures
        service_start(svc) == StepView::BuildLoadBalancer <==> {
            &&& svc.spec is Some
            &&& svc.spec->0.type_ == Some("LoadBalancer"@)
            &&& svc.spec->0.load_balancer_class is None || svc.spec->0.load_balancer_class == Some(
                "robotlb"@,
            )
        },
        service_start(svc) != StepView::BuildLoadBalancer ==> service_start(svc)
            == StepView::Finish(Err(ErrorView::SkipService)),
{
    load_balancers_of_the_own_class_are_served(svc);
}

/// Once the load balancer is known, it is removed if the service is being
/// deleted. Else the finalizer is added if the service does not list it. Else the
/// reconciliation goes on as it does once the finalizer is added. The load
/// balancer is handed on as it is.
pub proof fn deletion_and_finalizer_come_first(
    lb: LoadBalancerView,
    svc: ServiceView,
    ctx: ContextView,
)
    ensures
        ({
            let after = next(StepView::BuildLoadBalancer, ReplyView::LoadBalancer(lb), svc, ctx);
            let listed = svc.metadata.finalizers is Some && exists|i: int|
                0 <= i < svc.metadata.finalizers->0.len()
                    && #[trigger] svc.metadata.finalizers->0[i] == "robotlb/finalizer"@;
            &&& after == load_balancer_known(lb, svc, ctx)
            &&& svc.metadata.deletion_requested ==> after == StepView::CleanUp { lb }
            &&& !svc.metadata.deletion_requested && !listed ==> after == StepView::AddFinalizer {
                lb,
            }
            &&& !svc.metadata.deletion_requested && listed ==> after == next(
                StepView::AddFinalizer { lb },
                ReplyView::Done,
                svc,
                ctx,
            )
        }),
{
    a_listed_finalizer_is_found(svc);
}

/// A removed load balancer is followed by the removal of the finalizer, and that
/// by waiting for a change.
pub proof fn clean_up_runs_to_its_end(lb: LoadBalancerView, svc: ServiceView, ctx: ContextView)
    ensures
        next(StepView::CleanUp { lb }, ReplyView::Done, svc, ctx) == StepView::RemoveFinalizer,
        next(StepView::RemoveFinalizer, ReplyView::Done, svc, ctx) == StepView::Finish(
            Ok(Action::AwaitChange),
        ),
{
}

/// Where the targets are looked for: under the node selector, if they are not
/// found dynamically; else among all nodes, unless the service says `Local`; else
/// among the nodes of its pods, or of its endpoints if it selects no pods.
pub proof fn settings_and_policy_decide_the_search(
    lb: LoadBalancerView,
    svc: ServiceView,
    ctx: ContextView,
)
    ensures
        ({
            let after = next(StepView::AddFinalizer { lb }, ReplyView::Done, svc, ctx);
            let local = svc.spec is Some && svc.spec->0.external_traffic_policy == Some("Local"@);
            &&& after == load_balancer_start(lb, svc, ctx)
            &&& !ctx.config.dynamic_node_selector ==> after == nodes_by_selector(lb, svc)
            &&& ctx.config.dynamic_node_selector && !local ==> after == StepView::ListNodes {
                filter: NodeFilterView::Eligible,
                lb,
            }
            &&& ctx.config.dynamic_node_selector && local ==> after == nodes_dynamically(
                lb,
                svc,
                ctx,
            )
        }),
{
}

/// A service whose selector has an entry has its pods listed: in its own
/// namespace, or in the default one if it names none, by its whole selector. Any
/// other has its endpoint slices listed.
pub proof fn pods_are_listed_where_the_service_is(
    lb: LoadBalancerView,
    svc: ServiceView,
    ctx: ContextView,
)
    ensures
        ({
            let after = nodes_dynamically(lb, svc, ctx);
            let selects = svc.spec is Some && svc.spec->0.selector is Some && exists|
                key: Seq<char>,
            | #[trigger]
                svc.spec->0.selector->0.contains_key(key);
            &&& selects && svc.metadata.namespace is Some ==> after == StepView::ListPods {
                namespace: svc.metadata.namespace->0,
                label_selector: label_selector_text(svc.spec->0.selector->0),
                lb,
            }
            &&& selects && svc.metadata.namespace is None ==> after == StepView::ListPods {
                namespace: ctx.default_namespace,
                label_selector: label_selector_text(svc.spec->0.selector->0),
                lb,
            }
            &&& !selects ==> after == nodes_from_endpointslices(lb, svc, ctx)
        }),
{
    if svc.spec is Some && svc.spec->0.selector is Some {
        a_selector_with_an_entry_selects_pods(svc, svc.spec->0.selector->0);
    }
}

/// The endpoint slices of a service are listed in its own namespace, or in the
/// default one if it names none, by the label that holds its name.
pub proof fn endpoint_slices_are_listed_where_the_service_is(
    lb: LoadBalancerView,
    svc: ServiceView,
    ctx: ContextView,
)
    ensures
        nodes_from_endpointslices(lb, svc, ctx) matches StepView::ListEndpointSlices {
            namespace,
            label_selector,
            lb: kept,
        } && {
            &&& kept == lb
            &&& svc.metadata.namespace is Some ==> namespace == svc.metadata.namespace->0
            &&& svc.metadata.namespace is None ==> namespace == ctx.default_namespace
            &&& label_selector == "kubernetes.io/service-name"@ + "="@ + svc.metadata.name_any()
            &&& svc.metadata.name is Some ==> label_selector == "kubernetes.io/service-name"@
                + "="@ + svc.metadata.name->0
        },
{
}

/// A service that does not have the annotation with the node selector is refused
/// for that. One whose selector is no filter is refused with the error of the
/// filter. For any other all nodes are listed, to be held against the filter.
pub proof fn the_node_selector_is_read_from_its_annotation(lb: LoadBalancerView, svc: ServiceView)
    ensures
        ({
            let after = nodes_by_selector(lb, svc);
            let key = "robotlb/node-selector"@;
            let annotated = svc.metadata.annotations is Some
                && svc.metadata.annotations->0.contains_key(key);
            let filter = filter_of(svc.metadata.annotations->0[key]);
            &&& !annotated ==> after == StepView::Finish(Err(ErrorView::ServiceWithoutSelector))
            &&& annotated && filter is Ok ==> after == StepView::ListNodes {
                filter: NodeFilterView::Labelled(filter->Ok_0),
                lb,
            }
            &&& annotated && filter is Err ==> after == StepView::Finish(Err(filter->Err_0))
        }),
{
}

/// Listed pods lead to the nodes on which they run, and to no others: a name is
/// looked for exactly if some of the pods says that it runs there.
pub proof fn pods_lead_to_their_nodes(
    namespace: Seq<char>,
    label_selector: Seq<char>,
    lb: LoadBalancerView,
    pods: Seq<PodView>,
    svc: ServiceView,
    ctx: ContextView,
    name: Seq<char>,
)
    ensures
        next(
            StepView::ListPods { namespace, label_selector, lb },
            ReplyView::Pods(pods),
            svc,
            ctx,
        ) matches StepView::ListNodes { filter: NodeFilterView::Named(names), lb: kept } && {
            &&& kept == lb
            &&& names.contains(name) <==> exists|i: int|
                0 <= i < pods.len() && (#[trigger] pods[i]).spec is Some
                    && pods[i].spec->0.node_name == Some(name)
        },
{
    pods_tell_their_nodes(pods, name);
}

/// Listed endpoint slices lead to the nodes that their endpoints name, but for the
/// endpoints that say that they are not ready. If that is any node at all, the
/// nodes are listed; else the load balancer is brought in line at once, with the
/// targets that it has.
pub proof fn endpoint_slices_lead_to_their_nodes(
    namespace: Seq<char>,
    label_selector: Seq<char>,
    lb: LoadBalancerView,
    slices: Seq<EndpointSliceView>,
    svc: ServiceView,
    ctx: ContextView,
    name: Seq<char>,
)
    ensures
        ({
            let after = next(
                StepView::ListEndpointSlices { namespace, label_selector, lb },
                ReplyView::EndpointSlices(slices),
                svc,
                ctx,
            );
            let named = exists|i: int, j: int|
                0 <= i < slices.len() && 0 <= j < slices[i].endpoints.len() && (
                #[trigger] slices[i].endpoints[j]).node_name == Some(name) && !(
                slices[i].endpoints[j].conditions is Some
                    && slices[i].endpoints[j].conditions->0.ready == Some(false));
            ||| after matches StepView::ListNodes { filter: NodeFilterView::Named(names), lb: kept }
                && kept == lb && (names.contains(name) <==> named) && exists|other: Seq<char>| #[trigger]
                names.contains(other)
            ||| after matches StepView::ReconcileLoadBalancer { lb: kept } && !named && kept
                == balanced(lb, Seq::empty(), svc) && kept.targets == lb.targets
        }),
{
    endpoints_tell_their_nodes(slices, name);
    let names = crate::nodes::nodes_of_slices(slices);
    if !names.is_empty() {
        if forall|other: Seq<char>| !(#[trigger] names.contains(other)) {
            assert(names =~= Set::empty());
        }
    } else {
        addresses_come_node_by_node(
            Seq::empty(),
            Seq::empty(),
            crate::reconcile::node_ip_type(lb),
            arbitrary(),
        );
        assert(balanced(lb, Seq::empty(), svc).targets =~= lb.targets);
    }
}

/// Whatever nodes a load balancer is given, it keeps its network, and its targets
/// and services are those that it had and then new ones. The new targets are the
/// addresses of all the nodes, node by node: the internal ones if it is in a
/// network, else the external ones. The new services are the exposed ports.
pub proof fn what_a_load_balancer_is_given(
    lb: LoadBalancerView,
    nodes: Seq<NodeView>,
    svc: ServiceView,
    address: Seq<char>,
    listen_port: i32,
    target_port: i32,
)
    ensures
        ({
            let given = balanced(lb, nodes, svc);
            let ip_type = if lb.network_name is Some {
                "InternalIP"@
            } else {
                "ExternalIP"@
            };
            let service = LBService { listen_port, target_port };
            &&& given.network_name == lb.network_name
            &&& given.targets == lb.targets + addresses_of_nodes(nodes, ip_type)
            &&& given.services == lb.services + svc.lb_services()
            &&& given.targets.contains(address) <==> lb.targets.contains(address) || exists|
                i: int,
                j: int,
            |
                0 <= i < nodes.len() && nodes[i].status is Some
                    && nodes[i].status->0.addresses is Some && 0 <= j
                    < nodes[i].status->0.addresses->0.len() && (
                #[trigger] nodes[i].status->0.addresses->0[j]).type_ == ip_type
                    && nodes[i].status->0.addresses->0[j].address == address
            &&& svc.spec is Some && svc.spec->0.ports is Some ==> (given.services.contains(service)
                <==> lb.services.contains(service) || exists|i: int|
                0 <= i < svc.spec->0.ports->0.len() && (#[trigger] svc.spec->0.ports->0[i]).port
                    == listen_port && svc.spec->0.ports->0[i].node_port == Some(target_port) && (
                svc.spec->0.ports->0[i].protocol is None || svc.spec->0.ports->0[i].protocol
                    == Some("TCP"@)))
            &&& svc.spec is None || svc.spec->0.ports is None ==> given.services == lb.services
        }),
{
    let given = balanced(lb, nodes, svc);
    let ip_type = if lb.network_name is Some {
        "InternalIP"@
    } else {
        "ExternalIP"@
    };
    let service = LBService { listen_port, target_port };
    let added = addresses_of_nodes(nodes, ip_type);
    every_node_counts(nodes, ip_type, address);
    lemma_concat_contains(lb.targets, added, address);
    every_listed_port_can_be_exposed(svc, listen_port, target_port);
    lemma_concat_contains(lb.services, svc.lb_services(), service);
    if svc.lb_services().len() == 0 {
        assert(given.services =~= lb.services);
    }
}

proof fn lemma_concat_contains<A>(a: Seq<A>, b: Seq<A>, x: A)
    ensures
        (a + b).contains(x) <==> a.contains(x) || b.contains(x),
{
    if a.contains(x) {
        let i = choose|i: int| 0 <= i < a.len() && a[i] == x;
        assert((a + b)[i] == x);
    }
    if b.contains(x) {
        let i = choose|i: int| 0 <= i < b.len() && b[i] == x;
        assert((a + b)[a.len() + i] == x);
    }
}

/// Listed nodes lead to a load balancer that has got an address exactly if it had
/// it, or some of the nodes that the filter admits, at any place of the list, has
/// it: as an internal address if the load balancer is in a network, else as an
/// external one.
pub proof fn nodes_become_targets(
    filter: NodeFilterView,
    lb: LoadBalancerView,
    nodes: Seq<NodeView>,
    svc: ServiceView,
    ctx: ContextView,
    address: Seq<char>,
)
    ensures
        next(StepView::ListNodes { filter, lb }, ReplyView::Nodes(nodes), svc, ctx)
            matches StepView::ReconcileLoadBalancer { lb: given } && {
            &&& given == balanced(lb, filter.select(nodes), svc)
            &&& given.targets.contains(address) <==> lb.targets.contains(address) || exists|
                i: int,
                j: int,
            |
                0 <= i < nodes.len() && filter.admits(nodes[i]) && nodes[i].status is Some
                    && nodes[i].status->0.addresses is Some && 0 <= j
                    < nodes[i].status->0.addresses->0.len() && (
                #[trigger] nodes[i].status->0.addresses->0[j]).type_ == (
                if lb.network_name is Some {
                    "InternalIP"@
                } else {
                    "ExternalIP"@
                }) && nodes[i].status->0.addresses->0[j].address == address
        },
{
    let ip_type = if lb.network_name is Some {
        "InternalIP"@
    } else {
        "ExternalIP"@
    };
    let kept = filter.select(nodes);
    what_a_load_balancer_is_given(lb, kept, svc, address, 0, 0);
    if exists|i: int, j: int|
        0 <= i < kept.len() && kept[i].status is Some && kept[i].status->0.addresses is Some && 0
            <= j < kept[i].status->0.addresses->0.len() && (
        #[trigger] kept[i].status->0.addresses->0[j]).type_ == ip_type
            && kept[i].status->0.addresses->0[j].address == address {
        let (i, j) = choose|i: int, j: int|
            0 <= i < kept.len() && kept[i].status is Some && kept[i].status->0.addresses is Some
                && 0 <= j < kept[i].status->0.addresses->0.len() && (
            #[trigger] kept[i].status->0.addresses->0[j]).type_ == ip_type
                && kept[i].status->0.addresses->0[j].address == address;
        exactly_the_admitted_nodes_are_selected(filter, nodes, kept[i]);
        let k = choose|k: int| 0 <= k < nodes.len() && nodes[k] == kept[i];
        assert(nodes[k].status->0.addresses->0[j].type_ == ip_type);
    }
    if exists|i: int, j: int|
        0 <= i < nodes.len() && filter.admits(nodes[i]) && nodes[i].status is Some
            && nodes[i].status->0.addresses is Some && 0 <= j
            < nodes[i].status->0.addresses->0.len() && (
        #[trigger] nodes[i].status->0.addresses->0[j]).type_ == ip_type
            && nodes[i].status->0.addresses->0[j].address == address {
        let (i, j) = choose|i: int, j: int|
            0 <= i < nodes.len() && filter.admits(nodes[i]) && nodes[i].status is Some
                && nodes[i].status->0.addresses is Some && 0 <= j
                < nodes[i].status->0.addresses->0.len() && (
            #[trigger] nodes[i].status->0.addresses->0[j]).type_ == ip_type
                && nodes[i].status->0.addresses->0[j].address == address;
        exactly_the_admitted_nodes_are_selected(filter, nodes, nodes[i]);
        let k = choose|k: int| 0 <= k < kept.len() && kept[k] == nodes[i];
        assert(kept[k].status->0.addresses->0[j].type_ == ip_type);
    }
}

/// One more node at the end of the list changes nothing if the filter does not
/// admit it. Else its addresses, and nothing else, are added at the end of the
/// targets.
pub proof fn one_more_node_adds_its_addresses(
    filter: NodeFilterView,
    lb: LoadBalancerView,
    nodes: Seq<NodeView>,
    node: NodeView,
    svc: ServiceView,
    ctx: ContextView,
)
    ensures
        ({
            let step = StepView::ListNodes { filter, lb };
            let before = next(step, ReplyView::Nodes(nodes), svc, ctx);
            let after = next(step, ReplyView::Nodes(nodes.push(node)), svc, ctx);
            let ip_type = if lb.network_name is Some {
                "InternalIP"@
            } else {
                "ExternalIP"@
            };
            &&& !filter.admits(node) ==> after == before
            &&& filter.admits(node) ==> after == StepView::ReconcileLoadBalancer {
                lb: LoadBalancerView {
                    targets: before->ReconcileLoadBalancer_lb.targets + addresses_of_nodes(
                        seq![node],
                        ip_type,
                    ),
                    ..before->ReconcileLoadBalancer_lb
                },
            }
        }),
{
    let ip_type = if lb.network_name is Some {
        "InternalIP"@
    } else {
        "ExternalIP"@
    };
    one_more_node_is_selected_or_not(filter, nodes, node);
    let kept = filter.select(nodes);
    addresses_come_node_by_node(kept, seq![node], ip_type, node);
    assert(kept.push(node) =~= kept + seq![node]);
    assert(lb.targets + addresses_of_nodes(kept + seq![node], ip_type) =~= (lb.targets
        + addresses_of_nodes(kept, ip_type)) + addresses_of_nodes(seq![node], ip_type));
}

/// The status is patched exactly if the load balancer exposes a port, however
/// many, and the cloud reported an IPv4 address, or an IPv6 address where that is
/// asked for. The patch is for this very service, by its own namespace and name.
/// Else the reconciliation is over, to be repeated after 30 seconds.
pub proof fn a_reachable_service_is_reported(
    lb: LoadBalancerView,
    net: PublicNetView,
    svc: ServiceView,
    ctx: ContextView,
)
    ensures
        ({
            let after = next(
                StepView::ReconcileLoadBalancer { lb },
                ReplyView::Reconciled(net),
                svc,
                ctx,
            );
            let v4 = net.ipv4.ip matches Some(Some(_));
            let v6 = ctx.config.ipv6_ingress && (net.ipv6.ip matches Some(Some(_)));
            &&& after == reported(lb, net, svc, ctx)
            &&& after is PatchStatus <==> lb.services.len() > 0 && (v4 || v6)
            &&& !(after is PatchStatus) ==> after == StepView::Finish(
                Ok(Action::Requeue { seconds: 30 }),
            )
            &&& after matches StepView::PatchStatus { namespace, name, patch } ==> {
                &&& svc.metadata.namespace is Some ==> namespace == svc.metadata.namespace->0
                &&& svc.metadata.namespace is None ==> namespace == ctx.default_namespace
                &&& svc.metadata.name is Some ==> name == svc.metadata.name->0
                &&& name == svc.metadata.name_any()
                &&& patch.status.load_balancer.ingress == net.ingress(ctx.config.ipv6_ingress)
                &&& v4 ==> patch.status.load_balancer.ingress[0].ip == net.ipv4.ip->0->0
                &&& v6 ==> patch.status.load_balancer.ingress.last().ip == net.ipv6.ip->0->0
                &&& patch.status.load_balancer.ingress.len() == (if v4 && v6 {
                    2int
                } else {
                    1
                })
            }
        }),
{
    the_public_addresses_are_reported(net, ctx.config.ipv6_ingress);
}

/// A patched status ends the reconciliation, to be repeated after 30 seconds.
pub proof fn a_reported_service_is_looked_at_again(
    step: StepView,
    svc: ServiceView,
    ctx: ContextView,
)
    requires
        step is PatchStatus,
    ensures
        next(step, ReplyView::Done, svc, ctx) == StepView::Finish(
            Ok(Action::Requeue { seconds: 30 }),
        ),
{
}

/// An answer that is not one to the call at hand changes nothing: a load balancer,
/// pods, endpoint slices, nodes or public addresses that were not asked for, and
/// plain success where something was asked for.
pub proof fn a_stray_answer_changes_nothing(
    step: StepView,
    reply: ReplyView,
    svc: ServiceView,
    ctx: ContextView,
)
    ensures
        ({
            let after = next(step, reply, svc, ctx);
            &&& reply is LoadBalancer && !(step is BuildLoadBalancer) ==> after == step
            &&& reply is Pods && !(step is ListPods) ==> after == step
            &&& reply is EndpointSlices && !(step is ListEndpointSlices) ==> after == step
            &&& reply is Nodes && !(step is ListNodes) ==> after == step
            &&& reply is Reconciled && !(step is ReconcileLoadBalancer) ==> after == step
            &&& reply is Done && !(step is CleanUp || step is RemoveFinalizer
                || step is AddFinalizer || step is PatchStatus) ==> after == step
        }),
{
}

/// A failed call ends the reconciliation with its error, whichever call it is,
/// unless the reconciliation is over; then it stays as it ended.
pub proof fn a_failure_ends_any_step(
    step: StepView,
    e: ErrorView,
    reply: ReplyView,
    svc: ServiceView,
    ctx: ContextView,
)
    ensures
        !(step is Finish) ==> next(step, ReplyView::Failed(e), svc, ctx) == StepView::Finish(
            Err(e),
        ),
        step is Finish ==> next(step, reply, svc, ctx) == step,
{
}

} // verus!
