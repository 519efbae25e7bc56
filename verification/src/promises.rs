//! What whole reconciliations come to, told in the fields of the service and the
//! answers of the cluster and the cloud.

use crate::context::ContextView;
use crate::error::ErrorView;
use crate::fields::{
    a_selector_with_an_entry_selects_pods, cordoned_and_labelled_nodes_are_out,
    endpoints_tell_their_nodes, pods_tell_their_nodes,
};
use crate::label_filter::{filter_holds, filter_of};
use crate::laws::no_names_select_no_nodes;
use crate::lb::LBService;
use crate::nodes::NodeFilterView;
use crate::objects::ServiceView;
use crate::reconcile::{load_balancer_start, next, service_start, Action, StepView};
use crate::runs::{
    calls, calls_left, every_answer_makes_progress, has_usable_selector, outcome, service_calls,
    service_outcome, target_filter, target_nodes, the_finalizer_comes_first,
    the_load_balancer_gets_its_targets, World,
};
use crate::steps::{
    a_reachable_service_is_reported, a_reported_service_is_looked_at_again,
    endpoint_slices_are_listed_where_the_service_is, nodes_become_targets,
    pods_are_listed_where_the_service_is, what_a_load_balancer_is_given,
};
use crate::string_map::label_selector_text;
use vstd::prelude::*;

verus! {

proof fn lemma_call_follows(step: StepView, world: World, svc: ServiceView, ctx: ContextView, i: int)
    requires
        0 <= i < calls(step, world, svc, ctx).len(),
    ensures
        ({
            let all = calls(step, world, svc, ctx);
            let after = next(all[i], world.reply(all[i]), svc, ctx);
            &&& !(all[i] is Finish)
            &&& i + 1 < all.len() ==> all[i + 1] == after
            &&& i + 1 == all.len() ==> after is Finish && outcome(step, world, svc, ctx)
                == after->Finish_0
        }),
    decreases calls_left(step),
{
    let after = next(step, world.reply(step), svc, ctx);
    let all = calls(step, world, svc, ctx);
    every_answer_makes_progress(step, world.reply(step), svc, ctx);
    assert(all =~= seq![step] + calls(after, world, svc, ctx));
    assert(all[0] == step);
    assert(outcome(step, world, svc, ctx) == outcome(after, world, svc, ctx));
    if after is Finish {
        assert(outcome(after, world, svc, ctx) == after->Finish_0);
    }
    if i > 0 {
        lemma_call_follows(after, world, svc, ctx, i - 1);
        assert(all[i] == calls(after, world, svc, ctx)[i - 1]);
        if i + 1 < all.len() {
            assert(all[i + 1] == calls(after, world, svc, ctx)[i]);
        }
    } else if all.len() > 1 {
        assert(!(after is Finish));
        assert(calls(after, world, svc, ctx)[0] == after);
        assert(all[1] == after);
    } else {
        assert(calls(after, world, svc, ctx).len() == 0);
        if !(after is Finish) {
            every_answer_makes_progress(after, world.reply(after), svc, ctx);
            assert(calls(after, world, svc, ctx).len() > 0);
        }
    }
}

/// Each call follows from the one before it and its answer, and the answer to the
/// last one decides the outcome.
pub proof fn each_call_follows_from_the_one_before(
    svc: ServiceView,
    ctx: ContextView,
    world: World,
    i: int,
)
    requires
        0 <= i < service_calls(svc, ctx, world).len(),
    ensures
        ({
            let all = service_calls(svc, ctx, world);
            let after = next(all[i], world.reply(all[i]), svc, ctx);
            &&& i + 1 < all.len() ==> all[i + 1] == after
            &&& i + 1 == all.len() ==> after == StepView::Finish(service_outcome(svc, ctx, world))
        }),
{
    lemma_call_follows(service_start(svc), world, svc, ctx, i);
}

/// How a call relates to the load balancer that was worked out and to where the
/// search for targets starts.
spec fn is_in_place(step: StepView, world: World, svc: ServiceView, ctx: ContextView) -> bool {
    match step {
        StepView::CleanUp { lb } => world.load_balancer == Ok::<_, ErrorView>(lb),
        StepView::AddFinalizer { lb } => world.load_balancer == Ok::<_, ErrorView>(lb),
        StepView::ListPods { lb, .. } => world.load_balancer == Ok::<_, ErrorView>(lb) && step
            == load_balancer_start(lb, svc, ctx),
        StepView::ListEndpointSlices { lb, .. } => world.load_balancer == Ok::<_, ErrorView>(lb) && step
            == load_balancer_start(lb, svc, ctx),
        StepView::ListNodes { filter, lb } => {
            &&& world.load_balancer == Ok::<_, ErrorView>(lb)
            &&& filter == target_filter(svc, ctx, world)
            &&& has_usable_selector(svc, ctx)
        },
        StepView::PatchStatus { namespace, name, .. } => {
            &&& namespace == ctx.namespace_of(svc.metadata)
            &&& name == svc.metadata.name_any()
        },
        _ => true,
    }
}

proof fn lemma_calls_are_in_place(svc: ServiceView, ctx: ContextView, world: World, i: int)
    requires
        0 <= i < service_calls(svc, ctx, world).len(),
    ensures
        is_in_place(service_calls(svc, ctx, world)[i], world, svc, ctx),
    decreases i,
{
    let all = service_calls(svc, ctx, world);
    if i > 0 {
        lemma_calls_are_in_place(svc, ctx, world, i - 1);
        lemma_call_follows(service_start(svc), world, svc, ctx, i - 1);
    } else {
        assert(all[0] == service_start(svc));
    }
}

/// Every call that names a namespace names that of the service: its own, if it
/// says one, whatever the default is, and only else the default one. Pods are
/// asked for by the whole selector of the service, endpoint slices by its name,
/// and the status is patched under its name.
pub proof fn calls_are_made_where_the_service_is(
    svc: ServiceView,
    ctx: ContextView,
    world: World,
    i: int,
)
    requires
        0 <= i < service_calls(svc, ctx, world).len(),
    ensures
        ({
            let call = service_calls(svc, ctx, world)[i];
            let there = |namespace: Seq<char>|
                {
                    &&& svc.metadata.namespace is Some ==> namespace == svc.metadata.namespace->0
                    &&& svc.metadata.namespace is None ==> namespace == ctx.default_namespace
                };
            &&& call matches StepView::ListPods { namespace, label_selector, .. } ==> {
                &&& there(namespace)
                &&& svc.spec is Some && svc.spec->0.selector is Some
                &&& label_selector == label_selector_text(svc.spec->0.selector->0)
            }
            &&& call matches StepView::ListEndpointSlices { namespace, label_selector, .. } ==> {
                &&& there(namespace)
                &&& svc.metadata.name is Some ==> label_selector == "kubernetes.io/service-name"@
                    + "="@ + svc.metadata.name->0
            }
            &&& call matches StepView::PatchStatus { namespace, name, .. } ==> {
                &&& there(namespace)
                &&& svc.metadata.name is Some ==> name == svc.metadata.name->0
            }
        }),
{
    lemma_calls_are_in_place(svc, ctx, world, i);
    let lb = world.load_balancer->Ok_0;
    pods_are_listed_where_the_service_is(lb, svc, ctx);
    endpoint_slices_are_listed_where_the_service_is(lb, svc, ctx);
}

/// How the targets of a service are searched, whenever nodes, pods or endpoint
/// slices are listed for it. Pods and endpoint slices are listed only if targets
/// are found dynamically and the service says `Local`: pods if its selector has an
/// entry, and else endpoint slices. Listed nodes are held against the node
/// selector exactly if targets are not found dynamically, against what makes a
/// node eligible exactly if they are and the service does not say `Local`, and
/// else against names.
pub proof fn the_search_follows_settings_and_policy(
    svc: ServiceView,
    ctx: ContextView,
    world: World,
    i: int,
)
    requires
        0 <= i < service_calls(svc, ctx, world).len(),
    ensures
        ({
            let call = service_calls(svc, ctx, world)[i];
            let dynamic = ctx.config.dynamic_node_selector;
            let local = svc.spec is Some && svc.spec->0.external_traffic_policy == Some("Local"@);
            let selects = svc.spec is Some && svc.spec->0.selector is Some && exists|
                key: Seq<char>,
            | #[trigger]
                svc.spec->0.selector->0.contains_key(key);
            &&& call is ListPods ==> dynamic && local && selects
            &&& call is ListEndpointSlices ==> dynamic && local && !selects
            &&& call matches StepView::ListNodes { filter, .. } ==> {
                &&& filter is Labelled <==> !dynamic
                &&& filter is Eligible <==> dynamic && !local
                &&& filter is Named <==> dynamic && local
                &&& filter matches NodeFilterView::Labelled(rules) ==> {
                    &&& svc.metadata.annotations is Some
                    &&& svc.metadata.annotations->0.contains_key("robotlb/node-selector"@)
                    &&& filter_of(svc.metadata.annotations->0["robotlb/node-selector"@]) == Ok::<
                        _,
                        ErrorView,
                    >(rules)
                }
            }
        }),
{
    lemma_calls_are_in_place(svc, ctx, world, i);
    if svc.spec is Some && svc.spec->0.selector is Some {
        a_selector_with_an_entry_selects_pods(svc, svc.spec->0.selector->0);
    }
}

/// Every call that takes a load balancer before it is brought in line takes it as
/// it was worked out.
pub proof fn the_load_balancer_is_handed_on(
    svc: ServiceView,
    ctx: ContextView,
    world: World,
    i: int,
)
    requires
        0 <= i < service_calls(svc, ctx, world).len(),
    ensures
        ({
            let call = service_calls(svc, ctx, world)[i];
            &&& call matches StepView::CleanUp { lb } ==> world.load_balancer == Ok::<_, ErrorView>(
                lb,
            )
            &&& call matches StepView::AddFinalizer { lb } ==> world.load_balancer == Ok::<
                _,
                ErrorView,
            >(lb)
            &&& call matches StepView::ListPods { lb, .. } ==> world.load_balancer == Ok::<
                _,
                ErrorView,
            >(lb)
            &&& call matches StepView::ListEndpointSlices { lb, .. } ==> world.load_balancer
                == Ok::<_, ErrorView>(lb)
            &&& call matches StepView::ListNodes { lb, .. } ==> world.load_balancer == Ok::<
                _,
                ErrorView,
            >(lb)
        }),
{
    lemma_calls_are_in_place(svc, ctx, world, i);
}

proof fn lemma_admitted_nodes_are_targets(
    svc: ServiceView,
    ctx: ContextView,
    world: World,
    i: int,
    address: Seq<char>,
)
    requires
        0 <= i < service_calls(svc, ctx, world).len(),
        service_calls(svc, ctx, world)[i] is ReconcileLoadBalancer,
    ensures
        ({
            let lb = service_calls(svc, ctx, world)[i]->ReconcileLoadBalancer_lb;
            let built = world.load_balancer->Ok_0;
            let nodes = world.nodes->Ok_0;
            let ip_type = if built.network_name is Some {
                "InternalIP"@
            } else {
                "ExternalIP"@
            };
            lb.targets.contains(address) <==> built.targets.contains(address) || exists|
                n: int,
                j: int,
            |
                0 <= n < nodes.len() && target_filter(svc, ctx, world).admits(nodes[n])
                    && nodes[n].status is Some && nodes[n].status->0.addresses is Some && 0 <= j
                    < nodes[n].status->0.addresses->0.len() && (
                #[trigger] nodes[n].status->0.addresses->0[j]).type_ == ip_type
                    && nodes[n].status->0.addresses->0[j].address == address
        }),
{
    the_load_balancer_gets_its_targets(svc, ctx, world, i);
    let built = world.load_balancer->Ok_0;
    let nodes = world.nodes->Ok_0;
    let filter = target_filter(svc, ctx, world);
    assert(target_nodes(svc, ctx, world) == filter.select(nodes)) by {
        if let NodeFilterView::Named(names) = filter {
            if names.is_empty() {
                assert(names =~= Set::empty());
                no_names_select_no_nodes(nodes);
            }
        }
    }
    nodes_become_targets(filter, built, nodes, svc, ctx, address);
}

/// Under any policy but `Local`, if targets are found dynamically: whenever a load
/// balancer is brought in line, an address is among its targets exactly if it was
/// before, or some node of the cluster, at any place of the list, has it and
/// neither carries the label that keeps it out nor is cordoned. The address counts
/// as an internal one if the load balancer is in a network, else as an external
/// one.
pub proof fn under_the_cluster_policy_every_eligible_node_is_a_target(
    svc: ServiceView,
    ctx: ContextView,
    world: World,
    i: int,
    address: Seq<char>,
)
    requires
        0 <= i < service_calls(svc, ctx, world).len(),
        service_calls(svc, ctx, world)[i] is ReconcileLoadBalancer,
        ctx.config.dynamic_node_selector,
        !(svc.spec is Some && svc.spec->0.external_traffic_policy == Some("Local"@)),
    ensures
        ({
            let lb = service_calls(svc, ctx, world)[i]->ReconcileLoadBalancer_lb;
            let built = world.load_balancer->Ok_0;
            let nodes = world.nodes->Ok_0;
            let ip_type = if built.network_name is Some {
                "InternalIP"@
            } else {
                "ExternalIP"@
            };
            lb.targets.contains(address) <==> built.targets.contains(address) || exists|
                n: int,
                j: int,
            |
                0 <= n < nodes.len() && !(nodes[n].metadata.labels is Some
                    && nodes[n].metadata.labels->0.contains_key(
                    "node.kubernetes.io/exclude-from-external-load-balancers"@,
                )) && !(nodes[n].spec is Some && nodes[n].spec->0.unschedulable == Some(true))
                    && nodes[n].status is Some && nodes[n].status->0.addresses is Some && 0 <= j
                    < nodes[n].status->0.addresses->0.len() && (
                #[trigger] nodes[n].status->0.addresses->0[j]).type_ == ip_type
                    && nodes[n].status->0.addresses->0[j].address == address
        }),
{
    lemma_admitted_nodes_are_targets(svc, ctx, world, i, address);
    let nodes = world.nodes->Ok_0;
    assert(target_filter(svc, ctx, world) == NodeFilterView::Eligible);
    assert forall|n: int| 0 <= n < nodes.len() implies (NodeFilterView::Eligible.admits(
        #[trigger] nodes[n],
    ) <==> !(nodes[n].metadata.labels is Some && nodes[n].metadata.labels->0.contains_key(
        "node.kubernetes.io/exclude-from-external-load-balancers"@,
    )) && !(nodes[n].spec is Some && nodes[n].spec->0.unschedulable == Some(true))) by {
        cordoned_and_labelled_nodes_are_out(nodes[n]);
    }
}

/// Under the policy `Local`, if targets are found dynamically and the selector of
/// the service has an entry: whenever a load balancer is brought in line, an
/// address is among its targets exactly if it was before, or some node of the
/// cluster has it on which one of the listed pods says that it runs.
pub proof fn under_the_local_policy_the_nodes_of_pods_are_targets(
    svc: ServiceView,
    ctx: ContextView,
    world: World,
    i: int,
    address: Seq<char>,
)
    requires
        0 <= i < service_calls(svc, ctx, world).len(),
        service_calls(svc, ctx, world)[i] is ReconcileLoadBalancer,
        ctx.config.dynamic_node_selector,
        svc.spec is Some && svc.spec->0.external_traffic_policy == Some("Local"@),
        svc.spec->0.selector is Some && exists|key: Seq<char>| #[trigger]
            svc.spec->0.selector->0.contains_key(key),
    ensures
        ({
            let lb = service_calls(svc, ctx, world)[i]->ReconcileLoadBalancer_lb;
            let built = world.load_balancer->Ok_0;
            let nodes = world.nodes->Ok_0;
            let pods = world.pods->Ok_0;
            let ip_type = if built.network_name is Some {
                "InternalIP"@
            } else {
                "ExternalIP"@
            };
            lb.targets.contains(address) <==> built.targets.contains(address) || exists|
                n: int,
                j: int,
            |
                0 <= n < nodes.len() && (exists|p: int|
                    0 <= p < pods.len() && (#[trigger] pods[p]).spec is Some
                        && pods[p].spec->0.node_name == Some(nodes[n].metadata.name_any()))
                    && nodes[n].status is Some && nodes[n].status->0.addresses is Some && 0 <= j
                    < nodes[n].status->0.addresses->0.len() && (
                #[trigger] nodes[n].status->0.addresses->0[j]).type_ == ip_type
                    && nodes[n].status->0.addresses->0[j].address == address
        }),
{
    lemma_admitted_nodes_are_targets(svc, ctx, world, i, address);
    a_selector_with_an_entry_selects_pods(svc, svc.spec->0.selector->0);
    let nodes = world.nodes->Ok_0;
    let pods = world.pods->Ok_0;
    let filter = target_filter(svc, ctx, world);
    assert(filter is Named);
    assert forall|n: int| 0 <= n < nodes.len() implies (filter.admits(#[trigger] nodes[n])
        <==> exists|p: int|
        0 <= p < pods.len() && (#[trigger] pods[p]).spec is Some && pods[p].spec->0.node_name
            == Some(nodes[n].metadata.name_any())) by {
        pods_tell_their_nodes(pods, nodes[n].metadata.name_any());
    }
}

/// Under the policy `Local`, if targets are found dynamically and the service
/// selects no pods: whenever a load balancer is brought in line, an address is
/// among its targets exactly if it was before, or some node of the cluster has it
/// that an endpoint names which does not say that it is not ready.
pub proof fn without_a_selector_the_nodes_of_endpoints_are_targets(
    svc: ServiceView,
    ctx: ContextView,
    world: World,
    i: int,
    address: Seq<char>,
)
    requires
        0 <= i < service_calls(svc, ctx, world).len(),
        service_calls(svc, ctx, world)[i] is ReconcileLoadBalancer,
        ctx.config.dynamic_node_selector,
        svc.spec is Some && svc.spec->0.external_traffic_policy == Some("Local"@),
        svc.spec->0.selector is None || forall|key: Seq<char>|
            !(#[trigger] svc.spec->0.selector->0.contains_key(key)),
    ensures
        ({
            let lb = service_calls(svc, ctx, world)[i]->ReconcileLoadBalancer_lb;
            let built = world.load_balancer->Ok_0;
            let nodes = world.nodes->Ok_0;
            let slices = world.endpoint_slices->Ok_0;
            let ip_type = if built.network_name is Some {
                "InternalIP"@
            } else {
                "ExternalIP"@
            };
            lb.targets.contains(address) <==> built.targets.contains(address) || exists|
                n: int,
                j: int,
            |
                0 <= n < nodes.len() && (exists|s: int, e: int|
                    0 <= s < slices.len() && 0 <= e < slices[s].endpoints.len() && (
                    #[trigger] slices[s].endpoints[e]).node_name == Some(
                        nodes[n].metadata.name_any(),
                    ) && !(slices[s].endpoints[e].conditions is Some
                        && slices[s].endpoints[e].conditions->0.ready == Some(false)))
                    && nodes[n].status is Some && nodes[n].status->0.addresses is Some && 0 <= j
                    < nodes[n].status->0.addresses->0.len() && (
                #[trigger] nodes[n].status->0.addresses->0[j]).type_ == ip_type
                    && nodes[n].status->0.addresses->0[j].address == address
        }),
{
    lemma_admitted_nodes_are_targets(svc, ctx, world, i, address);
    a_selector_with_an_entry_selects_pods(svc, Map::empty());
    let nodes = world.nodes->Ok_0;
    let slices = world.endpoint_slices->Ok_0;
    let filter = target_filter(svc, ctx, world);
    assert(filter is Named);
    assert forall|n: int| 0 <= n < nodes.len() implies (filter.admits(#[trigger] nodes[n])
        <==> exists|s: int, e: int|
        0 <= s < slices.len() && 0 <= e < slices[s].endpoints.len() && (
        #[trigger] slices[s].endpoints[e]).node_name == Some(nodes[n].metadata.name_any()) && !(
        slices[s].endpoints[e].conditions is Some && slices[s].endpoints[e].conditions->0.ready
            == Some(false))) by {
        endpoints_tell_their_nodes(slices, nodes[n].metadata.name_any());
    }
}

/// If targets are not found dynamically: whenever a load balancer is brought in
/// line, an address is among its targets exactly if it was before, or some node of
/// the cluster has it whose labels meet the node selector that the annotation of
/// the service holds.
pub proof fn under_a_node_selector_the_nodes_that_meet_it_are_targets(
    svc: ServiceView,
    ctx: ContextView,
    world: World,
    i: int,
    address: Seq<char>,
)
    requires
        0 <= i < service_calls(svc, ctx, world).len(),
        service_calls(svc, ctx, world)[i] is ReconcileLoadBalancer,
        !ctx.config.dynamic_node_selector,
    ensures
        ({
            let lb = service_calls(svc, ctx, world)[i]->ReconcileLoadBalancer_lb;
            let built = world.load_balancer->Ok_0;
            let nodes = world.nodes->Ok_0;
            let filter = filter_of(svc.metadata.annotations->0["robotlb/node-selector"@]);
            let ip_type = if built.network_name is Some {
                "InternalIP"@
            } else {
                "ExternalIP"@
            };
            &&& svc.metadata.annotations is Some && svc.metadata.annotations->0.contains_key(
                "robotlb/node-selector"@,
            )
            &&& filter is Ok
            &&& lb.targets.contains(address) <==> built.targets.contains(address) || exists|
                n: int,
                j: int,
            |
                0 <= n < nodes.len() && filter_holds(
                    filter->Ok_0,
                    if nodes[n].metadata.labels is Some {
                        nodes[n].metadata.labels->0
                    } else {
                        Map::empty()
                    },
                ) && nodes[n].status is Some && nodes[n].status->0.addresses is Some && 0 <= j
                    < nodes[n].status->0.addresses->0.len() && (
                #[trigger] nodes[n].status->0.addresses->0[j]).type_ == ip_type
                    && nodes[n].status->0.addresses->0[j].address == address
        }),
{
    the_load_balancer_gets_its_targets(svc, ctx, world, i);
    lemma_admitted_nodes_are_targets(svc, ctx, world, i, address);
    let nodes = world.nodes->Ok_0;
    let rules = filter_of(svc.metadata.annotations->0["robotlb/node-selector"@])->Ok_0;
    let filter = target_filter(svc, ctx, world);
    assert(filter == NodeFilterView::Labelled(rules));
    assert forall|n: int| 0 <= n < nodes.len() implies (filter.admits(#[trigger] nodes[n])
        <==> filter_holds(
        rules,
        if nodes[n].metadata.labels is Some {
            nodes[n].metadata.labels->0
        } else {
            Map::empty()
        },
    )) by {}
}

/// Whenever a load balancer is brought in line, it is in the network that it was
/// worked out for, and a pair of ports is among its services exactly if it was
/// before, or some port that the service lists, at any place of the list, is for
/// TCP, or for no protocol in particular, and has that node port.
pub proof fn a_load_balancer_exposes_the_ports_of_its_service(
    svc: ServiceView,
    ctx: ContextView,
    world: World,
    i: int,
    listen_port: i32,
    target_port: i32,
)
    requires
        0 <= i < service_calls(svc, ctx, world).len(),
        service_calls(svc, ctx, world)[i] is ReconcileLoadBalancer,
    ensures
        ({
            let lb = service_calls(svc, ctx, world)[i]->ReconcileLoadBalancer_lb;
            let built = world.load_balancer->Ok_0;
            let service = LBService { listen_port, target_port };
            &&& lb.network_name == built.network_name
            &&& svc.spec is Some && svc.spec->0.ports is Some ==> (lb.services.contains(service)
                <==> built.services.contains(service) || exists|p: int|
                0 <= p < svc.spec->0.ports->0.len() && (#[trigger] svc.spec->0.ports->0[p]).port
                    == listen_port && svc.spec->0.ports->0[p].node_port == Some(target_port) && (
                svc.spec->0.ports->0[p].protocol is None || svc.spec->0.ports->0[p].protocol
                    == Some("TCP"@)))
            &&& svc.spec->0.ports is None ==> lb.services == built.services
        }),
{
    the_load_balancer_gets_its_targets(svc, ctx, world, i);
    what_a_load_balancer_is_given(
        world.load_balancer->Ok_0,
        target_nodes(svc, ctx, world),
        svc,
        Seq::empty(),
        listen_port,
        target_port,
    );
    the_finalizer_comes_first(svc, ctx, world, i);
    assert(svc.spec is Some) by {
        assert(service_start(svc) is BuildLoadBalancer || service_start(svc) is Finish);
    }
}

/// Once a load balancer is in line, the status is patched next exactly if the load
/// balancer exposes a port, however many, and the cloud reported an IPv4 address,
/// or an IPv6 address where that is asked for. The patch reports those addresses.
/// Else the reconciliation is over, to be repeated after 30 seconds.
pub proof fn every_reachable_service_is_reported(
    svc: ServiceView,
    ctx: ContextView,
    world: World,
    i: int,
)
    requires
        0 <= i < service_calls(svc, ctx, world).len(),
        service_calls(svc, ctx, world)[i] is ReconcileLoadBalancer,
        world.reconcile is Ok,
    ensures
        ({
            let all = service_calls(svc, ctx, world);
            let lb = all[i]->ReconcileLoadBalancer_lb;
            let net = world.reconcile->Ok_0;
            let v4 = net.ipv4.ip matches Some(Some(_));
            let v6 = ctx.config.ipv6_ingress && (net.ipv6.ip matches Some(Some(_)));
            &&& lb.services.len() > 0 && (v4 || v6) ==> {
                &&& all.len() == i + 2
                &&& all[i + 1] is PatchStatus
                &&& v4 ==> all[i + 1]->patch.status.load_balancer.ingress[0].ip
                    == net.ipv4.ip->0->0
                &&& v6 ==> all[i + 1]->patch.status.load_balancer.ingress.last().ip
                    == net.ipv6.ip->0->0
                &&& world.patch is Ok ==> service_outcome(svc, ctx, world) == Ok::<_, ErrorView>(
                    Action::Requeue { seconds: 30 },
                )
            }
            &&& !(lb.services.len() > 0 && (v4 || v6)) ==> {
                &&& all.len() == i + 1
                &&& service_outcome(svc, ctx, world) == Ok::<_, ErrorView>(
                    Action::Requeue { seconds: 30 },
                )
            }
        }),
{
    let all = service_calls(svc, ctx, world);
    let lb = all[i]->ReconcileLoadBalancer_lb;
    a_reachable_service_is_reported(lb, world.reconcile->Ok_0, svc, ctx);
    each_call_follows_from_the_one_before(svc, ctx, world, i);
    if i + 1 < all.len() {
        each_call_follows_from_the_one_before(svc, ctx, world, i + 1);
        lemma_call_follows(service_start(svc), world, svc, ctx, i + 1);
        if all[i + 1] is PatchStatus {
            a_reported_service_is_looked_at_again(all[i + 1], svc, ctx);
            if i + 2 < all.len() {
                lemma_call_follows(service_start(svc), world, svc, ctx, i + 2);
            }
        }
    }
}

/// A service that lists a port, at any place of the list, that is for TCP, or for
/// no protocol in particular, and has a node port, gets its status patched once its
/// load balancer is in line and has a public IPv4 address.
pub proof fn one_exposed_port_is_enough_to_be_reported(
    svc: ServiceView,
    ctx: ContextView,
    world: World,
    i: int,
    p: int,
)
    requires
        0 <= i < service_calls(svc, ctx, world).len(),
        service_calls(svc, ctx, world)[i] is ReconcileLoadBalancer,
        world.reconcile is Ok,
        world.reconcile->Ok_0.ipv4.ip matches Some(Some(_)),
        svc.spec is Some && svc.spec->0.ports is Some,
        0 <= p < svc.spec->0.ports->0.len(),
        svc.spec->0.ports->0[p].node_port is Some,
        svc.spec->0.ports->0[p].protocol is None || svc.spec->0.ports->0[p].protocol == Some(
            "TCP"@,
        ),
    ensures
        i + 1 < service_calls(svc, ctx, world).len(),
        service_calls(svc, ctx, world)[i + 1] is PatchStatus,
{
    let port = svc.spec->0.ports->0[p];
    a_load_balancer_exposes_the_ports_of_its_service(
        svc,
        ctx,
        world,
        i,
        port.port,
        port.node_port->0,
    );
    every_reachable_service_is_reported(svc, ctx, world, i);
}

} // verus!
