//! The reconciliation of a service, step by step.
//!
//! A reconciliation alternates decisions and calls to the cluster and the
//! cloud. It starts with [`reconcile_service`]. Each [`Step`] names the call to
//! make next, and [`resume`] takes the answer to the following step, until a
//! step says that the reconciliation is finished.

use crate::consts::{LB_NODE_SELECTOR, REQUEUE_SECONDS, SERVICE_NAME_LABEL};
use crate::context::{ContextView, CurrentContext};
use crate::error::{ErrorView, RobotLBError};
use crate::finalizers;
use crate::label_filter::{filter_of, LabelFilter};
use crate::lb::{LBService, LoadBalancer, LoadBalancerView, PublicNet, PublicNetView};
use crate::nodes::{
    addresses_of_nodes, nodes_of_pods, nodes_of_slices, target_nodes_of_pods,
    target_nodes_of_slices, NodeFilter, NodeFilterView,
};
use crate::objects::{
    EndpointSlice, EndpointSliceView, Node, NodeAddress, NodeAddressView, NodeView, Pod, PodView,
    Service, ServiceView,
};
use crate::services::{collect_lb_services, is_local_traffic_policy, is_served};
use crate::status::{ingress_of, status_patch, StatusPatch, StatusPatchView};
use crate::string_map::label_selector_text;
use crate::text::same;
use vstd::prelude::*;

verus! {

/// What the controller does with a service after a reconciliation.
#[derive(Debug, Clone, Copy, PartialEq, Eq, Structural)]
pub enum Action {
    /// Do nothing until the service changes.
    AwaitChange,
    /// Reconcile the service again after some time.
    Requeue { seconds: u64 },
}

/// The call that a reconciliation makes next, or its end.
pub enum Step {
    /// Work out the load balancer that the service describes.
    BuildLoadBalancer,
    /// Remove the load balancer from the cloud.
    CleanUp { lb: LoadBalancer },
    /// Remove the finalizer from the service.
    RemoveFinalizer,
    /// Add the finalizer to the service.
    AddFinalizer { lb: LoadBalancer },
    /// List the pods of a namespace that meet a label selector.
    ListPods { namespace: String, label_selector: String, lb: LoadBalancer },
    /// List the endpoint slices of a namespace that meet a label selector.
    ListEndpointSlices { namespace: String, label_selector: String, lb: LoadBalancer },
    /// List all nodes of the cluster. Those that the filter admits become targets.
    ListNodes { filter: NodeFilter, lb: LoadBalancer },
    /// Bring the load balancer in the cloud in line.
    ReconcileLoadBalancer { lb: LoadBalancer },
    /// Patch the status of a service.
    PatchStatus { namespace: String, name: String, patch: StatusPatch },
    /// The reconciliation is over.
    Finish(Result<Action, RobotLBError>),
}

/// What a [`Step`] says.
pub enum StepView {
    BuildLoadBalancer,
    CleanUp { lb: LoadBalancerView },
    RemoveFinalizer,
    AddFinalizer { lb: LoadBalancerView },
    ListPods { namespace: Seq<char>, label_selector: Seq<char>, lb: LoadBalancerView },
    ListEndpointSlices { namespace: Seq<char>, label_selector: Seq<char>, lb: LoadBalancerView },
    ListNodes { filter: NodeFilterView, lb: LoadBalancerView },
    ReconcileLoadBalancer { lb: LoadBalancerView },
    PatchStatus { namespace: Seq<char>, name: Seq<char>, patch: StatusPatchView },
    Finish(Result<Action, ErrorView>),
}

impl DeepView for Step {
    type V = StepView;

    open spec fn deep_view(&self) -> StepView {
        match self {
            Step::BuildLoadBalancer => StepView::BuildLoadBalancer,
            Step::CleanUp { lb } => StepView::CleanUp { lb: lb.deep_view() },
            Step::RemoveFinalizer => StepView::RemoveFinalizer,
            Step::AddFinalizer { lb } => StepView::AddFinalizer { lb: lb.deep_view() },
            Step::ListPods { namespace, label_selector, lb } => StepView::ListPods {
                namespace: namespace@,
                label_selector: label_selector@,
                lb: lb.deep_view(),
            },
            Step::ListEndpointSlices { namespace, label_selector, lb } => {
                StepView::ListEndpointSlices {
                    namespace: namespace@,
                    label_selector: label_selector@,
                    lb: lb.deep_view(),
                }
            },
            Step::ListNodes { filter, lb } => StepView::ListNodes {
                filter: filter.deep_view(),
                lb: lb.deep_view(),
            },
            Step::ReconcileLoadBalancer { lb } => StepView::ReconcileLoadBalancer {
                lb: lb.deep_view(),
            },
            Step::PatchStatus { namespace, name, patch } => StepView::PatchStatus {
                namespace: namespace@,
                name: name@,
                patch: patch.deep_view(),
            },
            Step::Finish(Ok(action)) => StepView::Finish(Ok(*action)),
            Step::Finish(Err(e)) => StepView::Finish(Err(e.deep_view())),
        }
    }
}

/// The answer to the call of a step.
pub enum Reply {
    LoadBalancer(LoadBalancer),
    Done,
    Pods(Vec<Pod>),
    EndpointSlices(Vec<EndpointSlice>),
    Nodes(Vec<Node>),
    /// The public addresses of the load balancer, once it is in line.
    Reconciled(PublicNet),
    /// The call failed.
    Failed(RobotLBError),
}

/// What a [`Reply`] says.
pub enum ReplyView {
    LoadBalancer(LoadBalancerView),
    Done,
    Pods(Seq<PodView>),
    EndpointSlices(Seq<EndpointSliceView>),
    Nodes(Seq<NodeView>),
    Reconciled(PublicNetView),
    Failed(ErrorView),
}

impl DeepView for Reply {
    type V = ReplyView;

    open spec fn deep_view(&self) -> ReplyView {
        match self {
            Reply::LoadBalancer(lb) => ReplyView::LoadBalancer(lb.deep_view()),
            Reply::Done => ReplyView::Done,
            Reply::Pods(pods) => ReplyView::Pods(pods.deep_view()),
            Reply::EndpointSlices(slices) => ReplyView::EndpointSlices(slices.deep_view()),
            Reply::Nodes(nodes) => ReplyView::Nodes(nodes.deep_view()),
            Reply::Reconciled(net) => ReplyView::Reconciled(net.deep_view()),
            Reply::Failed(e) => ReplyView::Failed(e.deep_view()),
        }
    }
}

/// The end of a reconciliation that shall be repeated.
pub open spec fn requeued() -> StepView {
    StepView::Finish(Ok(Action::Requeue { seconds: REQUEUE_SECONDS }))
}

/// The end of a reconciliation that failed.
pub open spec fn failed(e: ErrorView) -> StepView {
    StepView::Finish(Err(e))
}

/// The first step: a service that this operator does not serve is skipped.
pub open spec fn service_start(svc: ServiceView) -> StepView {
    if svc.is_served() {
        StepView::BuildLoadBalancer
    } else {
        failed(ErrorView::SkipService)
    }
}

/// The step once the load balancer is worked out: the load balancer of a service
/// that is being deleted is removed; any other service gets its finalizer before
/// its load balancer is dealt with.
pub open spec fn load_balancer_known(
    lb: LoadBalancerView,
    svc: ServiceView,
    ctx: ContextView,
) -> StepView {
    if svc.metadata.deletion_requested {
        StepView::CleanUp { lb }
    } else if !svc.has_finalizer() {
        StepView::AddFinalizer { lb }
    } else {
        load_balancer_start(lb, svc, ctx)
    }
}

/// The first step towards the targets of the load balancer.
pub open spec fn load_balancer_start(
    lb: LoadBalancerView,
    svc: ServiceView,
    ctx: ContextView,
) -> StepView {
    if !ctx.config.dynamic_node_selector {
        nodes_by_selector(lb, svc)
    } else if svc.is_local_traffic_policy() {
        nodes_dynamically(lb, svc, ctx)
    } else {
        StepView::ListNodes { filter: NodeFilterView::Eligible, lb }
    }
}

/// The nodes of the pods that the service selects; of its endpoints, if it
/// selects no pods.
pub open spec fn nodes_dynamically(
    lb: LoadBalancerView,
    svc: ServiceView,
    ctx: ContextView,
) -> StepView {
    match svc.pod_selector() {
        Some(selector) => StepView::ListPods {
            namespace: ctx.namespace_of(svc.metadata),
            label_selector: label_selector_text(selector),
            lb,
        },
        None => nodes_from_endpointslices(lb, svc, ctx),
    }
}

/// The nodes of the endpoints of the service.
pub open spec fn nodes_from_endpointslices(
    lb: LoadBalancerView,
    svc: ServiceView,
    ctx: ContextView,
) -> StepView {
    StepView::ListEndpointSlices {
        namespace: ctx.namespace_of(svc.metadata),
        label_selector: SERVICE_NAME_LABEL@ + "="@ + svc.metadata.name_any(),
        lb,
    }
}

/// The nodes that meet the node selector of the service.
pub open spec fn nodes_by_selector(lb: LoadBalancerView, svc: ServiceView) -> StepView {
    let annotations = svc.metadata.all_annotations();
    if annotations.contains_key(LB_NODE_SELECTOR@) {
        match filter_of(annotations[LB_NODE_SELECTOR@]) {
            Ok(rules) => StepView::ListNodes { filter: NodeFilterView::Labelled(rules), lb },
            Err(e) => failed(e),
        }
    } else {
        failed(ErrorView::ServiceWithoutSelector)
    }
}

/// The type of the addresses by which a load balancer reaches nodes: inside its
/// network, if it has one.
pub open spec fn node_ip_type(lb: LoadBalancerView) -> Seq<char> {
    if lb.network_name is None {
        "ExternalIP"@
    } else {
        "InternalIP"@
    }
}

/// The load balancer with the nodes as targets and the ports of the service.
pub open spec fn balanced(
    lb: LoadBalancerView,
    nodes: Seq<NodeView>,
    svc: ServiceView,
) -> LoadBalancerView {
    LoadBalancerView {
        network_name: lb.network_name,
        targets: lb.targets + addresses_of_nodes(nodes, node_ip_type(lb)),
        services: lb.services + svc.lb_services(),
    }
}

/// The step once the load balancer is in line: its addresses are reported, if it
/// has any and exposes a port.
pub open spec fn reported(
    lb: LoadBalancerView,
    net: PublicNetView,
    svc: ServiceView,
    ctx: ContextView,
) -> StepView {
    let ingress = net.ingress(ctx.config.ipv6_ingress);
    if ingress.len() > 0 && lb.services.len() > 0 {
        StepView::PatchStatus {
            namespace: ctx.namespace_of(svc.metadata),
            name: svc.metadata.name_any(),
            patch: status_patch(ingress),
        }
    } else {
        requeued()
    }
}

/// The step that follows `step` on `reply`. A failed call ends the
/// reconciliation with its error; a reply to another call changes nothing.
pub open spec fn next(
    step: StepView,
    reply: ReplyView,
    svc: ServiceView,
    ctx: ContextView,
) -> StepView {
    match (step, reply) {
        (StepView::Finish(_), _) => step,
        (_, ReplyView::Failed(e)) => failed(e),
        (StepView::BuildLoadBalancer, ReplyView::LoadBalancer(lb)) => load_balancer_known(
            lb,
            svc,
            ctx,
        ),
        (StepView::CleanUp { .. }, ReplyView::Done) => StepView::RemoveFinalizer,
        (StepView::RemoveFinalizer, ReplyView::Done) => StepView::Finish(Ok(Action::AwaitChange)),
        (StepView::AddFinalizer { lb }, ReplyView::Done) => load_balancer_start(lb, svc, ctx),
        (StepView::ListPods { lb, .. }, ReplyView::Pods(pods)) => StepView::ListNodes {
            filter: NodeFilterView::Named(nodes_of_pods(pods)),
            lb,
        },
        (StepView::ListEndpointSlices { lb, .. }, ReplyView::EndpointSlices(slices)) => {
            let names = nodes_of_slices(slices);
            if names.is_empty() {
                StepView::ReconcileLoadBalancer { lb: balanced(lb, Seq::empty(), svc) }
            } else {
                StepView::ListNodes { filter: NodeFilterView::Named(names), lb }
            }
        },
        (StepView::ListNodes { filter, lb }, ReplyView::Nodes(nodes)) => {
            StepView::ReconcileLoadBalancer { lb: balanced(lb, filter.select(nodes), svc) }
        },
        (StepView::ReconcileLoadBalancer { lb }, ReplyView::Reconciled(net)) => reported(
            lb,
            net,
            svc,
            ctx,
        ),
        (StepView::PatchStatus { .. }, ReplyView::Done) => requeued(),
        _ => step,
    }
}

/// Start the reconciliation of a service. It will create or update the load
/// balancer of the service. If the service is being deleted, it will clean up.
pub fn reconcile_service(svc: &Service) -> (r: Step)
    ensures
        r.deep_view() == service_start(svc.deep_view()),
{
    if is_served(svc) {
        Step::BuildLoadBalancer
    } else {
        Step::Finish(Err(RobotLBError::SkipService))
    }
}

/// Go on with a service whose load balancer is known.
pub fn serve(lb: LoadBalancer, svc: &Service, ctx: &CurrentContext) -> (r: Step)
    ensures
        r.deep_view() == load_balancer_known(lb.deep_view(), svc.deep_view(), ctx.deep_view()),
{
    if svc.metadata.deletion_requested {
        Step::CleanUp { lb }
    } else if !finalizers::check(svc) {
        Step::AddFinalizer { lb }
    } else {
        reconcile_load_balancer(lb, svc, ctx)
    }
}

/// Start to bring the load balancer of a service in line. The nodes that shall
/// be its targets are found first.
pub fn reconcile_load_balancer(lb: LoadBalancer, svc: &Service, ctx: &CurrentContext) -> (r: Step)
    ensures
        r.deep_view() == load_balancer_start(lb.deep_view(), svc.deep_view(), ctx.deep_view()),
{
    if ctx.config.dynamic_node_selector {
        if is_local_traffic_policy(svc) {
            get_nodes_dynamically(lb, svc, ctx)
        } else {
            get_all_nodes(lb)
        }
    } else {
        get_nodes_by_selector(lb, svc)
    }
}

/// Get nodes dynamically based on the pods: find the pods that the service
/// selects, and then the nodes where they are deployed.
pub fn get_nodes_dynamically(lb: LoadBalancer, svc: &Service, ctx: &CurrentContext) -> (r: Step)
    ensures
        r.deep_view() == nodes_dynamically(lb.deep_view(), svc.deep_view(), ctx.deep_view()),
{
    if let Some(spec) = &svc.spec {
        if let Some(selector) = &spec.selector {
            if !selector.is_empty() {
                return Step::ListPods {
                    namespace: ctx.namespace_of(&svc.metadata),
                    label_selector: selector.label_selector(),
                    lb,
                };
            }
        }
    }
    get_nodes_from_endpointslices(lb, svc, ctx)
}

/// Get nodes from the endpoint slices of a service. This is the fallback when
/// the service has no selector, such as when its endpoint slices are managed by
/// an external controller. The target nodes are those that its endpoints name.
pub fn get_nodes_from_endpointslices(lb: LoadBalancer, svc: &Service, ctx: &CurrentContext) -> (r:
    Step)
    ensures
        r.deep_view() == nodes_from_endpointslices(
            lb.deep_view(),
            svc.deep_view(),
            ctx.deep_view(),
        ),
{
    let label_selector = SERVICE_NAME_LABEL.to_owned().concat("=").concat(
        svc.metadata.name_any().as_str(),
    );
    Step::ListEndpointSlices { namespace: ctx.namespace_of(&svc.metadata), label_selector, lb }
}

/// Get nodes based on the node selector from the service annotations.
pub fn get_nodes_by_selector(lb: LoadBalancer, svc: &Service) -> (r: Step)
    ensures
        r.deep_view() == nodes_by_selector(lb.deep_view(), svc.deep_view()),
{
    match svc.metadata.annotation(LB_NODE_SELECTOR) {
        Some(node_selector) => match LabelFilter::from_str(node_selector.as_str()) {
            Ok(filter) => Step::ListNodes { filter: NodeFilter::Labelled(filter), lb },
            Err(e) => Step::Finish(Err(e)),
        },
        None => Step::Finish(Err(RobotLBError::ServiceWithoutSelector)),
    }
}

/// Get every node of the cluster that may serve load balancer traffic.
pub fn get_all_nodes(lb: LoadBalancer) -> (r: Step)
    ensures
        r.deep_view() == (StepView::ListNodes {
            filter: NodeFilterView::Eligible,
            lb: lb.deep_view(),
        }),
{
    Step::ListNodes { filter: NodeFilter::Eligible, lb }
}

fn add_targets_of_node(lb: &mut LoadBalancer, addresses: &Vec<NodeAddress>, ip_type: &str)
    ensures
        final(lb).deep_view() == (LoadBalancerView {
            targets: old(lb).deep_view().targets + addresses.deep_view().filter_map(
                |a: NodeAddressView|
                    if a.type_ == ip_type@ {
                        Some(a.address)
                    } else {
                        None
                    },
            ),
            ..old(lb).deep_view()
        }),
{
    let ghost f = |a: NodeAddressView|
        if a.type_ == ip_type@ {
            Some(a.address)
        } else {
            None
        };
    let ghost all = addresses.deep_view();
    let ghost before = lb.deep_view();
    let mut i: usize = 0;
    assert(lb.deep_view().targets =~= before.targets + all.take(0).filter_map(f));
    while i < addresses.len()
        invariant
            i <= addresses@.len(),
            all == addresses.deep_view(),
            f == (|a: NodeAddressView|
                if a.type_ == ip_type@ {
                    Some(a.address)
                } else {
                    None
                }),
            lb.deep_view() == (LoadBalancerView {
                targets: before.targets + all.take(i as int).filter_map(f),
                ..before
            }),
        decreases addresses@.len() - i,
    {
        proof {
            all.lemma_filter_map_take_succ(f, i as int);
            assert(all[i as int] == addresses@[i as int].deep_view());
        }
        if same(addresses[i].type_.as_str(), ip_type) {
            lb.add_target(addresses[i].address.as_str());
        }
        assert(lb.deep_view().targets =~= before.targets + all.take(i + 1).filter_map(f));
        i = i + 1;
    }
    assert(all.take(i as int) == all);
}

fn add_targets(lb: &mut LoadBalancer, nodes: &Vec<Node>, ip_type: &str)
    ensures
        final(lb).deep_view() == (LoadBalancerView {
            targets: old(lb).deep_view().targets + addresses_of_nodes(nodes.deep_view(), ip_type@),
            ..old(lb).deep_view()
        }),
{
    let ghost f = |node: NodeView| node.addresses_of_type(ip_type@);
    let ghost all = nodes.deep_view();
    let ghost before = lb.deep_view();
    let mut i: usize = 0;
    proof {
        assert(all.take(0).map_values(f) =~= Seq::empty());
        assert(lb.deep_view().targets =~= before.targets + addresses_of_nodes(
            all.take(0),
            ip_type@,
        ));
    }
    while i < nodes.len()
        invariant
            i <= nodes@.len(),
            all == nodes.deep_view(),
            f == (|node: NodeView| node.addresses_of_type(ip_type@)),
            lb.deep_view() == (LoadBalancerView {
                targets: before.targets + addresses_of_nodes(all.take(i as int), ip_type@),
                ..before
            }),
        decreases nodes@.len() - i,
    {
        let ghost view = nodes@[i as int].deep_view();
        if let Some(status) = &nodes[i].status {
            if let Some(addresses) = &status.addresses {
                add_targets_of_node(lb, addresses, ip_type);
            }
        }
        proof {
            let done = all.take(i as int);
            assert(all.take(i + 1) =~= done.push(view));
            assert(done.push(view).map_values(f) =~= done.map_values(f).push(f(view)));
            done.map_values(f).lemma_flatten_push(f(view));
            assert(lb.deep_view().targets =~= before.targets + addresses_of_nodes(
                all.take(i + 1),
                ip_type@,
            ));
        }
        i = i + 1;
    }
    assert(all.take(i as int) == all);
}

fn add_services(lb: &mut LoadBalancer, services: &Vec<LBService>)
    ensures
        final(lb).deep_view() == (LoadBalancerView {
            services: old(lb).deep_view().services + services@,
            ..old(lb).deep_view()
        }),
{
    let ghost before = lb.deep_view();
    let mut i: usize = 0;
    assert(lb.deep_view().services =~= before.services + services@.take(0));
    while i < services.len()
        invariant
            i <= services@.len(),
            lb.deep_view() == (LoadBalancerView {
                services: before.services + services@.take(i as int),
                ..before
            }),
        decreases services@.len() - i,
    {
        lb.add_service(services[i].listen_port, services[i].target_port);
        assert(lb.deep_view().services =~= before.services + services@.take(i + 1));
        i = i + 1;
    }
    assert(services@.take(i as int) == services@);
}

/// Give the load balancer the addresses of the nodes as targets and the ports
/// of the service, and have it brought in line.
pub fn balance(lb: LoadBalancer, nodes: &Vec<Node>, svc: &Service) -> (r: Step)
    ensures
        r.deep_view() == (StepView::ReconcileLoadBalancer {
            lb: balanced(lb.deep_view(), nodes.deep_view(), svc.deep_view()),
        }),
{
    let mut lb = lb;
    if lb.network_name.is_none() {
        add_targets(&mut lb, nodes, "ExternalIP");
    } else {
        add_targets(&mut lb, nodes, "InternalIP");
    }
    add_services(&mut lb, &collect_lb_services(svc));
    Step::ReconcileLoadBalancer { lb }
}

/// Report the public addresses of the load balancer in the status of the service.
/// A service without a port that can be exposed is left without an address.
pub fn report(lb: &LoadBalancer, net: PublicNet, svc: &Service, ctx: &CurrentContext) -> (r: Step)
    ensures
        r.deep_view() == reported(
            lb.deep_view(),
            net.deep_view(),
            svc.deep_view(),
            ctx.deep_view(),
        ),
{
    let ingress = ingress_of(net, ctx.config.ipv6_ingress);
    if ingress.len() > 0 && lb.services.len() > 0 {
        Step::PatchStatus {
            namespace: ctx.namespace_of(&svc.metadata),
            name: svc.metadata.name_any(),
            patch: StatusPatch::new(ingress),
        }
    } else {
        Step::Finish(Ok(Action::Requeue { seconds: REQUEUE_SECONDS }))
    }
}

/// Go on after the call of a step. A failed call ends the reconciliation with
/// its error; a reply to another call leaves the step as it is.
pub fn resume(step: Step, reply: Reply, svc: &Service, ctx: &CurrentContext) -> (r: Step)
    ensures
        r.deep_view() == next(
            step.deep_view(),
            reply.deep_view(),
            svc.deep_view(),
            ctx.deep_view(),
        ),
{
    match (step, reply) {
        (Step::Finish(outcome), _) => Step::Finish(outcome),
        (_, Reply::Failed(e)) => Step::Finish(Err(e)),
        (Step::BuildLoadBalancer, Reply::LoadBalancer(lb)) => serve(lb, svc, ctx),
        (Step::CleanUp { lb: _ }, Reply::Done) => Step::RemoveFinalizer,
        (Step::RemoveFinalizer, Reply::Done) => Step::Finish(Ok(Action::AwaitChange)),
        (Step::AddFinalizer { lb }, Reply::Done) => reconcile_load_balancer(lb, svc, ctx),
        (Step::ListPods { lb, .. }, Reply::Pods(pods)) => Step::ListNodes {
            filter: NodeFilter::Named(target_nodes_of_pods(&pods)),
            lb,
        },
        (Step::ListEndpointSlices { lb, .. }, Reply::EndpointSlices(slices)) => {
            let names = target_nodes_of_slices(&slices);
            if names.is_empty() {
                let nodes: Vec<Node> = Vec::new();
                assert(nodes.deep_view() =~= Seq::empty());
                balance(lb, &nodes, svc)
            } else {
                Step::ListNodes { filter: NodeFilter::Named(names), lb }
            }
        },
        (Step::ListNodes { filter, lb }, Reply::Nodes(nodes)) => balance(
            lb,
            &filter.select(nodes),
            svc,
        ),
        (Step::ReconcileLoadBalancer { lb }, Reply::Reconciled(net)) => report(&lb, net, svc, ctx),
        (Step::PatchStatus { .. }, Reply::Done) => Step::Finish(
            Ok(Action::Requeue { seconds: REQUEUE_SECONDS }),
        ),
        (step, _) => step,
    }
}

/// What the controller does with a service whose reconciliation ended in an
/// error: a service that was skipped is left alone, any other is tried again.
pub fn on_error(error: &RobotLBError) -> (r: Action)
    ensures
        r == (if error.deep_view() == ErrorView::SkipService {
            Action::AwaitChange
        } else {
            Action::Requeue { seconds: REQUEUE_SECONDS }
        }),
{
    match error {
        RobotLBError::SkipService => Action::AwaitChange,
        _ => Action::Requeue { seconds: REQUEUE_SECONDS },
    }
}

} // verus!
