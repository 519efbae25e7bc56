//! What the views show: nothing that an object says is left out or changed, and
//! lists are shown entry by entry.

use crate::context::CurrentContext;
use crate::error::{ErrorView, RobotLBError};
use crate::label_filter::{LabelFilter, Rule, RuleView};
use crate::lb::{LoadBalancer, PublicAddress, PublicNet};
use crate::nodes::{NodeFilter, NodeFilterView};
use crate::objects::{
    Endpoint, EndpointSlice, Node, NodeAddress, NodeStatus, ObjectMeta, Pod, Service, ServicePort,
    ServiceSpec,
};
use crate::reconcile::{Reply, ReplyView, Step, StepView};
use crate::status::{LoadBalancerIngress, StatusPatch};
use vstd::prelude::*;

verus! {

/// The metadata of an object, field by field.
pub proof fn metadata_are_shown(meta: ObjectMeta)
    ensures
        meta.deep_view().name is Some <==> meta.name is Some,
        meta.name matches Some(name) ==> meta.deep_view().name == Some(name@),
        meta.deep_view().generate_name is Some <==> meta.generate_name is Some,
        meta.generate_name matches Some(prefix) ==> meta.deep_view().generate_name == Some(prefix@),
        meta.deep_view().namespace is Some <==> meta.namespace is Some,
        meta.namespace matches Some(own) ==> meta.deep_view().namespace == Some(own@),
        meta.deep_view().labels is Some <==> meta.labels is Some,
        meta.labels matches Some(labels) ==> meta.deep_view().labels == Some(labels.deep_view()),
        meta.deep_view().annotations is Some <==> meta.annotations is Some,
        meta.annotations matches Some(annotations) ==> meta.deep_view().annotations == Some(
            annotations.deep_view(),
        ),
        meta.deep_view().finalizers is Some <==> meta.finalizers is Some,
        meta.finalizers matches Some(finalizers) ==> meta.deep_view().finalizers->0.len()
            == finalizers@.len(),
        meta.finalizers matches Some(finalizers) ==> forall|i: int|
            0 <= i < finalizers@.len() ==> #[trigger] meta.deep_view().finalizers->0[i]
                == finalizers@[i]@,
        meta.deep_view().deletion_requested == meta.deletion_requested,
{
}

/// A service, its spec and its ports, field by field.
pub proof fn services_are_shown(svc: Service, spec: ServiceSpec, port: ServicePort)
    ensures
        svc.deep_view().metadata == svc.metadata.deep_view(),
        svc.deep_view().spec is Some <==> svc.spec is Some,
        svc.spec matches Some(own) ==> svc.deep_view().spec == Some(own.deep_view()),
        spec.deep_view().type_ is Some <==> spec.type_ is Some,
        spec.type_ matches Some(kind) ==> spec.deep_view().type_ == Some(kind@),
        spec.deep_view().load_balancer_class is Some <==> spec.load_balancer_class is Some,
        spec.load_balancer_class matches Some(class) ==> spec.deep_view().load_balancer_class
            == Some(class@),
        spec.deep_view().external_traffic_policy is Some <==> spec.external_traffic_policy is Some,
        spec.external_traffic_policy matches Some(policy)
            ==> spec.deep_view().external_traffic_policy == Some(policy@),
        spec.deep_view().selector is Some <==> spec.selector is Some,
        spec.selector matches Some(selector) ==> spec.deep_view().selector == Some(
            selector.deep_view(),
        ),
        spec.deep_view().ports is Some <==> spec.ports is Some,
        spec.ports matches Some(ports) ==> spec.deep_view().ports->0.len() == ports@.len(),
        spec.ports matches Some(ports) ==> forall|i: int|
            0 <= i < ports@.len() ==> #[trigger] spec.deep_view().ports->0[i]
                == ports@[i].deep_view(),
        port.deep_view().port == port.port,
        port.deep_view().node_port == port.node_port,
        port.deep_view().protocol is Some <==> port.protocol is Some,
        port.protocol matches Some(protocol) ==> port.deep_view().protocol == Some(protocol@),
{
}

/// A node, its status and its addresses, field by field.
pub proof fn nodes_are_shown(node: Node, status: NodeStatus, address: NodeAddress)
    ensures
        node.deep_view().metadata == node.metadata.deep_view(),
        node.deep_view().spec is Some <==> node.spec is Some,
        node.spec matches Some(spec) ==> node.deep_view().spec->0.unschedulable
            == spec.unschedulable,
        node.deep_view().status is Some <==> node.status is Some,
        node.status matches Some(own) ==> node.deep_view().status == Some(own.deep_view()),
        status.deep_view().addresses is Some <==> status.addresses is Some,
        status.addresses matches Some(addresses) ==> status.deep_view().addresses->0.len()
            == addresses@.len(),
        status.addresses matches Some(addresses) ==> forall|i: int|
            0 <= i < addresses@.len() ==> #[trigger] status.deep_view().addresses->0[i]
                == addresses@[i].deep_view(),
        address.deep_view().type_ == address.type_@,
        address.deep_view().address == address.address@,
{
}

/// Pods, endpoint slices and endpoints, field by field.
pub proof fn pods_and_endpoints_are_shown(pod: Pod, slice: EndpointSlice, endpoint: Endpoint)
    ensures
        pod.deep_view().spec is Some <==> pod.spec is Some,
        pod.spec matches Some(spec) ==> (pod.deep_view().spec->0.node_name is Some
            <==> spec.node_name is Some),
        pod.spec matches Some(spec) ==> (spec.node_name matches Some(name)
            ==> pod.deep_view().spec->0.node_name == Some(name@)),
        slice.deep_view().endpoints.len() == slice.endpoints@.len(),
        forall|i: int|
            0 <= i < slice.endpoints@.len() ==> #[trigger] slice.deep_view().endpoints[i]
                == slice.endpoints@[i].deep_view(),
        endpoint.deep_view().conditions is Some <==> endpoint.conditions is Some,
        endpoint.conditions matches Some(conditions) ==> endpoint.deep_view().conditions->0.ready
            == conditions.ready,
        endpoint.deep_view().node_name is Some <==> endpoint.node_name is Some,
        endpoint.node_name matches Some(name) ==> endpoint.deep_view().node_name == Some(name@),
{
}

/// A load balancer and the surroundings of a reconciliation, field by field.
pub proof fn load_balancers_and_settings_are_shown(lb: LoadBalancer, ctx: CurrentContext)
    ensures
        lb.deep_view().network_name is Some <==> lb.network_name is Some,
        lb.network_name matches Some(network) ==> lb.deep_view().network_name == Some(network@),
        lb.deep_view().targets.len() == lb.targets@.len(),
        forall|i: int|
            0 <= i < lb.targets@.len() ==> #[trigger] lb.deep_view().targets[i] == lb.targets@[i]@,
        lb.deep_view().services == lb.services@,
        ctx.deep_view().default_namespace == ctx.default_namespace@,
        ctx.deep_view().config == ctx.config,
{
}

/// Public addresses and what is reported of them, field by field.
pub proof fn addresses_are_shown(
    net: PublicNet,
    address: PublicAddress,
    patch: StatusPatch,
    entry: LoadBalancerIngress,
)
    ensures
        net.deep_view().ipv4 == net.ipv4.deep_view(),
        net.deep_view().ipv6 == net.ipv6.deep_view(),
        address.ip matches Some(Some(ip)) ==> address.deep_view().ip == Some(Some(ip@)),
        address.ip matches Some(None) ==> address.deep_view().ip == Some(None::<Seq<char>>),
        address.ip is None ==> address.deep_view().ip is None,
        address.dns_ptr matches Some(Some(name)) ==> address.deep_view().dns_ptr == Some(
            Some(name@),
        ),
        address.dns_ptr matches Some(None) ==> address.deep_view().dns_ptr == Some(
            None::<Seq<char>>,
        ),
        address.dns_ptr is None ==> address.deep_view().dns_ptr is None,
        ({
            let shown = patch.deep_view().status.load_balancer.ingress;
            let ingress = patch.status.load_balancer.ingress@;
            &&& shown.len() == ingress.len()
            &&& forall|i: int| 0 <= i < ingress.len() ==> #[trigger] shown[i] == ingress[i].deep_view()
        }),
        entry.deep_view().ip == entry.ip@,
        entry.deep_view().ip_mode == entry.ip_mode@,
        entry.deep_view().dns is Some <==> entry.dns is Some,
        entry.dns matches Some(name) ==> entry.deep_view().dns == Some(name@),
{
}

/// Errors, rules and filters, kind by kind.
pub proof fn errors_and_filters_are_shown(
    e: RobotLBError,
    rule: Rule,
    filter: LabelFilter,
    nodes: NodeFilter,
)
    ensures
        e is SkipService <==> e.deep_view() == ErrorView::SkipService,
        e is ServiceWithoutSelector <==> e.deep_view() == ErrorView::ServiceWithoutSelector,
        e matches RobotLBError::InvalidNodeFilter(text) ==> e.deep_view()
            == ErrorView::InvalidNodeFilter(text@),
        e matches RobotLBError::CallFailed(text) ==> e.deep_view() == ErrorView::CallFailed(text@),
        rule matches Rule::Equal(key, value) ==> rule.deep_view() == RuleView::Equal(key@, value@),
        rule matches Rule::NotEqual(key, value) ==> rule.deep_view() == RuleView::NotEqual(
            key@,
            value@,
        ),
        rule matches Rule::Exists(key) ==> rule.deep_view() == RuleView::Exists(key@),
        rule matches Rule::DoesNotExist(key) ==> rule.deep_view() == RuleView::DoesNotExist(key@),
        filter.deep_view().len() == filter.rules@.len(),
        forall|i: int|
            0 <= i < filter.rules@.len() ==> #[trigger] filter.deep_view()[i]
                == filter.rules@[i].deep_view(),
        nodes matches NodeFilter::Named(names) ==> nodes.deep_view() == NodeFilterView::Named(
            names@,
        ),
        nodes matches NodeFilter::Labelled(own) ==> nodes.deep_view() == NodeFilterView::Labelled(
            own.deep_view(),
        ),
        nodes is Eligible ==> nodes.deep_view() == NodeFilterView::Eligible,
{
}

/// Steps, kind by kind.
pub proof fn steps_are_shown(step: Step)
    ensures
        step is BuildLoadBalancer <==> step.deep_view() is BuildLoadBalancer,
        step is RemoveFinalizer <==> step.deep_view() is RemoveFinalizer,
        step matches Step::CleanUp { lb } ==> step.deep_view() == (StepView::CleanUp {
            lb: lb.deep_view(),
        }),
        step matches Step::AddFinalizer { lb } ==> step.deep_view() == (StepView::AddFinalizer {
            lb: lb.deep_view(),
        }),
        step matches Step::ListPods { namespace, label_selector, lb } ==> step.deep_view() == (
        StepView::ListPods {
            namespace: namespace@,
            label_selector: label_selector@,
            lb: lb.deep_view(),
        }),
        step matches Step::ListEndpointSlices { namespace, label_selector, lb }
            ==> step.deep_view() == (StepView::ListEndpointSlices {
            namespace: namespace@,
            label_selector: label_selector@,
            lb: lb.deep_view(),
        }),
        step matches Step::ListNodes { filter, lb } ==> step.deep_view() == (StepView::ListNodes {
            filter: filter.deep_view(),
            lb: lb.deep_view(),
        }),
        step matches Step::ReconcileLoadBalancer { lb } ==> step.deep_view() == (
        StepView::ReconcileLoadBalancer { lb: lb.deep_view() }),
        step matches Step::PatchStatus { namespace, name, patch } ==> step.deep_view() == (
        StepView::PatchStatus { namespace: namespace@, name: name@, patch: patch.deep_view() }),
        step matches Step::Finish(Ok(action)) ==> step.deep_view() == StepView::Finish(Ok(action)),
        step matches Step::Finish(Err(e)) ==> step.deep_view() == StepView::Finish(
            Err(e.deep_view()),
        ),
{
}

/// Answers, kind by kind; lists are answered entry by entry.
pub proof fn replies_are_shown(reply: Reply, i: int)
    ensures
        reply matches Reply::LoadBalancer(lb) ==> reply.deep_view() == ReplyView::LoadBalancer(
            lb.deep_view(),
        ),
        reply is Done <==> reply.deep_view() is Done,
        reply matches Reply::Pods(pods) ==> (reply.deep_view() matches ReplyView::Pods(shown)
            && shown.len() == pods@.len() && (0 <= i < pods@.len() ==> shown[i]
            == pods@[i].deep_view())),
        reply matches Reply::EndpointSlices(slices) ==> (
        reply.deep_view() matches ReplyView::EndpointSlices(shown) && shown.len()
            == slices@.len() && (0 <= i < slices@.len() ==> shown[i] == slices@[i].deep_view())),
        reply matches Reply::Nodes(nodes) ==> (reply.deep_view() matches ReplyView::Nodes(shown)
            && shown.len() == nodes@.len() && (0 <= i < nodes@.len() ==> shown[i]
            == nodes@[i].deep_view())),
        reply matches Reply::Reconciled(net) ==> reply.deep_view() == ReplyView::Reconciled(
            net.deep_view(),
        ),
        reply matches Reply::Failed(e) ==> reply.deep_view() == ReplyView::Failed(e.deep_view()),
{
}

} // verus!
