//! Whole reconciliations: the calls that are made and the outcome, for given
//! answers of the cluster and the cloud, and what holds of all of them.

use crate::consts::{LB_NODE_SELECTOR, REQUEUE_SECONDS};
use crate::context::ContextView;
use crate::error::ErrorView;
use crate::label_filter::filter_of;
use crate::lb::{LoadBalancerView, PublicNetView};
use crate::nodes::{nodes_of_pods, nodes_of_slices, NodeFilterView};
use crate::objects::{EndpointSliceView, NodeView, PodView, ServiceView};
use crate::reconcile::{
    balanced, failed, load_balancer_start, next, reported, service_start, Action, ReplyView,
    StepView,
};
use crate::status::status_patch;
use vstd::prelude::*;

verus! {

/// How the cluster and the cloud answer each call.
pub struct World {
    pub load_balancer: Result<LoadBalancerView, ErrorView>,
    pub clean_up: Result<(), ErrorView>,
    pub remove_finalizer: Result<(), ErrorView>,
    pub add_finalizer: Result<(), ErrorView>,
    pub pods: Result<Seq<PodView>, ErrorView>,
    pub endpoint_slices: Result<Seq<EndpointSliceView>, ErrorView>,
    pub nodes: Result<Seq<NodeView>, ErrorView>,
    pub reconcile: Result<PublicNetView, ErrorView>,
    pub patch: Result<(), ErrorView>,
}

/// The reply to a call that answers nothing but success.
pub open spec fn done(answer: Result<(), ErrorView>) -> ReplyView {
    match answer {
        Ok(_) => ReplyView::Done,
        Err(e) => ReplyView::Failed(e),
    }
}

impl World {
    /// The reply to the call of a step.
    pub open spec fn reply(self, step: StepView) -> ReplyView {
        match step {
            StepView::BuildLoadBalancer => match self.load_balancer {
                Ok(lb) => ReplyView::LoadBalancer(lb),
                Err(e) => ReplyView::Failed(e),
            },
            StepView::CleanUp { .. } => done(self.clean_up),
            StepView::RemoveFinalizer => done(self.remove_finalizer),
            StepView::AddFinalizer { .. } => done(self.add_finalizer),
            StepView::ListPods { .. } => match self.pods {
                Ok(pods) => ReplyView::Pods(pods),
                Err(e) => ReplyView::Failed(e),
            },
            StepView::ListEndpointSlices { .. } => match self.endpoint_slices {
                Ok(slices) => ReplyView::EndpointSlices(slices),
                Err(e) => ReplyView::Failed(e),
            },
            StepView::ListNodes { .. } => match self.nodes {
                Ok(nodes) => ReplyView::Nodes(nodes),
                Err(e) => ReplyView::Failed(e),
            },
            StepView::ReconcileLoadBalancer { .. } => match self.reconcile {
                Ok(net) => ReplyView::Reconciled(net),
                Err(e) => ReplyView::Failed(e),
            },
            StepView::PatchStatus { .. } => done(self.patch),
            StepView::Finish(_) => ReplyView::Done,
        }
    }
}

/// How many calls may follow at most, the call of this step among them.
pub open spec fn calls_left(step: StepView) -> nat {
    match step {
        StepView::Finish(_) => 0,
        StepView::RemoveFinalizer => 1,
        StepView::PatchStatus { .. } => 1,
        StepView::CleanUp { .. } => 2,
        StepView::ReconcileLoadBalancer { .. } => 2,
        StepView::ListNodes { .. } => 3,
        StepView::ListPods { .. } => 4,
        StepView::ListEndpointSlices { .. } => 4,
        StepView::AddFinalizer { .. } => 5,
        StepView::BuildLoadBalancer => 6,
    }
}

/// Whether the reply answers the call of the step.
pub open spec fn fits(step: StepView, reply: ReplyView) -> bool {
    match step {
        StepView::Finish(_) => false,
        StepView::BuildLoadBalancer => reply is LoadBalancer || reply is Failed,
        StepView::ListPods { .. } => reply is Pods || reply is Failed,
        StepView::ListEndpointSlices { .. } => reply is EndpointSlices || reply is Failed,
        StepView::ListNodes { .. } => reply is Nodes || reply is Failed,
        StepView::ReconcileLoadBalancer { .. } => reply is Reconciled || reply is Failed,
        _ => reply is Done || reply is Failed,
    }
}

/// Every answer to the call of a step brings the reconciliation nearer to its
/// end, and anything else leaves it where it is.
pub proof fn every_answer_makes_progress(
    step: StepView,
    reply: ReplyView,
    svc: ServiceView,
    ctx: ContextView,
)
    ensures
        fits(step, reply) ==> calls_left(next(step, reply, svc, ctx)) < calls_left(step),
        !fits(step, reply) ==> next(step, reply, svc, ctx) == step,
{
}

/// The calls that a reconciliation makes from `step` on, `step` first.
pub open spec fn calls(step: StepView, world: World, svc: ServiceView, ctx: ContextView) -> Seq<
    StepView,
>
    decreases calls_left(step),
{
    if step is Finish {
        Seq::empty()
    } else {
        proof {
            every_answer_makes_progress(step, world.reply(step), svc, ctx);
        }
        seq![step] + calls(next(step, world.reply(step), svc, ctx), world, svc, ctx)
    }
}

/// The outcome of a reconciliation that stands at `step`.
pub open spec fn outcome(step: StepView, world: World, svc: ServiceView, ctx: ContextView) -> Result<
    Action,
    ErrorView,
>
    decreases calls_left(step),
{
    if let StepView::Finish(result) = step {
        result
    } else {
        proof {
            every_answer_makes_progress(step, world.reply(step), svc, ctx);
        }
        outcome(next(step, world.reply(step), svc, ctx), world, svc, ctx)
    }
}

/// The calls that the reconciliation of a service makes.
pub open spec fn service_calls(svc: ServiceView, ctx: ContextView, world: World) -> Seq<StepView> {
    calls(service_start(svc), world, svc, ctx)
}

/// The outcome of the reconciliation of a service.
pub open spec fn service_outcome(svc: ServiceView, ctx: ContextView, world: World) -> Result<
    Action,
    ErrorView,
> {
    outcome(service_start(svc), world, svc, ctx)
}

/// A service that this operator does not serve is skipped without any call.
pub proof fn other_services_are_left_alone(svc: ServiceView, ctx: ContextView, world: World)
    requires
        !svc.is_served(),
    ensures
        service_calls(svc, ctx, world) == Seq::<StepView>::empty(),
        service_outcome(svc, ctx, world) == Err::<Action, ErrorView>(ErrorView::SkipService),
{
}

/// A reconciliation makes at most six calls.
pub proof fn every_run_is_short(svc: ServiceView, ctx: ContextView, world: World)
    ensures
        service_calls(svc, ctx, world).len() <= 6,
{
    lemma_calls_are_bounded(service_start(svc), world, svc, ctx);
}

proof fn lemma_calls_are_bounded(step: StepView, world: World, svc: ServiceView, ctx: ContextView)
    ensures
        calls(step, world, svc, ctx).len() <= calls_left(step),
    decreases calls_left(step),
{
    if !(step is Finish) {
        every_answer_makes_progress(step, world.reply(step), svc, ctx);
        lemma_calls_are_bounded(next(step, world.reply(step), svc, ctx), world, svc, ctx);
    }
}

/// After each call fewer calls may follow than before it. So no kind of call is
/// made twice in a reconciliation.
pub proof fn no_call_is_repeated(svc: ServiceView, ctx: ContextView, world: World, i: int, j: int)
    requires
        0 <= i < j < service_calls(svc, ctx, world).len(),
    ensures
        calls_left(service_calls(svc, ctx, world)[i]) > calls_left(
            service_calls(svc, ctx, world)[j],
        ),
{
    lemma_calls_descend(service_start(svc), world, svc, ctx, i, j);
}

proof fn lemma_calls_start_at(step: StepView, world: World, svc: ServiceView, ctx: ContextView)
    requires
        !(step is Finish),
    ensures
        ({
            let after = next(step, world.reply(step), svc, ctx);
            let all = calls(step, world, svc, ctx);
            &&& fits(step, world.reply(step))
            &&& calls_left(after) < calls_left(step)
            &&& all.len() == 1 + calls(after, world, svc, ctx).len()
            &&& all[0] == step
            &&& all.drop_first() == calls(after, world, svc, ctx)
        }),
{
    every_answer_makes_progress(step, world.reply(step), svc, ctx);
    let after = next(step, world.reply(step), svc, ctx);
    assert(calls(step, world, svc, ctx).drop_first() =~= calls(after, world, svc, ctx));
}

proof fn lemma_calls_descend(
    step: StepView,
    world: World,
    svc: ServiceView,
    ctx: ContextView,
    i: int,
    j: int,
)
    requires
        0 <= i < j < calls(step, world, svc, ctx).len(),
    ensures
        calls_left(calls(step, world, svc, ctx)[i]) > calls_left(calls(step, world, svc, ctx)[j]),
    decreases calls_left(step),
{
    lemma_calls_start_at(step, world, svc, ctx);
    let after = next(step, world.reply(step), svc, ctx);
    let all = calls(step, world, svc, ctx);
    assert(all[j] == all.drop_first()[j - 1]);
    if i > 0 {
        assert(all[i] == all.drop_first()[i - 1]);
        lemma_calls_descend(after, world, svc, ctx, i - 1, j - 1);
    } else if j == 1 {
        assert(calls(after, world, svc, ctx)[0] == after);
    } else {
        lemma_calls_descend(after, world, svc, ctx, 0, j - 1);
        assert(calls(after, world, svc, ctx)[0] == after);
    }
}

/// A call that fails is the last one, and its error is the outcome.
pub proof fn a_failed_call_ends_the_run(
    svc: ServiceView,
    ctx: ContextView,
    world: World,
    i: int,
    e: ErrorView,
)
    requires
        0 <= i < service_calls(svc, ctx, world).len(),
        world.reply(service_calls(svc, ctx, world)[i]) == ReplyView::Failed(e),
    ensures
        i == service_calls(svc, ctx, world).len() - 1,
        service_outcome(svc, ctx, world) == Err::<Action, ErrorView>(e),
{
    lemma_failure_ends(service_start(svc), world, svc, ctx, i, e);
}

proof fn lemma_failure_ends(
    step: StepView,
    world: World,
    svc: ServiceView,
    ctx: ContextView,
    i: int,
    e: ErrorView,
)
    requires
        0 <= i < calls(step, world, svc, ctx).len(),
        world.reply(calls(step, world, svc, ctx)[i]) == ReplyView::Failed(e),
    ensures
        i == calls(step, world, svc, ctx).len() - 1,
        outcome(step, world, svc, ctx) == Err::<Action, ErrorView>(e),
    decreases calls_left(step),
{
    lemma_calls_start_at(step, world, svc, ctx);
    let after = next(step, world.reply(step), svc, ctx);
    if i > 0 {
        assert(calls(step, world, svc, ctx)[i] == calls(step, world, svc, ctx).drop_first()[i - 1]);
        lemma_failure_ends(after, world, svc, ctx, i - 1, e);
    } else {
        assert(after == failed(e));
        assert(outcome(after, world, svc, ctx) == Err::<Action, ErrorView>(e));
    }
}

/// What happens to a service that is being deleted, whatever the answers are:
/// its load balancer is removed, then its finalizer, and nothing else is
/// touched; the first failure ends it.
pub proof fn deleted_services_are_only_cleaned_up(svc: ServiceView, ctx: ContextView, world: World)
    requires
        svc.is_served(),
        svc.metadata.deletion_requested,
    ensures
        match (world.load_balancer, world.clean_up, world.remove_finalizer) {
            (Err(e), _, _) => {
                &&& service_calls(svc, ctx, world) == seq![StepView::BuildLoadBalancer]
                &&& service_outcome(svc, ctx, world) == Err::<Action, ErrorView>(e)
            },
            (Ok(lb), Err(e), _) => {
                &&& service_calls(svc, ctx, world) == seq![
                    StepView::BuildLoadBalancer,
                    StepView::CleanUp { lb },
                ]
                &&& service_outcome(svc, ctx, world) == Err::<Action, ErrorView>(e)
            },
            (Ok(lb), Ok(_), removal) => {
                &&& service_calls(svc, ctx, world) == seq![
                    StepView::BuildLoadBalancer,
                    StepView::CleanUp { lb },
                    StepView::RemoveFinalizer,
                ]
                &&& service_outcome(svc, ctx, world) == match removal {
                    Ok(_) => Ok::<Action, ErrorView>(Action::AwaitChange),
                    Err(e) => Err(e),
                }
            },
        },
{
    reveal_with_fuel(calls, 5);
    reveal_with_fuel(outcome, 5);
}

/// The finalizer is removed only after the load balancer has been removed.
pub proof fn the_finalizer_goes_last(svc: ServiceView, ctx: ContextView, world: World, i: int)
    requires
        0 <= i < service_calls(svc, ctx, world).len(),
        service_calls(svc, ctx, world)[i] is RemoveFinalizer,
    ensures
        svc.metadata.deletion_requested,
        i > 0,
        service_calls(svc, ctx, world)[i - 1] is CleanUp,
        world.clean_up is Ok,
        i == service_calls(svc, ctx, world).len() - 1,
{
    if svc.metadata.deletion_requested {
        deleted_services_are_only_cleaned_up(svc, ctx, world);
    } else {
        live_services_are_never_cleaned_up(svc, ctx, world, i);
    }
}

/// The load balancer and the finalizer of a service that is not being deleted are
/// never removed, whatever the answers are.
pub proof fn live_services_are_never_cleaned_up(
    svc: ServiceView,
    ctx: ContextView,
    world: World,
    i: int,
)
    requires
        !svc.metadata.deletion_requested,
        0 <= i < service_calls(svc, ctx, world).len(),
    ensures
        !(service_calls(svc, ctx, world)[i] is CleanUp),
        !(service_calls(svc, ctx, world)[i] is RemoveFinalizer),
{
    lemma_live_service_calls(service_start(svc), world, svc, ctx, i);
}

proof fn lemma_live_service_calls(
    step: StepView,
    world: World,
    svc: ServiceView,
    ctx: ContextView,
    i: int,
)
    requires
        !svc.metadata.deletion_requested,
        !(step is CleanUp),
        !(step is RemoveFinalizer),
        0 <= i < calls(step, world, svc, ctx).len(),
    ensures
        !(calls(step, world, svc, ctx)[i] is CleanUp),
        !(calls(step, world, svc, ctx)[i] is RemoveFinalizer),
    decreases calls_left(step),
{
    lemma_calls_start_at(step, world, svc, ctx);
    let after = next(step, world.reply(step), svc, ctx);
    if i > 0 {
        assert(calls(step, world, svc, ctx)[i] == calls(step, world, svc, ctx).drop_first()[i - 1]);
        lemma_live_service_calls(after, world, svc, ctx, i - 1);
    }
}

/// A load balancer is brought in line only for a service that is not being
/// deleted and that carries the finalizer, or got it in an earlier call.
pub proof fn the_finalizer_comes_first(svc: ServiceView, ctx: ContextView, world: World, i: int)
    requires
        0 <= i < service_calls(svc, ctx, world).len(),
        service_calls(svc, ctx, world)[i] is ReconcileLoadBalancer,
    ensures
        !svc.metadata.deletion_requested,
        svc.has_finalizer() || (1 < i && service_calls(svc, ctx, world)[1] is AddFinalizer
            && world.add_finalizer is Ok),
{
    let all = service_calls(svc, ctx, world);
    let start = service_start(svc);
    assert(start == StepView::BuildLoadBalancer);
    if svc.metadata.deletion_requested {
        deleted_services_are_only_cleaned_up(svc, ctx, world);
    }
    lemma_calls_start_at(start, world, svc, ctx);
    let second = next(start, world.reply(start), svc, ctx);
    assert(all[i] == all.drop_first()[i - 1]);
    if !svc.has_finalizer() {
        assert(second is AddFinalizer);
        lemma_calls_start_at(second, world, svc, ctx);
        assert(all[1] == all.drop_first()[0]);
        if world.add_finalizer is Err {
            assert(world.reply(all[1]) == ReplyView::Failed(world.add_finalizer->Err_0));
            a_failed_call_ends_the_run(svc, ctx, world, 1, world.add_finalizer->Err_0);
        }
    }
}

/// The nodes that become targets of a service: under the node selector those
/// that meet it; else under the `Local` policy those that host a pod that the
/// service selects, or, if it selects none, a ready endpoint; else all that may
/// be targets.
pub open spec fn target_filter(svc: ServiceView, ctx: ContextView, world: World) -> NodeFilterView {
    if !ctx.config.dynamic_node_selector {
        NodeFilterView::Labelled(
            filter_of(svc.metadata.all_annotations()[LB_NODE_SELECTOR@])->Ok_0,
        )
    } else if !svc.is_local_traffic_policy() {
        NodeFilterView::Eligible
    } else if svc.pod_selector() is Some {
        NodeFilterView::Named(nodes_of_pods(world.pods->Ok_0))
    } else {
        NodeFilterView::Named(nodes_of_slices(world.endpoint_slices->Ok_0))
    }
}

/// Whether a service can be balanced: if nodes are not found dynamically, it has
/// a node selector, and that is a filter.
pub open spec fn has_usable_selector(svc: ServiceView, ctx: ContextView) -> bool {
    ctx.config.dynamic_node_selector || {
        &&& svc.metadata.all_annotations().contains_key(LB_NODE_SELECTOR@)
        &&& filter_of(svc.metadata.all_annotations()[LB_NODE_SELECTOR@]) is Ok
    }
}

/// The load balancer that is brought in line for a service.
pub open spec fn final_load_balancer(
    svc: ServiceView,
    ctx: ContextView,
    world: World,
) -> LoadBalancerView {
    balanced(
        world.load_balancer->Ok_0,
        target_nodes(svc, ctx, world),
        svc,
    )
}

/// The nodes that become targets of a service. No node is looked up for a
/// service that selects no pods and has no ready endpoint with a node.
pub open spec fn target_nodes(svc: ServiceView, ctx: ContextView, world: World) -> Seq<NodeView> {
    let filter = target_filter(svc, ctx, world);
    if filter matches NodeFilterView::Named(names) && names.is_empty() && svc.pod_selector() is None {
        Seq::empty()
    } else {
        filter.select(world.nodes->Ok_0)
    }
}

/// Whenever a load balancer is brought in line, it has exactly the targets and
/// services that the service and the answers call for.
pub proof fn the_load_balancer_gets_its_targets(
    svc: ServiceView,
    ctx: ContextView,
    world: World,
    i: int,
)
    requires
        0 <= i < service_calls(svc, ctx, world).len(),
        service_calls(svc, ctx, world)[i] is ReconcileLoadBalancer,
    ensures
        has_usable_selector(svc, ctx),
        service_calls(svc, ctx, world)[i] == (StepView::ReconcileLoadBalancer {
            lb: final_load_balancer(svc, ctx, world),
        }),
{
    the_finalizer_comes_first(svc, ctx, world, i);
    let all = service_calls(svc, ctx, world);
    let start = service_start(svc);
    lemma_calls_start_at(start, world, svc, ctx);
    let second = next(start, world.reply(start), svc, ctx);
    assert(all[i] == all.drop_first()[i - 1]);
    let lb = world.load_balancer->Ok_0;
    let third = load_balancer_start(lb, svc, ctx);
    if svc.has_finalizer() {
        assert(second == third);
        lemma_balancing(lb, world, svc, ctx, i - 1);
    } else {
        lemma_calls_start_at(second, world, svc, ctx);
        assert(next(second, world.reply(second), svc, ctx) == third);
        assert(all.drop_first()[i - 1] == all.drop_first().drop_first()[i - 2]);
        lemma_balancing(lb, world, svc, ctx, i - 2);
    }
}

proof fn lemma_balancing(
    lb: LoadBalancerView,
    world: World,
    svc: ServiceView,
    ctx: ContextView,
    i: int,
)
    requires
        world.load_balancer == Ok::<LoadBalancerView, ErrorView>(lb),
        0 <= i < calls(load_balancer_start(lb, svc, ctx), world, svc, ctx).len(),
        calls(load_balancer_start(lb, svc, ctx), world, svc, ctx)[i] is ReconcileLoadBalancer,
    ensures
        has_usable_selector(svc, ctx),
        calls(load_balancer_start(lb, svc, ctx), world, svc, ctx)[i] == (
        StepView::ReconcileLoadBalancer { lb: final_load_balancer(svc, ctx, world) }),
{
    reveal_with_fuel(calls, 5);
}

/// The calls by which the targets of a service are found.
pub open spec fn lookup_calls(svc: ServiceView, ctx: ContextView, world: World) -> Seq<StepView> {
    let lb = world.load_balancer->Ok_0;
    let first = load_balancer_start(lb, svc, ctx);
    let list = StepView::ListNodes { filter: target_filter(svc, ctx, world), lb };
    if first is ListPods {
        seq![first, list]
    } else if first is ListEndpointSlices {
        if nodes_of_slices(world.endpoint_slices->Ok_0).is_empty() {
            seq![first]
        } else {
            seq![first, list]
        }
    } else {
        seq![list]
    }
}

/// The call that reports the addresses of a load balancer, if there is one.
pub open spec fn report_calls(svc: ServiceView, ctx: ContextView, world: World) -> Seq<StepView> {
    let step = reported(
        final_load_balancer(svc, ctx, world),
        world.reconcile->Ok_0,
        svc,
        ctx,
    );
    if step is Finish {
        Seq::empty()
    } else {
        seq![step]
    }
}

/// The finalizer is added to a service that does not carry it.
pub open spec fn finalizer_calls(svc: ServiceView, world: World) -> Seq<StepView> {
    if svc.has_finalizer() {
        Seq::empty()
    } else {
        seq![StepView::AddFinalizer { lb: world.load_balancer->Ok_0 }]
    }
}

/// Whether none of the calls that are made fails.
pub open spec fn no_call_fails(svc: ServiceView, ctx: ContextView, world: World) -> bool {
    forall|i: int|
        0 <= i < service_calls(svc, ctx, world).len() ==> !(world.reply(
            #[trigger] service_calls(svc, ctx, world)[i],
        ) is Failed)
}

/// A reconciliation succeeds exactly if the service is one that this operator
/// serves, it is being deleted or can be balanced, and none of the calls that are
/// made fails.
pub proof fn when_a_reconciliation_succeeds(svc: ServiceView, ctx: ContextView, world: World)
    ensures
        service_outcome(svc, ctx, world) is Ok <==> {
            &&& svc.is_served()
            &&& svc.metadata.deletion_requested || has_usable_selector(svc, ctx)
            &&& no_call_fails(svc, ctx, world)
        },
{
    let all = service_calls(svc, ctx, world);
    if service_outcome(svc, ctx, world) is Ok {
        assert forall|i: int| 0 <= i < all.len() implies !(world.reply(
            #[trigger] service_calls(svc, ctx, world)[i],
        ) is Failed) by {
            if let ReplyView::Failed(e) = world.reply(all[i]) {
                a_failed_call_ends_the_run(svc, ctx, world, i, e);
            }
        }
        reveal_with_fuel(outcome, 4);
    } else if svc.is_served() && (svc.metadata.deletion_requested || has_usable_selector(svc, ctx))
        && no_call_fails(svc, ctx, world) {
        lemma_unfailed_run_succeeds(service_start(svc), world, svc, ctx);
    }
}

proof fn lemma_unfailed_run_succeeds(
    step: StepView,
    world: World,
    svc: ServiceView,
    ctx: ContextView,
)
    requires
        step matches StepView::Finish(result) ==> result is Ok,
        has_usable_selector(svc, ctx) || (svc.metadata.deletion_requested && !(
        step is AddFinalizer)),
        forall|i: int|
            0 <= i < calls(step, world, svc, ctx).len() ==> !(world.reply(
                #[trigger] calls(step, world, svc, ctx)[i],
            ) is Failed),
    ensures
        outcome(step, world, svc, ctx) is Ok,
    decreases calls_left(step),
{
    if !(step is Finish) {
        lemma_calls_start_at(step, world, svc, ctx);
        let all = calls(step, world, svc, ctx);
        let after = next(step, world.reply(step), svc, ctx);
        assert(!(world.reply(all[0]) is Failed));
        assert forall|i: int| 0 <= i < calls(after, world, svc, ctx).len() implies !(world.reply(
            #[trigger] calls(after, world, svc, ctx)[i],
        ) is Failed) by {
            assert(all.drop_first()[i] == all[i + 1]);
        }
        lemma_unfailed_run_succeeds(after, world, svc, ctx);
    }
}

/// The whole reconciliation of a service that is not being deleted, whenever it
/// succeeds: the finalizer is seen to, the targets are found, the load balancer
/// is brought in line, its addresses are reported, and the service is looked at
/// again later.
pub proof fn a_live_service_is_balanced(svc: ServiceView, ctx: ContextView, world: World)
    requires
        !svc.metadata.deletion_requested,
        service_outcome(svc, ctx, world) is Ok,
    ensures
        service_calls(svc, ctx, world) == seq![StepView::BuildLoadBalancer] + finalizer_calls(
            svc,
            world,
        ) + lookup_calls(svc, ctx, world) + seq![
            StepView::ReconcileLoadBalancer { lb: final_load_balancer(svc, ctx, world) },
        ] + report_calls(svc, ctx, world),
        service_outcome(svc, ctx, world) == Ok::<Action, ErrorView>(
            Action::Requeue { seconds: REQUEUE_SECONDS },
        ),
{
    reveal_with_fuel(calls, 8);
    reveal_with_fuel(outcome, 8);
    assert(service_calls(svc, ctx, world) =~= seq![StepView::BuildLoadBalancer] + finalizer_calls(
        svc,
        world,
    ) + lookup_calls(svc, ctx, world) + seq![
        StepView::ReconcileLoadBalancer { lb: final_load_balancer(svc, ctx, world) },
    ] + report_calls(svc, ctx, world));
}

/// A service that needs a node selector and has none, or one that is not a
/// filter, fails for that reason, before any node is looked up and before
/// anything is asked of the cloud.
pub proof fn a_selector_is_needed(svc: ServiceView, ctx: ContextView, world: World)
    requires
        svc.is_served(),
        !svc.metadata.deletion_requested,
        !has_usable_selector(svc, ctx),
        world.load_balancer is Ok,
        svc.has_finalizer() || world.add_finalizer is Ok,
    ensures
        service_calls(svc, ctx, world) == seq![StepView::BuildLoadBalancer] + finalizer_calls(
            svc,
            world,
        ),
        service_outcome(svc, ctx, world) == Err::<Action, ErrorView>(
            if svc.metadata.all_annotations().contains_key(LB_NODE_SELECTOR@) {
                filter_of(svc.metadata.all_annotations()[LB_NODE_SELECTOR@])->Err_0
            } else {
                ErrorView::ServiceWithoutSelector
            },
        ),
{
    reveal_with_fuel(calls, 4);
    reveal_with_fuel(outcome, 4);
    assert(service_calls(svc, ctx, world) =~= seq![StepView::BuildLoadBalancer] + finalizer_calls(
        svc,
        world,
    ));
}

/// The status of a service is patched only after its load balancer was brought
/// in line, only with the addresses that the cloud reported for it, of which
/// there is at least one, and only if the load balancer exposes a port.
pub proof fn only_reachable_services_are_reported(
    svc: ServiceView,
    ctx: ContextView,
    world: World,
    i: int,
)
    requires
        0 <= i < service_calls(svc, ctx, world).len(),
        service_calls(svc, ctx, world)[i] is PatchStatus,
    ensures
        i > 0,
        service_calls(svc, ctx, world)[i - 1] == (StepView::ReconcileLoadBalancer {
            lb: final_load_balancer(svc, ctx, world),
        }),
        world.reconcile is Ok,
        final_load_balancer(svc, ctx, world).services.len() > 0,
        world.reconcile->Ok_0.ingress(ctx.config.ipv6_ingress).len() > 0,
        service_calls(svc, ctx, world)[i] == (StepView::PatchStatus {
            namespace: ctx.namespace_of(svc.metadata),
            name: svc.metadata.name_any(),
            patch: status_patch(world.reconcile->Ok_0.ingress(ctx.config.ipv6_ingress)),
        }),
{
    lemma_patch_follows_reconcile(service_start(svc), world, svc, ctx, i);
    the_load_balancer_gets_its_targets(svc, ctx, world, i - 1);
}

proof fn lemma_patch_follows_reconcile(
    step: StepView,
    world: World,
    svc: ServiceView,
    ctx: ContextView,
    i: int,
)
    requires
        !(step is PatchStatus),
        0 <= i < calls(step, world, svc, ctx).len(),
        calls(step, world, svc, ctx)[i] is PatchStatus,
    ensures
        i > 0,
        calls(step, world, svc, ctx)[i - 1] is ReconcileLoadBalancer,
        world.reconcile is Ok,
        calls(step, world, svc, ctx)[i] == reported(
            calls(step, world, svc, ctx)[i - 1]->ReconcileLoadBalancer_lb,
            world.reconcile->Ok_0,
            svc,
            ctx,
        ),
    decreases calls_left(step),
{
    lemma_calls_start_at(step, world, svc, ctx);
    let after = next(step, world.reply(step), svc, ctx);
    let all = calls(step, world, svc, ctx);
    assert(all[i] == all.drop_first()[i - 1]);
    if after is PatchStatus {
        lemma_calls_start_at(after, world, svc, ctx);
        if i > 1 {
            lemma_calls_descend(after, world, svc, ctx, 0, i - 1);
        }
    } else {
        lemma_patch_follows_reconcile(after, world, svc, ctx, i - 1);
        assert(all[i - 1] == all.drop_first()[i - 2]);
    }
}

} // verus!
