//! The load balancer that a service asks for, and what the cloud reports of it.

use crate::consts::{LB_NAME_ANNOTATION, LB_NETWORK_ANNOTATION};
use crate::objects::{Service, ServiceView};
use crate::text::{excluding, not_among};
use vstd::prelude::*;

verus! {

/// A port of the load balancer: traffic that arrives at `listen_port` goes to
/// `target_port` of a target.
#[derive(Debug, Clone, Copy, PartialEq, Eq, Structural)]
pub struct LBService {
    pub listen_port: i32,
    pub target_port: i32,
}

/// The load balancer of a service: the network it is attached to, if any, and
/// the targets and services that it shall have, in the order of their addition.
#[derive(Debug)]
pub struct LoadBalancer {
    pub network_name: Option<String>,
    pub targets: Vec<String>,
    pub services: Vec<LBService>,
}

/// What a [`LoadBalancer`] says.
pub struct LoadBalancerView {
    pub network_name: Option<Seq<char>>,
    pub targets: Seq<Seq<char>>,
    pub services: Seq<LBService>,
}

impl DeepView for LoadBalancer {
    type V = LoadBalancerView;

    open spec fn deep_view(&self) -> LoadBalancerView {
        LoadBalancerView {
            network_name: self.network_name.deep_view(),
            targets: self.targets.deep_view(),
            services: self.services@,
        }
    }
}

impl ServiceView {
    /// The name of its load balancer: the one that it asks for, or its own.
    pub open spec fn balancer_name(self) -> Seq<char> {
        let annotations = self.metadata.all_annotations();
        if annotations.contains_key(LB_NAME_ANNOTATION@) {
            annotations[LB_NAME_ANNOTATION@]
        } else {
            self.metadata.name_any()
        }
    }

    /// The network of its load balancer: the one that it asks for, or the default
    /// one, if there is any.
    pub open spec fn network_name(self, default_network: Option<Seq<char>>) -> Option<Seq<char>> {
        let annotations = self.metadata.all_annotations();
        if annotations.contains_key(LB_NETWORK_ANNOTATION@) {
            Some(annotations[LB_NETWORK_ANNOTATION@])
        } else {
            default_network
        }
    }
}

/// The name of the load balancer of a service.
pub fn balancer_name(svc: &Service) -> (r: String)
    ensures
        r@ == svc.deep_view().balancer_name(),
{
    match svc.metadata.annotation(LB_NAME_ANNOTATION) {
        Some(name) => name.clone(),
        None => svc.metadata.name_any(),
    }
}

impl LoadBalancer {
    /// The load balancer of a service, before it has targets and services.
    pub fn of_service(svc: &Service, default_network: Option<String>) -> (r: LoadBalancer)
        ensures
            r.deep_view() == (LoadBalancerView {
                network_name: svc.deep_view().network_name(default_network.deep_view()),
                targets: Seq::empty(),
                services: Seq::empty(),
            }),
    {
        match svc.metadata.annotation(LB_NETWORK_ANNOTATION) {
            Some(network) => LoadBalancer::new(Some(network.clone())),
            None => LoadBalancer::new(default_network),
        }
    }

    /// A load balancer without targets and services.
    pub fn new(network_name: Option<String>) -> (r: LoadBalancer)
        ensures
            r.deep_view() == (LoadBalancerView {
                network_name: network_name.deep_view(),
                targets: Seq::empty(),
                services: Seq::empty(),
            }),
    {
        let r = LoadBalancer { network_name, targets: Vec::new(), services: Vec::new() };
        assert(r.targets.deep_view() =~= Seq::empty());
        assert(r.services@ =~= Seq::empty());
        r
    }

    /// Add the address of a node to the targets.
    pub fn add_target(&mut self, address: &str)
        ensures
            final(self).deep_view() == (LoadBalancerView {
                targets: old(self).deep_view().targets.push(address@),
                ..old(self).deep_view()
            }),
    {
        self.targets.push(address.to_owned());
        assert(self.targets.deep_view() =~= old(self).targets.deep_view().push(address@));
    }

    /// Add a port to the services.
    pub fn add_service(&mut self, listen_port: i32, target_port: i32)
        ensures
            final(self).deep_view() == (LoadBalancerView {
                services: old(self).deep_view().services.push(
                    (LBService { listen_port, target_port }),
                ),
                ..old(self).deep_view()
            }),
    {
        self.services.push(LBService { listen_port, target_port });
    }
}

fn services_not_among(services: &Vec<LBService>, others: &Vec<LBService>) -> (r: Vec<LBService>)
    ensures
        r@ == excluding(services@, others@),
{
    let ghost pred = |s: LBService| !others@.contains(s);
    let mut rest: Vec<LBService> = Vec::new();
    let mut i: usize = 0;
    assert(rest@ =~= services@.take(0).filter(pred));
    while i < services.len()
        invariant
            i <= services@.len(),
            pred == (|s: LBService| !others@.contains(s)),
            rest@ == services@.take(i as int).filter(pred),
        decreases services@.len() - i,
    {
        let mut found = false;
        let mut j: usize = 0;
        while j < others.len() && !found
            invariant
                i < services@.len(),
                j <= others@.len(),
                found ==> others@.contains(services@[i as int]),
                !found ==> forall|k: int| 0 <= k < j ==> #[trigger] others@[k] != services@[i as int],
            decreases others@.len() - j,
        {
            found = others[j] == services[i];
            j = j + 1;
        }
        if !found {
            rest.push(services[i]);
        }
        proof {
            assert(services@.take(i + 1) =~= services@.take(i as int).push(services@[i as int]));
            services@.take(i as int).lemma_filter_push(services@[i as int], pred);
        }
        i = i + 1;
    }
    assert(services@.take(i as int) == services@);
    rest
}

impl LoadBalancer {
    /// The targets to add where the cloud has the targets `current`.
    pub fn targets_to_add(&self, current: &Vec<String>) -> (r: Vec<String>)
        ensures
            r.deep_view() == excluding(self.deep_view().targets, current.deep_view()),
    {
        not_among(&self.targets, current)
    }

    /// The targets to remove where the cloud has the targets `current`.
    pub fn targets_to_remove(&self, current: &Vec<String>) -> (r: Vec<String>)
        ensures
            r.deep_view() == excluding(current.deep_view(), self.deep_view().targets),
    {
        not_among(current, &self.targets)
    }

    /// The services to add where the cloud has the services `current`.
    pub fn services_to_add(&self, current: &Vec<LBService>) -> (r: Vec<LBService>)
        ensures
            r@ == excluding(self.deep_view().services, current@),
    {
        services_not_among(&self.services, current)
    }

    /// The services to remove where the cloud has the services `current`.
    pub fn services_to_remove(&self, current: &Vec<LBService>) -> (r: Vec<LBService>)
        ensures
            r@ == excluding(current@, self.deep_view().services),
    {
        services_not_among(current, &self.services)
    }
}

/// A public address of a load balancer, and the name that resolves to it. The
/// cloud may leave either out, or report that there is none.
#[derive(Debug)]
pub struct PublicAddress {
    pub ip: Option<Option<String>>,
    pub dns_ptr: Option<Option<String>>,
}

/// What a [`PublicAddress`] says.
pub struct PublicAddressView {
    pub ip: Option<Option<Seq<char>>>,
    pub dns_ptr: Option<Option<Seq<char>>>,
}

impl DeepView for PublicAddress {
    type V = PublicAddressView;

    open spec fn deep_view(&self) -> PublicAddressView {
        PublicAddressView { ip: self.ip.deep_view(), dns_ptr: self.dns_ptr.deep_view() }
    }
}

/// The public addresses of a load balancer.
#[derive(Debug)]
pub struct PublicNet {
    pub ipv4: PublicAddress,
    pub ipv6: PublicAddress,
}

/// What a [`PublicNet`] says.
pub struct PublicNetView {
    pub ipv4: PublicAddressView,
    pub ipv6: PublicAddressView,
}

impl DeepView for PublicNet {
    type V = PublicNetView;

    open spec fn deep_view(&self) -> PublicNetView {
        PublicNetView { ipv4: self.ipv4.deep_view(), ipv6: self.ipv6.deep_view() }
    }
}

} // verus!
