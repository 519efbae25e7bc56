//! The status that a service gets: the addresses under which it is reached.

use crate::lb::{PublicAddress, PublicAddressView, PublicNet, PublicNetView};
use vstd::prelude::*;

verus! {

/// One address under which a service is reached.
#[derive(Debug)]
pub struct LoadBalancerIngress {
    pub ip: String,
    pub dns: Option<String>,
    pub ip_mode: String,
}

/// What a [`LoadBalancerIngress`] says.
pub struct IngressView {
    pub ip: Seq<char>,
    pub dns: Option<Seq<char>>,
    pub ip_mode: Seq<char>,
}

impl DeepView for LoadBalancerIngress {
    type V = IngressView;

    open spec fn deep_view(&self) -> IngressView {
        IngressView { ip: self.ip@, dns: self.dns.deep_view(), ip_mode: self.ip_mode@ }
    }
}

/// The addresses under which a service is reached.
#[derive(Debug)]
pub struct LoadBalancerStatus {
    pub ingress: Vec<LoadBalancerIngress>,
}

/// The status of a service.
#[derive(Debug)]
pub struct ServiceStatus {
    pub load_balancer: LoadBalancerStatus,
}

/// The merge patch that reports the addresses of a service in its status.
#[derive(Debug)]
pub struct StatusPatch {
    pub status: ServiceStatus,
}

/// What a [`StatusPatch`] says.
pub struct StatusPatchView {
    pub status: ServiceStatusView,
}

/// What a [`ServiceStatus`] says.
pub struct ServiceStatusView {
    pub load_balancer: LoadBalancerStatusView,
}

/// What a [`LoadBalancerStatus`] says.
pub struct LoadBalancerStatusView {
    pub ingress: Seq<IngressView>,
}

impl DeepView for StatusPatch {
    type V = StatusPatchView;

    open spec fn deep_view(&self) -> StatusPatchView {
        status_patch(self.status.load_balancer.ingress.deep_view())
    }
}

/// The patch that reports the given addresses.
pub open spec fn status_patch(ingress: Seq<IngressView>) -> StatusPatchView {
    StatusPatchView {
        status: ServiceStatusView { load_balancer: LoadBalancerStatusView { ingress } },
    }
}

/// Drop the distinction between what was left out and what is not there.
pub open spec fn flat(value: Option<Option<Seq<char>>>) -> Option<Seq<char>> {
    match value {
        Some(value) => value,
        None => None,
    }
}

impl PublicAddressView {
    /// The entry for this address: there is one if there is an address.
    pub open spec fn ingress(self) -> Seq<IngressView> {
        match flat(self.ip) {
            Some(ip) => seq![IngressView { ip, dns: flat(self.dns_ptr), ip_mode: "VIP"@ }],
            None => Seq::empty(),
        }
    }
}

impl PublicNetView {
    /// The entries for the public addresses: the IPv4 address first, and after
    /// it, if asked for, the IPv6 address.
    pub open spec fn ingress(self, ipv6_ingress: bool) -> Seq<IngressView> {
        if ipv6_ingress {
            self.ipv4.ingress() + self.ipv6.ingress()
        } else {
            self.ipv4.ingress()
        }
    }
}

fn push_ingress(ingress: &mut Vec<LoadBalancerIngress>, address: PublicAddress)
    ensures
        final(ingress).deep_view() == old(ingress).deep_view() + address.deep_view().ingress(),
{
    let ghost before = ingress.deep_view();
    let ghost entry = address.deep_view().ingress();
    if let Some(Some(ip)) = address.ip {
        let dns = match address.dns_ptr {
            Some(name) => name,
            None => None,
        };
        ingress.push(LoadBalancerIngress { ip, dns, ip_mode: "VIP".to_owned() });
        assert(ingress.deep_view() =~= before + entry);
    } else {
        assert(ingress.deep_view() =~= before + entry);
    }
}

/// The entries for the public addresses of a load balancer.
pub fn ingress_of(net: PublicNet, ipv6_ingress: bool) -> (r: Vec<LoadBalancerIngress>)
    ensures
        r.deep_view() == net.deep_view().ingress(ipv6_ingress),
{
    let mut ingress: Vec<LoadBalancerIngress> = Vec::new();
    let ghost view = net.deep_view();
    assert(ingress.deep_view() =~= Seq::empty());
    push_ingress(&mut ingress, net.ipv4);
    assert(ingress.deep_view() =~= view.ipv4.ingress());
    if ipv6_ingress {
        push_ingress(&mut ingress, net.ipv6);
    }
    ingress
}

impl StatusPatch {
    /// The patch that reports the given addresses.
    pub fn new(ingress: Vec<LoadBalancerIngress>) -> (r: StatusPatch)
        ensures
            r.deep_view() == status_patch(ingress.deep_view()),
    {
        StatusPatch { status: ServiceStatus { load_balancer: LoadBalancerStatus { ingress } } }
    }
}

} // verus!
