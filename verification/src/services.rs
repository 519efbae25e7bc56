//! What a service asks for: whether this operator serves it, how its traffic
//! is routed, and which of its ports are exposed.

use crate::consts::ROBOTLB_LB_CLASS;
use crate::lb::LBService;
use crate::objects::{Service, ServicePort, ServicePortView, ServiceView};
use crate::text::same;
use vstd::prelude::*;

verus! {

/// Why a service is not served.
#[derive(Debug, Clone, Copy, PartialEq, Eq, Structural)]
pub enum ServiceSkip {
    /// It is not of the type `LoadBalancer`.
    Type,
    /// It is of the class of another operator.
    Class,
}

/// Why a port of a service is not exposed.
#[derive(Debug, Clone, Copy, PartialEq, Eq, Structural)]
pub enum PortSkip {
    /// Its protocol is not TCP.
    Protocol,
    /// It has no node port.
    NoNodePort,
}

impl ServicePortView {
    /// Why it is not exposed, if it is not. The protocol is looked at first.
    pub open spec fn skip(self) -> Option<PortSkip> {
        if self.protocol is Some && self.protocol != Some("TCP"@) {
            Some(PortSkip::Protocol)
        } else if self.node_port is None {
            Some(PortSkip::NoNodePort)
        } else {
            None
        }
    }

    /// The port of the load balancer for this port: there is one for a TCP port
    /// that has a node port. A port without a protocol is a TCP port.
    pub open spec fn lb_service(self) -> Option<LBService> {
        let tcp = match self.protocol {
            Some(protocol) => protocol == "TCP"@,
            None => true,
        };
        match self.node_port {
            Some(node_port) if tcp => Some(
                LBService { listen_port: self.port, target_port: node_port },
            ),
            _ => None,
        }
    }
}

impl ServiceView {
    /// Whether this operator serves the service: it is of the type
    /// `LoadBalancer`, and of the class of this operator or of no class.
    pub open spec fn is_served(self) -> bool {
        match self.spec {
            Some(spec) => spec.type_ == Some("LoadBalancer"@) && match spec.load_balancer_class {
                Some(class) => class == ROBOTLB_LB_CLASS@,
                None => true,
            },
            None => false,
        }
    }

    /// Why it is not served, if it is not. The type is looked at first.
    pub open spec fn skip(self) -> Option<ServiceSkip> {
        if self.is_served() {
            None
        } else if self.spec is Some && self.spec->0.type_ == Some("LoadBalancer"@) {
            Some(ServiceSkip::Class)
        } else {
            Some(ServiceSkip::Type)
        }
    }

    /// Whether only the nodes that host its endpoints shall get its traffic.
    pub open spec fn is_local_traffic_policy(self) -> bool {
        self.spec is Some && self.spec->0.external_traffic_policy == Some("Local"@)
    }

    /// The labels of its pods, unless there are none to look for.
    pub open spec fn pod_selector(self) -> Option<Map<Seq<char>, Seq<char>>> {
        match self.spec {
            Some(spec) => match spec.selector {
                Some(selector) if selector != Map::<Seq<char>, Seq<char>>::empty() => Some(
                    selector,
                ),
                _ => None,
            },
            None => None,
        }
    }

    /// Its ports; none where there is no list of ports.
    pub open spec fn all_ports(self) -> Seq<ServicePortView> {
        match self.spec {
            Some(spec) => match spec.ports {
                Some(ports) => ports,
                None => Seq::empty(),
            },
            None => Seq::empty(),
        }
    }

    /// The ports of its load balancer, in the order of its ports.
    pub open spec fn lb_services(self) -> Seq<LBService> {
        self.all_ports().filter_map(|port: ServicePortView| port.lb_service())
    }
}

fn equals(value: &Option<String>, text: &str) -> (r: bool)
    ensures
        r == (value.deep_view() == Some(text@)),
{
    match value {
        Some(value) => same(value.as_str(), text),
        None => false,
    }
}

/// Why this operator does not serve the service, if it does not.
pub fn why_skipped(svc: &Service) -> (r: Option<ServiceSkip>)
    ensures
        r == svc.deep_view().skip(),
{
    match &svc.spec {
        Some(spec) => if !equals(&spec.type_, "LoadBalancer") {
            Some(ServiceSkip::Type)
        } else if spec.load_balancer_class.is_some() && !equals(
            &spec.load_balancer_class,
            ROBOTLB_LB_CLASS,
        ) {
            Some(ServiceSkip::Class)
        } else {
            None
        },
        None => Some(ServiceSkip::Type),
    }
}

/// Whether this operator serves the service.
pub fn is_served(svc: &Service) -> (r: bool)
    ensures
        r == svc.deep_view().is_served(),
{
    why_skipped(svc).is_none()
}

/// Whether the service asks for traffic to reach only the nodes that host its
/// endpoints. Under the default `Cluster` policy every node is a valid target,
/// because kube-proxy forwards the traffic to a node that actually hosts a pod.
///
/// <https://kubernetes.io/docs/reference/networking/virtual-ips/#external-traffic-policy>
pub fn is_local_traffic_policy(svc: &Service) -> (r: bool)
    ensures
        r == svc.deep_view().is_local_traffic_policy(),
{
    match &svc.spec {
        Some(spec) => equals(&spec.external_traffic_policy, "Local"),
        None => false,
    }
}

/// Why the port cannot be exposed, if it cannot.
pub fn why_port_skipped(port: &ServicePort) -> (r: Option<PortSkip>)
    ensures
        r == port.deep_view().skip(),
{
    if port.protocol.is_some() && !equals(&port.protocol, "TCP") {
        Some(PortSkip::Protocol)
    } else if port.node_port.is_none() {
        Some(PortSkip::NoNodePort)
    } else {
        None
    }
}

fn lb_service(port: &ServicePort) -> (r: Option<LBService>)
    ensures
        r == port.deep_view().lb_service(),
{
    if why_port_skipped(port).is_some() {
        return None;
    }
    match port.node_port {
        Some(node_port) => Some(LBService { listen_port: port.port, target_port: node_port }),
        None => None,
    }
}

/// Map the ports of a service onto load balancer services. Only TCP ports can
/// be exposed, and only those with a node port: the load balancer forwards
/// traffic to the addresses of nodes.
pub fn collect_lb_services(svc: &Service) -> (r: Vec<LBService>)
    ensures
        r@ == svc.deep_view().lb_services(),
{
    let ghost f = |port: ServicePortView| port.lb_service();
    let mut services: Vec<LBService> = Vec::new();
    let ports = match &svc.spec {
        Some(spec) => &spec.ports,
        None => &None,
    };
    if let Some(ports) = ports {
        let mut i: usize = 0;
        assert(services@ =~= ports.deep_view().take(0).filter_map(f));
        while i < ports.len()
            invariant
                i <= ports@.len(),
                f == (|port: ServicePortView| port.lb_service()),
                services@ == ports.deep_view().take(i as int).filter_map(f),
            decreases ports@.len() - i,
        {
            if let Some(service) = lb_service(&ports[i]) {
                services.push(service);
            }
            proof {
                ports.deep_view().lemma_filter_map_take_succ(f, i as int);
            }
            i = i + 1;
        }
        assert(ports.deep_view().take(i as int) == ports.deep_view());
    }
    services
}

} // verus!
