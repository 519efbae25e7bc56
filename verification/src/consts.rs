//! Names that the operator looks for in, and writes to, Kubernetes objects.

use vstd::prelude::*;

verus! {

/// The load balancer class that this operator serves. A service without a
/// class is served too.
pub const ROBOTLB_LB_CLASS: &'static str = "robotlb";

/// The service annotation that holds the node selector.
pub const LB_NODE_SELECTOR: &'static str = "robotlb/node-selector";

/// The service annotation that names the load balancer.
pub const LB_NAME_ANNOTATION: &'static str = "robotlb/balancer";

/// The service annotation that names the network of the load balancer.
pub const LB_NETWORK_ANNOTATION: &'static str = "robotlb/lb-network";

/// The finalizer that keeps a service until its load balancer is gone.
pub const FINALIZER_NAME: &'static str = "robotlb/finalizer";

/// The label by which a cluster keeps a node out of external load balancers.
pub const EXCLUDE_FROM_LB_LABEL_NAME: &'static str =
    "node.kubernetes.io/exclude-from-external-load-balancers";

/// The label by which an endpoint slice names its service.
pub const SERVICE_NAME_LABEL: &'static str = "kubernetes.io/service-name";

/// The seconds until a reconciled or failed service is looked at again.
pub const REQUEUE_SECONDS: u64 = 30;

} // verus!
