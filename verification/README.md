# robotlb

An operator that gives Kubernetes services of the type `LoadBalancer` a load
balancer in the Hetzner Cloud, for clusters whose nodes are reached by their
addresses.

- `src/` is the library, verified with Verus: which services are served, which
  load balancer a service asks for, which calls are made in which order, which
  nodes become targets, which ports are exposed, and what is reported.
  `reconcile` is a state machine. A `Step` names the call to make next, and
  `resume` takes its answer to the following step. `runs` states what holds of
  whole reconciliations, `laws` what holds of their parts.
- `tests/` runs the library on examples.
- `app/` is the operator: the command line, the controller loop, the calls to
  the cluster and to the cloud, the log, and the conversions between their types
  and those of the library. What hangs on the answers of the cloud is decided
  here, unverified: a load balancer that the cloud does not have is created, one
  that is not in its network yet is attached to it, a network that the cloud does
  not know is an error, and a load balancer that is gone needs no removal.

## What happens to a service

A service of another type, or of another load balancer class, is skipped. The
load balancer of a service that is being deleted is removed, and then the
finalizer that held the service back. Any other service gets the finalizer
first. Then the nodes that become targets are found:

- with the dynamic node selector, under the `Local` traffic policy: the nodes
  that host a pod that the service selects, or, if it has no selector, a ready
  endpoint of its endpoint slices;
- with the dynamic node selector, under any other policy: every node that is not
  cordoned and not kept out of external load balancers by its label;
- else: the nodes that meet the annotation `robotlb/node-selector`.

Their internal addresses become targets if the load balancer is in a network,
which the annotation `robotlb/lb-network` or the settings name, else their
external ones. Each TCP port with a node port is exposed. The public
addresses of the load balancer are reported in the status of the service, if it
exposes a port at all.
