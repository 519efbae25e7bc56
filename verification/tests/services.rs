use robotlb::consts;
use robotlb::finalizers;
use robotlb::lb::{balancer_name, LBService, LoadBalancer};
use robotlb::nodes::{is_lb_eligible_node, why_not_eligible, NodeExclusion};
use robotlb::objects::{Node, NodeSpec, ObjectMeta, Service, ServicePort, ServiceSpec};
use robotlb::services::{
    collect_lb_services, is_local_traffic_policy, is_served, why_port_skipped, why_skipped,
    PortSkip, ServiceSkip,
};
use robotlb::string_map::StringMap;

fn service(spec: ServiceSpec) -> Service {
    Service {
        spec: Some(spec),
        ..Default::default()
    }
}

fn map(entries: &[(&str, &str)]) -> StringMap {
    let mut map = StringMap::new();
    for (key, value) in entries {
        map.insert((*key).to_string(), (*value).to_string());
    }
    map
}

fn node(labels: &[(&str, &str)], unschedulable: bool) -> Node {
    Node {
        metadata: ObjectMeta {
            labels: Some(map(labels)),
            ..Default::default()
        },
        spec: Some(NodeSpec {
            unschedulable: Some(unschedulable),
        }),
        ..Default::default()
    }
}

#[test]
fn cluster_policy_is_not_local() {
    let svc = service(ServiceSpec {
        external_traffic_policy: Some("Cluster".into()),
        ..Default::default()
    });
    assert!(!is_local_traffic_policy(&svc));
}

#[test]
fn unset_policy_defaults_to_cluster() {
    assert!(!is_local_traffic_policy(&service(ServiceSpec::default())));
}

#[test]
fn local_policy_is_local() {
    let svc = service(ServiceSpec {
        external_traffic_policy: Some("Local".into()),
        ..Default::default()
    });
    assert!(is_local_traffic_policy(&svc));
}

#[test]
fn a_service_without_spec_is_not_local() {
    assert!(!is_local_traffic_policy(&Service::default()));
}

#[test]
fn ports_map_listen_port_to_node_port() {
    let svc = service(ServiceSpec {
        ports: Some(vec![ServicePort {
            port: 22,
            node_port: Some(30821),
            protocol: Some("TCP".into()),
        }]),
        ..Default::default()
    });
    let services = collect_lb_services(&svc);
    assert_eq!(services.len(), 1);
    assert_eq!(services[0].listen_port, 22);
    assert_eq!(services[0].target_port, 30821);
}

#[test]
fn ports_without_protocol_are_treated_as_tcp() {
    let svc = service(ServiceSpec {
        ports: Some(vec![ServicePort {
            port: 80,
            node_port: Some(31571),
            ..Default::default()
        }]),
        ..Default::default()
    });
    let services = collect_lb_services(&svc);
    assert_eq!(services.len(), 1);
    assert_eq!(services[0].listen_port, 80);
    assert_eq!(services[0].target_port, 31571);
}

#[test]
fn udp_ports_are_skipped() {
    let svc = service(ServiceSpec {
        ports: Some(vec![ServicePort {
            port: 53,
            node_port: Some(30053),
            protocol: Some("UDP".into()),
        }]),
        ..Default::default()
    });
    assert!(collect_lb_services(&svc).is_empty());
}

#[test]
fn ports_without_node_port_are_skipped() {
    let svc = service(ServiceSpec {
        ports: Some(vec![ServicePort {
            port: 22,
            protocol: Some("TCP".into()),
            ..Default::default()
        }]),
        ..Default::default()
    });
    assert!(collect_lb_services(&svc).is_empty());
}

#[test]
fn exposed_ports_keep_their_order() {
    let port = |port: i32, node_port: Option<i32>, protocol: &str| ServicePort {
        port,
        node_port,
        protocol: Some(protocol.to_string()),
    };
    let svc = service(ServiceSpec {
        ports: Some(vec![
            port(443, Some(30443), "TCP"),
            port(53, Some(30053), "UDP"),
            port(25, None, "TCP"),
            port(80, Some(30080), "TCP"),
        ]),
        ..Default::default()
    });
    let pairs: Vec<(i32, i32)> = collect_lb_services(&svc)
        .iter()
        .map(|s| (s.listen_port, s.target_port))
        .collect();
    assert_eq!(pairs, vec![(443, 30443), (80, 30080)]);
    assert!(collect_lb_services(&Service::default()).is_empty());
    assert!(collect_lb_services(&service(ServiceSpec::default())).is_empty());
}

#[test]
fn plain_node_is_eligible() {
    assert!(is_lb_eligible_node(&node(
        &[("kubernetes.io/hostname", "ws1")],
        false
    )));
}

#[test]
fn excluded_node_is_not_eligible() {
    assert!(!is_lb_eligible_node(&node(
        &[(consts::EXCLUDE_FROM_LB_LABEL_NAME, "")],
        false
    )));
}

#[test]
fn cordoned_node_is_not_eligible() {
    assert!(!is_lb_eligible_node(&node(&[], true)));
}

#[test]
fn a_node_that_says_nothing_is_eligible() {
    assert!(is_lb_eligible_node(&Node::default()));
    assert!(is_lb_eligible_node(&Node {
        spec: Some(NodeSpec::default()),
        ..Default::default()
    }));
}

#[test]
fn only_load_balancers_of_the_own_class_are_served() {
    let of = |type_: Option<&str>, class: Option<&str>| {
        is_served(&service(ServiceSpec {
            type_: type_.map(str::to_string),
            load_balancer_class: class.map(str::to_string),
            ..Default::default()
        }))
    };
    assert!(of(Some("LoadBalancer"), None));
    assert!(of(Some("LoadBalancer"), Some(consts::ROBOTLB_LB_CLASS)));
    assert!(!of(Some("LoadBalancer"), Some("other")));
    assert!(!of(Some("ClusterIP"), None));
    assert!(!of(None, None));
    assert!(!is_served(&Service::default()));
}

#[test]
fn the_finalizer_is_found_among_others() {
    let of = |finalizers: Option<Vec<String>>| {
        finalizers::check(&Service {
            metadata: ObjectMeta {
                finalizers,
                ..Default::default()
            },
            ..Default::default()
        })
    };
    assert!(of(Some(vec![
        "other/finalizer".to_string(),
        consts::FINALIZER_NAME.to_string()
    ])));
    assert!(!of(Some(vec!["other/finalizer".to_string()])));
    assert!(!of(Some(vec![])));
    assert!(!of(None));
}

#[test]
fn the_finalizer_is_added_after_the_others() {
    let mut svc = Service::default();
    assert_eq!(finalizers::with_ours(&svc), vec![consts::FINALIZER_NAME]);
    svc.metadata.finalizers = Some(vec!["other".to_string()]);
    assert_eq!(
        finalizers::with_ours(&svc),
        vec!["other", consts::FINALIZER_NAME]
    );
}

#[test]
fn removing_the_finalizer_keeps_the_others() {
    let mut svc = Service::default();
    assert!(finalizers::without_ours(&svc).is_empty());
    svc.metadata.finalizers = Some(vec![
        "first".to_string(),
        consts::FINALIZER_NAME.to_string(),
        "last".to_string(),
    ]);
    assert_eq!(finalizers::without_ours(&svc), vec!["first", "last"]);
}

#[test]
fn the_cloud_is_brought_to_the_wanted_targets_and_services() {
    let mut lb = LoadBalancer::new(None);
    lb.add_target("10.0.0.1");
    lb.add_target("10.0.0.2");
    lb.add_service(80, 30080);
    lb.add_service(443, 30443);

    let targets = vec!["10.0.0.2".to_string(), "10.0.0.3".to_string()];
    assert_eq!(lb.targets_to_add(&targets), vec!["10.0.0.1"]);
    assert_eq!(lb.targets_to_remove(&targets), vec!["10.0.0.3"]);

    let service = |listen_port, target_port| LBService {
        listen_port,
        target_port,
    };
    let services = vec![service(80, 30080), service(443, 31000)];
    assert_eq!(lb.services_to_add(&services), vec![service(443, 30443)]);
    assert_eq!(lb.services_to_remove(&services), vec![service(443, 31000)]);
}

#[test]
fn annotations_name_the_load_balancer_and_its_network() {
    let mut svc = Service::default();
    svc.metadata.name = Some("web".to_string());
    assert_eq!(balancer_name(&svc), "web");
    assert_eq!(LoadBalancer::of_service(&svc, None).network_name, None);
    let default = || Some("default".to_string());
    let lb = LoadBalancer::of_service(&svc, default());
    assert_eq!(lb.network_name, default());
    assert!(lb.targets.is_empty());
    assert!(lb.services.is_empty());

    svc.metadata.annotations = Some(map(&[
        (consts::LB_NAME_ANNOTATION, "front"),
        (consts::LB_NETWORK_ANNOTATION, "private"),
    ]));
    assert_eq!(balancer_name(&svc), "front");
    assert_eq!(
        LoadBalancer::of_service(&svc, default()).network_name,
        Some("private".to_string())
    );
}

#[test]
fn the_type_of_a_skipped_service_is_looked_at_before_its_class() {
    let of = |type_: &str, class: &str| {
        service(ServiceSpec {
            type_: Some(type_.to_string()),
            load_balancer_class: Some(class.to_string()),
            ..Default::default()
        })
    };
    assert_eq!(
        why_skipped(&of("ClusterIP", "other")),
        Some(ServiceSkip::Type)
    );
    assert_eq!(
        why_skipped(&of("LoadBalancer", "other")),
        Some(ServiceSkip::Class)
    );
    assert_eq!(
        why_skipped(&of("LoadBalancer", consts::ROBOTLB_LB_CLASS)),
        None
    );
    assert_eq!(why_skipped(&Service::default()), Some(ServiceSkip::Type));
}

#[test]
fn the_protocol_of_a_skipped_port_is_looked_at_first() {
    let of = |protocol: Option<&str>, node_port| ServicePort {
        port: 53,
        node_port,
        protocol: protocol.map(str::to_string),
    };
    assert_eq!(
        why_port_skipped(&of(Some("UDP"), None)),
        Some(PortSkip::Protocol)
    );
    assert_eq!(why_port_skipped(&of(None, None)), Some(PortSkip::NoNodePort));
    assert_eq!(why_port_skipped(&of(Some("TCP"), Some(30053))), None);
}

#[test]
fn the_label_of_an_excluded_node_is_looked_at_first() {
    let label = (consts::EXCLUDE_FROM_LB_LABEL_NAME, "");
    assert_eq!(
        why_not_eligible(&node(&[label], true)),
        Some(NodeExclusion::Labelled)
    );
    assert_eq!(
        why_not_eligible(&node(&[], true)),
        Some(NodeExclusion::Unschedulable)
    );
    assert_eq!(why_not_eligible(&node(&[], false)), None);
}
