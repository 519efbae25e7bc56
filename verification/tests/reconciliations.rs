use robotlb::consts;
use robotlb::context::{CurrentContext, OperatorConfig};
use robotlb::error::RobotLBError;
use robotlb::lb::{LBService, LoadBalancer, PublicAddress, PublicNet};
use robotlb::objects::{
    Endpoint, EndpointConditions, EndpointSlice, Node, NodeAddress, NodeSpec, NodeStatus,
    ObjectMeta, Pod, PodSpec, Service, ServicePort, ServiceSpec,
};
use robotlb::reconcile::{
    get_nodes_by_selector, on_error, reconcile_load_balancer, reconcile_service, resume, Action,
    Reply, Step,
};
use robotlb::string_map::StringMap;

fn map(entries: &[(&str, &str)]) -> StringMap {
    let mut map = StringMap::new();
    for (key, value) in entries {
        map.insert((*key).to_string(), (*value).to_string());
    }
    map
}

fn context(dynamic_node_selector: bool, ipv6_ingress: bool) -> CurrentContext {
    CurrentContext::new(
        "default".to_string(),
        OperatorConfig {
            dynamic_node_selector,
            ipv6_ingress,
        },
    )
}

fn service() -> Service {
    Service {
        metadata: ObjectMeta {
            name: Some("web".to_string()),
            namespace: Some("shop".to_string()),
            finalizers: Some(vec![consts::FINALIZER_NAME.to_string()]),
            ..Default::default()
        },
        spec: Some(ServiceSpec {
            type_: Some("LoadBalancer".to_string()),
            ports: Some(vec![ServicePort {
                port: 80,
                node_port: Some(30080),
                protocol: None,
            }]),
            ..Default::default()
        }),
    }
}

fn local(mut svc: Service, selector: Option<StringMap>) -> Service {
    if let Some(spec) = &mut svc.spec {
        spec.external_traffic_policy = Some("Local".to_string());
        spec.selector = selector;
    }
    svc
}

fn node(name: &str, labels: &[(&str, &str)], addresses: &[(&str, &str)]) -> Node {
    Node {
        metadata: ObjectMeta {
            name: Some(name.to_string()),
            labels: Some(map(labels)),
            ..Default::default()
        },
        spec: None,
        status: Some(NodeStatus {
            addresses: Some(
                addresses
                    .iter()
                    .map(|(type_, address)| NodeAddress {
                        type_: (*type_).to_string(),
                        address: (*address).to_string(),
                    })
                    .collect(),
            ),
        }),
    }
}

fn cluster() -> Vec<Node> {
    vec![
        node("n1", &[("zone", "eu")], &[("InternalIP", "10.0.0.1"), ("ExternalIP", "1.1.1.1")]),
        node("n2", &[("zone", "us")], &[("ExternalIP", "2.2.2.2"), ("Hostname", "n2")]),
        node(
            "n3",
            &[("zone", "eu"), (consts::EXCLUDE_FROM_LB_LABEL_NAME, "")],
            &[("ExternalIP", "3.3.3.3")],
        ),
        Node {
            metadata: ObjectMeta {
                name: Some("n4".to_string()),
                ..Default::default()
            },
            spec: Some(NodeSpec { unschedulable: Some(true) }),
            status: Some(NodeStatus { addresses: None }),
        },
    ]
}

fn pod(node_name: Option<&str>) -> Pod {
    Pod {
        spec: Some(PodSpec {
            node_name: node_name.map(str::to_string),
        }),
    }
}

fn endpoint(ready: Option<bool>, node_name: &str) -> Endpoint {
    Endpoint {
        conditions: Some(EndpointConditions { ready }),
        node_name: Some(node_name.to_string()),
    }
}

fn address(ip: Option<&str>, dns: Option<&str>) -> PublicAddress {
    PublicAddress {
        ip: Some(ip.map(str::to_string)),
        dns_ptr: Some(dns.map(str::to_string)),
    }
}

fn net() -> PublicNet {
    PublicNet {
        ipv4: address(Some("5.5.5.5"), Some("web.example")),
        ipv6: address(Some("2001:db8::1"), None),
    }
}

fn targets(step: &Step) -> Vec<String> {
    match step {
        Step::ReconcileLoadBalancer { lb } => lb.targets.clone(),
        _ => panic!("the load balancer is not brought in line"),
    }
}

#[test]
fn services_of_others_are_skipped() {
    let mut svc = service();
    svc.spec.as_mut().unwrap().type_ = Some("NodePort".to_string());
    let step = reconcile_service(&svc);
    assert!(matches!(step, Step::Finish(Err(RobotLBError::SkipService))));
    let mut svc = service();
    svc.spec.as_mut().unwrap().load_balancer_class = Some("other".to_string());
    let step = reconcile_service(&svc);
    assert!(matches!(step, Step::Finish(Err(RobotLBError::SkipService))));
}

#[test]
fn skipped_services_are_not_tried_again() {
    assert_eq!(on_error(&RobotLBError::SkipService), Action::AwaitChange);
    let later = Action::Requeue { seconds: 30 };
    assert_eq!(on_error(&RobotLBError::ServiceWithoutSelector), later);
    assert_eq!(on_error(&RobotLBError::InvalidNodeFilter("=".to_string())), later);
    assert_eq!(on_error(&RobotLBError::CallFailed("refused".to_string())), later);
}

#[test]
fn a_deleted_service_is_cleaned_up_before_its_finalizer_goes() {
    let ctx = context(true, false);
    let mut svc = service();
    svc.metadata.deletion_requested = true;
    let step = reconcile_service(&svc);
    assert!(matches!(step, Step::BuildLoadBalancer));
    let step = resume(step, Reply::LoadBalancer(LoadBalancer::new(None)), &svc, &ctx);
    assert!(matches!(step, Step::CleanUp { .. }));
    let step = resume(step, Reply::Done, &svc, &ctx);
    assert!(matches!(step, Step::RemoveFinalizer));
    let step = resume(step, Reply::Done, &svc, &ctx);
    assert!(matches!(step, Step::Finish(Ok(Action::AwaitChange))));
}

#[test]
fn a_failed_clean_up_keeps_the_finalizer() {
    let ctx = context(true, false);
    let mut svc = service();
    svc.metadata.deletion_requested = true;
    let step = resume(
        reconcile_service(&svc),
        Reply::LoadBalancer(LoadBalancer::new(None)),
        &svc,
        &ctx,
    );
    let failure = Reply::Failed(RobotLBError::CallFailed("busy".to_string()));
    let step = resume(step, failure, &svc, &ctx);
    assert!(matches!(step, Step::Finish(Err(RobotLBError::CallFailed(m))) if m == "busy"));
}

#[test]
fn a_missing_finalizer_is_added_first() {
    let ctx = context(true, false);
    let mut svc = service();
    svc.metadata.finalizers = None;
    let lb = LoadBalancer::new(None);
    let step = resume(reconcile_service(&svc), Reply::LoadBalancer(lb), &svc, &ctx);
    assert!(matches!(step, Step::AddFinalizer { .. }));
    let step = resume(step, Reply::Done, &svc, &ctx);
    assert!(matches!(step, Step::ListNodes { .. }));
}

#[test]
fn every_eligible_node_is_a_target_under_the_cluster_policy() {
    let ctx = context(true, false);
    let svc = service();
    let lb = LoadBalancer::new(None);
    let step = resume(reconcile_service(&svc), Reply::LoadBalancer(lb), &svc, &ctx);
    let step = resume(step, Reply::Nodes(cluster()), &svc, &ctx);
    assert_eq!(targets(&step), vec!["1.1.1.1", "2.2.2.2"]);
    match &step {
        Step::ReconcileLoadBalancer { lb } => assert_eq!(
            lb.services,
            vec![LBService { listen_port: 80, target_port: 30080 }]
        ),
        _ => unreachable!(),
    }
}

#[test]
fn a_load_balancer_in_a_network_reaches_internal_addresses() {
    let ctx = context(true, false);
    let svc = service();
    let lb = LoadBalancer::new(Some("private".to_string()));
    let step = reconcile_load_balancer(lb, &svc, &ctx);
    let step = resume(step, Reply::Nodes(cluster()), &svc, &ctx);
    assert_eq!(targets(&step), vec!["10.0.0.1"]);
}

#[test]
fn under_the_local_policy_nodes_are_found_through_pods() {
    let ctx = context(true, false);
    let svc = local(service(), Some(map(&[("tier", "web"), ("app", "shop")])));
    let step = reconcile_load_balancer(LoadBalancer::new(None), &svc, &ctx);
    match &step {
        Step::ListPods { namespace, label_selector, .. } => {
            assert_eq!(namespace, "shop");
            assert_eq!(label_selector, "app=shop,tier=web");
        }
        _ => panic!("the pods are not listed"),
    }
    let pods = vec![pod(Some("n2")), pod(None), Pod { spec: None }, pod(Some("n3")), pod(Some("n2"))];
    let step = resume(step, Reply::Pods(pods), &svc, &ctx);
    match &step {
        Step::ListNodes { filter, .. } => {
            let admitted: Vec<bool> = cluster().iter().map(|n| filter.admits(n)).collect();
            assert_eq!(admitted, vec![false, true, true, false]);
        }
        _ => panic!("the nodes are not listed"),
    }
    let step = resume(step, Reply::Nodes(cluster()), &svc, &ctx);
    assert_eq!(targets(&step), vec!["2.2.2.2", "3.3.3.3"]);
}

#[test]
fn without_a_selector_nodes_are_found_through_endpoint_slices() {
    let ctx = context(true, false);
    for selector in [None, Some(StringMap::new())] {
        let mut svc = local(service(), selector);
        svc.metadata.namespace = None;
        let step = reconcile_load_balancer(LoadBalancer::new(None), &svc, &ctx);
        match &step {
            Step::ListEndpointSlices { namespace, label_selector, .. } => {
                assert_eq!(namespace, "default");
                assert_eq!(label_selector, "kubernetes.io/service-name=web");
            }
            _ => panic!("the endpoint slices are not listed"),
        }
        let slices = vec![
            EndpointSlice { endpoints: vec![endpoint(Some(false), "n1"), endpoint(Some(true), "n2")] },
            EndpointSlice { endpoints: vec![] },
            EndpointSlice {
                endpoints: vec![
                    endpoint(None, "n3"),
                    Endpoint { conditions: None, node_name: None },
                ],
            },
        ];
        let step = resume(step, Reply::EndpointSlices(slices), &svc, &ctx);
        assert!(matches!(step, Step::ListNodes { .. }));
        let step = resume(step, Reply::Nodes(cluster()), &svc, &ctx);
        assert_eq!(targets(&step), vec!["2.2.2.2", "3.3.3.3"]);
    }
}

#[test]
fn without_ready_endpoints_no_node_is_looked_up() {
    let ctx = context(true, false);
    let svc = local(service(), None);
    let step = reconcile_load_balancer(LoadBalancer::new(None), &svc, &ctx);
    let slices = vec![EndpointSlice { endpoints: vec![endpoint(Some(false), "n1")] }];
    let step = resume(step, Reply::EndpointSlices(slices), &svc, &ctx);
    assert_eq!(targets(&step), Vec::<String>::new());
}

#[test]
fn a_node_selector_picks_nodes_by_label() {
    let ctx = context(false, false);
    let mut svc = service();
    svc.metadata.annotations = Some(map(&[(consts::LB_NODE_SELECTOR, "zone=eu")]));
    let step = reconcile_load_balancer(LoadBalancer::new(None), &svc, &ctx);
    let step = resume(step, Reply::Nodes(cluster()), &svc, &ctx);
    assert_eq!(targets(&step), vec!["1.1.1.1", "3.3.3.3"]);
}

#[test]
fn a_node_without_labels_can_meet_a_selector() {
    let ctx = context(false, false);
    let mut svc = service();
    svc.metadata.annotations = Some(map(&[(consts::LB_NODE_SELECTOR, "!zone")]));
    let step = get_nodes_by_selector(LoadBalancer::new(None), &svc);
    let mut bare = node("n5", &[], &[("ExternalIP", "6.6.6.6")]);
    bare.metadata.labels = None;
    let step = resume(step, Reply::Nodes(vec![bare]), &svc, &ctx);
    assert_eq!(targets(&step), vec!["6.6.6.6"]);
}

#[test]
fn a_service_without_node_selector_is_refused() {
    let ctx = context(false, false);
    let svc = service();
    let step = reconcile_load_balancer(LoadBalancer::new(None), &svc, &ctx);
    assert!(matches!(step, Step::Finish(Err(RobotLBError::ServiceWithoutSelector))));
}

#[test]
fn a_malformed_node_selector_is_refused() {
    let ctx = context(false, false);
    let mut svc = service();
    svc.metadata.annotations = Some(map(&[(consts::LB_NODE_SELECTOR, "zone=eu,a=b=c")]));
    let step = reconcile_load_balancer(LoadBalancer::new(None), &svc, &ctx);
    assert!(
        matches!(step, Step::Finish(Err(RobotLBError::InvalidNodeFilter(rule))) if rule == "a=b=c")
    );
}

fn report(svc: &Service, ctx: &CurrentContext, net: PublicNet) -> Step {
    let step = reconcile_load_balancer(LoadBalancer::new(None), svc, ctx);
    let step = resume(step, Reply::Nodes(cluster()), svc, ctx);
    resume(step, Reply::Reconciled(net), svc, ctx)
}

fn reported(step: &Step) -> Vec<(String, Option<String>, String)> {
    match step {
        Step::PatchStatus { patch, .. } => patch
            .status
            .load_balancer
            .ingress
            .iter()
            .map(|i| (i.ip.clone(), i.dns.clone(), i.ip_mode.clone()))
            .collect(),
        _ => panic!("nothing is reported"),
    }
}

#[test]
fn the_address_is_reported_in_the_status() {
    let svc = service();
    let ctx = context(true, false);
    let step = report(&svc, &ctx, net());
    match &step {
        Step::PatchStatus { namespace, name, .. } => {
            assert_eq!(namespace, "shop");
            assert_eq!(name, "web");
        }
        _ => panic!("nothing is reported"),
    }
    assert_eq!(
        reported(&step),
        vec![("5.5.5.5".to_string(), Some("web.example".to_string()), "VIP".to_string())]
    );
    let step = resume(step, Reply::Done, &svc, &ctx);
    assert!(matches!(step, Step::Finish(Ok(Action::Requeue { seconds: 30 }))));
}

#[test]
fn the_ipv6_address_is_reported_on_request() {
    let step = report(&service(), &context(true, true), net());
    assert_eq!(
        reported(&step),
        vec![
            ("5.5.5.5".to_string(), Some("web.example".to_string()), "VIP".to_string()),
            ("2001:db8::1".to_string(), None, "VIP".to_string()),
        ]
    );
}

#[test]
fn without_an_address_nothing_is_reported() {
    let nothing = PublicNet {
        ipv4: address(None, Some("web.example")),
        ipv6: address(Some("2001:db8::1"), None),
    };
    let step = report(&service(), &context(true, false), nothing);
    assert!(matches!(step, Step::Finish(Ok(Action::Requeue { seconds: 30 }))));
    let left_out = PublicNet {
        ipv4: PublicAddress { ip: None, dns_ptr: None },
        ipv6: PublicAddress { ip: None, dns_ptr: None },
    };
    let step = report(&service(), &context(true, true), left_out);
    assert!(matches!(step, Step::Finish(Ok(Action::Requeue { seconds: 30 }))));
}

#[test]
fn without_an_exposed_port_nothing_is_reported() {
    let mut svc = service();
    svc.spec.as_mut().unwrap().ports = None;
    let step = report(&svc, &context(true, true), net());
    assert!(matches!(step, Step::Finish(Ok(Action::Requeue { seconds: 30 }))));
}

#[test]
fn a_generated_name_stands_in_for_a_missing_one() {
    let mut svc = service();
    svc.metadata.name = None;
    svc.metadata.generate_name = Some("web-".to_string());
    assert_eq!(svc.metadata.name_any(), "web-");
    svc.metadata.generate_name = None;
    assert_eq!(svc.metadata.name_any(), "");
}

#[test]
fn a_reply_to_another_call_changes_nothing() {
    let ctx = context(true, false);
    let svc = service();
    let step = reconcile_service(&svc);
    let step = resume(step, Reply::Nodes(cluster()), &svc, &ctx);
    assert!(matches!(step, Step::BuildLoadBalancer));
    let end = Step::Finish(Ok(Action::AwaitChange));
    let end = resume(end, Reply::Failed(RobotLBError::SkipService), &svc, &ctx);
    assert!(matches!(end, Step::Finish(Ok(Action::AwaitChange))));
}

#[test]
fn a_failed_call_ends_the_reconciliation_with_its_error() {
    let ctx = context(true, false);
    let svc = service();
    let failure = || Reply::Failed(RobotLBError::CallFailed("timeout".to_string()));
    let failed = |step: Step| match step {
        Step::Finish(Err(RobotLBError::CallFailed(message))) => message == "timeout",
        _ => false,
    };
    assert!(failed(resume(reconcile_service(&svc), failure(), &svc, &ctx)));
    let list = reconcile_load_balancer(LoadBalancer::new(None), &svc, &ctx);
    assert!(failed(resume(list, failure(), &svc, &ctx)));
    let list = reconcile_load_balancer(LoadBalancer::new(None), &svc, &ctx);
    let bring = resume(list, Reply::Nodes(cluster()), &svc, &ctx);
    assert!(failed(resume(bring, failure(), &svc, &ctx)));
    assert!(failed(resume(report(&svc, &ctx, net()), failure(), &svc, &ctx)));
}

#[test]
fn the_longest_run_makes_six_calls() {
    let mut svc = local(service(), Some(map(&[("app", "web")])));
    svc.metadata.finalizers = None;
    let ctx = context(true, true);
    let replies = vec![
        Reply::LoadBalancer(LoadBalancer::new(None)),
        Reply::Done,
        Reply::Pods(vec![pod(Some("a"))]),
        Reply::Nodes(cluster()),
        Reply::Reconciled(net()),
        Reply::Done,
    ];
    let mut step = reconcile_service(&svc);
    for reply in replies {
        assert!(!matches!(step, Step::Finish(_)));
        step = resume(step, reply, &svc, &ctx);
    }
    assert!(matches!(
        step,
        Step::Finish(Ok(Action::Requeue { seconds: 30 }))
    ));
}

#[test]
fn a_call_that_is_not_made_cannot_fail_the_run() {
    // No endpoint is ready, so the nodes are never listed.
    let svc = local(service(), None);
    let ctx = context(true, false);
    let replies = vec![
        Reply::LoadBalancer(LoadBalancer::new(None)),
        Reply::EndpointSlices(vec![]),
        Reply::Reconciled(net()),
        Reply::Done,
    ];
    let mut step = reconcile_service(&svc);
    for reply in replies {
        assert!(!matches!(step, Step::ListNodes { .. }));
        assert!(!matches!(step, Step::CleanUp { .. } | Step::RemoveFinalizer));
        step = resume(step, reply, &svc, &ctx);
    }
    assert!(matches!(
        step,
        Step::Finish(Ok(Action::Requeue { seconds: 30 }))
    ));
}
