use serverless::api::service::{ServerlessConcurrency, ServerlessScale, ServerlessService, ServerlessServiceSpec};
use serverless::json::{JsonNumber, JsonValue};
use serverless::meta::{map_insert, ObjectMeta, StringMap};
use serverless::pods::{
    build_k8s_service, build_service_pod, is_managed_runtime_object, k8s_service_name, orphan_objects, plan_pods,
    ready_candidates, ready_pods, revision_manifest, rotate_left_by, runtime_labels, runtime_reply, service_env,
    service_revision_hash, service_revision_name, service_url, sort_by_time, ContainerStatus, PodPhase, RuntimePod,
};
use serverless::time::Timestamp;

fn env(pairs: &[(&str, &str)]) -> StringMap {
    let mut m = StringMap::new();
    for (k, v) in pairs {
        map_insert(&mut m, k.to_string(), v.to_string());
    }
    m
}

fn pair_vec(pairs: &[(&str, &str)]) -> Vec<(String, String)> {
    pairs.iter().map(|(k, v)| (k.to_string(), v.to_string())).collect()
}

fn service(name: &str, ns: &str, image: &str, port: u16, e: StringMap) -> ServerlessService {
    let spec = ServerlessServiceSpec {
        image: image.to_string(),
        port,
        env: e,
        scale: ServerlessScale { min_scale: 0, max_scale: 5, idle_seconds: 60 },
        concurrency: ServerlessConcurrency { target: 10 },
    };
    ServerlessService::new(ObjectMeta::named(name.to_string(), ns.to_string()), spec)
}

fn pod(name: &str, svc: &str, revision: &str, phase: PodPhase, created: Option<i64>) -> RuntimePod {
    let mut metadata = ObjectMeta::named(name.to_string(), "default".to_string());
    metadata.labels = env(&[
        ("serverless.minik8s.io/managed-by", "serverless-controller"),
        ("serverless.minik8s.io/revision", revision),
        ("serverless.minik8s.io/service", svc),
    ]);
    metadata.creation_timestamp = created.map(|s| Timestamp { secs: s, nanos: 0 });
    RuntimePod { metadata, phase, pod_ip: None, container_statuses: Vec::new() }
}

#[test]
fn labels_names_and_urls() {
    let svc = service("hello", "", "img:1", 8080, StringMap::new());
    let labels = runtime_labels(&svc, "hello-abc");
    assert_eq!(
        labels,
        env(&[
            ("serverless.minik8s.io/managed-by", "serverless-controller"),
            ("serverless.minik8s.io/revision", "hello-abc"),
            ("serverless.minik8s.io/service", "hello"),
        ])
    );
    assert_eq!(k8s_service_name(&svc), "sks-hello");
    assert_eq!(service_url(&svc), "http://sks-hello.default.svc.cluster.local:8080");
    let mut meta = ObjectMeta::named("x".to_string(), String::new());
    assert!(!is_managed_runtime_object(&meta));
    meta.labels = labels;
    assert!(is_managed_runtime_object(&meta));
}

#[test]
fn revision_name_is_stable_and_tracks_the_spec() {
    let a = service("hello", "ns", "img:1", 8080, env(&[("A", "1")]));
    let hash = service_revision_hash(&a);
    assert_eq!(hash.len(), 10);
    assert!(hash.chars().all(|c| c.is_ascii_hexdigit() && !c.is_ascii_uppercase()));
    let name = service_revision_name(&a);
    assert_eq!(name, format!("hello-{hash}"));
    let mut scaled = service("hello", "ns", "img:1", 8080, env(&[("A", "1")]));
    scaled.spec.scale.max_scale = 99;
    assert_eq!(service_revision_name(&scaled), name);
    let changed = service("hello", "ns", "img:2", 8080, env(&[("A", "1")]));
    assert_ne!(service_revision_name(&changed), name);
    let other_port = service("hello", "ns", "img:1", 8081, env(&[("A", "1")]));
    assert_ne!(service_revision_name(&other_port), name);
}

#[test]
fn revision_hash_matches_the_default_hasher_on_a_btree_map() {
    let a = service("hello", "ns", "img:1", 8080, env(&[("A", "1"), ("B", "2")]));
    let mut hasher = std::collections::hash_map::DefaultHasher::new();
    std::hash::Hash::hash(&"img:1".to_string(), &mut hasher);
    std::hash::Hash::hash(&8080u16, &mut hasher);
    let m = std::collections::BTreeMap::from([("A".to_string(), "1".to_string()), ("B".to_string(), "2".to_string())]);
    std::hash::Hash::hash(&m, &mut hasher);
    let expected: String = format!("{:016x}", std::hash::Hasher::finish(&hasher)).chars().take(10).collect();
    assert_eq!(service_revision_hash(&a), expected);
}

#[test]
fn container_environment_appends_function_identity() {
    let svc = service("hello", "", "img", 8080, env(&[("A", "1")]));
    let vars: Vec<(String, String)> = service_env(&svc).into_iter().map(|e| (e.name, e.value)).collect();
    assert_eq!(
        vars,
        pair_vec(&[("A", "1"), ("FUNCTION_NAMESPACE", "default"), ("FUNCTION_NAME", "hello")])
    );
}

#[test]
fn manifests_carry_labels_owner_and_ports() {
    let svc = service("hello", "prod", "img:7", 9000, StringMap::new());
    let pod = build_service_pod(&svc, "hello-1234");
    assert_eq!(pod.metadata.generate_name, Some("sks-hello-".to_string()));
    assert_eq!(pod.metadata.namespace, "prod");
    assert_eq!(pod.metadata.owner_references.len(), 1);
    assert_eq!(pod.metadata.owner_references[0].kind, "ServerlessService");
    assert_eq!(pod.metadata.owner_references[0].name, "hello");
    assert_eq!(pod.container.name, "user-container");
    assert_eq!(pod.container.image, "img:7");
    assert_eq!(pod.container.container_port, 9000);
    assert_eq!(pod.container.protocol, "TCP");
    assert_eq!(pod.restart_policy, "Always");
    let k = build_k8s_service(&svc, "hello-1234", Some("10.0.0.9".to_string()));
    assert_eq!(k.metadata.name, "sks-hello");
    assert_eq!(k.selector, runtime_labels(&svc, "hello-1234"));
    assert_eq!((k.port, k.target_port), (9000, 9000));
    assert_eq!(k.port_name, "http");
    assert_eq!(k.cluster_ip, Some("10.0.0.9".to_string()));
    let r = revision_manifest(&svc, "hello-1234");
    assert_eq!(r.metadata.name, "hello-1234");
    assert_eq!(r.spec.service_name, "hello");
    assert_eq!(r.spec.image, "img:7");
    assert_eq!(r.spec.port, 9000);
}

#[test]
fn plan_deletes_stale_pods_and_creates_missing_ones() {
    let svc = service("s", "default", "img", 80, StringMap::new());
    let pods = vec![
        pod("old", "s", "s-old", PodPhase::Running, Some(1)),
        pod("ok", "s", "s-new", PodPhase::Running, Some(2)),
        pod("dead", "s", "s-new", PodPhase::Failed, Some(3)),
        pod("other", "t", "t-new", PodPhase::Running, Some(4)),
    ];
    let plan = plan_pods(&pods, &svc, &"s-new".to_string(), 3);
    assert_eq!(plan.delete, vec!["old".to_string(), "dead".to_string()]);
    assert_eq!(plan.create, 2);
}

#[test]
fn plan_deletes_the_newest_surplus_pods() {
    let svc = service("s", "default", "img", 80, StringMap::new());
    let pods = vec![
        pod("c", "s", "r", PodPhase::Running, Some(30)),
        pod("a", "s", "r", PodPhase::Running, Some(10)),
        pod("none", "s", "r", PodPhase::Pending, None),
        pod("b", "s", "r", PodPhase::Running, Some(20)),
    ];
    let plan = plan_pods(&pods, &svc, &"r".to_string(), 2);
    assert_eq!(plan.delete, vec!["b".to_string(), "c".to_string()]);
    assert_eq!(plan.create, 0);
    let exact = plan_pods(&pods, &svc, &"r".to_string(), 4);
    assert!(exact.delete.is_empty());
    assert_eq!(exact.create, 0);
}

#[test]
fn sort_by_time_is_stable() {
    let t = |s| Some(Timestamp { secs: s, nanos: 0 });
    let sorted = sort_by_time(vec![(t(5), "x"), (None, "n"), (t(1), "y"), (t(5), "z"), (t(1), "w")]);
    let order: Vec<&str> = sorted.iter().map(|e| e.1).collect();
    assert_eq!(order, vec!["n", "y", "w", "x", "z"]);
}

#[test]
fn ready_pods_need_running_address_and_ready_container() {
    let svc = service("s", "default", "img", 80, StringMap::new());
    let ready = |name: &str, ip: &str, created: i64| {
        let mut p = pod(name, "s", "r", PodPhase::Running, Some(created));
        p.pod_ip = Some(ip.to_string());
        p.container_statuses = vec![ContainerStatus { name: "user-container".to_string(), ready: true }];
        p
    };
    let mut not_ready = ready("nr", "10.0.0.3", 1);
    not_ready.container_statuses[0].ready = false;
    let mut no_ip = ready("noip", "", 1);
    no_ip.pod_ip = None;
    let pods = vec![ready("late", "10.0.0.2", 9), not_ready, no_ip, ready("early", "10.0.0.1", 3)];
    let r = ready_pods(&pods, &svc);
    assert_eq!(
        r,
        vec![("early".to_string(), "10.0.0.1".to_string()), ("late".to_string(), "10.0.0.2".to_string())]
    );
    let c = ready_candidates(&pods, &svc);
    assert_eq!(c.len(), 2);
    assert!(c == r || c == vec![r[1].clone(), r[0].clone()]);
}

#[test]
fn rotate_left_turns_the_list() {
    assert_eq!(rotate_left_by(vec![1, 2, 3, 4], 1), vec![2, 3, 4, 1]);
    assert_eq!(rotate_left_by(vec![1, 2, 3], 0), vec![1, 2, 3]);
    assert_eq!(rotate_left_by(vec![1, 2, 3], 3), vec![1, 2, 3]);
}

#[test]
fn orphans_are_managed_objects_of_missing_services() {
    let services = vec![service("kept", "default", "img", 80, StringMap::new())];
    let labelled = |svc: &str, ns: &str| {
        let mut m = ObjectMeta::named(format!("{svc}-pod"), ns.to_string());
        m.labels = env(&[
            ("serverless.minik8s.io/managed-by", "serverless-controller"),
            ("serverless.minik8s.io/service", svc),
        ]);
        m
    };
    let unmanaged = ObjectMeta::named("plain".to_string(), String::new());
    let objects = vec![labelled("kept", ""), labelled("gone", "default"), unmanaged, labelled("kept", "other")];
    assert_eq!(orphan_objects(&services, &objects), vec![1, 3]);
}

#[test]
fn runtime_reply_reads_status_and_body() {
    assert_eq!(runtime_reply(200, &"  ".to_string()), Ok(JsonValue::Null));
    assert_eq!(runtime_reply(201, &" 42 ".to_string()), Ok(JsonValue::Number(JsonNumber::PosInt(42))));
    assert_eq!(
        runtime_reply(503, &" busy \n".to_string()),
        Err("serverless runtime returned 503: busy".to_string())
    );
    let bad = runtime_reply(200, &"nope".to_string()).unwrap_err();
    assert!(bad.starts_with("serverless runtime response is not JSON: nope: "));
}
