use serverless::api::service::{ServerlessConcurrency, ServerlessScale, ServerlessService, ServerlessServiceSpec};
use serverless::meta::{ObjectMeta, StringMap};
use serverless::pods::desired_instances;
use serverless::runtime::{runtime_key, service_key, RuntimeRegistry, RuntimeSnapshot};
use serverless::time::Timestamp;

fn service(name: &str, min: u32, max: u32, target: u32, idle: u64) -> ServerlessService {
    let spec = ServerlessServiceSpec {
        image: "img".to_string(),
        port: 8080,
        env: StringMap::new(),
        scale: ServerlessScale { min_scale: min, max_scale: max, idle_seconds: idle },
        concurrency: ServerlessConcurrency { target },
    };
    ServerlessService::new(ObjectMeta::named(name.to_string(), String::new()), spec)
}

fn at(secs: i64) -> Timestamp {
    Timestamp { secs, nanos: 0 }
}

#[test]
fn keys_join_namespace_and_name() {
    assert_eq!(runtime_key("ns", "svc"), "ns/svc");
    assert_eq!(service_key(&service("svc", 0, 1, 1, 1)), "default/svc");
}

#[test]
fn first_request_wakes_one_instance_and_finish_undoes_it() {
    let svc = service("a", 0, 10, 10, 60);
    let mut reg = RuntimeRegistry::new();
    let (snap, guard) = reg.begin(&svc, at(100));
    assert_eq!(snap, RuntimeSnapshot { active_instances: 1, in_flight: 1 });
    assert!(guard.armed());
    assert_eq!(guard.key(), "default/a");
    let after = guard.finish(&mut reg, at(101));
    assert_eq!(after, RuntimeSnapshot { active_instances: 1, in_flight: 0 });
    assert_eq!(reg.snapshot("default/a"), after);
}

#[test]
fn unknown_service_has_zero_counts() {
    let reg = RuntimeRegistry::new();
    assert_eq!(reg.snapshot("default/none"), RuntimeSnapshot { active_instances: 0, in_flight: 0 });
}

#[test]
fn busy_instances_scale_up_to_the_cap() {
    let svc = service("b", 0, 2, 1, 60);
    let mut reg = RuntimeRegistry::new();
    let mut guards = Vec::new();
    let (s1, g1) = reg.begin(&svc, at(1));
    guards.push(g1);
    assert_eq!(s1.active_instances, 1);
    let (s2, g2) = reg.begin(&svc, at(2));
    guards.push(g2);
    assert_eq!(s2.active_instances, 2);
    let (s3, g3) = reg.begin(&svc, at(3));
    guards.push(g3);
    assert_eq!(s3.active_instances, 2);
    assert_eq!(s3.in_flight, 3);
    for g in guards {
        g.finish(&mut reg, at(4));
    }
    assert_eq!(reg.snapshot("default/b").in_flight, 0);
}

#[test]
fn in_flight_balances_after_equal_begins_and_ends() {
    let svc = service("c", 1, 5, 3, 60);
    let mut reg = RuntimeRegistry::new();
    let mut guards = Vec::new();
    for t in 0..7 {
        let (_, g) = reg.begin(&svc, at(t));
        guards.push(g);
    }
    assert_eq!(reg.snapshot("default/c").in_flight, 7);
    for g in guards {
        g.finish(&mut reg, at(10));
    }
    assert_eq!(reg.snapshot("default/c").in_flight, 0);
}

#[test]
fn end_by_key_never_goes_below_zero() {
    let mut reg = RuntimeRegistry::new();
    let key = "default/x".to_string();
    let s = reg.end_by_key(&key, at(5));
    assert_eq!(s, RuntimeSnapshot { active_instances: 0, in_flight: 0 });
}

#[test]
fn idle_service_scales_back_to_min_scale() {
    let svc = service("d", 0, 3, 10, 60);
    let mut reg = RuntimeRegistry::new();
    let (_, g) = reg.begin(&svc, at(1000));
    g.finish(&mut reg, at(1000));
    assert_eq!(reg.scale_idle(&svc, at(1059)), None);
    assert_eq!(reg.scale_idle(&svc, at(1060)), Some(RuntimeSnapshot { active_instances: 0, in_flight: 0 }));
    assert_eq!(reg.scale_idle(&svc, at(2000)), None);
}

#[test]
fn busy_service_does_not_scale_down() {
    let svc = service("e", 0, 3, 10, 1);
    let mut reg = RuntimeRegistry::new();
    let (_, _g) = reg.begin(&svc, at(0));
    assert_eq!(reg.scale_idle(&svc, at(100)), None);
}

#[test]
fn min_scale_is_kept_warm() {
    let svc = service("f", 2, 5, 10, 60);
    let mut reg = RuntimeRegistry::new();
    assert_eq!(reg.ensure_min_instances(&svc, at(0)), Some(RuntimeSnapshot { active_instances: 2, in_flight: 0 }));
    assert_eq!(reg.ensure_min_instances(&svc, at(1)), None);
    let zero = service("g", 0, 5, 10, 60);
    assert_eq!(reg.ensure_min_instances(&zero, at(0)), None);
    assert_eq!(desired_instances(&reg, &svc), 2);
    assert_eq!(desired_instances(&reg, &zero), 0);
}

#[test]
fn desired_instances_follow_active_count_above_min_scale() {
    let svc = service("h", 1, 10, 1, 60);
    let mut reg = RuntimeRegistry::new();
    let (_, _g1) = reg.begin(&svc, at(0));
    let (_, _g2) = reg.begin(&svc, at(0));
    let (s, _g3) = reg.begin(&svc, at(0));
    assert_eq!(s.active_instances, 3);
    assert_eq!(desired_instances(&reg, &svc), 3);
}

#[test]
fn dropped_invocation_restores_in_flight_and_leaves_others() {
    let mut reg = RuntimeRegistry::new();
    let a = service("a", 0, 5, 1, 60);
    let b = service("b", 0, 5, 1, 60);
    let (_, held) = reg.begin(&b, at(1));
    let before_a = reg.snapshot(&service_key(&a));
    let before_b = reg.snapshot(&service_key(&b));
    let (_, guard) = reg.begin(&a, at(2));
    let after = reg.end_by_key(guard.key(), at(3));
    assert_eq!(after.in_flight, before_a.in_flight);
    assert_eq!(reg.snapshot(&service_key(&b)), before_b);
    held.finish(&mut reg, at(4));
}
