use serverless::api::event::CloudEvent;
use serverless::api::eventsource::{error_status, fired_status, EventSource, EventSourceSpec, EventSourceStatus, FileSource, PingSource};
use serverless::api::eventtrigger::{EventTrigger, EventTriggerSpec, TriggerTarget, TriggerTargetKind};
use serverless::api::function::{Function, FunctionConcurrency, FunctionRuntime, FunctionScale, FunctionSpec};
use serverless::api::revision::{Revision, RevisionSpec};
use serverless::api::service::{ServerlessConcurrency, ServerlessScale, ServerlessService, ServerlessServiceSpec};
use serverless::api::{serverless_type_meta, SpecError};
use serverless::json::JsonValue;
use serverless::meta::{map_get, map_insert, object_namespace, ObjectMeta, StringMap};
use serverless::time::{now_utc, Timestamp};

fn meta(name: &str) -> ObjectMeta {
    ObjectMeta::named(name.to_string(), "team".to_string())
}

#[test]
fn type_meta_names_group_and_version() {
    let t = serverless_type_meta("Function");
    assert_eq!(t.api_version, "serverless.minik8s.io/v1alpha1");
    assert_eq!(t.kind, "Function");
    assert_eq!(Function::plural(), "functions");
    assert_eq!(Revision::kind(), "Revision");
    assert_eq!(EventTrigger::plural(), "eventtriggers");
    assert_eq!(ServerlessService::plural(), "serverlessservices");
}

#[test]
fn service_defaults_and_validation() {
    let spec = ServerlessServiceSpec::default();
    assert_eq!(spec.port, 8080);
    assert_eq!(spec.scale, ServerlessScale { min_scale: 0, max_scale: 10, idle_seconds: 60 });
    assert_eq!(spec.concurrency, ServerlessConcurrency { target: 10 });
    let mut svc = ServerlessService::new(meta("s"), spec);
    assert_eq!(svc.validate_spec(), Err(SpecError::ServiceImageRequired));
    svc.spec.image = "nginx".to_string();
    assert_eq!(svc.validate_spec(), Ok(()));
    svc.spec.port = 0;
    assert_eq!(svc.validate_spec().unwrap_err().message(), "serverlessservice spec.port must be greater than 0");
    svc.spec.port = 80;
    svc.spec.concurrency.target = 0;
    assert_eq!(svc.validate_spec(), Err(SpecError::ServiceTargetConcurrencyZero));
    svc.spec.concurrency.target = 1;
    svc.spec.scale.max_scale = 0;
    assert_eq!(svc.validate_spec(), Err(SpecError::ServiceMaxScaleZero));
    svc.spec.scale.max_scale = 2;
    svc.spec.scale.min_scale = 3;
    assert_eq!(
        svc.validate_spec().unwrap_err().message(),
        "serverlessservice spec.scale.minScale must not exceed maxScale"
    );
}

#[test]
fn function_defaults_and_validation() {
    assert_eq!(FunctionRuntime::default(), FunctionRuntime::Python);
    assert_eq!(FunctionScale::default(), FunctionScale { min_instances: 0, max_instances: 10, idle_seconds: 60 });
    assert_eq!(FunctionConcurrency::default().target, 10);
    assert_eq!(serverless::api::function::default_handler(), "handler");
    let mut f = Function::new(meta("f"), FunctionSpec::default());
    assert_eq!(f.validate_spec(), Err(SpecError::FunctionHandlerRequired));
    f.spec.handler = "main".to_string();
    assert_eq!(f.validate_spec(), Ok(()));
    f.spec.concurrency.target = 0;
    assert_eq!(f.validate_spec().unwrap_err().message(), "function spec.concurrency.target must be greater than 0");
    f.spec.concurrency.target = 4;
    f.spec.scale.max_instances = 0;
    assert_eq!(f.validate_spec(), Err(SpecError::FunctionMaxInstancesZero));
    f.spec.scale.max_instances = 1;
    f.spec.scale.min_instances = 2;
    assert_eq!(f.validate_spec().unwrap_err().message(), "function spec.scale.minInstances must not exceed maxInstances");
}

#[test]
fn revision_validation() {
    let mut r = Revision::new(meta("r"), RevisionSpec::default());
    assert_eq!(r.validate_spec().unwrap_err().message(), "revision spec.serviceName is required");
    r.spec.service_name = "svc".to_string();
    assert_eq!(r.validate_spec(), Err(SpecError::RevisionImageRequired));
    r.spec.image = "img".to_string();
    assert_eq!(r.validate_spec().unwrap_err().message(), "revision spec.port must be greater than 0");
    r.spec.port = 9000;
    assert_eq!(r.validate_spec(), Ok(()));
}

#[test]
fn trigger_validation_and_kind_names() {
    assert_eq!(TriggerTargetKind::default(), TriggerTargetKind::Function);
    assert_eq!(TriggerTargetKind::Workflow.name(), "Workflow");
    let mut t = EventTrigger::new(meta("t"), EventTriggerSpec::default());
    assert_eq!(t.validate_spec().unwrap_err().message(), "eventtrigger spec.eventType is required");
    t.spec.event_type = "ticket.created".to_string();
    assert_eq!(t.validate_spec(), Err(SpecError::TriggerTargetNameRequired));
    t.spec.target = TriggerTarget { kind: TriggerTargetKind::Workflow, name: "flow".to_string() };
    assert_eq!(t.validate_spec(), Ok(()));
}

fn source(ping: Option<PingSource>, file: Option<FileSource>) -> EventSource {
    EventSource {
        metadata: meta("src"),
        spec: EventSourceSpec { event_type: "tick".to_string(), ping, file },
        ..Default::default()
    }
}

#[test]
fn event_source_validation() {
    let ping = || PingSource { schedule: None, interval_seconds: Some(5), data: JsonValue::Null };
    let file = || FileSource { path: "/tmp/x".to_string(), interval_seconds: 0 };
    assert_eq!(source(Some(ping()), None).validate_spec(), Ok(()));
    assert_eq!(source(None, Some(file())).validate_spec(), Ok(()));
    assert_eq!(source(Some(ping()), Some(file())).validate_spec(), Err(SpecError::SourceBothPingAndFile));
    assert_eq!(
        source(None, None).validate_spec().unwrap_err().message(),
        "eventsource spec must set one of ping / file"
    );
    let empty_ping = PingSource { schedule: None, interval_seconds: None, data: JsonValue::Null };
    assert_eq!(source(Some(empty_ping), None).validate_spec(), Err(SpecError::SourcePingWithoutSchedule));
    let both = PingSource {
        schedule: Some("0/10 * * * * * *".to_string()),
        interval_seconds: Some(5),
        data: JsonValue::Null,
    };
    assert_eq!(source(Some(both), None).validate_spec(), Err(SpecError::SourcePingBothScheduleAndInterval));
    let both_zero = PingSource { schedule: Some("* * * * * * *".to_string()), interval_seconds: Some(0), data: JsonValue::Null };
    assert_eq!(
        source(Some(both_zero), None).validate_spec().unwrap_err().message(),
        "eventsource ping must set exactly one of schedule / intervalSeconds"
    );
    let cron_only = PingSource { schedule: Some("0/10 * * * * * *".to_string()), interval_seconds: None, data: JsonValue::Null };
    assert_eq!(source(Some(cron_only), None).validate_spec(), Ok(()));
    let zero = PingSource { schedule: None, interval_seconds: Some(0), data: JsonValue::Null };
    assert_eq!(
        source(Some(zero), None).validate_spec().unwrap_err().message(),
        "eventsource ping.intervalSeconds must be greater than 0"
    );
    let blank = FileSource { path: " ".to_string(), interval_seconds: 1 };
    assert_eq!(source(None, Some(blank)).validate_spec(), Err(SpecError::SourceFilePathRequired));
    let mut s = source(Some(ping()), None);
    s.spec.event_type = String::new();
    assert_eq!(s.validate_spec().unwrap_err().message(), "eventsource spec.eventType is required");
}

#[test]
fn event_source_status_updates() {
    let old = EventSourceStatus { ready: false, event_count: 4, last_event_at: None, last_error: Some("x".to_string()) };
    let now = Timestamp { secs: 10, nanos: 0 };
    let fired = fired_status(&old, now);
    assert!(fired.ready);
    assert_eq!(fired.event_count, 5);
    assert_eq!(fired.last_event_at, Some(now));
    assert_eq!(fired.last_error, None);
    let failed = error_status(&fired, "bad cron".to_string());
    assert!(!failed.ready);
    assert_eq!(failed.event_count, 5);
    assert_eq!(failed.last_event_at, Some(now));
    assert_eq!(failed.last_error, Some("bad cron".to_string()));
}

#[test]
fn cloud_event_new_fills_envelope() {
    let e = CloudEvent::new("ticket.created".to_string(), "/eventsources/default/x".to_string(), JsonValue::Bool(true)).unwrap();
    assert_eq!(e.spec_version, "1.0");
    assert_eq!(e.id.len(), 36);
    assert_eq!(e.id.chars().nth(14), Some('4'));
    assert_eq!(e.id.chars().filter(|c| *c == '-').count(), 4);
    assert_eq!(e.data_content_type, Some("application/json".to_string()));
    assert!(e.time.is_some());
    assert_eq!(e.data, JsonValue::Bool(true));
    let other = CloudEvent::new("t".to_string(), "s".to_string(), JsonValue::Null).unwrap();
    assert_ne!(e.id, other.id);
}

#[test]
fn namespace_defaults_when_blank() {
    assert_eq!(object_namespace(&ObjectMeta::named("a".to_string(), "  ".to_string())), "default");
    assert_eq!(object_namespace(&ObjectMeta::named("a".to_string(), "prod".to_string())), "prod");
}

#[test]
fn string_map_insert_keeps_keys_sorted_and_replaces() {
    let mut m = StringMap::new();
    map_insert(&mut m, "b".to_string(), "2".to_string());
    map_insert(&mut m, "a".to_string(), "1".to_string());
    map_insert(&mut m, "c".to_string(), "3".to_string());
    map_insert(&mut m, "b".to_string(), "two".to_string());
    let keys: Vec<&str> = m.pairs().iter().map(|(k, _)| k.as_str()).collect();
    assert_eq!(keys, vec!["a", "b", "c"]);
    assert_eq!(map_get(&m, "b"), Some(&"two".to_string()));
    assert_eq!(map_get(&m, "z"), None);
}

#[test]
fn current_time_is_after_the_epoch_and_representable() {
    let now = now_utc().unwrap();
    assert!(now.is_representable());
    assert!(now.secs > 1_600_000_000);
}
