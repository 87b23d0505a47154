use serverless::api::service::{ServerlessConcurrency, ServerlessScale, ServerlessService, ServerlessServiceSpec};
use serverless::api::workflow::{Workflow, WorkflowSpec, WorkflowStep};
use serverless::component::{activator_main, batch_keys, controller_main, BackgroundTask, RouteSet};
use serverless::gateway::{decode_json_body, event_response, find_namespaced, ingress_event, invoke_failure, load_error};
use serverless::http::{api_error, bad_request, get_request, parse_http_response, pick_index_at, post_json_request, ResponseError};
use serverless::json::{JsonNumber, JsonValue};
use serverless::kn::cargo::parse_cargo_metadata;
use serverless::meta::{ObjectMeta, StringMap};
use serverless::python::{python_failure, python_output, python_script, python_wrapper};
use serverless::runtime::RuntimeSnapshot;
use serverless::status::{
    desired_status_patch, observed_status_patch, runtime_status_patch_at, service_status_at, trigger_success_status_at,
    workflow_status_at,
};
use serverless::time::Timestamp;

fn json(text: &str) -> JsonValue {
    parse_cargo_metadata(text.as_bytes(), "test").unwrap()
}

fn service() -> ServerlessService {
    let spec = ServerlessServiceSpec {
        image: "img".to_string(),
        port: 8080,
        env: StringMap::new(),
        scale: ServerlessScale { min_scale: 0, max_scale: 3, idle_seconds: 60 },
        concurrency: ServerlessConcurrency { target: 2 },
    };
    ServerlessService::new(ObjectMeta::named("hello".to_string(), String::new()), spec)
}

#[test]
fn http_replies_end_with_a_newline() {
    assert_eq!(bad_request("x").status, 400);
    assert_eq!(api_error("boom").message, "boom\n");
    assert_eq!(load_error("Workflow", "ns", "w", "gone").message, "Workflow ns/w not found: gone\n");
    let f = invoke_failure(&service(), "timeout");
    assert_eq!((f.status, f.message.as_str()), (500, "function default/hello failed: timeout\n"));
}

#[test]
fn request_bodies_decode_to_json() {
    assert_eq!(decode_json_body(b""), Ok(JsonValue::Null));
    assert_eq!(decode_json_body(b"[1]"), Ok(JsonValue::Array(vec![JsonValue::Number(JsonNumber::PosInt(1))])));
    let err = decode_json_body(b"{").unwrap_err();
    assert_eq!(err.status, 400);
    assert!(err.message.starts_with("invalid JSON body: "));
    assert!(err.message.ends_with('\n'));
}

#[test]
fn http_responses_parse() {
    let r = parse_http_response(b"HTTP/1.1 201 Created\r\nX: y\r\n\r\n{\"ok\":true}").unwrap();
    assert_eq!(r.status, 201);
    assert_eq!(r.body, "{\"ok\":true}");
    assert_eq!(parse_http_response(b"HTTP/1.1 200 OK\r\n"), Err(ResponseError::Malformed));
    assert_eq!(parse_http_response(b"HTTP/1.1\r\n\r\n"), Err(ResponseError::MissingStatus));
    let e = parse_http_response(b"HTTP/1.1 abc\r\n\r\n").unwrap_err();
    assert!(matches!(e, ResponseError::InvalidStatus { .. }));
    assert_eq!(e.message(), "invalid HTTP status from serverless runtime: invalid digit found in string");
    assert_eq!(
        parse_http_response(b"HTTP/1.1 70000 OK\r\n\r\n").unwrap_err().message(),
        "invalid HTTP status from serverless runtime: number too large to fit in target type"
    );
    assert_eq!(ResponseError::Malformed.message(), "malformed HTTP response from serverless runtime");
}

#[test]
fn http_requests_are_written_out() {
    assert_eq!(get_request("10.0.0.1", 8080, "/healthz"), "GET /healthz HTTP/1.1\r\nHost: 10.0.0.1:8080\r\nConnection: close\r\n\r\n");
    let body = JsonValue::Object(vec![("a".to_string(), JsonValue::Number(JsonNumber::PosInt(1)))]);
    assert_eq!(
        post_json_request("h", 1, "/invoke", &body),
        "POST /invoke HTTP/1.1\r\nHost: h:1\r\nContent-Type: application/json\r\nContent-Length: 7\r\nConnection: close\r\n\r\n{\"a\":1}"
    );
    let text = JsonValue::String("héllo".to_string());
    assert!(post_json_request("h", 1, "/", &text).contains("Content-Length: 8\r\n"));
    assert_eq!(pick_index_at(Some(17), 5), 2);
    assert_eq!(pick_index_at(None, 5), 0);
}

#[test]
fn status_patches() {
    assert_eq!(desired_status_patch(3), json("{\"status\":{\"desiredInstances\":3}}"));
    let t = Timestamp { secs: 0, nanos: 0 };
    let p = runtime_status_patch_at(RuntimeSnapshot { active_instances: 2, in_flight: 1 }, None, t);
    assert_eq!(
        p,
        json("{\"status\":{\"desiredInstances\":2,\"inFlight\":1,\"lastError\":null,\"lastInvokedAt\":\"1970-01-01T00:00:00Z\"}}")
    );
    let later = Timestamp { secs: 1_700_000_000, nanos: 500_000_000 };
    let q = runtime_status_patch_at(RuntimeSnapshot { active_instances: 1, in_flight: 0 }, Some("x".to_string()), later);
    let status = q.get("status").unwrap();
    assert_eq!(status.get("lastInvokedAt"), Some(&JsonValue::String("2023-11-14T22:13:20.500Z".to_string())));
    assert_eq!(status.get("lastError"), Some(&JsonValue::String("x".to_string())));
    let revision = serverless::pods::service_revision_name(&service());
    let o = observed_status_patch(&service(), 1, Some("oops".to_string()));
    let want = format!(
        "{{\"status\":{{\"activeInstances\":1,\"lastError\":\"oops\",\"latestRevision\":\"{revision}\",\"ready\":false,\"url\":\"http://sks-hello.default.svc.cluster.local:8080\"}}}}"
    );
    assert_eq!(o, json(&want));
    let ok = observed_status_patch(&service(), 2, None);
    let want_ok = format!(
        "{{\"status\":{{\"activeInstances\":2,\"latestRevision\":\"{revision}\",\"ready\":true,\"url\":\"http://sks-hello.default.svc.cluster.local:8080\"}}}}"
    );
    assert_eq!(ok, json(&want_ok));
}

#[test]
fn status_records() {
    let now = Timestamp { secs: 5, nanos: 0 };
    let s = service_status_at(&service(), 2, 1, None, now);
    assert!(s.ready);
    assert_eq!(s.url, Some("http://sks-hello.default.svc.cluster.local:8080".to_string()));
    assert_eq!(s.last_invoked_at, Some(now));
    let wf = Workflow {
        spec: WorkflowSpec {
            entrypoint: "a".to_string(),
            steps: vec![("a".to_string(), WorkflowStep { function: "f".to_string(), next: None, branches: Vec::new() })],
        },
        ..Default::default()
    };
    assert!(workflow_status_at(&wf, None, now).ready);
    let trig = serverless::api::eventtrigger::EventTrigger::new(ObjectMeta::named("t".to_string(), String::new()), Default::default());
    let st = trigger_success_status_at(&trig, now);
    assert_eq!(st.delivered_count, 1);
    assert!(st.ready);
}

#[test]
fn processes_and_event_plumbing() {
    let c = controller_main(2);
    assert_eq!(c.default_bind, "0.0.0.0:8083");
    assert_eq!(c.routes, RouteSet::Health);
    assert_eq!(c.tasks, vec![BackgroundTask::Reconcile { period_secs: 2 }]);
    assert!(c.reconcile_on_change);
    let a = activator_main(5);
    assert_eq!(a.default_bind, "0.0.0.0:8082");
    assert_eq!(a.tasks, vec![BackgroundTask::IdleScale { period_secs: 5 }, BackgroundTask::EventSources { tick_secs: 1 }]);
    assert!(!a.reconcile_on_change);
    let keys = vec!["a".to_string(), "b".to_string(), "a".to_string(), "c".to_string(), "b".to_string()];
    assert_eq!(batch_keys(keys), vec!["a".to_string(), "b".to_string(), "c".to_string()]);
    let e = ingress_event("ticket.created".to_string(), JsonValue::Null).unwrap();
    assert_eq!(e.source, "/api/v1/events");
    let r = event_response("ticket.created".to_string(), Vec::new());
    assert_eq!(r.delivered, 0);
    let metas = vec![
        ObjectMeta::named("x".to_string(), "ns".to_string()),
        ObjectMeta::named("hello".to_string(), " ".to_string()),
    ];
    assert_eq!(find_namespaced(&metas, "default", "hello"), Some(1));
    assert_eq!(find_namespaced(&metas, "ns", "hello"), None);
}

#[test]
fn python_runs() {
    let script = python_wrapper("def h(e, c):\n    return e", "h", "default", "f");
    assert!(script.starts_with("def h(e, c):\n    return e\n\nimport json as __minik8s_json\n"));
    assert!(script.contains("globals().get(\"h\")"));
    assert!(script.contains("raise RuntimeError(\"handler h is not callable\")"));
    assert!(script.contains("{\"namespace\": \"default\", \"name\": \"f\"}"));
    let mut f = serverless::api::function::Function::new(
        ObjectMeta::named("f".to_string(), String::new()),
        Default::default(),
    );
    assert_eq!(python_script(&f), Err("function source is empty; upload source before invoking".to_string()));
    f.spec.source.inline = Some("x = 1".to_string());
    f.spec.handler = "  main ".to_string();
    let s = python_script(&f).unwrap();
    assert_eq!(s, python_wrapper("x = 1", "main", "default", "f"));
    assert_eq!(python_output(b"  \n"), Ok(JsonValue::Null));
    assert_eq!(python_output(b" true "), Ok(JsonValue::Bool(true)));
    assert_eq!(
        python_output(&[0xff, 0xfe]),
        Err("function output is not UTF-8: invalid utf-8 sequence of 1 bytes from index 0".to_string())
    );
    assert!(python_output(b"{x").unwrap_err().starts_with("function output is not JSON: {x: "));
    assert_eq!(python_failure("exit status: 1", b" Traceback \n"), "python exited with exit status: 1: Traceback");
}

#[test]
fn watch_events_name_the_services_to_reconcile() {
    let added = serverless::component::InformerEvent::Added("default/a".to_string());
    assert_eq!(serverless::component::changed_key(&added), Some("default/a".to_string()));
    let deleted = serverless::component::InformerEvent::Deleted("ns/b".to_string());
    assert_eq!(serverless::component::changed_key(&deleted), Some("ns/b".to_string()));
    assert_eq!(serverless::component::changed_key(&serverless::component::InformerEvent::Synced), None);
    let err = serverless::component::InformerEvent::Error("lost".to_string());
    assert_eq!(serverless::component::changed_key(&err), None);
}

#[test]
fn invocation_waits_and_sizes() {
    assert_eq!(serverless::pods::invoke_desired(0), 1);
    assert_eq!(serverless::pods::invoke_desired(4), 4);
    assert_eq!(serverless::pods::startup_attempts(), 600);
    assert_eq!(
        serverless::pods::startup_timeout_message(&service()),
        "timed out waiting for ServerlessService default/hello pod after 300s"
    );
    let now = Timestamp { secs: 9, nanos: 1 };
    let st = serverless::pods::revision_status_at(true, now);
    assert!(st.ready);
    assert_eq!(st.created_at, Some(now));
    assert!(serverless::http::is_success(204));
    assert!(!serverless::http::is_success(300));
    assert!(!serverless::http::is_success(199));
}

#[test]
fn triggers_receive_only_the_event_payload() {
    let data = JsonValue::Object(vec![("text".to_string(), JsonValue::String("good comment".to_string()))]);
    let event = ingress_event("comment.created".to_string(), data.copy()).unwrap();
    assert_eq!(serverless::broker::trigger_input(&event), data);
}

#[test]
fn deploy_to_a_registry_names_the_latest_image() {
    assert_eq!(
        serverless::kn::resolve_image(None, Some("stevenissleepy".to_string()), "sentiment-it"),
        Ok("stevenissleepy/sentiment-it:latest".to_string())
    );
}
