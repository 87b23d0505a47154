use serverless::api::eventsource::{EventSource, EventSourceSpec, FileSource, PingSource};
use serverless::api::eventtrigger::{EventTrigger, EventTriggerSpec, TriggerTarget, TriggerTargetKind};
use serverless::broker::{matching_triggers, EventDelivery};
use serverless::json::{JsonNumber, JsonValue};
use serverless::meta::ObjectMeta;
use serverless::source::{file_event_data, source_event, source_id, source_key, SourceRuntime, SourceTable};
use serverless::time::Timestamp;

fn at(secs: i64) -> Timestamp {
    Timestamp { secs, nanos: 0 }
}

fn src(name: &str, ping: Option<PingSource>, file: Option<FileSource>) -> EventSource {
    EventSource {
        metadata: ObjectMeta::named(name.to_string(), String::new()),
        spec: EventSourceSpec { event_type: "tick".to_string(), ping, file },
        ..Default::default()
    }
}

fn interval(secs: u64) -> Option<PingSource> {
    Some(PingSource { schedule: None, interval_seconds: Some(secs), data: JsonValue::String("hi".to_string()) })
}

fn trigger(name: &str, event_type: &str, kind: TriggerTargetKind, target: &str) -> EventTrigger {
    EventTrigger::new(
        ObjectMeta::named(name.to_string(), "default".to_string()),
        EventTriggerSpec { event_type: event_type.to_string(), target: TriggerTarget { kind, name: target.to_string() } },
    )
}

#[test]
fn interval_source_fires_once_per_interval() {
    let s = src("p", interval(10), None);
    let mut rt = SourceRuntime::init(&s, at(100), None).unwrap();
    assert_eq!(rt.poll(at(105), None), None);
    assert_eq!(rt.poll(at(110), None), Some(JsonValue::String("hi".to_string())));
    assert_eq!(rt.poll(at(115), None), None);
    assert_eq!(rt.poll(at(120), None), Some(JsonValue::String("hi".to_string())));
}

#[test]
fn zero_interval_counts_as_one_second() {
    let s = src("p", interval(0), None);
    let mut rt = SourceRuntime::init(&s, at(0), None).unwrap();
    assert!(rt.poll(at(1), None).is_some());
}

#[test]
fn cron_source_fires_at_selected_instants() {
    let ping = PingSource { schedule: Some("0 * * * * *".to_string()), interval_seconds: None, data: JsonValue::Bool(true) };
    let s = src("c", Some(ping), None);
    let mut rt = SourceRuntime::init(&s, at(30), None).unwrap();
    assert_eq!(rt.poll(at(59), None), None);
    assert_eq!(rt.poll(at(60), None), Some(JsonValue::Bool(true)));
    assert_eq!(rt.poll(at(61), None), None);
    assert_eq!(rt.poll(at(120), None), Some(JsonValue::Bool(true)));
}

#[test]
fn bad_cron_expression_is_an_error() {
    let ping = PingSource { schedule: Some("not cron".to_string()), interval_seconds: None, data: JsonValue::Null };
    let err = SourceRuntime::init(&src("c", Some(ping), None), at(0), None).err().unwrap();
    assert_eq!(err, "invalid cron schedule \"not cron\": Invalid expression: Invalid cron expression.");
    let none = PingSource { schedule: None, interval_seconds: None, data: JsonValue::Null };
    assert_eq!(
        SourceRuntime::init(&src("c", Some(none), None), at(0), None).err().unwrap(),
        "ping requires schedule or intervalSeconds"
    );
    assert_eq!(
        SourceRuntime::init(&src("c", None, None), at(0), None).err().unwrap(),
        "eventsource spec must set one of ping / file"
    );
}

#[test]
fn file_source_fires_on_changes_after_the_baseline() {
    let file = FileSource { path: "/data/in.txt".to_string(), interval_seconds: 0 };
    let s = src("f", None, Some(file));
    let mut rt = SourceRuntime::init(&s, at(0), Some(at(50))).unwrap();
    assert!(rt.mtime_due(at(1)).is_none());
    assert_eq!(rt.mtime_due(at(2)).map(|p| p.as_str()), Some("/data/in.txt"));
    assert_eq!(rt.poll(at(2), Some(at(50))), None);
    let fired = rt.poll(at(4), Some(at(70))).unwrap();
    assert_eq!(fired, file_event_data(&"/data/in.txt".to_string(), at(70)));
    assert_eq!(rt.poll(at(6), Some(at(70))), None);
}

#[test]
fn file_that_appears_later_only_sets_the_baseline() {
    let file = FileSource { path: "p".to_string(), interval_seconds: 5 };
    let mut rt = SourceRuntime::init(&src("f", None, Some(file)), at(0), None).unwrap();
    assert_eq!(rt.poll(at(5), Some(at(3))), None);
    assert_eq!(rt.poll(at(10), Some(at(3))), None);
    assert!(rt.poll(at(15), Some(at(9))).is_some());
}

#[test]
fn file_event_payload_has_path_and_seconds() {
    let v = file_event_data(&"/a/b".to_string(), Timestamp { secs: 1700, nanos: 5 });
    assert_eq!(
        v,
        JsonValue::Object(vec![
            ("modifiedUnix".to_string(), JsonValue::Number(JsonNumber::PosInt(1700))),
            ("path".to_string(), JsonValue::String("/a/b".to_string())),
        ])
    );
    let before_epoch = file_event_data(&"x".to_string(), Timestamp { secs: -5, nanos: 0 });
    assert_eq!(before_epoch.get("modifiedUnix"), Some(&JsonValue::Number(JsonNumber::PosInt(0))));
}

#[test]
fn source_table_starts_polls_and_forgets_sources() {
    let a = src("a", interval(1), None);
    let bad = src(
        "bad",
        Some(PingSource { schedule: Some("??".to_string()), interval_seconds: None, data: JsonValue::Null }),
        None,
    );
    let mut table = SourceTable::new();
    assert!(table.needs_start(&a));
    assert_eq!(table.start(&a, at(0), None), None);
    assert!(!table.needs_start(&a));
    assert!(table.start(&bad, at(0), None).is_some());
    assert!(!table.needs_start(&bad));
    assert_eq!(table.poll(&bad, at(100), None), None);
    assert!(table.poll(&a, at(1), None).is_some());
    table.retain_live(&vec![bad]);
    assert!(table.needs_start(&a));
}

#[test]
fn source_identity_and_event() {
    let a = src("cron-tick", interval(1), None);
    assert_eq!(source_key(&a), "default/cron-tick");
    assert_eq!(source_id(&a), "/eventsources/default/cron-tick");
    let e = source_event(&a, JsonValue::Null).unwrap();
    assert_eq!(e.source, "/eventsources/default/cron-tick");
    assert_eq!(e.event_type, "tick");
}

#[test]
fn broker_fans_out_to_matching_triggers_in_order() {
    let triggers = vec![
        trigger("t1", "ticket.created", TriggerTargetKind::Function, "f"),
        trigger("t2", "ticket.closed", TriggerTargetKind::Function, "g"),
        trigger("t3", "ticket.created", TriggerTargetKind::Workflow, "w"),
    ];
    assert_eq!(matching_triggers(&triggers, &"ticket.created".to_string()), vec![0, 2]);
    assert!(matching_triggers(&triggers, &"other".to_string()).is_empty());
    let d = EventDelivery::for_trigger("default".to_string(), &triggers[2], JsonValue::Bool(false));
    assert_eq!(d.trigger, "t3");
    assert_eq!(d.target_kind, "Workflow");
    assert_eq!(d.target_name, "w");
    assert_eq!(d.result, JsonValue::Bool(false));
}

#[test]
fn no_source_fires_twice_for_one_instant() {
    let mut interval_rt = SourceRuntime::init(&src("p", interval(0), None), at(0), None).unwrap();
    assert!(interval_rt.poll(at(3), None).is_some());
    assert_eq!(interval_rt.poll(at(3), None), None);

    let ping = PingSource { schedule: Some("* * * * * *".to_string()), interval_seconds: None, data: JsonValue::Null };
    let mut cron_rt = SourceRuntime::init(&src("c", Some(ping), None), at(10), None).unwrap();
    assert!(cron_rt.poll(at(20), None).is_some());
    assert_eq!(cron_rt.poll(at(20), None), None);

    let file = FileSource { path: "p".to_string(), interval_seconds: 1 };
    let mut file_rt = SourceRuntime::init(&src("f", None, Some(file)), at(0), Some(at(1))).unwrap();
    assert!(file_rt.poll(at(5), Some(at(2))).is_some());
    assert_eq!(file_rt.poll(at(5), Some(at(3))), None);
}

#[test]
fn only_a_due_cron_source_needs_room_past_now() {
    let ping = PingSource { schedule: Some("0 * * * * *".to_string()), interval_seconds: None, data: JsonValue::Null };
    let cron = src("c", Some(ping), None);
    let ticker = src("p", interval(5), None);
    let mut table = SourceTable::new();
    assert!(table.reads_cron(&cron, at(30)));
    assert!(!table.reads_cron(&ticker, at(30)));
    assert_eq!(table.start(&cron, at(30), None), None);
    assert!(!table.reads_cron(&cron, at(59)));
    assert!(table.reads_cron(&cron, at(60)));
    let last = Timestamp { secs: 8_210_266_876_799, nanos: 0 };
    assert!(last.is_representable());
    assert!(!last.is_in_chrono_range());
    assert_eq!(table.start(&ticker, last, None), None);
    assert_eq!(table.poll(&ticker, last, None), None);
}
