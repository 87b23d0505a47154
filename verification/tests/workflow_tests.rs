use serverless::api::workflow::{BranchCondition, Workflow, WorkflowBranch, WorkflowSpec, WorkflowStep};
use serverless::api::SpecError;
use serverless::flow::{WorkflowAction, WorkflowRun};
use serverless::json::{JsonNumber, JsonValue};
use serverless::routing::{branch_matches, next_step, reachable_functions};

fn step(function: &str, next: Option<&str>, branches: Vec<WorkflowBranch>) -> WorkflowStep {
    WorkflowStep { function: function.to_string(), next: next.map(|n| n.to_string()), branches }
}

fn text(s: &str) -> JsonValue {
    JsonValue::String(s.to_string())
}

fn object(fields: Vec<(&str, JsonValue)>) -> JsonValue {
    JsonValue::Object(fields.into_iter().map(|(k, v)| (k.to_string(), v)).collect())
}

fn ticket_workflow() -> Workflow {
    Workflow {
        spec: WorkflowSpec {
            entrypoint: "classify".to_string(),
            steps: vec![
                ("auto".to_string(), step("auto-reply", Some("notify"), Vec::new())),
                ("classify".to_string(), step("ticket-classify", Some("score"), Vec::new())),
                ("human".to_string(), step("human-escalate", Some("notify"), Vec::new())),
                ("notify".to_string(), step("notify", None, Vec::new())),
                (
                    "score".to_string(),
                    step(
                        "risk-score",
                        Some("auto"),
                        vec![WorkflowBranch { next: "human".to_string(), ..Default::default() }],
                    ),
                ),
            ],
        },
        ..Default::default()
    }
}

#[test]
fn reachable_functions_collects_all_branches_once() {
    let workflow = ticket_workflow();
    assert_eq!(
        reachable_functions(&workflow),
        vec!["auto-reply", "human-escalate", "notify", "risk-score", "ticket-classify"]
    );
}

#[test]
fn reachable_functions_skips_unreachable_and_blank_steps() {
    let workflow = Workflow {
        spec: WorkflowSpec {
            entrypoint: "a".to_string(),
            steps: vec![
                ("a".to_string(), step("  ", Some("b"), Vec::new())),
                ("b".to_string(), step("fb", Some("a"), Vec::new())),
                ("c".to_string(), step("fc", None, Vec::new())),
            ],
        },
        ..Default::default()
    };
    assert_eq!(reachable_functions(&workflow), vec!["fb"]);
}

#[test]
fn branch_with_equals_on_a_field_matches() {
    let cond = BranchCondition { equals: Some(text("high")), contains: None, field: Some("risk.level".to_string()) };
    let out = object(vec![("risk", object(vec![("level", text("high"))]))]);
    assert!(branch_matches(&cond, &out));
    let low = object(vec![("risk", object(vec![("level", text("low"))]))]);
    assert!(!branch_matches(&cond, &low));
}

#[test]
fn branch_with_contains_reads_strings_and_json_text() {
    let cond = BranchCondition { equals: None, contains: Some("urg".to_string()), field: None };
    assert!(branch_matches(&cond, &text("urgent ticket")));
    assert!(!branch_matches(&cond, &text("routine")));
    let number_cond = BranchCondition { equals: None, contains: Some("42".to_string()), field: None };
    assert!(branch_matches(&number_cond, &JsonValue::Number(JsonNumber::PosInt(1423))));
}

#[test]
fn empty_condition_always_matches() {
    assert!(branch_matches(&BranchCondition::default(), &JsonValue::Null));
}

#[test]
fn next_step_takes_first_matching_branch_else_default() {
    let s = step(
        "f",
        Some("fallback"),
        vec![
            WorkflowBranch {
                when: BranchCondition { equals: Some(text("a")), contains: None, field: None },
                next: "first".to_string(),
            },
            WorkflowBranch {
                when: BranchCondition { equals: None, contains: Some("b".to_string()), field: None },
                next: "second".to_string(),
            },
        ],
    );
    assert_eq!(next_step(&s, &text("a")), Some("first".to_string()));
    assert_eq!(next_step(&s, &text("abc")), Some("second".to_string()));
    assert_eq!(next_step(&s, &text("zzz")), Some("fallback".to_string()));
    let last = step("f", None, Vec::new());
    assert_eq!(next_step(&last, &text("x")), None);
}

#[test]
fn workflow_run_walks_steps_and_records_trace() {
    let wf = ticket_workflow();
    let (mut run, action) = WorkflowRun::start("default".to_string(), "tickets".to_string(), &wf, text("in"));
    match action {
        WorkflowAction::Invoke { function, input } => {
            assert_eq!(function, "ticket-classify");
            assert_eq!(input, text("in"));
        }
        other => panic!("unexpected {other:?}"),
    }
    let a = run.on_output(&wf, text("c1"));
    assert!(matches!(a, WorkflowAction::Invoke { ref function, .. } if function == "risk-score"));
    let a = run.on_output(&wf, text("s1"));
    assert!(matches!(a, WorkflowAction::Invoke { ref function, .. } if function == "human-escalate"));
    let a = run.on_output(&wf, text("h1"));
    assert!(matches!(a, WorkflowAction::Invoke { ref function, .. } if function == "notify"));
    match run.on_output(&wf, text("done")) {
        WorkflowAction::Finish(resp) => {
            assert_eq!(resp.result, text("done"));
            let steps: Vec<&str> = resp.trace.iter().map(|e| e.step.as_str()).collect();
            assert_eq!(steps, vec!["classify", "score", "human", "notify"]);
            let reachable = reachable_functions(&wf);
            assert!(resp.trace.iter().all(|e| reachable.contains(&e.function)));
            assert_eq!(resp.trace[1].function, "risk-score");
            assert_eq!(resp.trace[1].output, text("s1"));
        }
        other => panic!("unexpected {other:?}"),
    }
}

#[test]
fn workflow_run_reports_missing_step() {
    let wf = Workflow {
        spec: WorkflowSpec { entrypoint: "nowhere".to_string(), steps: Vec::new() },
        ..Default::default()
    };
    let (_, action) = WorkflowRun::start("ns".to_string(), "wf".to_string(), &wf, JsonValue::Null);
    match action {
        WorkflowAction::Fail { error, status_error } => {
            assert_eq!(error.status, 500);
            assert_eq!(error.message, "workflow ns/wf references missing step nowhere\n");
            assert!(status_error.is_none());
        }
        other => panic!("unexpected {other:?}"),
    }
}

#[test]
fn workflow_run_stops_a_cycle_after_sixty_four_calls() {
    let wf = Workflow {
        spec: WorkflowSpec {
            entrypoint: "loop".to_string(),
            steps: vec![("loop".to_string(), step("spin", Some("loop"), Vec::new()))],
        },
        ..Default::default()
    };
    let (mut run, mut action) = WorkflowRun::start("ns".to_string(), "wf".to_string(), &wf, JsonValue::Null);
    let mut calls = 0;
    loop {
        match action {
            WorkflowAction::Invoke { .. } => {
                calls += 1;
                action = run.on_output(&wf, JsonValue::Null);
            }
            WorkflowAction::Fail { error, status_error } => {
                assert_eq!(calls, 64);
                assert_eq!(error.message, "workflow exceeded 64 steps; possible cycle\n");
                assert_eq!(status_error, Some("workflow exceeded 64 steps; possible cycle".to_string()));
                break;
            }
            WorkflowAction::Finish(_) => panic!("a cycle cannot finish"),
        }
    }
}

#[test]
fn workflow_validation_reports_each_rule() {
    let mut wf = ticket_workflow();
    assert_eq!(wf.validate_spec(), Ok(()));
    wf.spec.entrypoint = " ".to_string();
    assert_eq!(wf.validate_spec(), Err(SpecError::WorkflowEntrypointRequired));
    wf.spec.entrypoint = "missing".to_string();
    let e = wf.validate_spec().unwrap_err();
    assert_eq!(e, SpecError::WorkflowEntrypointMissing);
    assert_eq!(e.message(), "workflow spec.entrypoint must name an existing step");
    let mut wf = ticket_workflow();
    wf.spec.steps[0].1.function = String::new();
    let e = wf.validate_spec().unwrap_err();
    assert_eq!(e.message(), "workflow step auto function is required");
    let mut wf = ticket_workflow();
    wf.spec.steps[0].1.next = Some("gone".to_string());
    assert_eq!(wf.validate_spec().unwrap_err().message(), "workflow step auto next step gone not found");
    let mut wf = ticket_workflow();
    wf.spec.steps[4].1.branches[0].next = " ".to_string();
    assert_eq!(wf.validate_spec().unwrap_err().message(), "workflow step score branch next is required");
    wf.spec.steps[4].1.branches[0].next = "void".to_string();
    assert_eq!(wf.validate_spec().unwrap_err().message(), "workflow step score branch next step void not found");
    let mut wf = ticket_workflow();
    wf.spec.steps.swap(0, 1);
    assert_eq!(wf.validate_spec(), Err(SpecError::WorkflowStepsNotKeyed));
    let mut wf = ticket_workflow();
    let again = (wf.spec.steps[0].0.clone(), step("other", None, Vec::new()));
    wf.spec.steps.insert(1, again);
    assert_eq!(
        wf.validate_spec().unwrap_err().message(),
        "workflow spec.steps must be sorted by name with no name twice"
    );
}

#[test]
fn valid_workflow_reaches_every_step_it_routes_to() {
    let wf = ticket_workflow();
    assert_eq!(wf.validate_spec(), Ok(()));
    for output in [text("plain"), text("human")] {
        let (mut run, mut action) = WorkflowRun::start("default".to_string(), "tickets".to_string(), &wf, text("in"));
        loop {
            match action {
                WorkflowAction::Invoke { .. } => action = run.on_output(&wf, output.copy()),
                WorkflowAction::Finish(_) => break,
                WorkflowAction::Fail { error, .. } => panic!("unexpected failure {}", error.message),
            }
        }
    }
}
