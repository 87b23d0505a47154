//! Running a workflow: a state machine that says which function to call next
//! given the last function's output, and how the run ends.

use crate::api::workflow::{
    find_step, first_step_at, has_step, lemma_step_named_at, lemma_step_named_some, lemma_valid_targets_exist, step_named, steps_view,
    workflow_spec_check, Workflow, WorkflowBranchView, WorkflowStepView,
};
use crate::http::{api_error, HttpError};
use crate::json::{JsonValue, JsonView};
use crate::routing::{
    branch_matches_spec, first_matching_branch, function_of, is_walk, lemma_matching_branch_in, next_step, next_step_spec,
    reachable_function,
    reachable_step, step_edge,
};
use crate::text::all_ws;
use crate::text::{concat3, owned};
use vstd::prelude::*;

verus! {

/// A run calls at most this many functions before it is stopped as a likely cycle.
pub const MAX_WORKFLOW_STEPS: usize = 64;

/// One function call of a run.
#[derive(Debug, PartialEq, Eq)]
pub struct WorkflowTraceEntry {
    pub step: String,
    pub function: String,
    pub output: JsonValue,
}

/// The answer to a workflow invocation: the last output and every call made.
#[derive(Debug, PartialEq, Eq)]
pub struct WorkflowInvokeResponse {
    pub result: JsonValue,
    pub trace: Vec<WorkflowTraceEntry>,
}

pub struct TraceEntryView {
    pub step: Seq<char>,
    pub function: Seq<char>,
    pub output: JsonView,
}

impl View for WorkflowTraceEntry {
    type V = TraceEntryView;

    open spec fn view(&self) -> TraceEntryView {
        TraceEntryView { step: self.step@, function: self.function@, output: self.output@ }
    }
}

pub open spec fn trace_view(t: Seq<WorkflowTraceEntry>) -> Seq<TraceEntryView> {
    t.map_values(|e: WorkflowTraceEntry| e@)
}

/// What the caller does next.
#[derive(Debug, PartialEq, Eq)]
pub enum WorkflowAction {
    /// Call `function` with `input`, then report its output.
    Invoke { function: String, input: JsonValue },
    /// The run is over: record the workflow as invoked without error and reply.
    Finish(WorkflowInvokeResponse),
    /// The run failed: reply with `error`, and when `status_error` is set, record it as the
    /// workflow's last error.
    Fail { error: HttpError, status_error: Option<String> },
}

/// A workflow run in progress.
pub struct WorkflowRun {
    namespace: String,
    name: String,
    current: String,
    awaiting: bool,
    trace: Vec<WorkflowTraceEntry>,
}

impl WorkflowRun {
    #[verifier::type_invariant]
    closed spec fn inv(self) -> bool {
        self.awaiting ==> self.trace@.len() < MAX_WORKFLOW_STEPS
    }

    /// Step whose function call is awaited or was made last.
    pub closed spec fn current_step(&self) -> Seq<char> {
        self.current@
    }

    /// Whether the run waits for the output of a call.
    pub closed spec fn is_awaiting(&self) -> bool {
        self.awaiting
    }

    /// Calls made so far.
    pub closed spec fn calls(&self) -> Seq<TraceEntryView> {
        trace_view(self.trace@)
    }

    /// Namespace and name the run answers for.
    pub closed spec fn target(&self) -> (Seq<char>, Seq<char>) {
        (self.namespace@, self.name@)
    }
}

/// Reply for a step name that no step has.
pub open spec fn missing_step_message(namespace: Seq<char>, name: Seq<char>, step: Seq<char>) -> Seq<char> {
    "workflow "@ + namespace + "/"@ + name + " references missing step "@ + step + "\n"@
}

/// Reply and recorded error when a run exceeds its call budget.
pub open spec fn cycle_message() -> Seq<char> {
    "workflow exceeded 64 steps; possible cycle"@
}

fn missing_step(namespace: &String, name: &String, step: &String) -> (r: WorkflowAction)
    ensures
        ({
            &&& r matches WorkflowAction::Fail { error, status_error }
            &&& error.status == 500
            &&& error.message@ == missing_step_message(namespace@, name@, step@)
            &&& status_error.is_none()
        }),
{
    let mut m = concat3("workflow ", namespace.as_str(), "/");
    m.append(name.as_str());
    m.append(" references missing step ");
    m.append(step.as_str());
    WorkflowAction::Fail { error: api_error(m.as_str()), status_error: None }
}

impl WorkflowRun {
    /// Starts a run of `workflow` (invoked as `namespace/name`) on `input`: call the
    /// entrypoint's function with the input, or fail when no step has that name.
    pub fn start(namespace: String, name: String, workflow: &Workflow, input: JsonValue) -> (r: (WorkflowRun, WorkflowAction))
        ensures
            r.0.current_step() == workflow.spec.entrypoint@,
            r.0.calls().len() == 0,
            r.0.target() == (namespace@, name@),
            match step_named(steps_view(workflow.spec.steps@), workflow.spec.entrypoint@) {
                Some(st) => {
                    &&& r.0.is_awaiting()
                    &&& r.1 matches WorkflowAction::Invoke { function, input: given }
                    &&& function@ == st.function
                    &&& given@ == input@
                },
                None => {
                    &&& !r.0.is_awaiting()
                    &&& r.1 matches WorkflowAction::Fail { error, status_error }
                    &&& error.status == 500
                    &&& error.message@ == missing_step_message(namespace@, name@, workflow.spec.entrypoint@)
                    &&& status_error.is_none()
                },
            },
    {
        let current = workflow.spec.entrypoint.clone();
        match find_step(&workflow.spec.steps, &current) {
            Some(i) => {
                let function = workflow.spec.steps[i].1.function.clone();
                proof {
                    assert(steps_view(workflow.spec.steps@)[i as int].1 == workflow.spec.steps@[i as int].1@);
                }
                let run = WorkflowRun { namespace, name, current, awaiting: true, trace: Vec::new() };
                assert(trace_view(run.trace@) =~= Seq::empty());
                (run, WorkflowAction::Invoke { function, input })
            },
            None => {
                let action = missing_step(&namespace, &name, &current);
                let run = WorkflowRun { namespace, name, current, awaiting: false, trace: Vec::new() };
                assert(trace_view(run.trace@) =~= Seq::empty());
                (run, action)
            },
        }
    }
}


impl WorkflowRun {
    /// Takes the output of the awaited call. The call is added to the trace. When the step
    /// routes nowhere, the run finishes with the output as result. Otherwise, after the
    /// 64th call the run fails as a likely cycle (recording the error); a next step that
    /// does not exist fails the run; else that step's function is called with the output.
    pub fn on_output(&mut self, workflow: &Workflow, output: JsonValue) -> (r: WorkflowAction)
        requires
            old(self).is_awaiting(),
            step_named(steps_view(workflow.spec.steps@), old(self).current_step()).is_some(),
        ensures
            ({
                let st = step_named(steps_view(workflow.spec.steps@), old(self).current_step()).unwrap();
                let entry = TraceEntryView { step: old(self).current_step(), function: st.function, output: output@ };
                let calls = old(self).calls().push(entry);
                let (ns, nm) = old(self).target();
                &&& final(self).target() == old(self).target()
                &&& final(self).is_awaiting() ==> final(self).calls().len() < MAX_WORKFLOW_STEPS
                &&& match next_step_spec(st, output@) {
                    None => {
                        &&& !final(self).is_awaiting()
                        &&& r matches WorkflowAction::Finish(resp)
                        &&& resp.result@ == output@
                        &&& trace_view(resp.trace@) == calls
                    },
                    Some(next) => if calls.len() >= MAX_WORKFLOW_STEPS {
                        &&& !final(self).is_awaiting()
                        &&& r matches WorkflowAction::Fail { error, status_error }
                        &&& error.status == 500
                        &&& error.message@ == cycle_message() + "\n"@
                        &&& status_error matches Some(e) && e@ == cycle_message()
                    } else {
                        &&& final(self).calls() == calls
                        &&& final(self).current_step() == next
                        &&& match step_named(steps_view(workflow.spec.steps@), next) {
                            Some(nst) => {
                                &&& final(self).is_awaiting()
                                &&& r matches WorkflowAction::Invoke { function, input }
                                &&& function@ == nst.function
                                &&& input@ == output@
                            },
                            None => {
                                &&& !final(self).is_awaiting()
                                &&& r matches WorkflowAction::Fail { error, status_error }
                                &&& error.status == 500
                                &&& error.message@ == missing_step_message(ns, nm, next)
                                &&& status_error.is_none()
                            },
                        }
                    },
                }
            }),
    {
        proof {
            use_type_invariant(&*self);
        }
        let i = match find_step(&workflow.spec.steps, &self.current) {
            Some(i) => i,
            None => {
                proof {
                    assert(false);
                }
                return WorkflowAction::Fail { error: api_error(""), status_error: None };
            },
        };
        let step = &workflow.spec.steps[i].1;
        proof {
            assert(steps_view(workflow.spec.steps@)[i as int].1 == step@);
        }
        let next = next_step(step, &output);
        let entry = WorkflowTraceEntry {
            step: self.current.clone(),
            function: step.function.clone(),
            output: output.copy(),
        };
        let ghost before = self.trace@;
        let mut trace = Vec::new();
        std::mem::swap(&mut trace, &mut self.trace);
        trace.push(entry);
        proof {
            assert(trace_view(trace@) =~= trace_view(before).push(entry@));
        }
        match next {
            None => {
                self.awaiting = false;
                WorkflowAction::Finish(WorkflowInvokeResponse { result: output, trace })
            },
            Some(n) => {
                if trace.len() >= MAX_WORKFLOW_STEPS {
                    self.awaiting = false;
                    self.trace = trace;
                    let msg = owned("workflow exceeded 64 steps; possible cycle");
                    let error = api_error(msg.as_str());
                    return WorkflowAction::Fail { error, status_error: Some(msg) };
                }
                self.trace = trace;
                self.current = n;
                match find_step(&workflow.spec.steps, &self.current) {
                    Some(j) => {
                        let function = workflow.spec.steps[j].1.function.clone();
                        proof {
                            assert(steps_view(workflow.spec.steps@)[j as int].1 == workflow.spec.steps@[j as int].1@);
                        }
                        self.awaiting = true;
                        WorkflowAction::Invoke { function, input: output }
                    },
                    None => {
                        self.awaiting = false;
                        missing_step(&self.namespace, &self.name, &self.current)
                    },
                }
            },
        }
    }
}


/// The calls of a run follow the workflow: the first called the entrypoint, each called
/// its step's function, each next step is where the one before routed its output, and the
/// step awaited now is where the last call routed (the entrypoint before any call).
pub open spec fn follows_routing(
    steps: Seq<(Seq<char>, WorkflowStepView)>,
    entry: Seq<char>,
    calls: Seq<TraceEntryView>,
    current: Seq<char>,
) -> bool {
    &&& calls.len() == 0 ==> current == entry
    &&& calls.len() > 0 ==> calls[0].step == entry
    &&& forall|i: int|
        0 <= i < calls.len() ==> (#[trigger] step_named(steps, calls[i].step)).is_some() && step_named(
            steps,
            calls[i].step,
        ).unwrap().function == calls[i].function
    &&& forall|i: int|
        0 <= i < calls.len() - 1 ==> next_step_spec(step_named(steps, #[trigger] calls[i].step).unwrap(), calls[i].output)
            == Some(calls[i + 1].step)
    &&& calls.len() > 0 ==> next_step_spec(step_named(steps, calls.last().step).unwrap(), calls.last().output)
        == Some(current)
}

/// Law: a run starts at the entrypoint, and each call it records keeps its calls on the
/// workflow's routes: the step called is the one awaited, its function is the step's, and
/// the run moves on to where the step routes the output.
pub proof fn law_calls_follow_routing(
    steps: Seq<(Seq<char>, WorkflowStepView)>,
    entry: Seq<char>,
    calls: Seq<TraceEntryView>,
    current: Seq<char>,
    output: JsonView,
    next: Seq<char>,
)
    requires
        follows_routing(steps, entry, calls, current),
        step_named(steps, current).is_some(),
        next_step_spec(step_named(steps, current).unwrap(), output) == Some(next),
    ensures
        follows_routing(steps, entry, Seq::empty(), entry),
        follows_routing(
            steps,
            entry,
            calls.push(TraceEntryView { step: current, function: step_named(steps, current).unwrap().function, output }),
            next,
        ),
{
    let e = TraceEntryView { step: current, function: step_named(steps, current).unwrap().function, output };
    let c2 = calls.push(e);
    assert forall|i: int| 0 <= i < c2.len() implies (#[trigger] step_named(steps, c2[i].step)).is_some() && step_named(
        steps,
        c2[i].step,
    ).unwrap().function == c2[i].function by {
        if i < calls.len() {
            assert(c2[i] == calls[i]);
        }
    }
    assert forall|i: int| 0 <= i < c2.len() - 1 implies next_step_spec(
        step_named(steps, #[trigger] c2[i].step).unwrap(),
        c2[i].output,
    ) == Some(c2[i + 1].step) by {
        assert(c2[i] == calls[i]);
        if i < calls.len() - 1 {
            assert(c2[i + 1] == calls[i + 1]);
        } else {
            assert(calls[i] == calls.last());
        }
    }
    if calls.len() == 0 {
        assert(c2[0] == e);
    } else {
        assert(c2[0] == calls[0]);
    }
}


/// The step a matching branch leads to is one of the step's branch targets.
proof fn lemma_branch_target(branches: Seq<WorkflowBranchView>, output: JsonView)
    requires
        first_matching_branch(branches, output).is_some(),
    ensures
        exists|k: int| 0 <= k < branches.len() && branches[k].next == first_matching_branch(branches, output).unwrap(),
    decreases branches.len(),
{
    if !branch_matches_spec(branches[0].when, output) {
        let rest = branches.drop_first();
        lemma_branch_target(rest, output);
        let k = choose|k: int| 0 <= k < rest.len() && rest[k].next == first_matching_branch(rest, output).unwrap();
        assert(branches[k + 1] == rest[k]);
    } else {
        assert(branches[0].next == first_matching_branch(branches, output).unwrap());
    }
}

/// Where a step routes an output is an edge of the workflow.
proof fn lemma_next_is_edge(steps: Seq<(Seq<char>, WorkflowStepView)>, a: Seq<char>, output: JsonView)
    requires
        step_named(steps, a).is_some(),
        next_step_spec(step_named(steps, a).unwrap(), output).is_some(),
    ensures
        step_edge(steps, a, next_step_spec(step_named(steps, a).unwrap(), output).unwrap()),
{
    let st = step_named(steps, a).unwrap();
    if first_matching_branch(st.branches, output).is_some() {
        lemma_branch_target(st.branches, output);
    }
}

/// Law: every function a workflow run calls, unless blank, is one the workflow can reach
/// from its entrypoint, so `reachable_functions` lists every function a run may call.
pub proof fn law_called_functions_are_reachable(
    steps: Seq<(Seq<char>, WorkflowStepView)>,
    entry: Seq<char>,
    calls: Seq<TraceEntryView>,
    current: Seq<char>,
    i: int,
)
    requires
        follows_routing(steps, entry, calls, current),
        0 <= i < calls.len(),
        !all_ws(calls[i].function),
    ensures
        reachable_function(steps, entry, calls[i].function),
{
    let p = Seq::new((i + 1) as nat, |j: int| calls[j].step);
    assert forall|j: int| 0 <= j < p.len() - 1 implies step_edge(steps, #[trigger] p[j], p[j + 1]) by {
        assert(step_named(steps, calls[j].step).is_some());
        lemma_next_is_edge(steps, calls[j].step, calls[j].output);
    }
    assert(is_walk(steps, p));
    assert(step_named(steps, calls[i].step).is_some());
    assert(function_of(steps, calls[i].step) == Some(calls[i].function));
    assert(reachable_step(steps, entry, calls[i].step));
}

/// Law: a run of a workflow that passes validation never fails for a missing step. Its
/// entrypoint names a step, so `start` calls a function; and wherever a step routes any
/// output, that step exists, so `on_output` never answers "references missing step".
pub proof fn law_valid_workflow_has_every_step(workflow: Workflow)
    requires
        workflow_spec_check(workflow.spec.entrypoint@, steps_view(workflow.spec.steps@)).is_none(),
    ensures
        step_named(steps_view(workflow.spec.steps@), workflow.spec.entrypoint@).is_some(),
        forall|k: Seq<char>, output: JsonView|
            #![trigger next_step_spec(step_named(steps_view(workflow.spec.steps@), k).unwrap(), output)]
            step_named(steps_view(workflow.spec.steps@), k).is_some()
                && next_step_spec(step_named(steps_view(workflow.spec.steps@), k).unwrap(), output).is_some()
                ==> step_named(
                steps_view(workflow.spec.steps@),
                next_step_spec(step_named(steps_view(workflow.spec.steps@), k).unwrap(), output).unwrap(),
            ).is_some(),
{
    let sv = steps_view(workflow.spec.steps@);
    let entry = workflow.spec.entrypoint@;
    lemma_step_named_some(sv, entry);
    assert forall|k: Seq<char>, output: JsonView|
        step_named(sv, k).is_some() && next_step_spec(step_named(sv, k).unwrap(), output).is_some() implies
        step_named(sv, #[trigger] next_step_spec(step_named(sv, k).unwrap(), output).unwrap()).is_some() by {
        let i = choose|i: int| first_step_at(sv, k, i);
        lemma_step_named_at(sv, k, i);
        let st = sv[i].1;
        let n = next_step_spec(st, output).unwrap();
        lemma_valid_targets_exist(entry, sv, i);
        lemma_matching_branch_in(st.branches, output);
        match first_matching_branch(st.branches, output) {
            Some(m) => {
                let j = choose|j: int| 0 <= j < st.branches.len() && (#[trigger] st.branches[j]).next == m;
                assert(has_step(sv, st.branches[j].next));
            },
            None => {},
        }
        assert(has_step(sv, n));
        lemma_step_named_some(sv, n);
    }
}

} // verus!
