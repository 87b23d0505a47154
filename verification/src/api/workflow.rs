//! `Workflow`: named steps that call functions, routed by each step's output.

use crate::api::{SpecError, SpecErrorView, GROUP, VERSION};
use crate::json::{JsonValue, JsonView};
use crate::meta::{ObjectMeta, TypeMeta};
use crate::text::{all_ws, chars_less, chars_of, is_blank, lemma_str_lt_transitive, sorted_strict, str_lt};
use crate::time::Timestamp;
use vstd::prelude::*;

verus! {

/// A workflow.
#[derive(Debug, Default, PartialEq, Eq)]
pub struct Workflow {
    pub types: TypeMeta,
    pub metadata: ObjectMeta,
    pub spec: WorkflowSpec,
    pub status: WorkflowStatus,
}

/// Entry step and the steps by name, sorted by name with no name twice (`steps_keyed`,
/// which validation checks first).
#[derive(Debug, Default, PartialEq, Eq)]
pub struct WorkflowSpec {
    pub entrypoint: String,
    pub steps: Vec<(String, WorkflowStep)>,
}

/// One step: the function it calls, then where to go.
#[derive(Debug, Default, PartialEq, Eq)]
pub struct WorkflowStep {
    pub function: String,
    pub next: Option<String>,
    pub branches: Vec<WorkflowBranch>,
}

/// A conditional jump taken when the step's output matches.
#[derive(Debug, Default, PartialEq, Eq)]
pub struct WorkflowBranch {
    pub when: BranchCondition,
    pub next: String,
}

/// A test on a step's output, or on one field of it.
#[derive(Debug, Default, PartialEq, Eq)]
pub struct BranchCondition {
    pub equals: Option<JsonValue>,
    pub contains: Option<String>,
    pub field: Option<String>,
}

/// Whether the workflow can run and how its last run went.
#[derive(Debug, Default, PartialEq, Eq, Clone)]
pub struct WorkflowStatus {
    pub ready: bool,
    pub last_invoked_at: Option<Timestamp>,
    pub last_error: Option<String>,
}

pub struct BranchConditionView {
    pub equals: Option<JsonView>,
    pub contains: Option<Seq<char>>,
    pub field: Option<Seq<char>>,
}

pub struct WorkflowBranchView {
    pub when: BranchConditionView,
    pub next: Seq<char>,
}

pub struct WorkflowStepView {
    pub function: Seq<char>,
    pub next: Option<Seq<char>>,
    pub branches: Seq<WorkflowBranchView>,
}

pub open spec fn opt_text(o: Option<String>) -> Option<Seq<char>> {
    match o {
        Some(s) => Some(s@),
        None => None,
    }
}

impl View for BranchCondition {
    type V = BranchConditionView;

    open spec fn view(&self) -> BranchConditionView {
        BranchConditionView {
            equals: match self.equals {
                Some(v) => Some(v@),
                None => None,
            },
            contains: opt_text(self.contains),
            field: opt_text(self.field),
        }
    }
}

impl View for WorkflowBranch {
    type V = WorkflowBranchView;

    open spec fn view(&self) -> WorkflowBranchView {
        WorkflowBranchView { when: self.when@, next: self.next@ }
    }
}

impl View for WorkflowStep {
    type V = WorkflowStepView;

    open spec fn view(&self) -> WorkflowStepView {
        WorkflowStepView {
            function: self.function@,
            next: opt_text(self.next),
            branches: self.branches@.map_values(|b: WorkflowBranch| b@),
        }
    }
}

/// The steps of a workflow as (name, step) views.
pub open spec fn steps_view(steps: Seq<(String, WorkflowStep)>) -> Seq<(Seq<char>, WorkflowStepView)> {
    steps.map_values(|p: (String, WorkflowStep)| (p.0@, p.1@))
}

/// `i` is the first step named `k`.
pub open spec fn first_step_at(steps: Seq<(Seq<char>, WorkflowStepView)>, k: Seq<char>, i: int) -> bool {
    0 <= i < steps.len() && steps[i].0 == k && forall|j: int| 0 <= j < i ==> steps[j].0 != k
}

/// The step named `k`, if any (`BTreeMap::get`).
pub open spec fn step_named(steps: Seq<(Seq<char>, WorkflowStepView)>, k: Seq<char>) -> Option<WorkflowStepView> {
    if exists|i: int| first_step_at(steps, k, i) {
        Some(steps[choose|i: int| first_step_at(steps, k, i)].1)
    } else {
        None
    }
}

/// Whether a step is named `k` (`BTreeMap::contains_key`).
pub open spec fn has_step(steps: Seq<(Seq<char>, WorkflowStepView)>, k: Seq<char>) -> bool {
    exists|i: int| 0 <= i < steps.len() && steps[i].0 == k
}

pub proof fn lemma_step_named_at(steps: Seq<(Seq<char>, WorkflowStepView)>, k: Seq<char>, i: int)
    requires
        first_step_at(steps, k, i),
    ensures
        step_named(steps, k) == Some(steps[i].1),
        has_step(steps, k),
{
    let c = choose|c: int| first_step_at(steps, k, c);
    assert(c == i) by {
        if c < i {
            assert(steps[c].0 != k);
        } else if i < c {
            assert(steps[i].0 != k);
        }
    }
}

/// A step name that some step has names a step.
pub proof fn lemma_step_named_some(steps: Seq<(Seq<char>, WorkflowStepView)>, k: Seq<char>)
    requires
        has_step(steps, k),
    ensures
        step_named(steps, k).is_some(),
{
    let w = choose|i: int| 0 <= i < steps.len() && steps[i].0 == k;
    lemma_first_step_exists(steps, k, w);
}

proof fn lemma_first_step_exists(steps: Seq<(Seq<char>, WorkflowStepView)>, k: Seq<char>, w: int)
    requires
        0 <= w < steps.len(),
        steps[w].0 == k,
    ensures
        exists|i: int| first_step_at(steps, k, i),
    decreases w,
{
    if forall|j: int| 0 <= j < w ==> steps[j].0 != k {
        assert(first_step_at(steps, k, w));
    } else {
        let j = choose|j: int| 0 <= j < w && steps[j].0 == k;
        lemma_first_step_exists(steps, k, j);
    }
}

/// When no element raises an error, none of them does.
pub proof fn lemma_first_error_none<A>(xs: Seq<A>, f: spec_fn(A) -> Option<SpecErrorView>)
    requires
        first_error(xs, f).is_none(),
    ensures
        forall|i: int| 0 <= i < xs.len() ==> f(#[trigger] xs[i]).is_none(),
    decreases xs.len(),
{
    if xs.len() > 0 {
        lemma_first_error_none(xs.drop_first(), f);
        assert forall|i: int| 0 <= i < xs.len() implies f(#[trigger] xs[i]).is_none() by {
            if i > 0 {
                assert(xs[i] == xs.drop_first()[i - 1]);
            }
        }
    }
}

/// In a workflow that passes validation, every step's `next` and every branch target
/// names a step.
pub proof fn lemma_valid_targets_exist(entrypoint: Seq<char>, steps: Seq<(Seq<char>, WorkflowStepView)>, i: int)
    requires
        workflow_spec_check(entrypoint, steps).is_none(),
        0 <= i < steps.len(),
    ensures
        steps[i].1.next.is_some() ==> has_step(steps, steps[i].1.next.unwrap()),
        forall|j: int| 0 <= j < steps[i].1.branches.len() ==> has_step(steps, #[trigger] steps[i].1.branches[j].next),
{
    let f = step_checker(steps);
    lemma_first_error_none(steps, f);
    assert(f(steps[i]).is_none());
    reveal(step_error);
    let name = steps[i].0;
    let g = |b: WorkflowBranchView| branch_error(steps, name, b);
    assert(first_error(steps[i].1.branches, g).is_none());
    lemma_first_error_none(steps[i].1.branches, g);
    assert forall|j: int| 0 <= j < steps[i].1.branches.len() implies has_step(steps, #[trigger] steps[i].1.branches[j].next) by {
        assert(g(steps[i].1.branches[j]).is_none());
    }
}

/// Position of the step named `name` (the first one), if any.
pub fn find_step(steps: &Vec<(String, WorkflowStep)>, name: &String) -> (r: Option<usize>)
    ensures
        r.is_some() ==> first_step_at(steps_view(steps@), name@, r.unwrap() as int),
        r.is_some() ==> step_named(steps_view(steps@), name@) == Some(steps_view(steps@)[r.unwrap() as int].1),
        r.is_none() ==> !has_step(steps_view(steps@), name@),
        r.is_none() ==> step_named(steps_view(steps@), name@).is_none(),
{
    let ghost sv = steps_view(steps@);
    let mut i: usize = 0;
    while i < steps.len()
        invariant
            i <= steps@.len(),
            sv == steps_view(steps@),
            forall|j: int| 0 <= j < i ==> (#[trigger] sv[j]).0 != name@,
        decreases steps@.len() - i,
    {
        if steps[i].0 == *name {
            proof {
                assert(sv[i as int].0 == name@);
                lemma_step_named_at(sv, name@, i as int);
            }
            return Some(i);
        }
        assert(sv[i as int].0 != name@);
        i = i + 1;
    }
    None
}

/// The first error among `xs` under `f`, scanning from the front.
pub open spec fn first_error<A>(xs: Seq<A>, f: spec_fn(A) -> Option<SpecErrorView>) -> Option<SpecErrorView>
    decreases xs.len(),
{
    if xs.len() == 0 {
        None
    } else {
        match f(xs[0]) {
            Some(e) => Some(e),
            None => first_error(xs.drop_first(), f),
        }
    }
}

/// Skipping a prefix that raises no error changes nothing.
pub proof fn lemma_first_error_skip<A>(xs: Seq<A>, f: spec_fn(A) -> Option<SpecErrorView>, i: int)
    requires
        0 <= i <= xs.len(),
        forall|j: int| 0 <= j < i ==> f(#[trigger] xs[j]).is_none(),
    ensures
        first_error(xs, f) == first_error(xs.skip(i), f),
    decreases i,
{
    if i > 0 {
        assert(f(xs[0]).is_none());
        let ys = xs.drop_first();
        assert forall|j: int| 0 <= j < i - 1 implies f(#[trigger] ys[j]).is_none() by {
            assert(ys[j] == xs[j + 1]);
        }
        lemma_first_error_skip(ys, f, i - 1);
        assert(ys.skip(i - 1) == xs.skip(i));
    } else {
        assert(xs.skip(0) == xs);
    }
}

/// The error raised by one branch of step `name`, if any.
pub open spec fn branch_error(steps: Seq<(Seq<char>, WorkflowStepView)>, name: Seq<char>, b: WorkflowBranchView) -> Option<SpecErrorView> {
    if all_ws(b.next) {
        Some(SpecErrorView::WorkflowBranchNextRequired { step: name })
    } else if !has_step(steps, b.next) {
        Some(SpecErrorView::WorkflowBranchNextMissing { step: name, next: b.next })
    } else {
        None
    }
}

/// The error raised by one step, if any: a blank function, a missing `next` step, then
/// the first bad branch.
#[verifier::opaque]
pub open spec fn step_error(steps: Seq<(Seq<char>, WorkflowStepView)>, entry: (Seq<char>, WorkflowStepView)) -> Option<SpecErrorView> {
    let (name, step) = entry;
    if all_ws(step.function) {
        Some(SpecErrorView::WorkflowStepFunctionRequired { step: name })
    } else if step.next.is_some() && !has_step(steps, step.next.unwrap()) {
        Some(SpecErrorView::WorkflowStepNextMissing { step: name, next: step.next.unwrap() })
    } else {
        first_error(step.branches, |b: WorkflowBranchView| branch_error(steps, name, b))
    }
}

/// The names of the steps, in order.
pub open spec fn step_names(steps: Seq<(Seq<char>, WorkflowStepView)>) -> Seq<Seq<char>> {
    steps.map_values(|p: (Seq<char>, WorkflowStepView)| p.0)
}

/// The steps form a map from names: sorted by name, with no name twice.
pub open spec fn steps_keyed(steps: Seq<(Seq<char>, WorkflowStepView)>) -> bool {
    sorted_strict(step_names(steps))
}

/// The first rule a workflow spec breaks, if any, in the order the API checks them:
/// steps keyed by name, a non-blank entrypoint that names a step, then every step in
/// name order.
pub open spec fn workflow_spec_check(entrypoint: Seq<char>, steps: Seq<(Seq<char>, WorkflowStepView)>) -> Option<SpecErrorView> {
    if !steps_keyed(steps) {
        Some(SpecErrorView::WorkflowStepsNotKeyed)
    } else if all_ws(entrypoint) {
        Some(SpecErrorView::WorkflowEntrypointRequired)
    } else if !has_step(steps, entrypoint) {
        Some(SpecErrorView::WorkflowEntrypointMissing)
    } else {
        first_error(steps, step_checker(steps))
    }
}

/// `step_error` against the given steps, as a function of one step.
pub open spec fn step_checker(steps: Seq<(Seq<char>, WorkflowStepView)>) -> spec_fn((Seq<char>, WorkflowStepView)) -> Option<SpecErrorView> {
    |e: (Seq<char>, WorkflowStepView)| step_error(steps, e)
}

/// Whether the steps are sorted by name with no name twice.
pub fn check_steps_keyed(steps: &Vec<(String, WorkflowStep)>) -> (r: bool)
    ensures
        r == steps_keyed(steps_view(steps@)),
{
    let ghost names = step_names(steps_view(steps@));
    if steps.len() == 0 {
        return true;
    }
    let mut i: usize = 1;
    while i < steps.len()
        invariant
            1 <= i <= steps@.len(),
            names == step_names(steps_view(steps@)),
            names.len() == steps@.len(),
            forall|a: int, b: int| 0 <= a < b < i ==> str_lt(#[trigger] names[a], #[trigger] names[b]),
        decreases steps@.len() - i,
    {
        let prev = chars_of(steps[i - 1].0.as_str());
        let cur = chars_of(steps[i].0.as_str());
        assert(names[i - 1] == steps@[i - 1].0@);
        assert(names[i as int] == steps@[i as int].0@);
        if !chars_less(&prev, &cur) {
            return false;
        }
        assert forall|a: int, b: int| 0 <= a < b < i + 1 implies str_lt(#[trigger] names[a], #[trigger] names[b]) by {
            if b == i && a < i - 1 {
                lemma_str_lt_transitive(names[a], names[i - 1], names[b]);
            }
        }
        i = i + 1;
    }
    true
}

/// Whether the step named `name` exists.
pub fn contains_step(steps: &Vec<(String, WorkflowStep)>, name: &String) -> (r: bool)
    ensures
        r == has_step(steps_view(steps@), name@),
{
    match find_step(steps, name) {
        Some(_) => true,
        None => false,
    }
}

fn check_branches(steps: &Vec<(String, WorkflowStep)>, name: &String, branches: &Vec<WorkflowBranch>) -> (r: Result<(), SpecError>)
    ensures
        ({
            let e = first_error(
                branches@.map_values(|b: WorkflowBranch| b@),
                |b: WorkflowBranchView| branch_error(steps_view(steps@), name@, b),
            );
            &&& r.is_ok() == e.is_none()
            &&& r.is_err() ==> r->Err_0@ == e.unwrap()
        }),
{
    let ghost bv = branches@.map_values(|b: WorkflowBranch| b@);
    let ghost f = |b: WorkflowBranchView| branch_error(steps_view(steps@), name@, b);
    let mut i: usize = 0;
    while i < branches.len()
        invariant
            i <= branches@.len(),
            bv == branches@.map_values(|b: WorkflowBranch| b@),
            f == (|b: WorkflowBranchView| branch_error(steps_view(steps@), name@, b)),
            forall|j: int| 0 <= j < i ==> f(#[trigger] bv[j]).is_none(),
        decreases branches@.len() - i,
    {
        let b = &branches[i];
        assert(bv[i as int] == b@);
        if is_blank(b.next.as_str()) {
            proof {
                lemma_first_error_skip(bv, f, i as int);
            }
            return Err(SpecError::WorkflowBranchNextRequired { step: name.clone() });
        }
        if !contains_step(steps, &b.next) {
            proof {
                lemma_first_error_skip(bv, f, i as int);
            }
            return Err(SpecError::WorkflowBranchNextMissing { step: name.clone(), next: b.next.clone() });
        }
        i = i + 1;
    }
    proof {
        lemma_first_error_skip(bv, f, i as int);
    }
    Ok(())
}

fn check_step(steps: &Vec<(String, WorkflowStep)>, name: &String, step: &WorkflowStep) -> (r: Result<(), SpecError>)
    ensures
        ({
            let e = step_error(steps_view(steps@), (name@, step@));
            &&& r.is_ok() == e.is_none()
            &&& r.is_err() ==> r->Err_0@ == e.unwrap()
        }),
{
    reveal(step_error);
    if is_blank(step.function.as_str()) {
        return Err(SpecError::WorkflowStepFunctionRequired { step: name.clone() });
    }
    match &step.next {
        Some(next) => {
            if !contains_step(steps, next) {
                return Err(SpecError::WorkflowStepNextMissing { step: name.clone(), next: next.clone() });
            }
        },
        None => {},
    }
    check_branches(steps, name, &step.branches)
}

impl Workflow {
    pub fn kind() -> (r: &'static str)
        ensures
            r@ == "Workflow"@,
    {
        "Workflow"
    }

    pub fn plural() -> (r: &'static str)
        ensures
            r@ == "workflows"@,
    {
        "workflows"
    }

    pub fn group() -> (r: &'static str)
        ensures
            r@ == GROUP@,
    {
        GROUP
    }

    pub fn version() -> (r: &'static str)
        ensures
            r@ == VERSION@,
    {
        VERSION
    }

    pub fn metadata(&self) -> (r: &ObjectMeta)
        ensures
            *r == self.metadata,
    {
        &self.metadata
    }

    pub fn metadata_mut(&mut self) -> (r: &mut ObjectMeta)
        ensures
            *r == old(self).metadata,
            *final(self) == (Workflow { metadata: *final(r), ..*old(self) }),
    {
        &mut self.metadata
    }

    pub fn status(&self) -> (r: &WorkflowStatus)
        ensures
            *r == self.status,
    {
        &self.status
    }

    pub fn status_mut(&mut self) -> (r: &mut WorkflowStatus)
        ensures
            *r == old(self).status,
            *final(self) == (Workflow { status: *final(r), ..*old(self) }),
    {
        &mut self.status
    }

    /// Checks the spec: steps sorted by name with no name twice; a non-blank entrypoint naming a step; for every step in name
    /// order, a non-blank function, a `next` that names a step, and branches whose `next`
    /// is non-blank and names a step. The first rule broken is the error.
    pub fn validate_spec(&self) -> (r: Result<(), SpecError>)
        ensures
            ({
                let e = workflow_spec_check(self.spec.entrypoint@, steps_view(self.spec.steps@));
                &&& r.is_ok() == e.is_none()
                &&& r.is_err() ==> r->Err_0@ == e.unwrap()
            }),
    {
        let steps = &self.spec.steps;
        if !check_steps_keyed(steps) {
            return Err(SpecError::WorkflowStepsNotKeyed);
        }
        if is_blank(self.spec.entrypoint.as_str()) {
            return Err(SpecError::WorkflowEntrypointRequired);
        }
        if !contains_step(steps, &self.spec.entrypoint) {
            return Err(SpecError::WorkflowEntrypointMissing);
        }
        let ghost sv = steps_view(steps@);
        let ghost f = step_checker(sv);
        let mut i: usize = 0;
        while i < steps.len()
            invariant
                i <= steps@.len(),
                sv == steps_view(steps@),
                steps@ == self.spec.steps@,
                steps_keyed(sv),
                !all_ws(self.spec.entrypoint@),
                has_step(sv, self.spec.entrypoint@),
                f == step_checker(sv),
                forall|j: int| 0 <= j < i ==> f(#[trigger] sv[j]).is_none(),
            decreases steps@.len() - i,
        {
            let name = &steps[i].0;
            let step = &steps[i].1;
            assert(sv[i as int] == (name@, step@));
            match check_step(steps, name, step) {
                Err(e) => {
                    proof {
                        lemma_first_error_skip(sv, f, i as int);
                        assert(sv.skip(i as int)[0] == sv[i as int]);
                        assert(f(sv[i as int]) == Some(e@));
                        assert(first_error(sv, f) == Some(e@));
                    }
                    return Err(e);
                },
                Ok(()) => {},
            }
            i = i + 1;
        }
        proof {
            lemma_first_error_skip(sv, f, i as int);
        }
        Ok(())
    }
}

} // verus!
