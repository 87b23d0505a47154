//! Workflow routing: which step follows a step given its output, and which
//! functions a workflow can reach.

use crate::api::workflow::{
    find_step, steps_view, step_named, BranchCondition, BranchConditionView, Workflow, WorkflowStep,
    WorkflowStepView, WorkflowBranchView,
};
use crate::json::{compact_text, json_as_str, json_compact_text, json_eq, json_equal, select_field, select_json_field, JsonValue, JsonView};
use crate::text::{all_ws, chars_contain, chars_of, contains_str, insert_sorted, is_blank, sorted_strict, texts};
use vstd::prelude::*;

verus! {

/// The value a condition tests: the field it names when that field exists, else the
/// whole output.
pub open spec fn selected_value(cond: BranchConditionView, output: JsonView) -> JsonView {
    match cond.field {
        Some(f) => match select_field(output, f) {
            Some(v) => v,
            None => output,
        },
        None => output,
    }
}

/// Whether a branch condition holds of a step's output.
///
/// `equals` holds when the tested value equals the expected value. Failing that,
/// `contains` decides: the tested text (for a string value) or the value's compact JSON
/// text (otherwise) must contain the needle. A condition with neither test always holds.
pub open spec fn branch_matches_spec(cond: BranchConditionView, output: JsonView) -> bool {
    let sel = selected_value(cond, output);
    if cond.equals.is_some() && json_eq(sel, cond.equals.unwrap()) {
        true
    } else if cond.contains.is_some() {
        match json_as_str(sel) {
            Some(t) => contains_str(t, cond.contains.unwrap()),
            None => contains_str(json_compact_text(sel), cond.contains.unwrap()),
        }
    } else {
        cond.equals.is_none() && cond.contains.is_none()
    }
}

/// The target of the first branch (in order) whose condition holds.
pub open spec fn first_matching_branch(branches: Seq<WorkflowBranchView>, output: JsonView) -> Option<Seq<char>>
    decreases branches.len(),
{
    if branches.len() == 0 {
        None
    } else if branch_matches_spec(branches[0].when, output) {
        Some(branches[0].next)
    } else {
        first_matching_branch(branches.drop_first(), output)
    }
}

/// The first matching branch's target is the target of one of the branches.
pub proof fn lemma_matching_branch_in(branches: Seq<WorkflowBranchView>, output: JsonView)
    ensures
        first_matching_branch(branches, output) matches Some(n) ==> exists|j: int|
            0 <= j < branches.len() && (#[trigger] branches[j]).next == n,
    decreases branches.len(),
{
    if branches.len() > 0 && !branch_matches_spec(branches[0].when, output) {
        let rest = branches.drop_first();
        lemma_matching_branch_in(rest, output);
        if let Some(n) = first_matching_branch(rest, output) {
            let j = choose|j: int| 0 <= j < rest.len() && (#[trigger] rest[j]).next == n;
            assert(branches[j + 1] == rest[j]);
        }
    } else if branches.len() > 0 {
        assert(branches[0].next == branches[0].next);
    }
}

/// The step after `step` given its output: the first matching branch, else `next`.
pub open spec fn next_step_spec(step: WorkflowStepView, output: JsonView) -> Option<Seq<char>> {
    match first_matching_branch(step.branches, output) {
        Some(n) => Some(n),
        None => step.next,
    }
}

/// Whether `condition` holds of `output`.
pub fn branch_matches(condition: &BranchCondition, output: &JsonValue) -> (r: bool)
    ensures
        r == branch_matches_spec(condition@, output@),
{
    let selected: &JsonValue = match &condition.field {
        Some(field) => match select_json_field(output, field.as_str()) {
            Some(v) => v,
            None => output,
        },
        None => output,
    };
    match &condition.equals {
        Some(expected) => {
            if json_equal(selected, expected) {
                return true;
            }
        },
        None => {},
    }
    match &condition.contains {
        Some(needle) => {
            let n = chars_of(needle.as_str());
            match selected.as_str() {
                Some(value) => {
                    let hay = chars_of(value.as_str());
                    chars_contain(&hay, &n)
                },
                None => {
                    let text = compact_text(selected);
                    let hay = chars_of(text.as_str());
                    chars_contain(&hay, &n)
                },
            }
        },
        None => condition.equals.is_none(),
    }
}

proof fn lemma_first_matching_skip(bs: Seq<WorkflowBranchView>, output: JsonView, i: int)
    requires
        0 <= i <= bs.len(),
        forall|j: int| 0 <= j < i ==> !branch_matches_spec(#[trigger] bs[j].when, output),
    ensures
        first_matching_branch(bs, output) == first_matching_branch(bs.skip(i), output),
    decreases i,
{
    if i > 0 {
        let ys = bs.drop_first();
        assert forall|j: int| 0 <= j < i - 1 implies !branch_matches_spec(#[trigger] ys[j].when, output) by {
            assert(ys[j] == bs[j + 1]);
        }
        lemma_first_matching_skip(ys, output, i - 1);
        assert(ys.skip(i - 1) == bs.skip(i));
    } else {
        assert(bs.skip(0) == bs);
    }
}

/// The step to run after `step` produced `output`: the target of the first branch whose
/// condition holds, else the step's `next`, else none (the workflow ends).
pub fn next_step(step: &WorkflowStep, output: &JsonValue) -> (r: Option<String>)
    ensures
        r.is_some() == next_step_spec(step@, output@).is_some(),
        r.is_some() ==> r.unwrap()@ == next_step_spec(step@, output@).unwrap(),
{
    let ghost bs = step@.branches;
    let mut i: usize = 0;
    while i < step.branches.len()
        invariant
            i <= step.branches@.len(),
            bs == step@.branches,
            bs.len() == step.branches@.len(),
            forall|j: int| 0 <= j < i ==> !branch_matches_spec(#[trigger] bs[j].when, output@),
        decreases step.branches@.len() - i,
    {
        let branch = &step.branches[i];
        assert(bs[i as int] == branch@);
        if branch_matches(&branch.when, output) {
            proof {
                lemma_first_matching_skip(bs, output@, i as int);
                assert(bs.skip(i as int)[0] == bs[i as int]);
            }
            return Some(branch.next.clone());
        }
        i = i + 1;
    }
    proof {
        lemma_first_matching_skip(bs, output@, i as int);
    }
    step.next.clone()
}


/// Steps of a workflow, by name.
pub type StepsView = Seq<(Seq<char>, WorkflowStepView)>;

/// A step named `a` leads to `b`, through its `next` or one of its branches.
pub open spec fn step_edge(steps: StepsView, a: Seq<char>, b: Seq<char>) -> bool {
    match step_named(steps, a) {
        Some(st) => st.next == Some(b) || exists|k: int| 0 <= k < st.branches.len() && st.branches[k].next == b,
        None => false,
    }
}

/// A walk through the steps, each name leading to the next.
pub open spec fn is_walk(steps: StepsView, p: Seq<Seq<char>>) -> bool {
    p.len() >= 1 && forall|i: int| 0 <= i < p.len() - 1 ==> step_edge(steps, #[trigger] p[i], p[i + 1])
}

/// `x` can be reached from the entry step.
pub open spec fn reachable_step(steps: StepsView, entry: Seq<char>, x: Seq<char>) -> bool {
    exists|p: Seq<Seq<char>>| #[trigger] is_walk(steps, p) && p[0] == entry && p.last() == x
}

/// The non-blank function a step named `x` calls, if there is such a step.
pub open spec fn function_of(steps: StepsView, x: Seq<char>) -> Option<Seq<char>> {
    match step_named(steps, x) {
        Some(st) => if all_ws(st.function) { None } else { Some(st.function) },
        None => None,
    }
}

/// `f` is called by some step reachable from the entry step.
pub open spec fn reachable_function(steps: StepsView, entry: Seq<char>, f: Seq<char>) -> bool {
    exists|x: Seq<char>| reachable_step(steps, entry, x) && #[trigger] function_of(steps, x) == Some(f)
}

/// Edges a step contributes: one for `next`, one per branch.
pub open spec fn step_weight(st: WorkflowStepView) -> nat {
    (if st.next.is_some() { 1nat } else { 0nat }) + st.branches.len()
}

/// Total weight of the steps whose names are not yet visited.
pub open spec fn unvisited_weight(steps: StepsView, vis: Seq<Seq<char>>) -> nat
    decreases steps.len(),
{
    if steps.len() == 0 {
        0
    } else {
        unvisited_weight(steps.drop_last(), vis) + if vis.contains(steps.last().0) {
            0nat
        } else {
            step_weight(steps.last().1)
        }
    }
}

proof fn lemma_unvisited_weight_mono(steps: StepsView, vis: Seq<Seq<char>>, x: Seq<char>)
    ensures
        unvisited_weight(steps, vis.push(x)) <= unvisited_weight(steps, vis),
    decreases steps.len(),
{
    if steps.len() > 0 {
        lemma_unvisited_weight_mono(steps.drop_last(), vis, x);
        if vis.contains(steps.last().0) {
            assert(vis.push(x).contains(steps.last().0)) by {
                let j = choose|j: int| 0 <= j < vis.len() && vis[j] == steps.last().0;
                assert(vis.push(x)[j] == vis[j]);
            }
        }
    }
}

proof fn lemma_unvisited_weight_drop(steps: StepsView, vis: Seq<Seq<char>>, x: Seq<char>, i: int)
    requires
        !vis.contains(x),
        0 <= i < steps.len(),
        steps[i].0 == x,
    ensures
        unvisited_weight(steps, vis.push(x)) + step_weight(steps[i].1) <= unvisited_weight(steps, vis),
    decreases steps.len(),
{
    let n = steps.len() - 1;
    let d = steps.drop_last();
    assert(vis.push(x)[vis.len() as int] == x);
    if i == n {
        lemma_unvisited_weight_mono(d, vis, x);
    } else {
        assert(d[i] == steps[i]);
        lemma_unvisited_weight_drop(d, vis, x, i);
        if vis.contains(steps.last().0) {
            assert(vis.push(x).contains(steps.last().0)) by {
                let j = choose|j: int| 0 <= j < vis.len() && vis[j] == steps.last().0;
                assert(vis.push(x)[j] == vis[j]);
            }
        }
    }
}

/// Whether `name` is among `visited`.
fn visited_contains(visited: &Vec<String>, name: &String) -> (r: bool)
    ensures
        r == texts(visited@).contains(name@),
{
    let mut i: usize = 0;
    while i < visited.len()
        invariant
            i <= visited@.len(),
            forall|j: int| 0 <= j < i ==> (#[trigger] texts(visited@)[j]) != name@,
        decreases visited@.len() - i,
    {
        if visited[i] == *name {
            assert(texts(visited@)[i as int] == name@);
            return true;
        }
        i = i + 1;
    }
    false
}


proof fn lemma_reach_entry(steps: StepsView, entry: Seq<char>)
    ensures
        reachable_step(steps, entry, entry),
{
    let p = seq![entry];
    assert(is_walk(steps, p));
}

proof fn lemma_reach_extend(steps: StepsView, entry: Seq<char>, x: Seq<char>, b: Seq<char>)
    requires
        reachable_step(steps, entry, x),
        step_edge(steps, x, b),
    ensures
        reachable_step(steps, entry, b),
{
    let p = choose|p: Seq<Seq<char>>| #[trigger] is_walk(steps, p) && p[0] == entry && p.last() == x;
    let q = p.push(b);
    assert forall|i: int| 0 <= i < q.len() - 1 implies step_edge(steps, #[trigger] q[i], q[i + 1]) by {
        if i < p.len() - 1 {
            assert(q[i] == p[i]);
            assert(q[i + 1] == p[i + 1]);
        } else {
            assert(q[i] == x);
        }
    }
    assert(is_walk(steps, q));
}

/// Every name on a walk from the entry is visited, when the visited names contain the
/// entry and are closed under the step edges.
proof fn lemma_walk_visited(steps: StepsView, entry: Seq<char>, vis: Seq<Seq<char>>, p: Seq<Seq<char>>, i: int)
    requires
        is_walk(steps, p),
        p[0] == entry,
        vis.contains(entry),
        forall|v: Seq<char>, b: Seq<char>|
            #![trigger step_edge(steps, v, b)]
            vis.contains(v) && step_edge(steps, v, b) ==> vis.contains(b),
        0 <= i < p.len(),
    ensures
        vis.contains(p[i]),
    decreases i,
{
    if i > 0 {
        lemma_walk_visited(steps, entry, vis, p, i - 1);
        assert(step_edge(steps, p[i - 1], p[i]));
    }
}


/// Where a step can lead, in the order the search pushes them: `next`, then branches.
pub open spec fn step_targets(st: WorkflowStepView) -> Seq<Seq<char>> {
    (match st.next {
        Some(n) => seq![n],
        None => Seq::empty(),
    }) + st.branches.map_values(|b: WorkflowBranchView| b.next)
}

proof fn lemma_step_targets(steps: StepsView, x: Seq<char>, st: WorkflowStepView)
    requires
        step_named(steps, x) == Some(st),
    ensures
        forall|b: Seq<char>| step_edge(steps, x, b) <==> step_targets(st).contains(b),
        step_targets(st).len() == step_weight(st),
{
    let t = step_targets(st);
    let bn = st.branches.map_values(|b: WorkflowBranchView| b.next);
    let head: Seq<Seq<char>> = match st.next {
        Some(n) => seq![n],
        None => Seq::empty(),
    };
    assert(t == head + bn);
    assert forall|b: Seq<char>| step_edge(steps, x, b) <==> t.contains(b) by {
        if step_edge(steps, x, b) {
            if st.next == Some(b) {
                assert(t[0] == b);
            } else {
                let k = choose|k: int| 0 <= k < st.branches.len() && st.branches[k].next == b;
                assert(t[head.len() + k] == bn[k]);
            }
        }
        if t.contains(b) {
            let j = choose|j: int| 0 <= j < t.len() && t[j] == b;
            if j < head.len() {
            } else {
                assert(bn[j - head.len()] == b);
            }
        }
    }
}

proof fn lemma_texts_push(v: Seq<String>, s: String)
    ensures
        texts(v.push(s)) == texts(v).push(s@),
        forall|x: Seq<char>| #[trigger] texts(v.push(s)).contains(x) <==> (texts(v).contains(x) || x == s@),
{
    assert(texts(v.push(s)) =~= texts(v).push(s@));
    assert forall|x: Seq<char>| #[trigger] texts(v.push(s)).contains(x) <==> (texts(v).contains(x) || x == s@) by {
        let w = texts(v.push(s));
        if w.contains(x) {
            let j = choose|j: int| 0 <= j < w.len() && w[j] == x;
            if j < v.len() {
                assert(texts(v)[j] == x);
            }
        }
        if texts(v).contains(x) {
            let j = choose|j: int| 0 <= j < texts(v).len() && texts(v)[j] == x;
            assert(w[j] == x);
        }
        if x == s@ {
            assert(w[v.len() as int] == x);
        }
    }
}

/// Pushes where `step` can lead: `next`, then every branch target.
fn push_targets(pending: &mut Vec<String>, step: &WorkflowStep)
    ensures
        texts(final(pending)@) == texts(old(pending)@) + step_targets(step@),
{
    let ghost base = texts(pending@);
    match &step.next {
        Some(n) => {
            pending.push(n.clone());
            proof {
                lemma_texts_push(old(pending)@, *n);
            }
        },
        None => {},
    }
    let ghost head = texts(pending@);
    let ghost bn = step@.branches.map_values(|b: WorkflowBranchView| b.next);
    assert(head == base + (match step@.next {
        Some(n) => seq![n],
        None => Seq::<Seq<char>>::empty(),
    }));
    let mut j: usize = 0;
    while j < step.branches.len()
        invariant
            j <= step.branches@.len(),
            bn == step@.branches.map_values(|b: WorkflowBranchView| b.next),
            bn.len() == step.branches@.len(),
            texts(pending@) == head + bn.take(j as int),
        decreases step.branches@.len() - j,
    {
        let ghost before = pending@;
        pending.push(step.branches[j].next.clone());
        proof {
            lemma_texts_push(before, step.branches@[j as int].next);
            assert(bn[j as int] == step.branches@[j as int].next@);
            assert(bn.take(j + 1) == bn.take(j as int).push(bn[j as int]));
        }
        j = j + 1;
    }
    assert(bn.take(bn.len() as int) == bn);
}


proof fn lemma_concat_contains(a: Seq<Seq<char>>, b: Seq<Seq<char>>)
    ensures
        forall|x: Seq<char>| #[trigger] (a + b).contains(x) <==> (a.contains(x) || b.contains(x)),
{
    assert forall|x: Seq<char>| #[trigger] (a + b).contains(x) <==> (a.contains(x) || b.contains(x)) by {
        let c = a + b;
        if c.contains(x) {
            let j = choose|j: int| 0 <= j < c.len() && c[j] == x;
            if j < a.len() {
                assert(a[j] == x);
            } else {
                assert(b[j - a.len()] == x);
            }
        }
        if a.contains(x) {
            let j = choose|j: int| 0 <= j < a.len() && a[j] == x;
            assert(c[j] == x);
        }
        if b.contains(x) {
            let j = choose|j: int| 0 <= j < b.len() && b[j] == x;
            assert(c[a.len() + j] == x);
        }
    }
}

/// The functions that the steps reachable from the entrypoint call (blank ones left out),
/// each once, in sorted order.
pub fn reachable_functions(workflow: &Workflow) -> (r: Vec<String>)
    ensures
        sorted_strict(texts(r@)),
        forall|f: Seq<char>|
            texts(r@).contains(f) <==> reachable_function(
                steps_view(workflow.spec.steps@),
                workflow.spec.entrypoint@,
                f,
            ),
{
    let steps = &workflow.spec.steps;
    let ghost sv = steps_view(steps@);
    let ghost entry = workflow.spec.entrypoint@;
    let mut visited: Vec<String> = Vec::new();
    let mut functions: Vec<String> = Vec::new();
    let mut pending: Vec<String> = Vec::new();
    pending.push(workflow.spec.entrypoint.clone());
    proof {
        lemma_reach_entry(sv, entry);
        lemma_texts_push(Seq::<String>::empty(), workflow.spec.entrypoint);
        assert(Seq::<String>::empty().push(workflow.spec.entrypoint) == pending@);
    }
    loop
        invariant
            sv == steps_view(steps@),
            steps@ == workflow.spec.steps@,
            entry == workflow.spec.entrypoint@,
            forall|x: Seq<char>| #[trigger] texts(visited@).contains(x) ==> reachable_step(sv, entry, x),
            forall|x: Seq<char>| #[trigger] texts(pending@).contains(x) ==> reachable_step(sv, entry, x),
            texts(visited@).contains(entry) || texts(pending@).contains(entry),
            forall|v: Seq<char>, b: Seq<char>|
                #![trigger step_edge(sv, v, b)]
                texts(visited@).contains(v) && step_edge(sv, v, b) ==> texts(visited@).contains(b)
                    || texts(pending@).contains(b),
            sorted_strict(texts(functions@)),
            forall|f: Seq<char>|
                #[trigger] texts(functions@).contains(f) <==> exists|v: Seq<char>|
                    texts(visited@).contains(v) && #[trigger] function_of(sv, v) == Some(f),
        ensures
            forall|x: Seq<char>| #[trigger] texts(visited@).contains(x) ==> reachable_step(sv, entry, x),
            texts(visited@).contains(entry),
            forall|v: Seq<char>, b: Seq<char>|
                #![trigger step_edge(sv, v, b)]
                texts(visited@).contains(v) && step_edge(sv, v, b) ==> texts(visited@).contains(b),
            sorted_strict(texts(functions@)),
            forall|f: Seq<char>|
                #[trigger] texts(functions@).contains(f) <==> exists|v: Seq<char>|
                    texts(visited@).contains(v) && #[trigger] function_of(sv, v) == Some(f),
        decreases unvisited_weight(sv, texts(visited@)) + pending@.len(),
    {
        let ghost old_vis = texts(visited@);
        let ghost old_pend = texts(pending@);
        let ghost old_fns = texts(functions@);
        let ghost pend_before = pending@;
        let popped = pending.pop();
        match popped {
            None => {
                assert(texts(pending@).len() == 0);
                assert(forall|x: Seq<char>| !texts(pending@).contains(x));
                break;
            },
            Some(name) => {
                proof {
                    assert(pend_before =~= pending@.push(name));
                    lemma_texts_push(pending@, name);
                    assert(old_pend == texts(pending@).push(name@));
                    assert(old_pend.contains(name@));
                    assert forall|x: Seq<char>| #[trigger] texts(pending@).contains(x) implies old_pend.contains(x) by {}
                }
                if visited_contains(&visited, &name) {
                    continue;
                }
                let ghost popped = texts(pending@);
                let ghost prev_visited = visited@;
                visited.push(name.clone());
                proof {
                    lemma_texts_push(prev_visited, name);
                    assert(texts(visited@) == old_vis.push(name@));
                    assert(reachable_step(sv, entry, name@));
                }
                let found = find_step(steps, &name);
                match found {
                    None => {
                        proof {
                            lemma_unvisited_weight_mono(sv, old_vis, name@);
                            assert(unvisited_weight(sv, texts(visited@)) <= unvisited_weight(sv, old_vis));
                            assert(function_of(sv, name@).is_none());
                            assert forall|b: Seq<char>| !step_edge(sv, name@, b) by {}
                        }
                    },
                    Some(i) => {
                        let step = &steps[i].1;
                        proof {
                            assert(sv[i as int] == (steps@[i as int].0@, step@));
                            lemma_step_targets(sv, name@, step@);
                            lemma_unvisited_weight_drop(sv, old_vis, name@, i as int);
                        }
                        let ghost fns_before = texts(functions@);
                        if !is_blank(step.function.as_str()) {
                            insert_sorted(&mut functions, step.function.clone());
                        }
                        let ghost before_push = pending@;
                        push_targets(&mut pending, step);
                        proof {
                            assert(texts(pending@).len() == popped.len() + step_targets(step@).len());
                            assert(pending@.len() == popped.len() + step_weight(step@));
                            assert(unvisited_weight(sv, texts(visited@)) + step_weight(step@) <= unvisited_weight(sv, old_vis));
                            lemma_concat_contains(popped, step_targets(step@));
                            assert forall|x: Seq<char>| #[trigger] texts(pending@).contains(x) implies reachable_step(sv, entry, x) by {
                                if !popped.contains(x) {
                                    assert(step_edge(sv, name@, x));
                                    lemma_reach_extend(sv, entry, name@, x);
                                }
                            }
                            assert forall|f: Seq<char>| #[trigger] texts(functions@).contains(f) <==> exists|v: Seq<char>|
                                texts(visited@).contains(v) && #[trigger] function_of(sv, v) == Some(f) by {
                                if texts(functions@).contains(f) {
                                    if fns_before.contains(f) {
                                        let v = choose|v: Seq<char>| old_vis.contains(v) && #[trigger] function_of(sv, v) == Some(f);
                                        assert(texts(visited@).contains(v));
                                    } else {
                                        assert(function_of(sv, name@) == Some(f));
                                        assert(texts(visited@).contains(name@));
                                    }
                                }
                                if exists|v: Seq<char>| texts(visited@).contains(v) && #[trigger] function_of(sv, v) == Some(f) {
                                    let v = choose|v: Seq<char>| texts(visited@).contains(v) && #[trigger] function_of(sv, v) == Some(f);
                                    if v != name@ {
                                        assert(old_vis.contains(v));
                                        assert(fns_before.contains(f));
                                    }
                                }
                            }
                        }
                    },
                }
                proof {
                    assert forall|x: Seq<char>| #[trigger] texts(visited@).contains(x) implies reachable_step(sv, entry, x) by {
                        if x != name@ {
                            assert(old_vis.contains(x));
                        }
                    }
                    assert forall|x: Seq<char>| popped.contains(x) implies #[trigger] texts(pending@).contains(x) by {}
                    assert(texts(visited@).contains(entry) || texts(pending@).contains(entry)) by {
                        if !old_vis.contains(entry) {
                            assert(old_pend.contains(entry));
                            if entry != name@ {
                                assert(popped.contains(entry));
                            }
                        }
                    }
                    assert forall|v: Seq<char>, b: Seq<char>|
                        #![trigger step_edge(sv, v, b)]
                        texts(visited@).contains(v) && step_edge(sv, v, b) implies texts(visited@).contains(b)
                            || texts(pending@).contains(b) by {
                        if v != name@ {
                            assert(old_vis.contains(v));
                            if !old_vis.contains(b) {
                                assert(old_pend.contains(b));
                                if b != name@ {
                                    assert(popped.contains(b));
                                }
                            }
                        }
                    }
                }
            },
        }
    }
    proof {
        assert forall|f: Seq<char>|
            texts(functions@).contains(f) <==> reachable_function(sv, entry, f) by {
            if texts(functions@).contains(f) {
                let v = choose|v: Seq<char>| texts(visited@).contains(v) && #[trigger] function_of(sv, v) == Some(f);
                assert(reachable_step(sv, entry, v));
            }
            if reachable_function(sv, entry, f) {
                let x = choose|x: Seq<char>| reachable_step(sv, entry, x) && #[trigger] function_of(sv, x) == Some(f);
                let p = choose|p: Seq<Seq<char>>| #[trigger] is_walk(sv, p) && p[0] == entry && p.last() == x;
                lemma_walk_visited(sv, entry, texts(visited@), p, p.len() - 1);
            }
        }
    }
    functions
}


/// Law: a condition that names a field present in the output tests that field alone: two
/// outputs with the same value there match it alike, whatever else they hold.
pub proof fn law_condition_reads_selected_field(cond: BranchConditionView, o1: JsonView, o2: JsonView)
    requires
        cond.field is Some,
        select_field(o1, cond.field.unwrap()) is Some,
        select_field(o1, cond.field.unwrap()) == select_field(o2, cond.field.unwrap()),
    ensures
        branch_matches_spec(cond, o1) == branch_matches_spec(cond, o2),
{
}

/// Law: a `contains`-only condition on a field whose value is a text holds exactly when
/// that text contains the needle.
pub proof fn law_contains_tests_field_text(cond: BranchConditionView, output: JsonView, text: Seq<char>)
    requires
        cond.equals is None,
        cond.contains is Some,
        cond.field is Some,
        select_field(output, cond.field.unwrap()) == Some(JsonView::Str(text)),
    ensures
        branch_matches_spec(cond, output) == contains_str(text, cond.contains.unwrap()),
{
}

} // verus!
