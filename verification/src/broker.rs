//! The broker's fan-out: which triggers an event goes to, and what a delivery reports.

use crate::api::eventtrigger::{EventTrigger, TriggerTargetKind};
use crate::api::event::CloudEvent;
use crate::json::JsonValue;
use vstd::prelude::*;

verus! {

/// Positions, in order, of the triggers among the first `n` that listen for `event_type`.
pub open spec fn matching_upto(triggers: Seq<EventTrigger>, event_type: Seq<char>, n: int) -> Seq<int>
    decreases n,
{
    if n <= 0 {
        Seq::empty()
    } else if triggers[n - 1].spec.event_type@ == event_type {
        matching_upto(triggers, event_type, n - 1).push(n - 1)
    } else {
        matching_upto(triggers, event_type, n - 1)
    }
}

/// Positions, in order, of the triggers that listen for `event_type`.
pub open spec fn matching(triggers: Seq<EventTrigger>, event_type: Seq<char>) -> Seq<int> {
    matching_upto(triggers, event_type, triggers.len() as int)
}

/// The triggers an event of type `event_type` is delivered to, by position, in the order
/// they are listed.
pub fn matching_triggers(triggers: &Vec<EventTrigger>, event_type: &String) -> (r: Vec<usize>)
    ensures
        r@.map_values(|i: usize| i as int) == matching(triggers@, event_type@),
{
    let mut r: Vec<usize> = Vec::new();
    let mut i: usize = 0;
    while i < triggers.len()
        invariant
            i <= triggers@.len(),
            r@.map_values(|j: usize| j as int) == matching_upto(triggers@, event_type@, i as int),
        decreases triggers@.len() - i,
    {
        let ghost before = r@;
        if triggers[i].spec.event_type == *event_type {
            r.push(i);
            proof {
                assert(r@.map_values(|j: usize| j as int) =~= before.map_values(|j: usize| j as int).push(i as int));
            }
        }
        i = i + 1;
    }
    r
}

/// Law: an event goes to exactly the triggers that listen for its type, each once.
pub proof fn law_fan_out_exact(triggers: Seq<EventTrigger>, event_type: Seq<char>, i: int)
    requires
        0 <= i < triggers.len(),
    ensures
        matching(triggers, event_type).contains(i) <==> triggers[i].spec.event_type@ == event_type,
        matching(triggers, event_type).no_duplicates(),
{
    lemma_matching_upto(triggers, event_type, triggers.len() as int, i);
}

proof fn lemma_matching_upto(triggers: Seq<EventTrigger>, event_type: Seq<char>, n: int, i: int)
    requires
        0 <= n <= triggers.len(),
    ensures
        forall|k: int| #[trigger] matching_upto(triggers, event_type, n).contains(k) ==> 0 <= k < n,
        0 <= i < n ==> (matching_upto(triggers, event_type, n).contains(i) <==> triggers[i].spec.event_type@
            == event_type),
        matching_upto(triggers, event_type, n).no_duplicates(),
    decreases n,
{
    if n > 0 {
        lemma_matching_upto(triggers, event_type, n - 1, i);
        let prev = matching_upto(triggers, event_type, n - 1);
        if triggers[n - 1].spec.event_type@ == event_type {
            let cur = prev.push(n - 1);
            assert forall|k: int| #[trigger] cur.contains(k) implies 0 <= k < n by {
                if k != n - 1 {
                    let j = choose|j: int| 0 <= j < cur.len() && cur[j] == k;
                    assert(prev[j] == k);
                    assert(prev.contains(k));
                }
            }
            if 0 <= i < n - 1 && prev.contains(i) {
                let j = choose|j: int| 0 <= j < prev.len() && prev[j] == i;
                assert(cur[j] == i);
            }
            if 0 <= i < n - 1 && cur.contains(i) {
                let j = choose|j: int| 0 <= j < cur.len() && cur[j] == i;
                assert(j < prev.len());
                assert(prev.contains(i));
            }
            if i == n - 1 {
                assert(cur[prev.len() as int] == i);
            }
            assert forall|a: int, b: int| 0 <= a < cur.len() && 0 <= b < cur.len() && a != b implies cur[a] != cur[b] by {
                if a == prev.len() {
                    assert(prev.contains(cur[b]));
                } else if b == prev.len() {
                    assert(prev.contains(cur[a]));
                }
            }
        } else {
            if i == n - 1 && prev.contains(i) {
                assert(false);
            }
        }
    }
}

/// The outcome of delivering one event to one trigger's target.
#[derive(Debug, PartialEq, Eq)]
pub struct EventDelivery {
    pub namespace: String,
    pub trigger: String,
    pub target_kind: String,
    pub target_name: String,
    pub result: JsonValue,
}

/// The name of a target kind as a delivery reports it.
pub open spec fn target_kind_text(k: TriggerTargetKind) -> Seq<char> {
    match k {
        TriggerTargetKind::Function => "Function"@,
        TriggerTargetKind::Workflow => "Workflow"@,
    }
}

impl EventDelivery {
    /// The report of a delivery through `trigger`, in `namespace`, whose target answered
    /// `result`.
    pub fn for_trigger(namespace: String, trigger: &EventTrigger, result: JsonValue) -> (r: EventDelivery)
        ensures
            r.namespace == namespace,
            r.trigger == trigger.metadata.name,
            r.target_kind@ == target_kind_text(trigger.spec.target.kind),
            r.target_name == trigger.spec.target.name,
            r.result == result,
    {
        EventDelivery {
            namespace,
            trigger: trigger.metadata.name.clone(),
            target_kind: crate::text::owned(trigger.spec.target.kind.name()),
            target_name: trigger.spec.target.name.clone(),
            result,
        }
    }
}


/// What a trigger's target is invoked with: the event's payload alone, so that a function
/// runs the same whether called over HTTP or by an event.
pub fn trigger_input(event: &CloudEvent) -> (r: JsonValue)
    ensures
        r@ == event.data@,
{
    event.data.copy()
}

} // verus!
