//! The two processes of the plugin and what each runs: the controller reconciles runtime
//! resources and answers health checks; the activator serves invocations and events,
//! scales idle services and drives event sources.

use crate::text::{owned, texts};
use vstd::prelude::*;

verus! {

/// Address the controller listens on by default.
pub const CONTROLLER_BIND: &'static str = "0.0.0.0:8083";

/// Address the activator listens on by default.
pub const ACTIVATOR_BIND: &'static str = "0.0.0.0:8082";

/// A periodic job of a process.
#[derive(Clone, Copy, Debug, PartialEq, Eq, Structural)]
pub enum BackgroundTask {
    /// Reconcile every service, every `period_secs` seconds and on each service change.
    Reconcile { period_secs: u64 },
    /// Release idle instances and keep `minScale`, every `period_secs` seconds.
    IdleScale { period_secs: u64 },
    /// Let every event source fire when due, every `tick_secs` seconds.
    EventSources { tick_secs: u64 },
}

/// The HTTP routes a process serves.
#[derive(Clone, Copy, Debug, PartialEq, Eq, Structural)]
pub enum RouteSet {
    /// `GET /healthz` only.
    Health,
    /// Health, invocations, state queries, workflows and the event ingress.
    Activator,
}

/// What a process runs: its name, default address, routes, background jobs, and whether
/// service changes are sent to the reconciler.
#[derive(Debug, PartialEq, Eq)]
pub struct ComponentPlan {
    pub name: String,
    pub default_bind: String,
    pub routes: RouteSet,
    pub tasks: Vec<BackgroundTask>,
    pub reconcile_on_change: bool,
}

/// The controller: health routes, reconciling every `reconcile_secs` seconds (two by
/// default) and on every service change.
pub fn controller_main(reconcile_secs: u64) -> (r: ComponentPlan)
    ensures
        r.name@ == "serverless-controller"@,
        r.default_bind@ == CONTROLLER_BIND@,
        r.routes == RouteSet::Health,
        r.tasks@ == seq![BackgroundTask::Reconcile { period_secs: reconcile_secs }],
        r.reconcile_on_change,
{
    let mut tasks: Vec<BackgroundTask> = Vec::new();
    tasks.push(BackgroundTask::Reconcile { period_secs: reconcile_secs });
    assert(tasks@ =~= seq![BackgroundTask::Reconcile { period_secs: reconcile_secs }]);
    ComponentPlan {
        name: owned("serverless-controller"),
        default_bind: owned(CONTROLLER_BIND),
        routes: RouteSet::Health,
        tasks,
        reconcile_on_change: true,
    }
}

/// The activator: all routes, the idle check every `idle_check_secs` seconds (five by
/// default), and the event sources every second.
pub fn activator_main(idle_check_secs: u64) -> (r: ComponentPlan)
    ensures
        r.name@ == "serverless-activator"@,
        r.default_bind@ == ACTIVATOR_BIND@,
        r.routes == RouteSet::Activator,
        r.tasks@ == seq![
            BackgroundTask::IdleScale { period_secs: idle_check_secs },
            BackgroundTask::EventSources { tick_secs: 1 },
        ],
        !r.reconcile_on_change,
{
    let mut tasks: Vec<BackgroundTask> = Vec::new();
    tasks.push(BackgroundTask::IdleScale { period_secs: idle_check_secs });
    tasks.push(BackgroundTask::EventSources { tick_secs: 1 });
    assert(tasks@ =~= seq![
        BackgroundTask::IdleScale { period_secs: idle_check_secs },
        BackgroundTask::EventSources { tick_secs: 1 },
    ]);
    ComponentPlan {
        name: owned("serverless-activator"),
        default_bind: owned(ACTIVATOR_BIND),
        routes: RouteSet::Activator,
        tasks,
        reconcile_on_change: false,
    }
}

/// The distinct keys of a batch of service changes, in the order they first came.
pub fn batch_keys(keys: Vec<String>) -> (r: Vec<String>)
    ensures
        texts(r@).no_duplicates(),
        forall|t: Seq<char>| texts(r@).contains(t) <==> texts(keys@).contains(t),
{
    let ghost kv = texts(keys@);
    let mut out: Vec<String> = Vec::new();
    let mut i: usize = 0;
    while i < keys.len()
        invariant
            i <= keys@.len(),
            kv == texts(keys@),
            texts(out@).no_duplicates(),
            forall|t: Seq<char>| texts(out@).contains(t) <==> kv.take(i as int).contains(t),
        decreases keys@.len() - i,
    {
        let ghost ov = texts(out@);
        let mut seen = false;
        let mut j: usize = 0;
        while j < out.len()
            invariant
                i < keys@.len(),
                j <= out@.len(),
                ov == texts(out@),
                seen ==> ov.contains(keys@[i as int]@),
                !seen ==> forall|m: int| 0 <= m < j ==> ov[m] != keys@[i as int]@,
            decreases out@.len() - j,
        {
            if out[j] == keys[i] {
                assert(ov[j as int] == keys@[i as int]@);
                seen = true;
            }
            j = j + 1;
        }
        let ghost x = keys@[i as int]@;
        if !seen {
            out.push(keys[i].clone());
            proof {
                assert(texts(out@) =~= ov.push(x));
            }
        }
        proof {
            let nv = texts(out@);
            let pre = kv.take(i + 1);
            assert(kv[i as int] == x);
            assert(pre =~= kv.take(i as int).push(x));
            assert forall|t: Seq<char>| nv.contains(t) implies pre.contains(t) by {
                if ov.contains(t) {
                    assert(kv.take(i as int).contains(t));
                    let m = choose|m: int| 0 <= m < kv.take(i as int).len() && kv.take(i as int)[m] == t;
                    assert(pre[m] == t);
                } else {
                    assert(t == x);
                    assert(pre[i as int] == t);
                }
            }
            assert forall|t: Seq<char>| pre.contains(t) implies nv.contains(t) by {
                let m = choose|m: int| 0 <= m < pre.len() && pre[m] == t;
                if m < i {
                    assert(kv.take(i as int)[m] == t);
                    assert(ov.contains(t));
                } else {
                    assert(t == x);
                }
                if ov.contains(t) {
                    let q = choose|q: int| 0 <= q < ov.len() && ov[q] == t;
                    assert(nv[q] == t);
                } else {
                    assert(nv[nv.len() - 1] == t);
                }
            }
            if !seen {
                assert forall|a: int, b: int| 0 <= a < b < nv.len() implies nv[a] != nv[b] by {
                    if b == nv.len() - 1 {
                        assert(nv[a] == ov[a]);
                    }
                }
            }
        }
        i = i + 1;
    }
    assert(kv.take(keys@.len() as int) =~= kv);
    out
}


/// What a resource watch reports: a change to the object under a key, the end of the
/// first listing, or a failure.
#[derive(Debug, PartialEq, Eq)]
pub enum InformerEvent {
    Added(String),
    Modified(String),
    Deleted(String),
    Synced,
    Error(String),
}

/// The service key a watch event asks the reconciler to look at: that of an added,
/// changed or deleted service; none for the other events.
pub fn changed_key(event: &InformerEvent) -> (r: Option<String>)
    ensures
        match event {
            InformerEvent::Added(k) => r == Some(*k),
            InformerEvent::Modified(k) => r == Some(*k),
            InformerEvent::Deleted(k) => r == Some(*k),
            _ => r.is_none(),
        },
{
    match event {
        InformerEvent::Added(k) => Some(k.clone()),
        InformerEvent::Modified(k) => Some(k.clone()),
        InformerEvent::Deleted(k) => Some(k.clone()),
        InformerEvent::Synced => None,
        InformerEvent::Error(_) => None,
    }
}

} // verus!
