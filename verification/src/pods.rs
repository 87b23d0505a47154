//! What the controller asks of the cluster for a service: the revision, the cluster
//! `Service` in front of it, the runtime pods, and which of those pods to delete or add.

use crate::api::revision::{Revision, RevisionSpec};
use crate::api::service::ServerlessService;
use crate::json::{json_from_text, parse_json_text, JsonValue, JsonView};
use crate::runtime::{service_key, service_key_spec, snapshot_of, RuntimeRegistry};
use crate::api::api_version_spec;
use crate::meta::{lookup, map_get, namespace_of, object_namespace, pairs_view, ObjectMeta, OwnerReference, StringMap};
use crate::text::{lemma_str_lt_at, str_lt, concat2, concat3, decimal, decimal_text, hex_char, hex_digits, owned, slice_chars, string_of, trim_text, trimmed};
use crate::time::Timestamp;
use vstd::prelude::*;

verus! {

/// Label naming the component that manages an object.
pub const MANAGED_BY_LABEL: &'static str = "serverless.minik8s.io/managed-by";

/// Label naming the serverless service an object belongs to.
pub const SERVICE_LABEL: &'static str = "serverless.minik8s.io/service";

/// Label naming the revision an object runs.
pub const REVISION_LABEL: &'static str = "serverless.minik8s.io/revision";

/// Value of the managed-by label on objects this controller owns.
pub const MANAGED_BY: &'static str = "serverless-controller";

/// The labels of every object made for a service's revision, in key order.
pub open spec fn runtime_labels_spec(service_name: Seq<char>, revision: Seq<char>) -> Seq<(Seq<char>, Seq<char>)> {
    seq![(MANAGED_BY_LABEL@, MANAGED_BY@), (REVISION_LABEL@, revision), (SERVICE_LABEL@, service_name)]
}

/// The labels of the objects made for `service` running `revision_name`.
pub fn runtime_labels(service: &ServerlessService, revision_name: &str) -> (r: StringMap)
    ensures
        r@ == runtime_labels_spec(service.metadata.name@, revision_name@),
{
    let mut v: Vec<(String, String)> = Vec::new();
    v.push((owned(MANAGED_BY_LABEL), owned(MANAGED_BY)));
    v.push((owned(REVISION_LABEL), owned(revision_name)));
    v.push((owned(SERVICE_LABEL), service.metadata.name.clone()));
    proof {
        lemma_label_keys_sorted();
        assert(pairs_view(v@) =~= runtime_labels_spec(service.metadata.name@, revision_name@));
    }
    StringMap::from_sorted(v)
}

/// The three label keys are in `String` order: managed-by, revision, service.
proof fn lemma_label_keys_sorted()
    ensures
        str_lt(MANAGED_BY_LABEL@, REVISION_LABEL@),
        str_lt(REVISION_LABEL@, SERVICE_LABEL@),
        str_lt(MANAGED_BY_LABEL@, SERVICE_LABEL@),
{
    reveal_strlit("serverless.minik8s.io/managed-by");
    reveal_strlit("serverless.minik8s.io/revision");
    reveal_strlit("serverless.minik8s.io/service");
    let a = MANAGED_BY_LABEL@;
    let b = REVISION_LABEL@;
    let c = SERVICE_LABEL@;
    assert forall|j: int| 0 <= j < 22 implies a[j] == b[j] && b[j] == c[j] by {}
    lemma_str_lt_at(a, b, 22);
    lemma_str_lt_at(b, c, 22);
    lemma_str_lt_at(a, c, 22);
}

/// The object carries this controller's managed-by label.
pub open spec fn is_managed_spec(meta: ObjectMeta) -> bool {
    lookup(meta.labels@, MANAGED_BY_LABEL@) == Some(MANAGED_BY@)
}

/// Whether an object is one this controller manages.
pub fn is_managed_runtime_object(meta: &ObjectMeta) -> (r: bool)
    ensures
        r == is_managed_spec(*meta),
{
    match map_get(&meta.labels, MANAGED_BY_LABEL) {
        Some(v) => *v == owned(MANAGED_BY),
        None => false,
    }
}

/// Name of the cluster `Service` in front of a serverless service: `sks-<name>`.
pub open spec fn k8s_service_name_spec(service: ServerlessService) -> Seq<char> {
    "sks-"@ + service.metadata.name@
}

/// The name of the cluster `Service` in front of `service`.
pub fn k8s_service_name(service: &ServerlessService) -> (r: String)
    ensures
        r@ == k8s_service_name_spec(*service),
{
    concat2("sks-", service.metadata.name.as_str())
}

/// What `DefaultHasher` gives for the image, the port and the environment, hashed in that
/// order (the environment as the key-ordered map it stands for). It is fixed for a build
/// target: the hasher is fed integers in the target's byte order and width.
pub uninterp spec fn revision_hash(image: Seq<char>, port: u16, env: Seq<(Seq<char>, Seq<char>)>) -> u64;

/// `BuildHasher::hash_one` of the default `DefaultHasher` builder on `(image, port, env)`:
/// a fresh `DefaultHasher` fed the three through `Hash`, then `finish()`. A vector of pairs
/// in key order hashes as the `BTreeMap` it stands for does.
#[verifier::external_body]
fn hash_revision_inputs(image: &str, port: u16, env: &Vec<(String, String)>) -> (r: u64)
    ensures
        r == revision_hash(image@, port, pairs_view(env@)),
{
    let builder = std::hash::BuildHasherDefault::<std::collections::hash_map::DefaultHasher>::default();
    std::hash::BuildHasher::hash_one(&builder, (image, port, env))
}

/// The `width` lowest hexadecimal digits of `n`, zero padded.
fn hex_chars(n: u64, width: u32) -> (r: Vec<char>)
    ensures
        r@ == hex_digits(n as nat, width as nat),
    decreases width,
{
    if width == 0 {
        Vec::new()
    } else {
        let mut v = hex_chars(n / 16, width - 1);
        v.push(hex_digit(n % 16));
        v
    }
}

fn hex_digit(d: u64) -> (c: char)
    requires
        d < 16,
    ensures
        c == hex_char(d as nat),
{
    if d < 10 {
        crate::text::digit(d)
    } else if d == 10 {
        'a'
    } else if d == 11 {
        'b'
    } else if d == 12 {
        'c'
    } else if d == 13 {
        'd'
    } else if d == 14 {
        'e'
    } else {
        'f'
    }
}

/// The revision part of a service's revision name: the first ten of the sixteen
/// hexadecimal digits of the hash of its image, port and environment.
pub open spec fn revision_hash_text(service: ServerlessService) -> Seq<char> {
    hex_digits(
        revision_hash(service.spec.image@, service.spec.port, service.spec.env@) as nat,
        16,
    ).take(10)
}

/// Name of the revision a service runs: `<name>-<hash>`.
pub open spec fn revision_name_spec(service: ServerlessService) -> Seq<char> {
    service.metadata.name@ + "-"@ + revision_hash_text(service)
}

/// The hash part of the revision name of `service`.
pub fn service_revision_hash(service: &ServerlessService) -> (r: String)
    ensures
        r@ == revision_hash_text(*service),
{
    let h = hash_revision_inputs(service.spec.image.as_str(), service.spec.port, service.spec.env.pairs());
    let digits = hex_chars(h, 16);
    proof {
        crate::text::lemma_hex_digits_len(h as nat, 16);
    }
    let first = slice_chars(&digits, 0, 10);
    string_of(first.as_slice())
}

/// The name of the revision `service` runs: a change of image, port or environment makes a
/// new one.
pub fn service_revision_name(service: &ServerlessService) -> (r: String)
    ensures
        r@ == revision_name_spec(*service),
{
    let hash = service_revision_hash(service);
    concat3(service.metadata.name.as_str(), "-", hash.as_str())
}

/// In-cluster URL of a service: `http://sks-<name>.<namespace>.svc.cluster.local:<port>`.
pub open spec fn service_url_spec(service: ServerlessService) -> Seq<char> {
    "http://"@ + k8s_service_name_spec(service) + "."@ + namespace_of(service.metadata)
        + ".svc.cluster.local:"@ + decimal(service.spec.port as nat)
}

/// The in-cluster URL of `service`.
pub fn service_url(service: &ServerlessService) -> (r: String)
    ensures
        r@ == service_url_spec(*service),
{
    let name = k8s_service_name(service);
    let ns = object_namespace(&service.metadata);
    let mut r = concat3("http://", name.as_str(), ".");
    r.append(ns.as_str());
    r.append(".svc.cluster.local:");
    let port = decimal_text(service.spec.port as u64);
    r.append(port.as_str());
    r
}

/// One environment variable of a container.
#[derive(Clone, Debug, PartialEq, Eq)]
pub struct EnvVar {
    pub name: String,
    pub value: String,
}

/// Environment variables as pairs of texts.
pub open spec fn env_view(v: Seq<EnvVar>) -> Seq<(Seq<char>, Seq<char>)> {
    v.map_values(|e: EnvVar| (e.name@, e.value@))
}

/// The runtime container's environment: the service's own variables in key order, then
/// `FUNCTION_NAMESPACE` and `FUNCTION_NAME`.
pub open spec fn service_env_spec(service: ServerlessService) -> Seq<(Seq<char>, Seq<char>)> {
    service.spec.env@ + seq![
        ("FUNCTION_NAMESPACE"@, namespace_of(service.metadata)),
        ("FUNCTION_NAME"@, service.metadata.name@),
    ]
}

/// The environment of `service`'s runtime container.
pub fn service_env(service: &ServerlessService) -> (r: Vec<EnvVar>)
    ensures
        env_view(r@) == service_env_spec(*service),
{
    let env = service.spec.env.pairs();
    let mut r: Vec<EnvVar> = Vec::new();
    let mut i: usize = 0;
    while i < env.len()
        invariant
            i <= env@.len(),
            r@.len() == i,
            pairs_view(env@) == service.spec.env@,
            env_view(r@) == pairs_view(env@).take(i as int),
        decreases env@.len() - i,
    {
        let ghost before = r@;
        r.push(EnvVar { name: env[i].0.clone(), value: env[i].1.clone() });
        proof {
            let want = pairs_view(env@).take(i + 1);
            assert forall|j: int| 0 <= j < i + 1 implies env_view(r@)[j] == want[j] by {
                if j < i {
                    assert(r@[j] == before[j]);
                    assert(env_view(before)[j] == pairs_view(env@).take(i as int)[j]);
                }
            }
            assert(env_view(r@) =~= want);
        }
        i = i + 1;
    }
    let ghost own = r@;
    r.push(EnvVar { name: owned("FUNCTION_NAMESPACE"), value: object_namespace(&service.metadata) });
    r.push(EnvVar { name: owned("FUNCTION_NAME"), value: service.metadata.name.clone() });
    assert(pairs_view(env@).take(env@.len() as int) =~= pairs_view(env@));
    assert(env_view(r@) =~= service_env_spec(*service));
    r
}

/// The reference by which objects made for a service name it as their owner.
pub open spec fn owner_ref_spec(service: ServerlessService, o: OwnerReference) -> bool {
    &&& o.api_version@ == api_version_spec()
    &&& o.kind@ == "ServerlessService"@
    &&& o.name == service.metadata.name
}

/// The owner reference naming `service`.
pub fn owner_ref(service: &ServerlessService) -> (r: OwnerReference)
    ensures
        owner_ref_spec(*service, r),
{
    OwnerReference {
        api_version: concat3(crate::api::GROUP, "/", crate::api::VERSION),
        kind: owned("ServerlessService"),
        name: service.metadata.name.clone(),
    }
}

/// Metadata of an object made for `service` running `revision`: in the service's
/// namespace, with the runtime labels and the service as its only owner.
pub open spec fn runtime_meta_spec(service: ServerlessService, revision: Seq<char>, m: ObjectMeta) -> bool {
    &&& m.namespace@ == namespace_of(service.metadata)
    &&& m.labels@ == runtime_labels_spec(service.metadata.name@, revision)
    &&& m.owner_references@.len() == 1
    &&& owner_ref_spec(service, m.owner_references@[0])
    &&& m.creation_timestamp.is_none()
}

fn runtime_meta(service: &ServerlessService, revision_name: &str, name: String, generate_name: Option<String>) -> (r: ObjectMeta)
    ensures
        runtime_meta_spec(*service, revision_name@, r),
        r.name == name,
        r.generate_name == generate_name,
{
    let mut owners: Vec<OwnerReference> = Vec::new();
    owners.push(owner_ref(service));
    ObjectMeta {
        name,
        namespace: object_namespace(&service.metadata),
        generate_name,
        labels: runtime_labels(service, revision_name),
        owner_references: owners,
        creation_timestamp: None,
    }
}

/// The revision object for `service` under `revision_name`: it records the service's name,
/// image, port and environment.
pub fn revision_manifest(service: &ServerlessService, revision_name: &str) -> (r: Revision)
    ensures
        r.types.api_version@ == api_version_spec(),
        r.types.kind@ == "Revision"@,
        r.metadata.name@ == revision_name@,
        r.metadata.generate_name.is_none(),
        runtime_meta_spec(*service, revision_name@, r.metadata),
        r.spec.service_name == service.metadata.name,
        r.spec.image == service.spec.image,
        r.spec.port == service.spec.port,
        r.spec.env@ == service.spec.env@,
        !r.status.ready,
        r.status.created_at.is_none(),
{
    let meta = runtime_meta(service, revision_name, owned(revision_name), None);
    let env = copy_map(&service.spec.env);
    Revision::new(
        meta,
        RevisionSpec {
            service_name: service.metadata.name.clone(),
            image: service.spec.image.clone(),
            port: service.spec.port,
            env,
        },
    )
}

/// A copy of a string map.
pub fn copy_map(m: &StringMap) -> (r: StringMap)
    ensures
        r@ == m@,
{
    m.copy()
}

/// The container of a runtime pod.
#[derive(Clone, Debug, PartialEq, Eq)]
pub struct ContainerManifest {
    pub name: String,
    pub image: String,
    pub env: Vec<EnvVar>,
    pub container_port: u16,
    pub protocol: String,
}

/// A runtime pod to create: the cluster picks its name from `generate_name`.
#[derive(Clone, Debug, PartialEq, Eq)]
pub struct PodManifest {
    pub metadata: ObjectMeta,
    pub container: ContainerManifest,
    pub restart_policy: String,
}

/// A runtime pod for `service` running `revision_name`: one container named
/// `user-container` with the service's image, environment and TCP port, restarted always.
pub fn build_service_pod(service: &ServerlessService, revision_name: &str) -> (r: PodManifest)
    ensures
        r.metadata.name@.len() == 0,
        r.metadata.generate_name matches Some(g) && g@ == "sks-"@ + service.metadata.name@ + "-"@,
        runtime_meta_spec(*service, revision_name@, r.metadata),
        r.container.name@ == "user-container"@,
        r.container.image == service.spec.image,
        env_view(r.container.env@) == service_env_spec(*service),
        r.container.container_port == service.spec.port,
        r.container.protocol@ == "TCP"@,
        r.restart_policy@ == "Always"@,
{
    let generate = concat3("sks-", service.metadata.name.as_str(), "-");
    let meta = runtime_meta(service, revision_name, String::new(), Some(generate));
    PodManifest {
        metadata: meta,
        container: ContainerManifest {
            name: owned("user-container"),
            image: service.spec.image.clone(),
            env: service_env(service),
            container_port: service.spec.port,
            protocol: owned("TCP"),
        },
        restart_policy: owned("Always"),
    }
}

/// The cluster `Service` in front of a service's runtime pods.
#[derive(Clone, Debug, PartialEq, Eq)]
pub struct ServiceManifest {
    pub metadata: ObjectMeta,
    pub selector: StringMap,
    pub port_name: String,
    pub port: u16,
    pub target_port: u16,
    pub protocol: String,
    pub cluster_ip: Option<String>,
}

/// The `ClusterIP` service `sks-<name>` selecting the pods of `service`'s revision
/// `revision_name` on the service's port, keeping the cluster IP it already has, if any.
pub fn build_k8s_service(service: &ServerlessService, revision_name: &str, existing_cluster_ip: Option<String>) -> (r: ServiceManifest)
    ensures
        r.metadata.name@ == k8s_service_name_spec(*service),
        r.metadata.generate_name.is_none(),
        runtime_meta_spec(*service, revision_name@, r.metadata),
        r.selector@ == runtime_labels_spec(service.metadata.name@, revision_name@),
        r.port_name@ == "http"@,
        r.port == service.spec.port,
        r.target_port == service.spec.port,
        r.protocol@ == "TCP"@,
        r.cluster_ip == existing_cluster_ip,
{
    let name = k8s_service_name(service);
    let meta = runtime_meta(service, revision_name, name, None);
    ServiceManifest {
        metadata: meta,
        selector: runtime_labels(service, revision_name),
        port_name: owned("http"),
        port: service.spec.port,
        target_port: service.spec.port,
        protocol: owned("TCP"),
        cluster_ip: existing_cluster_ip,
    }
}


/// Lifecycle phase of a pod.
#[derive(Clone, Copy, Debug, PartialEq, Eq, Structural)]
pub enum PodPhase {
    Pending,
    Running,
    Succeeded,
    Failed,
    Unknown,
}

/// Readiness of one container of a pod.
#[derive(Clone, Debug, PartialEq, Eq)]
pub struct ContainerStatus {
    pub name: String,
    pub ready: bool,
}

/// What the controller reads of a pod: its metadata, phase, address and containers.
#[derive(Clone, Debug, PartialEq, Eq)]
pub struct RuntimePod {
    pub metadata: ObjectMeta,
    pub phase: PodPhase,
    pub pod_ip: Option<String>,
    pub container_statuses: Vec<ContainerStatus>,
}

/// Order of creation times, as `Option<DateTime>` orders them: none first.
pub open spec fn time_le(a: Option<Timestamp>, b: Option<Timestamp>) -> bool {
    match (a, b) {
        (None, _) => true,
        (Some(_), None) => false,
        (Some(x), Some(y)) => x.not_after(y),
    }
}

fn time_le_exec(a: Option<Timestamp>, b: Option<Timestamp>) -> (r: bool)
    ensures
        r == time_le(a, b),
{
    match (a, b) {
        (None, _) => true,
        (Some(_), None) => false,
        (Some(x), Some(y)) => crate::time::not_after(x, y),
    }
}

/// `s`, sorted by creation time, with `x` put after every entry not later than it.
pub open spec fn insert_by_time<T>(s: Seq<(Option<Timestamp>, T)>, x: (Option<Timestamp>, T)) -> Seq<(Option<Timestamp>, T)>
    decreases s.len(),
{
    if s.len() == 0 {
        seq![x]
    } else if time_le(s.last().0, x.0) {
        s.push(x)
    } else {
        insert_by_time(s.drop_last(), x).push(s.last())
    }
}

/// The stable sort of `s` by creation time (what `sort_by_key` on the time gives).
pub open spec fn sorted_by_time<T>(s: Seq<(Option<Timestamp>, T)>) -> Seq<(Option<Timestamp>, T)>
    decreases s.len(),
{
    if s.len() == 0 {
        s
    } else {
        insert_by_time(sorted_by_time(s.drop_last()), s.last())
    }
}

fn insert_time_ordered<T>(v: &mut Vec<(Option<Timestamp>, T)>, x: (Option<Timestamp>, T))
    ensures
        final(v)@ == insert_by_time(old(v)@, x),
    decreases old(v)@.len(),
{
    let n = v.len();
    if n == 0 {
        v.push(x);
        return;
    }
    if time_le_exec(v[n - 1].0, x.0) {
        v.push(x);
    } else {
        let last = v.pop().unwrap();
        insert_time_ordered(v, x);
        v.push(last);
    }
}

/// Sorts entries by creation time, keeping the order of entries with equal times.
pub fn sort_by_time<T>(v: Vec<(Option<Timestamp>, T)>) -> (r: Vec<(Option<Timestamp>, T)>)
    ensures
        r@ == sorted_by_time(v@),
{
    let ghost orig = v@;
    let n = v.len();
    let mut v = v;
    let mut stack: Vec<(Option<Timestamp>, T)> = Vec::new();
    while v.len() > 0
        invariant
            v@ == orig.take(v@.len() as int),
            v@.len() <= n,
            n == orig.len(),
            stack@.len() == n - v@.len(),
            forall|k: int| 0 <= k < stack@.len() ==> #[trigger] stack@[k] == orig[n - 1 - k],
        decreases v@.len(),
    {
        let e = v.pop().unwrap();
        stack.push(e);
    }
    let mut out: Vec<(Option<Timestamp>, T)> = Vec::new();
    let mut i: usize = 0;
    while i < n
        invariant
            i <= n,
            n == orig.len(),
            stack@.len() == n - i,
            forall|k: int| 0 <= k < stack@.len() ==> #[trigger] stack@[k] == orig[n - 1 - k],
            out@ == sorted_by_time(orig.take(i as int)),
        decreases n - i,
    {
        let e = stack.pop().unwrap();
        assert(e == orig[i as int]);
        assert(orig.take(i + 1).drop_last() =~= orig.take(i as int));
        insert_time_ordered(&mut out, e);
        i = i + 1;
    }
    assert(orig.take(n as int) =~= orig);
    out
}

/// The pod carries this controller's managed-by label and names `service` in its
/// service label.
pub open spec fn is_service_pod_spec(pod: RuntimePod, service: ServerlessService) -> bool {
    &&& is_managed_spec(pod.metadata)
    &&& lookup(pod.metadata.labels@, SERVICE_LABEL@) == Some(service.metadata.name@)
}

/// A pod of the service that must go: it runs another revision, or it has ended.
pub open spec fn is_stale_spec(pod: RuntimePod, revision: Seq<char>) -> bool {
    ||| lookup(pod.metadata.labels@, REVISION_LABEL@) != Some(revision)
    ||| pod.phase == PodPhase::Failed
    ||| pod.phase == PodPhase::Succeeded
}

/// Whether `pod` is one of `service`'s runtime pods.
pub fn is_service_pod(pod: &RuntimePod, service: &ServerlessService) -> (r: bool)
    ensures
        r == is_service_pod_spec(*pod, *service),
{
    if !is_managed_runtime_object(&pod.metadata) {
        return false;
    }
    match map_get(&pod.metadata.labels, SERVICE_LABEL) {
        Some(v) => *v == service.metadata.name,
        None => false,
    }
}

fn is_stale(pod: &RuntimePod, revision_name: &String) -> (r: bool)
    ensures
        r == is_stale_spec(*pod, revision_name@),
{
    let same_revision = match map_get(&pod.metadata.labels, REVISION_LABEL) {
        Some(v) => *v == *revision_name,
        None => false,
    };
    !same_revision || pod.phase == PodPhase::Failed || pod.phase == PodPhase::Succeeded
}

/// Names, in listing order, of the service's pods among the first `n` that must go.
pub open spec fn stale_upto(pods: Seq<RuntimePod>, service: ServerlessService, revision: Seq<char>, n: int) -> Seq<String>
    decreases n,
{
    if n <= 0 {
        Seq::empty()
    } else if is_service_pod_spec(pods[n - 1], service) && is_stale_spec(pods[n - 1], revision) {
        stale_upto(pods, service, revision, n - 1).push(pods[n - 1].metadata.name)
    } else {
        stale_upto(pods, service, revision, n - 1)
    }
}

/// Creation times and names, in listing order, of the service's pods among the first `n`
/// that stay.
pub open spec fn active_upto(pods: Seq<RuntimePod>, service: ServerlessService, revision: Seq<char>, n: int) -> Seq<(Option<Timestamp>, String)>
    decreases n,
{
    if n <= 0 {
        Seq::empty()
    } else if is_service_pod_spec(pods[n - 1], service) && !is_stale_spec(pods[n - 1], revision) {
        active_upto(pods, service, revision, n - 1).push((pods[n - 1].metadata.creation_timestamp, pods[n - 1].metadata.name))
    } else {
        active_upto(pods, service, revision, n - 1)
    }
}

/// What bringing a service to a number of pods takes: the pods to delete, in order, and
/// how many to create.
#[derive(Debug, PartialEq, Eq)]
pub struct PodPlan {
    pub delete: Vec<String>,
    pub create: usize,
}

/// The plan for `desired` pods of `revision`, given the pods listed in the service's
/// namespace: first delete the service's pods of other revisions and those that ended;
/// then create the missing pods, or delete the surplus: the pods are ranked by creation time
/// (listing order among equal times) and those past the first `desired` go.
pub open spec fn pod_plan_spec(pods: Seq<RuntimePod>, service: ServerlessService, revision: Seq<char>, desired: nat) -> (Seq<String>, nat) {
    let stale = stale_upto(pods, service, revision, pods.len() as int);
    let active = active_upto(pods, service, revision, pods.len() as int);
    if active.len() < desired {
        (stale, (desired - active.len()) as nat)
    } else {
        (stale + sorted_by_time(active).skip(desired as int).map_values(|e: (Option<Timestamp>, String)| e.1), 0)
    }
}

/// Decides which of the listed pods to delete and how many to create so that `service`
/// runs `desired` pods of revision `revision_name`.
pub fn plan_pods(pods: &Vec<RuntimePod>, service: &ServerlessService, revision_name: &String, desired: u32) -> (r: PodPlan)
    ensures
        (r.delete@, r.create as nat) == pod_plan_spec(pods@, *service, revision_name@, desired as nat),
{
    let mut delete: Vec<String> = Vec::new();
    let mut active: Vec<(Option<Timestamp>, String)> = Vec::new();
    let mut i: usize = 0;
    while i < pods.len()
        invariant
            i <= pods@.len(),
            delete@ == stale_upto(pods@, *service, revision_name@, i as int),
            active@ == active_upto(pods@, *service, revision_name@, i as int),
        decreases pods@.len() - i,
    {
        let pod = &pods[i];
        if is_service_pod(pod, service) {
            if is_stale(pod, revision_name) {
                delete.push(pod.metadata.name.clone());
            } else {
                active.push((pod.metadata.creation_timestamp, pod.metadata.name.clone()));
            }
        }
        i = i + 1;
    }
    let d = desired as usize;
    if active.len() < d {
        return PodPlan { delete, create: d - active.len() };
    }
    let sorted = sort_by_time(active);
    let ghost sv = sorted@;
    let mut j: usize = d;
    let ghost base = delete@;
    proof {
        lemma_sorted_len(active@);
        assert(base + sv.subrange(d as int, d as int).map_values(|e: (Option<Timestamp>, String)| e.1) =~= base);
    }
    while j < sorted.len()
        invariant
            d <= j <= sorted@.len(),
            sorted@ == sv,
            delete@ == base + sv.subrange(d as int, j as int).map_values(|e: (Option<Timestamp>, String)| e.1),
        decreases sorted@.len() - j,
    {
        let ghost before = delete@;
        delete.push(sorted[j].1.clone());
        proof {
            let want = base + sv.subrange(d as int, j + 1).map_values(|e: (Option<Timestamp>, String)| e.1);
            assert(sv.subrange(d as int, j + 1).map_values(|e: (Option<Timestamp>, String)| e.1) =~= sv.subrange(
                d as int,
                j as int,
            ).map_values(|e: (Option<Timestamp>, String)| e.1).push(sv[j as int].1));
            assert(delete@ =~= want);
        }
        j = j + 1;
    }
    proof {
        assert(sv.subrange(d as int, sv.len() as int) =~= sv.skip(d as int));
    }
    PodPlan { delete, create: 0 }
}

/// Inserting adds one entry.
pub proof fn lemma_insert_len<T>(s: Seq<(Option<Timestamp>, T)>, x: (Option<Timestamp>, T))
    ensures
        insert_by_time(s, x).len() == s.len() + 1,
    decreases s.len(),
{
    if s.len() > 0 && !time_le(s.last().0, x.0) {
        lemma_insert_len(s.drop_last(), x);
    }
}

/// Sorting keeps the number of entries.
pub proof fn lemma_sorted_len<T>(s: Seq<(Option<Timestamp>, T)>)
    ensures
        sorted_by_time(s).len() == s.len(),
    decreases s.len(),
{
    if s.len() > 0 {
        lemma_sorted_len(s.drop_last());
        lemma_insert_len(sorted_by_time(s.drop_last()), s.last());
    }
}


/// The pod has a ready container named `user-container`.
pub open spec fn has_ready_user_container(cs: Seq<ContainerStatus>) -> bool {
    exists|k: int| 0 <= k < cs.len() && (#[trigger] cs[k]).name@ == "user-container"@ && cs[k].ready
}

/// A pod of the service that can take requests: running, with an address and a ready
/// runtime container.
pub open spec fn is_ready_spec(pod: RuntimePod, service: ServerlessService) -> bool {
    &&& is_service_pod_spec(pod, service)
    &&& pod.phase == PodPhase::Running
    &&& pod.pod_ip.is_some()
    &&& has_ready_user_container(pod.container_statuses@)
}

/// Creation times, names and addresses, in listing order, of the ready pods among the
/// first `n`.
pub open spec fn ready_upto(pods: Seq<RuntimePod>, service: ServerlessService, n: int) -> Seq<(Option<Timestamp>, (String, String))>
    decreases n,
{
    if n <= 0 {
        Seq::empty()
    } else if is_ready_spec(pods[n - 1], service) {
        ready_upto(pods, service, n - 1).push(
            (pods[n - 1].metadata.creation_timestamp, (pods[n - 1].metadata.name, pods[n - 1].pod_ip.unwrap())),
        )
    } else {
        ready_upto(pods, service, n - 1)
    }
}

/// The ready pods of a service as (name, address), the earliest created first.
pub open spec fn ready_pods_spec(pods: Seq<RuntimePod>, service: ServerlessService) -> Seq<(String, String)> {
    sorted_by_time(ready_upto(pods, service, pods.len() as int)).map_values(
        |e: (Option<Timestamp>, (String, String))| e.1,
    )
}

fn has_ready_container(cs: &Vec<ContainerStatus>) -> (r: bool)
    ensures
        r == has_ready_user_container(cs@),
{
    let name = owned("user-container");
    let mut k: usize = 0;
    while k < cs.len()
        invariant
            k <= cs@.len(),
            name@ == "user-container"@,
            forall|j: int| 0 <= j < k ==> !((#[trigger] cs@[j]).name@ == "user-container"@ && cs@[j].ready),
        decreases cs@.len() - k,
    {
        if cs[k].ready && cs[k].name == name {
            return true;
        }
        k = k + 1;
    }
    false
}

/// The listed pods of `service` that can take requests, as (name, address), the earliest
/// created first.
pub fn ready_pods(pods: &Vec<RuntimePod>, service: &ServerlessService) -> (r: Vec<(String, String)>)
    ensures
        r@ == ready_pods_spec(pods@, *service),
{
    let mut ready: Vec<(Option<Timestamp>, (String, String))> = Vec::new();
    let mut i: usize = 0;
    while i < pods.len()
        invariant
            i <= pods@.len(),
            ready@ == ready_upto(pods@, *service, i as int),
        decreases pods@.len() - i,
    {
        let pod = &pods[i];
        if is_service_pod(pod, service) && pod.phase == PodPhase::Running && has_ready_container(&pod.container_statuses) {
            match &pod.pod_ip {
                Some(ip) => {
                    ready.push((pod.metadata.creation_timestamp, (pod.metadata.name.clone(), ip.clone())));
                },
                None => {},
            }
        }
        i = i + 1;
    }
    let sorted = sort_by_time(ready);
    let ghost sv = sorted@;
    let mut out: Vec<(String, String)> = Vec::new();
    let mut j: usize = 0;
    while j < sorted.len()
        invariant
            j <= sorted@.len(),
            sorted@ == sv,
            out@ == sv.take(j as int).map_values(|e: (Option<Timestamp>, (String, String))| e.1),
        decreases sorted@.len() - j,
    {
        out.push((sorted[j].1.0.clone(), sorted[j].1.1.clone()));
        proof {
            assert(sv.take(j + 1).map_values(|e: (Option<Timestamp>, (String, String))| e.1) =~= sv.take(
                j as int,
            ).map_values(|e: (Option<Timestamp>, (String, String))| e.1).push(sv[j as int].1));
        }
        j = j + 1;
    }
    assert(sv.take(sv.len() as int) =~= sv);
    out
}

/// `s` turned left by `k` places (`rotate_left`).
pub open spec fn rotated<T>(s: Seq<T>, k: int) -> Seq<T> {
    s.skip(k) + s.take(k)
}

/// `v.rotate_left(k)`.
pub fn rotate_left_by<T>(v: Vec<T>, k: usize) -> (r: Vec<T>)
    requires
        k <= v@.len(),
    ensures
        r@ == rotated(v@, k as int),
{
    let ghost orig = v@;
    let mut front = v;
    let mut back = front.split_off(k);
    back.append(&mut front);
    assert(back@ =~= rotated(orig, k as int));
    back
}

/// The ready pods of `service` in the order they are tried: the time-ordered list turned
/// left by a place the clock picks, so that requests spread over the pods.
pub fn ready_candidates(pods: &Vec<RuntimePod>, service: &ServerlessService) -> (r: Vec<(String, String)>)
    ensures
        ready_pods_spec(pods@, *service).len() == 0 ==> r@.len() == 0,
        ready_pods_spec(pods@, *service).len() > 0 ==> exists|k: int|
            0 <= k < ready_pods_spec(pods@, *service).len() && r@ == rotated(ready_pods_spec(pods@, *service), k),
{
    let ready = ready_pods(pods, service);
    if ready.len() == 0 {
        return ready;
    }
    let k = crate::http::pod_pick_index(ready.len());
    let r = rotate_left_by(ready, k);
    assert(r@ == rotated(ready_pods_spec(pods@, *service), k as int));
    r
}

/// A managed object labelled with a service that no longer exists in its namespace.
pub open spec fn is_orphan_spec(services: Seq<ServerlessService>, meta: ObjectMeta) -> bool {
    &&& is_managed_spec(meta)
    &&& lookup(meta.labels@, SERVICE_LABEL@) matches Some(name)
    &&& !exists|i: int|
        0 <= i < services.len() && namespace_of((#[trigger] services[i]).metadata) == namespace_of(meta)
            && services[i].metadata.name@ == name
}

/// Positions, in order, of the orphans among the first `n` objects.
pub open spec fn orphans_upto(services: Seq<ServerlessService>, objects: Seq<ObjectMeta>, n: int) -> Seq<int>
    decreases n,
{
    if n <= 0 {
        Seq::empty()
    } else if is_orphan_spec(services, objects[n - 1]) {
        orphans_upto(services, objects, n - 1).push(n - 1)
    } else {
        orphans_upto(services, objects, n - 1)
    }
}

fn service_exists(services: &Vec<ServerlessService>, namespace: &String, name: &String) -> (r: bool)
    ensures
        r == exists|i: int|
            0 <= i < services@.len() && namespace_of((#[trigger] services@[i]).metadata) == namespace@
                && services@[i].metadata.name@ == name@,
{
    let mut i: usize = 0;
    while i < services.len()
        invariant
            i <= services@.len(),
            forall|j: int|
                0 <= j < i ==> !(namespace_of((#[trigger] services@[j]).metadata) == namespace@
                    && services@[j].metadata.name@ == name@),
        decreases services@.len() - i,
    {
        let ns = object_namespace(&services[i].metadata);
        if ns == *namespace && services[i].metadata.name == *name {
            return true;
        }
        i = i + 1;
    }
    false
}

/// The managed objects, by position, whose service is gone: what the controller deletes
/// when it cleans up.
pub fn orphan_objects(services: &Vec<ServerlessService>, objects: &Vec<ObjectMeta>) -> (r: Vec<usize>)
    ensures
        r@.map_values(|i: usize| i as int) == orphans_upto(services@, objects@, objects@.len() as int),
{
    let mut r: Vec<usize> = Vec::new();
    let mut i: usize = 0;
    while i < objects.len()
        invariant
            i <= objects@.len(),
            r@.map_values(|j: usize| j as int) == orphans_upto(services@, objects@, i as int),
        decreases objects@.len() - i,
    {
        let meta = &objects[i];
        let ghost before = r@;
        if is_managed_runtime_object(meta) {
            match map_get(&meta.labels, SERVICE_LABEL) {
                Some(name) => {
                    let ns = object_namespace(meta);
                    if !service_exists(services, &ns, name) {
                        r.push(i);
                        proof {
                            assert(r@.map_values(|j: usize| j as int) =~= before.map_values(|j: usize| j as int).push(
                                i as int,
                            ));
                        }
                    }
                },
                None => {},
            }
        }
        i = i + 1;
    }
    r
}

/// The pods a service should run now: what the activator counts as active, and never
/// fewer than `minScale`.
pub open spec fn desired_instances_spec(active: u32, service: ServerlessService) -> u32 {
    if active >= service.spec.scale.min_scale {
        active
    } else {
        service.spec.scale.min_scale
    }
}

/// How many pods `service` should run, given the activator's counts.
pub fn desired_instances(registry: &RuntimeRegistry, service: &ServerlessService) -> (r: u32)
    ensures
        r == desired_instances_spec(
            if registry@.contains_key(service_key_spec(*service)) {
                snapshot_of(registry@[service_key_spec(*service)]).active_instances
            } else {
                0
            },
            *service,
        ),
{
    let key = service_key(service);
    let snap = registry.snapshot(key.as_str());
    if snap.active_instances >= service.spec.scale.min_scale {
        snap.active_instances
    } else {
        service.spec.scale.min_scale
    }
}

/// What a runtime pod's reply to an invocation means: the JSON value of the trimmed body
/// (null when it is empty) for a 2xx status, else an error.
pub open spec fn runtime_reply_spec(status: u16, body: Seq<char>) -> Result<JsonView, Seq<char>> {
    let t = trimmed(body);
    if !(200 <= status < 300) {
        Err("serverless runtime returned "@ + decimal(status as nat) + ": "@ + t)
    } else if t.len() == 0 {
        Ok(JsonView::Null)
    } else {
        match json_from_text(t) {
            Ok(v) => Ok(v),
            Err(e) => Err("serverless runtime response is not JSON: "@ + t + ": "@ + e),
        }
    }
}

/// Reads a runtime pod's reply to an invocation.
pub fn runtime_reply(status: u16, body: &String) -> (r: Result<JsonValue, String>)
    ensures
        crate::json::parsed_view(r) == runtime_reply_spec(status, body@),
{
    let t = trim_text(body.as_str());
    if !(200 <= status && status < 300) {
        let code = decimal_text(status as u64);
        let mut m = concat3("serverless runtime returned ", code.as_str(), ": ");
        m.append(t.as_str());
        return Err(m);
    }
    if crate::text::is_blank(body.as_str()) {
        proof {
            crate::text::lemma_trimmed_empty(body@);
        }
        return Ok(JsonValue::Null);
    }
    proof {
        crate::text::lemma_trimmed_empty(body@);
    }
    match parse_json_text(t.as_str()) {
        Ok(v) => Ok(v),
        Err(e) => {
            let mut m = concat3("serverless runtime response is not JSON: ", t.as_str(), ": ");
            m.append(e.as_str());
            Err(m)
        },
    }
}


/// Entries in non-decreasing order of creation time.
pub open spec fn time_sorted<T>(s: Seq<(Option<Timestamp>, T)>) -> bool {
    forall|i: int, j: int| 0 <= i < j < s.len() ==> time_le(#[trigger] s[i].0, #[trigger] s[j].0)
}

/// Every entry of an insertion is the inserted one or an entry of the sequence.
proof fn lemma_insert_from<T>(s: Seq<(Option<Timestamp>, T)>, x: (Option<Timestamp>, T), k: int)
    requires
        0 <= k < s.len() + 1,
    ensures
        insert_by_time(s, x).len() == s.len() + 1,
        insert_by_time(s, x)[k] == x || exists|m: int| 0 <= m < s.len() && insert_by_time(s, x)[k] == s[m],
    decreases s.len(),
{
    lemma_insert_len(s, x);
    if s.len() > 0 && !time_le(s.last().0, x.0) {
        let t = s.drop_last();
        if k < s.len() {
            lemma_insert_from(t, x, k);
            if insert_by_time(t, x)[k] != x {
                let m = choose|m: int| 0 <= m < t.len() && insert_by_time(t, x)[k] == t[m];
                assert(s[m] == t[m]);
            }
        } else {
            assert(insert_by_time(s, x)[k] == s[s.len() - 1]);
        }
    } else if s.len() > 0 {
        if k < s.len() {
            assert(insert_by_time(s, x)[k] == s[k]);
        }
    }
}

/// Inserting into a sorted sequence keeps it sorted.
proof fn lemma_insert_sorted<T>(s: Seq<(Option<Timestamp>, T)>, x: (Option<Timestamp>, T))
    requires
        time_sorted(s),
    ensures
        time_sorted(insert_by_time(s, x)),
    decreases s.len(),
{
    lemma_insert_len(s, x);
    if s.len() > 0 {
        if time_le(s.last().0, x.0) {
            let r = s.push(x);
            assert forall|i: int, j: int| 0 <= i < j < r.len() implies time_le(#[trigger] r[i].0, #[trigger] r[j].0) by {
                if j == s.len() {
                    assert(time_le(s[i].0, s[s.len() - 1].0) || i == s.len() - 1);
                }
            }
        } else {
            let t = s.drop_last();
            assert(time_sorted(t));
            lemma_insert_sorted(t, x);
            let u = insert_by_time(t, x);
            let r = u.push(s.last());
            assert forall|i: int, j: int| 0 <= i < j < r.len() implies time_le(#[trigger] r[i].0, #[trigger] r[j].0) by {
                if j == u.len() {
                    lemma_insert_from(t, x, i);
                    if u[i] != x {
                        let m = choose|m: int| 0 <= m < t.len() && u[i] == t[m];
                        assert(s[m] == t[m]);
                    }
                }
            }
        }
    }
}

/// Sorting by time gives a sorted sequence.
pub proof fn lemma_sorted_by_time<T>(s: Seq<(Option<Timestamp>, T)>)
    ensures
        time_sorted(sorted_by_time(s)),
    decreases s.len(),
{
    if s.len() > 0 {
        lemma_sorted_by_time(s.drop_last());
        lemma_insert_sorted(sorted_by_time(s.drop_last()), s.last());
    }
}

/// Law: a plan brings the service to exactly `desired` pods of the revision. The pods that
/// stay number `min(active, desired)`; together with those created they make `desired`;
/// and the deleted ones are the stale pods and the surplus.
pub proof fn law_plan_reaches_desired(pods: Seq<RuntimePod>, service: ServerlessService, revision: Seq<char>, desired: nat)
    ensures
        ({
            let stale = stale_upto(pods, service, revision, pods.len() as int);
            let active = active_upto(pods, service, revision, pods.len() as int);
            let plan = pod_plan_spec(pods, service, revision, desired);
            &&& plan.0.len() >= stale.len()
            &&& active.len() - (plan.0.len() - stale.len()) + plan.1 == desired
            &&& plan.0.take(stale.len() as int) == stale
        }),
{
    let stale = stale_upto(pods, service, revision, pods.len() as int);
    let active = active_upto(pods, service, revision, pods.len() as int);
    let plan = pod_plan_spec(pods, service, revision, desired);
    lemma_sorted_len(active);
    if active.len() >= desired {
        let extra = sorted_by_time(active).skip(desired as int).map_values(|e: (Option<Timestamp>, String)| e.1);
        assert(plan.0 == stale + extra);
        assert(extra.len() == active.len() - desired);
        assert((stale + extra).take(stale.len() as int) =~= stale);
    } else {
        assert(plan.0.take(stale.len() as int) =~= stale);
    }
}

/// Law: when a service has more pods than it needs, those kept were created no later than
/// any that is deleted: the surplus goes newest first.
pub proof fn law_surplus_is_newest(pods: Seq<RuntimePod>, service: ServerlessService, revision: Seq<char>, desired: nat, i: int, j: int)
    requires
        0 <= i < desired <= j,
        j < active_upto(pods, service, revision, pods.len() as int).len(),
    ensures
        ({
            let sorted = sorted_by_time(active_upto(pods, service, revision, pods.len() as int));
            time_le(sorted[i].0, sorted[j].0)
        }),
{
    let active = active_upto(pods, service, revision, pods.len() as int);
    lemma_sorted_len(active);
    lemma_sorted_by_time(active);
}

/// Law: the revision name depends on the name, image, port and environment of a service
/// alone: a change of scale or concurrency keeps the revision.
pub proof fn law_revision_ignores_scaling(a: ServerlessService, b: ServerlessService)
    requires
        a.metadata.name@ == b.metadata.name@,
        a.spec.image@ == b.spec.image@,
        a.spec.port == b.spec.port,
        a.spec.env@ == b.spec.env@,
    ensures
        revision_name_spec(a) == revision_name_spec(b),
{
}


/// How many pods an invocation asks for: what the activator counts, and at least one.
pub fn invoke_desired(active_instances: u32) -> (r: u32)
    ensures
        r == if active_instances >= 1 { active_instances } else { 1 },
{
    if active_instances >= 1 {
        active_instances
    } else {
        1
    }
}

/// Seconds an invocation waits for a cold pod to become ready.
pub const STARTUP_TIMEOUT_SECONDS: u64 = 300;

/// Milliseconds between two looks for a ready pod.
pub const READY_POLL_MILLIS: u64 = 500;

/// How many times an invocation looks for a ready pod before it gives up: two a second
/// for the whole startup timeout.
pub fn startup_attempts() -> (r: u64)
    ensures
        r == STARTUP_TIMEOUT_SECONDS * 2,
        r * READY_POLL_MILLIS == STARTUP_TIMEOUT_SECONDS * 1000,
{
    STARTUP_TIMEOUT_SECONDS * 2
}

/// The error when no pod of `service` became ready in time.
pub fn startup_timeout_message(service: &ServerlessService) -> (r: String)
    ensures
        r@ == "timed out waiting for ServerlessService "@ + namespace_of(service.metadata) + "/"@
            + service.metadata.name@ + " pod after 300s"@,
{
    let ns = object_namespace(&service.metadata);
    let mut m = concat3("timed out waiting for ServerlessService ", ns.as_str(), "/");
    m.append(service.metadata.name.as_str());
    m.append(" pod after 300s");
    m
}

/// The status a revision gets once its pods are reconciled at `now`.
pub fn revision_status_at(ready: bool, now: Timestamp) -> (r: crate::api::revision::RevisionStatus)
    ensures
        r.ready == ready,
        r.created_at == Some(now),
{
    crate::api::revision::RevisionStatus { ready, created_at: Some(now) }
}


/// Law: the pods a service should run never fall below `minScale`, never below what the
/// activator runs, and are one of the two: the activator's count, or `minScale`.
pub proof fn law_desired_respects_min_scale(active: u32, service: ServerlessService)
    ensures
        desired_instances_spec(active, service) >= service.spec.scale.min_scale,
        desired_instances_spec(active, service) >= active,
        desired_instances_spec(active, service) == active || desired_instances_spec(active, service)
            == service.spec.scale.min_scale,
{
}

/// Law: a service's pod that has ended (phase `Succeeded` or `Failed`) is always among the
/// pods the plan deletes.
pub proof fn law_ended_pods_are_deleted(pods: Seq<RuntimePod>, service: ServerlessService, revision: Seq<char>, desired: nat, i: int)
    requires
        0 <= i < pods.len(),
        is_service_pod_spec(pods[i], service),
        pods[i].phase == PodPhase::Succeeded || pods[i].phase == PodPhase::Failed,
    ensures
        pod_plan_spec(pods, service, revision, desired).0.contains(pods[i].metadata.name),
{
    lemma_stale_upto_has(pods, service, revision, pods.len() as int, i);
    let stale = stale_upto(pods, service, revision, pods.len() as int);
    let plan = pod_plan_spec(pods, service, revision, desired);
    let j = choose|j: int| 0 <= j < stale.len() && stale[j] == pods[i].metadata.name;
    assert(plan.0[j] == stale[j]);
}

proof fn lemma_stale_upto_has(pods: Seq<RuntimePod>, service: ServerlessService, revision: Seq<char>, n: int, i: int)
    requires
        0 <= i < n <= pods.len(),
        is_service_pod_spec(pods[i], service),
        pods[i].phase == PodPhase::Succeeded || pods[i].phase == PodPhase::Failed,
    ensures
        exists|j: int| 0 <= j < stale_upto(pods, service, revision, n).len()
            && stale_upto(pods, service, revision, n)[j] == pods[i].metadata.name,
    decreases n,
{
    let s = stale_upto(pods, service, revision, n);
    if i == n - 1 {
        assert(s[s.len() - 1] == pods[i].metadata.name);
    } else {
        lemma_stale_upto_has(pods, service, revision, n - 1, i);
        let p = stale_upto(pods, service, revision, n - 1);
        let j = choose|j: int| 0 <= j < p.len() && p[j] == pods[i].metadata.name;
        assert(s[j] == p[j]);
    }
}

/// Law: every pod a plan keeps is one of the service's pods that runs the wanted revision
/// and has not ended.
pub proof fn law_kept_pods_run_the_revision(pods: Seq<RuntimePod>, service: ServerlessService, revision: Seq<char>, n: int, j: int)
    requires
        0 <= n <= pods.len(),
        0 <= j < active_upto(pods, service, revision, n).len(),
    ensures
        exists|i: int| #![trigger pods[i]]
            0 <= i < n && is_service_pod_spec(pods[i], service)
                && pods[i].phase != PodPhase::Succeeded && pods[i].phase != PodPhase::Failed
                && lookup(pods[i].metadata.labels@, REVISION_LABEL@) == Some(revision)
                && active_upto(pods, service, revision, n)[j] == (pods[i].metadata.creation_timestamp, pods[i].metadata.name),
    decreases n,
{
    let a = active_upto(pods, service, revision, n);
    let p = active_upto(pods, service, revision, n - 1);
    if is_service_pod_spec(pods[n - 1], service) && !is_stale_spec(pods[n - 1], revision) && j == p.len() {
        assert(a[j] == (pods[n - 1].metadata.creation_timestamp, pods[n - 1].metadata.name));
    } else {
        assert(a[j] == p[j]);
        law_kept_pods_run_the_revision(pods, service, revision, n - 1, j);
    }
}

} // verus!
