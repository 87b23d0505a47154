# serverless

The verified core of a Knative-like serverless plugin for Minik8s, written in Verus.

- `src/` is the library. Verus proves the contract of each of its functions, except the
  small `#[verifier::external_body]` wrappers around calls into std, `chrono`, `cron`,
  `uuid`, `getrandom` and `serde_json`, whose contracts are trusted (each says in its doc comment what
  it claims of the call):
  - `api/`: the resources (`ServerlessService`, `Function`, `Revision`, `EventTrigger`,
    `EventSource`, `Workflow`, `CloudEvent`), their defaults and spec validation;
  - `runtime.rs`: the activator's per-service counts (requests in flight, instances),
    scale-up under load, scale-down when idle, and the laws that tie them together;
  - `pods.rs`: what the controller asks of the cluster: revision names, labels, pod and
    `Service` manifests, which pods to delete or create, orphan clean-up, ready pods;
  - `routing.rs`, `flow.rs`: workflow branches, reachable functions, a workflow run;
  - `source.rs`, `broker.rs`: event sources (interval, cron, file) and the broker's fan-out;
  - `status.rs`, `gateway.rs`, `http.rs`, `python.rs`: statuses, HTTP replies and
    requests, the inline Python runner;
  - `kn/`: the `kn` command line's configuration, templates, runtimes and image builds;
  - `text.rs`, `json.rs`, `meta.rs`, `keyed.rs`, `time.rs`: the plain data underneath.
- `tests/` runs the library on concrete values.
- `app/` is the I/O around it: the controller and activator processes and the `kn` binary.
