//! The `kn` command line: function configuration, images, runtimes and templates.

pub mod cargo;
pub mod runtime;
pub mod templates;

use crate::api::service::{ServerlessConcurrency, ServerlessScale, ServerlessService, ServerlessServiceSpec};
use crate::meta::{lookup, map_insert, ObjectMeta, StringMap, DEFAULT_NAMESPACE};
use crate::text::{all_ws, chars_of, concat2, concat3, decimal, decimal_text, find_char, wide_decimal_text, first_index_of, is_blank, owned, slice_chars, string_of};
use vstd::prelude::*;

verus! {

/// Runtime a function has when its configuration names none.
pub fn default_runtime() -> (r: String)
    ensures
        r@ == "python"@,
{
    owned("python")
}

/// Port a function listens on when its configuration names none.
pub fn default_port() -> (r: u16)
    ensures
        r == 8080,
{
    8080
}

/// Requests per instance when the configuration names none.
pub fn default_target_concurrency() -> (r: u32)
    ensures
        r == 10,
{
    10
}

/// Instance bound when the configuration names none.
pub fn default_max_scale() -> (r: u32)
    ensures
        r == 10,
{
    10
}

/// Idle seconds before scaling down when the configuration names none.
pub fn default_idle_seconds() -> (r: u64)
    ensures
        r == 60,
{
    60
}

/// A function directory's `func.yaml`.
#[derive(Clone, Debug, PartialEq, Eq)]
pub struct FuncConfig {
    pub name: String,
    pub runtime: String,
    pub port: u16,
    pub env: StringMap,
    pub scale: FuncScale,
    pub concurrency: FuncConcurrency,
}

/// Scaling section of `func.yaml`.
#[derive(Clone, Copy, Debug, PartialEq, Eq, Structural)]
pub struct FuncScale {
    pub min_scale: u32,
    pub max_scale: u32,
    pub idle_seconds: u64,
}

/// Concurrency section of `func.yaml`.
#[derive(Clone, Copy, Debug, PartialEq, Eq, Structural)]
pub struct FuncConcurrency {
    pub target: u32,
}

impl Default for FuncScale {
    fn default() -> (r: Self)
        ensures
            r.min_scale == 0,
            r.max_scale == 10,
            r.idle_seconds == 60,
    {
        FuncScale { min_scale: 0, max_scale: default_max_scale(), idle_seconds: default_idle_seconds() }
    }
}

impl Default for FuncConcurrency {
    fn default() -> (r: Self)
        ensures
            r.target == 10,
    {
        FuncConcurrency { target: default_target_concurrency() }
    }
}

/// The configuration a new function `name` of `runtime` starts with: port 8080, no
/// environment, between zero and ten instances, ten requests per instance, sixty idle
/// seconds.
pub open spec fn new_config_spec(c: FuncConfig, name: Seq<char>, runtime: Seq<char>) -> bool {
    &&& c.name@ == name
    &&& c.runtime@ == runtime
    &&& c.port == 8080
    &&& c.env@.len() == 0
    &&& c.scale == FuncScale { min_scale: 0, max_scale: 10, idle_seconds: 60 }
    &&& c.concurrency == FuncConcurrency { target: 10 }
}

/// The configuration written for a new function.
pub fn new_config(name: &str, runtime: &str) -> (r: FuncConfig)
    ensures
        new_config_spec(r, name@, runtime@),
{
    FuncConfig {
        name: owned(name),
        runtime: owned(runtime),
        port: default_port(),
        env: StringMap::new(),
        scale: FuncScale::default(),
        concurrency: FuncConcurrency::default(),
    }
}

/// The configuration of a directory without `func.yaml`: a Python function named after the
/// directory, or an error when the directory has no usable name.
pub fn fallback_config(dir_name: Option<String>, dir_display: &str) -> (r: Result<FuncConfig, String>)
    ensures
        match dir_name {
            Some(n) => r matches Ok(c) && new_config_spec(c, n@, "python"@),
            None => r matches Err(m) && m@ == "failed to infer function name from "@ + dir_display@,
        },
{
    match dir_name {
        Some(n) => Ok(new_config(n.as_str(), "python")),
        None => Err(concat2("failed to infer function name from ", dir_display)),
    }
}

/// `s` without the characters `c` at its end (`trim_end_matches`).
pub open spec fn trim_end_char(s: Seq<char>, c: char) -> Seq<char>
    decreases s.len(),
{
    if s.len() > 0 && s.last() == c {
        trim_end_char(s.drop_last(), c)
    } else {
        s
    }
}

fn trim_end_slashes(s: &str) -> (r: String)
    ensures
        r@ == trim_end_char(s@, '/'),
{
    let v = chars_of(s);
    let mut k: usize = v.len();
    assert(v@.take(k as int) =~= v@);
    while k > 0 && v[k - 1] == '/'
        invariant
            v@ == s@,
            k <= v@.len(),
            trim_end_char(s@, '/') == trim_end_char(v@.take(k as int), '/'),
        decreases k,
    {
        assert(v@.take(k as int).drop_last() =~= v@.take(k - 1));
        k = k - 1;
    }
    assert(trim_end_char(v@.take(k as int), '/') == v@.take(k as int));
    let w = slice_chars(&v, 0, k);
    assert(v@.subrange(0, k as int) =~= v@.take(k as int));
    string_of(w.as_slice())
}

/// The image a deploy uses: the one given, else `<registry>/<name>:latest` with the
/// registry's trailing slashes dropped; without either it is an error.
pub open spec fn resolve_image_spec(image: Option<Seq<char>>, registry: Option<Seq<char>>, name: Seq<char>) -> Result<Seq<char>, Seq<char>> {
    match image {
        Some(i) => Ok(i),
        None => match registry {
            Some(reg) => Ok(trim_end_char(reg, '/') + "/"@ + name + ":latest"@),
            None => Err("--registry is required unless --image is set"@),
        },
    }
}

/// The image to build and deploy.
pub fn resolve_image(image: Option<String>, registry: Option<String>, name: &str) -> (r: Result<String, String>)
    ensures
        crate::json::text_result(r) == resolve_image_spec(
            crate::status::opt_view(image),
            crate::status::opt_view(registry),
            name@,
        ),
{
    match image {
        Some(i) => Ok(i),
        None => match registry {
            Some(reg) => {
                let base = trim_end_slashes(reg.as_str());
                let mut r = concat3(base.as_str(), "/", name);
                r.append(":latest");
                Ok(r)
            },
            None => Err(owned("--registry is required unless --image is set")),
        },
    }
}

/// The problem with one `--env` item, if any: no `=`, or a blank name.
pub open spec fn env_item_error(item: Seq<char>) -> Option<Seq<char>> {
    match first_index_of(item, '=') {
        None => Some("--env must use NAME=VALUE, got "@ + item),
        Some(i) => if all_ws(item.take(i)) {
            Some("--env name must not be empty"@)
        } else {
            None
        },
    }
}

/// The name and value of a well-formed `--env` item: the text around its first `=`.
pub open spec fn env_item_pair(item: Seq<char>) -> (Seq<char>, Seq<char>) {
    let i = first_index_of(item, '=').unwrap();
    (item.take(i), item.skip(i + 1))
}

/// The first problem among the first `n` items, if any.
pub open spec fn env_error_upto(items: Seq<Seq<char>>, n: int) -> Option<Seq<char>>
    decreases n,
{
    if n <= 0 {
        None
    } else {
        match env_error_upto(items, n - 1) {
            Some(e) => Some(e),
            None => env_item_error(items[n - 1]),
        }
    }
}

/// The value the first `n` items give `name`: that of the last item naming it.
pub open spec fn env_value_upto(items: Seq<Seq<char>>, n: int, name: Seq<char>) -> Option<Seq<char>>
    decreases n,
{
    if n <= 0 {
        None
    } else if env_item_pair(items[n - 1]).0 == name {
        Some(env_item_pair(items[n - 1]).1)
    } else {
        env_value_upto(items, n - 1, name)
    }
}

/// Splits one `--env` item into its name and value, or says what is wrong with it.
fn parse_env_item(item: &String) -> (r: Result<(String, String), String>)
    ensures
        match env_item_error(item@) {
            Some(e) => r matches Err(m) && m@ == e,
            None => r matches Ok(p) && (p.0@, p.1@) == env_item_pair(item@),
        },
{
    let v = chars_of(item.as_str());
    match find_char(&v, '=') {
        None => Err(concat2("--env must use NAME=VALUE, got ", item.as_str())),
        Some(eq) => {
            let n = v.len();
            assert(eq < n);
            let name_chars = slice_chars(&v, 0, eq);
            let value_chars = slice_chars(&v, eq + 1, n);
            let name = string_of(name_chars.as_slice());
            proof {
                assert(v@.subrange(0, eq as int) =~= item@.take(eq as int));
                assert(v@.subrange(eq + 1, v@.len() as int) =~= item@.skip(eq + 1));
            }
            if is_blank(name.as_str()) {
                return Err(owned("--env name must not be empty"));
            }
            let value = string_of(value_chars.as_slice());
            Ok((name, value))
        },
    }
}

/// Parses `--env NAME=VALUE` items into a key-ordered map, a later item overriding an
/// earlier one with the same name; the first malformed item is the error.
pub fn parse_env(items: &Vec<String>) -> (r: Result<StringMap, String>)
    ensures
        match env_error_upto(items@.map_values(|s: String| s@), items@.len() as int) {
            Some(e) => r matches Err(m) && m@ == e,
            None => r matches Ok(env) && forall|k: Seq<char>|
                #[trigger] lookup(env@, k) == env_value_upto(
                    items@.map_values(|s: String| s@),
                    items@.len() as int,
                    k,
                ),
        },
{
    let ghost iv = items@.map_values(|s: String| s@);
    let mut env: StringMap = StringMap::new();
    let mut i: usize = 0;
    while i < items.len()
        invariant
            i <= items@.len(),
            iv == items@.map_values(|s: String| s@),
            env_error_upto(iv, i as int).is_none(),
            forall|k: Seq<char>| #[trigger] lookup(env@, k) == env_value_upto(iv, i as int, k),
        decreases items@.len() - i,
    {
        assert(iv[i as int] == items@[i as int]@);
        match parse_env_item(&items[i]) {
            Err(m) => {
                proof {
                    lemma_env_error_stays(iv, i + 1, items@.len() as int);
                }
                return Err(m);
            },
            Ok(pair) => {
                let (name, value) = pair;
                let ghost before = env@;
                let ghost nv = name@;
                let ghost vv = value@;
                map_insert(&mut env, name, value);
                proof {
                    assert forall|k: Seq<char>| #[trigger] lookup(env@, k) == env_value_upto(iv, i + 1, k) by {
                        assert(lookup(env@, k) == if k == nv {
                            Some(vv)
                        } else {
                            lookup(before, k)
                        });
                    }
                }
            },
        }
        i = i + 1;
    }
    Ok(env)
}

/// Once an item is bad, every longer prefix reports the same first problem.
proof fn lemma_env_error_stays(items: Seq<Seq<char>>, n: int, m: int)
    requires
        0 <= n <= m,
        env_error_upto(items, n).is_some(),
    ensures
        env_error_upto(items, m) == env_error_upto(items, n),
    decreases m - n,
{
    if m > n {
        lemma_env_error_stays(items, n, m - 1);
    }
}

/// The namespace named, or the default one.
pub fn namespace_or_default(namespace: Option<String>) -> (r: String)
    ensures
        r@ == match namespace {
            Some(n) => n@,
            None => DEFAULT_NAMESPACE@,
        },
{
    match namespace {
        Some(n) => n,
        None => owned(DEFAULT_NAMESPACE),
    }
}

/// The service a function deploy applies: named after the function, in `namespace`, running
/// `image` with the configuration's port, environment, scale and concurrency.
pub fn service_from_config(namespace: &str, config: &FuncConfig, image: &str) -> (r: ServerlessService)
    ensures
        r.metadata.name == config.name,
        r.metadata.namespace@ == namespace@,
        r.spec.image@ == image@,
        r.spec.port == config.port,
        r.spec.env@ == config.env@,
        r.spec.scale == (ServerlessScale {
            min_scale: config.scale.min_scale,
            max_scale: config.scale.max_scale,
            idle_seconds: config.scale.idle_seconds,
        }),
        r.spec.concurrency == (ServerlessConcurrency { target: config.concurrency.target }),
        r.types.kind@ == "ServerlessService"@,
{
    let spec = ServerlessServiceSpec {
        image: owned(image),
        port: config.port,
        env: crate::pods::copy_map(&config.env),
        scale: ServerlessScale {
            min_scale: config.scale.min_scale,
            max_scale: config.scale.max_scale,
            idle_seconds: config.scale.idle_seconds,
        },
        concurrency: ServerlessConcurrency { target: config.concurrency.target },
    };
    ServerlessService::new(ObjectMeta::named(config.name.clone(), owned(namespace)), spec)
}

/// The service `kn service create` applies: the given name, image, port, bounds,
/// concurrency and environment, the default idle period, in the namespace named or the
/// default one.
pub fn service_from_args(
    name: &str,
    image: String,
    port: u16,
    namespace: Option<String>,
    min_scale: u32,
    max_scale: u32,
    target_concurrency: u32,
    env: StringMap,
) -> (r: ServerlessService)
    ensures
        r.metadata.name@ == name@,
        r.metadata.namespace@ == match namespace {
            Some(n) => n@,
            None => DEFAULT_NAMESPACE@,
        },
        r.spec.image == image,
        r.spec.port == port,
        r.spec.env == env,
        r.spec.scale == (ServerlessScale { min_scale, max_scale, idle_seconds: 60 }),
        r.spec.concurrency == (ServerlessConcurrency { target: target_concurrency }),
        r.types.kind@ == "ServerlessService"@,
{
    let ns = namespace_or_default(namespace);
    let spec = ServerlessServiceSpec {
        image,
        port,
        env,
        scale: ServerlessScale { min_scale, max_scale, idle_seconds: default_idle_seconds() },
        concurrency: ServerlessConcurrency { target: target_concurrency },
    };
    ServerlessService::new(ObjectMeta::named(owned(name), ns), spec)
}

/// Whether a deploy pushes and applies: it pushes unless told not to, and applies unless
/// told not to.
pub fn deploy_steps(push: bool, no_push: bool, no_deploy: bool) -> (r: (bool, bool))
    ensures
        r == (push && !no_push, !no_deploy),
{
    (push && !no_push, !no_deploy)
}

/// Directories a build copy leaves out: `.git` and `target`.
pub fn copy_skips_dir(name: &str) -> (r: bool)
    ensures
        r == (name@ == ".git"@ || name@ == "target"@),
{
    let n = owned(name);
    n == owned(".git") || n == owned("target")
}

/// Name of a temporary build directory: `minik8s-kn-<name>-<pid>-<nanos>`.
pub fn context_dir_name(name: &str, pid: u32, nanos: u128) -> (r: String)
    ensures
        r@ == "minik8s-kn-"@ + name@ + "-"@ + decimal(pid as nat) + "-"@ + decimal(nanos as nat),
{
    let mut r = concat3("minik8s-kn-", name, "-");
    let p = decimal_text(pid as u64);
    r.append(p.as_str());
    r.append("-");
    let t = wide_decimal_text(nanos);
    r.append(t.as_str());
    r
}

} // verus!
