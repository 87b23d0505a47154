//! Which binary a Rust function's package builds, read from `cargo metadata`.

use crate::json::{json_as_str, json_get, parse_json_bytes, JsonValue, JsonView};
use crate::text::{concat3, owned};
use vstd::prelude::*;

verus! {

/// The items of an array value.
pub open spec fn json_as_array(v: JsonView) -> Option<Seq<JsonView>> {
    match v {
        JsonView::Array(xs) => Some(xs),
        _ => None,
    }
}

/// The text of field `k` of an object, when it is a string.
pub open spec fn str_field(v: JsonView, k: Seq<char>) -> Option<Seq<char>> {
    match json_get(v, k) {
        Some(x) => json_as_str(x),
        None => None,
    }
}

/// The items of field `k` of an object, when it is an array.
pub open spec fn array_field(v: JsonView, k: Seq<char>) -> Option<Seq<JsonView>> {
    match json_get(v, k) {
        Some(x) => json_as_array(x),
        None => None,
    }
}

/// The first package among the first `n` whose `id` is `id`.
pub open spec fn first_with_id(ps: Seq<JsonView>, id: Seq<char>, n: int) -> Option<int>
    decreases n,
{
    if n <= 0 {
        None
    } else {
        match first_with_id(ps, id, n - 1) {
            Some(i) => Some(i),
            None => if str_field(ps[n - 1], "id"@) == Some(id) {
                Some(n - 1)
            } else {
                None
            },
        }
    }
}

/// The first position among the first `n` marked true.
pub open spec fn first_marked(marks: Seq<bool>, n: int) -> Option<int>
    decreases n,
{
    if n <= 0 {
        None
    } else {
        match first_marked(marks, n - 1) {
            Some(i) => Some(i),
            None => if n - 1 < marks.len() && marks[n - 1] {
                Some(n - 1)
            } else {
                None
            },
        }
    }
}

/// A target whose `kind` list holds `"bin"`.
pub open spec fn is_bin_target(t: JsonView) -> bool {
    match array_field(t, "kind"@) {
        Some(kinds) => exists|k: int| 0 <= k < kinds.len() && json_as_str(#[trigger] kinds[k]) == Some("bin"@),
        None => false,
    }
}

/// The first binary target among the first `n`.
pub open spec fn first_bin(ts: Seq<JsonView>, n: int) -> Option<int>
    decreases n,
{
    if n <= 0 {
        None
    } else {
        match first_bin(ts, n - 1) {
            Some(i) => Some(i),
            None => if is_bin_target(ts[n - 1]) {
                Some(n - 1)
            } else {
                None
            },
        }
    }
}

/// The package the function builds. With a `root_package` id, the package with that id;
/// without one, the first package whose manifest is the directory's `Cargo.toml`
/// (`manifest_matches`, by package position), else the only package.
pub open spec fn root_package_spec(metadata: JsonView, packages: Seq<JsonView>, manifest_matches: Seq<bool>) -> Result<JsonView, Seq<char>> {
    match str_field(metadata, "root_package"@) {
        Some(id) => match first_with_id(packages, id, packages.len() as int) {
            Some(i) => Ok(packages[i]),
            None => Err("cargo metadata root package "@ + id + " was not found"@),
        },
        None => match first_marked(manifest_matches, packages.len() as int) {
            Some(i) => Ok(packages[i]),
            None => if packages.len() == 1 {
                Ok(packages[0])
            } else {
                Err("cargo metadata did not report a package for Cargo.toml"@)
            },
        },
    }
}

/// The name of the package's first binary target, or why there is none.
pub open spec fn binary_name_spec(metadata: JsonView, manifest_matches: Seq<bool>) -> Result<Seq<char>, Seq<char>> {
    match array_field(metadata, "packages"@) {
        None => Err("cargo metadata did not report packages"@),
        Some(packages) => match root_package_spec(metadata, packages, manifest_matches) {
            Err(e) => Err(e),
            Ok(package) => match array_field(package, "targets"@) {
                None => Err("cargo metadata root package has no targets"@),
                Some(targets) => match first_bin(targets, targets.len() as int) {
                    None => Err("cargo package does not define a binary target"@),
                    Some(j) => match str_field(targets[j], "name"@) {
                        Some(name) => Ok(name),
                        None => Err("cargo binary target is missing name"@),
                    },
                },
            },
        },
    }
}

impl JsonValue {
    /// `Value::as_array`: the items of an array value.
    pub fn as_array(&self) -> (r: Option<&Vec<JsonValue>>)
        ensures
            r.is_some() == json_as_array(self@).is_some(),
            r.is_some() ==> r.unwrap()@.len() == json_as_array(self@).unwrap().len(),
            r.is_some() ==> forall|i: int|
                0 <= i < r.unwrap()@.len() ==> (#[trigger] r.unwrap()@[i])@ == json_as_array(self@).unwrap()[i],
    {
        match self {
            JsonValue::Array(xs) => Some(xs),
            _ => None,
        }
    }
}

fn get_str<'a>(v: &'a JsonValue, k: &str) -> (r: Option<&'a String>)
    ensures
        r.is_some() == str_field(v@, k@).is_some(),
        r.is_some() ==> r.unwrap()@ == str_field(v@, k@).unwrap(),
{
    match v.get(k) {
        Some(x) => x.as_str(),
        None => None,
    }
}

fn get_array<'a>(v: &'a JsonValue, k: &str) -> (r: Option<&'a Vec<JsonValue>>)
    ensures
        r.is_some() == array_field(v@, k@).is_some(),
        r.is_some() ==> r.unwrap()@.len() == array_field(v@, k@).unwrap().len(),
        r.is_some() ==> forall|i: int|
            0 <= i < r.unwrap()@.len() ==> (#[trigger] r.unwrap()@[i])@ == array_field(v@, k@).unwrap()[i],
{
    match v.get(k) {
        Some(x) => x.as_array(),
        None => None,
    }
}

/// Reads `cargo metadata` output: the JSON it printed, or an error naming the directory.
pub fn parse_cargo_metadata(stdout: &[u8], dir_display: &str) -> (r: Result<JsonValue, String>)
    ensures
        match crate::json::json_from_bytes(stdout@) {
            Ok(v) => r matches Ok(m) && m@ == v,
            Err(e) => r matches Err(m) && m@ == "failed to parse cargo metadata for "@ + dir_display@ + ": "@ + e,
        },
{
    match parse_json_bytes(stdout) {
        Ok(v) => Ok(v),
        Err(e) => {
            let mut m = concat3("failed to parse cargo metadata for ", dir_display, ": ");
            m.append(e.as_str());
            Err(m)
        },
    }
}

/// Whether choosing the package needs to know which manifests are the directory's own:
/// only when the metadata names no root package.
pub fn needs_manifest_match(metadata: &JsonValue) -> (r: bool)
    ensures
        r == str_field(metadata@, "root_package"@).is_none(),
{
    get_str(metadata, "root_package").is_none()
}

/// The `manifest_path` of each package, by position; none for a package without one.
pub fn manifest_paths(metadata: &JsonValue) -> (r: Vec<Option<String>>)
    ensures
        match array_field(metadata@, "packages"@) {
            Some(ps) => r@.len() == ps.len() && forall|i: int| 0 <= i < ps.len() ==> match #[trigger] r@[i] {
                Some(p) => str_field(ps[i], "manifest_path"@) == Some(p@),
                None => str_field(ps[i], "manifest_path"@).is_none(),
            },
            None => r@.len() == 0,
        },
{
    let mut r: Vec<Option<String>> = Vec::new();
    match get_array(metadata, "packages") {
        Some(ps) => {
            let ghost pv = array_field(metadata@, "packages"@).unwrap();
            let mut i: usize = 0;
            while i < ps.len()
                invariant
                    i <= ps@.len(),
                    ps@.len() == pv.len(),
                    forall|j: int| 0 <= j < ps@.len() ==> (#[trigger] ps@[j])@ == pv[j],
                    r@.len() == i,
                    forall|j: int| 0 <= j < i ==> match #[trigger] r@[j] {
                        Some(p) => str_field(pv[j], "manifest_path"@) == Some(p@),
                        None => str_field(pv[j], "manifest_path"@).is_none(),
                    },
                decreases ps@.len() - i,
            {
                assert(ps@[i as int]@ == pv[i as int]);
                match get_str(&ps[i], "manifest_path") {
                    Some(p) => r.push(Some(p.clone())),
                    None => r.push(None),
                }
                i = i + 1;
            }
        },
        None => {},
    }
    r
}

fn find_by_id<'a>(ps: &'a Vec<JsonValue>, id: &String) -> (r: Option<&'a JsonValue>)
    ensures
        match first_with_id(ps@.map_values(|p: JsonValue| p@), id@, ps@.len() as int) {
            Some(i) => 0 <= i < ps@.len() && (r matches Some(p) && p@ == ps@[i]@),
            None => r.is_none(),
        },
{
    let ghost pv = ps@.map_values(|p: JsonValue| p@);
    let mut i: usize = 0;
    while i < ps.len()
        invariant
            i <= ps@.len(),
            pv == ps@.map_values(|p: JsonValue| p@),
            first_with_id(pv, id@, i as int).is_none(),
        decreases ps@.len() - i,
    {
        assert(pv[i as int] == ps@[i as int]@);
        match get_str(&ps[i], "id") {
            Some(pid) => {
                if *pid == *id {
                    proof {
                        assert(first_with_id(pv, id@, i + 1) == Some(i as int));
                        lemma_first_with_id_stays(pv, id@, i + 1, ps@.len() as int);
                    }
                    return Some(&ps[i]);
                }
            },
            None => {},
        }
        i = i + 1;
    }
    None
}

proof fn lemma_first_with_id_stays(ps: Seq<JsonView>, id: Seq<char>, n: int, m: int)
    requires
        0 <= n <= m,
        first_with_id(ps, id, n).is_some(),
    ensures
        first_with_id(ps, id, m) == first_with_id(ps, id, n),
    decreases m - n,
{
    if m > n {
        lemma_first_with_id_stays(ps, id, n, m - 1);
    }
}

proof fn lemma_first_marked_stays(marks: Seq<bool>, n: int, m: int)
    requires
        0 <= n <= m,
        first_marked(marks, n).is_some(),
    ensures
        first_marked(marks, m) == first_marked(marks, n),
    decreases m - n,
{
    if m > n {
        lemma_first_marked_stays(marks, n, m - 1);
    }
}

proof fn lemma_first_bin_stays(ts: Seq<JsonView>, n: int, m: int)
    requires
        0 <= n <= m,
        first_bin(ts, n).is_some(),
    ensures
        first_bin(ts, m) == first_bin(ts, n),
    decreases m - n,
{
    if m > n {
        lemma_first_bin_stays(ts, n, m - 1);
    }
}

fn find_marked(n: usize, marks: &Vec<bool>) -> (r: Option<usize>)
    ensures
        match first_marked(marks@, n as int) {
            Some(i) => r.is_some() && r.unwrap() as int == i,
            None => r.is_none(),
        },
        r.is_some() ==> r.unwrap() < n,
{
    let mut i: usize = 0;
    while i < n
        invariant
            i <= n,
            first_marked(marks@, i as int).is_none(),
        decreases n - i,
    {
        if i < marks.len() && marks[i] {
            proof {
                assert(first_marked(marks@, i + 1) == Some(i as int));
                lemma_first_marked_stays(marks@, i + 1, n as int);
            }
            return Some(i);
        }
        i = i + 1;
    }
    None
}

fn has_bin_kind(t: &JsonValue) -> (r: bool)
    ensures
        r == is_bin_target(t@),
{
    match get_array(t, "kind") {
        Some(kinds) => {
            let ghost kv = array_field(t@, "kind"@).unwrap();
            let bin = owned("bin");
            let mut k: usize = 0;
            while k < kinds.len()
                invariant
                    k <= kinds@.len(),
                    array_field(t@, "kind"@) == Some(kv),
                    kinds@.len() == kv.len(),
                    bin@ == "bin"@,
                    forall|j: int| 0 <= j < kinds@.len() ==> (#[trigger] kinds@[j])@ == kv[j],
                    forall|j: int| 0 <= j < k ==> json_as_str(#[trigger] kv[j]) != Some("bin"@),
                decreases kinds@.len() - k,
            {
                assert(kinds@[k as int]@ == kv[k as int]);
                match kinds[k].as_str() {
                    Some(s) => {
                        if *s == bin {
                            proof {
                                assert(s@ == "bin"@);
                                assert(json_as_str(kinds@[k as int]@) == Some(s@));
                                assert(json_as_str(kv[k as int]) == Some("bin"@));
                                assert(array_field(t@, "kind"@) == Some(kv));
                                assert(is_bin_target(t@));
                            }
                            return true;
                        }
                    },
                    None => {},
                }
                k = k + 1;
            }
            false
        },
        None => false,
    }
}

fn package_binary(package: &JsonValue) -> (r: Result<String, String>)
    ensures
        crate::json::text_result(r) == match array_field(package@, "targets"@) {
            None => Err("cargo metadata root package has no targets"@),
            Some(targets) => match first_bin(targets, targets.len() as int) {
                None => Err("cargo package does not define a binary target"@),
                Some(j) => match str_field(targets[j], "name"@) {
                    Some(name) => Ok(name),
                    None => Err("cargo binary target is missing name"@),
                },
            },
        },
{
    match get_array(package, "targets") {
        None => Err(owned("cargo metadata root package has no targets")),
        Some(ts) => {
            let ghost tv = array_field(package@, "targets"@).unwrap();
            let mut i: usize = 0;
            while i < ts.len()
                invariant
                    i <= ts@.len(),
                    array_field(package@, "targets"@) == Some(tv),
                    ts@.len() == tv.len(),
                    forall|j: int| 0 <= j < ts@.len() ==> (#[trigger] ts@[j])@ == tv[j],
                    first_bin(tv, i as int).is_none(),
                decreases ts@.len() - i,
            {
                assert(ts@[i as int]@ == tv[i as int]);
                if has_bin_kind(&ts[i]) {
                    proof {
                        assert(first_bin(tv, i + 1) == Some(i as int));
                        lemma_first_bin_stays(tv, i + 1, tv.len() as int);
                        assert(first_bin(tv, tv.len() as int) == Some(i as int));
                    }
                    return match get_str(&ts[i], "name") {
                        Some(n) => Ok(n.clone()),
                        None => Err(owned("cargo binary target is missing name")),
                    };
                }
                i = i + 1;
            }
            Err(owned("cargo package does not define a binary target"))
        },
    }
}

/// The binary target a Rust function's package builds, given the metadata `cargo`
/// reported and, by package position, whether each package's manifest is the function
/// directory's `Cargo.toml`.
pub fn select_binary_name(metadata: &JsonValue, manifest_matches: &Vec<bool>) -> (r: Result<String, String>)
    ensures
        crate::json::text_result(r) == binary_name_spec(metadata@, manifest_matches@),
{
    let ps = match get_array(metadata, "packages") {
        Some(ps) => ps,
        None => return Err(owned("cargo metadata did not report packages")),
    };
    let ghost pv = array_field(metadata@, "packages"@).unwrap();
    assert(ps@.map_values(|p: JsonValue| p@) =~= pv);
    let package = match get_str(metadata, "root_package") {
        Some(id) => match find_by_id(ps, id) {
            Some(p) => {
                proof {
                    let i = first_with_id(pv, id@, pv.len() as int).unwrap();
                    assert(pv[i] == ps@[i]@);
                    assert(root_package_spec(metadata@, pv, manifest_matches@) == Ok::<JsonView, Seq<char>>(p@));
                }
                p
            },
            None => return Err(concat3("cargo metadata root package ", id.as_str(), " was not found")),
        },
        None => match find_marked(ps.len(), manifest_matches) {
            Some(i) => {
                proof {
                    assert(pv.len() == ps@.len());
                    assert(first_marked(manifest_matches@, pv.len() as int) == Some(i as int));
                    assert(pv[i as int] == ps@[i as int]@);
                    assert(root_package_spec(metadata@, pv, manifest_matches@) == Ok::<JsonView, Seq<char>>(ps@[i as int]@));
                }
                &ps[i]
            },
            None => {
                if ps.len() == 1 {
                    proof {
                        assert(pv.len() == ps@.len());
                        assert(pv[0] == ps@[0]@);
                        assert(root_package_spec(metadata@, pv, manifest_matches@) == Ok::<JsonView, Seq<char>>(ps@[0]@));
                    }
                    &ps[0]
                } else {
                    return Err(owned("cargo metadata did not report a package for Cargo.toml"));
                }
            },
        },
    };
    package_binary(package)
}

} // verus!
