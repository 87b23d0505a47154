//! Object metadata shared by every resource, and string-keyed maps kept as
//! key-sorted vectors of pairs.

use crate::text::{all_ws, chars_less, chars_of, is_blank, lemma_str_lt_irreflexive, lemma_str_lt_total, lemma_str_lt_transitive, owned, str_lt};
use crate::time::Timestamp;
use vstd::prelude::*;

verus! {

/// Namespace used when an object names none.
pub const DEFAULT_NAMESPACE: &'static str = "default";

/// A string-to-string map (labels, environment), kept sorted by key with no key twice,
/// as a `BTreeMap<String, String>` is.
#[derive(Debug, PartialEq, Eq)]
pub struct StringMap {
    pairs: Vec<(String, String)>,
}

impl View for StringMap {
    type V = Seq<(Seq<char>, Seq<char>)>;

    /// The pairs in key order.
    closed spec fn view(&self) -> Seq<(Seq<char>, Seq<char>)> {
        pairs_view(self.pairs@)
    }
}

impl StringMap {
    #[verifier::type_invariant]
    closed spec fn inv(self) -> bool {
        keys_sorted(pairs_view(self.pairs@))
    }

    /// The empty map.
    pub fn new() -> (r: StringMap)
        ensures
            r@ == Seq::<(Seq<char>, Seq<char>)>::empty(),
    {
        let r = StringMap { pairs: Vec::new() };
        assert(r@ =~= Seq::<(Seq<char>, Seq<char>)>::empty());
        r
    }

    /// The map holding `pairs`, whose keys strictly increase.
    pub fn from_sorted(pairs: Vec<(String, String)>) -> (r: StringMap)
        requires
            keys_sorted(pairs_view(pairs@)),
        ensures
            r@ == pairs_view(pairs@),
    {
        StringMap { pairs }
    }

    /// The pairs in key order; their keys strictly increase.
    pub fn pairs(&self) -> (r: &Vec<(String, String)>)
        ensures
            pairs_view(r@) == self@,
            keys_sorted(self@),
    {
        proof {
            use_type_invariant(self);
        }
        &self.pairs
    }

    /// The number of keys.
    pub fn len(&self) -> (r: usize)
        ensures
            r == self@.len(),
            keys_sorted(self@),
    {
        proof {
            use_type_invariant(self);
        }
        self.pairs.len()
    }

    /// A copy of the map.
    pub fn copy(&self) -> (r: StringMap)
        ensures
            r@ == self@,
    {
        proof {
            use_type_invariant(self);
        }
        let m = &self.pairs;
        let mut r: Vec<(String, String)> = Vec::new();
        let mut i: usize = 0;
        while i < m.len()
            invariant
                i <= m@.len(),
                r@.len() == i,
                pairs_view(r@) == pairs_view(m@).take(i as int),
            decreases m@.len() - i,
        {
            let ghost before = r@;
            r.push((m[i].0.clone(), m[i].1.clone()));
            proof {
                let want = pairs_view(m@).take(i + 1);
                assert forall|j: int| 0 <= j < i + 1 implies pairs_view(r@)[j] == want[j] by {
                    if j < i {
                        assert(r@[j] == before[j]);
                        assert(pairs_view(before)[j] == pairs_view(m@).take(i as int)[j]);
                    }
                }
                assert(pairs_view(r@) =~= want);
            }
            i = i + 1;
        }
        assert(pairs_view(m@).take(m@.len() as int) =~= pairs_view(m@));
        StringMap { pairs: r }
    }
}

impl Clone for StringMap {
    fn clone(&self) -> (r: StringMap)
        ensures
            r@ == self@,
    {
        self.copy()
    }
}

impl Default for StringMap {
    fn default() -> (r: StringMap)
        ensures
            r@ == Seq::<(Seq<char>, Seq<char>)>::empty(),
    {
        StringMap::new()
    }
}

/// The pairs of a string map as character sequences.
pub open spec fn pairs_view(m: Seq<(String, String)>) -> Seq<(Seq<char>, Seq<char>)> {
    m.map_values(|p: (String, String)| (p.0@, p.1@))
}

/// Keys strictly increase, so each key occurs once and the order is `BTreeMap`'s.
pub open spec fn keys_sorted(m: Seq<(Seq<char>, Seq<char>)>) -> bool {
    forall|i: int, j: int| 0 <= i < j < m.len() ==> str_lt(#[trigger] m[i].0, #[trigger] m[j].0)
}

/// `i` is the first position holding key `k`.
pub open spec fn first_key_at(m: Seq<(Seq<char>, Seq<char>)>, k: Seq<char>, i: int) -> bool {
    0 <= i < m.len() && m[i].0 == k && forall|j: int| 0 <= j < i ==> m[j].0 != k
}

/// Value stored under `k` (at its first position), if any.
pub open spec fn lookup(m: Seq<(Seq<char>, Seq<char>)>, k: Seq<char>) -> Option<Seq<char>> {
    if exists|i: int| first_key_at(m, k, i) {
        Some(m[choose|i: int| first_key_at(m, k, i)].1)
    } else {
        None
    }
}

/// At most one position is the first one holding a key.
pub proof fn lemma_first_key_unique(m: Seq<(Seq<char>, Seq<char>)>, k: Seq<char>, i: int, j: int)
    requires
        first_key_at(m, k, i),
        first_key_at(m, k, j),
    ensures
        i == j,
{
}

/// A key found at `i` after none of the positions before it is what `lookup` gives.
pub proof fn lemma_lookup_at(m: Seq<(Seq<char>, Seq<char>)>, k: Seq<char>, i: int)
    requires
        first_key_at(m, k, i),
    ensures
        lookup(m, k) == Some(m[i].1),
{
    let c = choose|c: int| first_key_at(m, k, c);
    lemma_first_key_unique(m, k, i, c);
}

/// A key at no position is absent.
pub proof fn lemma_lookup_absent(m: Seq<(Seq<char>, Seq<char>)>, k: Seq<char>)
    requires
        forall|j: int| 0 <= j < m.len() ==> m[j].0 != k,
    ensures
        lookup(m, k).is_none(),
{
}

/// Reference from an object to the object that owns it.
#[derive(Clone, Debug, Default, PartialEq, Eq)]
pub struct OwnerReference {
    pub api_version: String,
    pub kind: String,
    pub name: String,
}

/// The `apiVersion`/`kind` pair that heads every resource.
#[derive(Clone, Debug, Default, PartialEq, Eq)]
pub struct TypeMeta {
    pub api_version: String,
    pub kind: String,
}

/// Metadata of a stored object.
#[derive(Clone, Debug, Default, PartialEq, Eq)]
pub struct ObjectMeta {
    pub name: String,
    pub namespace: String,
    pub generate_name: Option<String>,
    pub labels: StringMap,
    pub owner_references: Vec<OwnerReference>,
    pub creation_timestamp: Option<Timestamp>,
}

/// Namespace an object lives in: its own, or the default one when blank.
pub open spec fn namespace_of(meta: ObjectMeta) -> Seq<char> {
    if all_ws(meta.namespace@) {
        DEFAULT_NAMESPACE@
    } else {
        meta.namespace@
    }
}

/// The namespace of an object, `default` when its namespace is blank.
pub fn object_namespace(metadata: &ObjectMeta) -> (r: String)
    ensures
        r@ == namespace_of(*metadata),
{
    if is_blank(metadata.namespace.as_str()) {
        owned(DEFAULT_NAMESPACE)
    } else {
        metadata.namespace.clone()
    }
}

impl ObjectMeta {
    /// Metadata naming an object and nothing else.
    pub fn named(name: String, namespace: String) -> (r: ObjectMeta)
        ensures
            r.name == name,
            r.namespace == namespace,
            r.generate_name.is_none(),
            r.labels@.len() == 0,
            r.owner_references@.len() == 0,
            r.creation_timestamp.is_none(),
    {
        ObjectMeta {
            name,
            namespace,
            generate_name: None,
            labels: StringMap::new(),
            owner_references: Vec::new(),
            creation_timestamp: None,
        }
    }
}

/// Finds the value stored under `key` in a string map.
pub fn map_get<'a>(m: &'a StringMap, key: &str) -> (r: Option<&'a String>)
    ensures
        r.is_some() == lookup(m@, key@).is_some(),
        r.is_some() ==> r.unwrap()@ == lookup(m@, key@).unwrap(),
{
    pairs_get(m.pairs(), key)
}

fn pairs_get<'a>(m: &'a Vec<(String, String)>, key: &str) -> (r: Option<&'a String>)
    ensures
        r.is_some() == lookup(pairs_view(m@), key@).is_some(),
        r.is_some() ==> r.unwrap()@ == lookup(pairs_view(m@), key@).unwrap(),
{
    let k = owned(key);
    let mut i: usize = 0;
    while i < m.len()
        invariant
            i <= m@.len(),
            k@ == key@,
            forall|j: int| 0 <= j < i ==> (#[trigger] m@[j]).0@ != key@,
        decreases m@.len() - i,
    {
        if m[i].0 == k {
            proof {
                let pv = pairs_view(m@);
                assert forall|j: int| 0 <= j < i implies pv[j].0 != key@ by {
                    assert(pv[j].0 == m@[j].0@);
                }
                lemma_lookup_at(pv, key@, i as int);
            }
            return Some(&m[i].1);
        }
        i = i + 1;
    }
    proof {
        let pv = pairs_view(m@);
        assert forall|j: int| 0 <= j < pv.len() implies pv[j].0 != key@ by {
            assert(pv[j].0 == m@[j].0@);
        }
        lemma_lookup_absent(pv, key@);
    }
    None
}


/// In a key-sorted map, the value at a position holding `k` is the value under `k`, and a
/// key held nowhere has none.
pub proof fn lemma_sorted_lookup(m: Seq<(Seq<char>, Seq<char>)>, k: Seq<char>)
    requires
        keys_sorted(m),
    ensures
        forall|j: int| 0 <= j < m.len() && m[j].0 == k ==> lookup(m, k) == Some(m[j].1),
        (forall|j: int| 0 <= j < m.len() ==> m[j].0 != k) ==> lookup(m, k).is_none(),
{
    assert forall|j: int| 0 <= j < m.len() && m[j].0 == k implies lookup(m, k) == Some(m[j].1) by {
        assert forall|i: int| 0 <= i < j implies m[i].0 != k by {
            assert(str_lt(m[i].0, m[j].0));
            if m[i].0 == k {
                lemma_str_lt_irreflexive(k);
            }
        }
        lemma_lookup_at(m, k, j);
    }
    if forall|j: int| 0 <= j < m.len() ==> m[j].0 != k {
        lemma_lookup_absent(m, k);
    }
}

/// Stores `value` under `key` in a string map, replacing what was there
/// (`BTreeMap::insert`).
pub fn map_insert(m: &mut StringMap, key: String, value: String)
    ensures
        forall|k: Seq<char>| #[trigger] lookup(final(m)@, k) == if k == key@ {
            Some(value@)
        } else {
            lookup(old(m)@, k)
        },
{
    proof {
        use_type_invariant(&*m);
    }
    let mut pairs: Vec<(String, String)> = Vec::new();
    std::mem::swap(&mut pairs, &mut m.pairs);
    pairs_insert(&mut pairs, key, value);
    m.pairs = pairs;
}

fn pairs_insert(m: &mut Vec<(String, String)>, key: String, value: String)
    requires
        keys_sorted(pairs_view(old(m)@)),
    ensures
        keys_sorted(pairs_view(final(m)@)),
        forall|k: Seq<char>| #[trigger] lookup(pairs_view(final(m)@), k) == if k == key@ {
            Some(value@)
        } else {
            lookup(pairs_view(old(m)@), k)
        },
{
    let ghost old_p = pairs_view(m@);
    let kc = chars_of(key.as_str());
    let mut i: usize = 0;
    while i < m.len()
        invariant
            i <= m@.len(),
            kc@ == key@,
            old_p == pairs_view(m@),
            keys_sorted(old_p),
            forall|j: int| 0 <= j < i ==> str_lt(#[trigger] old_p[j].0, key@),
        ensures
            i <= m@.len(),
            forall|j: int| 0 <= j < i ==> str_lt(#[trigger] old_p[j].0, key@),
            i < m@.len() ==> !str_lt(old_p[i as int].0, key@),
        decreases m@.len() - i,
    {
        let mc = chars_of(m[i].0.as_str());
        assert(old_p[i as int].0 == m@[i as int].0@);
        if !chars_less(&mc, &kc) {
            break;
        }
        i = i + 1;
    }
    let found = i < m.len() && m[i].0 == key;
    if found {
        m.set(i, (key, value));
    } else {
        proof {
            if i < m@.len() {
                assert(old_p[i as int].0 == m@[i as int].0@);
                lemma_str_lt_total(old_p[i as int].0, key@);
            }
        }
        m.insert(i, (key, value));
    }
    proof {
        let np = pairs_view(m@);
        if found {
            assert(np =~= old_p.update(i as int, (key@, value@)));
        } else {
            assert(np.len() == old_p.len() + 1);
            assert forall|j: int| 0 <= j < np.len() implies #[trigger] np[j] == (if j < i {
                old_p[j]
            } else if j == i {
                (key@, value@)
            } else {
                old_p[j - 1]
            }) by {}
        }
        assert forall|a: int, b: int| 0 <= a < b < np.len() implies str_lt(#[trigger] np[a].0, #[trigger] np[b].0) by {
            if found {
                if a == i {
                    assert(np[a].0 == old_p[a].0);
                } else if b == i {
                    assert(np[b].0 == old_p[b].0);
                }
            } else if b < i {
            } else if b == i {
            } else if a < i {
                if b - 1 > i as int {
                    assert(str_lt(old_p[i as int].0, old_p[b - 1].0));
                    lemma_str_lt_transitive(key@, old_p[i as int].0, old_p[b - 1].0);
                }
                lemma_str_lt_transitive(old_p[a].0, key@, old_p[b - 1].0);
            } else if a == i {
                if b - 1 > i as int {
                    assert(str_lt(old_p[i as int].0, old_p[b - 1].0));
                    lemma_str_lt_transitive(key@, old_p[i as int].0, old_p[b - 1].0);
                }
            }
        }
        assert forall|k: Seq<char>| #[trigger] lookup(np, k) == if k == key@ {
            Some(value@)
        } else {
            lookup(old_p, k)
        } by {
            lemma_sorted_lookup(np, k);
            lemma_sorted_lookup(old_p, k);
            if k == key@ {
                assert(np[i as int].0 == k);
            } else if exists|j: int| 0 <= j < old_p.len() && old_p[j].0 == k {
                let j = choose|j: int| 0 <= j < old_p.len() && old_p[j].0 == k;
                if found || j < i {
                    assert(np[j] == old_p[j]);
                } else {
                    assert(np[j + 1] == old_p[j]);
                }
            } else {
                assert forall|j: int| 0 <= j < np.len() implies np[j].0 != k by {
                    if found {
                        if j != i {
                            assert(np[j] == old_p[j]);
                        }
                    } else if j < i {
                        assert(np[j] == old_p[j]);
                    } else if j > i {
                        assert(np[j] == old_p[j - 1]);
                    }
                }
            }
        }
    }
}

} // verus!
