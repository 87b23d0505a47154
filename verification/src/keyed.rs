//! A small map from text keys to values, kept as a vector of distinct keys.

use crate::text::texts;
use vstd::prelude::*;

verus! {

/// Entries keyed by text, no key twice.
pub struct Keyed<V> {
    entries: Vec<(String, V)>,
}

pub open spec fn distinct_keys<V>(e: Seq<(String, V)>) -> bool {
    forall|i: int, j: int| 0 <= i < e.len() && 0 <= j < e.len() && i != j ==> (#[trigger] e[i]).0@ != (#[trigger] e[j]).0@
}

pub open spec fn key_in<V>(e: Seq<(String, V)>, k: Seq<char>) -> bool {
    exists|i: int| 0 <= i < e.len() && (#[trigger] e[i]).0@ == k
}

pub open spec fn keyed_view<V>(e: Seq<(String, V)>) -> Map<Seq<char>, V> {
    Map::new(
        |k: Seq<char>| key_in(e, k),
        |k: Seq<char>| e[choose|i: int| 0 <= i < e.len() && (#[trigger] e[i]).0@ == k].1,
    )
}

impl<V> View for Keyed<V> {
    type V = Map<Seq<char>, V>;

    closed spec fn view(&self) -> Map<Seq<char>, V> {
        keyed_view(self.entries@)
    }
}

impl<V> Keyed<V> {
    #[verifier::type_invariant]
    closed spec fn inv(self) -> bool {
        distinct_keys(self.entries@)
    }
}

proof fn lemma_at<V>(e: Seq<(String, V)>, i: int)
    requires
        distinct_keys(e),
        0 <= i < e.len(),
    ensures
        keyed_view(e).contains_key(e[i].0@),
        keyed_view(e)[e[i].0@] == e[i].1,
{
    let k = e[i].0@;
    assert(key_in(e, k));
    let c = choose|c: int| 0 <= c < e.len() && (#[trigger] e[c]).0@ == k;
    assert(c == i);
}

proof fn lemma_push<V>(e: Seq<(String, V)>, x: (String, V))
    requires
        distinct_keys(e),
        !key_in(e, x.0@),
    ensures
        distinct_keys(e.push(x)),
        keyed_view(e.push(x)) == keyed_view(e).insert(x.0@, x.1),
{
    let n = e.push(x);
    assert forall|a: int, b: int| 0 <= a < n.len() && 0 <= b < n.len() && a != b implies (#[trigger] n[a]).0@ != (
    #[trigger] n[b]).0@ by {
        if a < e.len() && b < e.len() {
            assert(n[a] == e[a] && n[b] == e[b]);
        } else if a < e.len() {
            assert(n[a] == e[a]);
        } else {
            assert(n[b] == e[b]);
        }
    }
    let lhs = keyed_view(n);
    let rhs = keyed_view(e).insert(x.0@, x.1);
    assert forall|k: Seq<char>| lhs.contains_key(k) <==> rhs.contains_key(k) by {
        if key_in(n, k) {
            let j = choose|j: int| 0 <= j < n.len() && (#[trigger] n[j]).0@ == k;
            if j < e.len() {
                assert(e[j] == n[j]);
            }
        }
        if key_in(e, k) {
            let j = choose|j: int| 0 <= j < e.len() && (#[trigger] e[j]).0@ == k;
            assert(n[j] == e[j]);
        }
        if k == x.0@ {
            assert(n[e.len() as int] == x);
        }
    }
    assert forall|k: Seq<char>| lhs.contains_key(k) implies lhs[k] == rhs[k] by {
        let j = choose|j: int| 0 <= j < n.len() && (#[trigger] n[j]).0@ == k;
        lemma_at(n, j);
        if j < e.len() {
            assert(n[j] == e[j]);
            lemma_at(e, j);
        }
    }
    assert(lhs =~= rhs);
}

proof fn lemma_remove<V>(e: Seq<(String, V)>, i: int)
    requires
        distinct_keys(e),
        0 <= i < e.len(),
    ensures
        distinct_keys(e.remove(i)),
        keyed_view(e.remove(i)) == keyed_view(e).remove(e[i].0@),
{
    let n = e.remove(i);
    assert forall|j: int| 0 <= j < n.len() implies #[trigger] n[j] == (if j < i { e[j] } else { e[j + 1] }) by {}
    assert forall|a: int, b: int| 0 <= a < n.len() && 0 <= b < n.len() && a != b implies (#[trigger] n[a]).0@ != (
    #[trigger] n[b]).0@ by {
        let a2 = if a < i { a } else { a + 1 };
        let b2 = if b < i { b } else { b + 1 };
        assert(n[a] == e[a2] && n[b] == e[b2]);
    }
    let k0 = e[i].0@;
    let lhs = keyed_view(n);
    let rhs = keyed_view(e).remove(k0);
    assert forall|k: Seq<char>| lhs.contains_key(k) <==> rhs.contains_key(k) by {
        if key_in(n, k) {
            let j = choose|j: int| 0 <= j < n.len() && (#[trigger] n[j]).0@ == k;
            let j2 = if j < i { j } else { j + 1 };
            assert(e[j2] == n[j]);
            assert(j2 != i);
        }
        if key_in(e, k) && k != k0 {
            let j = choose|j: int| 0 <= j < e.len() && (#[trigger] e[j]).0@ == k;
            assert(j != i);
            if j < i {
                assert(n[j] == e[j]);
            } else {
                assert(n[j - 1] == e[j]);
            }
        }
    }
    assert forall|k: Seq<char>| lhs.contains_key(k) implies lhs[k] == rhs[k] by {
        let j = choose|j: int| 0 <= j < n.len() && (#[trigger] n[j]).0@ == k;
        lemma_at(n, j);
        let j2 = if j < i { j } else { j + 1 };
        assert(e[j2] == n[j]);
        lemma_at(e, j2);
    }
    assert(lhs =~= rhs);
}

impl<V> Keyed<V> {
    /// An empty map.
    pub fn new() -> (r: Keyed<V>)
        ensures
            r@ == Map::<Seq<char>, V>::empty(),
    {
        let r = Keyed { entries: Vec::new() };
        assert(r@ =~= Map::<Seq<char>, V>::empty());
        r
    }

    fn find(&self, key: &String) -> (r: Option<usize>)
        ensures
            r.is_some() ==> r.unwrap() < self.entries@.len() && self.entries@[r.unwrap() as int].0@ == key@,
            r.is_none() ==> !key_in(self.entries@, key@),
    {
        let mut i: usize = 0;
        while i < self.entries.len()
            invariant
                i <= self.entries@.len(),
                forall|j: int| 0 <= j < i ==> (#[trigger] self.entries@[j]).0@ != key@,
            decreases self.entries@.len() - i,
        {
            if self.entries[i].0 == *key {
                return Some(i);
            }
            i = i + 1;
        }
        None
    }

    /// Whether `key` is present.
    pub fn contains(&self, key: &String) -> (r: bool)
        ensures
            r == self@.contains_key(key@),
    {
        proof {
            use_type_invariant(self);
        }
        match self.find(key) {
            Some(i) => {
                proof {
                    lemma_at(self.entries@, i as int);
                }
                true
            },
            None => false,
        }
    }

    /// The value under `key`.
    pub fn get(&self, key: &String) -> (r: Option<&V>)
        ensures
            r.is_some() == self@.contains_key(key@),
            r.is_some() ==> *r.unwrap() == self@[key@],
    {
        proof {
            use_type_invariant(self);
        }
        match self.find(key) {
            Some(i) => {
                proof {
                    lemma_at(self.entries@, i as int);
                }
                Some(&self.entries[i].1)
            },
            None => None,
        }
    }

    /// Removes and returns the value under `key`.
    pub fn take(&mut self, key: &String) -> (r: Option<V>)
        ensures
            r.is_some() == old(self)@.contains_key(key@),
            r.is_some() ==> r.unwrap() == old(self)@[key@],
            final(self)@ == old(self)@.remove(key@),
    {
        proof {
            use_type_invariant(&*self);
        }
        match self.find(key) {
            Some(i) => {
                proof {
                    lemma_at(self.entries@, i as int);
                    lemma_remove(self.entries@, i as int);
                }
                let mut entries = Vec::new();
                std::mem::swap(&mut entries, &mut self.entries);
                let (_, v) = entries.remove(i);
                self.entries = entries;
                Some(v)
            },
            None => {
                assert(self@ =~= self@.remove(key@));
                None
            },
        }
    }

    /// Stores `value` under `key`, replacing what was there.
    pub fn insert(&mut self, key: String, value: V)
        ensures
            final(self)@ == old(self)@.insert(key@, value),
    {
        let _ = self.take(&key);
        proof {
            use_type_invariant(&*self);
            assert(!self@.contains_key(key@));
            assert(!key_in(self.entries@, key@));
            lemma_push(self.entries@, (key, value));
        }
        let mut entries = Vec::new();
        std::mem::swap(&mut entries, &mut self.entries);
        entries.push((key, value));
        self.entries = entries;
    }

    /// Keeps only the keys among `live`.
    pub fn retain_keys(&mut self, live: &Vec<String>)
        ensures
            final(self)@ == old(self)@.restrict(texts(live@).to_set()),
    {
        proof {
            use_type_invariant(&*self);
        }
        let ghost l = texts(live@).to_set();
        let mut kept: Vec<(String, V)> = Vec::new();
        let mut entries = Vec::new();
        std::mem::swap(&mut entries, &mut self.entries);
        let ghost orig = entries@;
        while entries.len() > 0
            invariant
                distinct_keys(orig),
                l == texts(live@).to_set(),
                entries@ == orig.take(entries@.len() as int),
                entries@.len() <= orig.len(),
                distinct_keys(kept@),
                forall|k: Seq<char>|
                    #[trigger] keyed_view(kept@).contains_key(k) <==> (l.contains(k) && exists|j: int|
                        entries@.len() <= j < orig.len() && (#[trigger] orig[j]).0@ == k),
                forall|k: Seq<char>|
                    #[trigger] keyed_view(kept@).contains_key(k) ==> keyed_view(kept@)[k] == keyed_view(orig)[k],
            decreases entries@.len(),
        {
            let ghost n = entries@.len() as int;
            let e = entries.pop().unwrap();
            proof {
                assert(orig[n - 1] == e);
                assert(entries@ =~= orig.take(n - 1));
                lemma_at(orig, n - 1);
            }
            let ghost old_kept = kept@;
            let ghost ek = e.0@;
            let keep = live_contains(live, &e.0);
            if keep {
                proof {
                    assert(!key_in(kept@, e.0@)) by {
                        if key_in(kept@, e.0@) {
                            let w = choose|i: int| 0 <= i < kept@.len() && (#[trigger] kept@[i]).0@ == e.0@;
                            lemma_at(kept@, w);
                            let j = choose|j: int| n <= j < orig.len() && (#[trigger] orig[j]).0@ == e.0@;
                            assert(orig[j].0@ == orig[n - 1].0@);
                        }
                    }
                    lemma_push(kept@, e);
                }
                kept.push(e);
            }
            proof {
                assert forall|k: Seq<char>|
                    #[trigger] keyed_view(kept@).contains_key(k) <==> (l.contains(k) && exists|j: int|
                        n - 1 <= j < orig.len() && (#[trigger] orig[j]).0@ == k) by {
                    assert(keyed_view(old_kept).contains_key(k) <==> (l.contains(k) && exists|j: int|
                        n <= j < orig.len() && (#[trigger] orig[j]).0@ == k));
                    if keep {
                        assert(keyed_view(kept@) == keyed_view(old_kept).insert(ek, orig[n - 1].1));
                    } else {
                        assert(kept@ == old_kept);
                    }
                    if k == ek {
                        if keyed_view(old_kept).contains_key(k) {
                            let j = choose|j: int| n <= j < orig.len() && (#[trigger] orig[j]).0@ == k;
                            assert(orig[j].0@ == orig[n - 1].0@);
                        }
                    }
                    if k != orig[n - 1].0@ {
                        if exists|j: int| n - 1 <= j < orig.len() && (#[trigger] orig[j]).0@ == k {
                            let j = choose|j: int| n - 1 <= j < orig.len() && (#[trigger] orig[j]).0@ == k;
                            assert(j != n - 1);
                        }
                    } else {
                        assert(orig[n - 1].0@ == k);
                    }
                }
            }
        }
        proof {
            let fin = keyed_view(kept@);
            let want = keyed_view(orig).restrict(l);
            assert forall|k: Seq<char>| fin.contains_key(k) <==> want.contains_key(k) by {
                if want.contains_key(k) {
                    let j = choose|j: int| 0 <= j < orig.len() && (#[trigger] orig[j]).0@ == k;
                    assert(0 <= j < orig.len() && orig[j].0@ == k);
                }
            }
            assert(fin =~= want);
        }
        self.entries = kept;
    }
}


fn live_contains(live: &Vec<String>, key: &String) -> (r: bool)
    ensures
        r == texts(live@).to_set().contains(key@),
{
    let mut i: usize = 0;
    while i < live.len()
        invariant
            i <= live@.len(),
            forall|j: int| 0 <= j < i ==> (#[trigger] texts(live@)[j]) != key@,
        decreases live@.len() - i,
    {
        if live[i] == *key {
            assert(texts(live@)[i as int] == key@);
            return true;
        }
        i = i + 1;
    }
    false
}

} // verus!
