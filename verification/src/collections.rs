use vstd::prelude::*;

use crate::ids::ProductDefId;

verus! {

/// The value paired with the first occurrence of key `k` in an association list.
pub open spec fn lookup<K, V>(s: Seq<(K, V)>, k: K) -> Option<V>
    decreases s.len(),
{
    if s.len() == 0 {
        None
    } else if s[0].0 == k {
        Some(s[0].1)
    } else {
        lookup(s.drop_first(), k)
    }
}

/// The value paired with the first key whose text is `k`.
pub open spec fn lookup_str<V>(s: Seq<(String, V)>, k: Seq<char>) -> Option<V>
    decreases s.len(),
{
    if s.len() == 0 {
        None
    } else if s[0].0@ == k {
        Some(s[0].1)
    } else {
        lookup_str(s.drop_first(), k)
    }
}

/// Whether some entry of the association list has key `k`.
pub open spec fn has_key<K, V>(s: Seq<(K, V)>, k: K) -> bool {
    exists|i: int| 0 <= i < s.len() && (#[trigger] s[i]).0 == k
}

/// What `lookup` finds is an entry of the list, the first with that key;
/// it finds nothing exactly when no entry has the key.
pub proof fn lemma_lookup<K, V>(s: Seq<(K, V)>, k: K)
    ensures
        lookup(s, k) is None <==> !has_key(s, k),
        lookup(s, k) matches Some(v) ==> exists|i: int| 0 <= i < s.len() && s[i] == (k, v)
            && forall|j: int| 0 <= j < i ==> (#[trigger] s[j]).0 != k,
    decreases s.len(),
{
    if s.len() > 0 {
        lemma_lookup(s.drop_first(), k);
        if s[0].0 != k {
            if has_key(s, k) {
                let i = choose|i: int| 0 <= i < s.len() && (#[trigger] s[i]).0 == k;
                assert(s.drop_first()[i - 1].0 == k);
            }
            if has_key(s.drop_first(), k) {
                let i = choose|i: int| 0 <= i < s.drop_first().len() && (#[trigger] s.drop_first()[i]).0 == k;
                assert(s[i + 1].0 == k);
            }
            if let Some(v) = lookup(s, k) {
                let i = choose|i: int| 0 <= i < s.drop_first().len() && s.drop_first()[i] == (k, v)
                    && forall|j: int| 0 <= j < i ==> (#[trigger] s.drop_first()[j]).0 != k;
                assert(s[i + 1] == (k, v));
                assert forall|j: int| 0 <= j < i + 1 implies (#[trigger] s[j]).0 != k by {
                    if j > 0 {
                        assert(s[j] == s.drop_first()[j - 1]);
                    }
                }
            }
        } else {
            assert(s[0] == (k, s[0].1));
        }
    }
}

/// When keys are distinct, `lookup` finds the entry with that key.
pub proof fn lemma_lookup_unique<K, V>(s: Seq<(K, V)>, i: int)
    requires
        0 <= i < s.len(),
        forall|a: int, b: int| 0 <= a < b < s.len() ==> (#[trigger] s[a]).0 != (#[trigger] s[b]).0,
    ensures
        lookup(s, s[i].0) == Some(s[i].1),
{
    lemma_lookup(s, s[i].0);
    assert(has_key(s, s[i].0));
    let v = lookup(s, s[i].0).unwrap();
    let j = choose|j: int| 0 <= j < s.len() && s[j] == (s[i].0, v)
        && forall|q: int| 0 <= q < j ==> (#[trigger] s[q]).0 != s[i].0;
    if j < i {
        assert(s[j].0 != s[i].0);
    } else if j > i {
        assert(s[i].0 != s[i].0);
    }
}

/// Finds the value of the first entry with key `k`.
pub fn find_id<V>(s: &Vec<(ProductDefId, V)>, k: ProductDefId) -> (r: Option<&V>)
    ensures
        match lookup(s@, k) {
            Some(v) => r matches Some(x) && *x == v,
            None => r is None,
        },
{
    let mut i: usize = 0;
    assert(s@.subrange(0, s@.len() as int) =~= s@);
    while i < s.len()
        invariant
            i <= s@.len(),
            lookup(s@, k) == lookup(s@.subrange(i as int, s@.len() as int), k),
        decreases s.len() - i,
    {
        assert(s@.subrange(i as int, s@.len() as int).drop_first() =~= s@.subrange(i + 1, s@.len() as int));
        if s[i].0 == k {
            return Some(&s[i].1);
        }
        i = i + 1;
    }
    None
}

/// Finds the value of the first entry for product crate `k`.
pub fn find_id_crate<V>(s: &Vec<(crate::ids::ProductCrateId, V)>, k: crate::ids::ProductCrateId) -> (r: Option<&V>)
    ensures
        match lookup(s@, k) {
            Some(v) => r matches Some(x) && *x == v,
            None => r is None,
        },
{
    let mut i: usize = 0;
    assert(s@.subrange(0, s@.len() as int) =~= s@);
    while i < s.len()
        invariant
            i <= s@.len(),
            lookup(s@, k) == lookup(s@.subrange(i as int, s@.len() as int), k),
        decreases s.len() - i,
    {
        assert(s@.subrange(i as int, s@.len() as int).drop_first() =~= s@.subrange(i + 1, s@.len() as int));
        if s[i].0 == k {
            return Some(&s[i].1);
        }
        i = i + 1;
    }
    None
}

/// Finds the value of the first entry whose key text is `k`.
pub fn find_str<'a, V>(s: &'a Vec<(String, V)>, k: &str) -> (r: Option<&'a V>)
    ensures
        match lookup_str(s@, k@) {
            Some(v) => r matches Some(x) && *x == v,
            None => r is None,
        },
{
    let mut i: usize = 0;
    assert(s@.subrange(0, s@.len() as int) =~= s@);
    while i < s.len()
        invariant
            i <= s@.len(),
            lookup_str(s@, k@) == lookup_str(s@.subrange(i as int, s@.len() as int), k@),
        decreases s.len() - i,
    {
        assert(s@.subrange(i as int, s@.len() as int).drop_first() =~= s@.subrange(i + 1, s@.len() as int));
        if crate::text::str_eq(s[i].0.as_str(), k) {
            return Some(&s[i].1);
        }
        i = i + 1;
    }
    None
}

/// Whether `k` occurs in the list.
pub fn contains_id(s: &Vec<ProductDefId>, k: ProductDefId) -> (r: bool)
    ensures
        r == s@.contains(k),
{
    let mut i: usize = 0;
    while i < s.len()
        invariant
            i <= s@.len(),
            forall|j: int| 0 <= j < i ==> s@[j] != k,
        decreases s.len() - i,
    {
        if s[i] == k {
            assert(s@[i as int] == k);
            return true;
        }
        i = i + 1;
    }
    false
}

/// Whether some entry of a name table maps to `v`.
pub open spec fn has_value<V>(s: Seq<(String, V)>, v: V) -> bool {
    exists|i: int| 0 <= i < s.len() && (#[trigger] s[i]).1 == v
}

/// Whether some entry of a name table maps to the definition `v`.
pub fn contains_value(s: &Vec<(String, ProductDefId)>, v: ProductDefId) -> (r: bool)
    ensures
        r == has_value(s@, v),
{
    let mut i: usize = 0;
    while i < s.len()
        invariant
            i <= s@.len(),
            forall|j: int| 0 <= j < i ==> (#[trigger] s@[j]).1 != v,
        decreases s.len() - i,
    {
        if s[i].1 == v {
            assert(s@[i as int].1 == v);
            return true;
        }
        i = i + 1;
    }
    false
}

/// Finds the value of the first entry keyed by the pair `(a, b)`.
pub fn find_pair<V>(s: &Vec<((ProductDefId, ProductDefId), V)>, a: ProductDefId, b: ProductDefId) -> (r: Option<&V>)
    ensures
        match lookup(s@, (a, b)) {
            Some(v) => r matches Some(x) && *x == v,
            None => r is None,
        },
{
    let mut i: usize = 0;
    assert(s@.subrange(0, s@.len() as int) =~= s@);
    while i < s.len()
        invariant
            i <= s@.len(),
            lookup(s@, (a, b)) == lookup(s@.subrange(i as int, s@.len() as int), (a, b)),
        decreases s.len() - i,
    {
        assert(s@.subrange(i as int, s@.len() as int).drop_first() =~= s@.subrange(i + 1, s@.len() as int));
        if s[i].0.0 == a && s[i].0.1 == b {
            return Some(&s[i].1);
        }
        i = i + 1;
    }
    None
}

/// Product identities ordered by crate number, then local number.
pub open spec fn id_lt(a: ProductDefId, b: ProductDefId) -> bool {
    a.crate_id.0 < b.crate_id.0 || (a.crate_id.0 == b.crate_id.0 && a.local_id.0 < b.local_id.0)
}

fn id_less(a: ProductDefId, b: ProductDefId) -> (r: bool)
    ensures
        r == id_lt(a, b),
{
    a.crate_id.0 < b.crate_id.0 || (a.crate_id.0 == b.crate_id.0 && a.local_id.0 < b.local_id.0)
}

/// Keys strictly increase along the list.
pub open spec fn sorted_ids<V>(s: Seq<(ProductDefId, V)>) -> bool {
    forall|i: int, j: int| 0 <= i < j < s.len() ==> id_lt((#[trigger] s[i]).0, (#[trigger] s[j]).0)
}

/// A table keyed by product identity, kept in key order like the ordered
/// maps of the artifact format.
pub struct IdMap<V> {
    entries: Vec<(ProductDefId, V)>,
}

impl<V> View for IdMap<V> {
    type V = Seq<(ProductDefId, V)>;

    closed spec fn view(&self) -> Seq<(ProductDefId, V)> {
        self.entries@
    }
}

impl<V> IdMap<V> {
    #[verifier::type_invariant]
    spec fn inv(self) -> bool {
        sorted_ids(self.entries@)
    }

    /// States that the entries are in increasing key order, so no key repeats.
    pub fn keys_are_sorted(&self)
        ensures
            sorted_ids(self@),
            forall|i: int, j: int| 0 <= i < j < self@.len() ==> (#[trigger] self@[i]).0 != (#[trigger] self@[j]).0,
    {
        proof {
            use_type_invariant(self);
            assert forall|i: int, j: int| 0 <= i < j < self@.len() implies (#[trigger] self@[i]).0 != (#[trigger] self@[j]).0 by {
                assert(id_lt(self@[i].0, self@[j].0));
            }
        }
    }

    pub fn new() -> (r: IdMap<V>)
        ensures
            r@ == Seq::<(ProductDefId, V)>::empty(),
    {
        IdMap { entries: Vec::new() }
    }

    pub fn len(&self) -> (r: usize)
        ensures
            r == self@.len(),
    {
        self.entries.len()
    }

    /// The entry at position `i` in key order.
    pub fn entry(&self, i: usize) -> (r: &(ProductDefId, V))
        requires
            i < self@.len(),
        ensures
            *r == self@[i as int],
    {
        &self.entries[i]
    }

    /// The value stored under `k`.
    pub fn get(&self, k: ProductDefId) -> (r: Option<&V>)
        ensures
            match lookup(self@, k) {
                Some(v) => r matches Some(x) && *x == v,
                None => r is None,
            },
    {
        find_id(&self.entries, k)
    }

    pub fn contains_key(&self, k: ProductDefId) -> (r: bool)
        ensures
            r == has_key(self@, k),
    {
        proof { lemma_lookup(self@, k); }
        self.get(k).is_some()
    }

    /// Stores `v` under `k`, replacing what was stored there.
    pub fn insert(&mut self, k: ProductDefId, v: V)
        ensures
            lookup(final(self)@, k) == Some(v),
            forall|q: ProductDefId| q != k ==> lookup(final(self)@, q) == lookup(old(self)@, q),
            forall|q: ProductDefId| #[trigger] has_key(final(self)@, q) <==> (q == k || has_key(old(self)@, q)),
    {
        proof { use_type_invariant(&*self); }
        let ghost before = self.entries@;
        let mut i: usize = 0;
        while i < self.entries.len() && id_less(self.entries[i].0, k)
            invariant
                i <= self.entries@.len(),
                self.entries@ == before,
                sorted_ids(before),
                forall|j: int| 0 <= j < i ==> id_lt((#[trigger] before[j]).0, k),
            decreases self.entries.len() - i,
        {
            i = i + 1;
        }
        let mut entries: Vec<(ProductDefId, V)> = Vec::new();
        std::mem::swap(&mut entries, &mut self.entries);
        proof { assert(entries@ == before); }
        let replace = i < entries.len() && entries[i].0 == k;
        if replace {
            let _ = entries.remove(i);
        }
        let ghost mid = entries@;
        entries.insert(i, (k, v));
        let ghost after = entries@;
        proof {
            if replace {
                assert(mid =~= before.remove(i as int));
                assert(after =~= before.update(i as int, (k, v)));
            } else {
                assert(mid == before);
                assert(after =~= before.insert(i as int, (k, v)));
                if i < before.len() {
                    assert(!id_lt(before[i as int].0, k));
                    assert(before[i as int].0 != k);
                }
            }
            assert(sorted_ids(after)) by {
                assert forall|a: int, b: int| 0 <= a < b < after.len() implies id_lt((#[trigger] after[a]).0, (#[trigger] after[b]).0) by {
                    if replace {
                        if a < i && b > i {
                            assert(id_lt(before[a].0, before[b].0));
                        } else if a < i && b == i {
                            assert(id_lt(before[a].0, k));
                        } else if a == i && b > i {
                            assert(id_lt(before[i as int].0, before[b].0));
                        }
                    } else {
                        if b < i {
                            assert(after[a] == before[a] && after[b] == before[b]);
                        } else if b == i {
                            assert(after[a] == before[a]);
                        } else if a == i {
                            assert(after[b] == before[b - 1]);
                            if b - 1 > i {
                                assert(id_lt(before[i as int].0, before[b - 1].0));
                            }
                        } else if a < i {
                            assert(after[a] == before[a] && after[b] == before[b - 1]);
                            assert(id_lt(before[a].0, k));
                        } else {
                            assert(after[a] == before[a - 1] && after[b] == before[b - 1]);
                        }
                    }
                }
            }
            lemma_lookup(after, k);
            lemma_lookup_unique(after, i as int);
            assert forall|q: ProductDefId| #[trigger] has_key(after, q) <==> (q == k || has_key(before, q)) by {
                if has_key(after, q) {
                    let a = choose|a: int| 0 <= a < after.len() && (#[trigger] after[a]).0 == q;
                    if q != k {
                        if replace {
                            assert(before[a].0 == q);
                        } else if a < i {
                            assert(before[a].0 == q);
                        } else {
                            assert(before[a - 1].0 == q);
                        }
                    }
                }
                if q == k {
                    assert(after[i as int].0 == k);
                }
                if has_key(before, q) {
                    let a = choose|a: int| 0 <= a < before.len() && (#[trigger] before[a]).0 == q;
                    if replace || a < i {
                        if a != i {
                            assert(after[a].0 == q);
                        } else {
                            assert(after[i as int].0 == k);
                        }
                    } else {
                        assert(after[a + 1].0 == q);
                    }
                }
            }
            assert forall|q: ProductDefId| q != k implies lookup(after, q) == lookup(before, q) by {
                lemma_lookup(after, q);
                lemma_lookup(before, q);
                if has_key(before, q) {
                    let a = choose|a: int| 0 <= a < before.len() && (#[trigger] before[a]).0 == q;
                    lemma_lookup_unique(before, a);
                    if replace || a < i {
                        assert(after[a] == before[a]);
                        lemma_lookup_unique(after, a);
                    } else {
                        assert(after[a + 1] == before[a]);
                        lemma_lookup_unique(after, a + 1);
                    }
                }
            }
        }
        self.entries = entries;
    }
}

} // verus!
