//! A map from metadata keys to values, each key held once.
use vstd::prelude::*;
use crate::external::yaml_of_mapping;

verus! {

/// Whether no key occurs twice among `pairs`.
pub open spec fn keys_distinct(pairs: Seq<(Seq<char>, Seq<char>)>) -> bool {
    forall|i: int, j: int|
        0 <= i < pairs.len() && 0 <= j < pairs.len() && i != j ==> #[trigger] pairs[i].0
            != #[trigger] pairs[j].0
}

/// Whether `k` is a key among `pairs`.
pub open spec fn has_key(pairs: Seq<(Seq<char>, Seq<char>)>, k: Seq<char>) -> bool {
    exists|i: int| 0 <= i < pairs.len() && #[trigger] pairs[i].0 == k
}

/// The map that `pairs` stand for.
pub open spec fn map_of_pairs(pairs: Seq<(Seq<char>, Seq<char>)>) -> Map<Seq<char>, Seq<char>> {
    Map::new(
        |k: Seq<char>| has_key(pairs, k),
        |k: Seq<char>| pairs[choose|i: int| 0 <= i < pairs.len() && #[trigger] pairs[i].0 == k].1,
    )
}

/// The view of one stored pair.
pub open spec fn pair_view(p: (String, String)) -> (Seq<char>, Seq<char>) {
    (p.0@, p.1@)
}

/// The views of stored pairs.
pub open spec fn views_of(entries: Seq<(String, String)>) -> Seq<(Seq<char>, Seq<char>)> {
    entries.map_values(|p: (String, String)| pair_view(p))
}

/// Metadata of a post: keys and values, each key once, in insertion order.
pub struct Metadata {
    entries: Vec<(String, String)>,
}

impl Metadata {
    /// The stored pairs, by view.
    pub closed spec fn pairs(&self) -> Seq<(Seq<char>, Seq<char>)> {
        views_of(self.entries@)
    }

    #[verifier::type_invariant]
    spec fn inv(&self) -> bool {
        keys_distinct(self.pairs())
    }

    proof fn lemma_lookup(pairs: Seq<(Seq<char>, Seq<char>)>, i: int)
        requires
            keys_distinct(pairs),
            0 <= i < pairs.len(),
        ensures
            map_of_pairs(pairs).contains_key(pairs[i].0),
            map_of_pairs(pairs)[pairs[i].0] == pairs[i].1,
    {
        let k = pairs[i].0;
        assert(has_key(pairs, k));
        let j = choose|j: int| 0 <= j < pairs.len() && #[trigger] pairs[j].0 == k;
        assert(pairs[j].0 == pairs[i].0);
    }

    /// An empty map.
    pub fn new() -> (res: Self)
        ensures
            res@ == Map::<Seq<char>, Seq<char>>::empty(),
    {
        let res = Metadata { entries: Vec::new() };
        assert(res@ =~= Map::<Seq<char>, Seq<char>>::empty());
        res
    }

    /// The position of `key` among the stored pairs.
    fn position(&self, key: &String) -> (res: Option<usize>)
        ensures
            match res {
                Some(i) => i < self.pairs().len() && self.pairs()[i as int].0 == key@,
                None => !has_key(self.pairs(), key@),
            },
    {
        let mut i: usize = 0;
        while i < self.entries.len()
            invariant
                0 <= i <= self.entries.len(),
                self.pairs().len() == self.entries@.len(),
                forall|j: int| 0 <= j < i ==> self.pairs()[j].0 != key@,
            decreases self.entries.len() - i,
        {
            if self.entries[i].0 == *key {
                return Some(i);
            }
            i = i + 1;
        }
        None
    }

    /// The value stored under `key`.
    pub fn get(&self, key: &String) -> (res: Option<String>)
        ensures
            res is Some <==> self@.contains_key(key@),
            res matches Some(v) ==> v@ == self@[key@],
    {
        proof {
            use_type_invariant(self);
        }
        match self.position(key) {
            Some(i) => {
                proof {
                    Self::lemma_lookup(self.pairs(), i as int);
                }
                Some(self.entries[i].1.clone())
            },
            None => None,
        }
    }

    /// Whether `key` has a value.
    pub fn contains_key(&self, key: &String) -> (res: bool)
        ensures
            res == self@.contains_key(key@),
    {
        self.position(key).is_some()
    }

    /// Stores `value` under `key`, replacing what was stored there.
    pub fn insert(&mut self, key: String, value: String)
        ensures
            final(self)@ == old(self)@.insert(key@, value@),
    {
        proof {
            use_type_invariant(&*self);
        }
        let ghost old_pairs = self.pairs();
        match self.position(&key) {
            Some(i) => {
                let ghost k = key@;
                let ghost v = value@;
                let mut entries: Vec<(String, String)> = Vec::new();
                std::mem::swap(&mut entries, &mut self.entries);
                entries.set(i, (key, value));
                proof {
                    let p = views_of(entries@);
                    assert(p == old_pairs.update(i as int, (k, v)));
                }
                self.entries = entries;
                proof {
                    let p = self.pairs();
                    assert(p == old_pairs.update(i as int, (k, v)));
                    assert(keys_distinct(p));
                    Self::lemma_lookup(p, i as int);
                    assert forall|k2: Seq<char>| #[trigger] has_key(p, k2) == (has_key(old_pairs, k2)
                        || k2 == k) by {
                        if has_key(old_pairs, k2) {
                            let j = choose|j: int| 0 <= j < old_pairs.len() && #[trigger] old_pairs[j].0 == k2;
                            assert(p[j].0 == k2);
                        }
                        if has_key(p, k2) {
                            let j = choose|j: int| 0 <= j < p.len() && #[trigger] p[j].0 == k2;
                            assert(old_pairs[j].0 == k2 || j == i);
                        }
                    }
                    assert forall|k2: Seq<char>| #[trigger] has_key(old_pairs, k2) && k2 != k implies
                        map_of_pairs(p)[k2] == map_of_pairs(old_pairs)[k2] by {
                        let j = choose|j: int| 0 <= j < old_pairs.len() && #[trigger] old_pairs[j].0 == k2;
                        Self::lemma_lookup(old_pairs, j);
                        Self::lemma_lookup(p, j);
                    }
                    assert(map_of_pairs(p) =~= map_of_pairs(old_pairs).insert(k, v));
                }
            },
            None => {
                let ghost k = key@;
                let ghost v = value@;
                let mut entries: Vec<(String, String)> = Vec::new();
                std::mem::swap(&mut entries, &mut self.entries);
                entries.push((key, value));
                proof {
                    let p = views_of(entries@);
                    assert(p == old_pairs.push((k, v)));
                }
                self.entries = entries;
                proof {
                    let p = self.pairs();
                    let n = old_pairs.len() as int;
                    assert(p == old_pairs.push((k, v)));
                    assert(keys_distinct(p));
                    Self::lemma_lookup(p, n);
                    assert forall|k2: Seq<char>| #[trigger] has_key(p, k2) == (has_key(old_pairs, k2)
                        || k2 == k) by {
                        if has_key(old_pairs, k2) {
                            let j = choose|j: int| 0 <= j < old_pairs.len() && #[trigger] old_pairs[j].0 == k2;
                            assert(p[j].0 == k2);
                        }
                        if has_key(p, k2) {
                            let j = choose|j: int| 0 <= j < p.len() && #[trigger] p[j].0 == k2;
                            assert(old_pairs[j].0 == k2 || j == n);
                        }
                    }
                    assert forall|k2: Seq<char>| #[trigger] has_key(old_pairs, k2) && k2 != k implies
                        map_of_pairs(p)[k2] == map_of_pairs(old_pairs)[k2] by {
                        let j = choose|j: int| 0 <= j < old_pairs.len() && #[trigger] old_pairs[j].0 == k2;
                        Self::lemma_lookup(old_pairs, j);
                        Self::lemma_lookup(p, j);
                    }
                    assert(map_of_pairs(p) =~= map_of_pairs(old_pairs).insert(k, v));
                }
            },
        }
    }

    proof fn lemma_map_of_push(pairs: Seq<(Seq<char>, Seq<char>)>, q: (Seq<char>, Seq<char>))
        requires
            keys_distinct(pairs.push(q)),
        ensures
            map_of_pairs(pairs.push(q)) == map_of_pairs(pairs).insert(q.0, q.1),
    {
        let p = pairs.push(q);
        let n = pairs.len() as int;
        assert(keys_distinct(pairs)) by {
            assert forall|i: int, j: int|
                0 <= i < pairs.len() && 0 <= j < pairs.len() && i != j implies #[trigger] pairs[i].0
                != #[trigger] pairs[j].0 by {
                assert(p[i] == pairs[i] && p[j] == pairs[j]);
            }
        }
        Self::lemma_lookup(p, n);
        assert forall|k2: Seq<char>| #[trigger] has_key(p, k2) == (has_key(pairs, k2) || k2 == q.0) by {
            if has_key(pairs, k2) {
                let j = choose|j: int| 0 <= j < pairs.len() && #[trigger] pairs[j].0 == k2;
                assert(p[j].0 == k2);
            }
            if has_key(p, k2) {
                let j = choose|j: int| 0 <= j < p.len() && #[trigger] p[j].0 == k2;
                assert(pairs[j].0 == k2 || j == n);
            }
        }
        assert forall|k2: Seq<char>| #[trigger] has_key(pairs, k2) && k2 != q.0 implies
            map_of_pairs(p)[k2] == map_of_pairs(pairs)[k2] by {
            let j = choose|j: int| 0 <= j < pairs.len() && #[trigger] pairs[j].0 == k2;
            Self::lemma_lookup(pairs, j);
            assert(p[j] == pairs[j]);
            Self::lemma_lookup(p, j);
        }
        assert(map_of_pairs(p) =~= map_of_pairs(pairs).insert(q.0, q.1));
    }

    proof fn lemma_map_of_remove(pairs: Seq<(Seq<char>, Seq<char>)>, i: int)
        requires
            keys_distinct(pairs),
            0 <= i < pairs.len(),
        ensures
            keys_distinct(pairs.remove(i)),
            map_of_pairs(pairs.remove(i)) == map_of_pairs(pairs).remove(pairs[i].0),
    {
        let p = pairs.remove(i);
        let k = pairs[i].0;
        assert forall|a: int, b: int|
            0 <= a < p.len() && 0 <= b < p.len() && a != b implies #[trigger] p[a].0
            != #[trigger] p[b].0 by {
            let a2 = if a < i { a } else { a + 1 };
            let b2 = if b < i { b } else { b + 1 };
            assert(p[a] == pairs[a2] && p[b] == pairs[b2]);
        }
        assert forall|k2: Seq<char>| #[trigger] has_key(p, k2) == (has_key(pairs, k2) && k2 != k) by {
            if has_key(pairs, k2) && k2 != k {
                let j = choose|j: int| 0 <= j < pairs.len() && #[trigger] pairs[j].0 == k2;
                let j2 = if j < i { j } else { j - 1 };
                assert(p[j2].0 == k2);
            }
            if has_key(p, k2) {
                let j = choose|j: int| 0 <= j < p.len() && #[trigger] p[j].0 == k2;
                let j2 = if j < i { j } else { j + 1 };
                assert(pairs[j2].0 == k2);
                assert(j2 != i);
            }
        }
        assert forall|k2: Seq<char>| #[trigger] has_key(p, k2) implies map_of_pairs(p)[k2]
            == map_of_pairs(pairs)[k2] by {
            let j = choose|j: int| 0 <= j < p.len() && #[trigger] p[j].0 == k2;
            let j2 = if j < i { j } else { j + 1 };
            assert(p[j] == pairs[j2]);
            Self::lemma_lookup(p, j);
            Self::lemma_lookup(pairs, j2);
        }
        assert(map_of_pairs(p) =~= map_of_pairs(pairs).remove(k));
    }

    /// Removes the value stored under `key` and gives it back.
    pub fn remove(&mut self, key: &String) -> (res: Option<String>)
        ensures
            final(self)@ == old(self)@.remove(key@),
            res is Some <==> old(self)@.contains_key(key@),
            res matches Some(v) ==> v@ == old(self)@[key@],
    {
        proof {
            use_type_invariant(&*self);
        }
        let ghost old_pairs = self.pairs();
        match self.position(key) {
            Some(i) => {
                proof {
                    Self::lemma_lookup(old_pairs, i as int);
                    Self::lemma_map_of_remove(old_pairs, i as int);
                }
                let mut entries: Vec<(String, String)> = Vec::new();
                std::mem::swap(&mut entries, &mut self.entries);
                let (_k, v) = entries.remove(i);
                proof {
                    let p = views_of(entries@);
                    assert(p == old_pairs.remove(i as int));
                }
                self.entries = entries;
                Some(v)
            },
            None => {
                assert(old_pairs == self.pairs());
                assert(self@ =~= self@.remove(key@));
                None
            },
        }
    }

    /// Stores every pair of `other`, replacing what was stored under its keys.
    pub fn extend(&mut self, other: Metadata)
        ensures
            final(self)@ == old(self)@.union_prefer_right(other@),
    {
        proof {
            use_type_invariant(&other);
        }
        let ghost base = self@;
        let ghost op = other.pairs();
        let n = other.entries.len();
        let mut i: usize = 0;
        assert(op.take(0) =~= Seq::<(Seq<char>, Seq<char>)>::empty());
        assert(map_of_pairs(op.take(0)) =~= Map::<Seq<char>, Seq<char>>::empty());
        assert(base.union_prefer_right(map_of_pairs(op.take(0))) =~= base);
        while i < n
            invariant
                0 <= i <= n,
                n == other.entries@.len(),
                op == other.pairs(),
                op.len() == n,
                keys_distinct(op),
                self@ == base.union_prefer_right(map_of_pairs(op.take(i as int))),
            decreases n - i,
        {
            let k = other.entries[i].0.clone();
            let v = other.entries[i].1.clone();
            self.insert(k, v);
            proof {
                let t = op.take(i as int);
                assert(op.take(i + 1) == t.push(op[i as int]));
                assert(keys_distinct(t.push(op[i as int]))) by {
                    assert forall|a: int, b: int|
                        0 <= a < t.len() + 1 && 0 <= b < t.len() + 1 && a != b implies
                        #[trigger] t.push(op[i as int])[a].0 != #[trigger] t.push(op[i as int])[b].0 by {
                        assert(t.push(op[i as int])[a] == op[a] && t.push(op[i as int])[b] == op[b]);
                    }
                }
                Self::lemma_map_of_push(t, op[i as int]);
                assert(self@ =~= base.union_prefer_right(map_of_pairs(op.take(i + 1))));
            }
            i = i + 1;
        }
        assert(op.take(n as int) == op);
    }

    /// A copy holding the same pairs.
    pub fn duplicate(&self) -> (res: Metadata)
        ensures
            res@ == self@,
            res.pairs() == self.pairs(),
    {
        proof {
            use_type_invariant(self);
        }
        let mut entries: Vec<(String, String)> = Vec::new();
        let mut i: usize = 0;
        while i < self.entries.len()
            invariant
                0 <= i <= self.entries.len(),
                self.pairs().len() == self.entries@.len(),
                views_of(entries@) == self.pairs().take(i as int),
            decreases self.entries.len() - i,
        {
            let k = self.entries[i].0.clone();
            let v = self.entries[i].1.clone();
            let ghost before = entries@;
            entries.push((k, v));
            proof {
                assert(self.pairs()[i as int] == pair_view(self.entries@[i as int]));
                assert(entries@ == before.push((k, v)));
                assert(pair_view((k, v)) == self.pairs()[i as int]);
                assert(views_of(entries@) == views_of(before).push(pair_view((k, v))));
                assert(views_of(entries@) =~= self.pairs().take(
                    i + 1,
                ));
            }
            i = i + 1;
        }
        proof {
            assert(self.pairs().take(i as int) == self.pairs());
        }
        Metadata { entries }
    }

    /// The stored pairs, each key once.
    pub fn entries(&self) -> (res: &Vec<(String, String)>)
        ensures
            views_of(res@) == self.pairs(),
            keys_distinct(self.pairs()),
    {
        proof {
            use_type_invariant(self);
        }
        &self.entries
    }
}

/// Calls `serde_yaml::to_string` on the pairs of `mapping`, ordered by key so
/// that the text is a function of the mapping, and turns an error into its
/// message. The contract names the outcome; it states nothing of the YAML text.
#[verifier::external_body]
pub(crate) fn yaml_mapping_text(mapping: &Metadata) -> (res: Result<String, String>)
    ensures
        match yaml_of_mapping(mapping@) {
            Ok(t) => res matches Ok(s) && s@ == t,
            Err(e) => res matches Err(s) && s@ == e,
        },
{
    let ordered: std::collections::BTreeMap<&String, &String> =
        mapping.entries.iter().map(|pair| (&pair.0, &pair.1)).collect();
    serde_yaml::to_string(&ordered).map_err(|error| error.to_string())
}

impl View for Metadata {
    type V = Map<Seq<char>, Seq<char>>;

    open spec fn view(&self) -> Map<Seq<char>, Seq<char>> {
        map_of_pairs(self.pairs())
    }
}

} // verus!
