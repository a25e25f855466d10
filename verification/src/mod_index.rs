//! A small map from mod identifiers to content hashes, kept as a list of
//! pairs whose keys are all different. Inserting a key that is present
//! replaces its hash, as a hash map does.
use vstd::prelude::*;

verus! {

/// The map that a list of (key, value) pairs stands for; a later pair wins
/// over an earlier one with the same key.
pub open spec fn pairs_map(p: Seq<(Seq<char>, Seq<char>)>) -> Map<Seq<char>, Seq<char>>
    decreases p.len(),
{
    if p.len() == 0 {
        Map::empty()
    } else {
        pairs_map(p.drop_last()).insert(p.last().0, p.last().1)
    }
}

/// No two pairs share a key.
pub open spec fn keys_unique(p: Seq<(Seq<char>, Seq<char>)>) -> bool {
    forall|i: int, j: int| 0 <= i < j < p.len() ==> p[i].0 != p[j].0
}

/// The keys of a list of pairs, in order.
pub open spec fn pair_keys(p: Seq<(Seq<char>, Seq<char>)>) -> Seq<Seq<char>> {
    p.map_values(|e: (Seq<char>, Seq<char>)| e.0)
}

/// With keys all different, the map holds exactly the pairs of the list.
pub proof fn lemma_pairs_map(p: Seq<(Seq<char>, Seq<char>)>)
    requires
        keys_unique(p),
    ensures
        forall|i: int| #![trigger p[i]] 0 <= i < p.len() ==> pairs_map(p).contains_key(p[i].0)
            && pairs_map(p)[p[i].0] == p[i].1,
        forall|k: Seq<char>| #[trigger] pairs_map(p).contains_key(k) ==> exists|i: int|
            0 <= i < p.len() && p[i].0 == k,
    decreases p.len(),
{
    if p.len() > 0 {
        let q = p.drop_last();
        assert(keys_unique(q));
        lemma_pairs_map(q);
        assert forall|i: int| #![trigger p[i]] 0 <= i < p.len() implies pairs_map(p).contains_key(
            p[i].0,
        ) && pairs_map(p)[p[i].0] == p[i].1 by {
            if i < p.len() - 1 {
                assert(q[i] == p[i]);
                assert(p[i].0 != p.last().0);
            }
        }
        assert forall|k: Seq<char>| #[trigger] pairs_map(p).contains_key(k) implies exists|i: int|
            0 <= i < p.len() && p[i].0 == k by {
            if k != p.last().0 {
                assert(pairs_map(q).contains_key(k));
                let i = choose|i: int| 0 <= i < q.len() && q[i].0 == k;
                assert(p[i] == q[i]);
            } else {
                assert(p[p.len() - 1].0 == k);
            }
        }
    }
}

/// A map from mod identifiers to content hashes.
pub struct ModHashes {
    entries: Vec<(String, String)>,
}

impl ModHashes {
    /// Identifiers are never held twice.
    #[verifier::type_invariant]
    spec fn inv(&self) -> bool {
        keys_unique(self.pairs())
    }

    /// The (identifier, hash) pairs, in the order in which identifiers were
    /// first inserted.
    pub closed spec fn pairs(&self) -> Seq<(Seq<char>, Seq<char>)> {
        self.entries@.map_values(|e: (String, String)| (e.0@, e.1@))
    }

    /// The map from identifier to hash.
    pub open spec fn map(&self) -> Map<Seq<char>, Seq<char>> {
        pairs_map(self.pairs())
    }

    /// An empty map.
    pub fn new() -> (r: ModHashes)
        ensures
            r.pairs() == Seq::<(Seq<char>, Seq<char>)>::empty(),
            r.map() == Map::<Seq<char>, Seq<char>>::empty(),
    {
        let r = ModHashes { entries: Vec::new() };
        assert(r.pairs() =~= Seq::<(Seq<char>, Seq<char>)>::empty());
        r
    }

    /// The number of identifiers held.
    pub fn len(&self) -> (r: usize)
        ensures
            r == self.pairs().len(),
    {
        self.entries.len()
    }

    /// The identifier and hash at a position of the insertion order.
    pub fn entry(&self, i: usize) -> (r: (&String, &String))
        requires
            i < self.pairs().len(),
        ensures
            (r.0@, r.1@) == self.pairs()[i as int],
    {
        let e = &self.entries[i];
        (&e.0, &e.1)
    }

    /// The position of an identifier, if it is held.
    fn position(&self, id: &String) -> (r: Option<usize>)
        ensures
            match r {
                Some(i) => i < self.pairs().len() && self.pairs()[i as int].0 == id@,
                None => forall|i: int| 0 <= i < self.pairs().len() ==> self.pairs()[i].0 != id@,
            },
    {
        let mut i: usize = 0;
        while i < self.entries.len()
            invariant
                i <= self.entries.len(),
                self.pairs().len() == self.entries.len(),
                forall|j: int| 0 <= j < i ==> self.pairs()[j].0 != id@,
            decreases self.entries.len() - i,
        {
            assert(self.pairs()[i as int] == (self.entries@[i as int].0@, self.entries@[i as int].1@));
            if self.entries[i].0 == *id {
                return Some(i);
            }
            i = i + 1;
        }
        None
    }

    /// The hash recorded for an identifier.
    pub fn get(&self, id: &String) -> (r: Option<&String>)
        ensures
            match r {
                Some(h) => self.map().contains_key(id@) && self.map()[id@] == h@,
                None => !self.map().contains_key(id@),
            },
    {
        proof {
            use_type_invariant(self);
            lemma_pairs_map(self.pairs());
        }
        match self.position(id) {
            Some(i) => {
                let e = &self.entries[i];
                assert(self.pairs()[i as int] == (e.0@, e.1@));
                Some(&e.1)
            },
            None => None,
        }
    }

    /// Records `hash` for `id`, replacing the hash that `id` had.
    pub fn insert(&mut self, id: String, hash: String)
        ensures
            final(self).map() == old(self).map().insert(id@, hash@),
            pair_keys(final(self).pairs()).to_set() == pair_keys(old(self).pairs()).to_set().insert(id@),
    {
        proof {
            use_type_invariant(&*self);
            lemma_pairs_map(self.pairs());
        }
        let ghost old_pairs = self.pairs();
        let ghost idv = id@;
        let ghost hv = hash@;
        match self.position(&id) {
            Some(i) => {
                let mut entries: Vec<(String, String)> = Vec::new();
                std::mem::swap(&mut entries, &mut self.entries);
                entries.set(i, (id, hash));
                let ghost new_pairs = entries@.map_values(|e: (String, String)| (e.0@, e.1@));
                assert(new_pairs =~= old_pairs.update(i as int, (idv, hv)));
                assert(keys_unique(new_pairs));
                self.entries = entries;
                proof {
                    lemma_pairs_map(new_pairs);
                    assert forall|k: Seq<char>| #[trigger] pairs_map(new_pairs).contains_key(k)
                        <==> pairs_map(old_pairs).insert(idv, hv).contains_key(k) by {
                        if pairs_map(old_pairs).contains_key(k) && k != idv {
                            let j = choose|j: int| 0 <= j < old_pairs.len() && old_pairs[j].0 == k;
                            assert(new_pairs[j] == old_pairs[j]);
                        }
                        if pairs_map(new_pairs).contains_key(k) && k != idv {
                            let j = choose|j: int| 0 <= j < new_pairs.len() && new_pairs[j].0 == k;
                            assert(new_pairs[j] == old_pairs[j]);
                        }
                        assert(new_pairs[i as int].0 == idv);
                    }
                    assert forall|k: Seq<char>| #[trigger] pairs_map(new_pairs).contains_key(k)
                        implies pairs_map(new_pairs)[k] == pairs_map(old_pairs).insert(idv, hv)[k] by {
                        let j = choose|j: int| 0 <= j < new_pairs.len() && new_pairs[j].0 == k;
                        if j != i {
                            assert(new_pairs[j] == old_pairs[j]);
                        }
                    }
                    assert(pairs_map(new_pairs) =~= pairs_map(old_pairs).insert(idv, hv));
                    assert(pair_keys(new_pairs) =~= pair_keys(old_pairs).update(i as int, idv));
                    assert forall|k: Seq<char>| pair_keys(new_pairs).contains(k) <==> pair_keys(
                        old_pairs,
                    ).to_set().insert(idv).contains(k) by {
                        if pair_keys(old_pairs).contains(k) && k != idv {
                            let j = choose|j: int| 0 <= j < pair_keys(old_pairs).len() && pair_keys(old_pairs)[j] == k;
                            assert(pair_keys(new_pairs)[j] == k);
                        }
                        if k == idv {
                            assert(pair_keys(new_pairs)[i as int] == k);
                        }
                        if pair_keys(new_pairs).contains(k) && k != idv {
                            let j = choose|j: int| 0 <= j < pair_keys(new_pairs).len() && pair_keys(new_pairs)[j] == k;
                            assert(pair_keys(old_pairs)[j] == k);
                        }
                    }
                    assert(pair_keys(new_pairs).to_set() =~= pair_keys(old_pairs).to_set().insert(idv));
                }
            },
            None => {
                let mut entries: Vec<(String, String)> = Vec::new();
                std::mem::swap(&mut entries, &mut self.entries);
                entries.push((id, hash));
                let ghost new_pairs = entries@.map_values(|e: (String, String)| (e.0@, e.1@));
                assert(new_pairs =~= old_pairs.push((idv, hv)));
                assert(new_pairs.drop_last() =~= old_pairs);
                assert(keys_unique(new_pairs));
                self.entries = entries;
                assert(pair_keys(new_pairs) =~= pair_keys(old_pairs).push(idv));
                proof {
                    assert forall|k: Seq<char>| pair_keys(new_pairs).contains(k) <==> pair_keys(
                        old_pairs,
                    ).to_set().insert(idv).contains(k) by {
                        if pair_keys(old_pairs).contains(k) {
                            let j = choose|j: int| 0 <= j < pair_keys(old_pairs).len() && pair_keys(old_pairs)[j] == k;
                            assert(pair_keys(new_pairs)[j] == k);
                        }
                        if k == idv {
                            assert(pair_keys(new_pairs)[old_pairs.len() as int] == k);
                        }
                        if pair_keys(new_pairs).contains(k) && k != idv {
                            let j = choose|j: int| 0 <= j < pair_keys(new_pairs).len() && pair_keys(new_pairs)[j] == k;
                            assert(pair_keys(old_pairs)[j] == k);
                        }
                    }
                    assert(pair_keys(new_pairs).to_set() =~= pair_keys(old_pairs).to_set().insert(idv));
                }
            },
        }
    }
}

} // verus!
