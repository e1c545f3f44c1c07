//! Per-instance configuration: string keys mapped to string values.
use vstd::prelude::*;
use crate::table::{find_name, keys_distinct, lemma_pairs_map_update, lemma_push_fresh, pairs_map};

verus! {

/// The `(key, value)` pairs of a sequence of string pairs, as character sequences.
pub open spec fn pair_views(pairs: Seq<(String, String)>) -> Seq<(Seq<char>, Seq<char>)> {
    pairs.map_values(|p: (String, String)| (p.0@, p.1@))
}

/// The configuration that a sequence of pairs describes: a later pair for a key
/// replaces an earlier one.
pub open spec fn last_wins(pairs: Seq<(String, String)>) -> Map<Seq<char>, Seq<char>> {
    pairs_map(pair_views(pairs))
}

/// A configuration built from pairs holds a key exactly when some pair carries
/// it, and then holds the value of the last pair that carries it.
pub proof fn lemma_last_wins(pairs: Seq<(String, String)>)
    ensures
        forall|k: Seq<char>|
            #[trigger] last_wins(pairs).contains_key(k) <==> exists|i: int|
                0 <= i < pairs.len() && pairs[i].0@ == k,
        forall|i: int|
            0 <= i < pairs.len() && (forall|j: int| i < j < pairs.len() ==> pairs[j].0@ != pairs[i].0@)
                ==> #[trigger] last_wins(pairs)[pairs[i].0@] == pairs[i].1@,
{
    let s = pair_views(pairs);
    assert forall|k: Seq<char>|
        #[trigger] last_wins(pairs).contains_key(k) <==> exists|i: int|
            0 <= i < pairs.len() && pairs[i].0@ == k by {
        crate::table::lemma_pairs_map_domain(s, k);
        if exists|i: int| 0 <= i < pairs.len() && pairs[i].0@ == k {
            let i = choose|i: int| 0 <= i < pairs.len() && pairs[i].0@ == k;
            assert(s[i].0 == k);
        }
    }
    assert forall|i: int|
        0 <= i < pairs.len() && (forall|j: int| i < j < pairs.len() ==> pairs[j].0@ != pairs[i].0@)
            implies #[trigger] last_wins(pairs)[pairs[i].0@] == pairs[i].1@ by {
        assert forall|j: int| i < j < s.len() implies s[j].0 != s[i].0 by {
            assert(s[j].0 == pairs[j].0@);
        }
        crate::table::lemma_pairs_map_last(s, i);
    }
}

/// A mapping from key to value; each key appears at most once.
pub struct Config {
    entries: Vec<(String, String)>,
}

impl View for Config {
    type V = Map<Seq<char>, Seq<char>>;

    closed spec fn view(&self) -> Map<Seq<char>, Seq<char>> {
        last_wins(self.entries@)
    }
}

impl Config {
    /// Each key is held by one entry.
    #[verifier::type_invariant]
    closed spec fn wf(&self) -> bool {
        keys_distinct(pair_views(self.entries@))
    }

    /// An empty configuration.
    pub fn new() -> (r: Config)
        ensures
            r@ == Map::<Seq<char>, Seq<char>>::empty(),
    {
        let r = Config { entries: Vec::new() };
        assert(pair_views(r.entries@) =~= Seq::empty());
        r
    }

    /// Sets `key` to `value`, replacing any earlier value of `key`.
    pub fn insert(&mut self, key: String, value: String)
        ensures
            final(self)@ == old(self)@.insert(key@, value@),
    {
        let mut current = Config::new();
        core::mem::swap(self, &mut current);
        proof {
            use_type_invariant(&current);
        }
        let Config { entries: mut entries } = current;
        let ghost s = pair_views(entries@);
        match find_name(&entries, &key) {
            Some(j) => {
                proof {
                    lemma_pairs_map_update(s, j as int, value@);
                }
                entries.set(j, (key, value));
                assert(pair_views(entries@) =~= s.update(j as int, (s[j as int].0, value@)));
            },
            None => {
                proof {
                    lemma_push_fresh(s, key@, value@);
                }
                let ghost kv = key@;
                let ghost vv = value@;
                entries.push((key, value));
                assert(pair_views(entries@) =~= s.push((kv, vv)));
            },
        }
        *self = Config { entries };
    }

    /// Builds a configuration from pairs in order: where a key occurs more than
    /// once, its last value is kept.
    pub fn from_pairs(pairs: Vec<(String, String)>) -> (r: Config)
        ensures
            r@ == last_wins(pairs@),
    {
        let mut r = Config::new();
        let mut i: usize = 0;
        while i < pairs.len()
            invariant
                i <= pairs@.len(),
                r@ == last_wins(pairs@.subrange(0, i as int)),
            decreases pairs@.len() - i,
        {
            let k = pairs[i].0.clone();
            let v = pairs[i].1.clone();
            let ghost p = pairs@.subrange(0, i as int + 1);
            assert(pair_views(p).drop_last() =~= pair_views(pairs@.subrange(0, i as int)));
            r.insert(k, v);
            i = i + 1;
        }
        assert(pairs@.subrange(0, pairs@.len() as int) =~= pairs@);
        r
    }

    /// The value of `key`, if it is set.
    pub fn get(&self, key: &str) -> (r: Option<&String>)
        ensures
            match r {
                Some(v) => self@.contains_key(key@) && self@[key@] == v@,
                None => !self@.contains_key(key@),
            },
    {
        proof {
            use_type_invariant(self);
        }
        let k = key.to_owned();
        let ghost s = pair_views(self.entries@);
        match find_name(&self.entries, &k) {
            Some(j) => {
                proof {
                    crate::table::lemma_pairs_map_value(s, j as int);
                }
                Some(&self.entries[j].1)
            },
            None => {
                proof {
                    crate::table::lemma_pairs_map_domain(s, key@);
                }
                None
            },
        }
    }

    /// The number of keys that are set.
    pub fn len(&self) -> (r: usize)
        ensures
            r == self@.len(),
    {
        proof {
            use_type_invariant(self);
            crate::table::lemma_pairs_map_len(pair_views(self.entries@));
        }
        self.entries.len()
    }
}

} // verus!
