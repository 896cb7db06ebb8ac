//! Environment variables of a process, each name with one value.

use vstd::prelude::*;

use crate::text_map::{assigned, distinct_keys, lemma_assigned_push, lemma_slot, slot, TextMap};

verus! {

/// A set of environment variables. No name occurs twice.
#[derive(Debug)]
pub struct Env {
    vars: TextMap<String>,
}

/// The values of `vars` as sequences.
spec fn values_viewed(vars: Map<Seq<char>, String>) -> Map<Seq<char>, Seq<char>> {
    vars.map_values(|value: String| value@)
}

impl View for Env {
    type V = Map<Seq<char>, Seq<char>>;

    closed spec fn view(&self) -> Map<Seq<char>, Seq<char>> {
        values_viewed(self.vars@)
    }
}

/// The names and values of `pairs`, a later pair going before an earlier one.
pub open spec fn paired(pairs: Seq<(String, String)>) -> Map<Seq<char>, Seq<char>>
    decreases pairs.len(),
{
    if pairs.len() == 0 {
        Map::empty()
    } else {
        paired(pairs.drop_last()).insert(pairs.last().0@, pairs.last().1@)
    }
}

/// Pairs with distinct names assign to every name the value in its pair.
proof fn lemma_paired_is_assigned(pairs: Seq<(String, String)>)
    requires
        distinct_keys(pairs),
    ensures
        paired(pairs) == values_viewed(assigned(pairs)),
    decreases pairs.len(),
{
    if pairs.len() == 0 {
        assert(values_viewed(assigned(pairs)) =~= Map::empty());
    } else {
        let rest = pairs.drop_last();
        let last = pairs.last();
        lemma_paired_is_assigned(rest);
        lemma_slot(rest, last.0@);
        if slot(rest, last.0@) < rest.len() {
            assert(pairs[slot(rest, last.0@)].0@ == last.0@);
        }
        lemma_assigned_push(rest, last);
        assert(rest.push(last) =~= pairs);
        assert(values_viewed(assigned(rest).insert(last.0@, last.1)) =~= values_viewed(
            assigned(rest),
        ).insert(last.0@, last.1@));
    }
}

impl Env {
    /// No variables.
    pub fn new() -> (r: Env)
        ensures
            r@ == Map::<Seq<char>, Seq<char>>::empty(),
    {
        let r = Env { vars: TextMap::new() };
        assert(r@ =~= Map::empty());
        r
    }

    /// Whether the variable `key` is set.
    pub fn contains_key(&self, key: &str) -> (r: bool)
        ensures
            r == self@.contains_key(key@),
    {
        self.vars.contains_key(key)
    }

    /// The value of the variable `key`.
    pub fn get(&self, key: &str) -> (r: Option<String>)
        ensures
            r is Some <==> self@.contains_key(key@),
            r is Some ==> r->0@ == self@[key@],
    {
        match self.vars.get(key) {
            Some(value) => Some(value.clone()),
            None => None,
        }
    }

    /// Sets the variable `key`, whatever it was before.
    pub fn insert(&mut self, key: String, value: String)
        ensures
            final(self)@ == old(self)@.insert(key@, value@),
    {
        self.vars.insert(key, value);
        assert(self@ =~= old(self)@.insert(key@, value@));
    }

    /// Sets the variable `key` only where it is not set yet.
    pub fn insert_if_absent(&mut self, key: String, value: String)
        ensures
            final(self)@ == if old(self)@.contains_key(key@) {
                old(self)@
            } else {
                old(self)@.insert(key@, value@)
            },
    {
        if !self.contains_key(key.as_str()) {
            self.insert(key, value);
        }
    }

    /// Sets the variables of `pairs` in their order.
    fn insert_pairs(&mut self, pairs: &Vec<(String, String)>)
        ensures
            final(self)@ == old(self)@.union_prefer_right(paired(pairs@)),
    {
        let ghost before = self@;
        let mut i: usize = 0;
        assert(before.union_prefer_right(paired(pairs@.take(0))) =~= before);
        while i < pairs.len()
            invariant
                i <= pairs.len(),
                self@ == before.union_prefer_right(paired(pairs@.take(i as int))),
            decreases pairs.len() - i,
        {
            self.insert(pairs[i].0.clone(), pairs[i].1.clone());
            proof {
                let pair = pairs@[i as int];
                let seen = paired(pairs@.take(i as int));
                assert(pairs@.take(i + 1).drop_last() =~= pairs@.take(i as int));
                assert(before.union_prefer_right(seen).insert(pair.0@, pair.1@)
                    =~= before.union_prefer_right(seen.insert(pair.0@, pair.1@)));
            }
            i = i + 1;
        }
        assert(pairs@.take(i as int) =~= pairs@);
    }

    /// Takes over every variable of `other`, which goes before this one's.
    pub fn extend(&mut self, other: &Env)
        ensures
            final(self)@ == old(self)@.union_prefer_right(other@),
    {
        let pairs = other.vars.pairs();
        proof {
            lemma_paired_is_assigned(pairs@);
        }
        self.insert_pairs(pairs);
    }

    /// The variables of `pairs`; of two values for one name the later counts.
    pub fn from_pairs(pairs: &Vec<(String, String)>) -> (r: Env)
        ensures
            r@ == paired(pairs@),
    {
        let mut r = Env::new();
        r.insert_pairs(pairs);
        assert(Map::<Seq<char>, Seq<char>>::empty().union_prefer_right(paired(pairs@)) =~= paired(
            pairs@,
        ));
        r
    }

    /// The variables as pairs of name and value.
    pub fn into_pairs(self) -> (r: Vec<(String, String)>)
        ensures
            paired(r@) == self@,
            forall|i: int, j: int| 0 <= i < j < r.len() ==> r@[i].0@ != r@[j].0@,
    {
        let pairs = self.vars.into_pairs();
        proof {
            lemma_paired_is_assigned(pairs@);
        }
        pairs
    }
}

impl Default for Env {
    fn default() -> (r: Env)
        ensures
            r@ == Map::<Seq<char>, Seq<char>>::empty(),
    {
        Env::new()
    }
}

/// Of several pairs with one name the last gives the value, and a name without
/// a pair has none.
pub proof fn last_pair_gives_the_value(pairs: Seq<(String, String)>, key: Seq<char>, i: int)
    ensures
        0 <= i < pairs.len() && pairs[i].0@ == key && (forall|j: int|
            i < j < pairs.len() ==> (#[trigger] pairs[j]).0@ != key) ==> paired(pairs).contains_key(
            key,
        ) && paired(pairs)[key] == pairs[i].1@,
        (forall|j: int| 0 <= j < pairs.len() ==> (#[trigger] pairs[j]).0@ != key) ==> !paired(
            pairs,
        ).contains_key(key),
    decreases pairs.len(),
{
    if pairs.len() > 0 {
        let rest = pairs.drop_last();
        last_pair_gives_the_value(rest, key, i);
        assert(pairs[pairs.len() - 1] == pairs.last());
        assert forall|j: int| 0 <= j < rest.len() implies #[trigger] rest[j] == pairs[j] by {}
        if forall|j: int| 0 <= j < pairs.len() ==> (#[trigger] pairs[j]).0@ != key {
            assert forall|j: int| 0 <= j < rest.len() implies (#[trigger] rest[j]).0@ != key by {
                assert(pairs[j].0@ != key);
            }
        }
        if 0 <= i < rest.len() && pairs[i].0@ == key && (forall|j: int|
            i < j < pairs.len() ==> (#[trigger] pairs[j]).0@ != key) {
            assert forall|j: int| i < j < rest.len() implies (#[trigger] rest[j]).0@ != key by {
                assert(pairs[j].0@ != key);
            }
        }
    }
}

} // verus!
