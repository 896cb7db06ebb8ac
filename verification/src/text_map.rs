//! A map from texts to values.

use vstd::prelude::*;

verus! {

/// A map from texts to values. No key occurs twice.
#[derive(Debug)]
pub struct TextMap<T> {
    pairs: Vec<(String, T)>,
}

impl<T> View for TextMap<T> {
    type V = Map<Seq<char>, T>;

    closed spec fn view(&self) -> Map<Seq<char>, T> {
        assigned(self.pairs@)
    }
}

/// The index of the first pair with the key `key`, or the number of pairs.
pub(crate) open spec fn slot<T>(pairs: Seq<(String, T)>, key: Seq<char>) -> int
    decreases pairs.len(),
{
    if pairs.len() == 0 || pairs[0].0@ == key {
        0
    } else {
        1 + slot(pairs.drop_first(), key)
    }
}

/// The values that the first pair of every key gives.
pub(crate) open spec fn assigned<T>(pairs: Seq<(String, T)>) -> Map<Seq<char>, T> {
    Map::new(|k: Seq<char>| slot(pairs, k) < pairs.len(), |k: Seq<char>| pairs[slot(pairs, k)].1)
}

/// No key occurs in two pairs.
pub(crate) open spec fn distinct_keys<T>(pairs: Seq<(String, T)>) -> bool {
    forall|i: int, j: int| 0 <= i < j < pairs.len() ==> pairs[i].0@ != pairs[j].0@
}

pub(crate) proof fn lemma_slot<T>(pairs: Seq<(String, T)>, key: Seq<char>)
    ensures
        0 <= slot(pairs, key) <= pairs.len(),
        slot(pairs, key) < pairs.len() ==> pairs[slot(pairs, key)].0@ == key,
        forall|i: int| 0 <= i < slot(pairs, key) ==> #[trigger] pairs[i].0@ != key,
    decreases pairs.len(),
{
    if pairs.len() > 0 && pairs[0].0@ != key {
        let rest = pairs.drop_first();
        lemma_slot(rest, key);
        assert forall|i: int| 0 <= i < slot(pairs, key) implies #[trigger] pairs[i].0@ != key by {
            if i > 0 {
                assert(pairs[i] == rest[i - 1]);
            }
        }
    }
}

proof fn lemma_slot_is<T>(pairs: Seq<(String, T)>, key: Seq<char>, at: int)
    requires
        0 <= at <= pairs.len(),
        at < pairs.len() ==> pairs[at].0@ == key,
        forall|i: int| 0 <= i < at ==> #[trigger] pairs[i].0@ != key,
    ensures
        slot(pairs, key) == at,
{
    lemma_slot(pairs, key);
}

pub(crate) proof fn lemma_assigned_push<T>(pairs: Seq<(String, T)>, pair: (String, T))
    requires
        slot(pairs, pair.0@) == pairs.len(),
    ensures
        assigned(pairs.push(pair)) == assigned(pairs).insert(pair.0@, pair.1),
{
    let after = pairs.push(pair);
    lemma_slot(pairs, pair.0@);
    assert forall|k: Seq<char>| #[trigger] slot(after, k) == (if slot(pairs, k) < pairs.len() {
        slot(pairs, k)
    } else if k == pair.0@ {
        pairs.len() as int
    } else {
        (pairs.len() + 1) as int
    }) && 0 <= slot(pairs, k) <= pairs.len() by {
        lemma_slot(pairs, k);
        let at = if slot(pairs, k) < pairs.len() {
            slot(pairs, k)
        } else if k == pair.0@ {
            pairs.len() as int
        } else {
            (pairs.len() + 1) as int
        };
        assert forall|i: int| 0 <= i < at implies #[trigger] after[i].0@ != k by {
            if i < pairs.len() {
                assert(after[i] == pairs[i]);
            }
        }
        lemma_slot_is(after, k, at);
    }
    assert(assigned(after) =~= assigned(pairs).insert(pair.0@, pair.1));
}

proof fn lemma_assigned_update<T>(pairs: Seq<(String, T)>, at: int, pair: (String, T))
    requires
        0 <= at < pairs.len(),
        slot(pairs, pair.0@) == at,
    ensures
        assigned(pairs.update(at, pair)) == assigned(pairs).insert(pair.0@, pair.1),
{
    let after = pairs.update(at, pair);
    assert forall|k: Seq<char>| #[trigger] slot(after, k) == slot(pairs, k) && 0 <= slot(pairs, k)
        <= pairs.len() && (slot(pairs, k) == at ==> k == pair.0@) by {
        lemma_slot(pairs, k);
        lemma_slot(pairs, pair.0@);
        assert forall|i: int| 0 <= i < slot(pairs, k) implies #[trigger] after[i].0@ != k by {
            assert(pairs[i].0@ != k);
        }
        lemma_slot_is(after, k, slot(pairs, k));
    }
    assert(assigned(after) =~= assigned(pairs).insert(pair.0@, pair.1));
}

impl<T> TextMap<T> {
    /// No key has two values.
    #[verifier::type_invariant]
    spec fn keys_are_distinct(self) -> bool {
        distinct_keys(self.pairs@)
    }

    /// The map without keys.
    pub fn new() -> (r: TextMap<T>)
        ensures
            r@ == Map::<Seq<char>, T>::empty(),
    {
        let r = TextMap { pairs: Vec::new() };
        assert(r@ =~= Map::empty());
        r
    }

    /// The position of `key`, or the number of keys.
    fn find(&self, key: &str) -> (r: usize)
        ensures
            r == slot(self.pairs@, key@),
            r <= self.pairs.len(),
    {
        let wanted = key.to_owned();
        let mut i: usize = 0;
        while i < self.pairs.len()
            invariant
                i <= self.pairs.len(),
                wanted@ == key@,
                forall|j: int| 0 <= j < i ==> #[trigger] self.pairs@[j].0@ != key@,
            decreases self.pairs.len() - i,
        {
            if self.pairs[i].0 == wanted {
                proof {
                    lemma_slot_is(self.pairs@, key@, i as int);
                }
                return i;
            }
            i = i + 1;
        }
        proof {
            lemma_slot_is(self.pairs@, key@, i as int);
        }
        i
    }

    /// Whether `key` has a value.
    pub fn contains_key(&self, key: &str) -> (r: bool)
        ensures
            r == self@.contains_key(key@),
    {
        self.find(key) < self.pairs.len()
    }

    /// The value of `key`.
    pub fn get(&self, key: &str) -> (r: Option<&T>)
        ensures
            r == if self@.contains_key(key@) {
                Some(&self@[key@])
            } else {
                None
            },
    {
        let i = self.find(key);
        if i < self.pairs.len() {
            Some(&self.pairs[i].1)
        } else {
            None
        }
    }

    /// The keys with their values.
    pub(crate) fn pairs(&self) -> (r: &Vec<(String, T)>)
        ensures
            distinct_keys(r@),
            assigned(r@) == self@,
    {
        proof {
            use_type_invariant(self);
        }
        &self.pairs
    }

    /// The keys with their values.
    pub(crate) fn into_pairs(self) -> (r: Vec<(String, T)>)
        ensures
            distinct_keys(r@),
            assigned(r@) == self@,
    {
        proof {
            use_type_invariant(&self);
        }
        self.pairs
    }

    /// Gives `key` the value `value`, whatever it was before.
    pub fn insert(&mut self, key: String, value: T)
        ensures
            final(self)@ == old(self)@.insert(key@, value),
    {
        proof {
            use_type_invariant(&*self);
        }
        let i = self.find(key.as_str());
        let mut pairs: Vec<(String, T)> = Vec::new();
        std::mem::swap(&mut pairs, &mut self.pairs);
        let ghost before = pairs@;
        let ghost pair = (key, value);
        proof {
            lemma_slot(before, key@);
        }
        if i < pairs.len() {
            pairs.set(i, (key, value));
            proof {
                lemma_assigned_update(before, i as int, pair);
            }
        } else {
            pairs.push((key, value));
            proof {
                lemma_assigned_push(before, pair);
            }
        }
        self.pairs = pairs;
    }
}

} // verus!
