//! The header mapping of a request: each key once, the last value given to
//! a key being the one that is kept.

use vstd::prelude::*;

verus! {

/// No key stands in two pairs.
pub open spec fn keys_distinct(pairs: Seq<(String, String)>) -> bool {
    forall|i: int, j: int|
        #![trigger pairs[i], pairs[j]]
        0 <= i < j < pairs.len() ==> pairs[i].0@ != pairs[j].0@
}

/// The mapping that a list of pairs makes when they are inserted in order.
pub open spec fn pairs_map(pairs: Seq<(String, String)>) -> Map<Seq<char>, Seq<char>>
    decreases pairs.len(),
{
    if pairs.len() == 0 {
        Map::empty()
    } else {
        pairs_map(pairs.drop_last()).insert(pairs.last().0@, pairs.last().1@)
    }
}

/// A key that stands in no pair is no key of the mapping.
proof fn lemma_absent_key(pairs: Seq<(String, String)>, key: Seq<char>)
    requires
        forall|i: int| 0 <= i < pairs.len() ==> (#[trigger] pairs[i]).0@ != key,
    ensures
        !pairs_map(pairs).contains_key(key),
    decreases pairs.len(),
{
    if pairs.len() > 0 {
        let earlier = pairs.drop_last();
        assert forall|i: int| 0 <= i < earlier.len() implies (#[trigger] earlier[i]).0@ != key by {
            assert(earlier[i] == pairs[i]);
        }
        lemma_absent_key(earlier, key);
        assert(pairs.last() == pairs[pairs.len() - 1]);
    }
}

/// Where keys are distinct, the mapping sends the key of each pair to the
/// value of that pair.
proof fn lemma_present_key(pairs: Seq<(String, String)>, at: int)
    requires
        keys_distinct(pairs),
        0 <= at < pairs.len(),
    ensures
        pairs_map(pairs).contains_key(pairs[at].0@),
        pairs_map(pairs)[pairs[at].0@] == pairs[at].1@,
    decreases pairs.len(),
{
    let last = pairs.len() - 1;
    if at < last {
        let earlier = pairs.drop_last();
        assert(keys_distinct(earlier)) by {
            assert forall|i: int, j: int|
                #![trigger earlier[i], earlier[j]]
                0 <= i < j < earlier.len() implies earlier[i].0@ != earlier[j].0@ by {
                assert(earlier[i] == pairs[i] && earlier[j] == pairs[j]);
            }
        }
        lemma_present_key(earlier, at);
        assert(earlier[at] == pairs[at]);
        assert(pairs[at].0@ != pairs[last].0@);
    }
}

/// Where keys are distinct, putting a new value in the place of a key's
/// pair is an insertion into the mapping.
proof fn lemma_replace_value(pairs: Seq<(String, String)>, at: int, pair: (String, String))
    requires
        keys_distinct(pairs),
        0 <= at < pairs.len(),
        pair.0@ == pairs[at].0@,
    ensures
        keys_distinct(pairs.update(at, pair)),
        pairs_map(pairs.update(at, pair)) == pairs_map(pairs).insert(pair.0@, pair.1@),
    decreases pairs.len(),
{
    let changed = pairs.update(at, pair);
    let last = pairs.len() - 1;
    assert forall|i: int, j: int|
        #![trigger changed[i], changed[j]]
        0 <= i < j < changed.len() implies changed[i].0@ != changed[j].0@ by {
        assert(changed[i].0@ == pairs[i].0@ && changed[j].0@ == pairs[j].0@);
    }
    let earlier = pairs.drop_last();
    if at == last {
        assert(changed.drop_last() =~= earlier);
        assert(pairs_map(changed) =~= pairs_map(pairs).insert(pair.0@, pair.1@));
    } else {
        assert(keys_distinct(earlier)) by {
            assert forall|i: int, j: int|
                #![trigger earlier[i], earlier[j]]
                0 <= i < j < earlier.len() implies earlier[i].0@ != earlier[j].0@ by {
                assert(earlier[i] == pairs[i] && earlier[j] == pairs[j]);
            }
        }
        assert(earlier[at] == pairs[at]);
        lemma_replace_value(earlier, at, pair);
        assert(changed.drop_last() =~= earlier.update(at, pair));
        assert(changed.last() == pairs.last());
        assert(pairs[at].0@ != pairs[last].0@);
        assert(pairs_map(changed) =~= pairs_map(pairs).insert(pair.0@, pair.1@));
    }
}

/// The header mapping of a request.
#[derive(Debug)]
pub struct Headers {
    pairs: Vec<(String, String)>,
}

impl View for Headers {
    type V = Map<Seq<char>, Seq<char>>;

    closed spec fn view(&self) -> Map<Seq<char>, Seq<char>> {
        pairs_map(self.pairs@)
    }
}

impl Headers {
    #[verifier::type_invariant]
    spec fn each_key_once(self) -> bool {
        keys_distinct(self.pairs@)
    }

    /// The empty mapping.
    pub fn new() -> (headers: Self)
        ensures
            headers@ == Map::<Seq<char>, Seq<char>>::empty(),
    {
        Headers { pairs: Vec::new() }
    }

    /// The place of a key among the pairs.
    fn position(&self, key: &String) -> (place: Option<usize>)
        ensures
            match place {
                Some(at) => at < self.pairs@.len() && self.pairs@[at as int].0@ == key@,
                None => forall|i: int|
                    0 <= i < self.pairs@.len() ==> (#[trigger] self.pairs@[i]).0@ != key@,
            },
    {
        let mut at: usize = 0;
        while at < self.pairs.len()
            invariant
                at <= self.pairs@.len(),
                forall|i: int| 0 <= i < at ==> (#[trigger] self.pairs@[i]).0@ != key@,
            decreases self.pairs@.len() - at,
        {
            if self.pairs[at].0 == *key {
                return Some(at);
            }
            at = at + 1;
        }
        None
    }

    /// Gives a key its value. A value that the key had before is lost.
    pub fn insert(&mut self, key: String, value: String)
        ensures
            final(self)@ == old(self)@.insert(key@, value@),
    {
        proof {
            use_type_invariant(&*self);
        }
        let ghost before = self.pairs@;
        let place = self.position(&key);
        let mut pairs: Vec<(String, String)> = Vec::new();
        core::mem::swap(&mut pairs, &mut self.pairs);
        match place {
            Some(at) => {
                proof {
                    lemma_replace_value(before, at as int, (key, value));
                }
                pairs.set(at, (key, value));
            },
            None => {
                pairs.push((key, value));
                proof {
                    assert(pairs@.drop_last() =~= before);
                    assert forall|i: int, j: int|
                        #![trigger pairs@[i], pairs@[j]]
                        0 <= i < j < pairs@.len() implies pairs@[i].0@ != pairs@[j].0@ by {
                        assert(pairs@[i] == before[i]);
                        if j < before.len() {
                            assert(pairs@[j] == before[j]);
                        }
                    }
                }
            },
        }
        self.pairs = pairs;
    }

    /// The value of a key, if it has one.
    pub fn get(&self, key: &str) -> (value: Option<&String>)
        ensures
            match value {
                Some(v) => self@.contains_key(key@) && self@[key@] == v@,
                None => !self@.contains_key(key@),
            },
    {
        proof {
            use_type_invariant(self);
        }
        let wanted = key.to_owned();
        match self.position(&wanted) {
            Some(at) => {
                proof {
                    lemma_present_key(self.pairs@, at as int);
                }
                Some(&self.pairs[at].1)
            },
            None => {
                proof {
                    lemma_absent_key(self.pairs@, key@);
                }
                None
            },
        }
    }

    /// The pairs of the mapping, each key once.
    pub fn pairs(&self) -> (pairs: &Vec<(String, String)>)
        ensures
            keys_distinct(pairs@),
            pairs_map(pairs@) == self@,
    {
        proof {
            use_type_invariant(self);
        }
        &self.pairs
    }
}

} // verus!
