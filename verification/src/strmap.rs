//! A map from strings to values, backed by a vector of pairs and viewed as a
//! `Map<Seq<char>, V>`. A later insertion of the same key overrides the
//! earlier one, as the lookup scans from the most recent pair backwards.

use vstd::prelude::*;

verus! {

/// The value of the most recent pair with the given key.
pub open spec fn kv_get<V>(pairs: Seq<(String, V)>, key: Seq<char>) -> Option<V>
    decreases pairs.len(),
{
    if pairs.len() == 0 {
        None
    } else if pairs.last().0@ == key {
        Some(pairs.last().1)
    } else {
        kv_get(pairs.drop_last(), key)
    }
}

/// A map from strings to values of type `V`.
#[derive(Debug, PartialEq)]
pub struct StrMap<V> {
    pairs: Vec<(String, V)>,
}

impl<V> View for StrMap<V> {
    type V = Map<Seq<char>, V>;

    closed spec fn view(&self) -> Map<Seq<char>, V> {
        Map::new(
            |k: Seq<char>| kv_get(self.pairs@, k) is Some,
            |k: Seq<char>| kv_get(self.pairs@, k)->0,
        )
    }
}

impl<V> StrMap<V> {
    /// The number of pairs held; an upper bound on the size of the domain.
    pub closed spec fn spec_len(self) -> nat {
        self.pairs@.len()
    }

    /// An empty map.
    pub fn new() -> (r: StrMap<V>)
        ensures
            r@ == Map::<Seq<char>, V>::empty(),
            r.spec_len() == 0,
    {
        let r = StrMap { pairs: Vec::new() };
        proof {
            assert(r@ =~= Map::<Seq<char>, V>::empty());
        }
        r
    }

    /// Binds `key` to `value`, overriding any earlier binding.
    pub fn insert(&mut self, key: String, value: V)
        ensures
            final(self)@ == old(self)@.insert(key@, value),
            final(self).spec_len() == old(self).spec_len() + 1,
    {
        let ghost old_pairs = self.pairs@;
        let ghost k = key@;
        let ghost v = value;
        self.pairs.push((key, value));
        proof {
            assert(self.pairs@.drop_last() =~= old_pairs);
            assert forall|q: Seq<char>| true implies #[trigger] kv_get(self.pairs@, q) == (if q
                == k {
                Some(v)
            } else {
                kv_get(old_pairs, q)
            }) by {
                assert(self.pairs@.last().0@ == k);
            }
            assert(final(self)@ =~= old(self)@.insert(k, v));
        }
    }

    /// The value bound to `key`, if any.
    pub fn get<'a>(&'a self, key: &str) -> (r: Option<&'a V>)
        ensures
            match r {
                Some(v) => self@.dom().contains(key@) && *v == self@[key@],
                None => !self@.dom().contains(key@),
            },
    {
        let n = self.pairs.len();
        let mut j: usize = n;
        assert(self.pairs@.take(n as int) =~= self.pairs@);
        while j > 0
            invariant
                j <= n,
                n == self.pairs@.len(),
                kv_get(self.pairs@, key@) == kv_get(self.pairs@.take(j as int), key@),
            ensures
                j <= n,
                n == self.pairs@.len(),
                kv_get(self.pairs@, key@) == kv_get(self.pairs@.take(j as int), key@),
                j == 0 || self.pairs@[j - 1].0@ == key@,
            decreases j,
        {
            proof {
                assert(self.pairs@.take(j as int).last() == self.pairs@[j - 1]);
                assert(self.pairs@.take(j as int).drop_last() =~= self.pairs@.take(j - 1));
            }
            if crate::text::str_eq(self.pairs[j - 1].0.as_str(), key) {
                break ;
            }
            j = j - 1;
        }
        if j == 0 {
            proof {
                assert(self.pairs@.take(0) =~= Seq::<(String, V)>::empty());
            }
            None
        } else {
            proof {
                assert(self.pairs@.take(j as int).last() == self.pairs@[j - 1]);
            }
            Some(&self.pairs[j - 1].1)
        }
    }

    /// Whether `key` is bound.
    pub fn contains_key(&self, key: &str) -> (r: bool)
        ensures
            r == self@.dom().contains(key@),
    {
        self.get(key).is_some()
    }

    /// The pairs held, oldest first. The map view is exactly the bindings
    /// these pairs make, the most recent pair per key winning.
    pub fn items<'a>(&'a self) -> (r: &'a Vec<(String, V)>)
        ensures
            r@.len() == self.spec_len(),
            forall|k: Seq<char>| self@.dom().contains(k) <==> kv_get(r@, k) is Some,
            forall|k: Seq<char>| self@.dom().contains(k) ==> self@[k] == kv_get(r@, k)->0,
            forall|i: int| 0 <= i < r@.len() ==> self@.dom().contains(#[trigger] r@[i].0@),
    {
        proof {
            assert forall|i: int| 0 <= i < self.pairs@.len() implies self@.dom().contains(
                #[trigger] self.pairs@[i].0@,
            ) by {
                lemma_kv_get_present(self.pairs@, i);
            }
        }
        &self.pairs
    }

    /// The number of pairs held.
    pub fn len(&self) -> (r: usize)
        ensures
            r == self.spec_len(),
    {
        self.pairs.len()
    }

    /// The domain is finite and no larger than the number of insertions.
    pub proof fn lemma_dom_bound(self)
        ensures
            self@.dom().finite(),
            self@.dom().len() <= self.spec_len(),
    {
        lemma_kv_dom(self.pairs@);
        assert(self@.dom() =~= kv_dom(self.pairs@));
    }
}

/// The set of keys with a binding.
pub open spec fn kv_dom<V>(pairs: Seq<(String, V)>) -> Set<Seq<char>> {
    Set::new(|k: Seq<char>| kv_get(pairs, k) is Some)
}

/// A key occurring anywhere among the pairs has a binding.
proof fn lemma_kv_get_present<V>(pairs: Seq<(String, V)>, i: int)
    requires
        0 <= i < pairs.len(),
    ensures
        kv_get(pairs, pairs[i].0@) is Some,
    decreases pairs.len(),
{
    if i == pairs.len() - 1 {
    } else if pairs.last().0@ == pairs[i].0@ {
    } else {
        lemma_kv_get_present(pairs.drop_last(), i);
        assert(pairs.drop_last()[i] == pairs[i]);
    }
}

proof fn lemma_kv_dom<V>(pairs: Seq<(String, V)>)
    ensures
        kv_dom(pairs).finite(),
        kv_dom(pairs).len() <= pairs.len(),
    decreases pairs.len(),
{
    if pairs.len() == 0 {
        assert(kv_dom(pairs) =~= Set::<Seq<char>>::empty());
    } else {
        lemma_kv_dom(pairs.drop_last());
        assert(kv_dom(pairs) =~= kv_dom(pairs.drop_last()).insert(pairs.last().0@));
        vstd::set::axiom_set_insert_finite(kv_dom(pairs.drop_last()), pairs.last().0@);
        vstd::set::axiom_set_insert_len(kv_dom(pairs.drop_last()), pairs.last().0@);
    }
}

} // verus!
