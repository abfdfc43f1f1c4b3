//! A string-to-string map with last-write-wins upsert semantics.
//!
//! `StrMap` backs every mapping of the request model: header sets, form
//! fields, and the two multipart field sets.  It is represented as a vector
//! of key/value pairs with pairwise-distinct keys, and is viewed abstractly
//! as a `Map<Seq<char>, Seq<char>>`.

use vstd::prelude::*;

verus! {

/// The character-level view of a sequence of string pairs.
pub open spec fn str_pairs_view(ps: Seq<(String, String)>) -> Seq<(Seq<char>, Seq<char>)> {
    ps.map_values(|p: (String, String)| (p.0@, p.1@))
}

/// The abstract map denoted by a sequence of key/value entries,
/// with later entries overriding earlier ones.
pub open spec fn map_of(es: Seq<(Seq<char>, Seq<char>)>) -> Map<Seq<char>, Seq<char>>
    decreases es.len(),
{
    if es.len() == 0 {
        Map::empty()
    } else {
        map_of(es.drop_last()).insert(es.last().0, es.last().1)
    }
}

/// A string-keyed, string-valued map.  Keys are unique; inserting an
/// existing key overwrites its value.
pub struct StrMap {
    pairs: Vec<(String, String)>,
}

impl View for StrMap {
    type V = Map<Seq<char>, Seq<char>>;

    open spec fn view(&self) -> Map<Seq<char>, Seq<char>> {
        map_of(self.entries())
    }
}

impl StrMap {
    /// The concrete entries, in insertion order.
    pub closed spec fn entries(&self) -> Seq<(Seq<char>, Seq<char>)> {
        str_pairs_view(self.pairs@)
    }

    /// Well-formedness: all keys are pairwise distinct.
    pub open spec fn wf(&self) -> bool {
        forall|i: int, j: int|
            0 <= i < j < self.entries().len() ==> (#[trigger] self.entries()[i]).0 != (
            #[trigger] self.entries()[j]).0
    }

    pub fn new() -> (r: StrMap)
        ensures
            r.wf(),
            r@ == Map::<Seq<char>, Seq<char>>::empty(),
            r.entries() == Seq::<(Seq<char>, Seq<char>)>::empty(),
    {
        let r = StrMap { pairs: Vec::new() };
        proof {
            assert(r.entries() =~= Seq::<(Seq<char>, Seq<char>)>::empty());
        }
        r
    }

    pub fn entry_count(&self) -> (n: usize)
        ensures
            n == self.entries().len(),
    {
        self.pairs.len()
    }

    pub fn key_at(&self, i: usize) -> (k: &String)
        requires
            i < self.entries().len(),
        ensures
            k@ == self.entries()[i as int].0,
    {
        &self.pairs[i].0
    }

    pub fn value_at(&self, i: usize) -> (v: &String)
        requires
            i < self.entries().len(),
        ensures
            v@ == self.entries()[i as int].1,
    {
        &self.pairs[i].1
    }

    /// Upsert: insert the pair, overwriting the value of an existing key.
    pub fn insert(&mut self, k: String, v: String)
        requires
            old(self).wf(),
        ensures
            final(self).wf(),
            final(self)@ == old(self)@.insert(k@, v@),
    {
        let n = self.pairs.len();
        let ghost es0 = self.entries();
        for i in 0..n
            invariant
                n == self.pairs@.len(),
                self.wf(),
                self.entries() == es0,
                es0 == old(self).entries(),
                forall|j: int| 0 <= j < i ==> (#[trigger] self.entries()[j]).0 != k@,
        {
            if self.pairs[i].0 == k {
                self.pairs[i].1 = v;
                proof {
                    assert(self.entries() =~= es0.update(i as int, (k@, v@)));
                    lemma_map_of_update(es0, i as int, k@, v@);
                    assert forall|p: int, q: int|
                        0 <= p < q < self.entries().len() implies (
                    #[trigger] self.entries()[p]).0 != (#[trigger] self.entries()[q]).0 by {
                        assert(self.entries()[p].0 == es0[p].0);
                        assert(self.entries()[q].0 == es0[q].0);
                    }
                }
                return ;
            }
        }
        self.pairs.push((k, v));
        proof {
            assert(self.entries() =~= es0.push((k@, v@)));
            assert(self.entries().drop_last() =~= es0);
        }
    }

    /// Look a key up; `Some` exactly when the key is present.
    pub fn get(&self, k: &str) -> (r: Option<&String>)
        requires
            self.wf(),
        ensures
            match r {
                Some(v) => self@.contains_key(k@) && v@ == self@[k@],
                None => !self@.contains_key(k@),
            },
    {
        let key: String = k.to_owned();
        let n = self.pairs.len();
        for i in 0..n
            invariant
                n == self.pairs@.len(),
                self.wf(),
                key@ == k@,
                forall|j: int| 0 <= j < i ==> (#[trigger] self.entries()[j]).0 != k@,
        {
            if self.pairs[i].0 == key {
                proof {
                    lemma_map_of_lookup(self.entries(), i as int);
                }
                return Some(&self.pairs[i].1);
            }
        }
        proof {
            lemma_map_of_dom(self.entries());
            if self@.contains_key(k@) {
                let i = choose|i: int|
                    0 <= i < self.entries().len() && (#[trigger] self.entries()[i]).0 == k@;
                assert(false);
            }
        }
        None
    }

    /// The number of entries, which for a well-formed map is the size of its
    /// abstract domain.
    pub fn len(&self) -> (n: usize)
        requires
            self.wf(),
        ensures
            n == self@.dom().len(),
    {
        proof {
            lemma_map_of_dom_len(self.entries());
        }
        self.pairs.len()
    }

    /// Clone the entries out as plain pairs, in insertion order.
    pub fn to_pairs(&self) -> (r: Vec<(String, String)>)
        ensures
            str_pairs_view(r@) == self.entries(),
    {
        let n = self.pairs.len();
        let mut r: Vec<(String, String)> = Vec::new();
        for i in 0..n
            invariant
                n == self.pairs@.len(),
                r@.len() == i,
                forall|j: int|
                    0 <= j < i ==> ((#[trigger] r@[j]).0@, r@[j].1@) == self.entries()[j],
        {
            let k = self.pairs[i].0.clone();
            let v = self.pairs[i].1.clone();
            r.push((k, v));
        }
        proof {
            assert(str_pairs_view(r@) =~= self.entries());
        }
        r
    }
}

/// The abstract domain of `map_of` is exactly the set of entry keys.
pub proof fn lemma_map_of_dom(es: Seq<(Seq<char>, Seq<char>)>)
    ensures
        forall|k: Seq<char>|
            #[trigger] map_of(es).contains_key(k) <==> exists|i: int|
                0 <= i < es.len() && (#[trigger] es[i]).0 == k,
    decreases es.len(),
{
    if es.len() > 0 {
        let prefix = es.drop_last();
        lemma_map_of_dom(prefix);
        assert(forall|i: int| 0 <= i < prefix.len() ==> #[trigger] prefix[i] == es[i]);
        assert forall|k: Seq<char>| #[trigger] map_of(es).contains_key(k) implies exists|i: int|
            0 <= i < es.len() && (#[trigger] es[i]).0 == k by {
            if k == es.last().0 {
                assert(0 <= es.len() - 1 < es.len() && (#[trigger] es[es.len() - 1]).0 == k);
            } else {
                assert(map_of(prefix).contains_key(k));
                let i = choose|i: int| 0 <= i < prefix.len() && (#[trigger] prefix[i]).0 == k;
                assert(0 <= i < es.len() && (#[trigger] es[i]).0 == k);
            }
        }
        assert forall|k: Seq<char>|
            exists|i: int| 0 <= i < es.len() && (#[trigger] es[i]).0 == k implies #[trigger] map_of(
            es).contains_key(k) by {
            let i = choose|i: int| 0 <= i < es.len() && (#[trigger] es[i]).0 == k;
            if i == es.len() - 1 {
                assert(k == es.last().0);
            } else {
                assert(0 <= i < prefix.len() && (#[trigger] prefix[i]).0 == k);
                assert(map_of(prefix).contains_key(k));
            }
        }
    }
}

/// With pairwise-distinct keys, entry `i` gives the abstract value of its key.
pub proof fn lemma_map_of_lookup(es: Seq<(Seq<char>, Seq<char>)>, i: int)
    requires
        0 <= i < es.len(),
        forall|p: int, q: int|
            0 <= p < q < es.len() ==> (#[trigger] es[p]).0 != (#[trigger] es[q]).0,
    ensures
        map_of(es).contains_key(es[i].0),
        map_of(es)[es[i].0] == es[i].1,
    decreases es.len(),
{
    if i < es.len() - 1 {
        lemma_map_of_lookup(es.drop_last(), i);
        assert(es.drop_last()[i] == es[i]);
        assert(es[i].0 != es.last().0);
    }
}

/// With pairwise-distinct keys, the abstract domain has one element per entry.
proof fn lemma_map_of_dom_len(es: Seq<(Seq<char>, Seq<char>)>)
    requires
        forall|p: int, q: int|
            0 <= p < q < es.len() ==> (#[trigger] es[p]).0 != (#[trigger] es[q]).0,
    ensures
        map_of(es).dom().finite(),
        map_of(es).dom().len() == es.len(),
    decreases es.len(),
{
    if es.len() == 0 {
        assert(map_of(es).dom() =~= Set::<Seq<char>>::empty());
    } else {
        let prefix = es.drop_last();
        lemma_map_of_dom_len(prefix);
        lemma_map_of_dom(prefix);
        assert(!map_of(prefix).contains_key(es.last().0)) by {
            if map_of(prefix).contains_key(es.last().0) {
                let i = choose|i: int|
                    0 <= i < prefix.len() && (#[trigger] prefix[i]).0 == es.last().0;
                assert(es[i].0 == es[es.len() - 1].0);
            }
        }
        assert(map_of(es).dom() =~= map_of(prefix).dom().insert(es.last().0));
        vstd::set::axiom_set_insert_len(map_of(prefix).dom(), es.last().0);
    }
}

/// Updating the value at entry `i` (whose key is `k`) denotes a map insert.
proof fn lemma_map_of_update(es: Seq<(Seq<char>, Seq<char>)>, i: int, k: Seq<char>, v: Seq<
    char>)
    requires
        0 <= i < es.len(),
        es[i].0 == k,
        forall|p: int, q: int|
            0 <= p < q < es.len() ==> (#[trigger] es[p]).0 != (#[trigger] es[q]).0,
    ensures
        map_of(es.update(i, (k, v))) == map_of(es).insert(k, v),
    decreases es.len(),
{
    let es2 = es.update(i, (k, v));
    if i == es.len() - 1 {
        assert(es2.drop_last() =~= es.drop_last());
        assert(map_of(es2) =~= map_of(es).insert(k, v));
    } else {
        assert(es2.drop_last() =~= es.drop_last().update(i, (k, v)));
        lemma_map_of_update(es.drop_last(), i, k, v);
        assert(es.drop_last()[i] == es[i]);
        assert(es.last().0 != k);
        assert(map_of(es2) =~= map_of(es).insert(k, v));
    }
}

} // verus!
