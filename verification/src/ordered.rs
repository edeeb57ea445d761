//! Ordered collections of strings: a set and a map whose entries are kept in the order of their
//! keys, so that walking them is deterministic.

use crate::text::{
    copies, equal, lemma_lex_less_irreflexive, lemma_lex_less_total, lemma_lex_less_transitive,
    less, lex_less, texts,
};
use vstd::prelude::*;

verus! {

/// Strictly increasing in the order of strings.
pub open spec fn sorted(keys: Seq<Seq<char>>) -> bool {
    forall|i: int, j: int|
        0 <= i < j < keys.len() ==> lex_less(#[trigger] keys[i], #[trigger] keys[j])
}

pub proof fn lemma_sorted_no_duplicates(keys: Seq<Seq<char>>)
    requires
        sorted(keys),
    ensures
        keys.no_duplicates(),
{
    assert forall|i: int, j: int| 0 <= i < keys.len() && 0 <= j < keys.len() && i != j implies keys[i]
        != keys[j] by {
        lemma_lex_less_irreflexive(keys[i]);
        if i < j {
            assert(lex_less(keys[i], keys[j]));
        } else {
            assert(lex_less(keys[j], keys[i]));
        }
    }
}

/// The order in which a set of strings is walked is determined by the set: two strictly
/// increasing sequences with the same members are the same sequence.
pub proof fn law_order_is_determined(a: Seq<Seq<char>>, b: Seq<Seq<char>>)
    requires
        sorted(a),
        sorted(b),
        a.to_set() == b.to_set(),
    ensures
        a == b,
    decreases a.len(),
{
    if a.len() == 0 {
        if b.len() > 0 {
            assert(b.to_set().contains(b[0]));
            assert(a.to_set().contains(b[0]));
        }
        assert(a =~= b);
    } else {
        assert(a.to_set().contains(a.last()));
        assert(b.contains(a.last()));
        let n = a.last();
        let m = b.last();
        assert(b.to_set().contains(m));
        assert(a.contains(m));
        if n != m {
            let i = choose|i: int| 0 <= i < b.len() && b[i] == n;
            let j = choose|j: int| 0 <= j < a.len() && a[j] == m;
            assert(lex_less(b[i], b[b.len() - 1]));
            assert(lex_less(a[j], a[a.len() - 1]));
            lemma_lex_less_transitive(n, m, n);
            lemma_lex_less_irreflexive(n);
        }
        let x = a.drop_last();
        let y = b.drop_last();
        lemma_sorted_no_duplicates(a);
        lemma_sorted_no_duplicates(b);
        assert forall|k: Seq<char>| x.to_set().contains(k) <==> y.to_set().contains(k) by {
            if x.contains(k) {
                let i = choose|i: int| 0 <= i < x.len() && x[i] == k;
                assert(a[i] == k);
                assert(a.to_set().contains(k));
                assert(b.contains(k));
                let j = choose|j: int| 0 <= j < b.len() && b[j] == k;
                assert(k != n);
                assert(y[j] == k);
            }
            if y.contains(k) {
                let j = choose|j: int| 0 <= j < y.len() && y[j] == k;
                assert(b[j] == k);
                assert(b.to_set().contains(k));
                assert(a.contains(k));
                let i = choose|i: int| 0 <= i < a.len() && a[i] == k;
                assert(k != m);
                assert(x[i] == k);
            }
        }
        assert(x.to_set() =~= y.to_set());
        law_order_is_determined(x, y);
        assert(a =~= x.push(n));
        assert(b =~= y.push(m));
    }
}

/// Where `key` stands or belongs in `keys`, and whether it stands there.
fn position(keys: &Vec<String>, key: &str) -> (res: (usize, bool))
    requires
        sorted(texts(keys@)),
    ensures
        res.0 <= keys.len(),
        forall|i: int| 0 <= i < res.0 ==> lex_less(#[trigger] texts(keys@)[i], key@),
        res.1 ==> res.0 < keys.len() && texts(keys@)[res.0 as int] == key@,
        !res.1 ==> forall|i: int|
            res.0 <= i < keys.len() ==> lex_less(key@, #[trigger] texts(keys@)[i]),
        res.1 == texts(keys@).contains(key@),
{
    let ghost all = texts(keys@);
    let mut i: usize = 0;
    while i < keys.len() && less(keys[i].as_str(), key)
        invariant
            i <= keys.len(),
            all == texts(keys@),
            forall|j: int| 0 <= j < i ==> lex_less(#[trigger] all[j], key@),
        decreases keys.len() - i,
    {
        i += 1;
    }
    proof {
        lemma_lex_less_irreflexive(key@);
    }
    if i == keys.len() {
        return (i, false);
    }
    let found = equal(keys[i].as_str(), key);
    proof {
        lemma_lex_less_total(all[i as int], key@);
        if found {
            assert(all[i as int] == key@);
        } else {
            assert(lex_less(key@, all[i as int]));
            assert forall|j: int| i <= j < keys.len() implies lex_less(key@, #[trigger] all[j]) by {
                if j > i {
                    lemma_lex_less_transitive(key@, all[i as int], all[j]);
                }
            }
        }
    }
    (i, found)
}

proof fn lemma_insert_keeps_sorted(keys: Seq<Seq<char>>, at: int, key: Seq<char>)
    requires
        sorted(keys),
        0 <= at <= keys.len(),
        forall|i: int| 0 <= i < at ==> lex_less(#[trigger] keys[i], key),
        forall|i: int| at <= i < keys.len() ==> lex_less(key, #[trigger] keys[i]),
    ensures
        sorted(keys.insert(at, key)),
{
    let new = keys.insert(at, key);
    assert forall|i: int, j: int| 0 <= i < j < new.len() implies lex_less(
        #[trigger] new[i],
        #[trigger] new[j],
    ) by {
        let x = if i < at {
            i
        } else {
            i - 1
        };
        let y = if j < at {
            j
        } else {
            j - 1
        };
        if i != at {
            assert(new[i] == keys[x]);
        }
        if j != at {
            assert(new[j] == keys[y]);
        }
    }
}

/// An ordered set of strings.
#[derive(Debug, PartialEq, Eq)]
pub struct StringSet {
    names: Vec<String>,
}

impl View for StringSet {
    type V = Set<Seq<char>>;

    closed spec fn view(&self) -> Set<Seq<char>> {
        texts(self.names@).to_set()
    }
}

impl StringSet {
    #[verifier::type_invariant]
    spec fn ordered(self) -> bool {
        sorted(texts(self.names@))
    }

    /// The members in order.
    pub closed spec fn members(self) -> Seq<Seq<char>> {
        texts(self.names@)
    }

    pub fn new() -> (res: Self)
        ensures
            res@ == Set::<Seq<char>>::empty(),
    {
        let names: Vec<String> = Vec::new();
        proof {
            assert(texts(names@).to_set() =~= Set::<Seq<char>>::empty());
        }
        StringSet { names }
    }

    pub fn insert(&mut self, name: String)
        ensures
            final(self)@ == old(self)@.insert(name@),
    {
        proof {
            use_type_invariant(&*self);
        }
        let ghost before = texts(self.names@);
        let mut names: Vec<String> = Vec::new();
        std::mem::swap(&mut names, &mut self.names);
        let (at, found) = position(&names, name.as_str());
        let ghost key = name@;
        if !found {
            let ghost strings = names@;
            names.insert(at, name);
            proof {
                lemma_insert_keeps_sorted(before, at as int, key);
                assert(texts(names@) =~= before.insert(at as int, key));
                lemma_to_set_after_insert(before, at as int, key);
            }
        } else {
            proof {
                assert(before.to_set().contains(key));
                assert(before.to_set() =~= before.to_set().insert(key));
            }
        }
        self.names = names;
    }

    pub fn contains(&self, name: &str) -> (res: bool)
        ensures
            res == self@.contains(name@),
    {
        proof {
            use_type_invariant(self);
        }
        position(&self.names, name).1
    }

    /// The members in order.
    pub fn to_vec(&self) -> (res: Vec<String>)
        ensures
            texts(res@) == self.members(),
            sorted(self.members()),
            self.members().to_set() == self@,
    {
        proof {
            use_type_invariant(self);
        }
        copies(&self.names)
    }

    /// The set of the given names.
    pub fn from_vec(names: Vec<String>) -> (res: Self)
        ensures
            res@ == texts(names@).to_set(),
    {
        let mut res = StringSet::new();
        let mut i: usize = 0;
        proof {
            assert(texts(names@).take(0).to_set() =~= Set::<Seq<char>>::empty());
        }
        while i < names.len()
            invariant
                i <= names.len(),
                res@ == texts(names@).take(i as int).to_set(),
            decreases names.len() - i,
        {
            res.insert(names[i].clone());
            proof {
                let all = texts(names@);
                assert(all.take(i + 1) =~= all.take(i as int).push(all[i as int]));
                all.take(i as int).lemma_push_to_set_commute(all[i as int]);
            }
            i += 1;
        }
        proof {
            assert(texts(names@).take(names.len() as int) =~= texts(names@));
        }
        res
    }

    /// The members that `other` does not have, in order.
    pub fn difference(&self, other: &StringSet) -> (res: Vec<String>)
        ensures
            texts(res@) == self.members().filter(|name: Seq<char>| !other@.contains(name)),
            texts(res@).to_set() == self@.difference(other@),
            res.len() == 0 <==> self@.subset_of(other@),
    {
        proof {
            use_type_invariant(self);
        }
        let ghost missing = |name: Seq<char>| !other@.contains(name);
        let ghost all = texts(self.names@);
        let mut res: Vec<String> = Vec::new();
        let mut i: usize = 0;
        proof {
            reveal(Seq::filter);
            assert(all.take(0) =~= seq![]);
            assert(texts(res@) =~= seq![]);
        }
        while i < self.names.len()
            invariant
                i <= self.names.len(),
                all == texts(self.names@),
                missing == (|name: Seq<char>| !other@.contains(name)),
                texts(res@) == all.take(i as int).filter(missing),
            decreases self.names.len() - i,
        {
            let ghost before = texts(res@);
            proof {
                reveal(Seq::filter);
                assert(all.take(i + 1).drop_last() =~= all.take(i as int));
            }
            if !other.contains(self.names[i].as_str()) {
                res.push(self.names[i].clone());
                proof {
                    assert(texts(res@) =~= before.push(all[i as int]));
                }
            }
            i += 1;
        }
        proof {
            assert(all.take(all.len() as int) =~= all);
            broadcast use vstd::seq_lib::group_filter_ensures;

            let out = all.filter(missing);
            assert forall|k: Seq<char>| out.to_set().contains(k) <==> self@.difference(
                other@,
            ).contains(k) by {
                if self@.difference(other@).contains(k) {
                    let j = choose|j: int| 0 <= j < all.len() && all[j] == k;
                    assert(missing(all[j]));
                }
                if out.contains(k) {
                    let j = choose|j: int| 0 <= j < out.len() && out[j] == k;
                    assert(missing(out[j]));
                    all.lemma_filter_contains_rev(missing, k);
                }
            }
            assert(out.to_set() =~= self@.difference(other@));
            if res.len() == 0 {
                assert forall|k: Seq<char>| self@.contains(k) implies other@.contains(k) by {
                    if !other@.contains(k) {
                        assert(out.to_set().contains(k));
                    }
                }
            } else {
                assert(out.to_set().contains(out[0]));
            }
        }
        res
    }

    pub fn is_subset(&self, other: &StringSet) -> (res: bool)
        ensures
            res == self@.subset_of(other@),
    {
        self.difference(other).len() == 0
    }

    pub fn union(&self, other: &StringSet) -> (res: StringSet)
        ensures
            res@ == self@.union(other@),
    {
        proof {
            use_type_invariant(self);
            use_type_invariant(other);
        }
        let mut res = self.clone();
        let ghost more = texts(other.names@);
        let mut i: usize = 0;
        proof {
            assert(self@.union(more.take(0).to_set()) =~= self@);
        }
        while i < other.names.len()
            invariant
                i <= other.names.len(),
                more == texts(other.names@),
                res@ == self@.union(more.take(i as int).to_set()),
            decreases other.names.len() - i,
        {
            res.insert(other.names[i].clone());
            proof {
                assert(more.take(i + 1) =~= more.take(i as int).push(more[i as int]));
                more.take(i as int).lemma_push_to_set_commute(more[i as int]);
                assert(res@ =~= self@.union(more.take(i + 1).to_set()));
            }
            i += 1;
        }
        proof {
            assert(more.take(more.len() as int) =~= more);
        }
        res
    }
}

impl Clone for StringSet {
    fn clone(&self) -> (res: Self)
        ensures
            res@ == self@,
            res.members() == self.members(),
    {
        proof {
            use_type_invariant(self);
        }
        StringSet { names: copies(&self.names) }
    }
}

proof fn lemma_to_set_after_insert(keys: Seq<Seq<char>>, at: int, key: Seq<char>)
    requires
        0 <= at <= keys.len(),
    ensures
        keys.insert(at, key).to_set() == keys.to_set().insert(key),
{
    let new = keys.insert(at, key);
    assert forall|k: Seq<char>| new.to_set().contains(k) <==> keys.to_set().insert(key).contains(k) by {
        if keys.contains(k) {
            let i = choose|i: int| 0 <= i < keys.len() && keys[i] == k;
            if i < at {
                assert(new[i] == k);
            } else {
                assert(new[i + 1] == k);
            }
        }
        assert(new[at] == key);
        if new.contains(k) && k != key {
            let i = choose|i: int| 0 <= i < new.len() && new[i] == k;
            if i < at {
                assert(keys[i] == k);
            } else {
                assert(keys[i - 1] == k);
            }
        }
    }
    assert(new.to_set() =~= keys.to_set().insert(key));
}

/// The map from each key to the value at its place.
pub open spec fn map_of(keys: Seq<Seq<char>>, values: Seq<Seq<char>>) -> Map<Seq<char>, Seq<char>> {
    Map::new(|key: Seq<char>| keys.contains(key), |key: Seq<char>| values[keys.index_of(key)])
}

proof fn lemma_index_of(keys: Seq<Seq<char>>, i: int)
    requires
        sorted(keys),
        0 <= i < keys.len(),
    ensures
        keys.index_of(keys[i]) == i,
{
    lemma_sorted_no_duplicates(keys);
    let j = keys.index_of(keys[i]);
    assert(0 <= j < keys.len() && keys[j] == keys[i]);
}

/// An ordered map from strings to strings.
#[derive(Debug, PartialEq, Eq)]
pub struct StringMap {
    keys: Vec<String>,
    values: Vec<String>,
}

impl View for StringMap {
    type V = Map<Seq<char>, Seq<char>>;

    closed spec fn view(&self) -> Map<Seq<char>, Seq<char>> {
        map_of(texts(self.keys@), texts(self.values@))
    }
}

impl StringMap {
    #[verifier::type_invariant]
    spec fn ordered(self) -> bool {
        sorted(texts(self.keys@)) && self.keys.len() == self.values.len()
    }

    /// The keys in order.
    pub closed spec fn key_seq(self) -> Seq<Seq<char>> {
        texts(self.keys@)
    }

    pub fn new() -> (res: Self)
        ensures
            res@ == Map::<Seq<char>, Seq<char>>::empty(),
    {
        let keys: Vec<String> = Vec::new();
        let values: Vec<String> = Vec::new();
        proof {
            assert(map_of(texts(keys@), texts(values@)) =~= Map::<Seq<char>, Seq<char>>::empty());
        }
        StringMap { keys, values }
    }

    pub fn insert(&mut self, key: String, value: String)
        ensures
            final(self)@ == old(self)@.insert(key@, value@),
    {
        proof {
            use_type_invariant(&*self);
        }
        let ghost ks = texts(self.keys@);
        let ghost vs = texts(self.values@);
        let ghost k = key@;
        let ghost v = value@;
        let mut taken = StringMap::new();
        std::mem::swap(&mut taken, self);
        let mut keys = taken.keys;
        let mut values = taken.values;
        let (at, found) = position(&keys, key.as_str());
        if found {
            values.set(at, value);
            proof {
                assert(texts(values@) =~= vs.update(at as int, v));
                lemma_index_of(ks, at as int);
                assert forall|x: Seq<char>| ks.contains(x) && x != k implies #[trigger] ks.index_of(x)
                    != at by {}
                assert(map_of(ks, vs.update(at as int, v)) =~= map_of(ks, vs).insert(k, v));
            }
        } else {
            keys.insert(at, key);
            values.insert(at, value);
            proof {
                let ks2 = ks.insert(at as int, k);
                let vs2 = vs.insert(at as int, v);
                lemma_insert_keeps_sorted(ks, at as int, k);
                assert(texts(keys@) =~= ks2);
                assert(texts(values@) =~= vs2);
                lemma_to_set_after_insert(ks, at as int, k);
                lemma_index_of(ks2, at as int);
                assert(ks2[at as int] == k);
                assert forall|x: Seq<char>| ks.contains(x) implies vs2[ks2.index_of(x)]
                    == vs[ks.index_of(x)] by {
                    let i = ks.index_of(x);
                    if i < at {
                        assert(ks2[i] == x);
                        lemma_index_of(ks2, i);
                    } else {
                        assert(ks2[i + 1] == x);
                        lemma_index_of(ks2, i + 1);
                    }
                }
                assert(map_of(ks2, vs2) =~= map_of(ks, vs).insert(k, v));
            }
        }
        *self = StringMap { keys, values };
    }

    /// The value of `key`.
    pub fn get(&self, key: &str) -> (res: Option<String>)
        ensures
            match res {
                Some(value) => self@.contains_key(key@) && self@[key@] == value@,
                None => !self@.contains_key(key@),
            },
    {
        proof {
            use_type_invariant(self);
        }
        let (at, found) = position(&self.keys, key);
        if found {
            proof {
                lemma_index_of(texts(self.keys@), at as int);
            }
            Some(self.values[at].clone())
        } else {
            None
        }
    }

    pub fn contains_key(&self, key: &str) -> (res: bool)
        ensures
            res == self@.contains_key(key@),
    {
        proof {
            use_type_invariant(self);
        }
        position(&self.keys, key).1
    }

    pub fn len(&self) -> (res: usize)
        ensures
            res == self.key_seq().len(),
            sorted(self.key_seq()),
            self.key_seq().to_set() == self@.dom(),
    {
        proof {
            use_type_invariant(self);
        }
        self.keys.len()
    }

    /// The entry at `i` in the order of the keys.
    pub fn entry(&self, i: usize) -> (res: (String, String))
        requires
            i < self.key_seq().len(),
        ensures
            res.0@ == self.key_seq()[i as int],
            self@.contains_key(res.0@),
            res.1@ == self@[res.0@],
    {
        proof {
            use_type_invariant(self);
            lemma_index_of(texts(self.keys@), i as int);
            assert(texts(self.keys@).to_set().contains(texts(self.keys@)[i as int]));
        }
        (self.keys[i].clone(), self.values[i].clone())
    }
}

impl Clone for StringMap {
    fn clone(&self) -> (res: Self)
        ensures
            res@ == self@,
            res.key_seq() == self.key_seq(),
    {
        proof {
            use_type_invariant(self);
        }
        StringMap { keys: copies(&self.keys), values: copies(&self.values) }
    }
}

} // verus!
