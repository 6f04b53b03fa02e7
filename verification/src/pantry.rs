//! Ingredient quantities keyed by name.
//!
//! An [`IngredientMap`] keeps its entries in insertion order and never holds
//! a name twice. Contracts speak of it through its view, a
//! `Map<Seq<char>, u32>` from names to quantities.
//!
//! The entries stand in a vector, not in a hash map: of a hash map with
//! `String` keys vstd states nothing that a proof could use, and the order
//! in which one is walked is not a matter of its contents alone.

use vstd::prelude::*;

verus! {

/// The mapping that a list of `(name, quantity)` pairs stands for. Where a
/// name occurs more than once, its last quantity counts.
pub open spec fn pairs_map(pairs: Seq<(Seq<char>, u32)>) -> Map<Seq<char>, u32>
    decreases pairs.len(),
{
    if pairs.len() == 0 {
        Map::empty()
    } else {
        pairs_map(pairs.drop_last()).insert(pairs.last().0, pairs.last().1)
    }
}

/// No two pairs carry the same name.
pub open spec fn distinct_names(pairs: Seq<(Seq<char>, u32)>) -> bool {
    forall|i: int, j: int| 0 <= i < j < pairs.len() ==> pairs[i].0 != pairs[j].0
}

/// The pairs of a vector of owned entries, each name by its characters.
pub open spec fn pairs_view(items: Seq<(String, u32)>) -> Seq<(Seq<char>, u32)> {
    items.map_values(|item: (String, u32)| (item.0@, item.1))
}

/// A name is a key of `pairs_map` exactly if some pair carries it.
pub proof fn lemma_pairs_map_keys(pairs: Seq<(Seq<char>, u32)>, name: Seq<char>)
    ensures
        pairs_map(pairs).contains_key(name) <==> exists|i: int|
            0 <= i < pairs.len() && (#[trigger] pairs[i]).0 == name,
    decreases pairs.len(),
{
    if pairs.len() > 0 {
        let front = pairs.drop_last();
        lemma_pairs_map_keys(front, name);
        if exists|i: int| 0 <= i < pairs.len() && (#[trigger] pairs[i]).0 == name {
            let i = choose|i: int| 0 <= i < pairs.len() && (#[trigger] pairs[i]).0 == name;
            if i < front.len() {
                assert(front[i].0 == name);
            }
        }
    }
}

/// Among distinct names, every pair's quantity is the one the map gives.
pub proof fn lemma_pairs_map_value(pairs: Seq<(Seq<char>, u32)>, i: int)
    requires
        distinct_names(pairs),
        0 <= i < pairs.len(),
    ensures
        pairs_map(pairs).contains_key(pairs[i].0),
        pairs_map(pairs)[pairs[i].0] == pairs[i].1,
    decreases pairs.len(),
{
    if i < pairs.len() - 1 {
        lemma_pairs_map_value(pairs.drop_last(), i);
    }
}

/// The map of finitely many pairs has finitely many keys.
pub proof fn lemma_pairs_map_finite(pairs: Seq<(Seq<char>, u32)>)
    ensures
        pairs_map(pairs).dom().finite(),
    decreases pairs.len(),
{
    if pairs.len() > 0 {
        lemma_pairs_map_finite(pairs.drop_last());
    }
}

/// Among distinct names, the map has one key for each pair.
pub proof fn lemma_pairs_map_len(pairs: Seq<(Seq<char>, u32)>)
    requires
        distinct_names(pairs),
    ensures
        pairs_map(pairs).dom().finite(),
        pairs_map(pairs).len() == pairs.len(),
    decreases pairs.len(),
{
    lemma_pairs_map_finite(pairs);
    if pairs.len() > 0 {
        let front = pairs.drop_last();
        lemma_pairs_map_len(front);
        lemma_pairs_map_keys(front, pairs.last().0);
    }
}

/// Among distinct names, replacing one pair's quantity is an insertion under
/// that pair's name.
pub proof fn lemma_pairs_map_update(pairs: Seq<(Seq<char>, u32)>, i: int, quantity: u32)
    requires
        distinct_names(pairs),
        0 <= i < pairs.len(),
    ensures
        distinct_names(pairs.update(i, (pairs[i].0, quantity))),
        pairs_map(pairs.update(i, (pairs[i].0, quantity))) == pairs_map(pairs).insert(
            pairs[i].0,
            quantity,
        ),
{
    let name = pairs[i].0;
    let after = pairs.update(i, (name, quantity));
    let left = pairs_map(after);
    let right = pairs_map(pairs).insert(name, quantity);
    assert forall|key: Seq<char>| left.contains_key(key) <==> right.contains_key(key) by {
        lemma_pairs_map_keys(after, key);
        lemma_pairs_map_keys(pairs, key);
        if pairs_map(pairs).contains_key(key) {
            let a = choose|a: int| 0 <= a < pairs.len() && (#[trigger] pairs[a]).0 == key;
            assert(after[a].0 == key);
        }
    }
    assert forall|key: Seq<char>| left.contains_key(key) implies left[key] == right[key] by {
        lemma_pairs_map_keys(after, key);
        let a = choose|a: int| 0 <= a < after.len() && (#[trigger] after[a]).0 == key;
        lemma_pairs_map_value(after, a);
        if a != i {
            lemma_pairs_map_value(pairs, a);
        }
    }
}

/// Ingredient names with their quantities, in insertion order.
pub struct IngredientMap {
    items: Vec<(String, u32)>,
}

impl View for IngredientMap {
    type V = Map<Seq<char>, u32>;

    open spec fn view(&self) -> Map<Seq<char>, u32> {
        pairs_map(self.entries())
    }
}

impl IngredientMap {
    /// The entries in insertion order, each name by its characters.
    pub closed spec fn entries(&self) -> Seq<(Seq<char>, u32)> {
        pairs_view(self.items@)
    }

    #[verifier::type_invariant]
    spec fn names_occur_once(&self) -> bool {
        distinct_names(self.entries())
    }

    /// The map without entries.
    pub fn new() -> (map: Self)
        ensures
            map.entries() == Seq::<(Seq<char>, u32)>::empty(),
            map@ == Map::<Seq<char>, u32>::empty(),
    {
        IngredientMap { items: Vec::new() }
    }

    /// The number of entries.
    pub fn len(&self) -> (count: usize)
        ensures
            count == self.entries().len(),
            count == self@.len(),
            self@.dom().finite(),
            distinct_names(self.entries()),
    {
        proof {
            use_type_invariant(self);
            lemma_pairs_map_len(self.entries());
        }
        self.items.len()
    }

    /// The name of the entry at `index`.
    pub(crate) fn name_at(&self, index: usize) -> (name: &String)
        requires
            index < self.entries().len(),
        ensures
            name@ == self.entries()[index as int].0,
            self@.contains_key(name@),
    {
        proof {
            use_type_invariant(self);
            lemma_pairs_map_value(self.entries(), index as int);
        }
        &self.items[index].0
    }

    /// The quantity of the entry at `index`.
    pub(crate) fn quantity_at(&self, index: usize) -> (quantity: u32)
        requires
            index < self.entries().len(),
        ensures
            quantity == self.entries()[index as int].1,
            self@.contains_key(self.entries()[index as int].0),
            quantity == self@[self.entries()[index as int].0],
    {
        proof {
            use_type_invariant(self);
            lemma_pairs_map_value(self.entries(), index as int);
        }
        self.items[index].1
    }

    /// Where `name` stands among the entries, if it does.
    fn position(&self, name: &String) -> (found: Option<usize>)
        ensures
            match found {
                Some(index) => index < self.entries().len() && self.entries()[index as int].0
                    == name@,
                None => !self@.contains_key(name@),
            },
    {
        let mut index: usize = 0;
        while index < self.items.len()
            invariant
                index <= self.items.len(),
                forall|k: int| 0 <= k < index ==> (#[trigger] self.entries()[k]).0 != name@,
            decreases self.items.len() - index,
        {
            if self.items[index].0 == *name {
                return Some(index);
            }
            index += 1;
        }
        proof {
            lemma_pairs_map_keys(self.entries(), name@);
        }
        None
    }

    /// The quantity recorded under `name`, if any.
    pub fn get(&self, name: &str) -> (quantity: Option<u32>)
        ensures
            quantity == if self@.contains_key(name@) {
                Some(self@[name@])
            } else {
                None::<u32>
            },
    {
        let key = String::from_str(name);
        match self.position(&key) {
            Some(index) => {
                proof {
                    use_type_invariant(self);
                    lemma_pairs_map_value(self.entries(), index as int);
                }
                Some(self.items[index].1)
            },
            None => None,
        }
    }

    /// Records `quantity` under `name`, replacing what was recorded there.
    pub fn insert(&mut self, name: String, quantity: u32)
        ensures
            final(self)@ == old(self)@.insert(name@, quantity),
    {
        let found = self.position(&name);
        let mut taken = IngredientMap::new();
        std::mem::swap(self, &mut taken);
        proof {
            use_type_invariant(&taken);
        }
        let ghost before = taken.entries();
        let mut items = taken.items;
        match found {
            Some(index) => {
                proof {
                    lemma_pairs_map_update(before, index as int, quantity);
                }
                items.set(index, (name, quantity));
                assert(pairs_view(items@) =~= before.update(index as int, (name@, quantity)));
            },
            None => {
                proof {
                    assert forall|k: int| 0 <= k < before.len() implies (#[trigger] before[k]).0
                        != name@ by {
                        lemma_pairs_map_keys(before, name@);
                    }
                }
                items.push((name, quantity));
                assert(pairs_view(items@) =~= before.push((name@, quantity)));
                assert(before.push((name@, quantity)).drop_last() =~= before);
            },
        }
        *self = IngredientMap { items };
    }

    /// The map of entries whose names are known to differ.
    pub(crate) fn from_distinct(items: Vec<(String, u32)>) -> (map: Self)
        requires
            distinct_names(pairs_view(items@)),
        ensures
            map.entries() == pairs_view(items@),
    {
        IngredientMap { items }
    }

    /// The map of `pairs`; a later pair replaces an earlier one of its name.
    pub fn from_pairs(pairs: Vec<(String, u32)>) -> (map: Self)
        ensures
            map@ == pairs_map(pairs_view(pairs@)),
    {
        let mut map = IngredientMap::new();
        let mut index: usize = 0;
        while index < pairs.len()
            invariant
                index <= pairs.len(),
                map@ == pairs_map(pairs_view(pairs@).take(index as int)),
            decreases pairs.len() - index,
        {
            let name = pairs[index].0.clone();
            let quantity = pairs[index].1;
            assert(pairs_view(pairs@).take(index as int + 1).drop_last() =~= pairs_view(pairs@).take(
                index as int,
            ));
            map.insert(name, quantity);
            index += 1;
        }
        assert(pairs_view(pairs@).take(pairs.len() as int) =~= pairs_view(pairs@));
        map
    }

    /// The entries as owned pairs, in insertion order.
    pub fn to_pairs(&self) -> (pairs: Vec<(String, u32)>)
        ensures
            pairs_view(pairs@) == self.entries(),
            distinct_names(pairs_view(pairs@)),
            pairs_map(pairs_view(pairs@)) == self@,
    {
        proof {
            use_type_invariant(self);
        }
        let mut pairs: Vec<(String, u32)> = Vec::new();
        let mut index: usize = 0;
        while index < self.items.len()
            invariant
                index <= self.items.len(),
                pairs_view(pairs@) =~= self.entries().take(index as int),
            decreases self.items.len() - index,
        {
            let name = self.items[index].0.clone();
            let quantity = self.items[index].1;
            pairs.push((name, quantity));
            assert(self.entries().take(index as int + 1) =~= self.entries().take(
                index as int,
            ).push(self.entries()[index as int]));
            index += 1;
        }
        assert(self.entries().take(self.items.len() as int) =~= self.entries());
        pairs
    }
}

} // verus!
