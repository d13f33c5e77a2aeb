//! The item list: an insertion-ordered list of (name, description) pairs,
//! viewed as the mapping it denotes, with the overwrite-on-insert semantics
//! of a hash map. `from_pairs` is the builder behind item-list literals.

use vstd::prelude::*;

verus! {

/// The mapping that a sequence of (name, description) pairs denotes: pairs
/// are inserted in order, so a later pair overwrites an earlier one with the
/// same name.
pub open spec fn map_of_pairs(ps: Seq<(Seq<char>, Seq<char>)>) -> Map<Seq<char>, Seq<char>>
    decreases ps.len(),
{
    if ps.len() == 0 {
        Map::empty()
    } else {
        map_of_pairs(ps.drop_last()).insert(ps.last().0, ps.last().1)
    }
}

/// A name that no pair of `ps` carries is not in the denoted mapping.
proof fn lemma_map_of_pairs_absent(ps: Seq<(Seq<char>, Seq<char>)>, k: Seq<char>)
    requires
        forall|j: int| 0 <= j < ps.len() ==> ps[j].0 != k,
    ensures
        !map_of_pairs(ps).contains_key(k),
    decreases ps.len(),
{
    if ps.len() > 0 {
        lemma_map_of_pairs_absent(ps.drop_last(), k);
    }
}

/// The denoted mapping takes a name to the description of the last pair
/// that carries that name.
proof fn lemma_map_of_pairs_found(ps: Seq<(Seq<char>, Seq<char>)>, i: int)
    requires
        0 <= i < ps.len(),
        forall|j: int| i < j < ps.len() ==> ps[j].0 != ps[i].0,
    ensures
        map_of_pairs(ps).contains_key(ps[i].0),
        map_of_pairs(ps)[ps[i].0] == ps[i].1,
    decreases ps.len(),
{
    if i == ps.len() - 1 {
    } else {
        lemma_map_of_pairs_found(ps.drop_last(), i);
    }
}

/// The view of a sequence of exec pairs: each `String` as its characters.
pub open spec fn pairs_view(ps: Seq<(String, String)>) -> Seq<(Seq<char>, Seq<char>)> {
    Seq::new(ps.len(), |i: int| (ps[i].0@, ps[i].1@))
}

/// An item list: insertion-ordered (name, description) pairs, read through
/// its view as the mapping they denote.
#[derive(Clone, Debug, PartialEq, Eq)]
pub struct ItemMap {
    pairs: Vec<(String, String)>,
}

impl View for ItemMap {
    type V = Map<Seq<char>, Seq<char>>;

    closed spec fn view(&self) -> Map<Seq<char>, Seq<char>> {
        map_of_pairs(pairs_view(self.pairs@))
    }
}

impl ItemMap {
    /// An empty item list.
    pub fn new() -> (r: ItemMap)
        ensures
            r@ == Map::<Seq<char>, Seq<char>>::empty(),
    {
        let r = ItemMap { pairs: Vec::new() };
        proof {
            assert(pairs_view(r.pairs@) =~= Seq::<(Seq<char>, Seq<char>)>::empty());
        }
        r
    }

    /// Inserts one item: a later insertion under the same name overwrites
    /// the earlier description.
    pub fn insert(&mut self, name: String, description: String)
        ensures
            final(self)@ == old(self)@.insert(name@, description@),
    {
        let ghost n = name@;
        let ghost d = description@;
        self.pairs.push((name, description));
        proof {
            assert(pairs_view(self.pairs@) =~= pairs_view(old(self).pairs@).push((n, d)));
            assert(pairs_view(self.pairs@).drop_last() =~= pairs_view(old(self).pairs@));
        }
    }

    /// Builds an item list from plain pairs, inserting them in order.
    pub fn from_pairs(pairs: Vec<(String, String)>) -> (r: ItemMap)
        ensures
            r@ == map_of_pairs(pairs_view(pairs@)),
    {
        let mut r = ItemMap::new();
        let mut i: usize = 0;
        while i < pairs.len()
            invariant
                i <= pairs.len(),
                r@ == map_of_pairs(pairs_view(pairs@).take(i as int)),
            decreases pairs.len() - i,
        {
            let name = pairs[i].0.clone();
            let description = pairs[i].1.clone();
            r.insert(name, description);
            proof {
                let pv = pairs_view(pairs@);
                assert(pv.take(i + 1).drop_last() =~= pv.take(i as int));
                assert(pv.take(i + 1).last() == pv[i as int]);
            }
            i = i + 1;
        }
        proof {
            assert(pairs_view(pairs@).take(pairs@.len() as int) =~= pairs_view(pairs@));
        }
        r
    }

    /// Looks an item up by name: the description of the last pair inserted
    /// under that name, or nothing if the name was never inserted.
    pub fn get(&self, name: &str) -> (r: Option<&String>)
        ensures
            match r {
                Some(d) => self@.contains_key(name@) && d@ == self@[name@],
                None => !self@.contains_key(name@),
            },
    {
        let key = name.to_owned();
        let mut i: usize = self.pairs.len();
        while i > 0
            invariant
                i <= self.pairs.len(),
                key@ == name@,
                forall|j: int| i <= j < self.pairs@.len() ==> pairs_view(self.pairs@)[j].0 != name@,
            decreases i,
        {
            i = i - 1;
            if self.pairs[i].0 == key {
                proof {
                    lemma_map_of_pairs_found(pairs_view(self.pairs@), i as int);
                }
                return Some(&self.pairs[i].1);
            }
        }
        proof {
            lemma_map_of_pairs_absent(pairs_view(self.pairs@), name@);
        }
        None
    }
}

} // verus!
