//! The answer to "list everything": a mapping from record id to observation.

use crate::record::Location;
use vstd::prelude::*;

verus! {

/// One id with its observation.
#[derive(Clone, Debug, PartialEq, Eq)]
pub struct Listed {
    pub id: String,
    pub location: Location,
}

/// The mapping that a sequence of pairs builds when each pair is entered in
/// turn, a later pair replacing an earlier one with the same id.
pub open spec fn mapping_of(pairs: Seq<(Seq<char>, Location)>) -> Map<Seq<char>, Location>
    decreases pairs.len(),
{
    if pairs.len() == 0 {
        Map::empty()
    } else {
        mapping_of(pairs.drop_last()).insert(pairs.last().0, pairs.last().1)
    }
}

/// The pairs that a sequence of listed items stands for.
pub open spec fn pairs_of(items: Seq<Listed>) -> Seq<(Seq<char>, Location)> {
    Seq::new(items.len(), |i: int| (items[i].id@, items[i].location))
}

/// A mapping from record id to observation. It holds no secret.
///
/// The items are kept in the order in which they were entered; where an id
/// occurs more than once, the last item with it is the one that counts.
#[derive(Clone, Debug, PartialEq, Eq)]
pub struct Listing {
    pub items: Vec<Listed>,
}

impl View for Listing {
    type V = Map<Seq<char>, Location>;

    open spec fn view(&self) -> Map<Seq<char>, Location> {
        mapping_of(pairs_of(self.items@))
    }
}

impl Listing {
    /// The empty mapping.
    pub fn new() -> (listing: Listing)
        ensures
            listing@ == Map::<Seq<char>, Location>::empty(),
    {
        Listing { items: Vec::new() }
    }

    /// Maps `id` to `location`, replacing what `id` was mapped to before.
    pub fn enter(&mut self, id: String, location: Location)
        ensures
            final(self)@ == old(self)@.insert(id@, location),
    {
        let ghost before = pairs_of(self.items@);
        self.items.push(Listed { id, location });
        proof {
            let after = pairs_of(self.items@);
            assert(after.drop_last() =~= before);
            assert(after.last() == (id@, location));
        }
    }

    /// The observation that `id` is mapped to, if any.
    pub fn get(&self, id: &String) -> (found: Option<Location>)
        ensures
            found == (if self@.contains_key(id@) {
                Some(self@[id@])
            } else {
                None::<Location>
            }),
    {
        let mut i: usize = self.items.len();
        while i > 0
            invariant
                i <= self.items.len(),
                forall|j: int| i <= j < self.items.len() ==> (#[trigger] self.items[j]).id@ != id@,
            decreases i,
        {
            i = i - 1;
            if self.items[i].id == *id {
                proof {
                    lemma_last_match(pairs_of(self.items@), i as int, id@);
                }
                return Some(self.items[i].location);
            }
        }
        proof {
            lemma_no_match(pairs_of(self.items@), id@);
        }
        None
    }
}

/// Where no later pair has the id of the pair at `at`, the mapping sends that
/// id to that pair's observation.
pub proof fn lemma_last_match(pairs: Seq<(Seq<char>, Location)>, at: int, id: Seq<char>)
    requires
        0 <= at < pairs.len(),
        pairs[at].0 == id,
        forall|j: int| at < j < pairs.len() ==> (#[trigger] pairs[j]).0 != id,
    ensures
        mapping_of(pairs).contains_key(id),
        mapping_of(pairs)[id] == pairs[at].1,
    decreases pairs.len(),
{
    if at < pairs.len() - 1 {
        assert(pairs.last().0 != id);
        lemma_last_match(pairs.drop_last(), at, id);
    }
}

/// An id that no pair has is not in the mapping.
pub proof fn lemma_no_match(pairs: Seq<(Seq<char>, Location)>, id: Seq<char>)
    requires
        forall|j: int| 0 <= j < pairs.len() ==> (#[trigger] pairs[j]).0 != id,
    ensures
        !mapping_of(pairs).contains_key(id),
    decreases pairs.len(),
{
    if pairs.len() > 0 {
        assert(pairs.last().0 != id);
        lemma_no_match(pairs.drop_last(), id);
    }
}

/// An id in the mapping is the id of one of the pairs.
pub proof fn lemma_mapping_domain(pairs: Seq<(Seq<char>, Location)>, id: Seq<char>)
    requires
        mapping_of(pairs).contains_key(id),
    ensures
        exists|i: int| 0 <= i < pairs.len() && (#[trigger] pairs[i]).0 == id,
    decreases pairs.len(),
{
    if pairs.len() > 0 {
        if pairs.last().0 == id {
            assert(pairs[pairs.len() - 1].0 == id);
        } else {
            lemma_mapping_domain(pairs.drop_last(), id);
            let front = pairs.drop_last();
            let at = choose|i: int| 0 <= i < front.len() && (#[trigger] front[i]).0 == id;
            assert(pairs[at].0 == id);
        }
    }
}

} // verus!
