//! A small map from names to values that remembers the order of insertion.
use crate::text::same_text;
use vstd::prelude::*;

verus! {

/// Whether some entry has this name.
pub open spec fn has_name<T>(listing: Seq<(Seq<char>, T)>, name: Seq<char>) -> bool {
    exists|i: int| 0 <= i < listing.len() && (#[trigger] listing[i]).0 == name
}

/// The place of the entry with this name.
pub open spec fn place_of<T>(listing: Seq<(Seq<char>, T)>, name: Seq<char>) -> int {
    choose|i: int| 0 <= i < listing.len() && (#[trigger] listing[i]).0 == name
}

/// Whether no name occurs twice.
pub open spec fn distinct_names<T>(listing: Seq<(Seq<char>, T)>) -> bool {
    forall|i: int, j: int|
        0 <= i < j < listing.len() ==> (#[trigger] listing[i]).0 != (#[trigger] listing[j]).0
}

/// The map that a listing stands for.
pub open spec fn to_map<T>(listing: Seq<(Seq<char>, T)>) -> Map<Seq<char>, T> {
    Map::new(|name: Seq<char>| has_name(listing, name), |name: Seq<char>| listing[place_of(listing, name)].1)
}

/// The listing after an insertion: a known name keeps its place, a new one goes
/// to the end.
pub open spec fn inserted<T>(listing: Seq<(Seq<char>, T)>, name: Seq<char>, value: T) -> Seq<
    (Seq<char>, T),
> {
    if has_name(listing, name) {
        listing.update(place_of(listing, name), (name, value))
    } else {
        listing.push((name, value))
    }
}

/// The listing after a removal: the other entries keep their order.
pub open spec fn removed<T>(listing: Seq<(Seq<char>, T)>, name: Seq<char>) -> Seq<(Seq<char>, T)> {
    if has_name(listing, name) {
        listing.remove(place_of(listing, name))
    } else {
        listing
    }
}

/// In a listing without repeated names the place of a name is the only one.
pub proof fn lemma_place_is_unique<T>(listing: Seq<(Seq<char>, T)>, i: int)
    requires
        distinct_names(listing),
        0 <= i < listing.len(),
    ensures
        has_name(listing, listing[i].0),
        place_of(listing, listing[i].0) == i,
        to_map(listing).contains_key(listing[i].0),
        to_map(listing)[listing[i].0] == listing[i].1,
{
    let p = place_of(listing, listing[i].0);
    assert(listing[i].0 == listing[i].0);
    assert(0 <= p < listing.len() && listing[p].0 == listing[i].0);
}

/// Insertion in the listing is insertion in the map.
pub proof fn lemma_inserted<T>(listing: Seq<(Seq<char>, T)>, name: Seq<char>, value: T)
    requires
        distinct_names(listing),
    ensures
        distinct_names(inserted(listing, name, value)),
        to_map(inserted(listing, name, value)) == to_map(listing).insert(name, value),
{
    let after = inserted(listing, name, value);
    let p = place_of(listing, name);
    assert(distinct_names(after)) by {
        assert forall|i: int, j: int| 0 <= i < j < after.len() implies (#[trigger] after[i]).0 != (
        #[trigger] after[j]).0 by {
            if j < listing.len() {
                assert(listing[i].0 != listing[j].0);
            } else {
                assert(listing[i].0 != name);
            }
        }
    }
    let at: int = if has_name(listing, name) {
        p
    } else {
        listing.len() as int
    };
    assert(after[at] == (name, value));
    let expected = to_map(listing).insert(name, value);
    assert forall|k: Seq<char>| to_map(after).contains_key(k) == expected.contains_key(k) by {
        if has_name(after, k) {
            let i = place_of(after, k);
            assert(after[i].0 == k);
            if i != at {
                assert(listing[i].0 == k);
            }
        }
        if has_name(listing, k) {
            let i = place_of(listing, k);
            assert(listing[i].0 == k);
            assert(after[i].0 == k);
        }
    }
    assert forall|k: Seq<char>| to_map(after).contains_key(k) implies to_map(after)[k]
        == expected[k] by {
        let i = place_of(after, k);
        assert(after[i].0 == k);
        lemma_place_is_unique(after, i);
        if i == at {
            assert(k == name);
        } else {
            assert(after[i] == listing[i]);
            lemma_place_is_unique(listing, i);
            lemma_place_is_unique(after, at);
            assert(k != name);
        }
    }
    assert(to_map(after) =~= expected);
}

/// Removal from the listing is removal from the map.
pub proof fn lemma_removed<T>(listing: Seq<(Seq<char>, T)>, name: Seq<char>)
    requires
        distinct_names(listing),
    ensures
        distinct_names(removed(listing, name)),
        to_map(removed(listing, name)) == to_map(listing).remove(name),
{
    let after = removed(listing, name);
    let p = place_of(listing, name);
    let expected = to_map(listing).remove(name);
    if has_name(listing, name) {
        assert(listing[p].0 == name);
        assert(forall|i: int| 0 <= i < p ==> #[trigger] after[i] == listing[i]);
        assert(forall|i: int| p <= i < after.len() ==> #[trigger] after[i] == listing[i + 1]);
        assert forall|k: Seq<char>| to_map(after).contains_key(k) == expected.contains_key(k) by {
            if has_name(after, k) {
                let i = place_of(after, k);
                assert(after[i].0 == k);
                let j: int = if i < p {
                    i
                } else {
                    i + 1
                };
                assert(listing[j].0 == k);
                assert(j != p);
            }
            if has_name(listing, k) && k != name {
                let j = place_of(listing, k);
                assert(listing[j].0 == k);
                let i: int = if j < p {
                    j
                } else {
                    j - 1
                };
                assert(after[i].0 == k);
            }
        }
        assert forall|k: Seq<char>| to_map(after).contains_key(k) implies to_map(after)[k]
            == expected[k] by {
            let i = place_of(after, k);
            assert(after[i].0 == k);
            let j: int = if i < p {
                i
            } else {
                i + 1
            };
            assert(listing[j] == after[i]);
            lemma_place_is_unique(listing, j);
        }
        assert(distinct_names(after));
    } else {
        assert(!to_map(listing).contains_key(name));
    }
    assert(to_map(after) =~= expected);
}

/// The views of some named values.
pub open spec fn listing_of<V: View>(entries: Seq<(String, V)>) -> Seq<(Seq<char>, V::V)> {
    entries.map_values(|entry: (String, V)| (entry.0@, entry.1@))
}

/// Distinct names in the entries are distinct names in the listing.
proof fn lemma_distinct<V: View>(entries: Seq<(String, V)>)
    ensures
        distinct_names(listing_of(entries)) <==> forall|i: int, j: int|
            0 <= i < j < entries.len() ==> (#[trigger] entries[i]).0@ != (#[trigger] entries[j]).0@,
{
    let listing = listing_of(entries);
    assert(forall|i: int|
        0 <= i < entries.len() ==> (#[trigger] listing[i]).0 == (#[trigger] entries[i]).0@);
    if distinct_names(listing) {
        assert forall|i: int, j: int| 0 <= i < j < entries.len() implies (#[trigger] entries[i]).0@
            != (#[trigger] entries[j]).0@ by {
            assert(listing[i].0 != listing[j].0);
        }
    }
}

/// A map whose keys are names. No name occurs twice.
#[derive(Debug)]
pub struct NamedMap<V> {
    entries: Vec<(String, V)>,
}

impl<V: View> NamedMap<V> {
    /// The entries, in order.
    pub closed spec fn listing(&self) -> Seq<(Seq<char>, V::V)> {
        listing_of(self.entries@)
    }
}

impl<V> NamedMap<V> {
    #[verifier::type_invariant]
    spec fn well_formed(&self) -> bool {
        forall|i: int, j: int|
            0 <= i < j < self.entries@.len() ==> (#[trigger] self.entries@[i]).0@ != (
            #[trigger] self.entries@[j]).0@
    }
}

impl<V: View> View for NamedMap<V> {
    type V = Map<Seq<char>, V::V>;

    open spec fn view(&self) -> Map<Seq<char>, V::V> {
        to_map(self.listing())
    }
}

impl<V: View> NamedMap<V> {
    /// The map without entries.
    pub fn new() -> (map: Self)
        ensures
            map.listing() == Seq::<(Seq<char>, V::V)>::empty(),
            map@ == Map::<Seq<char>, V::V>::empty(),
    {
        let entries: Vec<(String, V)> = Vec::new();
        assert(listing_of(entries@) =~= Seq::empty());
        let map = NamedMap { entries };
        assert(map@ =~= Map::empty());
        map
    }

    /// How many entries there are.
    pub fn len(&self) -> (count: usize)
        ensures
            count == self.listing().len(),
            distinct_names(self.listing()),
    {
        proof {
            use_type_invariant(self);
            lemma_distinct(self.entries@);
        }
        self.entries.len()
    }

    /// The name and the value of the entry at a place.
    pub fn entry(&self, place: usize) -> (entry: (&str, &V))
        requires
            place < self.listing().len(),
        ensures
            (entry.0@, entry.1@) == self.listing()[place as int],
    {
        let entry = &self.entries[place];
        (entry.0.as_str(), &entry.1)
    }

    /// The place of a name, if it has one.
    fn find(&self, name: &str) -> (found: Option<usize>)
        ensures
            match found {
                Some(i) => has_name(self.listing(), name@) && i == place_of(self.listing(), name@)
                    && i < self.listing().len(),
                None => !has_name(self.listing(), name@),
            },
    {
        proof {
            use_type_invariant(self);
            lemma_distinct(self.entries@);
        }
        let mut i: usize = 0;
        while i < self.entries.len()
            invariant
                i <= self.entries.len(),
                distinct_names(self.listing()),
                forall|j: int| 0 <= j < i ==> (#[trigger] self.listing()[j]).0 != name@,
            decreases self.entries.len() - i,
        {
            assert(self.listing()[i as int].0 == self.entries@[i as int].0@);
            if same_text(self.entries[i].0.as_str(), name) {
                proof {
                    lemma_place_is_unique(self.listing(), i as int);
                }
                return Some(i);
            }
            i = i + 1;
        }
        None
    }

    /// The value with this name.
    pub fn get(&self, name: &str) -> (value: Option<&V>)
        ensures
            match value {
                Some(v) => self@.contains_key(name@) && v@ == self@[name@],
                None => !self@.contains_key(name@),
            },
    {
        match self.find(name) {
            Some(i) => Some(&self.entries[i].1),
            None => None,
        }
    }

    /// Gives a name a value, in place of the one it had.
    pub fn insert(&mut self, name: String, value: V)
        ensures
            final(self).listing() == inserted(old(self).listing(), name@, value@),
            final(self)@ == old(self)@.insert(name@, value@),
    {
        proof {
            use_type_invariant(&*self);
            lemma_distinct(self.entries@);
            lemma_inserted(self.listing(), name@, value@);
        }
        let ghost before = self.listing();
        let found = self.find(name.as_str());
        let mut entries: Vec<(String, V)> = Vec::new();
        assert(listing_of(entries@) =~= Seq::empty());
        std::mem::swap(&mut entries, &mut self.entries);
        let ghost entry = (name, value);
        match found {
            Some(i) => {
                entries.set(i, (name, value));
                assert(listing_of(entries@) =~= before.update(i as int, (entry.0@, entry.1@)));
            },
            None => {
                entries.push((name, value));
                assert(listing_of(entries@) =~= before.push((entry.0@, entry.1@)));
            },
        }
        proof {
            lemma_distinct(entries@);
        }
        self.entries = entries;
    }

    /// Takes the entry with this name out of the map.
    pub fn remove(&mut self, name: &str) -> (value: Option<V>)
        ensures
            final(self).listing() == removed(old(self).listing(), name@),
            final(self)@ == old(self)@.remove(name@),
            match value {
                Some(v) => old(self)@.contains_key(name@) && v@ == old(self)@[name@],
                None => !old(self)@.contains_key(name@),
            },
    {
        proof {
            use_type_invariant(&*self);
            lemma_distinct(self.entries@);
            lemma_removed(self.listing(), name@);
        }
        let ghost before = self.listing();
        match self.find(name) {
            Some(i) => {
                let mut entries: Vec<(String, V)> = Vec::new();
                assert(listing_of(entries@) =~= Seq::empty());
                std::mem::swap(&mut entries, &mut self.entries);
                let entry = entries.remove(i);
                assert(listing_of(entries@) =~= before.remove(i as int));
                proof {
                    lemma_distinct(entries@);
                }
                self.entries = entries;
                Some(entry.1)
            },
            None => None,
        }
    }
}

/// A listing without repeated names stands for the map that gives each name the value
/// beside it, and knows no other names.
pub proof fn law_map_of_listing<T>(listing: Seq<(Seq<char>, T)>, name: Seq<char>, i: int)
    requires
        forall|j: int, k: int|
            0 <= j < k < listing.len() ==> (#[trigger] listing[j]).0 != (#[trigger] listing[k]).0,
    ensures
        0 <= i < listing.len() && listing[i].0 == name ==> to_map(listing).contains_key(name)
            && to_map(listing)[name] == listing[i].1,
        (forall|j: int| 0 <= j < listing.len() ==> (#[trigger] listing[j]).0 != name) ==> !to_map(
            listing,
        ).contains_key(name),
{
    if 0 <= i < listing.len() && listing[i].0 == name {
        lemma_place_is_unique(listing, i);
    }
}

/// Giving a name a value leaves the other entries where they are. A new name goes to
/// the end, a known one stays where it is.
pub proof fn law_insertion_keeps_places<T>(
    listing: Seq<(Seq<char>, T)>,
    name: Seq<char>,
    value: T,
    i: int,
)
    ensures
        0 <= i < listing.len() && listing[i].0 != name ==> inserted(listing, name, value)[i]
            == listing[i],
        0 <= i < listing.len() ==> inserted(listing, name, value)[i].0 == listing[i].0,
        (forall|j: int| 0 <= j < listing.len() ==> (#[trigger] listing[j]).0 != name) ==> inserted(
            listing,
            name,
            value,
        ) == listing.push((name, value)),
        (exists|j: int| 0 <= j < listing.len() && (#[trigger] listing[j]).0 == name) ==> inserted(
            listing,
            name,
            value,
        ).len() == listing.len(),
{
    if has_name(listing, name) {
        let p = place_of(listing, name);
        assert(0 <= p < listing.len() && listing[p].0 == name);
    }
}

/// Taking a name out leaves the other entries in their order. A name that is not there
/// cannot be taken out.
pub proof fn law_removal_closes_the_gap<T>(
    before: Seq<(Seq<char>, T)>,
    entry: (Seq<char>, T),
    behind: Seq<(Seq<char>, T)>,
    name: Seq<char>,
)
    requires
        forall|i: int| 0 <= i < before.len() ==> (#[trigger] before[i]).0 != entry.0,
        forall|i: int| 0 <= i < behind.len() ==> (#[trigger] behind[i]).0 != entry.0,
    ensures
        removed(before.push(entry) + behind, entry.0) == before + behind,
        (forall|i: int| 0 <= i < before.len() ==> (#[trigger] before[i]).0 != name) ==> removed(
            before,
            name,
        ) == before,
{
    let listing = before.push(entry) + behind;
    assert(listing[before.len() as int] == entry);
    let p = place_of(listing, entry.0);
    assert(listing[p].0 == entry.0);
    if p < before.len() {
        assert(listing[p] == before[p]);
    } else if p > before.len() {
        assert(listing[p] == behind[p - before.len() - 1]);
    }
    assert(listing.remove(p) =~= before + behind);
}

} // verus!
