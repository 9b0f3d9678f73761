//! The keyed collections that substates hold: values by name, each name
//! once, and sets of addresses, each address once.
use vstd::prelude::*;
use crate::address::{ComponentAddress, ResourceAddress};

verus! {

/// No name occurs twice among the entries.
pub open spec fn names_distinct<V>(entries: Seq<(String, V)>) -> bool {
    forall|i: int, j: int| 0 <= i < j < entries.len() ==> entries[i].0@ != entries[j].0@
}

/// The map that a list of named entries stands for.
pub open spec fn named_map<V>(entries: Seq<(String, V)>) -> Map<Seq<char>, V>
    decreases entries.len(),
{
    if entries.len() == 0 {
        Map::empty()
    } else {
        named_map(entries.drop_last()).insert(entries.last().0@, entries.last().1)
    }
}

proof fn lemma_named_map_replace<V>(entries: Seq<(String, V)>, i: int, entry: (String, V))
    requires
        names_distinct(entries),
        0 <= i < entries.len(),
        entries[i].0@ == entry.0@,
    ensures
        named_map(entries.update(i, entry)) == named_map(entries).insert(entry.0@, entry.1),
    decreases entries.len(),
{
    let updated = entries.update(i, entry);
    if i == entries.len() - 1 {
        assert(updated.drop_last() =~= entries.drop_last());
        assert(named_map(updated) =~= named_map(entries).insert(entry.0@, entry.1));
    } else {
        assert(updated.drop_last() =~= entries.drop_last().update(i, entry));
        lemma_named_map_replace(entries.drop_last(), i, entry);
        assert(entries.last().0@ != entry.0@);
        assert(named_map(updated) =~= named_map(entries).insert(entry.0@, entry.1));
    }
}

/// Values by name, each name once, in the order in which the names were
/// first set.
#[derive(Debug)]
pub struct NameMap<V> {
    entries: Vec<(String, V)>,
}

impl<V> NameMap<V> {
    #[verifier::type_invariant]
    spec fn names_are_distinct(self) -> bool {
        names_distinct(self.entries@)
    }

    /// The entries, in the order in which their names were first set.
    pub closed spec fn entry_seq(self) -> Seq<(String, V)> {
        self.entries@
    }
}

impl<V> View for NameMap<V> {
    type V = Map<Seq<char>, V>;

    open spec fn view(&self) -> Map<Seq<char>, V> {
        named_map(self.entry_seq())
    }
}

fn position_of_name<V>(entries: &Vec<(String, V)>, name: &String) -> (r: Option<usize>)
    ensures
        match r {
            Some(i) => i < entries.len() && entries@[i as int].0@ == name@,
            None => forall|j: int| 0 <= j < entries.len() ==> entries@[j].0@ != name@,
        },
{
    let mut i: usize = 0;
    while i < entries.len()
        invariant
            i <= entries.len(),
            forall|j: int| 0 <= j < i ==> entries@[j].0@ != name@,
        decreases entries.len() - i,
    {
        if entries[i].0 == *name {
            return Some(i);
        }
        i += 1;
    }
    None
}

impl<V> NameMap<V> {
    /// The empty map.
    pub fn new() -> (r: NameMap<V>)
        ensures
            r@ == Map::<Seq<char>, V>::empty(),
            r.entry_seq().len() == 0,
    {
        NameMap { entries: Vec::new() }
    }

    /// The entries, each name once.
    pub fn entries(&self) -> (r: &Vec<(String, V)>)
        ensures
            r@ == self.entry_seq(),
            names_distinct(r@),
            named_map(r@) == self@,
    {
        proof {
            use_type_invariant(self);
        }
        &self.entries
    }

    /// The number of names set.
    pub fn len(&self) -> (r: usize)
        ensures
            r == self.entry_seq().len(),
    {
        self.entries.len()
    }

    /// Sets the value of `name`: its entry is replaced where it stands, or
    /// a new entry is added at the end.
    pub fn insert(&mut self, name: String, value: V)
        ensures
            final(self)@ == old(self)@.insert(name@, value),
            forall|i: int|
                0 <= i < old(self).entry_seq().len() && #[trigger] old(self).entry_seq()[i].0@
                    == name@ ==> final(self).entry_seq() == old(self).entry_seq().update(
                    i,
                    (name, value),
                ),
            (forall|i: int|
                0 <= i < old(self).entry_seq().len() ==> #[trigger] old(self).entry_seq()[i].0@
                    != name@) ==> final(self).entry_seq() == old(self).entry_seq().push(
                (name, value),
            ),
    {
        proof {
            use_type_invariant(&*self);
        }
        let mut entries: Vec<(String, V)> = Vec::new();
        std::mem::swap(&mut entries, &mut self.entries);
        let ghost before = entries@;
        match position_of_name(&entries, &name) {
            Some(i) => {
                entries.set(i, (name, value));
                proof {
                    lemma_named_map_replace(before, i as int, (name, value));
                    assert(entries@ == before.update(i as int, (name, value)));
                }
            },
            None => {
                entries.push((name, value));
                proof {
                    assert(entries@.drop_last() =~= before);
                }
            },
        }
        self.entries = entries;
    }
}

impl<V: Clone> Clone for NameMap<V> {
    /// A copy with the same names in the same order, each value cloned.
    fn clone(&self) -> (r: Self)
        ensures
            r.entry_seq().len() == self.entry_seq().len(),
            forall|i: int|
                0 <= i < self.entry_seq().len() ==> #[trigger] r.entry_seq()[i].0 == self.entry_seq()[i].0,
    {
        proof {
            use_type_invariant(self);
        }
        let mut entries: Vec<(String, V)> = Vec::new();
        let mut i: usize = 0;
        while i < self.entries.len()
            invariant
                i <= self.entries@.len(),
                names_distinct(self.entries@),
                entries@.len() == i,
                forall|j: int| 0 <= j < i ==> #[trigger] entries@[j].0 == self.entries@[j].0,
            decreases self.entries@.len() - i,
        {
            let name = self.entries[i].0.clone();
            let value = self.entries[i].1.clone();
            entries.push((name, value));
            i += 1;
        }
        NameMap { entries }
    }
}

/// An address that names a global node, compared by its node bytes.
pub trait NodeAddress: Copy + View<V = Seq<u8>> {
    /// Whether the two addresses name the same node.
    fn same_address(&self, other: &Self) -> (r: bool)
        ensures
            r == (self@ == other@),
    ;
}

impl NodeAddress for ResourceAddress {
    fn same_address(&self, other: &Self) -> (r: bool) {
        self.same_as(other)
    }
}

impl NodeAddress for ComponentAddress {
    fn same_address(&self, other: &Self) -> (r: bool) {
        self.0.same_as(&other.0)
    }
}

/// No address occurs twice.
pub open spec fn addresses_distinct<A: View<V = Seq<u8>>>(items: Seq<A>) -> bool {
    forall|i: int, j: int| 0 <= i < j < items.len() ==> items[i]@ != items[j]@
}

/// The node bytes of the addresses.
pub open spec fn address_set<A: View<V = Seq<u8>>>(items: Seq<A>) -> Set<Seq<u8>> {
    Set::new(|b: Seq<u8>| exists|i: int| 0 <= i < items.len() && #[trigger] items[i]@ == b)
}

/// A set of addresses, each once, in the order in which they were added.
#[derive(Debug)]
pub struct AddressSet<A: NodeAddress> {
    items: Vec<A>,
}

impl<A: NodeAddress> AddressSet<A> {
    #[verifier::type_invariant]
    spec fn addresses_are_distinct(self) -> bool {
        addresses_distinct(self.items@)
    }

    /// The addresses, in the order in which they were added.
    pub closed spec fn item_seq(self) -> Seq<A> {
        self.items@
    }
}

impl<A: NodeAddress> View for AddressSet<A> {
    type V = Set<Seq<u8>>;

    open spec fn view(&self) -> Set<Seq<u8>> {
        address_set(self.item_seq())
    }
}

impl<A: NodeAddress> Clone for AddressSet<A> {
    /// A copy with the same addresses in the same order.
    fn clone(&self) -> (r: Self)
        ensures
            r.item_seq() == self.item_seq(),
    {
        proof {
            use_type_invariant(self);
        }
        let mut items: Vec<A> = Vec::new();
        let mut i: usize = 0;
        while i < self.items.len()
            invariant
                i <= self.items@.len(),
                items@ == self.items@.take(i as int),
            decreases self.items@.len() - i,
        {
            items.push(self.items[i]);
            i += 1;
            assert(self.items@.take(i as int) == self.items@.take(i - 1).push(self.items@[i - 1]));
        }
        assert(self.items@.take(self.items@.len() as int) == self.items@);
        AddressSet { items }
    }
}

impl<A: NodeAddress> AddressSet<A> {
    /// The empty set.
    pub fn new() -> (r: AddressSet<A>)
        ensures
            r@ == Set::<Seq<u8>>::empty(),
            r.item_seq().len() == 0,
    {
        let r = AddressSet { items: Vec::new() };
        assert(r@ =~= Set::<Seq<u8>>::empty());
        r
    }

    /// The addresses, each once.
    pub fn items(&self) -> (r: &Vec<A>)
        ensures
            r@ == self.item_seq(),
            addresses_distinct(r@),
    {
        proof {
            use_type_invariant(self);
        }
        &self.items
    }

    /// The number of addresses.
    pub fn len(&self) -> (r: usize)
        ensures
            r == self.item_seq().len(),
    {
        self.items.len()
    }

    /// Adds `address`, unless it is there already.
    pub fn insert(&mut self, address: A)
        ensures
            final(self)@ == old(self)@.insert(address@),
            old(self)@.contains(address@) ==> final(self).item_seq() == old(self).item_seq(),
            !old(self)@.contains(address@) ==> final(self).item_seq() == old(self).item_seq().push(
                address,
            ),
    {
        proof {
            use_type_invariant(&*self);
        }
        let mut i: usize = 0;
        while i < self.items.len()
            invariant
                i <= self.items@.len(),
                forall|j: int| 0 <= j < i ==> self.items@[j]@ != address@,
            decreases self.items@.len() - i,
        {
            if self.items[i].same_address(&address) {
                proof {
                    assert(self@ =~= self@.insert(address@));
                }
                return;
            }
            i += 1;
        }
        let mut items: Vec<A> = Vec::new();
        std::mem::swap(&mut items, &mut self.items);
        let ghost before = items@;
        items.push(address);
        proof {
            assert(!address_set(before).contains(address@));
            assert(address_set(items@) =~= address_set(before).insert(address@)) by {
                assert(items@[before.len() as int] == address);
                assert forall|b: Seq<u8>| address_set(before).contains(b) implies address_set(
                    items@,
                ).contains(b) by {
                    let k = choose|k: int| 0 <= k < before.len() && #[trigger] before[k]@ == b;
                    assert(items@[k] == before[k]);
                }
                assert forall|b: Seq<u8>| address_set(items@).contains(b) implies address_set(
                    before,
                ).insert(address@).contains(b) by {
                    let k = choose|k: int| 0 <= k < items@.len() && #[trigger] items@[k]@ == b;
                    if k < before.len() {
                        assert(before[k] == items@[k]);
                    }
                }
            }
        }
        self.items = items;
    }
}

} // verus!
