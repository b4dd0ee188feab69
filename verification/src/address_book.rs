use vstd::prelude::*;

verus! {

/// The identifier of an entry of an address book.
#[derive(Debug, PartialEq, Eq, Structural)]
pub struct AddressEntryId(pub(crate) u64);

impl Clone for AddressEntryId {
    fn clone(&self) -> (copy: Self)
        ensures
            copy == *self,
    {
        AddressEntryId(self.0)
    }
}

/// An identifier is seen as its number.
impl View for AddressEntryId {
    type V = u64;

    closed spec fn view(&self) -> u64 {
        self.0
    }
}

impl AddressEntryId {
    pub fn new(value: u64) -> (id: Self)
        ensures
            id@ == value,
    {
        Self(value)
    }

    /// Two identifiers with the same number are the same identifier.
    pub proof fn lemma_same_number(self, other: Self)
        requires
            self@ == other@,
        ensures
            self == other,
    {
    }
}

/// A person's first and last name.
#[derive(Debug)]
pub struct PersonName {
    pub first_name: String,
    pub last_name: String,
}

impl Clone for PersonName {
    fn clone(&self) -> (copy: Self)
        ensures
            copy == *self,
    {
        PersonName { first_name: self.first_name.clone(), last_name: self.last_name.clone() }
    }
}

impl PersonName {
    pub fn new(first_name: &str, last_name: &str) -> (name: Self)
        ensures
            name.first_name@ == first_name@,
            name.last_name@ == last_name@,
    {
        Self { first_name: first_name.to_owned(), last_name: last_name.to_owned() }
    }
}

/// A postal address; the building is optional.
#[derive(Debug)]
pub struct Address {
    pub postal_code: String,
    pub pref: String,
    pub address: String,
    pub building: Option<String>,
}

impl Clone for Address {
    fn clone(&self) -> (copy: Self)
        ensures
            copy == *self,
    {
        Address {
            postal_code: self.postal_code.clone(),
            pref: self.pref.clone(),
            address: self.address.clone(),
            building: match &self.building {
                Some(building) => Some(building.clone()),
                None => None,
            },
        }
    }
}

impl Address {
    pub fn new(postal_code: &str, pref: &str, address: &str, building: Option<&str>) -> (made: Self)
        ensures
            made.postal_code@ == postal_code@,
            made.pref@ == pref@,
            made.address@ == address@,
            match building {
                Some(text) => made.building matches Some(owned) && owned@ == text@,
                None => made.building is None,
            },
    {
        Self {
            postal_code: postal_code.to_owned(),
            pref: pref.to_owned(),
            address: address.to_owned(),
            building: match building {
                Some(text) => Some(text.to_owned()),
                None => None,
            },
        }
    }
}

/// One record of an address book.
#[derive(Debug)]
pub struct AddressEntry {
    pub id: AddressEntryId,
    pub name: PersonName,
    pub address: Address,
}

impl Clone for AddressEntry {
    fn clone(&self) -> (copy: Self)
        ensures
            copy == *self,
    {
        AddressEntry {
            id: self.id.clone(),
            name: self.name.clone(),
            address: self.address.clone(),
        }
    }
}

impl AddressEntry {
    pub fn new(id: AddressEntryId, name: PersonName, address: Address) -> (entry: Self)
        ensures
            entry == (AddressEntry { id, name, address }),
    {
        Self { id, name, address }
    }
}

/// A named list of entries, kept in the order in which they were added.
#[derive(Debug)]
pub struct AddressBook {
    name: String,
    entries: Vec<AddressEntry>,
}

/// An address book is seen as the sequence of its entries.
impl View for AddressBook {
    type V = Seq<AddressEntry>;

    closed spec fn view(&self) -> Seq<AddressEntry> {
        self.entries@
    }
}

impl Clone for AddressBook {
    fn clone(&self) -> (copy: Self)
        ensures
            copy@ == self@,
            copy.spec_name() == self.spec_name(),
    {
        let mut entries: Vec<AddressEntry> = Vec::new();
        let mut i: usize = 0;
        while i < self.entries.len()
            invariant
                i <= self.entries.len(),
                entries@ == self.entries@.subrange(0, i as int),
            decreases self.entries.len() - i,
        {
            entries.push(self.entries[i].clone());
            assert(entries@ =~= self.entries@.subrange(0, i + 1));
            i += 1;
        }
        assert(entries@ =~= self.entries@);
        AddressBook { name: self.name.clone(), entries }
    }
}

impl Default for AddressBook {
    fn default() -> (book: Self)
        ensures
            book@ == Seq::<AddressEntry>::empty(),
            book.spec_name() == Seq::<char>::empty(),
    {
        Self { name: String::default(), entries: Vec::default() }
    }
}

/// The position of the first of `entries` that has the identifier `id`, or
/// the length of `entries` where none has it.
pub open spec fn index_of(entries: Seq<AddressEntry>, id: AddressEntryId) -> int
    decreases entries.len(),
{
    if entries.len() == 0 {
        0
    } else if entries[0].id == id {
        0
    } else {
        1 + index_of(entries.drop_first(), id)
    }
}

/// Whether the identifiers `ids` can be removed from `entries` one after the
/// other: each must be the identifier of an entry that is still there.
pub open spec fn removable(entries: Seq<AddressEntry>, ids: Seq<AddressEntryId>) -> bool
    decreases ids.len(),
{
    ids.len() == 0 || {
        let at = index_of(entries, ids[0]);
        at < entries.len() && removable(entries.remove(at), ids.drop_first())
    }
}

/// What is left of `entries` once, for each of `ids` in turn, the first entry
/// that has this identifier was removed.
pub open spec fn without(entries: Seq<AddressEntry>, ids: Seq<AddressEntryId>) -> Seq<AddressEntry>
    decreases ids.len(),
{
    if ids.len() == 0 {
        entries
    } else {
        without(entries.remove(index_of(entries, ids[0])), ids.drop_first())
    }
}

/// The entries that leave `entries` when, for each of `ids` in turn, the
/// first entry that has this identifier is removed, in the order of `ids`.
pub open spec fn taken(entries: Seq<AddressEntry>, ids: Seq<AddressEntryId>) -> Seq<AddressEntry>
    decreases ids.len(),
{
    if ids.len() == 0 {
        Seq::empty()
    } else {
        let at = index_of(entries, ids[0]);
        seq![entries[at]] + taken(entries.remove(at), ids.drop_first())
    }
}

/// `index_of` gives the first position that holds `id`: no earlier entry has
/// it, and where the position lies within `entries`, the entry there has it.
pub proof fn lemma_index_of_is_first(entries: Seq<AddressEntry>, id: AddressEntryId)
    ensures
        0 <= index_of(entries, id) <= entries.len(),
        index_of(entries, id) < entries.len() ==> entries[index_of(entries, id)].id == id,
        forall|j: int| 0 <= j < index_of(entries, id) ==> entries[j].id != id,
    decreases entries.len(),
{
    if entries.len() > 0 && entries[0].id != id {
        let rest = entries.drop_first();
        lemma_index_of_is_first(rest, id);
        assert forall|j: int| 0 <= j < index_of(entries, id) implies entries[j].id != id by {
            if j > 0 {
                assert(rest[j - 1] == entries[j]);
            }
        }
    }
}

/// A position is the one that `index_of` gives where its entry has `id` and
/// no earlier entry has it; where no entry has `id`, `index_of` gives the
/// length.
pub proof fn lemma_first_is_index_of(entries: Seq<AddressEntry>, id: AddressEntryId, at: int)
    requires
        0 <= at <= entries.len(),
        forall|j: int| 0 <= j < at ==> entries[j].id != id,
        at < entries.len() ==> entries[at].id == id,
    ensures
        index_of(entries, id) == at,
{
    lemma_index_of_is_first(entries, id);
}

/// Where the identifiers can be removed one after the other, one entry
/// leaves for each of them and has it, and the list gets shorter by their
/// number.
pub proof fn lemma_taken_follow_ids(entries: Seq<AddressEntry>, ids: Seq<AddressEntryId>)
    requires
        removable(entries, ids),
    ensures
        taken(entries, ids).len() == ids.len(),
        forall|k: int| 0 <= k < ids.len() ==> (#[trigger] taken(entries, ids)[k]).id == ids[k],
        without(entries, ids).len() == entries.len() - ids.len(),
    decreases ids.len(),
{
    if ids.len() > 0 {
        let at = index_of(entries, ids[0]);
        let rest = ids.drop_first();
        lemma_index_of_is_first(entries, ids[0]);
        lemma_taken_follow_ids(entries.remove(at), rest);
        let later = taken(entries.remove(at), rest);
        assert forall|k: int| 0 <= k < ids.len() implies (#[trigger] taken(entries, ids)[k]).id
            == ids[k] by {
            if k > 0 {
                assert(taken(entries, ids)[k] == later[k - 1]);
                assert(rest[k - 1] == ids[k]);
            }
        }
    }
}

impl AddressBook {
    /// The name of the book, as a sequence of characters.
    pub closed spec fn spec_name(&self) -> Seq<char> {
        self.name@
    }

    pub fn new(name: &str) -> (book: Self)
        ensures
            book@ == Seq::<AddressEntry>::empty(),
            book.spec_name() == name@,
    {
        Self { name: name.to_owned(), entries: Vec::default() }
    }

    pub fn name(&self) -> (name: &str)
        ensures
            name@ == self.spec_name(),
    {
        self.name.as_str()
    }

    /// Adds one entry at the end.
    pub fn add_entry(&mut self, address_entry: AddressEntry)
        ensures
            final(self)@ == old(self)@.push(address_entry),
            final(self).spec_name() == old(self).spec_name(),
    {
        self.entries.push(address_entry);
    }

    /// Adds copies of the given entries at the end, in their order.
    pub fn add_entries(&mut self, address_entries: &[AddressEntry])
        ensures
            final(self)@ == old(self)@ + address_entries@,
            final(self).spec_name() == old(self).spec_name(),
    {
        let mut i: usize = 0;
        while i < address_entries.len()
            invariant
                i <= address_entries.len(),
                self@ == old(self)@ + address_entries@.subrange(0, i as int),
                self.spec_name() == old(self).spec_name(),
            decreases address_entries.len() - i,
        {
            self.add_entry(address_entries[i].clone());
            assert(self@ =~= old(self)@ + address_entries@.subrange(0, i + 1));
            i += 1;
        }
        assert(address_entries@.subrange(0, i as int) =~= address_entries@);
    }

    /// Adds the given entries at the end, in their order.
    pub fn add_entries1(&mut self, address_entries: Vec<AddressEntry>)
        ensures
            final(self)@ == old(self)@ + address_entries@,
            final(self).spec_name() == old(self).spec_name(),
    {
        let mut address_entries = address_entries;
        self.entries.append(&mut address_entries);
    }

    /// Removes the first entry that has the identifier `address_entry_id`,
    /// and returns it. Some entry must have that identifier.
    pub fn remove_entry(&mut self, address_entry_id: AddressEntryId) -> (removed: AddressEntry)
        requires
            index_of(old(self)@, address_entry_id) < old(self)@.len(),
        ensures
            removed == old(self)@[index_of(old(self)@, address_entry_id)],
            removed.id == address_entry_id,
            final(self)@ == old(self)@.remove(index_of(old(self)@, address_entry_id)),
            final(self).spec_name() == old(self).spec_name(),
    {
        proof {
            lemma_index_of_is_first(self@, address_entry_id);
        }
        let mut index: usize = 0;
        while self.entries[index].id != address_entry_id
            invariant
                index < self.entries.len(),
                self.entries@ == old(self)@,
                self.name == old(self).name,
                index <= index_of(self@, address_entry_id) < self@.len(),
                self@[index_of(self@, address_entry_id)].id == address_entry_id,
                forall|j: int| 0 <= j < index ==> self@[j].id != address_entry_id,
            decreases self.entries.len() - index,
        {
            index += 1;
        }
        proof {
            lemma_first_is_index_of(self@, address_entry_id, index as int);
        }
        self.entries.remove(index)
    }

    /// Removes, for each of the identifiers in turn, the first entry that has
    /// it, and returns the removed entries in the order of the identifiers.
    /// Each identifier must be that of an entry that is still there when its
    /// turn comes.
    pub fn remove_entries(&mut self, address_entry_ids: &[AddressEntryId]) -> (removed: Vec<
        AddressEntry,
    >)
        requires
            removable(old(self)@, address_entry_ids@),
        ensures
            removed@ == taken(old(self)@, address_entry_ids@),
            final(self)@ == without(old(self)@, address_entry_ids@),
            final(self).spec_name() == old(self).spec_name(),
            removed@.len() == address_entry_ids@.len(),
            forall|k: int|
                0 <= k < address_entry_ids@.len() ==> (#[trigger] removed@[k]).id
                    == address_entry_ids@[k],
            final(self)@.len() == old(self)@.len() - address_entry_ids@.len(),
    {
        proof {
            lemma_taken_follow_ids(self@, address_entry_ids@);
        }
        let mut removed: Vec<AddressEntry> = Vec::new();
        let mut i: usize = 0;
        assert(address_entry_ids@.subrange(0, address_entry_ids@.len() as int)
            =~= address_entry_ids@);
        assert(removed@ + taken(self@, address_entry_ids@) =~= taken(self@, address_entry_ids@));
        while i < address_entry_ids.len()
            invariant
                i <= address_entry_ids.len(),
                self.spec_name() == old(self).spec_name(),
                removable(
                    self@,
                    address_entry_ids@.subrange(i as int, address_entry_ids@.len() as int),
                ),
                taken(old(self)@, address_entry_ids@) == removed@ + taken(
                    self@,
                    address_entry_ids@.subrange(i as int, address_entry_ids@.len() as int),
                ),
                without(old(self)@, address_entry_ids@) == without(
                    self@,
                    address_entry_ids@.subrange(i as int, address_entry_ids@.len() as int),
                ),
            decreases address_entry_ids.len() - i,
        {
            let ghost rest = address_entry_ids@.subrange(i as int, address_entry_ids@.len() as int);
            let ghost before = self@;
            assert(rest[0] == address_entry_ids@[i as int]);
            assert(rest.drop_first() =~= address_entry_ids@.subrange(
                i + 1,
                address_entry_ids@.len() as int,
            ));
            let entry = self.remove_entry(address_entry_ids[i].clone());
            removed.push(entry);
            assert(removed@ + taken(self@, rest.drop_first()) =~= removed@.drop_last() + taken(
                before,
                rest,
            ));
            i += 1;
        }
        assert(address_entry_ids@.subrange(i as int, address_entry_ids@.len() as int) =~= Seq::<
            AddressEntryId,
        >::empty());
        removed
    }

    /// The entries in the order in which they were added.
    pub fn iter(&self) -> (entries: std::slice::Iter<'_, AddressEntry>)
        ensures
            vstd::std_specs::slice::into_iter_elts(entries) == self@,
    {
        let entries = self.entries.as_slice().iter();
        proof {
            broadcast use vstd::std_specs::slice::axiom_spec_slice_iter;
            assert(vstd::std_specs::slice::into_iter_elts(entries) =~= self@);
        }
        entries
    }
}

} // verus!
