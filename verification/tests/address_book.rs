use shared_tree::address_book::{Address, AddressBook, AddressEntry, AddressEntryId, PersonName};

fn entry(id: u64, first: &str, last: &str) -> AddressEntry {
    AddressEntry::new(
        AddressEntryId::new(id),
        PersonName::new(first, last),
        Address::new("111-0001", "Tokyo-to", "minato-ku 1", Some("hoge 1 building")),
    )
}

fn ids_of(book: &AddressBook) -> Vec<AddressEntryId> {
    book.iter().map(|e| e.id.clone()).collect()
}

fn ids(numbers: &[u64]) -> Vec<AddressEntryId> {
    numbers.iter().map(|n| AddressEntryId::new(*n)).collect()
}

#[test]
fn test_address_book() {
    let _address_book1 = AddressBook::new("");

    let mut address_book = AddressBook::default();

    let address_entry_id = AddressEntryId::new(1);
    let personal_name = PersonName::new("Junichi", "Kato");
    let address = Address::new("111-0001", "Tokyo-to", "minato-ku 1", Some("hoge 1 building"));
    let address_entry = AddressEntry::new(address_entry_id, personal_name, address);
    address_book.add_entry(address_entry);

    let address_entry_id = AddressEntryId::new(2);
    let personal_name = PersonName::new("Taro", "Yamamoto");
    let address = Address::new("111-0002", "Tokyo-to", "minato-ku 2", Some("hoge 2 building"));
    let address_entry = AddressEntry::new(address_entry_id, personal_name, address);
    address_book.add_entry(address_entry);

    let address_entry_id = AddressEntryId::new(3);
    let personal_name = PersonName::new("Hanako", "Yamada");
    let address = Address::new("111-0003", "Tokyo-to", "minato-ku 3", Some("hoge 3 building"));
    let address_entry = AddressEntry::new(address_entry_id, personal_name, address);
    address_book.add_entry(address_entry);

    address_book.iter().for_each(|e| println!("{:?}", e));

    let address_entry1 = AddressEntry::new(
        AddressEntryId::new(4),
        PersonName::new("Hanako", "Yamada"),
        Address::new("111-0003", "Tokyo-to", "minato-ku 3", Some("hoge 3 building")),
    );
    let address_entry2 = AddressEntry::new(
        AddressEntryId::new(4),
        PersonName::new("Hanako", "Yamada"),
        Address::new("111-0003", "Tokyo-to", "minato-ku 3", Some("hoge 3 building")),
    );
    let entries1 = [address_entry1.clone(), address_entry2.clone()];
    address_book.add_entries1(Vec::from(entries1));
    let entries2 = vec![address_entry1, address_entry2];
    address_book.add_entries1(entries2);

    assert_eq!(address_book.iter().count(), 7);
    assert_eq!(ids_of(&address_book), ids(&[1, 2, 3, 4, 4, 4, 4]));
}

#[test]
fn new_book_has_its_name_and_no_entry() {
    let book = AddressBook::new("friends");
    assert_eq!(book.name(), "friends");
    assert_eq!(book.iter().count(), 0);
    let unnamed = AddressBook::default();
    assert_eq!(unnamed.name(), "");
    assert_eq!(unnamed.iter().count(), 0);
}

#[test]
fn constructors_keep_their_arguments() {
    let name = PersonName::new("Junichi", "Kato");
    assert_eq!(name.first_name, "Junichi");
    assert_eq!(name.last_name, "Kato");
    let with_building = Address::new("111-0001", "Tokyo-to", "minato-ku 1", Some("hoge"));
    assert_eq!(with_building.postal_code, "111-0001");
    assert_eq!(with_building.pref, "Tokyo-to");
    assert_eq!(with_building.address, "minato-ku 1");
    assert_eq!(with_building.building, Some("hoge".to_owned()));
    let without = Address::new("111-0001", "Tokyo-to", "minato-ku 1", None);
    assert_eq!(without.building, None);
    let made = entry(9, "Taro", "Yamamoto");
    assert_eq!(made.id, AddressEntryId::new(9));
    assert_eq!(made.name.first_name, "Taro");
    assert_ne!(AddressEntryId::new(1), AddressEntryId::new(2));
}

#[test]
fn add_entries_copies_a_slice_in_order() {
    let mut book = AddressBook::new("book");
    book.add_entry(entry(1, "a", "b"));
    let more = [entry(2, "c", "d"), entry(3, "e", "f")];
    book.add_entries(&more);
    assert_eq!(ids_of(&book), ids(&[1, 2, 3]));
    assert_eq!(book.name(), "book");
    assert_eq!(more.len(), 2);
}

#[test]
fn remove_entry_takes_the_first_match() {
    let mut book = AddressBook::new("book");
    book.add_entries(&[entry(1, "a", "a"), entry(2, "first", "b"), entry(2, "second", "c")]);
    let removed = book.remove_entry(AddressEntryId::new(2));
    assert_eq!(removed.name.first_name, "first");
    assert_eq!(ids_of(&book), ids(&[1, 2]));
    let again = book.remove_entry(AddressEntryId::new(2));
    assert_eq!(again.name.first_name, "second");
    assert_eq!(ids_of(&book), ids(&[1]));
}

#[test]
fn remove_entries_follows_the_order_of_the_identifiers() {
    let mut book = AddressBook::new("book");
    book.add_entries(&[
        entry(1, "a", "a"),
        entry(2, "b", "b"),
        entry(3, "c", "c"),
        entry(4, "d", "d"),
    ]);
    let removed = book.remove_entries(&ids(&[3, 1]));
    let removed_ids: Vec<AddressEntryId> = removed.iter().map(|e| e.id.clone()).collect();
    assert_eq!(removed_ids, ids(&[3, 1]));
    assert_eq!(ids_of(&book), ids(&[2, 4]));
    let none = book.remove_entries(&[]);
    assert!(none.is_empty());
    assert_eq!(ids_of(&book), ids(&[2, 4]));
}

#[test]
fn a_cloned_book_is_independent() {
    let mut book = AddressBook::new("book");
    book.add_entry(entry(1, "a", "a"));
    let copy = book.clone();
    book.add_entry(entry(2, "b", "b"));
    assert_eq!(ids_of(&copy), ids(&[1]));
    assert_eq!(copy.name(), "book");
    assert_eq!(ids_of(&book), ids(&[1, 2]));
}
