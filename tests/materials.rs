use tinygraph::materials::MaterialTable;

#[test]
fn lookup_finds_inserted_materials() {
    let mut table = MaterialTable::new();
    table.insert(String::from("red"), 1u32);
    table.insert(String::from("glass"), 2u32);
    assert_eq!(*table.get(&String::from("red")).ok().unwrap(), 1);
    assert_eq!(*table.get(&String::from("glass")).ok().unwrap(), 2);
}

#[test]
fn insert_under_known_name_replaces() {
    let mut table = MaterialTable::new();
    table.insert(String::from("red"), 1u32);
    table.insert(String::from("red"), 5u32);
    assert_eq!(*table.get(&String::from("red")).ok().unwrap(), 5);
}

#[test]
fn unknown_name_is_reported() {
    let mut table = MaterialTable::new();
    table.insert(String::from("red"), 1u32);
    let err = table.get(&String::from("mirror")).err().unwrap();
    assert_eq!(err.name, "mirror");
    let empty: MaterialTable<u32> = MaterialTable::new();
    assert!(empty.get(&String::from("red")).is_err());
}
