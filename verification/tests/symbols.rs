use hack_toolchain::symbol_table::SymbolTable;

#[test]
fn fresh_table_resolves_stack_pointer_and_screen() {
    let table = SymbolTable::new();
    assert!(table.contains(&String::from("SP")));
    assert_eq!(table.get_address(&String::from("SP")), Some(&0));
    assert!(table.contains(&String::from("SCREEN")));
    assert_eq!(table.get_address(&String::from("SCREEN")), Some(&16384));
}

#[test]
fn fresh_table_holds_all_predefined_entries() {
    let table = SymbolTable::new();
    assert_eq!(table.get_address(&String::from("LCL")), Some(&1));
    assert_eq!(table.get_address(&String::from("ARG")), Some(&2));
    assert_eq!(table.get_address(&String::from("THIS")), Some(&3));
    assert_eq!(table.get_address(&String::from("THAT")), Some(&4));
    for i in 0..16u16 {
        let name = format!("R{}", i);
        assert_eq!(table.get_address(&name), Some(&i));
    }
    assert_eq!(table.get_address(&String::from("KBD")), Some(&24576));
}

#[test]
fn absent_names_are_reported_absent() {
    let table = SymbolTable::new();
    assert!(!table.contains(&String::from("LOOP")));
    assert_eq!(table.get_address(&String::from("LOOP")), None);
}

#[test]
fn add_entry_overwrites_and_last_write_wins() {
    let mut table = SymbolTable::new();
    table.add_entry("x", 100);
    assert_eq!(table.get_address(&String::from("x")), Some(&100));
    table.add_entry("x", 200);
    assert_eq!(table.get_address(&String::from("x")), Some(&200));
    // an unrelated entry stays put
    assert_eq!(table.get_address(&String::from("SP")), Some(&0));
}
