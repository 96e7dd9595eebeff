use wadup::schema::SchemaTable;

#[test]
fn interner_hands_out_sequential_ids() {
    let mut t = SchemaTable::new();
    assert_eq!(t.intern("alpha".to_string()).unwrap(), 1);
    assert_eq!(t.intern("beta".to_string()).unwrap(), 2);
    assert_eq!(t.intern("gamma".to_string()).unwrap(), 3);
}

#[test]
fn interning_again_yields_the_same_id() {
    let mut t = SchemaTable::new();
    let first = t.intern("alpha".to_string()).unwrap();
    let again = t.intern("alpha".to_string()).unwrap();
    assert_eq!(first, again);
    // and nothing new was handed out in between
    assert_eq!(t.intern("beta".to_string()).unwrap(), 2);
}

#[test]
fn ids_look_back_up_to_their_names() {
    let mut t = SchemaTable::new();
    let a = t.intern("alpha".to_string()).unwrap();
    let b = t.intern("beta".to_string()).unwrap();
    // the pairing is bijective within the table's lifetime
    assert_eq!(t.name_of(a).as_deref(), Some("alpha"));
    assert_eq!(t.name_of(b).as_deref(), Some("beta"));
    assert!(t.name_of(3).is_none());
    assert!(t.name_of(0).is_none());
}
