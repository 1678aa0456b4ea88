use memeroute::name::NameMap;

#[test]
fn name_map_hands_out_ids_in_order() {
    let mut m = NameMap::new();
    assert_eq!(m.name_to_id("a"), 0);
    assert_eq!(m.name_to_id("b"), 1);
    assert_eq!(m.name_to_id("a"), 0);
    assert_eq!(m.name(1), "b");
    assert_eq!(m.len(), 2);
}

#[test]
fn a_name_comes_back_after_later_lookups() {
    let mut m = NameMap::new();
    let id = m.name_to_id("first");
    for s in ["x", "y", "first", "z"] {
        m.name_to_id(s);
    }
    assert_eq!(m.name(id), "first");
    assert_eq!(m.name_to_id("first"), id);
}
