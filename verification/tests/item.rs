use adventure_rs::item::ItemMap;

#[test]
fn items_should_be_properly_instantiated() {
    let items = ItemMap::from_pairs(vec![("item".to_string(), "Description".to_string())]);
    let mut expected_items = ItemMap::new();
    expected_items.insert("item".to_string(), "Description".to_string());
    assert_eq!(expected_items, items);
}

#[test]
fn later_duplicate_overwrites_earlier() {
    let items = ItemMap::from_pairs(vec![
        ("potion".to_string(), "A red potion".to_string()),
        ("potion".to_string(), "A blue potion".to_string()),
    ]);
    assert_eq!(items.get("potion"), Some(&"A blue potion".to_string()));
}

#[test]
fn missing_item_is_absent() {
    let items = ItemMap::from_pairs(vec![("sword".to_string(), "Rusty".to_string())]);
    assert_eq!(items.get("shield"), None);
    assert_eq!(ItemMap::new().get("sword"), None);
}
