use homectl_core::{IntegrationId, IntegrationsTree};

fn id(text: &str) -> IntegrationId {
    IntegrationId::new(text)
}

#[test]
fn new_table_holds_nothing() {
    let table: IntegrationsTree<u32> = IntegrationsTree::new();
    assert_eq!(table.len(), 0);
    assert_eq!(table.get(&id("a")), None);
    assert_eq!(table.position(&id("a")), None);
    assert!(!table.contains_key(&id("a")));
}

#[test]
fn insert_under_a_new_id_appends() {
    let mut table: IntegrationsTree<u32> = IntegrationsTree::new();
    assert_eq!(table.insert(id("a"), 1), None);
    assert_eq!(table.insert(id("b"), 2), None);
    assert_eq!(table.insert(id("c"), 3), None);
    assert_eq!(table.len(), 3);
    assert_eq!(table.position(&id("a")), Some(0));
    assert_eq!(table.position(&id("b")), Some(1));
    assert_eq!(table.position(&id("c")), Some(2));
    assert_eq!(table.get(&id("b")), Some(&2));
    assert!(table.contains_key(&id("c")));
    assert!(!table.contains_key(&id("d")));
}

#[test]
fn insert_under_a_held_id_replaces_in_place() {
    let mut table: IntegrationsTree<u32> = IntegrationsTree::new();
    assert_eq!(table.insert(id("a"), 1), None);
    assert_eq!(table.insert(id("b"), 2), None);
    assert_eq!(table.insert(id("a"), 10), Some(1));
    assert_eq!(table.insert(id("a"), 11), Some(10));
    assert_eq!(table.len(), 2);
    assert_eq!(table.position(&id("a")), Some(0));
    assert_eq!(table.position(&id("b")), Some(1));
    assert_eq!(table.get(&id("a")), Some(&11));
    assert_eq!(table.get(&id("b")), Some(&2));
}

#[test]
fn ids_are_told_apart_by_their_whole_text() {
    let mut table: IntegrationsTree<u32> = IntegrationsTree::new();
    assert_eq!(table.insert(id("lamp"), 1), None);
    assert_eq!(table.insert(id("lamp2"), 2), None);
    assert_eq!(table.insert(id(""), 3), None);
    assert_eq!(table.insert(id("Lamp"), 4), None);
    assert_eq!(table.len(), 4);
    assert_eq!(table.get(&id("lamp")), Some(&1));
    assert_eq!(table.get(&id("lamp2")), Some(&2));
    assert_eq!(table.get(&id("")), Some(&3));
    assert_eq!(table.get(&id("Lamp")), Some(&4));
    assert_eq!(table.get(&id("lam")), None);
}
