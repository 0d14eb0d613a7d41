use ref_aggregator::models::FungibleTokenMetadata;
use ref_aggregator::table::Table;

fn token(symbol: &str) -> FungibleTokenMetadata {
    FungibleTokenMetadata {
        spec: "ft-1.0.0".to_string(),
        name: format!("{} token", symbol),
        symbol: symbol.to_string(),
        icon: None,
        reference: None,
        reference_hash: None,
        decimals: 18,
    }
}

#[test]
fn new_table_is_empty() {
    let table: Table<FungibleTokenMetadata> = Table::new();
    assert_eq!(table.len(), 0);
    assert!(table.is_empty());
    assert!(!table.contains_key("a"));
    assert!(table.get("a").is_none());
    assert!(table.key_at(0).is_none());
    assert!(table.value_at(0).is_none());
    assert_eq!(table.find("a"), None);
}

#[test]
fn insert_appends_new_keys_in_order() {
    let mut table = Table::new();
    table.insert("b".to_string(), token("B"));
    table.insert("a".to_string(), token("A"));
    assert_eq!(table.len(), 2);
    assert!(!table.is_empty());
    assert_eq!(table.key_at(0).unwrap(), "b");
    assert_eq!(table.key_at(1).unwrap(), "a");
    assert_eq!(table.value_at(0).unwrap().symbol, "B");
    assert_eq!(table.value_at(1).unwrap().symbol, "A");
    assert!(table.key_at(2).is_none());
    assert_eq!(table.find("a"), Some(1));
    assert_eq!(table.get("a").unwrap().symbol, "A");
    assert_eq!(table.get("b").unwrap().symbol, "B");
    assert!(table.get("c").is_none());
}

#[test]
fn insert_replaces_in_place() {
    let mut table = Table::new();
    table.insert("a".to_string(), token("A"));
    table.insert("b".to_string(), token("B"));
    table.insert("a".to_string(), token("A2"));
    assert_eq!(table.len(), 2);
    assert_eq!(table.key_at(0).unwrap(), "a");
    assert_eq!(table.value_at(0).unwrap().symbol, "A2");
    assert_eq!(table.value_at(1).unwrap().symbol, "B");
}

#[test]
fn clone_keeps_keys_and_values() {
    let mut table = Table::new();
    table.insert("a".to_string(), token("A"));
    table.insert("b".to_string(), token("B"));
    let copy = table.clone();
    table.insert("c".to_string(), token("C"));
    assert_eq!(copy.len(), 2);
    assert_eq!(copy.key_at(0).unwrap(), "a");
    assert_eq!(copy.get("b").unwrap().symbol, "B");
    assert_eq!(copy.get("b").unwrap().name, "B token");
    assert!(!copy.contains_key("c"));
}

#[test]
fn keys_and_values_stand_side_by_side() {
    let mut table = Table::new();
    assert!(table.keys().is_empty());
    assert!(table.values().is_empty());
    table.insert("b".to_string(), token("B"));
    table.insert("a".to_string(), token("A"));
    table.insert("b".to_string(), token("B2"));
    assert_eq!(table.keys(), &vec!["b".to_string(), "a".to_string()]);
    let symbols: Vec<&str> = table.values().iter().map(|t| t.symbol.as_str()).collect();
    assert_eq!(symbols, vec!["B2", "A"]);
}
