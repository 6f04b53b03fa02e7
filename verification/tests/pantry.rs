use north_pole::pantry::IngredientMap;

#[test]
fn new_map_is_empty() {
    let map = IngredientMap::new();
    assert_eq!(map.len(), 0);
    assert_eq!(map.get("flour"), None);
    assert!(map.to_pairs().is_empty());
}

#[test]
fn insert_adds_and_replaces() {
    let mut map = IngredientMap::new();
    map.insert("flour".to_string(), 1);
    map.insert("sugar".to_string(), 2);
    map.insert("flour".to_string(), 3);
    assert_eq!(map.len(), 2);
    assert_eq!(map.get("flour"), Some(3));
    assert_eq!(map.get("sugar"), Some(2));
    assert_eq!(map.to_pairs(), vec![("flour".to_string(), 3), ("sugar".to_string(), 2)]);
}

#[test]
fn names_are_case_sensitive() {
    let mut map = IngredientMap::new();
    map.insert("flour".to_string(), 1);
    map.insert("Flour".to_string(), 2);
    assert_eq!(map.len(), 2);
    assert_eq!(map.get("flour"), Some(1));
    assert_eq!(map.get("Flour"), Some(2));
    assert_eq!(map.get("FLOUR"), None);
}

#[test]
fn from_pairs_keeps_the_last_of_a_name() {
    let map = IngredientMap::from_pairs(vec![
        ("flour".to_string(), 1),
        ("sugar".to_string(), 2),
        ("flour".to_string(), 7),
        ("".to_string(), 9),
    ]);
    assert_eq!(map.len(), 3);
    assert_eq!(map.get("flour"), Some(7));
    assert_eq!(map.get("sugar"), Some(2));
    assert_eq!(map.get(""), Some(9));
}

#[test]
fn pairs_go_round() {
    let pairs = vec![("b".to_string(), 2), ("a".to_string(), 1), ("süß".to_string(), 0)];
    let map = IngredientMap::from_pairs(pairs.clone());
    assert_eq!(map.to_pairs(), pairs);
    assert_eq!(map.get("süß"), Some(0));
}
