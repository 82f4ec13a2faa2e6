use boxcar::names::NameMap;

#[test]
fn values_are_found_by_name() {
    let mut map: NameMap<u8> = NameMap::new();
    assert_eq!(map.len(), 0);
    assert_eq!(map.get("a"), None);
    map.insert("a".to_string(), 1);
    map.insert("b".to_string(), 2);
    map.insert("a".to_string(), 3);
    assert_eq!(map.len(), 2);
    assert_eq!(map.get("a"), Some(&3));
    assert_eq!(map.get("b"), Some(&2));
    assert_eq!(map.get(""), None);
}

#[test]
fn names_keep_their_order() {
    let mut map: NameMap<u8> = NameMap::default();
    map.insert("z".to_string(), 1);
    map.insert("a".to_string(), 2);
    map.insert("m".to_string(), 3);
    map.insert("z".to_string(), 4);
    let names: Vec<&str> = (0..map.len()).map(|i| map.name_at(i).as_str()).collect();
    let values: Vec<u8> = (0..map.len()).map(|i| *map.value_at(i)).collect();
    assert_eq!(names, vec!["z", "a", "m"]);
    assert_eq!(values, vec![4, 2, 3]);
}

#[test]
fn removed_names_are_gone() {
    let mut map: NameMap<u8> = NameMap::new();
    map.insert("a".to_string(), 1);
    map.insert("b".to_string(), 2);
    let copy = map.clone();
    assert_eq!(map.remove("a"), Some(1));
    assert_eq!(map.remove("a"), None);
    assert_eq!(map.get("a"), None);
    assert_eq!(map.get("b"), Some(&2));
    assert_eq!(copy.get("a"), Some(&1));
    assert_eq!(copy.len(), 2);
}

#[test]
fn names_keep_their_order_when_one_is_removed() {
    let mut map: NameMap<u8> = NameMap::new();
    for name in ["z", "a", "m", "b"] {
        map.insert(name.to_string(), 1);
    }
    map.remove("a");
    map.remove("x");
    let names: Vec<&str> = (0..map.len()).map(|i| map.name_at(i).as_str()).collect();
    assert_eq!(names, vec!["z", "m", "b"]);
}
