use ketchup::kindmap::KindMap;

#[test]
fn new_map_is_empty() {
    let map: KindMap<usize> = KindMap::new();
    assert_eq!(map.len(), 0);
    assert!(map.is_empty());
    assert!(map.get("Pod").is_none());
    assert!(map.entry(0).is_none());
    assert!(!map.contains_key("Pod"));
}

#[test]
fn insert_keeps_first_insertion_order() {
    let mut map: KindMap<usize> = KindMap::new();
    assert_eq!(map.insert("Pod".to_string(), 1), None);
    assert_eq!(map.insert("Service".to_string(), 2), None);
    assert_eq!(map.insert("Pod".to_string(), 3), Some(1));
    assert_eq!(map.len(), 2);
    assert!(!map.is_empty());
    assert_eq!(map.get("Pod"), Some(&3));
    assert_eq!(map.get("Service"), Some(&2));
    assert_eq!(map.get("pod"), None);
    assert_eq!(map.entry(0), Some((&"Pod".to_string(), &3)));
    assert_eq!(map.entry(1), Some((&"Service".to_string(), &2)));
    assert_eq!(map.entry(2), None);
    assert!(map.contains_key("Service"));
}
