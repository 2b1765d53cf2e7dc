use zwohash::{HashMap, HashSet};

#[test]
fn map_stores_and_finds_keys() {
    let mut map: HashMap<u64, &str> = HashMap::default();
    for key in 0..1000u64 {
        map.insert(key << 32, "high");
        map.insert(key, "low");
    }
    assert_eq!(map.len(), 1999);
    assert_eq!(map.get(&0), Some(&"low"));
    assert_eq!(map.get(&(5 << 32)), Some(&"high"));
    assert_eq!(map.get(&7), Some(&"low"));
    assert_eq!(map.get(&1000), None);
}

#[test]
fn set_keeps_each_value_once() {
    let mut set: HashSet<String> = HashSet::default();
    assert!(set.insert("hel".to_string()));
    assert!(set.insert("hello".to_string()));
    assert!(!set.insert("hel".to_string()));
    assert!(set.insert(String::new()));
    assert_eq!(set.len(), 3);
    assert!(set.contains("hello"));
    assert!(!set.contains("help"));
}
