use ghfs::cache::LRUCache;

#[test]
fn test1() {
    let mut cache = LRUCache::new();
    for i in 0..8 {
        cache.insert_cache(i as u64, i);
    }
    println!("----------------------------------------------");
    for i in 0..8 {
        assert_eq!(cache.get_cache(i as u64), Some(&i));
    }
}

#[test]
fn empty_cache() {
    let mut cache: LRUCache<u8> = LRUCache::new();
    assert!(!cache.contains(1));
    assert_eq!(cache.get_cache(1), None);
    assert_eq!(cache.get_cache_mut(1), None);
}

#[test]
fn cache_keeps_entries_in_any_order_of_use() {
    let mut cache = LRUCache::new();
    for i in 0..50u64 {
        assert_eq!(*cache.insert_cache(i, i * i), i * i);
    }
    let mut key: u64 = 7;
    for _ in 0..500 {
        key = (key * 31 + 11) % 50;
        assert_eq!(cache.get_cache(key), Some(&(key * key)));
    }
    for i in 0..50u64 {
        assert!(cache.contains(i));
        assert_eq!(cache.get_cache(i), Some(&(i * i)));
    }
    assert!(!cache.contains(50));
}

#[test]
fn cache_replaces_entries() {
    let mut cache = LRUCache::new();
    cache.insert_cache(1, "one".to_string());
    cache.insert_cache(2, "two".to_string());
    assert_eq!(cache.insert_cache(1, "eins".to_string()), "eins");
    assert_eq!(cache.get_cache(1), Some(&"eins".to_string()));
    assert_eq!(cache.get_cache(2), Some(&"two".to_string()));
}

#[test]
fn cache_entries_can_be_changed() {
    let mut cache = LRUCache::new();
    for i in 0..5u64 {
        cache.insert_cache(i, vec![i]);
    }
    cache.get_cache_mut(0).unwrap().push(9);
    cache.get_cache_mut(3).unwrap().push(8);
    assert_eq!(cache.get_cache(0), Some(&vec![0, 9]));
    assert_eq!(cache.get_cache(1), Some(&vec![1]));
    assert_eq!(cache.get_cache(3), Some(&vec![3, 8]));
}

#[test]
fn cache_takes_any_key() {
    let mut cache = LRUCache::new();
    cache.insert_cache(u64::MAX, 1);
    cache.insert_cache(0, 2);
    cache.insert_cache(1 << 40, 3);
    assert_eq!(cache.get_cache(u64::MAX), Some(&1));
    assert_eq!(cache.get_cache(0), Some(&2));
    assert_eq!(cache.get_cache(1 << 40), Some(&3));
}
