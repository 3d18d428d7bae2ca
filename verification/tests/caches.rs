use portfu::cache::CircularCache as SlotCache;
use portfu::utils::cache::CircularCache as FifoCache;

#[test]
fn slot_cache_starts_empty() {
    let cache: SlotCache<u64, &str, 3> = SlotCache::new();
    assert_eq!(cache.keys().len(), 3);
    assert!(cache.keys().iter().all(|k| k.is_none()));
    assert!(cache.values().iter().all(|v| v.is_none()));
    assert!(!cache.contains(&1));
    assert_eq!(cache.first(&1), None);
    assert!(cache.slice().is_empty());
}

#[test]
fn slot_cache_insert_then_read_back() {
    let mut cache: SlotCache<u64, &str, 3> = SlotCache::new();
    assert_eq!(cache.insert(7, "seven"), (None, None));
    assert!(cache.contains(&7));
    assert_eq!(cache.first(&7), Some(&"seven"));
    assert_eq!(cache.get(&7), vec![&Some("seven")]);
    assert_eq!(cache.get_all(&7), vec![&Some("seven")]);
    assert!(!cache.contains(&8));
}

#[test]
fn slot_cache_wraps_and_evicts_oldest_slot() {
    let mut cache: SlotCache<u64, u32, 2> = SlotCache::new();
    assert_eq!(cache.insert(1, 10), (None, None));
    assert_eq!(cache.insert(2, 20), (None, None));
    assert_eq!(cache.insert(3, 30), (Some(1), Some(10)));
    assert!(!cache.contains(&1));
    assert_eq!(cache.first(&3), Some(&30));
    assert_eq!(cache.keys(), &[Some(3), Some(2)]);
}

#[test]
fn slot_cache_slice_follows_the_counter() {
    let mut cache: SlotCache<u64, u32, 3> = SlotCache::new();
    cache.insert(1, 10);
    // The counter stands at the last slot written, so the first write is not yet counted.
    assert!(cache.slice().is_empty());
    cache.insert(2, 20);
    assert_eq!(cache.slice(), &[Some(10)]);
    cache.insert(3, 30);
    cache.insert(4, 40);
    assert_eq!(cache.slice(), &[Some(40), Some(20), Some(30)]);
}

#[test]
fn slot_cache_get_lists_every_slot_of_a_key() {
    let mut cache: SlotCache<String, u32, 3> = SlotCache::new();
    cache.insert("a".to_string(), 1);
    cache.insert("b".to_string(), 2);
    cache.insert("a".to_string(), 3);
    assert_eq!(cache.get(&"a".to_string()), vec![&Some(1), &Some(3)]);
    assert_eq!(cache.first(&"a".to_string()), Some(&1));
}

#[test]
fn slot_cache_replace_changes_first_matching_slot() {
    let mut cache: SlotCache<u64, u32, 3> = SlotCache::new();
    cache.insert(5, 50);
    assert_eq!(cache.replace(5, 55), Some(Some(50)).flatten());
    assert_eq!(cache.first(&5), Some(&55));
    assert_eq!(cache.replace(6, 60), None);
    assert!(!cache.contains(&6));
}

#[test]
fn fifo_cache_starts_empty() {
    let cache: FifoCache<u64, u32, 2> = FifoCache::new();
    assert!(cache.slice().is_empty());
    assert!(!cache.contains(&1));
    assert_eq!(cache.first(&1), None);
    assert!(cache.get(&1).is_empty());
}

#[test]
fn fifo_cache_insert_then_read_back() {
    let mut cache: FifoCache<String, u32, 2> = FifoCache::new();
    assert_eq!(cache.insert("x".to_string(), 1), (None, None));
    assert!(cache.contains(&"x".to_string()));
    assert_eq!(cache.first(&"x".to_string()), Some(&1));
    assert_eq!(cache.slice(), &[1]);
}

#[test]
fn fifo_cache_evicts_first_in_when_full() {
    let mut cache: FifoCache<u64, u32, 2> = FifoCache::new();
    cache.insert(1, 10);
    cache.insert(2, 20);
    assert_eq!(cache.insert(3, 30), (Some(1), Some(10)));
    assert_eq!(cache.slice(), &[30, 20]);
    assert!(!cache.contains(&1));
    assert_eq!(cache.insert(4, 40), (Some(2), Some(20)));
    assert_eq!(cache.slice(), &[30, 40]);
}

#[test]
fn fifo_cache_get_and_replace() {
    let mut cache: FifoCache<u64, u32, 3> = FifoCache::new();
    cache.insert(1, 10);
    cache.insert(1, 11);
    assert_eq!(cache.get(&1), vec![&10, &11]);
    assert_eq!(cache.replace(&1, 12), Some(10));
    assert_eq!(cache.get(&1), vec![&12, &11]);
    assert_eq!(cache.replace(&9, 90), None);
}

#[test]
fn caches_evict_the_pair_inserted_n_inserts_earlier() {
    let mut slots: SlotCache<u64, u64, 3> = SlotCache::new();
    let mut fifo: FifoCache<u64, u64, 3> = FifoCache::new();
    for k in 0..10u64 {
        let expected = if k < 3 { (None, None) } else { (Some(k - 3), Some(100 + k - 3)) };
        assert_eq!(slots.insert(k, 100 + k), expected);
        assert_eq!(fifo.insert(k, 100 + k), expected);
    }
    assert_eq!(slots.keys(), &[Some(9), Some(7), Some(8)]);
    assert_eq!(fifo.slice(), &[109, 107, 108]);
}
