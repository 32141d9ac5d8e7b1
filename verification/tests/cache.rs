use compio_boring::session_cache::{Entry, NoSessionCache, SessionCache, SimpleCache};

#[test]
fn entry_encoding_is_two_length_prefixed_parts() {
    let entry = Entry { session: vec![1, 2, 3], params: vec![4, 5] };
    let encoded = entry.encode();
    assert_eq!(
        encoded,
        vec![0, 0, 0, 0, 0, 0, 0, 3, 1, 2, 3, 0, 0, 0, 0, 0, 0, 0, 2, 4, 5]
    );
}

#[test]
fn entry_decode_recovers_what_encode_framed() {
    let entry = Entry { session: vec![9, 8, 7, 6], params: vec![] };
    let encoded = entry.encode();
    let decoded = Entry::decode(&encoded);
    assert_eq!(decoded.session, vec![9, 8, 7, 6]);
    assert_eq!(decoded.params, Vec::<u8>::new());
}

#[test]
fn entry_decode_ignores_trailing_bytes() {
    let entry = Entry { session: vec![1], params: vec![2, 3] };
    let mut encoded = entry.encode();
    encoded.push(250);
    encoded.push(251);
    let decoded = Entry::decode(&encoded);
    assert_eq!(decoded.session, vec![1]);
    assert_eq!(decoded.params, vec![2, 3]);
}

#[test]
fn entry_of_empty_parts_round_trips() {
    let entry = Entry { session: vec![], params: vec![] };
    let encoded = entry.encode();
    assert_eq!(encoded, vec![0; 16]);
    let decoded = Entry::decode(&encoded);
    assert_eq!(decoded.session, Vec::<u8>::new());
    assert_eq!(decoded.params, Vec::<u8>::new());
}

#[test]
fn simple_cache_of_capacity_one_holds_only_the_latest() {
    let mut cache = SimpleCache::new(1);
    cache.put_entry(vec![1], vec![10]);
    cache.put_entry(vec![2], vec![20]);
    assert_eq!(cache.get_entry(&vec![1]), None);
    assert_eq!(cache.get_entry(&vec![2]), Some(vec![20]));
    assert_eq!(cache.len(), 1);
}

#[test]
fn no_session_cache_stores_nothing() {
    let mut cache = NoSessionCache;
    cache.put(vec![1], vec![2]);
    assert_eq!(cache.get(&vec![1]), None);
    cache.remove(&vec![1]);
    cache.clear();
}

#[test]
fn simple_cache_stores_and_returns_values() {
    let mut cache = SimpleCache::new(4);
    cache.put_entry(vec![1], vec![10]);
    cache.put_entry(vec![2], vec![20]);
    assert_eq!(cache.get_entry(&vec![1]), Some(vec![10]));
    assert_eq!(cache.get_entry(&vec![2]), Some(vec![20]));
    assert_eq!(cache.get_entry(&vec![3]), None);
    assert_eq!(cache.len(), 2);
}

#[test]
fn simple_cache_updates_a_held_key_in_place() {
    let mut cache = SimpleCache::new(2);
    cache.put_entry(vec![1], vec![10]);
    cache.put_entry(vec![1], vec![11]);
    assert_eq!(cache.len(), 1);
    assert_eq!(cache.get_entry(&vec![1]), Some(vec![11]));
}

#[test]
fn simple_cache_evicts_the_least_recently_used_entry() {
    let mut cache = SimpleCache::new(2);
    cache.put_entry(vec![1], vec![10]);
    cache.put_entry(vec![2], vec![20]);
    cache.put_entry(vec![3], vec![30]);
    // key 1 was the least recently used
    assert_eq!(cache.get_entry(&vec![1]), None);
    assert_eq!(cache.get_entry(&vec![2]), Some(vec![20]));
    assert_eq!(cache.get_entry(&vec![3]), Some(vec![30]));
}

#[test]
fn simple_cache_get_refreshes_recency() {
    let mut cache = SimpleCache::new(2);
    cache.put_entry(vec![1], vec![10]);
    cache.put_entry(vec![2], vec![20]);
    // touching key 1 makes key 2 the eviction candidate
    assert_eq!(cache.get_entry(&vec![1]), Some(vec![10]));
    cache.put_entry(vec![3], vec![30]);
    assert_eq!(cache.get_entry(&vec![2]), None);
    assert_eq!(cache.get_entry(&vec![1]), Some(vec![10]));
}

#[test]
fn simple_cache_remove_and_clear() {
    let mut cache = SimpleCache::new(3);
    cache.put_entry(vec![1], vec![10]);
    cache.put_entry(vec![2], vec![20]);
    cache.remove_entry(&vec![1]);
    assert_eq!(cache.get_entry(&vec![1]), None);
    assert_eq!(cache.len(), 1);
    cache.clear_entries();
    assert_eq!(cache.len(), 0);
    assert_eq!(cache.get_entry(&vec![2]), None);
}

#[test]
fn simple_cache_through_the_trait() {
    let mut cache = SimpleCache::new(2);
    SessionCache::put(&mut cache, vec![1, 1], vec![9]);
    assert_eq!(SessionCache::get(&mut cache, &vec![1, 1]), Some(vec![9]));
    SessionCache::remove(&mut cache, &vec![1, 1]);
    assert_eq!(SessionCache::get(&mut cache, &vec![1, 1]), None);
}
