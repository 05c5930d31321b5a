use donglora_bridge::dedup::DedupCache;

const MS: u64 = 1_000_000;
const SEC: u64 = 1_000 * MS;

#[test]
fn dedup_cache_new_key_not_duplicate() {
    let mut cache = DedupCache::new(10 * SEC);
    assert!(!cache.check_and_insert([0u8; 32], 0));
}

#[test]
fn dedup_cache_duplicate_detected() {
    let mut cache = DedupCache::new(10 * SEC);
    cache.check_and_insert([1u8; 32], 0);
    assert!(cache.check_and_insert([1u8; 32], 0));
}

#[test]
fn dedup_cache_different_keys_independent() {
    let mut cache = DedupCache::new(10 * SEC);
    cache.check_and_insert([1u8; 32], 0);
    assert!(!cache.check_and_insert([2u8; 32], 0));
}

#[test]
fn dedup_cache_keys_differ_in_one_byte() {
    let mut cache = DedupCache::new(10 * SEC);
    cache.check_and_insert([1u8; 32], 0);
    for i in 0..32 {
        let mut key = [1u8; 32];
        key[i] = 2;
        assert!(!cache.check_and_insert(key, 0));
    }
    assert_eq!(cache.len(), 33);
}

#[test]
fn dedup_cache_expired_entry_not_duplicate() {
    let mut cache = DedupCache::new(MS);
    cache.check_and_insert([1u8; 32], 0);
    assert!(!cache.check_and_insert([1u8; 32], 5 * MS));
}

#[test]
fn dedup_cache_prune_removes_expired() {
    let mut cache = DedupCache::new(MS);
    cache.check_and_insert([1u8; 32], 0);
    cache.check_and_insert([2u8; 32], 0);
    cache.prune(5 * MS);
    assert!(cache.is_empty());
}

#[test]
fn dedup_cache_prune_keeps_fresh() {
    let mut cache = DedupCache::new(10 * SEC);
    cache.check_and_insert([1u8; 32], 0);
    cache.prune(0);
    assert_eq!(cache.len(), 1);
}

#[test]
fn dedup_cache_ttl_boundary_check_and_insert() {
    let ttl = 10 * SEC;
    let now = 20 * SEC;
    let mut cache = DedupCache::new(ttl);
    cache.check_and_insert([9u8; 32], now);
    // Backdate the entry to exactly TTL ago.
    cache.insert([9u8; 32], now - ttl);
    assert!(!cache.check_and_insert([9u8; 32], now), "entry at exact TTL must be treated as expired");
}

#[test]
fn dedup_cache_ttl_boundary_prune() {
    let ttl = 10 * SEC;
    let now = 20 * SEC;
    let mut cache = DedupCache::new(ttl);
    cache.check_and_insert([8u8; 32], now);
    // Backdate to exactly TTL ago.
    cache.insert([8u8; 32], now - ttl);
    cache.prune(now);
    assert!(cache.is_empty(), "entry at exact TTL must be pruned");
}

#[test]
fn dedup_cache_last_instant_of_the_window() {
    let mut cache = DedupCache::new(10 * SEC);
    cache.check_and_insert([9u8; 32], 5);
    assert!(cache.check_and_insert([9u8; 32], 5 + 10 * SEC - 1));
    // A duplicate does not extend the window.
    assert!(!cache.check_and_insert([9u8; 32], 5 + 10 * SEC));
}

#[test]
fn dedup_cache_prune_is_invisible() {
    let mut pruned = DedupCache::new(10);
    let mut plain = DedupCache::new(10);
    for now in 0..100u64 {
        let key = [(now * 7 % 5) as u8; 32];
        pruned.prune(now);
        assert_eq!(pruned.check_and_insert(key, now), plain.check_and_insert(key, now));
    }
    assert!(pruned.len() <= plain.len());
}

#[test]
fn dedup_cache_clock_that_goes_back() {
    let mut cache = DedupCache::new(10);
    cache.check_and_insert([1u8; 32], 100);
    assert!(cache.check_and_insert([1u8; 32], 50));
}

#[test]
fn dedup_cache_repeats_do_not_extend_the_window() {
    let mut cache = DedupCache::new(10 * SEC);
    assert!(!cache.check_and_insert([1u8; 32], 0));
    for t in 1..10 {
        assert!(cache.check_and_insert([1u8; 32], t * SEC));
        cache.prune(t * SEC);
    }
    assert!(!cache.check_and_insert([1u8; 32], 10 * SEC));
    assert!(cache.check_and_insert([1u8; 32], 11 * SEC));
}

#[test]
fn dedup_cache_follows_the_last_accepted_offer() {
    let mut cache = DedupCache::new(7);
    let mut accepted: [Option<u64>; 3] = [None; 3];
    for t in 0..200u64 {
        let key = (t * t + t / 5) as usize % 3;
        let expected = accepted[key].is_some_and(|at| t - at < 7);
        assert_eq!(cache.check_and_insert([key as u8; 32], t), expected, "at {t}");
        if !expected {
            accepted[key] = Some(t);
        }
        if t % 4 == 0 {
            cache.prune(t);
        }
    }
}
