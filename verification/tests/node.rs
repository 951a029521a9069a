use memo_cache::{Cache, CacheNode, CapacityController, ExpirationController, Initialized, Instant};

fn square(x: u64) -> u64 {
    x * x
}

fn at(secs: i64) -> Instant {
    Instant::new(secs, 0)
}

fn node_with(ttl: u64, capacity: usize, revalidate: bool, start: i64) -> CacheNode<Initialized> {
    Cache::new_node().expires_at(ttl, at(start)).capacity(capacity).revalidate(revalidate)
}

#[test]
fn new_node_has_defaults() {
    let mut node = Cache::new_node();
    assert_eq!(node.len(), 0);
    assert_eq!(node.entries(), vec![]);
    assert!(node.capacity_check());
    assert_eq!(node.validate_expiration_at(at(i64::MAX)), Ok(()));
    assert_eq!(node.validate_expiration(), Ok(()));
    for key in 0..8 {
        node.insert(key, key + 100);
    }
    assert_eq!(node.len(), 8);
    assert!(!node.capacity_check());
    node.insert(8, 108);
    assert_eq!(node.len(), 8);
    assert_eq!(node.entries()[0], (1, 101));
}

#[test]
fn default_window_is_ten_seconds() {
    let mut node = Cache::new_node().capacity(4);
    node.insert(1, 11);
    let node = node.expires_at(0, at(50));
    let mut node = node.with_memo(square);
    // The stale read drops the entry and starts a window as long as the
    // last one that was configured.
    assert_eq!(node.value_at(1, at(51)), Some(1));
    assert_eq!(node.validate_expiration_at(at(51)), Ok(()));
    assert_eq!(node.validate_expiration_at(at(52)), Err("expired"));
}

#[test]
fn scenario_square_with_capacity_two() {
    let mut node = Cache::new_node()
        .expires(10)
        .capacity(2)
        .revalidate(false)
        .with_memo(square);
    assert_eq!(node.value(2), Some(4));
    assert_eq!(node.entries(), vec![(2, 4)]);
    assert_eq!(node.value(3), Some(9));
    assert_eq!(node.entries(), vec![(2, 4), (3, 9)]);
    assert_eq!(node.value(4), Some(16));
    assert_eq!(node.entries(), vec![(3, 9), (4, 16)]);
    assert_eq!(node.value(3), Some(9));
    assert_eq!(node.entries(), vec![(3, 9), (4, 16)]);
}

#[test]
fn scenario_square_at_given_instants() {
    let mut node = node_with(10, 2, false, 1_000).with_memo(square);
    assert_eq!(node.value_at(2, at(1_001)), Some(4));
    assert_eq!(node.value_at(3, at(1_002)), Some(9));
    assert_eq!(node.value_at(4, at(1_003)), Some(16));
    assert_eq!(node.entries(), vec![(3, 9), (4, 16)]);
    assert_eq!(node.value_at(3, at(1_004)), Some(9));
    assert_eq!(node.entries(), vec![(3, 9), (4, 16)]);
}

#[test]
fn stored_value_is_not_recomputed_while_fresh() {
    // The computation disagrees with what was stored by hand, so a served
    // value can be told from a computed one.
    let mut node = node_with(10, 4, false, 0);
    node.insert(5, 777);
    let mut node = node.with_memo(square);
    assert_eq!(node.value_at(5, at(10)), Some(777));
    assert_eq!(node.value_at(5, at(10)), Some(777));
    assert_eq!(node.entries(), vec![(5, 777)]);
    assert_eq!(node.value_at(6, at(10)), Some(36));
    assert_eq!(node.value_at(6, at(10)), Some(36));
    assert_eq!(node.entries(), vec![(5, 777), (6, 36)]);
}

#[test]
fn computation_runs_once_while_fresh() {
    let calls = std::rc::Rc::new(std::cell::Cell::new(0u32));
    let seen = calls.clone();
    let mut node = node_with(10, 4, false, 0).with_memo(move |x: u64| {
        seen.set(seen.get() + 1);
        x * x
    });
    assert_eq!(node.value_at(6, at(1)), Some(36));
    assert_eq!(node.value_at(6, at(1)), Some(36));
    assert_eq!(node.value_at(6, at(10)), Some(36));
    assert_eq!(calls.get(), 1);
    // Past the expiration the entry is dropped and computed again.
    assert_eq!(node.value_at(6, at(11)), Some(36));
    assert_eq!(calls.get(), 2);
    assert_eq!(node.value(6), Some(36));
    assert_eq!(calls.get(), 3);
    assert_eq!(node.value(6), Some(36));
    assert_eq!(calls.get(), 3);
}

#[test]
fn revalidation_never_computes_a_stored_key() {
    let calls = std::rc::Rc::new(std::cell::Cell::new(0u32));
    let seen = calls.clone();
    let mut node = node_with(1, 4, true, 0).with_memo(move |x: u64| {
        seen.set(seen.get() + 1);
        x + 1
    });
    assert_eq!(node.value_at(5, at(0)), Some(6));
    assert_eq!(node.value_at(5, at(100)), Some(6));
    assert_eq!(node.value_at(5, at(200)), Some(6));
    assert_eq!(calls.get(), 1);
}

#[test]
fn capacity_is_kept_over_many_inserts() {
    let mut node = Cache::new_node().capacity(3);
    for key in 0..50u64 {
        node.insert(key % 7, key);
        assert!(node.len() <= 3);
    }
    assert_eq!(node.entries(), vec![(5, 47), (6, 48), (0, 49)]);
    let mut node = node.with_memo(square);
    for key in 10..50u64 {
        assert_eq!(node.value_at(key, at(0)), Some(key * key));
        assert!(node.len() <= 3);
    }
    assert_eq!(node.entries(), vec![(47, 2209), (48, 2304), (49, 2401)]);
}

#[test]
fn overflow_evicts_first_inserted() {
    let mut node = Cache::new_node().capacity(3);
    node.insert(10, 1);
    node.insert(20, 2);
    node.insert(30, 3);
    assert_eq!(node.entries(), vec![(10, 1), (20, 2), (30, 3)]);
    node.insert(40, 4);
    assert_eq!(node.entries(), vec![(20, 2), (30, 3), (40, 4)]);
    assert_eq!(node.get_at(10, at(0)), None);
    assert_eq!(node.get_at(20, at(0)), Some(2));
}

#[test]
fn reading_does_not_protect_from_eviction() {
    let mut node = Cache::new_node().capacity(2);
    node.insert(1, 10);
    node.insert(2, 20);
    assert_eq!(node.get_at(1, at(0)), Some(10));
    assert_eq!(node.get(1), Some(10));
    node.insert(3, 30);
    assert_eq!(node.entries(), vec![(2, 20), (3, 30)]);
}

#[test]
fn reinserting_moves_key_to_the_young_end() {
    let mut node = Cache::new_node().capacity(3);
    node.insert(1, 10);
    node.insert(2, 20);
    node.insert(1, 11);
    assert_eq!(node.entries(), vec![(2, 20), (1, 11)]);
    node.insert(3, 30);
    node.insert(4, 40);
    assert_eq!(node.entries(), vec![(1, 11), (3, 30), (4, 40)]);
}

#[test]
fn full_store_evicts_even_for_a_stored_key() {
    let mut node = Cache::new_node().capacity(2);
    node.insert(2, 4);
    node.insert(3, 9);
    node.insert(3, 10);
    assert_eq!(node.entries(), vec![(3, 10)]);
}

#[test]
fn zero_window_is_stale_at_once() {
    let mut node = node_with(0, 4, false, 100);
    node.insert(1, 10);
    assert_eq!(node.validate_expiration_at(at(100)), Ok(()));
    assert_eq!(node.validate_expiration_at(Instant::new(100, 1)), Err("expired"));
    assert_eq!(node.get_at(1, Instant::new(100, 1)), None);
    assert_eq!(node.len(), 0);
}

#[test]
fn zero_window_read_at_the_same_instant_is_fresh() {
    let mut node = node_with(0, 4, false, 100);
    node.insert(1, 10);
    assert_eq!(node.get_at(1, at(100)), Some(10));
    assert_eq!(node.len(), 1);
}

#[test]
fn nanoseconds_break_ties() {
    let node = Cache::new_node().expires_at(1, Instant::new(5, 500));
    assert_eq!(node.validate_expiration_at(Instant::new(6, 500)), Ok(()));
    assert_eq!(node.validate_expiration_at(Instant::new(6, 501)), Err("expired"));
    assert_eq!(node.validate_expiration_at(Instant::new(7, 0)), Err("expired"));
    assert_eq!(node.validate_expiration_at(Instant::new(6, 499)), Ok(()));
    assert_eq!(node.validate_expiration_at(Instant::new(-3, 999)), Ok(()));
}

#[test]
fn window_may_reach_beyond_the_clock() {
    let node = Cache::new_node().expires_at(u64::MAX, Instant::new(i64::MAX, 0));
    assert_eq!(node.validate_expiration_at(Instant::new(i64::MAX, 999_999_999)), Ok(()));
    let node = Cache::new_node().expires_at(0, Instant::new(i64::MIN, 0));
    assert_eq!(node.validate_expiration_at(Instant::new(i64::MIN, 1)), Err("expired"));
}

#[test]
fn revalidate_serves_stale_value_and_renews() {
    let mut node = node_with(1, 4, true, 100);
    node.insert(7, 70);
    node.insert(8, 80);
    let mut node = node.with_memo(square);
    // Stale at 102: the stored value comes back, nothing is computed.
    assert_eq!(node.validate_expiration_at(at(102)), Err("expired"));
    assert_eq!(node.value_at(7, at(102)), Some(70));
    assert_eq!(node.entries(), vec![(7, 70), (8, 80)]);
    // The window now runs from 102 to 103.
    assert_eq!(node.validate_expiration_at(at(103)), Ok(()));
    assert_eq!(node.validate_expiration_at(Instant::new(103, 1)), Err("expired"));
    assert_eq!(node.value_at(8, at(200)), Some(80));
    assert_eq!(node.validate_expiration_at(at(201)), Ok(()));
}

#[test]
fn revalidate_at_the_deadline_changes_nothing() {
    let mut node = node_with(1, 4, true, 100);
    node.insert(7, 70);
    assert_eq!(node.get_at(7, at(101)), Some(70));
    assert_eq!(node.validate_expiration_at(Instant::new(101, 1)), Err("expired"));
}

#[test]
fn get_revalidates_without_computing() {
    let mut node = node_with(1, 4, true, 100);
    node.insert(7, 70);
    assert_eq!(node.get_at(7, at(500)), Some(70));
    assert_eq!(node.get_at(9, at(900)), None);
    assert_eq!(node.entries(), vec![(7, 70)]);
    assert_eq!(node.validate_expiration_at(at(501)), Ok(()));
    assert_eq!(node.validate_expiration_at(at(502)), Err("expired"));
}

#[test]
fn expire_clears_every_entry_and_recomputes() {
    let mut node = node_with(1, 4, false, 100);
    node.insert(7, 70);
    let mut node = node.with_memo(square);
    // Key 8 arrives later, inside the same window.
    assert_eq!(node.value_at(8, at(101)), Some(64));
    assert_eq!(node.entries(), vec![(7, 70), (8, 64)]);
    // A stale read of key 8 drops key 7 as well and computes anew.
    assert_eq!(node.value_at(8, at(102)), Some(64));
    assert_eq!(node.entries(), vec![(8, 64)]);
    assert_eq!(node.validate_expiration_at(at(103)), Ok(()));
    assert_eq!(node.validate_expiration_at(at(104)), Err("expired"));
    // A stale read of a key stored by hand gets the computed value.
    assert_eq!(node.value_at(7, at(103)), Some(49));
}

#[test]
fn expire_on_get_clears_and_misses() {
    let mut node = node_with(1, 4, false, 100);
    node.insert(7, 70);
    node.insert(8, 80);
    assert_eq!(node.get_at(7, at(102)), None);
    assert_eq!(node.len(), 0);
    assert_eq!(node.validate_expiration_at(at(103)), Ok(()));
    assert_eq!(node.get_at(8, at(103)), None);
}

#[test]
fn absent_key_does_not_check_expiry() {
    let mut node = node_with(1, 4, false, 100);
    node.insert(7, 70);
    assert_eq!(node.get_at(9, at(500)), None);
    assert_eq!(node.entries(), vec![(7, 70)]);
    let mut node = node.with_memo(square);
    assert_eq!(node.value_at(9, at(500)), Some(81));
    assert_eq!(node.entries(), vec![(7, 70), (9, 81)]);
    assert_eq!(node.validate_expiration_at(at(500)), Err("expired"));
}

#[test]
fn no_capacity_keeps_the_last_entry_only() {
    let mut node = node_with(10, 0, false, 0).with_memo(square);
    for key in 0..20u64 {
        assert_eq!(node.value_at(key, at(1)), Some(key * key));
        assert_eq!(node.entries(), vec![(key, key * key)]);
    }
    assert_eq!(node.value_at(19, at(1)), Some(361));
    assert_eq!(node.value(3), Some(9));
    assert_eq!(node.entries(), vec![(3, 9)]);
}

#[test]
fn no_capacity_insert_by_hand() {
    let mut node = Cache::new_node().capacity(0);
    assert!(!node.capacity_check());
    assert_eq!(node.clean_up(), Err(()));
    node.insert(1, 10);
    assert_eq!(node.entries(), vec![(1, 10)]);
    node.insert(2, 20);
    assert_eq!(node.entries(), vec![(2, 20)]);
}

#[test]
fn memoise_always_computes_and_stores() {
    let mut node = Cache::new_node().capacity(2);
    node.insert(3, 1);
    node.insert(4, 2);
    let mut node = node.with_memo(square);
    assert_eq!(node.memoise(&3), 9);
    assert_eq!(node.entries(), vec![(4, 2), (3, 9)]);
    assert_eq!(node.memoise(&3), 9);
    assert_eq!(node.entries(), vec![(3, 9)]);
    assert_eq!(node.memoise(&5), 25);
    assert_eq!(node.memoise(&6), 36);
    assert_eq!(node.entries(), vec![(5, 25), (6, 36)]);
}

#[test]
fn closures_can_be_attached() {
    let offset = 7u64;
    let mut node = Cache::new_node().with_memo(move |x: u64| x + offset);
    assert_eq!(node.value(1), Some(8));
    assert_eq!(node.value(1), Some(8));
    assert_eq!(node.len(), 1);
}

#[test]
fn clean_up_evicts_oldest() {
    let mut node = Cache::new_node();
    assert_eq!(node.clean_up(), Err(()));
    node.insert(1, 10);
    node.insert(2, 20);
    assert_eq!(node.clean_up(), Ok(()));
    assert_eq!(node.entries(), vec![(2, 20)]);
    assert_eq!(node.clean_up(), Ok(()));
    assert_eq!(node.clean_up(), Err(()));
}

#[test]
fn lowering_capacity_does_not_evict_by_itself() {
    let mut node = Cache::new_node();
    for key in 0..5u64 {
        node.insert(key, key);
    }
    let mut node = node.capacity(2);
    assert_eq!(node.len(), 5);
    assert!(!node.capacity_check());
    node.insert(9, 9);
    assert_eq!(node.entries(), vec![(1, 1), (2, 2), (3, 3), (4, 4), (9, 9)]);
}

#[test]
fn configuration_works_after_binding() {
    let node = Cache::new_node().with_memo(square);
    let mut node = node.capacity(1).revalidate(true).expires_at(5, at(0));
    assert_eq!(node.value_at(2, at(1)), Some(4));
    assert_eq!(node.value_at(3, at(1)), Some(9));
    assert_eq!(node.entries(), vec![(3, 9)]);
    assert_eq!(node.value_at(3, at(100)), Some(9));
    assert_eq!(node.validate_expiration_at(at(105)), Ok(()));
}

#[test]
fn clock_reading_is_after_the_epoch_window() {
    // A window of zero seconds started long ago is over by now.
    let mut node = Cache::new_node().expires_at(0, at(0));
    node.insert(1, 10);
    assert_eq!(node.validate_expiration(), Err("expired"));
    assert_eq!(node.get(1), None);
    assert_eq!(node.len(), 0);
    // The read started a window at the clock's reading, which is not ten
    // seconds old yet.
    let node = node.expires(3_600);
    assert_eq!(node.validate_expiration(), Ok(()));
    assert_eq!(node.validate_expiration_at(at(0)), Ok(()));
    assert_eq!(node.validate_expiration_at(at(i64::MAX)), Err("expired"));
}
