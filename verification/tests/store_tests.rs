use openai_gpt_broker::cache::load_store;

fn unique_key() -> u64 {
    std::time::SystemTime::now()
        .duration_since(std::time::UNIX_EPOCH)
        .unwrap()
        .as_nanos() as u64
}

#[test]
fn put_then_get_observes_the_written_value() {
    let mut store = load_store("/tmp/openai_gpt_broker_test_store_put_get").unwrap();
    let key = unique_key();
    let value = vec![1u8, 2, 3, 250];
    assert_eq!(store.get_item_by_hash(key).unwrap(), None);
    assert!(!store.contains_hash(key).unwrap());
    store.insert_item(key, &value).unwrap();
    assert!(store.contains_hash(key).unwrap());
    assert_eq!(store.get_item_by_hash(key).unwrap(), Some(value));
}

#[test]
fn last_write_wins() {
    let mut store = load_store("/tmp/openai_gpt_broker_test_store_overwrite").unwrap();
    let key = unique_key();
    store.insert_item(key, &[1, 1, 1]).unwrap();
    store.insert_item(key, &[2, 2]).unwrap();
    assert_eq!(store.get_item_by_hash(key).unwrap(), Some(vec![2u8, 2]));
}

#[test]
fn distinct_keys_do_not_interfere() {
    let mut store = load_store("/tmp/openai_gpt_broker_test_store_keys").unwrap();
    let key = unique_key();
    let other = key.wrapping_add(1);
    store.insert_item(key, &[9]).unwrap();
    assert_eq!(store.get_item_by_hash(other).unwrap(), None);
    store.insert_item(other, &[8]).unwrap();
    assert_eq!(store.get_item_by_hash(key).unwrap(), Some(vec![9u8]));
    assert_eq!(store.get_item_by_hash(other).unwrap(), Some(vec![8u8]));
}

#[test]
fn store_survives_reopening() {
    let key = unique_key();
    {
        let mut store = load_store("/tmp/openai_gpt_broker_test_store_reopen").unwrap();
        store.insert_item(key, &[4, 5, 6]).unwrap();
    }
    let store = load_store("/tmp/openai_gpt_broker_test_store_reopen").unwrap();
    assert_eq!(store.get_item_by_hash(key).unwrap(), Some(vec![4u8, 5, 6]));
}
