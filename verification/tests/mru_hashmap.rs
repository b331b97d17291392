use spotifytops::mru_hashmap::MruHashmap;

fn assert_len<K: Copy + Eq + std::hash::Hash, V>(ch: &MruHashmap<K, V>, len: usize) {
    assert_eq!(ch.len(), len);
    assert_eq!(ch.order_len(), len);
}

fn assert_capacity<K: Copy + Eq + std::hash::Hash, V>(ch: &MruHashmap<K, V>, len: usize) {
    assert!(ch.map_allocation() >= len);
    assert!(ch.order_allocation() >= len);
    assert_eq!(ch.capacity(), len);
}

#[test]
fn default_creates_an_empty_mru_hashmap() {
    let ch: MruHashmap<u32, u32> = Default::default();
    assert_len(&ch, 0);
    assert_capacity(&ch, 100)
}

#[test]
fn new_creates_an_empty_mru_hashmap() {
    let ch: MruHashmap<u32, u32> = MruHashmap::new();
    assert_len(&ch, 0);
    assert_capacity(&ch, 100)
}

#[test]
fn with_the_specific_capacity() {
    let ch: MruHashmap<u32, u32> = MruHashmap::with_capacity(101);
    assert_len(&ch, 0);
    assert_capacity(&ch, 101)
}

#[test]
fn key_not_found_in_empty_mru_hashmap() {
    let mut ch: MruHashmap<u32, u32> = Default::default();
    assert_eq!(ch.get(&1), None);
}

#[test]
fn insert_into_empty_mru_hashmap() {
    let mut ch: MruHashmap<u32, u32> = Default::default();
    assert_eq!(ch.insert(1, 2), None);
    assert_len(&ch, 1);
}

#[test]
fn insert_new_item_into_non_empty_mru_hashmap() {
    let mut ch: MruHashmap<u32, u32> = Default::default();
    assert_eq!(ch.insert(1, 2), None);
    assert_eq!(ch.insert(3, 4), None);
    assert_len(&ch, 2);
}

#[test]
fn insert_item_with_existing_key_and_same_value() {
    let mut ch: MruHashmap<u32, u32> = Default::default();
    assert_eq!(ch.insert(1, 2), None);
    assert_eq!(ch.insert(1, 2), Some(2));
    assert_len(&ch, 1);
}

#[test]
fn insert_item_with_existing_key_and_updated_value() {
    let mut ch: MruHashmap<u32, u32> = Default::default();
    assert_eq!(ch.insert(1, 2), None);
    assert_eq!(ch.insert(1, 3), Some(2));
    assert_len(&ch, 1);
}

#[test]
fn insert_new_item_when_at_capacity() {
    let mut ch: MruHashmap<u32, u32> = MruHashmap::with_capacity(2);
    ch.insert(1, 2);
    ch.insert(2, 3);
    ch.insert(3, 4);

    assert_len(&ch, 2);
    assert_eq!(ch.get(&1), None);
    assert_eq!(ch.get(&2), Some(&3));
    assert_eq!(ch.get(&3), Some(&4));
}

#[test]
fn updating_a_key_does_not_refresh_its_place() {
    let mut ch: MruHashmap<u32, &str> = MruHashmap::with_capacity(2);
    assert_eq!(ch.insert(1, "a"), None);
    assert_eq!(ch.insert(2, "b"), None);
    assert_eq!(ch.insert(1, "c"), Some("a"));
    assert_eq!(ch.insert(3, "d"), None);
    assert_eq!(ch.get(&1), None);
    assert_eq!(ch.get(&2), Some(&"b"));
    assert_eq!(ch.get(&3), Some(&"d"));
    assert_len(&ch, 2);
}

#[test]
fn read_after_write_gives_the_written_value() {
    let mut ch: MruHashmap<u64, u64> = MruHashmap::with_capacity(3);
    for k in 0..10u64 {
        ch.insert(k, k * 10);
        assert_eq!(ch.get(&k), Some(&(k * 10)));
        assert!(ch.len() <= 3);
    }
    assert_eq!(ch.get(&6), None);
    assert_eq!(ch.get(&7), Some(&70));
}

#[test]
fn capacity_one_keeps_the_last_new_key() {
    let mut ch: MruHashmap<u8, u8> = MruHashmap::with_capacity(1);
    ch.insert(1, 1);
    ch.insert(2, 2);
    assert_eq!(ch.get(&1), None);
    assert_eq!(ch.get(&2), Some(&2));
    assert_len(&ch, 1);
}
