use forth_compiler::hashed_map::{key_hash, HashedMap};

#[test]
fn key_is_the_whole_accumulator() {
    assert_eq!(key_hash(""), 5381);
    assert_eq!(key_hash("A"), 177638);
    let mut expected: u64 = 5381;
    for b in b"a-long-name-of-a-word" {
        expected = expected.wrapping_mul(33).wrapping_add(*b as u64);
    }
    assert_eq!(key_hash("a-long-name-of-a-word"), expected as usize);
}

#[test]
fn empty_map_finds_nothing() {
    let m: HashedMap<u32> = HashedMap::new();
    assert_eq!(m.len(), 0);
    assert_eq!(m.get("a"), None);
}

#[test]
fn get_finds_what_insert_entered() {
    let mut m = HashedMap::new();
    m.insert("one", 1u32);
    m.insert("two", 2u32);
    assert_eq!(m.len(), 2);
    assert_eq!(m.get("one"), Some(&1));
    assert_eq!(m.get("two"), Some(&2));
    assert_eq!(m.get("three"), None);
}

#[test]
fn the_oldest_entry_of_a_name_wins() {
    let mut m = HashedMap::new();
    m.insert("x", 1u32);
    m.insert("x", 2u32);
    assert_eq!(m.len(), 2);
    assert_eq!(m.get("x"), Some(&1));
}

#[test]
fn names_with_one_hash_share_an_entry() {
    let mut m = HashedMap::new();
    m.insert("ab", 7u32);
    assert_eq!(m.get("bA"), Some(&7));
}
