use forth_compiler::dictionary::{CompiledWord, ForthDictionary};
use forth_compiler::hash::get_hash;

#[test]
fn new_word_is_unplaced() {
    let w = CompiledWord::new("SQ", ": SQ 2 + ;", 8);
    assert_eq!(w.name, "SQ");
    assert_eq!(w.original, ": SQ 2 + ;");
    assert_eq!(w.pos, 0);
    assert_eq!(w.len, 8);
    assert_eq!(w.len(), 8);
}

#[test]
fn empty_dictionary_finds_nothing() {
    let mut keys = [CompiledWord::new("", "", 0); 4];
    let mut memory = [0u32; 16];
    let d = ForthDictionary::new(0, &mut keys, 0, &mut memory);
    assert_eq!(d.len(), 0);
    assert_eq!(d.mem_len(), 0);
    assert!(d.get(get_hash("A")).is_none());
    assert!(d.get(get_hash("")).is_none());
}

#[test]
fn insert_places_words_one_after_another() {
    let mut keys = [CompiledWord::new("", "", 0); 4];
    let mut memory = [0u32; 16];
    let mut d = ForthDictionary::new(0, &mut keys, 0, &mut memory);
    d.insert(CompiledWord::new("A", "a", 3), &[1, 2, 3]);
    d.insert(CompiledWord::new("B", "b", 2), &[4, 5]);
    assert_eq!(d.len(), 2);
    assert_eq!(d.mem_len(), 5);
    let (a, body_a) = d.get(get_hash("A")).unwrap();
    assert_eq!((a.name, a.original, a.pos, a.len), ("A", "a", 0, 3));
    assert_eq!(body_a, &[1, 2, 3]);
    let (b, body_b) = d.get(get_hash("B")).unwrap();
    assert_eq!((b.name, b.original, b.pos, b.len), ("B", "b", 3, 2));
    assert_eq!(body_b, &[4, 5]);
    assert!(d.get(get_hash("C")).is_none());
}

#[test]
fn insert_copies_only_the_words_length() {
    let mut keys = [CompiledWord::new("", "", 0); 2];
    let mut memory = [9u32; 8];
    {
        let mut d = ForthDictionary::new(0, &mut keys, 0, &mut memory);
        d.insert(CompiledWord::new("A", "", 2), &[1, 2, 3, 4]);
        assert_eq!(d.mem_len(), 2);
        let (_, body) = d.get(get_hash("A")).unwrap();
        assert_eq!(body, &[1, 2]);
    }
    assert_eq!(memory, [1, 2, 9, 9, 9, 9, 9, 9]);
}

#[test]
fn insert_ignores_the_position_it_is_given() {
    let mut keys = [CompiledWord::new("", "", 0); 2];
    let mut memory = [0u32; 8];
    let mut d = ForthDictionary::new(0, &mut keys, 0, &mut memory);
    let mut w = CompiledWord::new("A", "", 1);
    w.pos = 5;
    d.insert(w, &[7]);
    let (a, body) = d.get(get_hash("A")).unwrap();
    assert_eq!(a.pos, 0);
    assert_eq!(body, &[7]);
}

#[test]
fn lookup_twice_gives_the_same_span() {
    let mut keys = [CompiledWord::new("", "", 0); 4];
    let mut memory = [0u32; 16];
    let mut d = ForthDictionary::new(0, &mut keys, 0, &mut memory);
    d.insert(CompiledWord::new("A", "a", 1), &[1]);
    d.insert(CompiledWord::new("B", "b", 2), &[2, 3]);
    let first = d.get(get_hash("B")).map(|(w, body)| (w.pos, w.len, body.to_vec()));
    let second = d.get(get_hash("B")).map(|(w, body)| (w.pos, w.len, body.to_vec()));
    assert_eq!(first, Some((1, 2, vec![2, 3])));
    assert_eq!(first, second);
    assert_eq!(d.len(), 2);
    assert_eq!(d.mem_len(), 3);
}

#[test]
fn oldest_word_wins() {
    let mut keys = [CompiledWord::new("", "", 0); 4];
    let mut memory = [0u32; 16];
    let mut d = ForthDictionary::new(0, &mut keys, 0, &mut memory);
    d.insert(CompiledWord::new("A", "first", 1), &[1]);
    d.insert(CompiledWord::new("A", "second", 1), &[2]);
    let (a, body) = d.get(get_hash("A")).unwrap();
    assert_eq!(a.original, "first");
    assert_eq!(body, &[1]);
}

#[test]
fn names_with_one_hash_are_one_key() {
    let mut keys = [CompiledWord::new("", "", 0); 4];
    let mut memory = [0u32; 16];
    let mut d = ForthDictionary::new(0, &mut keys, 0, &mut memory);
    d.insert(CompiledWord::new("ab", "", 1), &[1]);
    let (w, body) = d.get(get_hash("bA")).unwrap();
    assert_eq!(w.name, "ab");
    assert_eq!(body, &[1]);
}

#[test]
fn words_without_instructions() {
    let mut keys = [CompiledWord::new("", "", 0); 4];
    let mut memory = [0u32; 4];
    let mut d = ForthDictionary::new(0, &mut keys, 0, &mut memory);
    d.insert(CompiledWord::new("NOP", "", 0), &[]);
    d.insert(CompiledWord::new("ONE", "", 1), &[1]);
    let (nop, body) = d.get(get_hash("NOP")).unwrap();
    assert_eq!((nop.pos, nop.len), (0, 0));
    assert!(body.is_empty());
    let (one, _) = d.get(get_hash("ONE")).unwrap();
    assert_eq!((one.pos, one.len), (0, 1));
}

#[test]
fn room_is_counted_in_words_and_cells() {
    let mut keys = [CompiledWord::new("", "", 0); 2];
    let mut memory = [0u32; 4];
    let mut d = ForthDictionary::new(0, &mut keys, 0, &mut memory);
    assert!(d.has_room(4));
    assert!(!d.has_room(5));
    d.insert(CompiledWord::new("A", "", 3), &[1, 2, 3]);
    assert!(d.has_room(1));
    assert!(!d.has_room(2));
    d.insert(CompiledWord::new("B", "", 1), &[4]);
    assert!(!d.has_room(0));
}

#[test]
fn a_dictionary_can_be_taken_up_again() {
    let mut keys = [CompiledWord::new("", "", 0); 4];
    let mut memory = [0u32; 8];
    {
        let mut d = ForthDictionary::new(0, &mut keys, 0, &mut memory);
        d.insert(CompiledWord::new("A", "a", 2), &[1, 2]);
    }
    let mut keys_again = [CompiledWord::new("A", "a", 2), CompiledWord::new("", "", 0)];
    let mut d = ForthDictionary::new(1, &mut keys_again, 2, &mut memory);
    assert_eq!(d.len(), 1);
    d.insert(CompiledWord::new("B", "b", 1), &[3]);
    let (a, body_a) = d.get(get_hash("A")).unwrap();
    assert_eq!((a.pos, a.len), (0, 2));
    assert_eq!(body_a, &[1, 2]);
    let (b, body_b) = d.get(get_hash("B")).unwrap();
    assert_eq!((b.pos, b.len), (2, 1));
    assert_eq!(body_b, &[3]);
}

#[test]
fn insert_leaves_the_free_storage_alone() {
    let mut keys = [CompiledWord::new("free", "slot", 77); 3];
    let mut memory = [9u32; 8];
    {
        let mut d = ForthDictionary::new(0, &mut keys, 0, &mut memory);
        d.insert(CompiledWord::new("A", ": A 1 ;", 3), &[1, 2, 3]);
        d.insert(CompiledWord::new("B", ": B + ;", 2), &[4, 5]);
        assert_eq!(d.len(), 2);
        assert_eq!(d.mem_len(), 5);
        let (a, _) = d.get(get_hash("A")).unwrap();
        assert_eq!((a.name, a.pos, a.len), ("A", 0, 3));
        let (b, _) = d.get(get_hash("B")).unwrap();
        assert_eq!((b.name, b.pos, b.len), ("B", 3, 2));
        // The free slot is not an entry.
        assert!(d.get(get_hash("free")).is_none());
    }
    assert_eq!(memory, [1, 2, 3, 4, 5, 9, 9, 9]);
}
