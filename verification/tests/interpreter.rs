use forth_compiler::hashed_map::HashedMap;
use forth_compiler::interpreter::{can_eval, eval, init, BuiltinWord, Effect, Evaluated, ForthState, Word};

fn fresh() -> ForthState {
    let mut dictionary = HashedMap::new();
    init(&mut dictionary);
    ForthState { dictionary, data_space: Vec::new(), stack: Vec::new() }
}

#[test]
fn init_enters_fourteen_words() {
    let state = fresh();
    assert_eq!(state.dictionary.len(), 14);
    for (name, word) in [
        ("!", BuiltinWord::Store),
        ("@", BuiltinWord::Fetch),
        (",", BuiltinWord::Comma),
        ("ALIGN", BuiltinWord::Align),
        ("CELLS", BuiltinWord::Cells),
        ("C!", BuiltinWord::CStore),
        ("C,", BuiltinWord::CComma),
        ("C@", BuiltinWord::CFetch),
        ("CHARS", BuiltinWord::Chars),
        ("+", BuiltinWord::Plus),
        ("-", BuiltinWord::Minus),
        ("*", BuiltinWord::Star),
        ("/", BuiltinWord::Slash),
        (".", BuiltinWord::Dot),
    ] {
        assert_eq!(state.dictionary.get(name), Some(&word));
        assert_eq!(word.name(), name);
        assert_eq!(word.word(), name);
    }
    assert_eq!(state.dictionary.get("DUP"), None);
}

#[test]
fn init_keeps_older_entries_in_front() {
    let mut dictionary = HashedMap::new();
    dictionary.insert("+", BuiltinWord::Dot);
    init(&mut dictionary);
    assert_eq!(dictionary.len(), 15);
    assert_eq!(dictionary.get("+"), Some(&BuiltinWord::Dot));
}

#[test]
fn numbers_are_pushed() {
    let mut state = fresh();
    assert_eq!(eval(&mut state, "12"), Evaluated::Pushed);
    assert_eq!(eval(&mut state, "4294967295"), Evaluated::Pushed);
    assert_eq!(state.stack, vec![12, u32::MAX]);
}

#[test]
fn other_input_is_not_recognised() {
    let mut state = fresh();
    state.stack.push(1);
    for input in ["", "DUP", "-1", "4294967296", "1 2", "plus"] {
        assert_eq!(eval(&mut state, input), Evaluated::Unrecognised);
    }
    assert_eq!(state.stack, vec![1]);
    assert!(state.data_space.is_empty());
}

#[test]
fn arithmetic_takes_the_top_as_its_first_operand() {
    let mut state = fresh();
    state.stack = vec![9, 2, 10];
    assert_eq!(eval(&mut state, "-"), Evaluated::Ran(Effect::Nothing));
    assert_eq!(state.stack, vec![9, 8]);
    assert_eq!(eval(&mut state, "+"), Evaluated::Ran(Effect::Nothing));
    assert_eq!(state.stack, vec![17]);
    state.stack = vec![3, 7];
    assert_eq!(eval(&mut state, "*"), Evaluated::Ran(Effect::Nothing));
    assert_eq!(state.stack, vec![21]);
    state.stack = vec![4, 21];
    assert_eq!(eval(&mut state, "/"), Evaluated::Ran(Effect::Nothing));
    assert_eq!(state.stack, vec![5]);
    assert_eq!(eval(&mut state, "CELLS"), Evaluated::Ran(Effect::Nothing));
    assert_eq!(state.stack, vec![20]);
    assert_eq!(eval(&mut state, "CHARS"), Evaluated::Ran(Effect::Nothing));
    assert_eq!(state.stack, vec![20]);
}

#[test]
fn memory_words_hand_the_access_out() {
    let mut state = fresh();
    state.stack = vec![5, 0x2000, 0x1234_5678];
    assert_eq!(
        eval(&mut state, "!"),
        Evaluated::Ran(Effect::WriteCell { address: 0x2000, value: 0x1234_5678 })
    );
    assert_eq!(state.stack, vec![5]);
    state.stack = vec![0x2000];
    assert_eq!(eval(&mut state, "@"), Evaluated::Ran(Effect::ReadCell { address: 0x2000 }));
    assert!(state.stack.is_empty());
    state.stack = vec![0x2001, 0x1ff];
    assert_eq!(
        eval(&mut state, "C!"),
        Evaluated::Ran(Effect::WriteByte { address: 0x2001, byte: 0xff })
    );
    state.stack = vec![0x2001];
    assert_eq!(eval(&mut state, "C@"), Evaluated::Ran(Effect::ReadByte { address: 0x2001 }));
    state.stack = vec![1, 42];
    assert_eq!(eval(&mut state, "."), Evaluated::Ran(Effect::Print { value: 42 }));
    assert_eq!(state.stack, vec![1]);
}

#[test]
fn data_space_words() {
    let mut state = fresh();
    state.stack = vec![0x0403_0201, 0x1ff];
    assert_eq!(eval(&mut state, "C,"), Evaluated::Ran(Effect::Nothing));
    assert_eq!(state.data_space, vec![0xff]);
    assert_eq!(eval(&mut state, ","), Evaluated::Ran(Effect::Nothing));
    assert_eq!(state.data_space, vec![0xff, 1, 2, 3, 4]);
    assert!(state.stack.is_empty());
    assert_eq!(eval(&mut state, "ALIGN"), Evaluated::Ran(Effect::Nothing));
    assert_eq!(state.data_space, vec![0xff, 1, 2, 3, 4, 0]);
    state.data_space = vec![1, 2, 3, 4];
    assert_eq!(eval(&mut state, "ALIGN"), Evaluated::Ran(Effect::Nothing));
    assert_eq!(state.data_space, vec![1, 2, 3, 4]);
}

#[test]
fn words_run_through_the_trait() {
    let mut stack = vec![2, 3];
    let mut data = Vec::new();
    assert_eq!(BuiltinWord::Plus.execute(&mut stack, &mut data), Effect::Nothing);
    assert_eq!(stack, vec![5]);
    assert_eq!(BuiltinWord::Dot.run(&mut stack, &mut data), Effect::Print { value: 5 });
    assert!(stack.is_empty());
}

#[test]
fn words_are_ready_when_the_stack_holds_their_operands() {
    assert!(BuiltinWord::Align.is_ready(&vec![]));
    assert!(!BuiltinWord::Dot.is_ready(&vec![]));
    assert!(BuiltinWord::Dot.is_ready(&vec![1]));
    assert!(!BuiltinWord::Store.is_ready(&vec![1]));
    assert!(BuiltinWord::Store.is_ready(&vec![1, 2]));
}

#[test]
fn words_are_not_ready_when_the_result_does_not_fit() {
    assert!(BuiltinWord::Plus.is_ready(&vec![1, u32::MAX - 1]));
    assert!(!BuiltinWord::Plus.is_ready(&vec![1, u32::MAX]));
    assert!(BuiltinWord::Minus.is_ready(&vec![3, 3]));
    assert!(!BuiltinWord::Minus.is_ready(&vec![4, 3]));
    assert!(BuiltinWord::Star.is_ready(&vec![0x10000, 0xffff]));
    assert!(!BuiltinWord::Star.is_ready(&vec![0x10000, 0x10000]));
    assert!(BuiltinWord::Star.is_ready(&vec![0, u32::MAX]));
    assert!(!BuiltinWord::Slash.is_ready(&vec![0, 5]));
    assert!(BuiltinWord::Slash.is_ready(&vec![5, 0]));
    assert!(BuiltinWord::Cells.is_ready(&vec![0x3fff_ffff]));
    assert!(!BuiltinWord::Cells.is_ready(&vec![0x4000_0000]));
}

#[test]
fn can_eval_looks_the_word_up() {
    let mut state = fresh();
    assert!(can_eval(&state, "12"));
    assert!(can_eval(&state, "DUP"));
    assert!(!can_eval(&state, "+"));
    state.stack = vec![2, 1];
    assert!(can_eval(&state, "+"));
    assert!(!can_eval(&state, "-"));
}
