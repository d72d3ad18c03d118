use forth_compiler::compiler::ForthCompiler;
use forth_compiler::dictionary::{CompiledWord, ForthDictionary};
use forth_compiler::hash::get_hash;
use forth_compiler::model::CompilerError;

const PUSH_1: [u32; 3] = [0x13051000, 0x2320a100, 0x1301c1ff];
const PUSH_2: [u32; 3] = [0x13052000, 0x2320a100, 0x1301c1ff];
const ADD: [u32; 5] = [0x03254100, 0x83258100, 0x3385a500, 0x13014100, 0x2322a100];
const EQ: [u32; 8] = [
    0x03254100, 0x83258100, 0x13014100, 0x3345b500, 0x13351500, 0x1315f501, 0x1355f541, 0x2322a100,
];

fn join(parts: &[&[u32]]) -> Vec<u32> {
    let mut all = Vec::new();
    for p in parts {
        all.extend_from_slice(p);
    }
    all
}

#[test]
fn immediate_tokens_go_to_the_output() {
    let mut keys = [CompiledWord::new("", "", 0); 4];
    let mut memory = [0u32; 64];
    let mut c = ForthCompiler::new(ForthDictionary::new(0, &mut keys, 0, &mut memory));
    let mut out = [0xaaaa_aaaau32; 16];
    let n = c.compile("2 +", &mut out);
    assert_eq!(n, Ok(8));
    assert_eq!(out[..8].to_vec(), join(&[&PUSH_2, &ADD]));
    assert_eq!(out[8..].to_vec(), vec![0xaaaa_aaaau32; 8]);
    assert_eq!(c.dictionary().len(), 0);
    assert_eq!(c.dictionary().mem_len(), 0);
}

#[test]
fn empty_text_compiles_to_nothing() {
    let mut keys = [CompiledWord::new("", "", 0); 1];
    let mut memory = [0u32; 1];
    let mut c = ForthCompiler::new(ForthDictionary::new(0, &mut keys, 0, &mut memory));
    let mut out = [7u32; 2];
    assert_eq!(c.compile("", &mut out), Ok(0));
    assert_eq!(c.compile(" \n\t ", &mut out), Ok(0));
    assert_eq!(out, [7, 7]);
}

#[test]
fn a_definition_writes_nothing_to_the_output() {
    let mut keys = [CompiledWord::new("", "", 0); 4];
    let mut memory = [0u32; 64];
    let mut c = ForthCompiler::new(ForthDictionary::new(0, &mut keys, 0, &mut memory));
    let mut out = [0u32; 16];
    assert_eq!(c.compile(": DOUBLE 2 + ;", &mut out), Ok(0));
    assert_eq!(out, [0u32; 16]);
    let d = c.dictionary();
    assert_eq!(d.len(), 1);
    assert_eq!(d.mem_len(), 8);
    let (w, body) = d.get(get_hash("DOUBLE")).unwrap();
    assert_eq!(w.name, "DOUBLE");
    assert_eq!(w.original, ": DOUBLE 2 + ;");
    assert_eq!((w.pos, w.len), (0, 8));
    assert_eq!(body.to_vec(), join(&[&PUSH_2, &ADD]));
}

#[test]
fn invoking_a_word_is_inlining_its_body() {
    let mut keys = [CompiledWord::new("", "", 0); 4];
    let mut memory = [0u32; 64];
    let mut c = ForthCompiler::new(ForthDictionary::new(0, &mut keys, 0, &mut memory));
    let mut direct = [0u32; 16];
    let direct_len = c.compile("2 +", &mut direct).unwrap();
    let mut scratch = [0u32; 16];
    assert_eq!(c.compile(": DOUBLE 2 + ;", &mut scratch), Ok(0));
    let mut invoked = [0u32; 16];
    let invoked_len = c.compile("DOUBLE", &mut invoked).unwrap();
    assert_eq!(invoked_len, direct_len);
    assert_eq!(invoked, direct);
}

#[test]
fn definition_and_use_in_one_text() {
    let mut keys = [CompiledWord::new("", "", 0); 4];
    let mut memory = [0u32; 64];
    let mut c = ForthCompiler::new(ForthDictionary::new(0, &mut keys, 0, &mut memory));
    let mut out = [0u32; 32];
    let n = c.compile("1 : DOUBLE 2 + ; DOUBLE =", &mut out).unwrap();
    assert_eq!(out[..n].to_vec(), join(&[&PUSH_1, &PUSH_2, &ADD, &EQ]));
}

#[test]
fn a_word_used_in_a_definition_is_copied_into_it() {
    let mut keys = [CompiledWord::new("", "", 0); 4];
    let mut memory = [0u32; 64];
    let mut c = ForthCompiler::new(ForthDictionary::new(0, &mut keys, 0, &mut memory));
    let mut out = [0u32; 4];
    assert_eq!(c.compile(": DOUBLE 2 + ;", &mut out), Ok(0));
    assert_eq!(c.dictionary().mem_len(), 8);
    assert_eq!(c.compile(": QUAD DOUBLE DOUBLE ;", &mut out), Ok(0));
    let d = c.dictionary();
    assert_eq!(d.len(), 2);
    assert_eq!(d.mem_len(), 8 + 16);
    let (double, double_body) = d.get(get_hash("DOUBLE")).unwrap();
    let (quad, quad_body) = d.get(get_hash("QUAD")).unwrap();
    assert_eq!((double.pos, double.len), (0, 8));
    assert_eq!((quad.pos, quad.len), (8, 16));
    assert_eq!(quad_body[..8], *double_body);
    assert_eq!(quad_body[8..], *double_body);
    assert_eq!(quad.original, ": QUAD DOUBLE DOUBLE ;");
}

#[test]
fn colon_without_a_name_is_malformed() {
    let mut keys = [CompiledWord::new("", "", 0); 4];
    let mut memory = [0u32; 64];
    let mut c = ForthCompiler::new(ForthDictionary::new(0, &mut keys, 0, &mut memory));
    let mut out = [0u32; 16];
    assert_eq!(c.compile(": ;", &mut out), Err(CompilerError::MalformedCompilation));
    assert_eq!(c.compile(":", &mut out), Err(CompilerError::MalformedCompilation));
    assert_eq!(c.compile("1 :  \n", &mut out), Err(CompilerError::MalformedCompilation));
    assert_eq!(c.compile(": : A 1 ;", &mut out), Err(CompilerError::MalformedCompilation));
    assert_eq!(c.dictionary().len(), 0);
}

#[test]
fn unknown_token_is_unrecognized() {
    let mut keys = [CompiledWord::new("", "", 0); 4];
    let mut memory = [0u32; 64];
    let mut c = ForthCompiler::new(ForthDictionary::new(0, &mut keys, 0, &mut memory));
    let mut out = [0u32; 16];
    assert_eq!(c.compile("FOO", &mut out), Err(CompilerError::UnrecognizedToken));
    assert_eq!(c.compile("-1", &mut out), Err(CompilerError::UnrecognizedToken));
    assert_eq!(c.compile("4294967296", &mut out), Err(CompilerError::UnrecognizedToken));
    assert_eq!(c.compile("*", &mut out), Err(CompilerError::UnrecognizedToken));
    assert_eq!(c.compile(": A FOO ;", &mut out), Err(CompilerError::UnrecognizedToken));
    assert_eq!(c.dictionary().len(), 0);
}

#[test]
fn output_before_an_error_stays() {
    let mut keys = [CompiledWord::new("", "", 0); 4];
    let mut memory = [0u32; 64];
    let mut c = ForthCompiler::new(ForthDictionary::new(0, &mut keys, 0, &mut memory));
    let mut out = [0u32; 16];
    assert_eq!(c.compile("1 FOO 2", &mut out), Err(CompilerError::UnrecognizedToken));
    assert_eq!(out[..3], PUSH_1);
    assert_eq!(out[3..], [0u32; 13]);
}

#[test]
fn definitions_before_an_error_stay() {
    let mut keys = [CompiledWord::new("", "", 0); 4];
    let mut memory = [0u32; 64];
    let mut c = ForthCompiler::new(ForthDictionary::new(0, &mut keys, 0, &mut memory));
    let mut out = [0u32; 16];
    assert_eq!(c.compile(": A 1 ; : B 2 FOO ;", &mut out), Err(CompilerError::UnrecognizedToken));
    assert_eq!(c.dictionary().len(), 1);
    assert_eq!(c.dictionary().mem_len(), 3);
    assert!(c.dictionary().get(get_hash("A")).is_some());
    assert!(c.dictionary().get(get_hash("B")).is_none());
}

#[test]
fn a_definition_of_255_instructions_fits() {
    let mut keys = [CompiledWord::new("", "", 0); 4];
    let mut memory = [0u32; 600];
    let mut c = ForthCompiler::new(ForthDictionary::new(0, &mut keys, 0, &mut memory));
    let mut out = [0u32; 4];
    // 31 * 8 + 7 = 255
    let mut text = String::from(": BIG");
    for _ in 0..31 {
        text.push_str(" =");
    }
    text.push_str(" < ;");
    let text: &'static str = Box::leak(text.into_boxed_str());
    assert_eq!(c.compile(text, &mut out), Ok(0));
    let (big, body) = c.dictionary().get(get_hash("BIG")).unwrap();
    assert_eq!(big.len, 255);
    assert_eq!(body.len(), 255);
    assert_eq!(body[248..255], [0x03254100, 0x83258100, 0x13014100, 0x33a5a500, 0x1315f501, 0x1355f541, 0x2322a100]);
}

#[test]
fn a_definition_of_256_instructions_is_out_of_bounds() {
    let mut keys = [CompiledWord::new("", "", 0); 4];
    let mut memory = [0u32; 600];
    let mut c = ForthCompiler::new(ForthDictionary::new(0, &mut keys, 0, &mut memory));
    let mut out = [0u32; 4];
    let mut text = String::from(": BIG");
    for _ in 0..32 {
        text.push_str(" =");
    }
    text.push_str(" ;");
    let text: &'static str = Box::leak(text.into_boxed_str());
    assert_eq!(c.compile(text, &mut out), Err(CompilerError::WordOutOfBounds));
    assert_eq!(c.dictionary().len(), 0);
    assert_eq!(c.dictionary().mem_len(), 0);
}

#[test]
fn a_long_word_can_overflow_a_later_definition() {
    let mut keys = [CompiledWord::new("", "", 0); 4];
    let mut memory = [0u32; 600];
    let mut c = ForthCompiler::new(ForthDictionary::new(0, &mut keys, 0, &mut memory));
    let mut out = [0u32; 4];
    let mut text = String::from(": HALF");
    for _ in 0..16 {
        text.push_str(" =");
    }
    text.push_str(" ;");
    let text: &'static str = Box::leak(text.into_boxed_str());
    assert_eq!(c.compile(text, &mut out), Ok(0));
    assert_eq!(c.compile(": ALMOST HALF 1 ;", &mut out), Ok(0));
    assert_eq!(c.compile(": WHOLE HALF HALF ;", &mut out), Err(CompilerError::WordOutOfBounds));
    assert_eq!(c.dictionary().len(), 2);
}

#[test]
fn the_immediate_output_has_no_such_bound() {
    let mut keys = [CompiledWord::new("", "", 0); 1];
    let mut memory = [0u32; 1];
    let mut c = ForthCompiler::new(ForthDictionary::new(0, &mut keys, 0, &mut memory));
    let mut out = [0u32; 400];
    let mut text = String::new();
    for _ in 0..50 {
        text.push_str("= ");
    }
    let text: &'static str = Box::leak(text.into_boxed_str());
    assert_eq!(c.compile(text, &mut out), Ok(400));
}

#[test]
fn primitives_come_before_defined_words() {
    let mut keys = [CompiledWord::new("", "", 0); 4];
    let mut memory = [0u32; 64];
    let mut c = ForthCompiler::new(ForthDictionary::new(0, &mut keys, 0, &mut memory));
    let mut out = [0u32; 16];
    assert_eq!(c.compile(": + 1 ;", &mut out), Ok(0));
    assert_eq!(c.dictionary().len(), 1);
    assert_eq!(c.compile("+", &mut out), Ok(5));
    assert_eq!(out[..5], ADD);
}

#[test]
fn defined_words_come_before_literals() {
    let mut keys = [CompiledWord::new("", "", 0); 4];
    let mut memory = [0u32; 64];
    let mut c = ForthCompiler::new(ForthDictionary::new(0, &mut keys, 0, &mut memory));
    let mut out = [0u32; 16];
    assert_eq!(c.compile(": 2 1 ;", &mut out), Ok(0));
    assert_eq!(c.compile("2", &mut out), Ok(3));
    assert_eq!(out[..3], PUSH_1);
}

#[test]
fn the_first_definition_of_a_name_stays_in_force() {
    let mut keys = [CompiledWord::new("", "", 0); 4];
    let mut memory = [0u32; 64];
    let mut c = ForthCompiler::new(ForthDictionary::new(0, &mut keys, 0, &mut memory));
    let mut out = [0u32; 16];
    assert_eq!(c.compile(": A 1 ; : A 2 ;", &mut out), Ok(0));
    assert_eq!(c.dictionary().len(), 2);
    assert_eq!(c.compile("A", &mut out), Ok(3));
    assert_eq!(out[..3], PUSH_1);
}

#[test]
fn a_word_can_use_itself_only_once_defined() {
    let mut keys = [CompiledWord::new("", "", 0); 4];
    let mut memory = [0u32; 64];
    let mut c = ForthCompiler::new(ForthDictionary::new(0, &mut keys, 0, &mut memory));
    let mut out = [0u32; 16];
    assert_eq!(c.compile(": A 1 A ;", &mut out), Err(CompilerError::UnrecognizedToken));
}

#[test]
fn a_colon_inside_a_definition_starts_over() {
    let mut keys = [CompiledWord::new("", "", 0); 4];
    let mut memory = [0u32; 64];
    let mut c = ForthCompiler::new(ForthDictionary::new(0, &mut keys, 0, &mut memory));
    let mut out = [0u32; 16];
    assert_eq!(c.compile(": A 1 : B 2 ;", &mut out), Ok(0));
    let d = c.dictionary();
    assert_eq!(d.len(), 1);
    assert!(d.get(get_hash("A")).is_none());
    let (b, body) = d.get(get_hash("B")).unwrap();
    assert_eq!(b.original, ": B 2 ;");
    assert_eq!(body, PUSH_2);
}

#[test]
fn an_open_definition_is_dropped_at_the_end() {
    let mut keys = [CompiledWord::new("", "", 0); 4];
    let mut memory = [0u32; 64];
    let mut c = ForthCompiler::new(ForthDictionary::new(0, &mut keys, 0, &mut memory));
    let mut out = [0u32; 16];
    assert_eq!(c.compile("1 : A 2 +", &mut out), Ok(3));
    assert_eq!(c.dictionary().len(), 0);
    assert_eq!(c.compile("A", &mut out), Err(CompilerError::UnrecognizedToken));
}

#[test]
fn after_a_definition_the_compiler_is_immediate_again() {
    let mut keys = [CompiledWord::new("", "", 0); 4];
    let mut memory = [0u32; 64];
    let mut c = ForthCompiler::new(ForthDictionary::new(0, &mut keys, 0, &mut memory));
    let mut out = [0u32; 16];
    assert_eq!(c.compile(": A 1 ; 2", &mut out), Ok(3));
    assert_eq!(out[..3], PUSH_2);
    assert_eq!(c.dictionary().mem_len(), 3);
}

#[test]
fn a_semicolon_commits_what_is_pending() {
    let mut keys = [CompiledWord::new("", "", 0); 4];
    let mut memory = [0u32; 64];
    let mut c = ForthCompiler::new(ForthDictionary::new(0, &mut keys, 0, &mut memory));
    let mut out = [0u32; 16];
    // Before any definition the pending name is empty and nothing is staged.
    assert_eq!(c.compile("1 ;", &mut out), Ok(3));
    {
        let d = c.dictionary();
        assert_eq!(d.len(), 1);
        assert_eq!(d.mem_len(), 0);
        let (w, body) = d.get(get_hash("")).unwrap();
        assert_eq!((w.name, w.original, w.len), ("", "1 ;", 0));
        assert!(body.is_empty());
    }
    // After a definition the name and the staged instructions are still there.
    assert_eq!(c.compile(": A 2 ; ;", &mut out), Ok(0));
    assert_eq!(c.dictionary().len(), 3);
    assert_eq!(c.dictionary().mem_len(), 6);
}

#[test]
fn names_may_be_any_text() {
    let mut keys = [CompiledWord::new("", "", 0); 4];
    let mut memory = [0u32; 64];
    let mut c = ForthCompiler::new(ForthDictionary::new(0, &mut keys, 0, &mut memory));
    let mut out = [0u32; 16];
    assert_eq!(c.compile("\t: zweimal\u{a0}größer 2 + ;\n", &mut out), Ok(0));
    let (w, _) = c.dictionary().get(get_hash("zweimal\u{a0}größer")).unwrap();
    assert_eq!(w.name, "zweimal\u{a0}größer");
    assert_eq!(w.original, ": zweimal\u{a0}größer 2 + ;");
    assert_eq!(c.compile("zweimal\u{a0}größer", &mut out), Ok(8));
}

#[test]
fn literals_take_the_short_or_the_long_form() {
    let mut keys = [CompiledWord::new("", "", 0); 1];
    let mut memory = [0u32; 1];
    let mut c = ForthCompiler::new(ForthDictionary::new(0, &mut keys, 0, &mut memory));
    let mut out = [0u32; 16];
    assert_eq!(c.compile("100", &mut out), Ok(3));
    assert_eq!(out[..3], [0x13054006, 0x2320a100, 0x1301c1ff]);
    assert_eq!(c.compile("5000", &mut out), Ok(4));
    assert_eq!(out[..4], [0x37150000, 0x13058538, 0x2320a100, 0x1301c1ff]);
    assert_eq!(c.compile("4094", &mut out), Ok(3));
    assert_eq!(c.compile("4095", &mut out), Ok(4));
    assert_eq!(c.compile("4096", &mut out), Ok(4));
    assert_eq!(c.compile("+7", &mut out), Ok(3));
    assert_eq!(out[..3], [0x13057000, 0x2320a100, 0x1301c1ff]);
}

#[test]
fn try_compile_agrees_with_compile_when_there_is_room() {
    let mut keys = [CompiledWord::new("", "", 0); 4];
    let mut memory = [0u32; 64];
    let mut c = ForthCompiler::new(ForthDictionary::new(0, &mut keys, 0, &mut memory));
    let mut out = [0u32; 16];
    assert_eq!(c.try_compile(": A 1 ; A 2", &mut out), Some(Ok(6)));
    assert_eq!(out[..6].to_vec(), join(&[&PUSH_1, &PUSH_2]));
    assert_eq!(c.try_compile("A FOO", &mut out), Some(Err(CompilerError::UnrecognizedToken)));
    assert_eq!(c.try_compile(":", &mut out), Some(Err(CompilerError::MalformedCompilation)));
}

#[test]
fn try_compile_stops_when_the_output_is_full() {
    let mut keys = [CompiledWord::new("", "", 0); 4];
    let mut memory = [0u32; 64];
    let mut c = ForthCompiler::new(ForthDictionary::new(0, &mut keys, 0, &mut memory));
    let mut out = [0u32; 7];
    assert_eq!(c.try_compile("1 : A 2 ; +", &mut out), None);
    assert_eq!(out, [0x13051000, 0x2320a100, 0x1301c1ff, 0, 0, 0, 0]);
    assert_eq!(c.dictionary().len(), 1);
    let mut exact = [0u32; 8];
    assert_eq!(c.try_compile("1 +", &mut exact), Some(Ok(8)));
}

#[test]
fn try_compile_stops_when_the_dictionary_is_full() {
    let mut keys = [CompiledWord::new("", "", 0); 1];
    let mut memory = [0u32; 64];
    let mut c = ForthCompiler::new(ForthDictionary::new(0, &mut keys, 0, &mut memory));
    let mut out = [0u32; 16];
    assert_eq!(c.try_compile(": A 1 ; 2 : B 2 ; +", &mut out), None);
    assert_eq!(c.dictionary().len(), 1);
    assert_eq!(c.dictionary().mem_len(), 3);
    assert_eq!(out[..3], PUSH_2);
    assert_eq!(out[3..], [0u32; 13]);
}

#[test]
fn try_compile_stops_when_the_arena_is_full() {
    let mut keys = [CompiledWord::new("", "", 0); 4];
    let mut memory = [0u32; 5];
    let mut c = ForthCompiler::new(ForthDictionary::new(0, &mut keys, 0, &mut memory));
    let mut out = [0u32; 16];
    assert_eq!(c.try_compile(": A 1 ; : B 1 ;", &mut out), None);
    assert_eq!(c.dictionary().len(), 1);
    assert_eq!(c.try_compile(": C ;", &mut out), Some(Ok(0)));
    assert_eq!(c.dictionary().len(), 2);
    assert_eq!(c.dictionary().mem_len(), 3);
}

#[test]
fn compiling_leaves_the_free_storage_alone() {
    let mut keys = [CompiledWord::new("free", "slot", 77); 3];
    let mut memory = [9u32; 12];
    {
        let mut c = ForthCompiler::new(ForthDictionary::new(0, &mut keys, 0, &mut memory));
        let mut out = [0u32; 16];
        assert_eq!(c.compile(": A 1 ; A : B 2 FOO ;", &mut out), Err(CompilerError::UnrecognizedToken));
        assert_eq!(c.dictionary().len(), 1);
    }
    assert_eq!(memory[..3], PUSH_1);
    assert_eq!(memory[3..], [9u32; 9]);
}
