use forth_compiler::primitives::Primitive;
use forth_compiler::rv32i::{encode_addi, encode_lui, to_memory_order};

fn words(p: Primitive) -> Vec<u32> {
    let (n, buffer) = p.get_instructions();
    assert!(n <= 8);
    for slot in &buffer[n..] {
        assert_eq!(*slot, 0);
    }
    buffer[..n].to_vec()
}

#[test]
fn load_and_fetch() {
    assert_eq!(words(Primitive::Load), vec![0x03254100, 0x83258100, 0x13018100, 0x2320b500]);
    assert_eq!(words(Primitive::Fetch), vec![0x03254100, 0x03250500, 0x2322a100]);
}

#[test]
fn shifts() {
    assert_eq!(
        words(Primitive::LShift),
        vec![0x03254100, 0x83258100, 0x3395a500, 0x13014100, 0x2322a100]
    );
    assert_eq!(
        words(Primitive::RShift),
        vec![0x03254100, 0x83258100, 0x33d5a500, 0x13014100, 0x2322a100]
    );
}

#[test]
fn arithmetic_and_bitwise() {
    assert_eq!(words(Primitive::Add), vec![0x03254100, 0x83258100, 0x3385a500, 0x13014100, 0x2322a100]);
    assert_eq!(words(Primitive::Sub), vec![0x03254100, 0x83258100, 0x3385a540, 0x13014100, 0x2322a100]);
    assert_eq!(words(Primitive::Xor), vec![0x03254100, 0x83258100, 0x33c5a500, 0x13014100, 0x2322a100]);
    assert_eq!(words(Primitive::Or), vec![0x03254100, 0x83258100, 0x33e5a500, 0x13014100, 0x2322a100]);
    assert_eq!(words(Primitive::And), vec![0x03254100, 0x83258100, 0x33f5a500, 0x13014100, 0x2322a100]);
}

#[test]
fn comparisons() {
    assert_eq!(
        words(Primitive::Eq),
        vec![
            0x03254100, 0x83258100, 0x13014100, 0x3345b500, 0x13351500, 0x1315f501, 0x1355f541,
            0x2322a100
        ]
    );
    assert_eq!(
        words(Primitive::Lt),
        vec![0x03254100, 0x83258100, 0x13014100, 0x33a5a500, 0x1315f501, 0x1355f541, 0x2322a100]
    );
    assert_eq!(
        words(Primitive::Gt),
        vec![0x03254100, 0x83258100, 0x13014100, 0x3325b500, 0x1315f501, 0x1355f541, 0x2322a100]
    );
}

#[test]
fn comparisons_end_by_spreading_the_low_bit() {
    for p in [Primitive::Eq, Primitive::Lt, Primitive::Gt] {
        let w = words(p);
        let n = w.len();
        // slli a0, a0, 31 and srai a0, a0, 31, then sw a0, 4(sp)
        assert_eq!(w[n - 3], 0x1315f501);
        assert_eq!(w[n - 2], 0x1355f541);
        assert_eq!(w[n - 1], 0x2322a100);
    }
}

#[test]
fn branch_and_return_stack() {
    assert_eq!(
        words(Primitive::Branch),
        vec![0x13014100, 0x03250100, 0x23201400, 0x1304c4ff, 0xe7000500, 0x13044400, 0x83200400]
    );
    assert_eq!(words(Primitive::RTo), vec![0x03254100, 0x13014100, 0x2320a400, 0x1304c4ff]);
    assert_eq!(words(Primitive::RFrom), vec![0x03254400, 0x13044400, 0x2320a100, 0x1301c1ff]);
}

#[test]
fn every_fixed_primitive_has_three_to_eight_words() {
    let all = [
        Primitive::Load,
        Primitive::Fetch,
        Primitive::LShift,
        Primitive::RShift,
        Primitive::Add,
        Primitive::Sub,
        Primitive::And,
        Primitive::Xor,
        Primitive::Or,
        Primitive::Eq,
        Primitive::Gt,
        Primitive::Lt,
        Primitive::Branch,
        Primitive::RFrom,
        Primitive::RTo,
    ];
    for p in all {
        let (n, _) = p.get_instructions();
        assert!(3 <= n && n <= 8);
    }
}

#[test]
fn push_100_is_three_words() {
    assert_eq!(words(Primitive::Push(100)), vec![0x13054006, 0x2320a100, 0x1301c1ff]);
}

#[test]
fn push_5000_is_four_words() {
    assert_eq!(words(Primitive::Push(5000)), vec![0x37150000, 0x13058538, 0x2320a100, 0x1301c1ff]);
}

#[test]
fn push_boundary() {
    assert_eq!(words(Primitive::Push(0xffe)), vec![0x1305e0ff, 0x2320a100, 0x1301c1ff]);
    assert_eq!(words(Primitive::Push(0xfff)), vec![0x37050000, 0x1305f5ff, 0x2320a100, 0x1301c1ff]);
    assert_eq!(words(Primitive::Push(0x1000)), vec![0x37150000, 0x13050500, 0x2320a100, 0x1301c1ff]);
}

#[test]
fn push_extremes() {
    assert_eq!(words(Primitive::Push(0)), vec![0x13050000, 0x2320a100, 0x1301c1ff]);
    assert_eq!(
        words(Primitive::Push(u32::MAX)),
        vec![0x37f5ffff, 0x1305f5ff, 0x2320a100, 0x1301c1ff]
    );
}

#[test]
fn keywords() {
    assert_eq!(Primitive::try_from("!"), Ok(Primitive::Load));
    assert_eq!(Primitive::try_from("@"), Ok(Primitive::Fetch));
    assert_eq!(Primitive::try_from("<<"), Ok(Primitive::LShift));
    assert_eq!(Primitive::try_from(">>"), Ok(Primitive::RShift));
    assert_eq!(Primitive::try_from("+"), Ok(Primitive::Add));
    assert_eq!(Primitive::try_from("-"), Ok(Primitive::Sub));
    assert_eq!(Primitive::try_from("XOR"), Ok(Primitive::Xor));
    assert_eq!(Primitive::try_from("OR"), Ok(Primitive::Or));
    assert_eq!(Primitive::try_from("AND"), Ok(Primitive::And));
    assert_eq!(Primitive::try_from("="), Ok(Primitive::Eq));
    assert_eq!(Primitive::try_from(">"), Ok(Primitive::Gt));
    assert_eq!(Primitive::try_from("<"), Ok(Primitive::Lt));
    assert_eq!(Primitive::try_from("BRANCH"), Ok(Primitive::Branch));
    assert_eq!(Primitive::try_from("R<"), Ok(Primitive::RTo));
    assert_eq!(Primitive::try_from("R>"), Ok(Primitive::RFrom));
}

#[test]
fn other_tokens_name_no_primitive() {
    for s in ["", "*", "xor", "Xor", "BRANCHES", "BRANCG", "R", "<>", "12", ":", ";", "AN", "ANDX", "+ "] {
        assert_eq!(Primitive::try_from(s), Err(()));
    }
}

#[test]
fn addi_and_lui_fields() {
    // addi a0, zero, 100
    assert_eq!(encode_addi(10, 0, 100), 0x06400513);
    // addi sp, sp, -4, whose immediate field is 0xffc
    assert_eq!(encode_addi(2, 2, 0xffc), 0xffc10113);
    // lui a0, 1
    assert_eq!(encode_lui(10, 1), 0x00001537);
    assert_eq!(encode_lui(31, 0xfffff), 0xffffffb7);
}

#[test]
fn memory_order_swaps_bytes() {
    assert_eq!(to_memory_order(0x00412503), 0x03254100);
    assert_eq!(to_memory_order(0x03254100), 0x00412503);
    assert_eq!(to_memory_order(to_memory_order(0xdeadbeef)), 0xdeadbeef);
}
