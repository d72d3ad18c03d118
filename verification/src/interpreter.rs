//! The interpreted dialect: built-in words that act on a stack of cells and
//! a data space of bytes.
//!
//! A word that reads or writes memory, or prints, does not do so itself. It
//! takes its operands from the stack and answers with the `Effect` that
//! whoever runs the interpreter is to carry out.

use vstd::prelude::*;
use vstd::string::StringSliceAdditionalSpecFns;
use crate::hashed_map::{key_of, position, HashedMap};
use crate::tokens::{literal_value, parse_u32};

verus! {

/// What is left to do after a word has run.
#[derive(Clone, Copy, Debug, PartialEq, Eq)]
pub enum Effect {
    /// Nothing.
    Nothing,
    /// Write the cell `value` to memory at `address`.
    WriteCell { address: u32, value: u32 },
    /// Read the cell at `address` from memory and push it.
    ReadCell { address: u32 },
    /// Write `byte` to memory at `address`.
    WriteByte { address: u32, byte: u8 },
    /// Read the byte at `address` from memory and push it.
    ReadByte { address: u32 },
    /// Print `value` in decimal, followed by a line feed.
    Print { value: u32 },
}

/// Something that can be looked up by name and run.
pub trait Word {
    /// The word can run on `stack`: the stack holds its operands and the
    /// result fits in a cell.
    spec fn ready(&self, stack: Seq<u32>) -> bool;

    /// The name of the word.
    fn word(&self) -> &str;

    /// Runs the word.
    fn execute(&self, stack: &mut Vec<u32>, data: &mut Vec<u8>) -> Effect
        requires
            self.ready(old(stack)@),
    ;
}

/// The built-in words.
#[derive(Clone, Copy, Debug, PartialEq, Eq)]
pub enum BuiltinWord {
    /// `!`
    Store,
    /// `@`
    Fetch,
    /// `,`
    Comma,
    /// `ALIGN`
    Align,
    /// `CELLS`
    Cells,
    /// `C!`
    CStore,
    /// `C,`
    CComma,
    /// `C@`
    CFetch,
    /// `CHARS`
    Chars,
    /// `+`
    Plus,
    /// `-`
    Minus,
    /// `*`
    Star,
    /// `/`
    Slash,
    /// `.`
    Dot,
}

/// The four bytes of a cell, lowest first.
pub open spec fn cell_bytes(x: u32) -> Seq<u8> {
    seq![
        (x & 0xff) as u8,
        ((x >> 8) & 0xff) as u8,
        ((x >> 16) & 0xff) as u8,
        ((x >> 24) & 0xff) as u8,
    ]
}

/// The lowest byte of a cell.
pub open spec fn low_byte(x: u32) -> u8 {
    (x & 0xff) as u8
}

impl BuiltinWord {
    /// How many cells the word takes from the stack.
    pub open spec fn takes(self) -> nat {
        match self {
            BuiltinWord::Align | BuiltinWord::Chars => 0,
            BuiltinWord::Fetch | BuiltinWord::Comma | BuiltinWord::Cells | BuiltinWord::CComma
            | BuiltinWord::CFetch | BuiltinWord::Dot => 1,
            _ => 2,
        }
    }

    /// The stack after the word, when `top` was on top of it and `under`
    /// below that, and `rest` is what the word does not touch.
    pub open spec fn leaves(self, rest: Seq<u32>, under: u32, top: u32) -> Seq<u32> {
        match self {
            BuiltinWord::Cells => rest.push((top * 4) as u32),
            BuiltinWord::Plus => rest.push((top + under) as u32),
            BuiltinWord::Minus => rest.push((top - under) as u32),
            BuiltinWord::Star => rest.push((top * under) as u32),
            BuiltinWord::Slash => rest.push(top / under),
            _ => rest,
        }
    }

    /// The result of the word fits in a cell.
    pub open spec fn fits(self, under: u32, top: u32) -> bool {
        match self {
            BuiltinWord::Cells => top * 4 <= u32::MAX,
            BuiltinWord::Plus => top + under <= u32::MAX,
            BuiltinWord::Minus => top >= under,
            BuiltinWord::Star => top * under <= u32::MAX,
            BuiltinWord::Slash => under != 0,
            _ => true,
        }
    }

    /// What is left to do after the word.
    pub open spec fn effect(self, under: u32, top: u32) -> Effect {
        match self {
            BuiltinWord::Store => Effect::WriteCell { address: under, value: top },
            BuiltinWord::Fetch => Effect::ReadCell { address: top },
            BuiltinWord::CStore => Effect::WriteByte { address: under, byte: low_byte(top) },
            BuiltinWord::CFetch => Effect::ReadByte { address: top },
            BuiltinWord::Dot => Effect::Print { value: top },
            _ => Effect::Nothing,
        }
    }

    /// The data space after the word.
    pub open spec fn writes(self, data: Seq<u8>, top: u32) -> Seq<u8> {
        match self {
            BuiltinWord::Comma => data + cell_bytes(top),
            BuiltinWord::CComma => data.push(low_byte(top)),
            BuiltinWord::Align => if data.len() % 4 != 0 {
                data.push(0u8)
            } else {
                data
            },
            _ => data,
        }
    }

    /// The top two cells of a stack, or zero where the stack is too short to
    /// have them, and the stack below what the word takes.
    pub open spec fn operands(self, stack: Seq<u32>) -> (Seq<u32>, u32, u32) {
        let top = if stack.len() >= 1 {
            stack[stack.len() - 1]
        } else {
            0u32
        };
        let under = if stack.len() >= 2 {
            stack[stack.len() - 2]
        } else {
            0u32
        };
        (stack.subrange(0, stack.len() - self.takes()), under, top)
    }

    /// The name under which the word is looked up.
    pub fn name(&self) -> (name: &'static str)
        ensures
            name@ == self.spec_name(),
    {
        match self {
            BuiltinWord::Store => "!",
            BuiltinWord::Fetch => "@",
            BuiltinWord::Comma => ",",
            BuiltinWord::Align => "ALIGN",
            BuiltinWord::Cells => "CELLS",
            BuiltinWord::CStore => "C!",
            BuiltinWord::CComma => "C,",
            BuiltinWord::CFetch => "C@",
            BuiltinWord::Chars => "CHARS",
            BuiltinWord::Plus => "+",
            BuiltinWord::Minus => "-",
            BuiltinWord::Star => "*",
            BuiltinWord::Slash => "/",
            BuiltinWord::Dot => ".",
        }
    }

    /// The name of the word.
    pub open spec fn spec_name(self) -> Seq<char> {
        match self {
            BuiltinWord::Store => "!"@,
            BuiltinWord::Fetch => "@"@,
            BuiltinWord::Comma => ","@,
            BuiltinWord::Align => "ALIGN"@,
            BuiltinWord::Cells => "CELLS"@,
            BuiltinWord::CStore => "C!"@,
            BuiltinWord::CComma => "C,"@,
            BuiltinWord::CFetch => "C@"@,
            BuiltinWord::Chars => "CHARS"@,
            BuiltinWord::Plus => "+"@,
            BuiltinWord::Minus => "-"@,
            BuiltinWord::Star => "*"@,
            BuiltinWord::Slash => "/"@,
            BuiltinWord::Dot => "."@,
        }
    }

    /// Whether the word can run on `stack`: the stack holds the cells it
    /// takes, and its result fits in a cell.
    pub fn is_ready(&self, stack: &Vec<u32>) -> (ready: bool)
        ensures
            ready == self.ready(stack@),
    {
        let n = stack.len();
        let top: u32 = if n >= 1 {
            stack[n - 1]
        } else {
            0
        };
        let under: u32 = if n >= 2 {
            stack[n - 2]
        } else {
            0
        };
        proof {
            assert(under != 0 ==> (top <= u32::MAX / under <==> top * under <= u32::MAX))
                by (nonlinear_arith);
            assert(under == 0 ==> top * under == 0) by (nonlinear_arith);
            assert(self.operands(stack@).1 == under);
            assert(self.operands(stack@).2 == top);
        }
        match self {
            BuiltinWord::Align | BuiltinWord::Chars => true,
            BuiltinWord::Cells => n >= 1 && top <= u32::MAX / 4,
            BuiltinWord::Fetch | BuiltinWord::Comma | BuiltinWord::CComma | BuiltinWord::CFetch
            | BuiltinWord::Dot => n >= 1,
            BuiltinWord::Store | BuiltinWord::CStore => n >= 2,
            BuiltinWord::Plus => n >= 2 && top <= u32::MAX - under,
            BuiltinWord::Minus => n >= 2 && top >= under,
            BuiltinWord::Star => n >= 2 && (under == 0 || top <= u32::MAX / under),
            BuiltinWord::Slash => n >= 2 && under != 0,
        }
    }

    /// Runs the word: takes its operands from the stack, leaves its result
    /// there, appends what it writes to the data space, and returns what is
    /// left to do.
    pub fn run(&self, stack: &mut Vec<u32>, data: &mut Vec<u8>) -> (effect: Effect)
        requires
            old(stack)@.len() >= self.takes(),
            self.fits(self.operands(old(stack)@).1, self.operands(old(stack)@).2),
        ensures
            ({
                let (rest, under, top) = self.operands(old(stack)@);
                &&& final(stack)@ == self.leaves(rest, under, top)
                &&& final(data)@ == self.writes(old(data)@, top)
                &&& effect == self.effect(under, top)
            }),
    {
        let ghost before = stack@;
        let ghost (rest, under, top) = self.operands(stack@);
        match self {
            BuiltinWord::Align => {
                if data.len() % 4 != 0 {
                    data.push(0);
                }
                proof {
                    assert(stack@ =~= rest);
                }
                Effect::Nothing
            },
            BuiltinWord::Chars => {
                proof {
                    assert(stack@ =~= rest);
                }
                Effect::Nothing
            },
            BuiltinWord::Fetch | BuiltinWord::Comma | BuiltinWord::Cells | BuiltinWord::CComma
            | BuiltinWord::CFetch | BuiltinWord::Dot => {
                let x = match stack.pop() {
                    Some(x) => x,
                    None => 0,
                };
                proof {
                    assert(stack@ =~= rest);
                    assert(x == top);
                }
                match self {
                    BuiltinWord::Fetch => Effect::ReadCell { address: x },
                    BuiltinWord::Comma => {
                        data.push((x & 0xff) as u8);
                        data.push(((x >> 8) & 0xff) as u8);
                        data.push(((x >> 16) & 0xff) as u8);
                        data.push(((x >> 24) & 0xff) as u8);
                        proof {
                            assert(data@ =~= old(data)@ + cell_bytes(x));
                        }
                        Effect::Nothing
                    },
                    BuiltinWord::Cells => {
                        stack.push(x * 4);
                        Effect::Nothing
                    },
                    BuiltinWord::CComma => {
                        data.push((x & 0xff) as u8);
                        Effect::Nothing
                    },
                    BuiltinWord::CFetch => Effect::ReadByte { address: x },
                    _ => Effect::Print { value: x },
                }
            },
            _ => {
                let a = match stack.pop() {
                    Some(x) => x,
                    None => 0,
                };
                let b = match stack.pop() {
                    Some(x) => x,
                    None => 0,
                };
                proof {
                    assert(stack@ =~= rest);
                    assert(a == top);
                    assert(b == under);
                }
                match self {
                    BuiltinWord::Store => Effect::WriteCell { address: b, value: a },
                    BuiltinWord::CStore => Effect::WriteByte { address: b, byte: (a & 0xff) as u8 },
                    BuiltinWord::Plus => {
                        stack.push(a + b);
                        Effect::Nothing
                    },
                    BuiltinWord::Minus => {
                        stack.push(a - b);
                        Effect::Nothing
                    },
                    BuiltinWord::Star => {
                        stack.push(a * b);
                        Effect::Nothing
                    },
                    _ => {
                        stack.push(a / b);
                        Effect::Nothing
                    },
                }
            },
        }
    }
}

impl Word for BuiltinWord {
    open spec fn ready(&self, stack: Seq<u32>) -> bool {
        stack.len() >= self.takes() && self.fits(self.operands(stack).1, self.operands(stack).2)
    }

    fn word(&self) -> (name: &str)
        ensures
            name@ == self.spec_name(),
    {
        self.name()
    }

    fn execute(&self, stack: &mut Vec<u32>, data: &mut Vec<u8>) -> (effect: Effect)
        ensures
            ({
                let (rest, under, top) = self.operands(old(stack)@);
                &&& final(stack)@ == self.leaves(rest, under, top)
                &&& final(data)@ == self.writes(old(data)@, top)
                &&& effect == self.effect(under, top)
            }),
    {
        self.run(stack, data)
    }
}

/// The entry that `init` makes for a word: the word under the key of its
/// name.
pub open spec fn entry_of(word: BuiltinWord) -> (usize, BuiltinWord) {
    (key_of(vstd::utf8::encode_utf8(word.spec_name())), word)
}

/// `entries` with the built-in words entered behind them, in the order in
/// which `init` enters them.
pub open spec fn with_builtins(entries: Seq<(usize, BuiltinWord)>) -> Seq<(usize, BuiltinWord)> {
    entries.push(
        entry_of(BuiltinWord::Store),
    ).push(
        entry_of(BuiltinWord::Fetch),
    ).push(
        entry_of(BuiltinWord::Comma),
    ).push(
        entry_of(BuiltinWord::Align),
    ).push(
        entry_of(BuiltinWord::Cells),
    ).push(
        entry_of(BuiltinWord::CStore),
    ).push(
        entry_of(BuiltinWord::CFetch),
    ).push(
        entry_of(BuiltinWord::CComma),
    ).push(
        entry_of(BuiltinWord::Chars),
    ).push(
        entry_of(BuiltinWord::Plus),
    ).push(
        entry_of(BuiltinWord::Minus),
    ).push(
        entry_of(BuiltinWord::Star),
    ).push(
        entry_of(BuiltinWord::Slash),
    ).push(
        entry_of(BuiltinWord::Dot),
    )
}

/// Enters the built-in words into `dic`, behind what it holds.
pub fn init(dic: &mut HashedMap<BuiltinWord>)
    requires
        old(dic).wf(),
    ensures
        final(dic).wf(),
        final(dic).entries() == with_builtins(old(dic).entries()),
{
    dic.insert(BuiltinWord::Store.name(), BuiltinWord::Store);
    dic.insert(BuiltinWord::Fetch.name(), BuiltinWord::Fetch);
    dic.insert(BuiltinWord::Comma.name(), BuiltinWord::Comma);
    dic.insert(BuiltinWord::Align.name(), BuiltinWord::Align);
    dic.insert(BuiltinWord::Cells.name(), BuiltinWord::Cells);
    dic.insert(BuiltinWord::CStore.name(), BuiltinWord::CStore);
    dic.insert(BuiltinWord::CFetch.name(), BuiltinWord::CFetch);
    dic.insert(BuiltinWord::CComma.name(), BuiltinWord::CComma);
    dic.insert(BuiltinWord::Chars.name(), BuiltinWord::Chars);
    dic.insert(BuiltinWord::Plus.name(), BuiltinWord::Plus);
    dic.insert(BuiltinWord::Minus.name(), BuiltinWord::Minus);
    dic.insert(BuiltinWord::Star.name(), BuiltinWord::Star);
    dic.insert(BuiltinWord::Slash.name(), BuiltinWord::Slash);
    dic.insert(BuiltinWord::Dot.name(), BuiltinWord::Dot);
}

/// What the interpreter holds.
pub struct ForthState {
    /// The words that can be run.
    pub dictionary: HashedMap<BuiltinWord>,
    /// The bytes that `,` and `C,` have written.
    pub data_space: Vec<u8>,
    /// The operand stack, its top last.
    pub stack: Vec<u32>,
}

/// What one input came to.
#[derive(Clone, Copy, Debug, PartialEq, Eq)]
pub enum Evaluated {
    /// The input named a word, which has run and leaves this to do.
    Ran(Effect),
    /// The input was a number, which is pushed.
    Pushed,
    /// The input was neither.
    Unrecognised,
}

/// The word that `input` names in `state`, if it names one.
pub open spec fn named(state: ForthState, input: Seq<u8>) -> Option<BuiltinWord> {
    match position(state.dictionary.entries(), key_of(input), 0) {
        Some(i) => Some(state.dictionary.entries()[i].1),
        None => None,
    }
}

/// Whether `input` can be evaluated: if it names a word, the word can run
/// on the stack as it is.
pub fn can_eval(state: &ForthState, input: &str) -> (ready: bool)
    requires
        state.dictionary.wf(),
    ensures
        ready == (named(*state, input.spec_bytes()) matches Some(word) ==> word.ready(state.stack@)),
{
    match state.dictionary.get(input) {
        Some(word) => word.is_ready(&state.stack),
        None => true,
    }
}

/// Evaluates one input. A name in the dictionary runs its word; anything
/// else that writes an unsigned integer pushes the integer; all other input
/// is not recognised and changes nothing.
pub fn eval(state: &mut ForthState, input: &str) -> (r: Evaluated)
    requires
        old(state).dictionary.wf(),
        named(*old(state), input.spec_bytes()) matches Some(word) ==> word.ready(old(state).stack@),
    ensures
        final(state).dictionary.wf(),
        final(state).dictionary.entries() == old(state).dictionary.entries(),
        match named(*old(state), input.spec_bytes()) {
            Some(word) => {
                let (rest, under, top) = word.operands(old(state).stack@);
                &&& r == Evaluated::Ran(word.effect(under, top))
                &&& final(state).stack@ == word.leaves(rest, under, top)
                &&& final(state).data_space@ == word.writes(old(state).data_space@, top)
            },
            None => match literal_value(input.spec_bytes()) {
                Some(n) => {
                    &&& r == Evaluated::Pushed
                    &&& final(state).stack@ == old(state).stack@.push(n)
                    &&& final(state).data_space@ == old(state).data_space@
                },
                None => {
                    &&& r == Evaluated::Unrecognised
                    &&& final(state).stack@ == old(state).stack@
                    &&& final(state).data_space@ == old(state).data_space@
                },
            },
        },
{
    let found = match state.dictionary.get(input) {
        Some(word) => Some(*word),
        None => None,
    };
    match found {
        Some(word) => {
            let effect = word.run(&mut state.stack, &mut state.data_space);
            Evaluated::Ran(effect)
        },
        None => match parse_u32(input.as_bytes()) {
            Some(n) => {
                state.stack.push(n);
                Evaluated::Pushed
            },
            None => Evaluated::Unrecognised,
        },
    }
}

} // verus!
