//! What the compiler does, as a function of the source text.
//!
//! The compiler reads the text one token at a time and is always in one of
//! two modes. In immediate mode the instructions of a token go to the output.
//! In definition mode, entered at `:` and left at `;`, they are staged, and
//! `;` commits what was staged to the dictionary as a new word. `step` is one
//! token's worth of this; `run` is the whole text.

use vstd::prelude::*;
use crate::dictionary::DictionaryView;
use crate::hash::djb2;
use crate::primitives::{primitive_of, Primitive};
use crate::tokens::{lemma_token_at, literal_value, token_at};

verus! {

/// How many instructions one definition can hold.
pub const COMPILE_BUFFER_SIZE: usize = 255;

/// Why a compilation stopped early.
#[derive(Clone, Copy, Debug, PartialEq, Eq)]
pub enum CompilerError {
    /// A definition has more instructions than the staging buffer holds.
    WordOutOfBounds,
    /// A `:` is not followed by a name.
    MalformedCompilation,
    /// A token is no control token, primitive, defined word or integer
    /// literal.
    UnrecognizedToken,
}

/// Everything the compiler keeps track of while it reads a text.
pub struct CompileState {
    /// The dictionary as it stands.
    pub dictionary: DictionaryView,
    /// Whether a definition is open.
    pub defining: bool,
    /// The name given at the last `:`.
    pub name: Seq<u8>,
    /// Where in the text the last `:` stands.
    pub from: int,
    /// The instructions of the definition so far.
    pub staged: Seq<u32>,
    /// The instructions written to the output so far.
    pub output: Seq<u32>,
}

/// What one token leads to.
pub enum Step {
    /// There is no token left.
    Finish,
    /// The token cannot be compiled.
    Fail(CompilerError),
    /// The token is compiled: the state after it, and where to read on.
    Advance(CompileState, int),
}

/// How a compilation ended: the state it reached, and the error that stopped
/// it, if one did.
pub struct Outcome {
    pub state: CompileState,
    pub error: Option<CompilerError>,
}

/// The storage a compilation may fill: dictionary entries, arena cells and
/// output cells.
pub struct Room {
    pub words: nat,
    pub arena: nat,
    pub output: nat,
}

/// `:`
pub open spec fn is_colon(token: Seq<u8>) -> bool {
    token == seq![0x3au8]
}

/// `;`
pub open spec fn is_semicolon(token: Seq<u8>) -> bool {
    token == seq![0x3bu8]
}

/// The instructions that a token stands for. A primitive's keyword stands
/// for the primitive, whatever the dictionary holds. Any other token stands
/// for the oldest word whose name has the token's hash, if there is one; else
/// for the push of the integer it writes, if it writes one.
pub open spec fn resolve(dictionary: DictionaryView, token: Seq<u8>) -> Option<Seq<u32>> {
    match primitive_of(token) {
        Some(primitive) => Some(primitive.words()),
        None => match dictionary.find(djb2(token)) {
            Some(i) => Some(dictionary.body(i)),
            None => match literal_value(token) {
                Some(value) => Some(Primitive::Push(value).words()),
                None => None,
            },
        },
    }
}

impl CompileState {
    /// The state in which a compilation begins.
    pub open spec fn start(dictionary: DictionaryView) -> CompileState {
        CompileState {
            dictionary,
            defining: false,
            name: Seq::empty(),
            from: 0,
            staged: Seq::empty(),
            output: Seq::empty(),
        }
    }

    /// A definition opens at `from` under `name`: nothing is staged yet.
    pub open spec fn open(self, name: Seq<u8>, from: int) -> CompileState {
        CompileState { defining: true, name, from, staged: Seq::empty(), ..self }
    }

    /// The definition closes: what is staged becomes a word, with `original`
    /// as its source text.
    pub open spec fn commit(self, original: Seq<u8>) -> CompileState {
        CompileState {
            dictionary: self.dictionary.define(self.name, original, self.staged),
            defining: false,
            ..self
        }
    }

    /// `words` are added where the mode sends them. A definition that would
    /// grow beyond the staging buffer is an error.
    pub open spec fn append(self, words: Seq<u32>) -> Result<CompileState, CompilerError> {
        if self.defining {
            if self.staged.len() + words.len() > COMPILE_BUFFER_SIZE {
                Err(CompilerError::WordOutOfBounds)
            } else {
                Ok(CompileState { staged: self.staged + words, ..self })
            }
        } else {
            Ok(CompileState { output: self.output + words, ..self })
        }
    }

    /// The state needs no more storage than `room` offers.
    pub open spec fn within(self, room: Room) -> bool {
        &&& self.dictionary.words.len() <= room.words
        &&& self.dictionary.arena.len() <= room.arena
        &&& self.output.len() <= room.output
    }
}

/// The first token at or after `i` is compiled.
///
/// `:` takes the token behind it as the name of a new definition; the name
/// may be anything but `:` and `;`. `;` commits the definition, with the text
/// from its `:` to the `;` itself as its source. Every other token is
/// resolved and its instructions appended.
pub open spec fn step(state: CompileState, text: Seq<u8>, i: int) -> Step {
    match token_at(text, i) {
        None => Step::Finish,
        Some(span) => {
            let token = text.subrange(span.start, span.end);
            if is_colon(token) {
                match token_at(text, span.end) {
                    None => Step::Fail(CompilerError::MalformedCompilation),
                    Some(named) => {
                        let name = text.subrange(named.start, named.end);
                        if is_colon(name) || is_semicolon(name) {
                            Step::Fail(CompilerError::MalformedCompilation)
                        } else {
                            Step::Advance(state.open(name, span.start), named.end)
                        }
                    },
                }
            } else if is_semicolon(token) {
                Step::Advance(state.commit(text.subrange(state.from, span.end)), span.end)
            } else {
                match resolve(state.dictionary, token) {
                    None => Step::Fail(CompilerError::UnrecognizedToken),
                    Some(words) => match state.append(words) {
                        Err(error) => Step::Fail(error),
                        Ok(next) => Step::Advance(next, span.end),
                    },
                }
            }
        },
    }
}

/// A step that advances moves forward in the text.
pub proof fn lemma_step_advances(state: CompileState, text: Seq<u8>, i: int)
    requires
        0 <= i <= text.len(),
    ensures
        step(state, text, i) matches Step::Advance(_, j) ==> i < j <= text.len(),
{
    lemma_token_at(text, i);
    if let Some(span) = token_at(text, i) {
        lemma_token_at(text, span.end);
    }
}

/// The text from `i` on is compiled, token by token, until it ends or a
/// token fails. A token that fails leaves the state as it was before it.
pub open spec fn run(state: CompileState, text: Seq<u8>, i: int) -> Outcome
    decreases text.len() - i,
    when 0 <= i <= text.len()
    via run_decreases
{
    match step(state, text, i) {
        Step::Finish => Outcome { state, error: None },
        Step::Fail(error) => Outcome { state, error: Some(error) },
        Step::Advance(next, j) => run(next, text, j),
    }
}

#[via_fn]
proof fn run_decreases(state: CompileState, text: Seq<u8>, i: int) {
    lemma_step_advances(state, text, i);
}

/// Compiling the text from `i` on never needs more storage than `room`
/// offers.
pub open spec fn fits(state: CompileState, text: Seq<u8>, i: int, room: Room) -> bool
    decreases text.len() - i,
    when 0 <= i <= text.len()
    via fits_decreases
{
    match step(state, text, i) {
        Step::Advance(next, j) => next.within(room) && fits(next, text, j, room),
        _ => true,
    }
}

#[via_fn]
proof fn fits_decreases(state: CompileState, text: Seq<u8>, i: int, room: Room) {
    lemma_step_advances(state, text, i);
}

/// The state in which compiling the text from `i` on comes to rest when it
/// may use no more storage than `room` offers: where the text ends or a token
/// fails, or before the first token that needs more.
pub open spec fn reach(state: CompileState, text: Seq<u8>, i: int, room: Room) -> CompileState
    decreases text.len() - i,
    when 0 <= i <= text.len()
    via reach_decreases
{
    match step(state, text, i) {
        Step::Advance(next, j) => if next.within(room) {
            reach(next, text, j, room)
        } else {
            state
        },
        _ => state,
    }
}

#[via_fn]
proof fn reach_decreases(state: CompileState, text: Seq<u8>, i: int, room: Room) {
    lemma_step_advances(state, text, i);
}

/// What the caller gets back: how many instructions were written to the
/// output, or the error.
pub open spec fn verdict(outcome: Outcome) -> Result<usize, CompilerError> {
    match outcome.error {
        None => Ok(outcome.state.output.len() as usize),
        Some(error) => Err(error),
    }
}

/// With enough storage, the compilation comes to rest where the text ends or
/// a token fails.
pub proof fn lemma_reach_is_run(state: CompileState, text: Seq<u8>, i: int, room: Room)
    requires
        0 <= i <= text.len(),
        fits(state, text, i, room),
    ensures
        reach(state, text, i, room) == run(state, text, i).state,
    decreases text.len() - i,
{
    lemma_step_advances(state, text, i);
    if let Step::Advance(next, j) = step(state, text, i) {
        lemma_reach_is_run(next, text, j, room);
    }
}

} // verus!
