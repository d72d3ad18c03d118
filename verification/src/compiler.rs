//! The compiler driver.

use vstd::prelude::*;
use vstd::string::StringSliceAdditionalSpecFns;
use vstd::utf8::{encode_utf8_valid_utf8, is_char_boundary, is_char_boundary_start_end_of_seq, valid_utf8};
use crate::dictionary::{CompiledWord, DictionaryView, ForthDictionary};
use crate::hash::get_hash;
use crate::model::{
    fits, lemma_reach_is_run, lemma_step_advances, reach, run, verdict, CompileState, CompilerError, Room,
    COMPILE_BUFFER_SIZE,
};
use crate::primitives::Primitive;
use crate::tokens::{lemma_token_at, lemma_token_boundaries, next_token, parse_u32, substring};

verus! {

/// Writes `words` into `target`, the first of them at `at`.
fn copy_words(target: &mut [u32], at: usize, words: &[u32])
    requires
        at + words@.len() <= old(target)@.len(),
    ensures
        final(target)@ == old(target)@.subrange(0, at as int) + words@ + old(target)@.subrange(
            at + words@.len(),
            old(target)@.len() as int,
        ),
{
    let count = words.len();
    let mut i: usize = 0;
    proof {
        vstd::slice::axiom_spec_len::<u32>(&*target);
    }
    while i < count
        invariant
            count == words@.len(),
            target@.len() <= usize::MAX,
            i <= count,
            at + count <= target@.len(),
            target@.len() == old(target)@.len(),
            target@ == old(target)@.subrange(0, at as int) + words@.subrange(0, i as int) + old(
                target,
            )@.subrange(at + i, old(target)@.len() as int),
        decreases count - i,
    {
        let ghost before = target@;
        target[at + i] = words[i];
        proof {
            assert(target@ =~= old(target)@.subrange(0, at as int) + words@.subrange(0, i + 1) + old(
                target,
            )@.subrange(at + i + 1, old(target)@.len() as int));
        }
        i = i + 1;
    }
    proof {
        assert(words@.subrange(0, count as int) =~= words@);
    }
}

/// Whether `token` is the single byte `b`.
fn is_byte(token: &[u8], b: u8) -> (r: bool)
    ensures
        r == (token@ == seq![b]),
{
    if token.len() == 1 {
        proof {
            assert(token@ =~= seq![token@[0]]);
        }
        token[0] == b
    } else {
        false
    }
}

/// How an attempt to append instructions ended.
enum Delivery {
    /// The instructions are appended.
    Done,
    /// The staging buffer cannot take them.
    Full,
    /// The output cannot take them.
    NoRoom,
}

/// Appends `words` to the staged instructions or to the output, as the mode
/// says, if they fit there.
fn deliver(
    words: &[u32],
    defining: bool,
    staged: &mut [u32; 255],
    staged_len: &mut usize,
    output: &mut [u32],
    out_len: &mut usize,
) -> (r: Delivery)
    requires
        *old(staged_len) <= COMPILE_BUFFER_SIZE,
        *old(out_len) <= old(output)@.len(),
    ensures
        final(output)@.len() == old(output)@.len(),
        *final(staged_len) <= COMPILE_BUFFER_SIZE,
        *final(out_len) <= final(output)@.len(),
        final(output)@.subrange(*final(out_len) as int, final(output)@.len() as int) == old(
            output,
        )@.subrange(*final(out_len) as int, old(output)@.len() as int),
        r is Done ==> final(staged)@.subrange(0, *final(staged_len) as int) == old(staged)@.subrange(
            0,
            *old(staged_len) as int,
        ) + (if defining {
            words@
        } else {
            Seq::empty()
        }),
        r is Done ==> final(output)@.subrange(0, *final(out_len) as int) == old(output)@.subrange(
            0,
            *old(out_len) as int,
        ) + (if defining {
            Seq::empty()
        } else {
            words@
        }),
        !(r is Done) ==> *final(staged) == *old(staged) && *final(staged_len) == *old(staged_len)
            && final(output)@ == old(output)@ && *final(out_len) == *old(out_len),
        r is Full <==> defining && *old(staged_len) + words@.len() > COMPILE_BUFFER_SIZE,
        r is NoRoom <==> !defining && *old(out_len) + words@.len() > old(output)@.len(),
{
    let count = words.len();
    if defining {
        if count > COMPILE_BUFFER_SIZE - *staged_len {
            return Delivery::Full;
        }
        let ghost before = staged@;
        copy_words(staged, *staged_len, words);
        proof {
            assert(staged@.subrange(0, *staged_len + count) =~= before.subrange(0, *staged_len as int)
                + words@);
            assert(output@.subrange(0, *out_len as int) + Seq::<u32>::empty() =~= output@.subrange(
                0,
                *out_len as int,
            ));
        }
        *staged_len = *staged_len + count;
        Delivery::Done
    } else {
        if count > output.len() - *out_len {
            return Delivery::NoRoom;
        }
        let ghost before = output@;
        copy_words(output, *out_len, words);
        proof {
            assert(output@.subrange(0, *out_len + count) =~= before.subrange(0, *out_len as int)
                + words@);
            assert(output@.subrange(*out_len + count, output@.len() as int) =~= before.subrange(
                *out_len + count,
                before.len() as int,
            ));
            assert(staged@.subrange(0, *staged_len as int) + Seq::<u32>::empty() =~= staged@.subrange(
                0,
                *staged_len as int,
            ));
        }
        *out_len = *out_len + count;
        Delivery::Done
    }
}

/// The compiler state that the variables of `try_compile` stand for.
spec fn snapshot(
    dictionary: DictionaryView,
    defining: bool,
    name: &str,
    from: usize,
    staged: Seq<u32>,
    staged_len: usize,
    output: Seq<u32>,
    out_len: usize,
) -> CompileState {
    CompileState {
        dictionary,
        defining,
        name: name.spec_bytes(),
        from: from as int,
        staged: staged.subrange(0, staged_len as int),
        output: output.subrange(0, out_len as int),
    }
}

/// A compiler: a dictionary, and the means to extend it from source text.
pub struct ForthCompiler<'a> {
    dictionary: ForthDictionary<'a>,
}

impl<'a> View for ForthCompiler<'a> {
    type V = DictionaryView;

    /// What the compiler's dictionary holds.
    closed spec fn view(&self) -> DictionaryView {
        self.dictionary@
    }
}

impl<'a> ForthCompiler<'a> {
    /// The compiler's dictionary is well formed.
    pub closed spec fn wf(&self) -> bool {
        self.dictionary.wf()
    }

    /// How many entries the dictionary can hold.
    pub closed spec fn word_capacity(&self) -> nat {
        self.dictionary.word_capacity()
    }

    /// How many instructions the dictionary's arena can hold.
    pub closed spec fn arena_capacity(&self) -> nat {
        self.dictionary.arena_capacity()
    }

    /// Every cell of the dictionary's arena, the used ones and behind them
    /// the free ones.
    pub closed spec fn cells(&self) -> Seq<u32> {
        self.dictionary.cells()
    }

    /// Every slot for an entry of the dictionary, the used ones and behind
    /// them the free ones.
    pub closed spec fn slots(&self) -> Seq<CompiledWord<'a>> {
        self.dictionary.slots()
    }

    /// The storage that a compilation into an output of `output` cells may
    /// fill.
    pub open spec fn room(&self, output: nat) -> Room {
        Room { words: self.word_capacity(), arena: self.arena_capacity(), output }
    }

    /// A well-formed compiler's dictionary holds no more than its storage
    /// can, and what it holds is well formed.
    pub proof fn lemma_wf(&self)
        requires
            self.wf(),
        ensures
            self@.wf(),
            self@.words.len() <= self.word_capacity(),
            self@.arena.len() <= self.arena_capacity(),
    {
        self.dictionary.lemma_wf();
    }

    /// What the dictionary holds is the used part of its storage, and the
    /// capacities are the sizes of the storage.
    pub proof fn lemma_storage(&self)
        requires
            self.wf(),
        ensures
            self.word_capacity() == self.slots().len(),
            self.arena_capacity() == self.cells().len(),
            self@.words.len() <= self.slots().len(),
            self@.arena.len() <= self.cells().len(),
            self@.arena == self.cells().subrange(0, self@.arena.len() as int),
            forall|i: int| 0 <= i < self@.words.len() ==> self@.words[i] == (#[trigger] self.slots()[i])@,
    {
        self.dictionary.lemma_storage();
    }

    /// A compiler over `dictionary`.
    pub fn new(dictionary: ForthDictionary<'a>) -> (compiler: Self)
        requires
            dictionary.wf(),
        ensures
            compiler.wf(),
            compiler@ == dictionary@,
            compiler.cells() == dictionary.cells(),
            compiler.slots() == dictionary.slots(),
            compiler.word_capacity() == dictionary.word_capacity(),
            compiler.arena_capacity() == dictionary.arena_capacity(),
    {
        ForthCompiler { dictionary }
    }

    /// The compiler's dictionary.
    pub fn dictionary(&self) -> (dictionary: &ForthDictionary<'a>)
        ensures
            dictionary@ == self@,
            dictionary.cells() == self.cells(),
            dictionary.slots() == self.slots(),
            dictionary.wf() == self.wf(),
            dictionary.word_capacity() == self.word_capacity(),
            dictionary.arena_capacity() == self.arena_capacity(),
    {
        &self.dictionary
    }

    /// Compiles `code` as far as the storage allows.
    ///
    /// The instructions of immediate mode are written to `output` from its
    /// first cell on, and the definitions are added to the dictionary. The
    /// result is `None` if the dictionary or `output` ran out of room; then
    /// everything up to the token that needed the room has taken effect.
    /// Otherwise it is what `compile` returns. The free cells of the arena and
    /// the free slots stay as they are.
    pub fn try_compile(&mut self, code: &'a str, output: &mut [u32]) -> (r: Option<
        Result<usize, CompilerError>,
    >)
        requires
            old(self).wf(),
        ensures
            final(self).wf(),
            final(self).word_capacity() == old(self).word_capacity(),
            final(self).arena_capacity() == old(self).arena_capacity(),
            final(output)@.len() == old(output)@.len(),
            ({
                let text = code.spec_bytes();
                let begin = CompileState::start(old(self)@);
                let room = old(self).room(old(output)@.len());
                let rest = reach(begin, text, 0, room);
                &&& final(self)@ == rest.dictionary
                &&& final(output)@ == rest.output + old(output)@.subrange(
                    rest.output.len() as int,
                    old(output)@.len() as int,
                )
                &&& final(self).cells() == rest.dictionary.arena + old(self).cells().subrange(
                    rest.dictionary.arena.len() as int,
                    old(self).cells().len() as int,
                )
                &&& final(self).slots().len() == old(self).slots().len()
                &&& final(self).slots().subrange(
                    rest.dictionary.words.len() as int,
                    old(self).slots().len() as int,
                ) == old(self).slots().subrange(
                    rest.dictionary.words.len() as int,
                    old(self).slots().len() as int,
                )
                &&& r is Some <==> fits(begin, text, 0, room)
                &&& r matches Some(result) ==> result == verdict(run(begin, text, 0))
            }),
    {
        let bytes = code.as_bytes();
        let n = bytes.len();
        let ghost text = code.spec_bytes();
        let ghost begin = CompileState::start(self@);
        let ghost room = self.room(output@.len());
        let mut pos: usize = 0;
        let mut defining = false;
        let mut name: &'a str = "";
        let mut from: usize = 0;
        let mut staged: [u32; 255] = [0u32; 255];
        let mut staged_len: usize = 0;
        let mut out_len: usize = 0;
        proof {
            self.lemma_wf();
            self.lemma_storage();
            reveal_strlit("");
            vstd::string::is_ascii_spec_bytes("");
            assert("".spec_bytes() =~= Seq::<u8>::empty());
            encode_utf8_valid_utf8(code@);
            is_char_boundary_start_end_of_seq(text);
            assert(snapshot(self@, defining, name, from, staged@, staged_len, output@, out_len)
                == begin) by {
                assert(staged@.subrange(0, 0) =~= Seq::<u32>::empty());
                assert(output@.subrange(0, 0) =~= Seq::<u32>::empty());
            }
            assert(output@.subrange(0, output@.len() as int) =~= output@);
        }
        loop
            invariant
                self.wf(),
                self.word_capacity() == old(self).word_capacity(),
                self.arena_capacity() == old(self).arena_capacity(),
                room == old(self).room(old(output)@.len()),
                self.cells().len() == old(self).cells().len(),
                self.slots().len() == old(self).slots().len(),
                self.cells().subrange(self@.arena.len() as int, self.cells().len() as int) == old(
                    self,
                ).cells().subrange(self@.arena.len() as int, self.cells().len() as int),
                self.slots().subrange(self@.words.len() as int, self.slots().len() as int) == old(
                    self,
                ).slots().subrange(self@.words.len() as int, self.slots().len() as int),
                begin == CompileState::start(old(self)@),
                text == code.spec_bytes(),
                bytes@ == text,
                n == text.len(),
                valid_utf8(text),
                pos <= n,
                from <= pos,
                is_char_boundary(text, pos as int),
                is_char_boundary(text, from as int),
                staged_len <= COMPILE_BUFFER_SIZE,
                out_len <= output@.len(),
                output@.len() == old(output)@.len(),
                output@.subrange(out_len as int, output@.len() as int) == old(output)@.subrange(
                    out_len as int,
                    output@.len() as int,
                ),
                snapshot(self@, defining, name, from, staged@, staged_len, output@, out_len).within(
                    room,
                ),
                run(begin, text, 0) == run(
                    snapshot(self@, defining, name, from, staged@, staged_len, output@, out_len),
                    text,
                    pos as int,
                ),
                fits(begin, text, 0, room) == fits(
                    snapshot(self@, defining, name, from, staged@, staged_len, output@, out_len),
                    text,
                    pos as int,
                    room,
                ),
                reach(begin, text, 0, room) == reach(
                    snapshot(self@, defining, name, from, staged@, staged_len, output@, out_len),
                    text,
                    pos as int,
                    room,
                ),
            decreases n - pos,
        {
            let ghost state = snapshot(self@, defining, name, from, staged@, staged_len, output@, out_len);
            proof {
                lemma_token_at(text, pos as int);
                lemma_token_boundaries(text, pos as int);
                lemma_step_advances(state, text, pos as int);
                assert(output@ =~= state.output + old(output)@.subrange(
                    out_len as int,
                    output@.len() as int,
                ));
                self.lemma_storage();
                assert(self.cells() =~= self@.arena + old(self).cells().subrange(
                    self@.arena.len() as int,
                    self.cells().len() as int,
                )) by {
                    let used = self@.arena.len() as int;
                    assert forall|k: int| used <= k < self.cells().len() implies self.cells()[k] == old(
                        self,
                    ).cells()[k] by {
                        assert(self.cells().subrange(used, self.cells().len() as int)[k - used]
                            == self.cells()[k]);
                    }
                }
            }
            let (start, end) = match next_token(bytes, pos) {
                None => {
                    return Some(Ok(out_len));
                },
                Some(span) => span,
            };
            let token = substring(code, start, end);
            let token_bytes = token.as_bytes();
            if is_byte(token_bytes, 0x3a) {
                proof {
                    lemma_token_at(text, end as int);
                    lemma_token_boundaries(text, end as int);
                }
                let (name_start, name_end) = match next_token(bytes, end) {
                    None => {
                        return Some(Err(CompilerError::MalformedCompilation));
                    },
                    Some(span) => span,
                };
                let named = substring(code, name_start, name_end);
                let named_bytes = named.as_bytes();
                if is_byte(named_bytes, 0x3a) || is_byte(named_bytes, 0x3b) {
                    return Some(Err(CompilerError::MalformedCompilation));
                }
                name = named;
                defining = true;
                from = start;
                staged_len = 0;
                pos = name_end;
                proof {
                    let next = snapshot(self@, defining, name, from, staged@, staged_len, output@, out_len);
                    assert(next.staged =~= Seq::<u32>::empty());
                    assert(next == state.open(text.subrange(name_start as int, name_end as int), start as int));
                }
            } else if is_byte(token_bytes, 0x3b) {
                if !self.dictionary.has_room(staged_len) {
                    return None;
                }
                let original = substring(code, from, end);
                let word = CompiledWord::new(name, original, staged_len);
                let ghost cells_before = self.cells();
                let ghost slots_before = self.slots();
                let ghost used = self@.arena.len() as int;
                let ghost taken = self@.words.len() as int;
                self.dictionary.insert(word, &staged);
                defining = false;
                pos = end;
                proof {
                    let total = self.cells().len() as int;
                    assert(self.cells().subrange(used + staged_len, total) =~= old(self).cells().subrange(
                        used + staged_len,
                        total,
                    )) by {
                        assert forall|k: int| used + staged_len <= k < total implies self.cells()[k]
                            == old(self).cells()[k] by {
                            assert(cells_before.subrange(used, total)[k - used] == cells_before[k]);
                        }
                    }
                    let count = self.slots().len() as int;
                    assert(self.slots().subrange(taken + 1, count) =~= old(self).slots().subrange(
                        taken + 1,
                        count,
                    )) by {
                        assert forall|k: int| taken + 1 <= k < count implies self.slots()[k] == old(
                            self,
                        ).slots()[k] by {
                            assert(slots_before.subrange(taken, count)[k - taken] == slots_before[k]);
                        }
                    }
                }
                proof {
                    let next = snapshot(self@, defining, name, from, staged@, staged_len, output@, out_len);
                    assert(next == state.commit(text.subrange(from as int, end as int)));
                }
            } else {
                let delivery = match Primitive::try_from(token) {
                    Ok(primitive) => {
                        let (count, words) = primitive.get_instructions();
                        proof {
                            assert(words@.subrange(0, count as int) =~= primitive.words());
                        }
                        deliver(&words[0..count], defining, &mut staged, &mut staged_len, output, &mut out_len)
                    },
                    Err(_) => match self.dictionary.get(get_hash(token)) {
                        Some((_, body)) => deliver(
                            body,
                            defining,
                            &mut staged,
                            &mut staged_len,
                            output,
                            &mut out_len,
                        ),
                        None => match parse_u32(token_bytes) {
                            Some(value) => {
                                let (count, words) = Primitive::Push(value).get_instructions();
                                proof {
                                    assert(words@.subrange(0, count as int) =~= Primitive::Push(
                                        value,
                                    ).words());
                                }
                                deliver(
                                    &words[0..count],
                                    defining,
                                    &mut staged,
                                    &mut staged_len,
                                    output,
                                    &mut out_len,
                                )
                            },
                            None => {
                                return Some(Err(CompilerError::UnrecognizedToken));
                            },
                        },
                    },
                };
                match delivery {
                    Delivery::Done => {
                        pos = end;
                    },
                    Delivery::Full => {
                        return Some(Err(CompilerError::WordOutOfBounds));
                    },
                    Delivery::NoRoom => {
                        return None;
                    },
                }
            }
        }
    }

    /// Compiles `code`.
    ///
    /// The instructions of immediate mode are written to `output` from its
    /// first cell on, and their number is returned; the definitions are added
    /// to the dictionary. The first token that cannot be compiled ends the
    /// compilation with its error; what the tokens before it did stays done.
    ///
    /// Neither the dictionary nor `output` grows: the caller sees to it that
    /// both have room for what `code` asks of them. The free cells of the
    /// arena and the free slots stay as they are.
    pub fn compile(&mut self, code: &'a str, output: &mut [u32]) -> (r: Result<usize, CompilerError>)
        requires
            old(self).wf(),
            fits(
                CompileState::start(old(self)@),
                code.spec_bytes(),
                0,
                old(self).room(old(output)@.len()),
            ),
        ensures
            final(self).wf(),
            final(self).word_capacity() == old(self).word_capacity(),
            final(self).arena_capacity() == old(self).arena_capacity(),
            final(output)@.len() == old(output)@.len(),
            ({
                let end = run(CompileState::start(old(self)@), code.spec_bytes(), 0);
                &&& r == verdict(end)
                &&& final(self)@ == end.state.dictionary
                &&& final(self).cells() == end.state.dictionary.arena + old(self).cells().subrange(
                    end.state.dictionary.arena.len() as int,
                    old(self).cells().len() as int,
                )
                &&& final(self).slots().len() == old(self).slots().len()
                &&& final(self).slots().subrange(
                    end.state.dictionary.words.len() as int,
                    old(self).slots().len() as int,
                ) == old(self).slots().subrange(
                    end.state.dictionary.words.len() as int,
                    old(self).slots().len() as int,
                )
                &&& final(output)@ == end.state.output + old(output)@.subrange(
                    end.state.output.len() as int,
                    old(output)@.len() as int,
                )
            }),
    {
        proof {
            lemma_reach_is_run(
                CompileState::start(self@),
                code.spec_bytes(),
                0,
                self.room(output@.len()),
            );
        }
        match self.try_compile(code, output) {
            Some(result) => result,
            None => {
                // There is room, so this is never reached.
                proof {
                    assert(false);
                }
                Err(CompilerError::WordOutOfBounds)
            },
        }
    }
}

} // verus!
