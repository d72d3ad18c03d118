//! The word dictionary: defined words and the arena that holds their
//! instructions.

use vstd::prelude::*;
use vstd::string::StringSliceAdditionalSpecFns;
use crate::hash::{djb2, get_hash};

verus! {

/// What a dictionary entry says, as plain values. The name and the source
/// text are UTF-8 bytes.
pub struct WordView {
    pub name: Seq<u8>,
    pub original: Seq<u8>,
    pub pos: nat,
    pub len: nat,
}

/// What a dictionary holds: its entries, oldest first, and the used part of
/// its arena.
pub struct DictionaryView {
    pub words: Seq<WordView>,
    pub arena: Seq<u32>,
}

impl DictionaryView {
    /// Every entry's span lies inside the arena, and the spans follow one
    /// another in the order the entries were made, without overlap.
    pub open spec fn wf(self) -> bool {
        &&& forall|i: int|
            0 <= i < self.words.len() ==> (#[trigger] self.words[i]).pos + self.words[i].len
                <= self.arena.len()
        &&& forall|i: int, j: int|
            0 <= i < j < self.words.len() ==> (#[trigger] self.words[i]).pos + self.words[i].len
                <= (#[trigger] self.words[j]).pos
    }

    /// The first entry at or after `start` whose name hashes to `key`.
    pub open spec fn find_from(self, key: u32, start: int) -> Option<int>
        decreases self.words.len() - start,
    {
        if start < 0 || start >= self.words.len() {
            None
        } else if djb2(self.words[start].name) == key {
            Some(start)
        } else {
            self.find_from(key, start + 1)
        }
    }

    /// The oldest entry whose name hashes to `key`.
    pub open spec fn find(self, key: u32) -> Option<int> {
        self.find_from(key, 0)
    }

    /// The instructions of entry `i`.
    pub open spec fn body(self, i: int) -> Seq<u32> {
        self.arena.subrange(self.words[i].pos as int, (self.words[i].pos + self.words[i].len) as int)
    }

    /// The dictionary after a word with these instructions is appended: the
    /// instructions go to the end of the arena and the new entry spans them.
    pub open spec fn define(self, name: Seq<u8>, original: Seq<u8>, instructions: Seq<u32>) -> DictionaryView {
        DictionaryView {
            words: self.words.push(
                WordView { name, original, pos: self.arena.len(), len: instructions.len() },
            ),
            arena: self.arena + instructions,
        }
    }
}

/// `find` is the lookup by linear scan: it answers with the oldest entry whose
/// name has the hash `key`, and with `None` exactly when no entry has it.
pub proof fn lemma_find_is_first_match(dictionary: DictionaryView, key: u32)
    ensures
        match dictionary.find(key) {
            Some(i) => {
                &&& 0 <= i < dictionary.words.len()
                &&& djb2(dictionary.words[i].name) == key
                &&& forall|j: int| 0 <= j < i ==> djb2(#[trigger] dictionary.words[j].name) != key
            },
            None => forall|j: int|
                0 <= j < dictionary.words.len() ==> djb2(#[trigger] dictionary.words[j].name) != key,
        },
{
    lemma_find_from(dictionary, key, 0);
}

proof fn lemma_find_from(dictionary: DictionaryView, key: u32, start: int)
    requires
        0 <= start,
    ensures
        match dictionary.find_from(key, start) {
            Some(i) => {
                &&& start <= i < dictionary.words.len()
                &&& djb2(dictionary.words[i].name) == key
                &&& forall|j: int| start <= j < i ==> djb2(#[trigger] dictionary.words[j].name) != key
            },
            None => forall|j: int|
                start <= j < dictionary.words.len() ==> djb2(#[trigger] dictionary.words[j].name)
                    != key,
        },
    decreases dictionary.words.len() - start,
{
    if start < dictionary.words.len() && djb2(dictionary.words[start].name) != key {
        lemma_find_from(dictionary, key, start + 1);
    }
}

/// An entry with the hash `key` and none before it with that hash is what
/// `find` answers with.
pub proof fn lemma_first_match_is_found(dictionary: DictionaryView, key: u32, i: int)
    requires
        0 <= i < dictionary.words.len(),
        djb2(dictionary.words[i].name) == key,
        forall|j: int| 0 <= j < i ==> djb2(#[trigger] dictionary.words[j].name) != key,
    ensures
        dictionary.find(key) == Some(i),
{
    lemma_find_is_first_match(dictionary, key);
}

/// The dictionary only grows at its end. Defining a word keeps the
/// dictionary well formed, places the new word on the cells that were free,
/// and leaves every older word where it was, with the instructions it had.
pub proof fn lemma_define_appends(
    dictionary: DictionaryView,
    name: Seq<u8>,
    original: Seq<u8>,
    instructions: Seq<u32>,
)
    requires
        dictionary.wf(),
    ensures
        ({
            let after = dictionary.define(name, original, instructions);
            let new = dictionary.words.len() as int;
            &&& after.wf()
            &&& after.words.len() == new + 1
            &&& after.arena.len() == dictionary.arena.len() + instructions.len()
            &&& after.words[new].pos == dictionary.arena.len()
            &&& after.words[new].len == instructions.len()
            &&& after.body(new) == instructions
            &&& forall|i: int|
                0 <= i < new ==> after.words[i] == dictionary.words[i] && #[trigger] after.body(i)
                    == dictionary.body(i)
        }),
{
    let after = dictionary.define(name, original, instructions);
    let new = dictionary.words.len() as int;
    assert(after.body(new) =~= instructions);
    assert forall|i: int| 0 <= i < new implies after.words[i] == dictionary.words[i]
        && #[trigger] after.body(i) == dictionary.body(i) by {
        assert(dictionary.words[i].pos + dictionary.words[i].len <= dictionary.arena.len());
        assert(after.body(i) =~= dictionary.body(i));
    }
    assert forall|i: int, j: int| 0 <= i < j < after.words.len() implies (#[trigger] after.words[i]).pos
        + after.words[i].len <= (#[trigger] after.words[j]).pos by {
        assert(dictionary.words[i].pos + dictionary.words[i].len <= dictionary.arena.len());
    }
}

/// A lookup that finds a word keeps finding it, with the same instructions,
/// whatever is defined later. A lookup that finds nothing finds the new word
/// if it has the hash, and nothing otherwise.
pub proof fn lemma_define_then_find(
    dictionary: DictionaryView,
    name: Seq<u8>,
    original: Seq<u8>,
    instructions: Seq<u32>,
    key: u32,
)
    requires
        dictionary.wf(),
    ensures
        ({
            let after = dictionary.define(name, original, instructions);
            match dictionary.find(key) {
                Some(i) => after.find(key) == Some(i) && after.body(i) == dictionary.body(i),
                None => if djb2(name) == key {
                    after.find(key) == Some(dictionary.words.len() as int) && after.body(
                        dictionary.words.len() as int,
                    ) == instructions
                } else {
                    after.find(key) is None
                },
            }
        }),
{
    let after = dictionary.define(name, original, instructions);
    lemma_define_appends(dictionary, name, original, instructions);
    lemma_find_is_first_match(dictionary, key);
    lemma_find_is_first_match(after, key);
    match dictionary.find(key) {
        Some(i) => {
            lemma_first_match_is_found(after, key, i);
        },
        None => {
            if djb2(name) == key {
                lemma_first_match_is_found(after, key, dictionary.words.len() as int);
            }
        },
    }
}

/// One dictionary entry.
#[derive(Clone, Copy, Debug)]
pub struct CompiledWord<'a> {
    /// How many instructions the word has.
    pub len: usize,
    /// Where in the arena its instructions begin.
    pub pos: usize,
    /// The token that invokes the word.
    pub name: &'a str,
    /// The source text of the definition.
    pub original: &'a str,
}

impl<'a> View for CompiledWord<'a> {
    type V = WordView;

    open spec fn view(&self) -> WordView {
        WordView {
            name: self.name.spec_bytes(),
            original: self.original.spec_bytes(),
            pos: self.pos as nat,
            len: self.len as nat,
        }
    }
}

impl<'a> CompiledWord<'a> {
    /// An entry that is not yet placed in an arena.
    pub fn new(name: &'a str, original: &'a str, len: usize) -> (word: Self)
        ensures
            word.name == name,
            word.original == original,
            word.pos == 0,
            word.len == len,
    {
        CompiledWord { name, original, pos: 0, len }
    }

    /// How many instructions the word has.
    pub fn len(&self) -> (n: usize)
        ensures
            n == self.len,
    {
        self.len
    }
}

/// The views of the first `len` of `keys` over the first `mem_len` cells of
/// `memory`.
pub open spec fn stored<'a>(len: usize, keys: Seq<CompiledWord<'a>>, mem_len: usize, memory: Seq<u32>) -> DictionaryView {
    DictionaryView {
        words: Seq::new(len as nat, |i: int| keys[i]@),
        arena: memory.subrange(0, mem_len as int),
    }
}

/// An append-only dictionary over storage that its maker lends it.
pub struct ForthDictionary<'a> {
    len: usize,
    keys: &'a mut [CompiledWord<'a>],
    mem_len: usize,
    memory: &'a mut [u32],
}

impl<'a> View for ForthDictionary<'a> {
    type V = DictionaryView;

    closed spec fn view(&self) -> DictionaryView {
        stored(self.len, self.keys@, self.mem_len, self.memory@)
    }
}

impl<'a> ForthDictionary<'a> {
    /// How many entries the dictionary can hold.
    pub closed spec fn word_capacity(&self) -> nat {
        self.keys@.len()
    }

    /// How many instructions the arena can hold.
    pub closed spec fn arena_capacity(&self) -> nat {
        self.memory@.len()
    }

    /// Every cell of the arena, the used ones and behind them the free ones.
    pub closed spec fn cells(&self) -> Seq<u32> {
        self.memory@
    }

    /// Every slot for an entry, the used ones and behind them the free ones.
    pub closed spec fn slots(&self) -> Seq<CompiledWord<'a>> {
        self.keys@
    }

    /// The dictionary fits its storage and its entries are well formed.
    pub closed spec fn wf(&self) -> bool {
        &&& self.len <= self.keys@.len()
        &&& self.mem_len <= self.memory@.len()
        &&& self@.wf()
    }

    /// A dictionary over the storage `keys` and `memory`, of which the first
    /// `len` entries and the first `mem_len` cells are in use. A new
    /// dictionary is one with `len` and `mem_len` zero.
    pub fn new(len: usize, keys: &'a mut [CompiledWord<'a>], mem_len: usize, memory: &'a mut [u32]) -> (d: Self)
        requires
            len <= old(keys)@.len(),
            mem_len <= old(memory)@.len(),
            stored(len, old(keys)@, mem_len, old(memory)@).wf(),
        ensures
            d.wf(),
            d@ == stored(len, old(keys)@, mem_len, old(memory)@),
            d.slots() == old(keys)@,
            d.cells() == old(memory)@,
            d.word_capacity() == old(keys)@.len(),
            d.arena_capacity() == old(memory)@.len(),
    {
        ForthDictionary { len, keys, mem_len, memory }
    }

    /// The oldest entry whose name has the hash `key`, and its instructions.
    pub fn get(&self, key: u32) -> (r: Option<(&CompiledWord<'a>, &[u32])>)
        requires
            self.wf(),
        ensures
            match self@.find(key) {
                Some(i) => r matches Some((word, body)) && word@ == self@.words[i] && body@ == self@.body(i),
                None => r is None,
            },
    {
        let mut i: usize = 0;
        while i < self.len
            invariant
                self.wf(),
                i <= self.len,
                self@.find(key) == self@.find_from(key, i as int),
            decreases self.len - i,
        {
            let word = &self.keys[i];
            if key == get_hash(word.name) {
                let body = &self.memory[word.pos..word.pos + word.len];
                return Some((word, body));
            }
            i = i + 1;
        }
        None
    }

    /// Appends `word` to the dictionary. The first `word.len` of
    /// `instructions` are copied to the end of the arena, and the entry is
    /// placed on them, whatever `word.pos` said before.
    ///
    /// The dictionary does not grow its storage: the caller sees to it that
    /// there is room for one more entry and for the instructions.
    pub fn insert(&mut self, word: CompiledWord<'a>, instructions: &[u32])
        requires
            old(self).wf(),
            word.len <= instructions@.len(),
            old(self)@.words.len() < old(self).word_capacity(),
            old(self)@.arena.len() + word.len <= old(self).arena_capacity(),
        ensures
            final(self).wf(),
            final(self)@ == old(self)@.define(
                word.name.spec_bytes(),
                word.original.spec_bytes(),
                instructions@.subrange(0, word.len as int),
            ),
            final(self).word_capacity() == old(self).word_capacity(),
            final(self).arena_capacity() == old(self).arena_capacity(),
            final(self).cells() == old(self).cells().subrange(0, old(self)@.arena.len() as int)
                + instructions@.subrange(0, word.len as int) + old(self).cells().subrange(
                old(self)@.arena.len() + word.len,
                old(self).cells().len() as int,
            ),
            final(self).slots() == old(self).slots().update(
                old(self)@.words.len() as int,
                (CompiledWord { pos: old(self)@.arena.len() as usize, ..word }),
            ),
    {
        let mut word = word;
        word.pos = self.mem_len;
        let mut i: usize = 0;
        proof {
            vstd::slice::axiom_spec_len::<u32>(&*self.memory);
        }
        while i < word.len
            invariant
                i <= word.len <= instructions@.len(),
                self.memory@.len() <= usize::MAX,
                word.pos == self.mem_len,
                self.mem_len + word.len <= self.memory@.len(),
                self.len == old(self).len,
                self.mem_len == old(self).mem_len,
                self.keys@ == old(self).keys@,
                self.memory@.len() == old(self).memory@.len(),
                self.memory@.subrange(0, self.mem_len as int) == old(self).memory@.subrange(
                    0,
                    self.mem_len as int,
                ),
                self.memory@.subrange(self.mem_len as int, self.mem_len + i) == instructions@.subrange(
                    0,
                    i as int,
                ),
                self.memory@.subrange(self.mem_len + i, self.memory@.len() as int) == old(
                    self,
                ).memory@.subrange(self.mem_len + i, self.memory@.len() as int),
            decreases word.len - i,
        {
            let ghost before = self.memory@;
            self.memory[word.pos + i] = instructions[i];
            proof {
                assert(self.memory@.subrange(0, self.mem_len as int) =~= before.subrange(
                    0,
                    self.mem_len as int,
                ));
                assert(self.memory@.subrange(self.mem_len as int, self.mem_len + i + 1)
                    =~= before.subrange(self.mem_len as int, self.mem_len + i).push(
                    instructions@[i as int],
                ));
                assert(instructions@.subrange(0, i + 1) =~= instructions@.subrange(0, i as int).push(
                    instructions@[i as int],
                ));
                assert(self.memory@.subrange(self.mem_len + i + 1, self.memory@.len() as int)
                    =~= before.subrange(self.mem_len + i + 1, self.memory@.len() as int));
                assert(before.subrange(self.mem_len + i + 1, self.memory@.len() as int) =~= old(
                    self,
                ).memory@.subrange(self.mem_len + i + 1, self.memory@.len() as int)) by {
                    assert forall|k: int| self.mem_len + i + 1 <= k < self.memory@.len() implies before[k]
                        == old(self).memory@[k] by {
                        assert(before.subrange(self.mem_len + i, self.memory@.len() as int)[k - (
                        self.mem_len + i)] == before[k]);
                    }
                }
            }
            i = i + 1;
        }
        let ghost placed = word@;
        proof {
            let m = self.mem_len as int;
            assert(self.memory@ =~= old(self).memory@.subrange(0, m) + instructions@.subrange(
                0,
                word.len as int,
            ) + old(self).memory@.subrange(m + word.len, self.memory@.len() as int)) by {
                assert forall|k: int| 0 <= k < self.memory@.len() implies self.memory@[k] == (old(
                    self,
                ).memory@.subrange(0, m) + instructions@.subrange(0, word.len as int) + old(
                    self,
                ).memory@.subrange(m + word.len, self.memory@.len() as int))[k] by {
                    if k < m {
                        assert(self.memory@.subrange(0, m)[k] == self.memory@[k]);
                    } else if k < m + word.len {
                        assert(self.memory@.subrange(m, m + word.len)[k - m] == self.memory@[k]);
                    } else {
                        assert(self.memory@.subrange(m + word.len, self.memory@.len() as int)[k - m
                            - word.len] == self.memory@[k]);
                    }
                }
            }
        }
        self.mem_len = self.mem_len + word.len;
        self.keys[self.len] = word;
        self.len = self.len + 1;
        proof {
            let goal = old(self)@.define(placed.name, placed.original, instructions@.subrange(0, placed.len as int));
            assert(self@.arena =~= goal.arena);
            assert(self@.words =~= goal.words);
        }
    }

    /// A well-formed dictionary holds no more than its storage can, and what
    /// it holds is well formed.
    pub proof fn lemma_wf(&self)
        requires
            self.wf(),
        ensures
            self@.wf(),
            self@.words.len() <= self.word_capacity(),
            self@.arena.len() <= self.arena_capacity(),
    {
    }

    /// What the dictionary holds is the used part of its storage: the views
    /// of the first slots and the first cells of the arena. The capacities
    /// are the sizes of the storage.
    pub proof fn lemma_storage(&self)
        requires
            self.wf(),
        ensures
            self.word_capacity() == self.slots().len(),
            self.arena_capacity() == self.cells().len(),
            self@.words.len() <= self.slots().len(),
            self@.arena.len() <= self.cells().len(),
            self@.arena == self.cells().subrange(0, self@.arena.len() as int),
            forall|i: int| 0 <= i < self@.words.len() ==> self@.words[i] == (#[trigger] self.slots()[i])@,
    {
    }

    /// Whether one more word with this many instructions can be inserted.
    pub fn has_room(&self, instructions: usize) -> (r: bool)
        requires
            self.wf(),
        ensures
            r == (self@.words.len() < self.word_capacity() && self@.arena.len() + instructions
                <= self.arena_capacity()),
    {
        self.len < self.keys.len() && instructions <= self.memory.len() - self.mem_len
    }

    /// How many words are defined.
    pub fn len(&self) -> (n: usize)
        ensures
            n == self@.words.len(),
    {
        self.len
    }

    /// How many cells of the arena are in use: the offset at which the next
    /// word will be placed.
    pub fn mem_len(&self) -> (n: usize)
        requires
            self.wf(),
        ensures
            n == self@.arena.len(),
    {
        self.mem_len
    }
}

} // verus!
