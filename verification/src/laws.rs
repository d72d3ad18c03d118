//! What compiling does to whole texts.
//!
//! `run` goes through a text position by position. The theorems here say what
//! that comes to for texts of a known shape, given by their tokens: a text
//! without control tokens, a single definition, a definition followed by a
//! use of the new word, and a definition that uses an earlier one.

use vstd::prelude::*;
use crate::dictionary::{lemma_define_appends, lemma_define_then_find, DictionaryView};
use crate::hash::djb2;
use crate::model::{
    is_colon, is_semicolon, resolve, run, step, CompileState, CompilerError, Outcome, Step,
    COMPILE_BUFFER_SIZE,
};
use crate::primitives::primitive_of;
use crate::tokens::{after_tokens, lemma_token_at, skip_spaces, token_at, tokens, tokens_from};

verus! {

/// `:` or `;`
pub open spec fn is_control(token: Seq<u8>) -> bool {
    is_colon(token) || is_semicolon(token)
}

/// The instructions that a sequence of tokens stands for when none of them is
/// a control token: the instructions of the first, then those of the second,
/// and so on. `None` if a token is a control token or stands for nothing.
pub open spec fn inline(dictionary: DictionaryView, body: Seq<Seq<u8>>) -> Option<Seq<u32>>
    decreases body.len(),
{
    if body.len() == 0 {
        Some(Seq::empty())
    } else if is_control(body[0]) {
        None
    } else {
        match (resolve(dictionary, body[0]), inline(dictionary, body.drop_first())) {
            (Some(first), Some(rest)) => Some(first + rest),
            _ => None,
        }
    }
}

/// A text without the whitespace before its first and behind its last token.
pub open spec fn trimmed(text: Seq<u8>) -> Seq<u8> {
    text.subrange(skip_spaces(text, 0), after_tokens(text, 0, tokens(text).len()))
}

/// The instructions of two sequences of tokens, one after the other, are
/// those of the first followed by those of the second.
pub proof fn lemma_inline_concat(dictionary: DictionaryView, a: Seq<Seq<u8>>, b: Seq<Seq<u8>>)
    ensures
        inline(dictionary, a + b) == match (inline(dictionary, a), inline(dictionary, b)) {
            (Some(x), Some(y)) => Some(x + y),
            _ => None,
        },
    decreases a.len(),
{
    if a.len() == 0 {
        assert(a + b =~= b);
        if let Some(y) = inline(dictionary, b) {
            assert(Seq::<u32>::empty() + y =~= y);
        }
    } else {
        assert((a + b)[0] == a[0]);
        assert((a + b).drop_first() =~= a.drop_first() + b);
        lemma_inline_concat(dictionary, a.drop_first(), b);
        if !is_control(a[0]) {
            if let (Some(first), Some(x), Some(y)) = (
                resolve(dictionary, a[0]),
                inline(dictionary, a.drop_first()),
                inline(dictionary, b),
            ) {
                assert(first + (x + y) =~= (first + x) + y);
            }
        }
    }
}

/// A single token that is no control token stands for what it resolves to.
pub proof fn lemma_inline_one(dictionary: DictionaryView, token: Seq<u8>)
    requires
        !is_control(token),
    ensures
        inline(dictionary, seq![token]) == resolve(dictionary, token),
{
    let body = seq![token];
    assert(body.drop_first() =~= Seq::<Seq<u8>>::empty());
    assert(inline(dictionary, body.drop_first()) == Some(Seq::<u32>::empty()));
    if let Some(first) = resolve(dictionary, token) {
        assert(first + Seq::<u32>::empty() =~= first);
    }
}

/// Passing `a` tokens and then `b` more is passing `a + b`.
pub proof fn lemma_after_tokens_add(text: Seq<u8>, i: int, a: nat, b: nat)
    ensures
        after_tokens(text, i, a + b) == after_tokens(text, after_tokens(text, i, a), b),
    decreases a,
{
    if a == 0 {
    } else {
        match token_at(text, i) {
            None => {
                lemma_after_tokens_none(text, i, b);
            },
            Some(span) => {
                lemma_after_tokens_add(text, span.end, (a - 1) as nat, b);
            },
        }
    }
}

proof fn lemma_after_tokens_none(text: Seq<u8>, i: int, count: nat)
    requires
        token_at(text, i) is None,
    ensures
        after_tokens(text, i, count) == i,
{
}

/// The first token and what follows it, when the tokens from `i` on are
/// known to begin with `first`.
proof fn lemma_first_token(text: Seq<u8>, i: int, first: Seq<u8>, rest: Seq<Seq<u8>>)
    requires
        0 <= i <= text.len(),
        tokens_from(text, i) == seq![first] + rest,
    ensures
        token_at(text, i) matches Some(span) && text.subrange(span.start, span.end) == first
            && tokens_from(text, span.end) == rest && i <= span.start < span.end <= text.len()
            && after_tokens(text, i, 1) == span.end,
{
    lemma_token_at(text, i);
    assert((seq![first] + rest).len() > 0);
    let span = token_at(text, i).unwrap();
    let found = seq![text.subrange(span.start, span.end)] + tokens_from(text, span.end);
    assert(found[0] == (seq![first] + rest)[0]);
    assert(found.drop_first() =~= tokens_from(text, span.end));
    assert((seq![first] + rest).drop_first() =~= rest);
    assert(after_tokens(text, i, 1) == span.end) by {
        reveal_with_fuel(after_tokens, 2);
    }
}

/// No token is left where the tokens from `i` on are none.
proof fn lemma_no_token(text: Seq<u8>, i: int)
    requires
        0 <= i <= text.len(),
        tokens_from(text, i).len() == 0,
    ensures
        token_at(text, i) is None,
{
    lemma_token_at(text, i);
    if let Some(span) = token_at(text, i) {
        assert((seq![text.subrange(span.start, span.end)] + tokens_from(text, span.end)).len() > 0);
    }
}

/// A stretch of tokens without control tokens has the effect of appending
/// its instructions: compiling from `i` on is compiling from behind the
/// stretch on, in the state that has the instructions appended.
pub proof fn lemma_straight_run(
    state: CompileState,
    text: Seq<u8>,
    i: int,
    body: Seq<Seq<u8>>,
    rest: Seq<Seq<u8>>,
    words: Seq<u32>,
    next: CompileState,
)
    requires
        0 <= i <= text.len(),
        tokens_from(text, i) == body + rest,
        inline(state.dictionary, body) == Some(words),
        state.append(words) == Ok::<CompileState, CompilerError>(next),
    ensures
        i <= after_tokens(text, i, body.len()) <= text.len(),
        tokens_from(text, after_tokens(text, i, body.len())) == rest,
        run(state, text, i) == run(next, text, after_tokens(text, i, body.len())),
    decreases body.len(),
{
    if body.len() == 0 {
        assert(body + rest =~= rest);
        assert(words =~= Seq::<u32>::empty());
        assert(state.staged + words =~= state.staged);
        assert(state.output + words =~= state.output);
        assert(next == state);
    } else {
        let first = body[0];
        let tail = body.drop_first();
        assert(body + rest =~= seq![first] + (tail + rest));
        lemma_first_token(text, i, first, tail + rest);
        let span = token_at(text, i).unwrap();
        let head = resolve(state.dictionary, first).unwrap();
        let more = inline(state.dictionary, tail).unwrap();
        assert(words == head + more);
        let middle = state.append(head).unwrap();
        assert(state.append(head) is Ok);
        assert(step(state, text, i) == Step::Advance(middle, span.end));
        assert(middle.append(more) == Ok::<CompileState, CompilerError>(next)) by {
            assert((state.staged + head) + more =~= state.staged + (head + more));
            assert((state.output + head) + more =~= state.output + (head + more));
        }
        lemma_straight_run(middle, text, span.end, tail, rest, more, next);
        assert(after_tokens(text, i, body.len()) == after_tokens(text, span.end, tail.len()));
    }
}

/// A text without control tokens compiles to the instructions of its tokens,
/// one after another, and leaves the dictionary as it was.
pub proof fn theorem_immediate_text(dictionary: DictionaryView, text: Seq<u8>, words: Seq<u32>)
    requires
        inline(dictionary, tokens(text)) == Some(words),
    ensures
        run(CompileState::start(dictionary), text, 0) == (Outcome {
            state: CompileState { output: words, ..CompileState::start(dictionary) },
            error: None,
        }),
{
    let begin = CompileState::start(dictionary);
    let next = CompileState { output: words, ..begin };
    let body = tokens(text);
    assert(body + Seq::<Seq<u8>>::empty() =~= body);
    assert(begin.output + words =~= words);
    lemma_straight_run(begin, text, 0, body, Seq::empty(), words, next);
    let end = after_tokens(text, 0, body.len());
    lemma_no_token(text, end);
    assert(step(next, text, end) == Step::Finish);
}

/// A text that is one definition, `: name body ;` with no control token in
/// the body, compiles to nothing and adds one word to the dictionary: `name`,
/// with the instructions of the body as its own and the text, without the
/// whitespace around it, as its source.
pub proof fn theorem_definition(
    dictionary: DictionaryView,
    text: Seq<u8>,
    name: Seq<u8>,
    body: Seq<Seq<u8>>,
    words: Seq<u32>,
)
    requires
        tokens(text) == seq![seq![0x3au8], name] + body + seq![seq![0x3bu8]],
        !is_control(name),
        inline(dictionary, body) == Some(words),
        words.len() <= COMPILE_BUFFER_SIZE,
    ensures
        run(CompileState::start(dictionary), text, 0) == (Outcome {
            state: CompileState {
                dictionary: dictionary.define(name, trimmed(text), words),
                defining: false,
                name,
                from: skip_spaces(text, 0),
                staged: words,
                output: Seq::empty(),
            },
            error: None,
        }),
{
    let begin = CompileState::start(dictionary);
    let colon = seq![0x3au8];
    let semicolon = seq![0x3bu8];
    let after_colon = seq![name] + body + seq![semicolon];
    assert(tokens(text) =~= seq![colon] + after_colon);
    lemma_first_token(text, 0, colon, after_colon);
    let c = token_at(text, 0).unwrap();
    assert(c.start == skip_spaces(text, 0));
    let after_name = body + seq![semicolon];
    assert(after_colon =~= seq![name] + after_name);
    lemma_first_token(text, c.end, name, after_name);
    let n = token_at(text, c.end).unwrap();
    let opened = begin.open(name, c.start);
    assert(step(begin, text, 0) == Step::Advance(opened, n.end));
    let staged = CompileState { staged: words, ..opened };
    assert(opened.staged + words =~= words);
    lemma_straight_run(opened, text, n.end, body, seq![semicolon], words, staged);
    let e = after_tokens(text, n.end, body.len());
    assert(seq![semicolon] =~= seq![semicolon] + Seq::<Seq<u8>>::empty());
    lemma_first_token(text, e, semicolon, Seq::empty());
    let s = token_at(text, e).unwrap();
    assert(colon[0] != semicolon[0]);
    assert(!is_colon(semicolon));
    let committed = staged.commit(text.subrange(c.start, s.end));
    assert(step(staged, text, e) == Step::Advance(committed, s.end));
    lemma_no_token(text, s.end);
    assert(step(committed, text, s.end) == Step::Finish);
    assert(run(staged, text, e) == run(committed, text, s.end));
    assert(after_tokens(text, 0, tokens(text).len()) == s.end) by {
        lemma_after_tokens_add(text, 0, 1, (body.len() + 2) as nat);
        lemma_after_tokens_add(text, c.end, 1, (body.len() + 1) as nat);
        lemma_after_tokens_add(text, n.end, body.len(), 1);
    }
}

/// Defining a word and then invoking it gives the instructions of its body:
/// the very instructions that the body compiles to on its own.
///
/// `definition` is `: name body ;`, `direct` is the body alone, and
/// `invocation` is the name alone. The name must reach the new word: it is no
/// primitive's keyword, and no older word has its hash.
pub proof fn theorem_round_trip(
    dictionary: DictionaryView,
    definition: Seq<u8>,
    direct: Seq<u8>,
    invocation: Seq<u8>,
    name: Seq<u8>,
    body: Seq<Seq<u8>>,
    words: Seq<u32>,
)
    requires
        dictionary.wf(),
        tokens(definition) == seq![seq![0x3au8], name] + body + seq![seq![0x3bu8]],
        tokens(direct) == body,
        tokens(invocation) == seq![name],
        !is_control(name),
        primitive_of(name) is None,
        dictionary.find(djb2(name)) is None,
        inline(dictionary, body) == Some(words),
        words.len() <= COMPILE_BUFFER_SIZE,
    ensures
        ({
            let defined = run(CompileState::start(dictionary), definition, 0);
            let invoked = run(CompileState::start(defined.state.dictionary), invocation, 0);
            let inlined = run(CompileState::start(dictionary), direct, 0);
            &&& defined.error is None
            &&& defined.state.output == Seq::<u32>::empty()
            &&& invoked.error is None
            &&& inlined.error is None
            &&& invoked.state.output == inlined.state.output
            &&& inlined.state.output == words
            &&& invoked.state.dictionary == defined.state.dictionary
        }),
{
    theorem_definition(dictionary, definition, name, body, words);
    theorem_immediate_text(dictionary, direct, words);
    let extended = dictionary.define(name, trimmed(definition), words);
    lemma_define_then_find(dictionary, name, trimmed(definition), words, djb2(name));
    lemma_inline_one(extended, name);
    theorem_immediate_text(extended, invocation, words);
}

/// A word that is used in a later definition is copied into it.
///
/// `first` is `: name body ;` and `second` is `: other before name after ;`.
/// After both, the arena has grown by the instructions of the first word and
/// then by those of the second, and the second holds the whole of the first
/// between what `before` and `after` stand for.
pub proof fn theorem_nested_definition(
    dictionary: DictionaryView,
    first: Seq<u8>,
    name: Seq<u8>,
    body: Seq<Seq<u8>>,
    words: Seq<u32>,
    second: Seq<u8>,
    other: Seq<u8>,
    before: Seq<Seq<u8>>,
    after: Seq<Seq<u8>>,
)
    requires
        dictionary.wf(),
        tokens(first) == seq![seq![0x3au8], name] + body + seq![seq![0x3bu8]],
        !is_control(name),
        primitive_of(name) is None,
        dictionary.find(djb2(name)) is None,
        inline(dictionary, body) == Some(words),
        tokens(second) == seq![seq![0x3au8], other] + (before + seq![name] + after) + seq![
            seq![0x3bu8],
        ],
        !is_control(other),
        inline(dictionary.define(name, trimmed(first), words), before) is Some,
        inline(dictionary.define(name, trimmed(first), words), after) is Some,
        words.len() + inline(dictionary.define(name, trimmed(first), words), before).unwrap().len()
            + inline(dictionary.define(name, trimmed(first), words), after).unwrap().len()
            <= COMPILE_BUFFER_SIZE,
    ensures
        ({
            let one = run(CompileState::start(dictionary), first, 0);
            let two = run(CompileState::start(one.state.dictionary), second, 0);
            let front = inline(one.state.dictionary, before).unwrap();
            let back = inline(one.state.dictionary, after).unwrap();
            let new = dictionary.words.len() as int;
            &&& one.error is None
            &&& two.error is None
            &&& one.state.dictionary == dictionary.define(name, trimmed(first), words)
            &&& two.state.dictionary == one.state.dictionary.define(
                other,
                trimmed(second),
                front + words + back,
            )
            &&& two.state.dictionary.wf()
            &&& two.state.dictionary.words.len() == new + 2
            &&& two.state.dictionary.body(new) == words
            &&& two.state.dictionary.body(new + 1) == front + words + back
            &&& two.state.dictionary.arena == dictionary.arena + words + (front + words + back)
            &&& two.state.dictionary.arena.len() == dictionary.arena.len() + words.len() + (front.len()
                + words.len() + back.len())
        }),
{
    theorem_definition(dictionary, first, name, body, words);
    let extended = dictionary.define(name, trimmed(first), words);
    lemma_define_appends(dictionary, name, trimmed(first), words);
    lemma_define_then_find(dictionary, name, trimmed(first), words, djb2(name));
    let front = inline(extended, before).unwrap();
    let back = inline(extended, after).unwrap();
    lemma_inline_one(extended, name);
    lemma_inline_concat(extended, before, seq![name]);
    lemma_inline_concat(extended, before + seq![name], after);
    let copied = front + words + back;
    theorem_definition(extended, second, other, before + seq![name] + after, copied);
    lemma_define_appends(extended, other, trimmed(second), copied);
}

/// A `:` at the end of the text is malformed. The tokens before it, none of
/// them a control token, are compiled, and the dictionary stays as it was.
pub proof fn theorem_missing_name(dictionary: DictionaryView, text: Seq<u8>, body: Seq<Seq<u8>>, words: Seq<u32>)
    requires
        tokens(text) == body + seq![seq![0x3au8]],
        inline(dictionary, body) == Some(words),
    ensures
        run(CompileState::start(dictionary), text, 0) == (Outcome {
            state: CompileState { output: words, ..CompileState::start(dictionary) },
            error: Some(CompilerError::MalformedCompilation),
        }),
{
    let begin = CompileState::start(dictionary);
    let next = CompileState { output: words, ..begin };
    let colon = seq![0x3au8];
    assert(begin.output + words =~= words);
    lemma_straight_run(begin, text, 0, body, seq![colon], words, next);
    let at = after_tokens(text, 0, body.len());
    assert(seq![colon] =~= seq![colon] + Seq::<Seq<u8>>::empty());
    lemma_first_token(text, at, colon, Seq::empty());
    let c = token_at(text, at).unwrap();
    lemma_no_token(text, c.end);
    assert(step(next, text, at) == Step::Fail(CompilerError::MalformedCompilation));
}

/// A token that is no control token and stands for nothing is not
/// recognised. The tokens before it are compiled, those behind it are not
/// looked at, and the dictionary stays as it was.
pub proof fn theorem_unrecognized(
    dictionary: DictionaryView,
    text: Seq<u8>,
    body: Seq<Seq<u8>>,
    token: Seq<u8>,
    rest: Seq<Seq<u8>>,
    words: Seq<u32>,
)
    requires
        tokens(text) == body + (seq![token] + rest),
        inline(dictionary, body) == Some(words),
        !is_control(token),
        resolve(dictionary, token) is None,
    ensures
        run(CompileState::start(dictionary), text, 0) == (Outcome {
            state: CompileState { output: words, ..CompileState::start(dictionary) },
            error: Some(CompilerError::UnrecognizedToken),
        }),
{
    let begin = CompileState::start(dictionary);
    let next = CompileState { output: words, ..begin };
    assert(begin.output + words =~= words);
    lemma_straight_run(begin, text, 0, body, seq![token] + rest, words, next);
    let at = after_tokens(text, 0, body.len());
    lemma_first_token(text, at, token, rest);
    assert(step(next, text, at) == Step::Fail(CompilerError::UnrecognizedToken));
}

/// A definition is out of bounds as soon as a token would take it beyond the
/// staging buffer. Nothing is written and the dictionary stays as it was.
pub proof fn theorem_out_of_bounds(
    dictionary: DictionaryView,
    text: Seq<u8>,
    name: Seq<u8>,
    body: Seq<Seq<u8>>,
    token: Seq<u8>,
    rest: Seq<Seq<u8>>,
    words: Seq<u32>,
)
    requires
        tokens(text) == seq![seq![0x3au8], name] + body + (seq![token] + rest),
        !is_control(name),
        inline(dictionary, body) == Some(words),
        words.len() <= COMPILE_BUFFER_SIZE,
        !is_control(token),
        resolve(dictionary, token) matches Some(more) && words.len() + more.len()
            > COMPILE_BUFFER_SIZE,
    ensures
        ({
            let end = run(CompileState::start(dictionary), text, 0);
            &&& end.error == Some(CompilerError::WordOutOfBounds)
            &&& end.state.dictionary == dictionary
            &&& end.state.output == Seq::<u32>::empty()
        }),
{
    let begin = CompileState::start(dictionary);
    let colon = seq![0x3au8];
    let after_colon = seq![name] + body + (seq![token] + rest);
    assert(tokens(text) =~= seq![colon] + after_colon);
    lemma_first_token(text, 0, colon, after_colon);
    let c = token_at(text, 0).unwrap();
    let after_name = body + (seq![token] + rest);
    assert(after_colon =~= seq![name] + after_name);
    lemma_first_token(text, c.end, name, after_name);
    let n = token_at(text, c.end).unwrap();
    let opened = begin.open(name, c.start);
    assert(step(begin, text, 0) == Step::Advance(opened, n.end));
    let staged = CompileState { staged: words, ..opened };
    assert(opened.staged + words =~= words);
    lemma_straight_run(opened, text, n.end, body, seq![token] + rest, words, staged);
    let at = after_tokens(text, n.end, body.len());
    lemma_first_token(text, at, token, rest);
    assert(step(staged, text, at) == Step::Fail(CompilerError::WordOutOfBounds));
}

} // verus!
