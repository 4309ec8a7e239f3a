//! Laws of the machine: what holds of every state, proved from the
//! transitions.

use vstd::prelude::*;
use crate::semantics::{
    frames_cost, lemma_do_word, lemma_step, resolve, tokens_of, Awaiting, Effect, Frame, State,
};
use crate::number::is_number;
use crate::text::{
    ascii_lowercase, is_ascii, law_split_joins, law_trailing_white_space, lowercase, trim_end,
    white_space,
};
use crate::value::{greater_of, is_zero, lesser_of, Value};
use crate::word::{builtin, BinaryOp, Error, Parsed, UnaryOp, Word};

verus! {

/// The arithmetic on two values that a word stands for, if it stands for
/// one.
pub open spec fn operation(word: Word) -> Option<BinaryOp> {
    match word {
        Word::Add => Some(BinaryOp::Add),
        Word::Subtract => Some(BinaryOp::Subtract),
        Word::Multiply => Some(BinaryOp::Multiply),
        Word::Divide => Some(BinaryOp::Divide),
        Word::Modulo => Some(BinaryOp::Modulo),
        Word::Pow => Some(BinaryOp::Pow),
        _ => None,
    }
}

/// The value pushed last is the right operand. After `a` and then `b` are
/// pushed, a word of binary arithmetic takes both off again and asks for
/// the operation on `a` as the left and `b` as the right operand. For the
/// division, `b` is not zero.
pub proof fn law_right_operand_is_top(s: State, a: Value, b: Value, word: Word)
    requires
        operation(word) is Some,
        word is Divide ==> !is_zero(b),
    ensures
        s.push(a).0.push(b).0.do_word(word) == (
            State { awaiting: Awaiting::Stack, ..s },
            Some(Effect::Binary(operation(word)->0, a, b)),
        ),
{
    let pushed = s.stack.push(a).push(b);
    assert(pushed.take(pushed.len() - 2) =~= s.stack);
}

/// The answer to a word of arithmetic takes the place of its operands:
/// once the caller supplies the result that was asked for, it is on top of
/// what was below the operands, and nothing else has changed. This holds
/// of every state.
pub proof fn law_answer_is_pushed(s: State, a: Value, b: Value, word: Word, answer: Value)
    requires
        operation(word) is Some,
        word is Divide ==> !is_zero(b),
    ensures
        s.push(a).0.push(b).0.do_word(word).0.receive(Some(answer)) == (
            State { awaiting: Awaiting::Nothing, ..s.with_stack(s.stack.push(answer)) },
            None::<Effect>,
        ),
{
    law_right_operand_is_top(s, a, b, word);
}

/// The arithmetic on one value that a word stands for, if it stands for
/// one.
pub open spec fn unary_operation(word: Word) -> Option<UnaryOp> {
    match word {
        Word::Abs => Some(UnaryOp::Abs),
        Word::Round => Some(UnaryOp::Round),
        Word::Sqrt => Some(UnaryOp::Sqrt),
        Word::Cbrt => Some(UnaryOp::Cbrt),
        Word::LogN => Some(UnaryOp::LogN),
        Word::Log => Some(UnaryOp::Log),
        Word::Sin => Some(UnaryOp::Sin),
        Word::Asin => Some(UnaryOp::Asin),
        Word::Sinh => Some(UnaryOp::Sinh),
        Word::Cos => Some(UnaryOp::Cos),
        Word::Acos => Some(UnaryOp::Acos),
        Word::Cosh => Some(UnaryOp::Cosh),
        Word::Tan => Some(UnaryOp::Tan),
        Word::Atan => Some(UnaryOp::Atan),
        Word::Tanh => Some(UnaryOp::Tanh),
        _ => None,
    }
}

/// A word of arithmetic on one value takes the top value off and asks for
/// the operation on it, and the answer takes its place. This holds of
/// every state.
pub proof fn law_unary_answer(s: State, a: Value, word: Word, answer: Value)
    requires
        unary_operation(word) is Some,
    ensures
        s.push(a).0.do_word(word) == (
            State { awaiting: Awaiting::Stack, ..s },
            Some(Effect::Unary(unary_operation(word)->0, a)),
        ),
        s.push(a).0.do_word(word).0.receive(Some(answer)) == (
            State { awaiting: Awaiting::Nothing, ..s.with_stack(s.stack.push(answer)) },
            None::<Effect>,
        ),
{
    let pushed = s.stack.push(a);
    assert(pushed.take(pushed.len() - 1) =~= s.stack);
}

/// A division by zero is an error, and both operands are gone: after `a`
/// and a zero are pushed, the word of the division gives the line up and
/// leaves the stack as it was before the two.
pub proof fn law_division_by_zero(s: State, a: Value, zero: Value)
    requires
        is_zero(zero),
    ensures
        s.push(a).0.push(zero).0.do_word(Word::Divide) == s.fail(Error::DivisionByZero),
{
    let pushed = s.stack.push(a).push(zero);
    assert(pushed.take(pushed.len() - 2) =~= s.stack);
}

/// A word of binary arithmetic on fewer than two values is an error, and
/// the value that was there is gone.
pub proof fn law_underflow(s: State, word: Word)
    requires
        operation(word) is Some,
        s.stack.len() < 2,
    ensures
        s.do_word(word) == s.with_stack(Seq::empty()).fail(Error::StackUnderflow),
{
}

/// A word that fails has pushed nothing: what it leaves of the stack is
/// there from before, and what it took off before it failed is gone.
pub proof fn law_failure_pushes_nothing(s: State, word: Word)
    ensures
        s.do_word(word).1 is Some && s.do_word(word).1->0 is Failed ==> {
            &&& s.do_word(word).0.stack.len() <= s.stack.len()
            &&& s.do_word(word).0.stack == s.stack.take(s.do_word(word).0.stack.len() as int)
        },
{
    let after = s.do_word(word).0.stack;
    if s.do_word(word).1 is Some && s.do_word(word).1->0 is Failed {
        assert(after.len() <= s.stack.len());
        assert(after =~= s.stack.take(after.len() as int));
    }
}

/// The word `floor` keeps the greater and the word `ceil` the lesser of
/// the two upper values; neither rounds.
pub proof fn law_floor_and_ceil_select(s: State, a: Value, b: Value)
    ensures
        s.push(a).0.push(b).0.do_word(Word::Floor) == s.push(greater_of(b, a)),
        s.push(a).0.push(b).0.do_word(Word::Ceil) == s.push(lesser_of(b, a)),
{
    let pushed = s.stack.push(a).push(b);
    assert(pushed.take(pushed.len() - 2) =~= s.stack);
}

/// The word `dup` pushes the top value once more.
pub proof fn law_dup(s: State, a: Value)
    ensures
        s.push(a).0.do_word(Word::Duplicate) == s.push(a).0.push(a),
{
}

/// The word `swap` exchanges the two upper values.
pub proof fn law_swap(s: State, a: Value, b: Value)
    ensures
        s.push(a).0.push(b).0.do_word(Word::Swap) == s.push(b).0.push(a),
{
    let pushed = s.stack.push(a).push(b);
    assert(pushed.take(pushed.len() - 2) =~= s.stack);
}

/// The word `over` pushes the value below the top.
pub proof fn law_over(s: State, a: Value, b: Value)
    ensures
        s.push(a).0.push(b).0.do_word(Word::Over) == s.push(a).0.push(b).0.push(a),
{
}

/// The word `sum` on an empty stack is an error, and on a single value it
/// changes nothing.
pub proof fn law_sum_of_little(s: State)
    requires
        s.stack.len() <= 1,
    ensures
        s.stack.len() == 0 ==> s.do_word(Word::Sum) == s.fail(Error::StackUnderflow),
        s.stack.len() == 1 ==> s.do_word(Word::Sum) == (s, None::<Effect>),
{
}

/// The word `sum` adds from the top down: it asks for the sum of the two
/// upper values, then for the sum of each answer and the next value below,
/// and the last answer is the only value left.
pub proof fn law_sum_folds(s: State, below: Value, top: Value, answer: Value)
    ensures
        s.push(below).0.push(top).0.do_word(Word::Sum).1 == Some(
            Effect::Binary(BinaryOp::Add, top, below),
        ),
        s.stack.len() > 0 ==> s.push(below).0.push(top).0.do_word(Word::Sum).0.receive(
            Some(answer),
        ).1 == Some(Effect::Binary(BinaryOp::Add, answer, s.stack.last())),
        s.stack.len() == 0 ==> s.push(below).0.push(top).0.do_word(Word::Sum).0.receive(
            Some(answer),
        ) == (
            State { awaiting: Awaiting::Nothing, ..s.with_stack(seq![answer]) },
            None::<Effect>,
        ),
{
    let pushed = s.stack.push(below).push(top);
    assert(pushed.take(pushed.len() - 2) =~= s.stack);
}

/// Letter case does not count: two tokens that are the same but for the
/// case of their ASCII letters resolve to the same.
pub proof fn law_case_insensitive(names: Map<Seq<char>, usize>, a: Seq<char>, b: Seq<char>)
    requires
        ascii_lowercase(a) == ascii_lowercase(b),
    ensures
        resolve(names, a) == resolve(names, b),
{
}

/// A token of ASCII characters and the same token in small letters, by
/// the rules of Unicode, resolve to the same. A token resolves by the
/// small forms of its ASCII letters alone, so this does not hold of a
/// token with a capital letter beyond ASCII.
pub proof fn law_lowercase_resolves_alike(names: Map<Seq<char>, usize>, token: Seq<char>)
    requires
        is_ascii(token),
    ensures
        resolve(names, lowercase(token)) == resolve(names, token),
{
    assert(ascii_lowercase(ascii_lowercase(token)) =~= ascii_lowercase(token));
}

/// A definition comes before a built-in word: a token whose small letters
/// are a defined name resolves to that definition, whatever else the
/// token could be.
pub proof fn law_definition_first(names: Map<Seq<char>, usize>, token: Seq<char>)
    requires
        names.contains_key(ascii_lowercase(token)),
    ensures
        resolve(names, token) == Ok::<Parsed, Error>(
            Parsed::Word(Word::Definition(names[ascii_lowercase(token)])),
        ),
{
}

/// Once a definition is closed its name resolves to it, whether or not the
/// name is that of a built-in word, and in whatever case its ASCII letters
/// are written. The name is one of ASCII characters.
pub proof fn law_shadowing(s: State, token: Seq<char>)
    requires
        is_ascii(s.name),
        ascii_lowercase(token) == ascii_lowercase(s.name),
    ensures
        resolve(s.define().names, token) == Ok::<Parsed, Error>(
            Parsed::Word(Word::Definition(s.bodies.len() as usize)),
        ),
        s.define().bodies.last() == s.working,
{
}

/// A number is no name: where the token behind the opening `:` is a
/// number, or the line ends there, the line is given up and nothing is
/// defined.
pub proof fn law_name_is_no_number(s: State)
    requires
        !s.has_token() || is_number(s.token()),
    ensures
        s.open_definition() == s.fail(Error::InvalidWord),
        s.open_definition().0.names == s.names,
        s.open_definition().0.bodies == s.bodies,
{
}

/// A definition closes on its line: where the line ends while a
/// definition is recorded, the line is given up and nothing is defined.
pub proof fn law_definition_must_close(s: State)
    requires
        s.recording,
        s.frames.len() == 0,
        !s.has_token(),
    ensures
        s.step() == s.fail(Error::InvalidWord),
        s.step().0.names == s.names,
        s.step().0.bodies == s.bodies,
{
}

/// A token that is no defined name, no built-in word and no number is
/// unknown.
pub proof fn law_unknown_word(names: Map<Seq<char>, usize>, token: Seq<char>)
    ensures
        resolve(names, token) == Err::<Parsed, Error>(Error::UnknownWord) <==> {
            &&& !names.contains_key(ascii_lowercase(token))
            &&& builtin(ascii_lowercase(token)) is None
            &&& !is_number(ascii_lowercase(token))
        },
{
}

/// The words that the tokens from `from` up to `to` resolve to.
pub open spec fn words_of(
    names: Map<Seq<char>, usize>,
    tokens: Seq<Seq<char>>,
    from: int,
    to: int,
) -> Seq<Word> {
    Seq::new(
        (to - from) as nat,
        |i: int|
            match resolve(names, tokens[from + i]) {
                Ok(Parsed::Word(word)) => word,
                _ => Word::EndOfLine,
            },
    )
}

/// Whether a token resolves to a word that may stand in a body: to a word,
/// and to neither of the two that open and close a definition.
pub open spec fn is_body_word(names: Map<Seq<char>, usize>, token: Seq<char>) -> bool {
    resolve(names, token) matches Ok(Parsed::Word(word)) && word != Word::DefineStart && word
        != Word::DefineEnd
}

/// Whether each token from `from` up to `to` resolves to a word that may
/// stand in a body.
pub open spec fn body_tokens(
    names: Map<Seq<char>, usize>,
    tokens: Seq<Seq<char>>,
    from: int,
    to: int,
) -> bool {
    forall|i: int| from <= i < to ==> is_body_word(names, #[trigger] tokens[i])
}

/// Where a body that begins at `from` ends: the place of the first token
/// from there on that is no word of a body, be it the closing `;`, a `:`,
/// a number or an unknown token; the end of the line where there is no
/// such token.
pub open spec fn body_end(names: Map<Seq<char>, usize>, tokens: Seq<Seq<char>>, from: int) -> int
    decreases tokens.len() - from,
{
    if 0 <= from < tokens.len() && is_body_word(names, tokens[from]) {
        body_end(names, tokens, from + 1)
    } else {
        from
    }
}

/// A body ends behind words of a body and before what is none.
pub proof fn lemma_body_end(names: Map<Seq<char>, usize>, tokens: Seq<Seq<char>>, from: int)
    ensures
        from <= body_end(names, tokens, from),
        from <= tokens.len() ==> body_end(names, tokens, from) <= tokens.len(),
        body_tokens(names, tokens, from, body_end(names, tokens, from)),
        0 <= body_end(names, tokens, from) < tokens.len() ==> !is_body_word(
            names,
            tokens[body_end(names, tokens, from)],
        ),
    decreases tokens.len() - from,
{
    if 0 <= from < tokens.len() && is_body_word(names, tokens[from]) {
        lemma_body_end(names, tokens, from + 1);
    }
}

/// A body ends at the one place that stands behind words of a body and
/// before what is none.
pub proof fn lemma_body_end_is(
    names: Map<Seq<char>, usize>,
    tokens: Seq<Seq<char>>,
    from: int,
    end: int,
)
    requires
        0 <= from <= end <= tokens.len(),
        body_tokens(names, tokens, from, end),
        !(end < tokens.len() && is_body_word(names, tokens[end])),
    ensures
        body_end(names, tokens, from) == end,
    decreases end - from,
{
    if from < end {
        assert(is_body_word(names, tokens[from]));
        lemma_body_end_is(names, tokens, from + 1, end);
    }
}

/// The state of a recording that has taken every word of the body in: it
/// stands at the end of the body, and the words are recorded behind those
/// recorded before.
pub open spec fn recorded(s: State) -> State {
    let end = body_end(s.names, s.tokens, s.cursor);
    State {
        cursor: end,
        working: s.working + words_of(s.names, s.tokens, s.cursor, end),
        ..s
    }
}

/// A definition takes its body from the line. While it is recorded, the
/// tokens up to the end of the body are resolved against the table as it
/// stands and recorded as they are resolved; what the machine does next is
/// what a recording does with the token at the end of the body.
pub proof fn law_recording(s: State)
    requires
        s.recording,
        s.frames.len() == 0,
    ensures
        s.run() == match recorded(s).step_recording() {
            (next, Some(effect)) => (next, effect),
            (next, None) => next.run(),
        },
    decreases s.tokens.len() - s.cursor,
{
    let end = body_end(s.names, s.tokens, s.cursor);
    if s.has_token() && is_body_word(s.names, s.token()) {
        let t = s.step().0;
        lemma_body_end(s.names, s.tokens, s.cursor + 1);
        law_recording(t);
        assert(t.working + words_of(t.names, t.tokens, t.cursor, end) =~= s.working + words_of(
            s.names,
            s.tokens,
            s.cursor,
            end,
        ));
        assert(recorded(t) == recorded(s));
    } else {
        assert(s.working + words_of(s.names, s.tokens, s.cursor, end) =~= s.working);
        assert(recorded(s) == s);
    }
}

/// A definition that is recorded alone. The machine runs up to the end of
/// the body and stops there. Where the body ends in the closing `;` the
/// line is done for now: the body is stored behind the other bodies, the
/// name in small letters is bound to it, and the tokens behind the `;`
/// are unread. Where it ends in a number, the value of the number is
/// asked for and the recording stands. In every other case the line is
/// given up: as invalid where the line ends or a `:` stands there, as
/// unknown where the token is unknown. The stack is not touched, and
/// unless the line is done nothing is defined.
pub proof fn law_recorded_alone(s: State)
    requires
        s.recording,
        s.stopping,
        s.frames.len() == 0,
        0 <= s.cursor,
    ensures
        s.run().0.stack == s.stack,
        s.run().1 is Done || s.run().1 is Failed || s.run().1 is Literal,
        s.run().1 is Done ==> ({
            let end = body_end(s.names, s.tokens, s.cursor);
            &&& s.cursor <= end < s.tokens.len()
            &&& resolve(s.names, s.tokens[end]) == Ok::<Parsed, Error>(
                Parsed::Word(Word::DefineEnd),
            )
            &&& s.run().0 == (State { cursor: end + 1, ..recorded(s) }).define()
        }),
        s.run().1 is Literal ==> ({
            let end = body_end(s.names, s.tokens, s.cursor);
            &&& s.cursor <= end < s.tokens.len()
            &&& s.run().1 == Effect::Literal(ascii_lowercase(s.tokens[end]))
            &&& s.run().0 == (State {
                cursor: end + 1,
                awaiting: Awaiting::Body,
                ..recorded(s)
            })
        }),
        s.run().1 is Failed ==> s.run().0 == s.halted(),
        s.run().1 == Effect::Failed(Error::InvalidWord) <==> ({
            let end = body_end(s.names, s.tokens, s.cursor);
            ||| end >= s.tokens.len()
            ||| resolve(s.names, s.tokens[end]) == Ok::<Parsed, Error>(
                Parsed::Word(Word::DefineStart),
            )
        }),
{
    law_recording(s);
    lemma_body_end(s.names, s.tokens, s.cursor);
}

/// The same when the machine goes on with a definition that is recorded
/// alone, after it has asked for the value of a number in the body or for
/// nothing: the value goes into the body, and the recording runs on as
/// above. Where a value was asked for and none comes, the line is given
/// up. The stack is not touched, and unless the line is done nothing is
/// defined.
pub proof fn law_definition_alone(s: State, reply: Option<Value>)
    requires
        s.recording,
        s.stopping,
        s.frames.len() == 0,
        0 <= s.cursor,
        s.awaiting is Nothing || s.awaiting is Body,
    ensures
        s.resume(reply).0.stack == s.stack,
        s.resume(reply).1 is Done || s.resume(reply).1 is Failed || s.resume(reply).1 is Literal,
        s.resume(reply).1 is Done ==> ({
            let t = s.resume(reply).0;
            &&& t.names == s.names.insert(lowercase(s.name), s.bodies.len() as usize)
            &&& t.bodies == s.bodies.push(t.bodies.last())
            &&& t.bodies.last() == s.receive(reply).0.working + words_of(
                s.names,
                s.tokens,
                s.cursor,
                t.cursor - 1,
            )
            &&& t.tokens == s.tokens
            &&& t.cursor - 1 == body_end(s.names, s.tokens, s.cursor)
            &&& !t.recording
            &&& !t.stopping
        }),
        !(s.resume(reply).1 is Done) ==> s.resume(reply).0.names == s.names && s.resume(
            reply,
        ).0.bodies == s.bodies,
        s.resume(reply).1 is Literal ==> ({
            let t = s.resume(reply).0;
            &&& t.recording
            &&& t.stopping
            &&& t.frames.len() == 0
            &&& t.awaiting is Body
            &&& t.name == s.name
            &&& t.tokens == s.tokens
            &&& t.cursor > s.cursor
        }),
        s.resume(reply).1 is Failed ==> s.resume(reply).0 == s.halted(),
        s.resume(reply).1 == Effect::Failed(Error::InvalidWord) <==> (s.awaiting is Nothing
            || reply is Some) && ({
            let end = body_end(s.names, s.tokens, s.cursor);
            ||| end >= s.tokens.len()
            ||| resolve(s.names, s.tokens[end]) == Ok::<Parsed, Error>(
                Parsed::Word(Word::DefineStart),
            )
        }),
{
    if s.receive(reply).1 is None {
        let got = s.receive(reply).0;
        law_recorded_alone(got);
        lemma_body_end(s.names, s.tokens, s.cursor);
    }
}

/// A definition from a line of its own: the name, the body and the
/// closing `;`. The machine stops at the `;` and leaves what follows
/// unread. Where the line is done, the body is what the tokens between
/// the name and the `;` resolve to, against the table as it stood; it is
/// stored behind the other bodies, and the name in small letters is bound
/// to it. The line is given up as invalid in three cases and in no other:
/// the name is a number, a `:` stands before the `;`, or the line ends
/// before the `;`. The stack is not touched, and unless the line is done
/// nothing is defined.
pub proof fn law_do_define(s: State, line: Seq<char>)
    ensures
        tokens_of(line).len() >= 1,
        s.do_define(line).0.stack == s.stack,
        s.do_define(line).1 is Done || s.do_define(line).1 is Failed || s.do_define(line).1
            is Literal,
        s.do_define(line).1 is Done ==> ({
            let tokens = tokens_of(line);
            let end = body_end(s.names, tokens, 1);
            let t = s.do_define(line).0;
            &&& 1 <= end < tokens.len()
            &&& resolve(s.names, tokens[end]) == Ok::<Parsed, Error>(
                Parsed::Word(Word::DefineEnd),
            )
            &&& t.names == s.names.insert(lowercase(tokens[0]), s.bodies.len() as usize)
            &&& t.bodies == s.bodies.push(words_of(s.names, tokens, 1, end))
            &&& t.tokens == tokens
            &&& t.cursor == end + 1
            &&& !t.recording
            &&& !t.stopping
        }),
        !(s.do_define(line).1 is Done) ==> s.do_define(line).0.names == s.names && s.do_define(
            line,
        ).0.bodies == s.bodies,
        s.do_define(line).1 is Literal ==> ({
            let t = s.do_define(line).0;
            &&& t.recording
            &&& t.stopping
            &&& t.frames.len() == 0
            &&& t.awaiting is Body
            &&& t.name == tokens_of(line)[0]
            &&& t.cursor >= 1
        }),
        s.do_define(line).1 == Effect::Failed(Error::InvalidWord) <==> ({
            let tokens = tokens_of(line);
            let end = body_end(s.names, tokens, 1);
            ||| is_number(tokens[0])
            ||| end >= tokens.len()
            ||| resolve(s.names, tokens[end]) == Ok::<Parsed, Error>(
                Parsed::Word(Word::DefineStart),
            )
        }),
{
    let tokens = tokens_of(line);
    law_split_joins(trim_end(line));
    let begun = State { stopping: true, ..s.begin(tokens) };
    if !is_number(tokens[0]) {
        let opened = begun.open_definition().0;
        law_recorded_alone(opened);
        lemma_body_end(s.names, tokens, 1);
        let end = body_end(s.names, tokens, 1);
        assert(opened.working + words_of(s.names, tokens, 1, end) =~= words_of(
            s.names,
            tokens,
            1,
            end,
        ));
    }
}

/// A whole definition on a line that is evaluated: the opening `:`, a
/// name that is no number, words, and the closing `;` at `end`. The line
/// stores the words as a new body under the name in small letters and
/// goes on behind the `;`; the stack is not touched.
pub proof fn law_definition(s: State, end: int)
    requires
        !s.recording,
        !s.stopping,
        s.frames.len() == 0,
        0 <= s.cursor,
        s.cursor + 2 <= end < s.tokens.len(),
        resolve(s.names, s.tokens[s.cursor]) == Ok::<Parsed, Error>(
            Parsed::Word(Word::DefineStart),
        ),
        !is_number(s.tokens[s.cursor + 1]),
        body_tokens(s.names, s.tokens, s.cursor + 2, end),
        resolve(s.names, s.tokens[end]) == Ok::<Parsed, Error>(Parsed::Word(Word::DefineEnd)),
    ensures
        s.run() == (State {
            cursor: end + 1,
            names: s.names.insert(lowercase(s.tokens[s.cursor + 1]), s.bodies.len() as usize),
            bodies: s.bodies.push(words_of(s.names, s.tokens, s.cursor + 2, end)),
            name: Seq::empty(),
            working: Seq::empty(),
            ..s
        }).run(),
{
    let opened = s.step().0;
    law_recording(opened);
    lemma_body_end_is(s.names, s.tokens, s.cursor + 2, end);
    assert(opened.working + words_of(s.names, s.tokens, s.cursor + 2, end) =~= words_of(
        s.names,
        s.tokens,
        s.cursor + 2,
        end,
    ));
}

/// What words do one after the other, up to the first that has an effect.
pub open spec fn sequence(s: State, words: Seq<Word>) -> (State, Option<Effect>)
    decreases words.len(),
{
    if words.len() == 0 {
        (s, None)
    } else {
        let (next, effect) = s.do_word(words[0]);
        match effect {
            None => sequence(next, words.skip(1)),
            Some(_) => (next, effect),
        }
    }
}

/// Whether no word among these replays a definition.
pub open spec fn flat(words: Seq<Word>) -> bool {
    forall|i: int| 0 <= i < words.len() ==> !(#[trigger] words[i] is Definition)
}

/// The state with one more replay under way, of `body` from the word at
/// `next` on.
pub open spec fn replaying(s: State, body: int, next: int) -> State {
    State { frames: s.frames.push(Frame { body, next }), ..s }
}

/// A word that replays no definition does during a replay what it does
/// outside of one.
pub proof fn lemma_do_word_in_replay(s: State, body: int, next: int, word: Word)
    requires
        !(word is Definition),
    ensures
        s.do_word(word).1 is None ==> replaying(s, body, next).do_word(word) == (
            replaying(s.do_word(word).0, body, next),
            None::<Effect>,
        ),
        s.do_word(word).1 matches Some(effect) ==> (ends(effect) ==> replaying(
            s,
            body,
            next,
        ).do_word(word) == s.do_word(word)),
{
}

/// The words that a replay of `bodies[body]` from the word at `from` on
/// comes to: each word of the body, with what its own replay comes to in
/// the place of every word that replays a definition.
pub open spec fn unfolded(bodies: Seq<Seq<Word>>, body: int, from: int) -> Seq<Word>
    decreases body, bodies[body].len() - from,
{
    if 0 <= body < bodies.len() && 0 <= from < bodies[body].len() {
        let rest = unfolded(bodies, body, from + 1);
        match bodies[body][from] {
            Word::Definition(inner) => if inner < body {
                unfolded(bodies, inner as int, 0) + rest
            } else {
                seq![bodies[body][from]] + rest
            },
            word => seq![word] + rest,
        }
    } else {
        Seq::empty()
    }
}

/// What a replay comes to holds no word that replays a definition.
pub proof fn lemma_unfolded_flat(s: State, body: int, from: int)
    requires
        s.wf(),
    ensures
        flat(unfolded(s.bodies, body, from)),
    decreases body, s.bodies[body].len() - from,
{
    if 0 <= body < s.bodies.len() && 0 <= from < s.bodies[body].len() {
        lemma_unfolded_flat(s, body, from + 1);
        if let Word::Definition(inner) = s.bodies[body][from] {
            lemma_unfolded_flat(s, inner as int, 0);
        }
    }
}

/// Words one after the other, in two parts: the second part goes on where
/// the first has no effect.
pub proof fn lemma_sequence_append(s: State, first: Seq<Word>, second: Seq<Word>)
    ensures
        sequence(s, first + second) == if sequence(s, first).1 is None {
            sequence(sequence(s, first).0, second)
        } else {
            sequence(s, first)
        },
    decreases first.len(),
{
    if first.len() == 0 {
        assert(first + second =~= second);
    } else {
        assert((first + second)[0] == first[0]);
        assert((first + second).skip(1) =~= first.skip(1) + second);
        if s.do_word(first[0]).1 is None {
            lemma_sequence_append(s.do_word(first[0]).0, first.skip(1), second);
        }
    }
}

/// Words that replay no definition and have no effect keep a state well
/// formed and leave the bodies and the replays under way as they are.
pub proof fn lemma_sequence_keeps(s: State, words: Seq<Word>)
    requires
        s.wf(),
        flat(words),
        sequence(s, words).1 is None,
    ensures
        sequence(s, words).0.wf(),
        sequence(s, words).0.bodies == s.bodies,
        sequence(s, words).0.frames == s.frames,
    decreases words.len(),
{
    if words.len() > 0 {
        lemma_do_word(s, words[0]);
        assert(flat(words.skip(1))) by {
            assert forall|i: int| 0 <= i < words.skip(1).len() implies !(
            #[trigger] words.skip(1)[i] is Definition) by {
                assert(words.skip(1)[i] == words[i + 1]);
            }
        }
        lemma_sequence_keeps(s.do_word(words[0]).0, words.skip(1));
    }
}

/// Words that replay no definition do during a replay what they do
/// outside of one.
pub proof fn lemma_sequence_in_replay(s: State, body: int, next: int, words: Seq<Word>)
    requires
        flat(words),
    ensures
        sequence(s, words).1 is None ==> sequence(replaying(s, body, next), words) == (
            replaying(sequence(s, words).0, body, next),
            None::<Effect>,
        ),
        sequence(s, words).1 matches Some(effect) ==> (ends(effect) ==> sequence(
            replaying(s, body, next),
            words,
        ) == sequence(s, words)),
    decreases words.len(),
{
    if words.len() > 0 {
        lemma_do_word_in_replay(s, body, next, words[0]);
        assert(flat(words.skip(1))) by {
            assert forall|i: int| 0 <= i < words.skip(1).len() implies !(
            #[trigger] words.skip(1)[i] is Definition) by {
                assert(words.skip(1)[i] == words[i + 1]);
            }
        }
        if s.do_word(words[0]).1 is None {
            lemma_sequence_in_replay(s.do_word(words[0]).0, body, next, words.skip(1));
        }
    }
}

/// A replay from the word at `from` on does what the words that it comes
/// to do one after the other.
pub proof fn lemma_replay_from(s: State, body: int, from: int)
    requires
        s.wf(),
        0 <= body < s.bodies.len(),
        0 <= from <= s.bodies[body].len(),
    ensures
        sequence(s, unfolded(s.bodies, body, from)).1 is None ==> replaying(s, body, from).run()
            == sequence(s, unfolded(s.bodies, body, from)).0.run(),
        sequence(s, unfolded(s.bodies, body, from)).1 matches Some(effect) ==> (ends(effect)
            ==> replaying(s, body, from).run() == (
            sequence(s, unfolded(s.bodies, body, from)).0,
            effect,
        )),
    decreases body, s.bodies[body].len() - from,
{
    let words = s.bodies[body];
    let all = unfolded(s.bodies, body, from);
    let r = replaying(s, body, from);
    assert(r.frames.drop_last() =~= s.frames);
    assert(r.wf());
    lemma_step(r);
    if from == words.len() {
        assert(r.step() == (s, None::<Effect>));
    } else {
        let word = words[from];
        let rest = unfolded(s.bodies, body, from + 1);
        let moved = replaying(s, body, from + 1);
        assert(moved.frames.drop_last() =~= s.frames);
        assert(moved.wf());
        assert(r.step() == moved.do_word(word));
        if let Word::Definition(inner) = word {
            let first = unfolded(s.bodies, inner as int, 0);
            assert(all == first + rest);
            assert(r.step() == (replaying(moved, inner as int, 0), None::<Effect>));
            lemma_unfolded_flat(s, inner as int, 0);
            lemma_sequence_append(s, first, rest);
            lemma_sequence_in_replay(s, body, from + 1, first);
            lemma_replay_from(moved, inner as int, 0);
            if sequence(s, first).1 is None {
                let t = sequence(s, first).0;
                lemma_sequence_keeps(s, first);
                lemma_replay_from(t, body, from + 1);
            }
        } else {
            assert(all == seq![word] + rest);
            assert(all[0] == word);
            assert(all.skip(1) =~= rest);
            lemma_do_word_in_replay(s, body, from + 1, word);
            lemma_do_word(s, word);
            if s.do_word(word).1 is None {
                lemma_replay_from(s.do_word(word).0, body, from + 1);
            }
        }
    }
}

/// A definition is replayed word by word, and the definitions in its body
/// in their turn. Where none of the words that this comes to has an
/// effect, the machine goes on as if those words had stood in the place of
/// the definition; where one of them gives the line up, the words before
/// it are done and the line is given up.
pub proof fn law_replay(s: State, body: usize)
    requires
        s.wf(),
        body < s.bodies.len(),
    ensures
        sequence(s, unfolded(s.bodies, body as int, 0)).1 is None ==> s.do_definition(body).0.run()
            == sequence(s, unfolded(s.bodies, body as int, 0)).0.run(),
        sequence(s, unfolded(s.bodies, body as int, 0)).1 matches Some(effect) ==> (ends(effect)
            ==> s.do_definition(body).0.run() == (sequence(s, unfolded(s.bodies, body as int, 0)).0, effect)),
{
    lemma_replay_from(s, body as int, 0);
}

/// A body that replays a definition comes to the words of that
/// definition, in the place where it is replayed.
pub proof fn law_composition(bodies: Seq<Seq<Word>>, body: int, from: int)
    requires
        0 <= body < bodies.len(),
        0 <= from < bodies[body].len(),
    ensures
        bodies[body][from] matches Word::Definition(inner) ==> (inner < body ==> unfolded(
            bodies,
            body,
            from,
        ) == unfolded(bodies, inner as int, 0) + unfolded(bodies, body, from + 1)),
        !(bodies[body][from] is Definition) ==> unfolded(bodies, body, from) == seq![
            bodies[body][from],
        ] + unfolded(bodies, body, from + 1),
{
}

/// Lines that differ only in the white space at their end are evaluated
/// alike.
pub proof fn law_white_space_at_the_end(s: State, line: Seq<char>, tail: Seq<char>)
    requires
        forall|i: int| 0 <= i < tail.len() ==> white_space(#[trigger] tail[i]),
    ensures
        s.eval(line + tail) == s.eval(line),
        s.do_define(line + tail) == s.do_define(line),
{
    law_trailing_white_space(line, tail);
}

/// Whether an effect asks the caller for a value.
pub open spec fn asks(effect: Effect) -> bool {
    effect is Literal || effect is Unary || effect is Binary
}

/// Whether an effect ends the line.
pub open spec fn ends(effect: Effect) -> bool {
    effect is Done || effect is Failed || effect is Quit
}

/// Whether nothing of the line is left to do.
pub open spec fn idle(s: State) -> bool {
    &&& !s.has_token()
    &&& s.frames.len() == 0
    &&& !s.recording
    &&& s.awaiting is Nothing
}

/// Whether `later` has every body of `earlier` at its place and every name
/// of `earlier` bound.
pub open spec fn keeps_definitions(earlier: State, later: State) -> bool {
    &&& earlier.bodies.len() <= later.bodies.len()
    &&& forall|b: int| 0 <= b < earlier.bodies.len() ==> later.bodies[b] == earlier.bodies[b]
    &&& forall|key: Seq<char>|
        earlier.names.contains_key(key) ==> #[trigger] later.names.contains_key(key)
}

/// A step of a machine that waits for nothing leaves it waiting for a
/// value exactly where it asks for one. Unless the machine is to stop at
/// the close of a definition, a step leaves nothing to do where it ends
/// the line.
pub proof fn law_step_asks(s: State)
    requires
        s.awaiting is Nothing,
    ensures
        s.step().1 matches Some(effect) ==> (s.step().0.awaiting is Nothing) == !asks(effect),
        s.step().1 matches Some(effect) ==> (!s.stopping && ends(effect) ==> idle(s.step().0)),
        s.step().1 is None ==> s.step().0.awaiting is Nothing,
        !s.stopping ==> !s.step().0.stopping,
{
}

/// When the machine stops it waits for a value exactly where it asked for
/// one. Unless it was to stop at the close of a definition, nothing of
/// the line is left to do where it ended the line.
pub proof fn law_reply_is_owed(s: State)
    requires
        s.awaiting is Nothing,
    ensures
        (s.run().0.awaiting is Nothing) == !asks(s.run().1),
        !s.stopping ==> !s.run().0.stopping,
        !s.stopping && ends(s.run().1) ==> idle(s.run().0),
    decreases s.tokens_left(), frames_cost(s.bodies, s.frames),
{
    lemma_step(s);
    law_step_asks(s);
    if s.step().1 is None {
        law_reply_is_owed(s.step().0);
    }
}

/// The same holds when the machine goes on: whatever the caller supplied,
/// it then waits for a value exactly where it asked for one.
pub proof fn law_reply_is_owed_again(s: State, reply: Option<Value>)
    ensures
        (s.resume(reply).0.awaiting is Nothing) == !asks(s.resume(reply).1),
        !s.stopping ==> !s.resume(reply).0.stopping,
        !s.stopping && ends(s.resume(reply).1) ==> idle(s.resume(reply).0),
{
    if s.receive(reply).1 is None {
        law_reply_is_owed(s.receive(reply).0);
    }
}

/// A line that is over stays over: to go on with it changes nothing and
/// says that it is done.
pub proof fn law_done_stays_done(s: State, reply: Option<Value>)
    requires
        idle(s),
    ensures
        s.resume(reply) == (s, Effect::Done),
{
}

/// A step forgets no definition: every body stays at its place, and
/// every name stays bound.
pub proof fn law_step_keeps_definitions(s: State)
    ensures
        keeps_definitions(s, s.step().0),
{
    assert forall|b: int| 0 <= b < s.bodies.len() implies s.step().0.bodies[b] == s.bodies[b] by {}
}

/// Nor does a run: definitions are added and names are bound anew, but
/// none is taken away.
pub proof fn law_run_keeps_definitions(s: State)
    ensures
        keeps_definitions(s, s.run().0),
    decreases s.tokens_left(), frames_cost(s.bodies, s.frames),
{
    lemma_step(s);
    law_step_keeps_definitions(s);
    if s.step().1 is None {
        law_run_keeps_definitions(s.step().0);
        let mid = s.step().0;
        let end = s.run().0;
        assert forall|b: int| 0 <= b < s.bodies.len() implies end.bodies[b] == s.bodies[b] by {
            assert(mid.bodies[b] == s.bodies[b]);
        }
        assert forall|key: Seq<char>| s.names.contains_key(key) implies #[trigger] end.names.contains_key(
            key,
        ) by {
            assert(mid.names.contains_key(key));
        }
    }
}

} // verus!
