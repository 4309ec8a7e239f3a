//! The machine itself: the state in executable form, and the functions that
//! carry the transitions out.

use vstd::prelude::*;
use crate::laws::{body_end, law_do_define, words_of};
use crate::number::is_number;
use crate::semantics::{
    frames_cost, law_well_formed, lemma_step, resolve, tokens_of, Awaiting, Effect, Frame, State,
};
use crate::number::number;
use crate::text::{
    ascii_lowercase, chars_of, lowercase, same_text, split_line, texts, to_ascii_lowercase,
    to_lowercase, trim,
};
use crate::value::{ceil_cmp, floor_cmp, value_is_zero, Value, EPSILON, EULER, PI, TAU};
use crate::word::{builtin, builtin_word, BinaryOp, Error, Parsed, UnaryOp, Word};

verus! {

/// What the machine tells its caller when it stops. After `Emit`, `Help`
/// and the three requests for a value the line goes on with
/// [`RPN::resume`].
#[derive(Debug, PartialEq, Eq)]
pub enum Action {
    /// The line is done.
    Done,
    /// The line was given up.
    Failed(Error),
    /// The word `quit` was met: the caller is to end.
    Quit,
    /// The help text is to be shown.
    Help,
    /// The value is to be shown.
    Emit(Value),
    /// The value of the literal is wanted.
    Literal(Vec<char>),
    /// The result of the operation on the value is wanted.
    Unary(UnaryOp, Value),
    /// The result of the operation is wanted, on the left and the right
    /// operand in this order.
    Binary(BinaryOp, Value, Value),
}

impl View for Action {
    type V = Effect;

    open spec fn view(&self) -> Effect {
        match self {
            Action::Done => Effect::Done,
            Action::Failed(error) => Effect::Failed(*error),
            Action::Quit => Effect::Quit,
            Action::Help => Effect::Help,
            Action::Emit(value) => Effect::Emit(*value),
            Action::Literal(text) => Effect::Literal(text@),
            Action::Unary(op, value) => Effect::Unary(*op, *value),
            Action::Binary(op, left, right) => Effect::Binary(*op, *left, *right),
        }
    }
}

/// What a step gave, as an effect.
spec fn effect_of(action: Option<Action>) -> Option<Effect> {
    match action {
        Some(action) => Some(action@),
        None => None,
    }
}

/// A definition that is being replayed: which body, and the place of the
/// next word in it.
#[derive(Clone, Copy, Debug)]
struct Replay {
    body: usize,
    next: usize,
}

/// A name and the body that it is bound to. The entries stand in a
/// vector that is searched from its end: the names are texts, and for
/// texts as keys the maps of the standard library have no model that a
/// proof could go by.
struct Entry {
    name: Vec<char>,
    target: usize,
}

/// The definition table that a vector of entries holds: each name is
/// bound to the target of its entry, and where a name stands twice the
/// later entry counts.
spec fn table(entries: Seq<Entry>) -> Map<Seq<char>, usize>
    decreases entries.len(),
{
    if entries.len() == 0 {
        Map::empty()
    } else {
        table(entries.drop_last()).insert(entries.last().name@, entries.last().target)
    }
}

/// The bodies that a vector of vectors holds.
spec fn bodies_of(bodies: Seq<Vec<Word>>) -> Seq<Seq<Word>> {
    Seq::new(bodies.len(), |i: int| bodies[i]@)
}

/// The frames that a vector of replays holds.
spec fn frames_of(frames: Seq<Replay>) -> Seq<Frame> {
    Seq::new(frames.len(), |i: int| Frame { body: frames[i].body as int, next: frames[i].next as int })
}

/// A name that stands in an entry, and in no later one, is bound to the
/// target of that entry.
proof fn lemma_table_found(entries: Seq<Entry>, at: int, key: Seq<char>)
    requires
        0 <= at < entries.len(),
        entries[at].name@ == key,
        forall|j: int| at < j < entries.len() ==> entries[j].name@ != key,
    ensures
        table(entries).contains_key(key),
        table(entries)[key] == entries[at].target,
    decreases entries.len(),
{
    if at < entries.len() - 1 {
        lemma_table_found(entries.drop_last(), at, key);
    }
}

/// A name that stands in no entry is not bound.
proof fn lemma_table_absent(entries: Seq<Entry>, key: Seq<char>)
    requires
        forall|j: int| 0 <= j < entries.len() ==> entries[j].name@ != key,
    ensures
        !table(entries).contains_key(key),
    decreases entries.len(),
{
    if entries.len() > 0 {
        lemma_table_absent(entries.drop_last(), key);
    }
}

/// Another entry of the same name in the place of the last entry of that
/// name binds the name anew and leaves the other names as they are.
proof fn lemma_table_update(entries: Seq<Entry>, at: int, entry: Entry)
    requires
        0 <= at < entries.len(),
        entry.name@ == entries[at].name@,
        forall|j: int| at < j < entries.len() ==> entries[j].name@ != entry.name@,
    ensures
        table(entries.update(at, entry)) == table(entries).insert(entry.name@, entry.target),
    decreases entries.len(),
{
    let changed = entries.update(at, entry);
    if at < entries.len() - 1 {
        lemma_table_update(entries.drop_last(), at, entry);
        assert(changed.drop_last() =~= entries.drop_last().update(at, entry));
        assert(table(changed) =~= table(entries).insert(entry.name@, entry.target));
    } else {
        assert(changed.drop_last() =~= entries.drop_last());
        assert(table(changed) =~= table(entries).insert(entry.name@, entry.target));
    }
}

/// An entry behind the others binds its name anew.
proof fn lemma_table_push(entries: Seq<Entry>, entry: Entry)
    ensures
        table(entries.push(entry)) == table(entries).insert(entry.name@, entry.target),
{
    assert(entries.push(entry).drop_last() =~= entries);
}

/// A stack machine for reverse Polish notation with named definitions.
pub struct RPN {
    entries: Vec<Entry>,
    bodies: Vec<Vec<Word>>,
    stack: Vec<Value>,
    tokens: Vec<Vec<char>>,
    cursor: usize,
    frames: Vec<Replay>,
    recording: bool,
    name: Vec<char>,
    working: Vec<Word>,
    stopping: bool,
    awaiting: Awaiting,
}

impl View for RPN {
    type V = State;

    closed spec fn view(&self) -> State {
        State {
            stack: self.stack@,
            names: table(self.entries@),
            bodies: bodies_of(self.bodies@),
            tokens: texts(self.tokens@),
            cursor: self.cursor as int,
            frames: frames_of(self.frames@),
            recording: self.recording,
            name: self.name@,
            working: self.working@,
            stopping: self.stopping,
            awaiting: self.awaiting,
        }
    }
}

impl Default for RPN {
    fn default() -> (rpn: RPN)
        ensures
            rpn@ == State::empty(),
    {
        RPN::new()
    }
}

impl RPN {
    /// A machine with an empty stack and no definitions.
    pub fn new() -> (rpn: RPN)
        ensures
            rpn@ == State::empty(),
    {
        let rpn = RPN {
            entries: Vec::new(),
            bodies: Vec::new(),
            stack: Vec::new(),
            tokens: Vec::new(),
            cursor: 0,
            frames: Vec::new(),
            recording: false,
            name: Vec::new(),
            working: Vec::new(),
            stopping: false,
            awaiting: Awaiting::Nothing,
        };
        assert(rpn@.bodies =~= Seq::empty());
        assert(rpn@.tokens =~= Seq::empty());
        assert(rpn@.frames =~= Seq::empty());
        rpn
    }

    /// The values on the stack, the top one last.
    pub fn stack(&self) -> (values: &[Value])
        ensures
            values@ == self@.stack,
    {
        self.stack.as_slice()
    }

    /// Pushes a value.
    fn push(&mut self, num: Value) -> (r: Option<Action>)
        ensures
            (final(self)@, effect_of(r)) == old(self)@.push(num),
    {
        self.stack.push(num);
        None
    }

    /// Takes the top value off, where there is one.
    fn pop(&mut self) -> (r: Result<Value, Error>)
        ensures
            old(self)@.stack.len() > 0 ==> r == Ok::<Value, Error>(old(self)@.stack.last())
                && final(self)@ == old(self)@.with_stack(old(self)@.stack.drop_last()),
            old(self)@.stack.len() == 0 ==> r == Err::<Value, Error>(Error::StackUnderflow)
                && final(self)@ == old(self)@,
    {
        let top = self.stack.pop();
        match top {
            Some(value) => Ok(value),
            None => Err(Error::StackUnderflow),
        }
    }

    /// Takes the two upper values off, the top one first. With fewer than
    /// two the stack is left empty.
    fn pop_two(&mut self) -> (r: Result<(Value, Value), Error>)
        ensures
            old(self)@.stack.len() >= 2 ==> r == Ok::<(Value, Value), Error>(
                (
                    old(self)@.stack[old(self)@.stack.len() - 1],
                    old(self)@.stack[old(self)@.stack.len() - 2],
                ),
            ) && final(self)@ == old(self)@.with_stack(
                old(self)@.stack.take(old(self)@.stack.len() - 2),
            ),
            old(self)@.stack.len() < 2 ==> r == Err::<(Value, Value), Error>(
                Error::StackUnderflow,
            ) && final(self)@ == old(self)@.with_stack(Seq::empty()),
    {
        let ghost before = self@.stack;
        let x: Value = match self.pop() {
            Ok(value) => value,
            Err(error) => {
                assert(before =~= Seq::empty());
                return Err(error);
            },
        };
        let y: Value = match self.pop() {
            Ok(value) => value,
            Err(error) => {
                assert(before.drop_last() =~= Seq::empty());
                return Err(error);
            },
        };
        assert(before.drop_last().drop_last() =~= before.take(before.len() - 2));
        Ok((x, y))
    }

    /// Gives the line up: nothing of it is left to do.
    fn halt(&mut self)
        ensures
            final(self)@ == old(self)@.halted(),
    {
        self.cursor = self.tokens.len();
        self.frames.clear();
        self.recording = false;
        self.name.clear();
        self.working.clear();
        self.stopping = false;
        self.awaiting = Awaiting::Nothing;
        assert(self@.frames =~= Seq::empty());
    }

    /// Gives the line up with an error.
    fn fail(&mut self, error: Error) -> (r: Option<Action>)
        ensures
            (final(self)@, effect_of(r)) == old(self)@.fail(error),
    {
        self.halt();
        Some(Action::Failed(error))
    }

    /// Notes that the caller owes a value, and where it is to go.
    fn expect(&mut self, target: Awaiting)
        ensures
            final(self)@ == (State { awaiting: target, ..old(self)@ }),
    {
        self.awaiting = target;
    }

    /// Takes two values off and asks for the result of the operation on
    /// them: the upper value is the right operand.
    fn binary(&mut self, op: BinaryOp) -> (r: Option<Action>)
        ensures
            (final(self)@, effect_of(r)) == old(self)@.binary(op),
    {
        match self.pop_two() {
            Err(error) => self.fail(error),
            Ok((x, y)) => {
                self.expect(Awaiting::Stack);
                Some(Action::Binary(op, y, x))
            },
        }
    }

    /// Takes two values off and asks for the lower one divided by the
    /// upper one. A divisor that is zero is an error, and the two values
    /// are gone all the same.
    fn divide(&mut self) -> (r: Option<Action>)
        ensures
            (final(self)@, effect_of(r)) == old(self)@.divide(),
    {
        match self.pop_two() {
            Err(error) => self.fail(error),
            Ok((x, y)) => {
                if value_is_zero(x) {
                    self.fail(Error::DivisionByZero)
                } else {
                    self.expect(Awaiting::Stack);
                    Some(Action::Binary(BinaryOp::Divide, y, x))
                }
            },
        }
    }

    /// Takes one value off and asks for the result of the operation on it.
    fn unary(&mut self, op: UnaryOp) -> (r: Option<Action>)
        ensures
            (final(self)@, effect_of(r)) == old(self)@.unary(op),
    {
        match self.pop() {
            Err(error) => self.fail(error),
            Ok(x) => {
                assert(old(self)@.stack.drop_last() =~= old(self)@.stack.take(
                    old(self)@.stack.len() - 1,
                ));
                self.expect(Awaiting::Stack);
                Some(Action::Unary(op, x))
            },
        }
    }

    /// Takes two values off and pushes the greater one.
    fn floor(&mut self) -> (r: Option<Action>)
        ensures
            (final(self)@, effect_of(r)) == old(self)@.floor(),
    {
        match self.pop_two() {
            Err(error) => self.fail(error),
            Ok((x, y)) => self.push(floor_cmp(x, y)),
        }
    }

    /// Takes two values off and pushes the lesser one.
    fn ceil(&mut self) -> (r: Option<Action>)
        ensures
            (final(self)@, effect_of(r)) == old(self)@.ceil(),
    {
        match self.pop_two() {
            Err(error) => self.fail(error),
            Ok((x, y)) => self.push(ceil_cmp(x, y)),
        }
    }

    /// Pushes the top value once more.
    fn duplicate(&mut self) -> (r: Option<Action>)
        ensures
            (final(self)@, effect_of(r)) == old(self)@.duplicate(),
    {
        match self.pop() {
            Err(error) => self.fail(error),
            Ok(x) => {
                self.push(x);
                assert(self@.stack =~= old(self)@.stack);
                self.push(x)
            },
        }
    }

    /// Takes the top value off.
    fn drop(&mut self) -> (r: Option<Action>)
        ensures
            (final(self)@, effect_of(r)) == old(self)@.drop(),
    {
        match self.pop() {
            Err(error) => self.fail(error),
            Ok(_) => None,
        }
    }

    /// Exchanges the two upper values.
    fn swap(&mut self) -> (r: Option<Action>)
        ensures
            (final(self)@, effect_of(r)) == old(self)@.swap(),
    {
        match self.pop_two() {
            Err(error) => self.fail(error),
            Ok((x, y)) => {
                self.push(x);
                self.push(y)
            },
        }
    }

    /// Pushes the value below the top.
    fn over(&mut self) -> (r: Option<Action>)
        ensures
            (final(self)@, effect_of(r)) == old(self)@.over(),
    {
        match self.pop_two() {
            Err(error) => self.fail(error),
            Ok((x, y)) => {
                self.push(y);
                self.push(x);
                assert(self@.stack =~= old(self)@.stack);
                self.push(y)
            },
        }
    }

    /// Takes the top value off and hands it out to be shown.
    fn emit(&mut self) -> (r: Option<Action>)
        ensures
            (final(self)@, effect_of(r)) == old(self)@.emit(),
    {
        match self.pop() {
            Err(error) => self.fail(error),
            Ok(x) => Some(Action::Emit(x)),
        }
    }

    /// Begins to add the whole stack up, from the top down.
    fn sum(&mut self) -> (r: Option<Action>)
        ensures
            (final(self)@, effect_of(r)) == old(self)@.sum(),
    {
        let n: usize = self.stack.len();
        if n == 0 {
            self.fail(Error::StackUnderflow)
        } else if n == 1 {
            None
        } else {
            match self.pop_two() {
                Err(error) => self.fail(error),
                Ok((accumulator, x)) => {
                    self.expect(Awaiting::Sum);
                    Some(Action::Binary(BinaryOp::Add, accumulator, x))
                },
            }
        }
    }

    /// Empties the stack.
    fn clear(&mut self) -> (r: Option<Action>)
        ensures
            final(self)@ == old(self)@.with_stack(Seq::empty()),
            r is None,
    {
        self.stack.clear();
        None
    }

    /// Begins the replay of a body.
    fn do_definition(&mut self, body: usize) -> (r: Option<Action>)
        ensures
            (final(self)@, effect_of(r)) == old(self)@.do_definition(body),
    {
        if body < self.bodies.len() {
            self.frames.push(Replay { body, next: 0 });
            assert(self@.frames =~= old(self)@.frames.push(Frame { body: body as int, next: 0 }));
            None
        } else {
            self.fail(Error::InvalidWord)
        }
    }

    /// Gives the line up because the word `quit` was met.
    fn quit(&mut self) -> (r: Option<Action>)
        ensures
            final(self)@ == old(self)@.halted(),
            effect_of(r) == Some(Effect::Quit),
    {
        self.halt();
        Some(Action::Quit)
    }

    /// Carries one word out.
    fn do_word(&mut self, word: Word) -> (r: Option<Action>)
        ensures
            (final(self)@, effect_of(r)) == old(self)@.do_word(word),
    {
        match word {
            Word::Add => self.binary(BinaryOp::Add),
            Word::Subtract => self.binary(BinaryOp::Subtract),
            Word::Multiply => self.binary(BinaryOp::Multiply),
            Word::Divide => self.divide(),
            Word::Duplicate => self.duplicate(),
            Word::Drop => self.drop(),
            Word::Swap => self.swap(),
            Word::Over => self.over(),
            Word::Push(x) => self.push(x),
            Word::Modulo => self.binary(BinaryOp::Modulo),
            Word::Abs => self.unary(UnaryOp::Abs),
            Word::Floor => self.floor(),
            Word::Ceil => self.ceil(),
            Word::Round => self.unary(UnaryOp::Round),
            Word::Pow => self.binary(BinaryOp::Pow),
            Word::Sqrt => self.unary(UnaryOp::Sqrt),
            Word::Cbrt => self.unary(UnaryOp::Cbrt),
            Word::LogN => self.unary(UnaryOp::LogN),
            Word::Log => self.unary(UnaryOp::Log),
            Word::Sin => self.unary(UnaryOp::Sin),
            Word::Sinh => self.unary(UnaryOp::Sinh),
            Word::Asin => self.unary(UnaryOp::Asin),
            Word::Cos => self.unary(UnaryOp::Cos),
            Word::Cosh => self.unary(UnaryOp::Cosh),
            Word::Acos => self.unary(UnaryOp::Acos),
            Word::Tan => self.unary(UnaryOp::Tan),
            Word::Atan => self.unary(UnaryOp::Atan),
            Word::Tanh => self.unary(UnaryOp::Tanh),
            Word::Emit => self.emit(),
            Word::Sum => self.sum(),
            Word::Epsilon => self.push(EPSILON),
            Word::Euler => self.push(EULER),
            Word::Pi => self.push(PI),
            Word::Tau => self.push(TAU),
            Word::ClearStack => self.clear(),
            Word::Definition(body) => self.do_definition(body),
            Word::Help => Some(Action::Help),
            Word::Quit => self.quit(),
            Word::DefineStart => self.fail(Error::InvalidWord),
            Word::DefineEnd => self.fail(Error::InvalidWord),
            Word::EndOfLine => self.fail(Error::InvalidWord),
        }
    }

    /// Finds the body that a name in small letters is bound to.
    fn lookup(&self, key: &Vec<char>) -> (r: Option<usize>)
        ensures
            r == if self@.names.contains_key(key@) {
                Some(self@.names[key@])
            } else {
                None::<usize>
            },
    {
        let mut i: usize = self.entries.len();
        while i > 0
            invariant
                i <= self.entries.len(),
                forall|j: int| i <= j < self.entries.len() ==> self.entries@[j].name@ != key@,
            decreases i,
        {
            i -= 1;
            if same_text(&self.entries[i].name, key) {
                proof {
                    lemma_table_found(self.entries@, i as int, key@);
                }
                return Some(self.entries[i].target);
            }
        }
        proof {
            lemma_table_absent(self.entries@, key@);
        }
        None
    }

    /// Resolves a token: a definition of that name before a built-in word,
    /// a built-in word before a number.
    pub fn parse(&self, cmd: &Vec<char>) -> (r: Result<Parsed, Error>)
        ensures
            r == resolve(self@.names, cmd@),
    {
        let q = to_ascii_lowercase(cmd);
        if let Some(body) = self.lookup(&q) {
            return Ok(Parsed::Word(Word::Definition(body)));
        }
        match builtin_word(&q) {
            Some(word) => Ok(Parsed::Word(word)),
            None => {
                if number(&q) {
                    Ok(Parsed::Number)
                } else {
                    Err(Error::UnknownWord)
                }
            },
        }
    }

    /// Resolves the next token of the line and goes past it. Where the
    /// line has none left, the word that marks its end is given.
    fn get_next(&mut self) -> (r: Result<Parsed, Error>)
        ensures
            !old(self)@.has_token() ==> r == Ok::<Parsed, Error>(Parsed::Word(Word::EndOfLine))
                && final(self)@ == old(self)@,
            old(self)@.has_token() ==> r == resolve(old(self)@.names, old(self)@.token())
                && r != Ok::<Parsed, Error>(Parsed::Word(Word::EndOfLine)) && final(self)@ == old(
                self,
            )@.advance(),
    {
        if self.cursor >= self.tokens.len() {
            return Ok(Parsed::Word(Word::EndOfLine));
        }
        let r = self.parse(&self.tokens[self.cursor]);
        self.cursor += 1;
        proof {
            assert(builtin(ascii_lowercase(old(self)@.token())) != Some(Word::EndOfLine));
        }
        r
    }

    /// Asks for the value of the literal that was the last token, to go
    /// where `target` says.
    fn literal(&mut self, target: Awaiting) -> (r: Option<Action>)
        requires
            0 < old(self)@.cursor <= old(self)@.tokens.len(),
        ensures
            final(self)@ == (State { awaiting: target, ..old(self)@ }),
            effect_of(r) == Some(
                Effect::Literal(ascii_lowercase(old(self)@.tokens[old(self)@.cursor - 1])),
            ),
    {
        let text = to_ascii_lowercase(&self.tokens[self.cursor - 1]);
        self.awaiting = target;
        Some(Action::Literal(text))
    }

    /// Opens a definition: the next token is its name, and it may be no
    /// number.
    fn open_definition(&mut self) -> (r: Option<Action>)
        ensures
            (final(self)@, effect_of(r)) == old(self)@.open_definition(),
    {
        if self.cursor >= self.tokens.len() {
            return self.fail(Error::InvalidWord);
        }
        if number(&self.tokens[self.cursor]) {
            return self.fail(Error::InvalidWord);
        }
        self.name = self.tokens[self.cursor].clone();
        self.working.clear();
        self.recording = true;
        self.cursor += 1;
        assert(self@.name =~= old(self)@.token());
        None
    }

    /// Binds a name in small letters to a body, in place of what it was
    /// bound to before.
    fn bind(&mut self, key: Vec<char>, target: usize)
        ensures
            final(self)@ == (State {
                names: old(self)@.names.insert(key@, target),
                ..old(self)@
            }),
    {
        let mut i: usize = self.entries.len();
        while i > 0
            invariant
                i <= self.entries.len(),
                *self == *old(self),
                forall|j: int| i <= j < self.entries.len() ==> self.entries@[j].name@ != key@,
            decreases i,
        {
            i -= 1;
            if same_text(&self.entries[i].name, &key) {
                let entry = Entry { name: key, target };
                proof {
                    lemma_table_update(self.entries@, i as int, entry);
                }
                self.entries.set(i, entry);
                return ;
            }
        }
        let entry = Entry { name: key, target };
        proof {
            lemma_table_push(self.entries@, entry);
        }
        self.entries.push(entry);
    }

    /// Closes the definition being recorded: its body goes behind the
    /// other bodies, and its name in small letters is bound to it.
    fn define(&mut self)
        ensures
            final(self)@ == old(self)@.define(),
    {
        let key = to_lowercase(&self.name);
        let mut body: Vec<Word> = Vec::new();
        std::mem::swap(&mut self.working, &mut body);
        let target: usize = self.bodies.len();
        self.bodies.push(body);
        self.bind(key, target);
        self.recording = false;
        self.stopping = false;
        self.name.clear();
        proof {
            assert(key@ == lowercase(old(self)@.name));
            assert(self@.bodies =~= old(self)@.bodies.push(old(self)@.working));
            assert(self@.working =~= Seq::empty());
        }
    }

    /// Adds a word to the definition being recorded.
    fn record(&mut self, word: Word)
        ensures
            final(self)@ == old(self)@.record(word),
    {
        self.working.push(word);
    }

    /// A step while a definition is recorded.
    fn step_recording(&mut self) -> (r: Option<Action>)
        ensures
            (final(self)@, effect_of(r)) == old(self)@.step_recording(),
    {
        match self.get_next() {
            Err(error) => self.fail(error),
            Ok(Parsed::Number) => self.literal(Awaiting::Body),
            Ok(Parsed::Word(Word::EndOfLine)) => self.fail(Error::InvalidWord),
            Ok(Parsed::Word(Word::DefineStart)) => self.fail(Error::InvalidWord),
            Ok(Parsed::Word(Word::DefineEnd)) => {
                let stop: bool = self.stopping;
                self.define();
                if stop {
                    Some(Action::Done)
                } else {
                    None
                }
            },
            Ok(Parsed::Word(word)) => {
                self.record(word);
                None
            },
        }
    }

    /// A step on the line itself.
    fn step_line(&mut self) -> (r: Option<Action>)
        ensures
            (final(self)@, effect_of(r)) == old(self)@.step_line(),
    {
        match self.get_next() {
            Err(error) => self.fail(error),
            Ok(Parsed::Number) => self.literal(Awaiting::Stack),
            Ok(Parsed::Word(Word::EndOfLine)) => Some(Action::Done),
            Ok(Parsed::Word(Word::DefineStart)) => self.open_definition(),
            Ok(Parsed::Word(word)) => self.do_word(word),
        }
    }

    /// A step of a replay.
    fn step_frame(&mut self) -> (r: Option<Action>)
        requires
            old(self)@.frames.len() > 0,
        ensures
            (final(self)@, effect_of(r)) == old(self)@.step_frame(),
    {
        let top: usize = self.frames.len() - 1;
        let frame: Replay = self.frames[top];
        assert(old(self)@.frames.last() == Frame { body: frame.body as int, next: frame.next as int });
        if frame.body < self.bodies.len() && frame.next < self.bodies[frame.body].len() {
            let word: Word = self.bodies[frame.body][frame.next];
            self.frames.set(top, Replay { body: frame.body, next: frame.next + 1 });
            proof {
                assert(self@.frames =~= old(self)@.frames.drop_last().push(
                    Frame { body: frame.body as int, next: frame.next + 1 },
                ));
                assert(self@ == (State { frames: self@.frames, ..old(self)@ }));
            }
            if let Word::Definition(inner) = word {
                if inner >= frame.body {
                    return self.fail(Error::InvalidWord);
                }
            }
            self.do_word(word)
        } else {
            self.frames.pop();
            proof {
                assert(self@.frames =~= old(self)@.frames.drop_last());
            }
            None
        }
    }

    /// One step of the machine.
    fn step(&mut self) -> (r: Option<Action>)
        ensures
            (final(self)@, effect_of(r)) == old(self)@.step(),
    {
        if self.frames.len() > 0 {
            self.step_frame()
        } else if self.recording {
            self.step_recording()
        } else {
            self.step_line()
        }
    }

    /// Runs up to the first thing that the caller has to know.
    fn run(&mut self) -> (action: Action)
        ensures
            (final(self)@, action@) == old(self)@.run(),
    {
        loop
            invariant
                self@.run() == old(self)@.run(),
            decreases self@.tokens_left(), frames_cost(self@.bodies, self@.frames),
        {
            proof {
                lemma_step(self@);
            }
            match self.step() {
                Some(action) => {
                    return action;
                },
                None => {},
            }
        }
    }

    /// Makes a line the one under evaluation: what was left of the line
    /// before is dropped.
    fn begin(&mut self, tokens: Vec<Vec<char>>)
        ensures
            final(self)@ == old(self)@.begin(texts(tokens@)),
    {
        self.halt();
        self.tokens = tokens;
        self.cursor = 0;
    }

    /// Takes what the caller supplies.
    fn receive(&mut self, reply: Option<Value>) -> (r: Option<Action>)
        ensures
            (final(self)@, effect_of(r)) == old(self)@.receive(reply),
    {
        let value: Value = match (self.awaiting, reply) {
            (Awaiting::Nothing, _) => {
                return None;
            },
            (_, None) => {
                return self.fail(Error::StackPushFailed);
            },
            (_, Some(value)) => value,
        };
        match self.awaiting {
            Awaiting::Body => {
                self.working.push(Word::Push(value));
                self.awaiting = Awaiting::Nothing;
                None
            },
            Awaiting::Sum => {
                match self.stack.pop() {
                    Some(x) => Some(Action::Binary(BinaryOp::Add, value, x)),
                    None => {
                        self.stack.push(value);
                        self.awaiting = Awaiting::Nothing;
                        assert(self@.stack =~= seq![value]);
                        None
                    },
                }
            },
            _ => {
                self.stack.push(value);
                self.awaiting = Awaiting::Nothing;
                None
            },
        }
    }

    /// Evaluates a line: cuts it into tokens and runs until the line is
    /// done or given up, or until the caller has something to do. The
    /// action says which; after any but `Done`, `Failed` and `Quit` the
    /// line goes on with [`RPN::resume`].
    pub fn eval(&mut self, input: &str) -> (action: Action)
        ensures
            (final(self)@, action@) == old(self)@.eval(input@),
            old(self)@.wf() ==> final(self)@.wf(),
    {
        proof {
            if self@.wf() {
                law_well_formed(self@, input@, Seq::empty(), None, Word::EndOfLine);
            }
        }
        let mut line = chars_of(input);
        trim(&mut line);
        self.eval_tokens(split_line(&line))
    }

    /// Evaluates a line that is cut into its tokens already.
    pub fn eval_tokens(&mut self, tokens: Vec<Vec<char>>) -> (action: Action)
        ensures
            (final(self)@, action@) == old(self)@.eval_tokens(texts(tokens@)),
            old(self)@.wf() ==> final(self)@.wf(),
    {
        proof {
            if self@.wf() {
                law_well_formed(self@, Seq::empty(), texts(tokens@), None, Word::EndOfLine);
            }
        }
        self.begin(tokens);
        self.run()
    }

    /// Carries one word out: a word of the stack or of arithmetic at once,
    /// a definition by its replay. Then the line that was under evaluation
    /// goes on, if one was.
    pub fn execute(&mut self, word: Word) -> (action: Action)
        ensures
            (final(self)@, action@) == old(self)@.execute(word),
            old(self)@.wf() ==> final(self)@.wf(),
    {
        proof {
            if self@.wf() {
                law_well_formed(self@, Seq::empty(), Seq::empty(), None, word);
            }
        }
        match self.do_word(word) {
            Some(action) => action,
            None => self.run(),
        }
    }

    /// Goes on with the line after an action. `reply` is the value that
    /// the action asked for, if it asked for one; it goes where it was
    /// asked for, and a reply that was not asked for is dropped. After
    /// [`RPN::do_define`] has stopped at the close of its definition, this
    /// goes on with the rest of the line.
    pub fn resume(&mut self, reply: Option<Value>) -> (action: Action)
        ensures
            (final(self)@, action@) == old(self)@.resume(reply),
            old(self)@.wf() ==> final(self)@.wf(),
    {
        proof {
            if self@.wf() {
                law_well_formed(self@, Seq::empty(), Seq::empty(), reply, Word::EndOfLine);
            }
        }
        match self.receive(reply) {
            Some(action) => action,
            None => self.run(),
        }
    }

    /// Records a definition from a line that begins with its name and
    /// holds its body and the closing `;`. The machine stops at the `;`:
    /// the action is `Done`, the body is stored under the name in small
    /// letters, and the rest of the line is left unread; [`RPN::resume`]
    /// goes on with it. Where the body holds a literal, the action asks
    /// for its value, and [`RPN::resume`] records on and stops at the `;`
    /// as well. The stack is never touched, and unless the action is
    /// `Done` nothing is defined.
    ///
    /// The line is given up as invalid where the name is a number, where
    /// a `:` stands before the `;`, and where the line ends before the
    /// `;`; a line without a token has the empty text for its name.
    pub fn do_define(&mut self, input: &str) -> (action: Action)
        ensures
            (final(self)@, action@) == old(self)@.do_define(input@),
            old(self)@.wf() ==> final(self)@.wf(),
            final(self)@.stack == old(self)@.stack,
            action@ is Done || action@ is Failed || action@ is Literal,
            action@ is Done ==> ({
                let tokens = tokens_of(input@);
                let end = body_end(old(self)@.names, tokens, 1);
                &&& 1 <= end < tokens.len()
                &&& resolve(old(self)@.names, tokens[end]) == Ok::<Parsed, Error>(
                    Parsed::Word(Word::DefineEnd),
                )
                &&& final(self)@.names == old(self)@.names.insert(
                    lowercase(tokens[0]),
                    old(self)@.bodies.len() as usize,
                )
                &&& final(self)@.bodies == old(self)@.bodies.push(
                    words_of(old(self)@.names, tokens, 1, end),
                )
                &&& final(self)@.tokens == tokens
                &&& final(self)@.cursor == end + 1
            }),
            !(action@ is Done) ==> final(self)@.names == old(self)@.names && final(self)@.bodies
                == old(self)@.bodies,
            action@ == Effect::Failed(Error::InvalidWord) <==> ({
                let tokens = tokens_of(input@);
                let end = body_end(old(self)@.names, tokens, 1);
                ||| is_number(tokens[0])
                ||| end >= tokens.len()
                ||| resolve(old(self)@.names, tokens[end]) == Ok::<Parsed, Error>(
                    Parsed::Word(Word::DefineStart),
                )
            }),
    {
        proof {
            if self@.wf() {
                law_well_formed(self@, input@, Seq::empty(), None, Word::EndOfLine);
            }
            law_do_define(self@, input@);
        }
        let mut line = chars_of(input);
        trim(&mut line);
        self.begin(split_line(&line));
        self.stopping = true;
        match self.open_definition() {
            Some(action) => action,
            None => self.run(),
        }
    }
}

} // verus!
