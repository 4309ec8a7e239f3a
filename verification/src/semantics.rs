//! What the machine does, stated over plain mathematical values.
//!
//! A [`State`] is everything the machine holds. [`State::step`] is one
//! transition. It gives the next state and, where the machine has something
//! to tell its caller, an [`Effect`]. [`State::run`] takes steps up to the
//! first effect.

use vstd::prelude::*;
use crate::number::is_number;
use crate::text::{ascii_lowercase, lowercase, split, trim_end};
use crate::value::{greater_of, is_zero, lesser_of, Value, EPSILON, EULER, PI, TAU};
use crate::word::{builtin, BinaryOp, Error, Parsed, UnaryOp, Word};

verus! {

/// A definition that is being replayed: which body, and the place of the
/// next word in it.
pub struct Frame {
    pub body: int,
    pub next: int,
}

/// What the machine tells its caller when it stops.
pub enum Effect {
    /// The line is done.
    Done,
    /// The line was given up.
    Failed(Error),
    /// The word `quit` was met.
    Quit,
    /// The help text is to be shown.
    Help,
    /// The value is to be shown.
    Emit(Value),
    /// The value of the literal is wanted.
    Literal(Seq<char>),
    /// The result of the operation on the value is wanted.
    Unary(UnaryOp, Value),
    /// The result of the operation is wanted, on the left and the right
    /// operand in this order.
    Binary(BinaryOp, Value, Value),
}

/// Where the value goes that the machine waits for.
#[derive(Clone, Copy, Debug, PartialEq, Eq)]
pub enum Awaiting {
    /// The machine waits for no value.
    Nothing,
    /// Onto the stack: the result of arithmetic, or the value of a literal
    /// on the line.
    Stack,
    /// Into the sum that the word `sum` has begun.
    Sum,
    /// Into the definition being recorded: the value of a literal in its
    /// body.
    Body,
}

/// Everything the machine holds.
pub struct State {
    /// The evaluation stack, its top last.
    pub stack: Seq<Value>,
    /// The definition table: the place of its body for each defined name.
    pub names: Map<Seq<char>, usize>,
    /// Every body ever defined, in the order of definition.
    pub bodies: Seq<Seq<Word>>,
    /// The tokens of the line under evaluation.
    pub tokens: Seq<Seq<char>>,
    /// The place of the next token.
    pub cursor: int,
    /// The definitions being replayed, the innermost last.
    pub frames: Seq<Frame>,
    /// Whether a definition is being recorded.
    pub recording: bool,
    /// The name of the definition being recorded, as it was written.
    pub name: Seq<char>,
    /// The words recorded so far.
    pub working: Seq<Word>,
    /// Whether the machine stops where the definition being recorded is
    /// closed, and leaves the rest of the line unread.
    pub stopping: bool,
    /// Whether the machine waits for a value from its caller, and where
    /// the value goes.
    pub awaiting: Awaiting,
}

/// What a token resolves to: a definition of that name before a built-in
/// word, a built-in word before a number. Letter case does not count.
pub open spec fn resolve(names: Map<Seq<char>, usize>, token: Seq<char>) -> Result<
    Parsed,
    Error,
> {
    let key = ascii_lowercase(token);
    if names.contains_key(key) {
        Ok(Parsed::Word(Word::Definition(names[key])))
    } else if let Some(word) = builtin(key) {
        Ok(Parsed::Word(word))
    } else if is_number(key) {
        Ok(Parsed::Number)
    } else {
        Err(Error::UnknownWord)
    }
}

/// The tokens of a line: the line without the white space at its end, cut
/// at every space.
pub open spec fn tokens_of(line: Seq<char>) -> Seq<Seq<char>> {
    split(trim_end(line))
}

/// What a walk through `bodies[body]` from the word at `from` on costs at
/// most, in steps of the machine: a bound that shows that a replay ends.
pub open spec fn cost_from(bodies: Seq<Seq<Word>>, body: int, from: int) -> nat
    decreases body, bodies[body].len() - from,
{
    if 0 <= body < bodies.len() && 0 <= from < bodies[body].len() {
        let rest = cost_from(bodies, body, from + 1);
        match bodies[body][from] {
            Word::Definition(inner) => if inner < body {
                2 + cost_from(bodies, inner as int, 0) + rest
            } else {
                1 + rest
            },
            _ => 1 + rest,
        }
    } else {
        1
    }
}

/// The cost of all the replays under way.
pub open spec fn frames_cost(bodies: Seq<Seq<Word>>, frames: Seq<Frame>) -> nat
    decreases frames.len(),
{
    if frames.len() == 0 {
        0
    } else {
        frames_cost(bodies, frames.drop_last()) + cost_from(
            bodies,
            frames.last().body,
            frames.last().next,
        )
    }
}

impl State {
    /// The state of a new machine: nothing on the stack, nothing defined,
    /// no line.
    pub open spec fn empty() -> State {
        State {
            stack: Seq::empty(),
            names: Map::empty(),
            bodies: Seq::empty(),
            tokens: Seq::empty(),
            cursor: 0,
            frames: Seq::empty(),
            recording: false,
            name: Seq::empty(),
            working: Seq::empty(),
            stopping: false,
            awaiting: Awaiting::Nothing,
        }
    }

    /// The state in which nothing of the line is left to do.
    pub open spec fn halted(self) -> State {
        State {
            cursor: self.tokens.len() as int,
            frames: Seq::empty(),
            recording: false,
            name: Seq::empty(),
            working: Seq::empty(),
            stopping: false,
            awaiting: Awaiting::Nothing,
            ..self
        }
    }

    /// Gives the line up with an error.
    pub open spec fn fail(self, error: Error) -> (State, Option<Effect>) {
        (self.halted(), Some(Effect::Failed(error)))
    }

    /// The state at the start of a line.
    pub open spec fn begin(self, tokens: Seq<Seq<char>>) -> State {
        State { tokens, cursor: 0, ..self.halted() }
    }

    /// The state with another stack.
    pub open spec fn with_stack(self, stack: Seq<Value>) -> State {
        State { stack, ..self }
    }

    /// Pushes a value.
    pub open spec fn push(self, value: Value) -> (State, Option<Effect>) {
        (self.with_stack(self.stack.push(value)), None)
    }

    /// Takes two values off and asks for the result of `op` on them: the
    /// upper one is the right operand.
    pub open spec fn binary(self, op: BinaryOp) -> (State, Option<Effect>) {
        let n = self.stack.len() as int;
        if n >= 2 {
            (
                State { awaiting: Awaiting::Stack, ..self.with_stack(self.stack.take(n - 2)) },
                Some(Effect::Binary(op, self.stack[n - 2], self.stack[n - 1])),
            )
        } else {
            self.with_stack(Seq::empty()).fail(Error::StackUnderflow)
        }
    }

    /// Takes two values off and asks for the lower one divided by the upper
    /// one, unless the upper one is zero.
    pub open spec fn divide(self) -> (State, Option<Effect>) {
        let n = self.stack.len() as int;
        if n >= 2 && is_zero(self.stack[n - 1]) {
            self.with_stack(self.stack.take(n - 2)).fail(Error::DivisionByZero)
        } else {
            self.binary(BinaryOp::Divide)
        }
    }

    /// Takes one value off and asks for the result of `op` on it.
    pub open spec fn unary(self, op: UnaryOp) -> (State, Option<Effect>) {
        let n = self.stack.len() as int;
        if n >= 1 {
            (
                State { awaiting: Awaiting::Stack, ..self.with_stack(self.stack.take(n - 1)) },
                Some(Effect::Unary(op, self.stack[n - 1])),
            )
        } else {
            self.fail(Error::StackUnderflow)
        }
    }

    /// Takes two values off and pushes the greater one.
    pub open spec fn floor(self) -> (State, Option<Effect>) {
        let n = self.stack.len() as int;
        if n >= 2 {
            self.with_stack(self.stack.take(n - 2)).push(
                greater_of(self.stack[n - 1], self.stack[n - 2]),
            )
        } else {
            self.with_stack(Seq::empty()).fail(Error::StackUnderflow)
        }
    }

    /// Takes two values off and pushes the lesser one.
    pub open spec fn ceil(self) -> (State, Option<Effect>) {
        let n = self.stack.len() as int;
        if n >= 2 {
            self.with_stack(self.stack.take(n - 2)).push(
                lesser_of(self.stack[n - 1], self.stack[n - 2]),
            )
        } else {
            self.with_stack(Seq::empty()).fail(Error::StackUnderflow)
        }
    }

    /// Pushes the top value once more.
    pub open spec fn duplicate(self) -> (State, Option<Effect>) {
        if self.stack.len() >= 1 {
            self.push(self.stack.last())
        } else {
            self.fail(Error::StackUnderflow)
        }
    }

    /// Takes the top value off.
    pub open spec fn drop(self) -> (State, Option<Effect>) {
        if self.stack.len() >= 1 {
            (self.with_stack(self.stack.drop_last()), None)
        } else {
            self.fail(Error::StackUnderflow)
        }
    }

    /// Exchanges the two upper values.
    pub open spec fn swap(self) -> (State, Option<Effect>) {
        let n = self.stack.len() as int;
        if n >= 2 {
            (
                self.with_stack(
                    self.stack.take(n - 2).push(self.stack[n - 1]).push(self.stack[n - 2]),
                ),
                None,
            )
        } else {
            self.with_stack(Seq::empty()).fail(Error::StackUnderflow)
        }
    }

    /// Pushes the value below the top.
    pub open spec fn over(self) -> (State, Option<Effect>) {
        let n = self.stack.len() as int;
        if n >= 2 {
            self.push(self.stack[n - 2])
        } else {
            self.with_stack(Seq::empty()).fail(Error::StackUnderflow)
        }
    }

    /// Takes the top value off and hands it out to be shown.
    pub open spec fn emit(self) -> (State, Option<Effect>) {
        if self.stack.len() >= 1 {
            (self.with_stack(self.stack.drop_last()), Some(Effect::Emit(self.stack.last())))
        } else {
            self.fail(Error::StackUnderflow)
        }
    }

    /// Begins to add the whole stack up, from the top down: asks for the
    /// sum of the two upper values, where there are two.
    pub open spec fn sum(self) -> (State, Option<Effect>) {
        let n = self.stack.len() as int;
        if n >= 2 {
            (
                State { awaiting: Awaiting::Sum, ..self.with_stack(self.stack.take(n - 2)) },
                Some(Effect::Binary(BinaryOp::Add, self.stack[n - 1], self.stack[n - 2])),
            )
        } else if n == 1 {
            (self, None)
        } else {
            self.fail(Error::StackUnderflow)
        }
    }

    /// Begins the replay of a body.
    pub open spec fn do_definition(self, body: usize) -> (State, Option<Effect>) {
        if body < self.bodies.len() {
            (State { frames: self.frames.push(Frame { body: body as int, next: 0 }), ..self }, None)
        } else {
            self.fail(Error::InvalidWord)
        }
    }

    /// Carries one word out.
    pub open spec fn do_word(self, word: Word) -> (State, Option<Effect>) {
        match word {
            Word::Add => self.binary(BinaryOp::Add),
            Word::Subtract => self.binary(BinaryOp::Subtract),
            Word::Multiply => self.binary(BinaryOp::Multiply),
            Word::Divide => self.divide(),
            Word::Modulo => self.binary(BinaryOp::Modulo),
            Word::Pow => self.binary(BinaryOp::Pow),
            Word::Floor => self.floor(),
            Word::Ceil => self.ceil(),
            Word::Round => self.unary(UnaryOp::Round),
            Word::Abs => self.unary(UnaryOp::Abs),
            Word::Sqrt => self.unary(UnaryOp::Sqrt),
            Word::Cbrt => self.unary(UnaryOp::Cbrt),
            Word::LogN => self.unary(UnaryOp::LogN),
            Word::Log => self.unary(UnaryOp::Log),
            Word::Sin => self.unary(UnaryOp::Sin),
            Word::Asin => self.unary(UnaryOp::Asin),
            Word::Sinh => self.unary(UnaryOp::Sinh),
            Word::Cos => self.unary(UnaryOp::Cos),
            Word::Acos => self.unary(UnaryOp::Acos),
            Word::Cosh => self.unary(UnaryOp::Cosh),
            Word::Tan => self.unary(UnaryOp::Tan),
            Word::Atan => self.unary(UnaryOp::Atan),
            Word::Tanh => self.unary(UnaryOp::Tanh),
            Word::Epsilon => self.push(EPSILON),
            Word::Euler => self.push(EULER),
            Word::Pi => self.push(PI),
            Word::Tau => self.push(TAU),
            Word::Push(value) => self.push(value),
            Word::Drop => self.drop(),
            Word::Duplicate => self.duplicate(),
            Word::Swap => self.swap(),
            Word::Over => self.over(),
            Word::ClearStack => (self.with_stack(Seq::empty()), None),
            Word::Emit => self.emit(),
            Word::Sum => self.sum(),
            Word::Definition(body) => self.do_definition(body),
            Word::Help => (self, Some(Effect::Help)),
            Word::Quit => (self.halted(), Some(Effect::Quit)),
            Word::DefineStart => self.fail(Error::InvalidWord),
            Word::DefineEnd => self.fail(Error::InvalidWord),
            Word::EndOfLine => self.fail(Error::InvalidWord),
        }
    }

    /// Whether the line has a token left.
    pub open spec fn has_token(self) -> bool {
        0 <= self.cursor < self.tokens.len()
    }

    /// The next token of the line.
    pub open spec fn token(self) -> Seq<char> {
        self.tokens[self.cursor]
    }

    /// The state past the next token.
    pub open spec fn advance(self) -> State {
        State { cursor: self.cursor + 1, ..self }
    }

    /// Opens a definition: the next token is its name, and it may be no
    /// number.
    pub open spec fn open_definition(self) -> (State, Option<Effect>) {
        if !self.has_token() || is_number(self.token()) {
            self.fail(Error::InvalidWord)
        } else {
            (
                State {
                    recording: true,
                    name: self.token(),
                    working: Seq::empty(),
                    ..self.advance()
                },
                None,
            )
        }
    }

    /// Closes the definition being recorded: its body goes behind the
    /// other bodies, and its name in small letters is bound to it, in place
    /// of what it was bound to before.
    pub open spec fn define(self) -> State {
        State {
            names: self.names.insert(lowercase(self.name), self.bodies.len() as usize),
            bodies: self.bodies.push(self.working),
            recording: false,
            name: Seq::empty(),
            working: Seq::empty(),
            stopping: false,
            ..self
        }
    }

    /// Adds a word to the definition being recorded.
    pub open spec fn record(self, word: Word) -> State {
        State { working: self.working.push(word), ..self }
    }

    /// Asks for the value of the literal that the next token is, to go
    /// where `target` says.
    pub open spec fn literal(self, target: Awaiting) -> (State, Option<Effect>) {
        (
            State { awaiting: target, ..self.advance() },
            Some(Effect::Literal(ascii_lowercase(self.token()))),
        )
    }

    /// A step while a definition is recorded: the next token closes it or
    /// goes into its body. The line may not end, and no other definition
    /// may open. Where the machine is to stop at the close, the line is
    /// done there for now, and the tokens behind the close are left
    /// unread.
    pub open spec fn step_recording(self) -> (State, Option<Effect>) {
        if !self.has_token() {
            self.fail(Error::InvalidWord)
        } else {
            match resolve(self.names, self.token()) {
                Err(error) => self.fail(error),
                Ok(Parsed::Number) => self.literal(Awaiting::Body),
                Ok(Parsed::Word(Word::DefineStart)) => self.fail(Error::InvalidWord),
                Ok(Parsed::Word(Word::DefineEnd)) => (
                    self.advance().define(),
                    if self.stopping {
                        Some(Effect::Done)
                    } else {
                        None
                    },
                ),
                Ok(Parsed::Word(word)) => (self.advance().record(word), None),
            }
        }
    }

    /// A step on the line itself: the next token is resolved and carried
    /// out.
    pub open spec fn step_line(self) -> (State, Option<Effect>) {
        if !self.has_token() {
            (self, Some(Effect::Done))
        } else {
            match resolve(self.names, self.token()) {
                Err(error) => self.fail(error),
                Ok(Parsed::Number) => self.literal(Awaiting::Stack),
                Ok(Parsed::Word(Word::DefineStart)) => self.advance().open_definition(),
                Ok(Parsed::Word(word)) => self.advance().do_word(word),
            }
        }
    }

    /// A step of a replay: the next word of the innermost body is carried
    /// out, or the body is left where it has no further word. A body may
    /// replay the definitions that stood before it, and no others.
    pub open spec fn step_frame(self) -> (State, Option<Effect>) {
        let frame = self.frames.last();
        if 0 <= frame.body < self.bodies.len() && 0 <= frame.next < self.bodies[frame.body].len() {
            let word = self.bodies[frame.body][frame.next];
            let moved = State {
                frames: self.frames.drop_last().push(
                    Frame { body: frame.body, next: frame.next + 1 },
                ),
                ..self
            };
            if word matches Word::Definition(inner) && inner >= frame.body {
                moved.fail(Error::InvalidWord)
            } else {
                moved.do_word(word)
            }
        } else {
            (State { frames: self.frames.drop_last(), ..self }, None)
        }
    }

    /// One step of the machine.
    pub open spec fn step(self) -> (State, Option<Effect>) {
        if self.frames.len() > 0 {
            self.step_frame()
        } else if self.recording {
            self.step_recording()
        } else {
            self.step_line()
        }
    }

    /// Takes what the caller supplies. A value that was awaited goes where
    /// it was wanted when it was asked for: onto the stack, into the sum
    /// under way, or into the definition being recorded. Where a value was
    /// awaited and none came, the line is given up.
    pub open spec fn receive(self, reply: Option<Value>) -> (State, Option<Effect>) {
        match (self.awaiting, reply) {
            (Awaiting::Nothing, _) => (self, None),
            (_, None) => self.fail(Error::StackPushFailed),
            (Awaiting::Body, Some(value)) => (
                State { awaiting: Awaiting::Nothing, ..self.record(Word::Push(value)) },
                None,
            ),
            (Awaiting::Sum, Some(value)) => if self.stack.len() > 0 {
                (
                    self.with_stack(self.stack.drop_last()),
                    Some(Effect::Binary(BinaryOp::Add, value, self.stack.last())),
                )
            } else {
                (
                    State { awaiting: Awaiting::Nothing, ..self.with_stack(seq![value]) },
                    None,
                )
            },
            (Awaiting::Stack, Some(value)) => (
                State { awaiting: Awaiting::Nothing, ..self.with_stack(self.stack.push(value)) },
                None,
            ),
        }
    }

    /// Whether the parts of the state fit together: the place in the line
    /// is within the line, every name is bound to a body, every replay is
    /// at a place in a body, a body replays only definitions that stood
    /// before it, and the machine is to stop at the close of a definition
    /// only while it records one. It holds of a new machine, and every
    /// transition keeps it.
    pub open spec fn wf(self) -> bool {
        &&& 0 <= self.cursor <= self.tokens.len()
        &&& self.stopping ==> self.recording
        &&& forall|b: int, i: int|
            0 <= b < self.bodies.len() && 0 <= i < self.bodies[b].len() ==> (
            #[trigger] self.bodies[b][i] matches Word::Definition(inner) ==> inner < b)
        &&& forall|key: Seq<char>| #[trigger]
            self.names.contains_key(key) ==> self.names[key] < self.bodies.len()
        &&& forall|i: int|
            0 <= i < self.frames.len() ==> {
                &&& 0 <= (#[trigger] self.frames[i]).body < self.bodies.len()
                &&& 0 <= self.frames[i].next <= self.bodies[self.frames[i].body].len()
            }
        &&& forall|i: int|
            0 <= i < self.working.len() ==> (#[trigger] self.working[i] matches Word::Definition(
                inner,
            ) ==> inner < self.bodies.len())
    }

    /// How many tokens of the line are left.
    pub open spec fn tokens_left(self) -> nat {
        if self.has_token() {
            (self.tokens.len() - self.cursor) as nat
        } else {
            0
        }
    }

    /// Runs up to the first effect. A run ends: every step without an
    /// effect uses a token up or brings the replays under way nearer to
    /// their end.
    pub open spec fn run(self) -> (State, Effect)
        decreases self.tokens_left(), frames_cost(self.bodies, self.frames),
    {
        let (next, effect) = self.step();
        match effect {
            Some(effect) => (next, effect),
            None => {
                proof {
                    lemma_step(self);
                }
                next.run()
            },
        }
    }

    /// Takes what the caller supplies and runs on.
    pub open spec fn resume(self, reply: Option<Value>) -> (State, Effect) {
        let (next, effect) = self.receive(reply);
        match effect {
            Some(effect) => (next, effect),
            None => next.run(),
        }
    }

    /// Evaluates a line from its start.
    pub open spec fn eval(self, line: Seq<char>) -> (State, Effect) {
        self.eval_tokens(tokens_of(line))
    }

    /// Carries a word out and runs on.
    pub open spec fn execute(self, word: Word) -> (State, Effect) {
        let (next, effect) = self.do_word(word);
        match effect {
            Some(effect) => (next, effect),
            None => next.run(),
        }
    }

    /// Evaluates the tokens of a line from its start.
    pub open spec fn eval_tokens(self, tokens: Seq<Seq<char>>) -> (State, Effect) {
        self.begin(tokens).run()
    }

    /// Records a definition from a line that begins with its name and
    /// holds its body and the closing word: runs up to the close and stops
    /// there, with the rest of the line unread.
    pub open spec fn do_define(self, line: Seq<char>) -> (State, Effect) {
        let (next, effect) = (State {
            stopping: true,
            ..self.begin(tokens_of(line))
        }).open_definition();
        match effect {
            Some(effect) => (next, effect),
            None => next.run(),
        }
    }
}

/// Every walk costs a step at least.
pub proof fn lemma_cost_positive(bodies: Seq<Seq<Word>>, body: int, from: int)
    ensures
        cost_from(bodies, body, from) >= 1,
{
}

/// The cost of replays with one more under way.
pub proof fn lemma_frames_cost_push(bodies: Seq<Seq<Word>>, frames: Seq<Frame>, frame: Frame)
    ensures
        frames_cost(bodies, frames.push(frame)) == frames_cost(bodies, frames) + cost_from(
            bodies,
            frame.body,
            frame.next,
        ),
{
    assert(frames.push(frame).drop_last() =~= frames);
}

/// A step without an effect brings the end of the line nearer: it uses a
/// token up, or it leaves the tokens alone and lowers the cost of the
/// replays under way.
pub proof fn lemma_step(s: State)
    ensures
        s.step().1 is None ==> {
            ||| s.step().0.tokens_left() < s.tokens_left()
            ||| (s.step().0.tokens_left() == s.tokens_left() && frames_cost(
                s.step().0.bodies,
                s.step().0.frames,
            ) < frames_cost(s.bodies, s.frames))
        },
{
    if s.frames.len() > 0 {
        let frame = s.frames.last();
        let below = s.frames.drop_last();
        assert(s.frames =~= below.push(frame));
        lemma_frames_cost_push(s.bodies, below, frame);
        lemma_cost_positive(s.bodies, frame.body, frame.next);
        if 0 <= frame.body < s.bodies.len() && 0 <= frame.next < s.bodies[frame.body].len() {
            let word = s.bodies[frame.body][frame.next];
            let moved = Frame { body: frame.body, next: frame.next + 1 };
            let t = State { frames: below.push(moved), ..s };
            lemma_frames_cost_push(s.bodies, below, moved);
            lemma_do_word(t, word);
            if let Word::Definition(inner) = word {
                lemma_frames_cost_push(s.bodies, t.frames, Frame { body: inner as int, next: 0 });
            }
        }
    } else if s.has_token() {
        if let Ok(Parsed::Word(word)) = resolve(s.names, s.token()) {
            lemma_do_word(s.advance(), word);
        }
    }
}

/// A step keeps a state well formed.
pub proof fn lemma_step_wf(s: State)
    requires
        s.wf(),
    ensures
        s.step().0.wf(),
{
    if s.frames.len() > 0 {
        let frame = s.frames.last();
        let below = s.frames.drop_last();
        if frame.next < s.bodies[frame.body].len() {
            let word = s.bodies[frame.body][frame.next];
            let moved = Frame { body: frame.body, next: frame.next + 1 };
            let t = State { frames: below.push(moved), ..s };
            assert(t.wf());
            lemma_do_word_wf(t, word);
        }
    } else if s.has_token() {
        if let Ok(Parsed::Word(word)) = resolve(s.names, s.token()) {
            lemma_define(s.advance());
            lemma_do_word_wf(s.advance(), word);
        }
    }
}

/// A run keeps a state well formed.
pub proof fn lemma_run_wf(s: State)
    requires
        s.wf(),
    ensures
        s.run().0.wf(),
    decreases s.tokens_left(), frames_cost(s.bodies, s.frames),
{
    lemma_step(s);
    lemma_step_wf(s);
    if s.step().1 is None {
        lemma_run_wf(s.step().0);
    }
}

/// Well-formedness is kept: whatever the caller does with a machine, to
/// evaluate a line, to record a definition, to go on or to carry a word
/// out, a state that was well formed is so afterwards.
pub proof fn law_well_formed(
    s: State,
    line: Seq<char>,
    tokens: Seq<Seq<char>>,
    reply: Option<Value>,
    word: Word,
)
    requires
        s.wf(),
    ensures
        s.eval(line).0.wf(),
        s.eval_tokens(tokens).0.wf(),
        s.do_define(line).0.wf(),
        s.resume(reply).0.wf(),
        s.execute(word).0.wf(),
{
    lemma_halted(s, tokens_of(line));
    lemma_run_wf(s.begin(tokens_of(line)));
    lemma_halted(s, tokens);
    lemma_run_wf(s.begin(tokens));
    let opened = (State { stopping: true, ..s.begin(tokens_of(line)) }).open_definition().0;
    assert(opened.wf());
    lemma_run_wf(opened);
    lemma_receive(s, reply);
    lemma_run_wf(s.receive(reply).0);
    lemma_do_word_wf(s, word);
    lemma_run_wf(s.do_word(word).0);
}

/// A state stays well formed when the line is given up, and when another
/// line begins.
pub proof fn lemma_halted(s: State, tokens: Seq<Seq<char>>)
    requires
        s.wf(),
    ensures
        s.halted().wf(),
        s.begin(tokens).wf(),
{
}

/// Opening a definition keeps a state well formed.
pub proof fn lemma_open_definition(s: State)
    requires
        s.wf(),
    ensures
        s.open_definition().0.wf(),
{
}

/// Taking what the caller supplies keeps a state well formed.
pub proof fn lemma_receive(s: State, reply: Option<Value>)
    requires
        s.wf(),
    ensures
        s.receive(reply).0.wf(),
{
}

/// Carrying a word out keeps a state well formed.
pub proof fn lemma_do_word_wf(s: State, word: Word)
    requires
        s.wf(),
    ensures
        s.do_word(word).0.wf(),
{
}

/// Where a word has no effect, the line and the bodies stay as they are,
/// and a replay is added to those under way only by a word that replays a
/// definition.
pub proof fn lemma_do_word(s: State, word: Word)
    ensures
        s.do_word(word).1 is None ==> {
            &&& s.do_word(word).0.tokens_left() == s.tokens_left()
            &&& s.do_word(word).0.bodies == s.bodies
            &&& s.do_word(word).0.frames == if word is Definition {
                s.frames.push(Frame { body: word->Definition_0 as int, next: 0 })
            } else {
                s.frames
            }
        },
{
}

/// Closing a definition keeps a state well formed.
pub proof fn lemma_define(s: State)
    requires
        s.wf(),
    ensures
        s.define().wf(),
{
    let t = s.define();
    assert forall|b: int, i: int| 0 <= b < t.bodies.len() && 0 <= i < t.bodies[b].len() implies (
    #[trigger] t.bodies[b][i] matches Word::Definition(inner) ==> inner < b) by {
        if b < s.bodies.len() {
            assert(t.bodies[b] == s.bodies[b]);
        } else {
            assert(t.bodies[b] == s.working);
        }
    }
}

} // verus!
