//! The instruction set: words, the arithmetic left to the caller, errors,
//! and the built-in vocabulary.

use vstd::prelude::*;
use crate::text::matches_text;
use crate::value::Value;

verus! {

/// Why the evaluation of a line stopped.
#[derive(Clone, Copy, Debug, PartialEq, Eq)]
pub enum Error {
    /// The divisor was zero.
    DivisionByZero,
    /// A word needed more values than the stack held.
    StackUnderflow,
    /// A token is no definition, no built-in word and no number.
    UnknownWord,
    /// A structural word stood where it may not, or a definition was not
    /// well formed.
    InvalidWord,
    /// A value was owed to the stack and none was supplied.
    StackPushFailed,
}

/// Arithmetic on one value.
#[derive(Clone, Copy, Debug, PartialEq, Eq)]
pub enum UnaryOp {
    Abs,
    Round,
    Sqrt,
    Cbrt,
    LogN,
    Log,
    Sin,
    Asin,
    Sinh,
    Cos,
    Acos,
    Cosh,
    Tan,
    Atan,
    Tanh,
}

/// Arithmetic on two values.
#[derive(Clone, Copy, Debug, PartialEq, Eq)]
pub enum BinaryOp {
    Add,
    Subtract,
    Multiply,
    Divide,
    Modulo,
    Pow,
}

/// One operation of the machine.
#[derive(Clone, Copy, Debug, PartialEq, Eq)]
pub enum Word {
    Add,
    Subtract,
    Multiply,
    Divide,
    Modulo,
    Floor,
    Ceil,
    Round,
    Abs,
    Pow,
    Sqrt,
    Cbrt,
    LogN,
    Log,
    Sin,
    Asin,
    Sinh,
    Acos,
    Cos,
    Cosh,
    Tan,
    Atan,
    Tanh,
    Epsilon,
    Euler,
    Pi,
    Tau,
    /// Pushes the value it carries.
    Push(Value),
    Drop,
    Duplicate,
    Swap,
    Over,
    ClearStack,
    Emit,
    Sum,
    /// Opens a definition.
    DefineStart,
    /// Closes a definition.
    DefineEnd,
    /// Replays the body that stands at this place among the bodies.
    Definition(usize),
    /// The line has no further token.
    EndOfLine,
    Help,
    Quit,
}

/// What a token resolves to.
#[derive(Clone, Copy, Debug, PartialEq, Eq)]
pub enum Parsed {
    /// A definition or a built-in word.
    Word(Word),
    /// A numeric literal, whose value the caller has to supply.
    Number,
}

/// The built-in word that a token in small letters names, if any.
pub open spec fn builtin(s: Seq<char>) -> Option<Word> {
    if s == "+"@ {
        Some(Word::Add)
    } else if s == "-"@ {
        Some(Word::Subtract)
    } else if s == "*"@ {
        Some(Word::Multiply)
    } else if s == "/"@ {
        Some(Word::Divide)
    } else if s == "dup"@ {
        Some(Word::Duplicate)
    } else if s == "drop"@ {
        Some(Word::Drop)
    } else if s == "swap"@ {
        Some(Word::Swap)
    } else if s == "over"@ {
        Some(Word::Over)
    } else if s == ":"@ {
        Some(Word::DefineStart)
    } else if s == ";"@ {
        Some(Word::DefineEnd)
    } else if s == "%"@ {
        Some(Word::Modulo)
    } else if s == "abs"@ || s == "||"@ {
        Some(Word::Abs)
    } else if s == "floor"@ || s == "fl"@ {
        Some(Word::Floor)
    } else if s == "ceil"@ || s == "cl"@ {
        Some(Word::Ceil)
    } else if s == "round"@ || s == "r"@ {
        Some(Word::Round)
    } else if s == "pow"@ || s == "^"@ {
        Some(Word::Pow)
    } else if s == "sqrt"@ || s == "v"@ {
        Some(Word::Sqrt)
    } else if s == "cbrt"@ || s == "v3"@ {
        Some(Word::Cbrt)
    } else if s == "ln"@ {
        Some(Word::LogN)
    } else if s == "log"@ {
        Some(Word::Log)
    } else if s == "sin"@ {
        Some(Word::Sin)
    } else if s == "asin"@ {
        Some(Word::Asin)
    } else if s == "sinh"@ {
        Some(Word::Sinh)
    } else if s == "cos"@ {
        Some(Word::Cos)
    } else if s == "acos"@ {
        Some(Word::Acos)
    } else if s == "cosh"@ {
        Some(Word::Cosh)
    } else if s == "tan"@ {
        Some(Word::Tan)
    } else if s == "atan"@ {
        Some(Word::Atan)
    } else if s == "tanh"@ {
        Some(Word::Tanh)
    } else if s == "me"@ {
        Some(Word::Epsilon)
    } else if s == "euler"@ || s == "e"@ {
        Some(Word::Euler)
    } else if s == "pi"@ {
        Some(Word::Pi)
    } else if s == "tau"@ {
        Some(Word::Tau)
    } else if s == "help"@ || s == "?"@ {
        Some(Word::Help)
    } else if s == "emit"@ || s == "."@ {
        Some(Word::Emit)
    } else if s == "sum"@ {
        Some(Word::Sum)
    } else if s == "clear"@ || s == "c"@ {
        Some(Word::ClearStack)
    } else if s == "quit"@ || s == "q"@ {
        Some(Word::Quit)
    } else {
        None
    }
}

/// Looks a token in small letters up in the built-in vocabulary.
pub fn builtin_word(token: &Vec<char>) -> (r: Option<Word>)
    ensures
        r == builtin(token@),
{
    if matches_text(token, "+") {
        Some(Word::Add)
    } else if matches_text(token, "-") {
        Some(Word::Subtract)
    } else if matches_text(token, "*") {
        Some(Word::Multiply)
    } else if matches_text(token, "/") {
        Some(Word::Divide)
    } else if matches_text(token, "dup") {
        Some(Word::Duplicate)
    } else if matches_text(token, "drop") {
        Some(Word::Drop)
    } else if matches_text(token, "swap") {
        Some(Word::Swap)
    } else if matches_text(token, "over") {
        Some(Word::Over)
    } else if matches_text(token, ":") {
        Some(Word::DefineStart)
    } else if matches_text(token, ";") {
        Some(Word::DefineEnd)
    } else if matches_text(token, "%") {
        Some(Word::Modulo)
    } else if matches_text(token, "abs") || matches_text(token, "||") {
        Some(Word::Abs)
    } else if matches_text(token, "floor") || matches_text(token, "fl") {
        Some(Word::Floor)
    } else if matches_text(token, "ceil") || matches_text(token, "cl") {
        Some(Word::Ceil)
    } else if matches_text(token, "round") || matches_text(token, "r") {
        Some(Word::Round)
    } else if matches_text(token, "pow") || matches_text(token, "^") {
        Some(Word::Pow)
    } else if matches_text(token, "sqrt") || matches_text(token, "v") {
        Some(Word::Sqrt)
    } else if matches_text(token, "cbrt") || matches_text(token, "v3") {
        Some(Word::Cbrt)
    } else if matches_text(token, "ln") {
        Some(Word::LogN)
    } else if matches_text(token, "log") {
        Some(Word::Log)
    } else if matches_text(token, "sin") {
        Some(Word::Sin)
    } else if matches_text(token, "asin") {
        Some(Word::Asin)
    } else if matches_text(token, "sinh") {
        Some(Word::Sinh)
    } else if matches_text(token, "cos") {
        Some(Word::Cos)
    } else if matches_text(token, "acos") {
        Some(Word::Acos)
    } else if matches_text(token, "cosh") {
        Some(Word::Cosh)
    } else if matches_text(token, "tan") {
        Some(Word::Tan)
    } else if matches_text(token, "atan") {
        Some(Word::Atan)
    } else if matches_text(token, "tanh") {
        Some(Word::Tanh)
    } else if matches_text(token, "me") {
        Some(Word::Epsilon)
    } else if matches_text(token, "euler") || matches_text(token, "e") {
        Some(Word::Euler)
    } else if matches_text(token, "pi") {
        Some(Word::Pi)
    } else if matches_text(token, "tau") {
        Some(Word::Tau)
    } else if matches_text(token, "help") || matches_text(token, "?") {
        Some(Word::Help)
    } else if matches_text(token, "emit") || matches_text(token, ".") {
        Some(Word::Emit)
    } else if matches_text(token, "sum") {
        Some(Word::Sum)
    } else if matches_text(token, "clear") || matches_text(token, "c") {
        Some(Word::ClearStack)
    } else if matches_text(token, "quit") || matches_text(token, "q") {
        Some(Word::Quit)
    } else {
        None
    }
}

/// The built-in vocabulary, name by name: each name stands for its word,
/// and no name hides another. No name stands for the pushing of a value,
/// for a definition or for the end of the line.
pub proof fn law_vocabulary()
    ensures
        builtin("+"@) == Some(Word::Add),
        builtin("-"@) == Some(Word::Subtract),
        builtin("*"@) == Some(Word::Multiply),
        builtin("/"@) == Some(Word::Divide),
        builtin("dup"@) == Some(Word::Duplicate),
        builtin("drop"@) == Some(Word::Drop),
        builtin("swap"@) == Some(Word::Swap),
        builtin("over"@) == Some(Word::Over),
        builtin(":"@) == Some(Word::DefineStart),
        builtin(";"@) == Some(Word::DefineEnd),
        builtin("%"@) == Some(Word::Modulo),
        builtin("abs"@) == Some(Word::Abs),
        builtin("||"@) == Some(Word::Abs),
        builtin("floor"@) == Some(Word::Floor),
        builtin("fl"@) == Some(Word::Floor),
        builtin("ceil"@) == Some(Word::Ceil),
        builtin("cl"@) == Some(Word::Ceil),
        builtin("round"@) == Some(Word::Round),
        builtin("r"@) == Some(Word::Round),
        builtin("pow"@) == Some(Word::Pow),
        builtin("^"@) == Some(Word::Pow),
        builtin("sqrt"@) == Some(Word::Sqrt),
        builtin("v"@) == Some(Word::Sqrt),
        builtin("cbrt"@) == Some(Word::Cbrt),
        builtin("v3"@) == Some(Word::Cbrt),
        builtin("ln"@) == Some(Word::LogN),
        builtin("log"@) == Some(Word::Log),
        builtin("sin"@) == Some(Word::Sin),
        builtin("asin"@) == Some(Word::Asin),
        builtin("sinh"@) == Some(Word::Sinh),
        builtin("cos"@) == Some(Word::Cos),
        builtin("acos"@) == Some(Word::Acos),
        builtin("cosh"@) == Some(Word::Cosh),
        builtin("tan"@) == Some(Word::Tan),
        builtin("atan"@) == Some(Word::Atan),
        builtin("tanh"@) == Some(Word::Tanh),
        builtin("me"@) == Some(Word::Epsilon),
        builtin("euler"@) == Some(Word::Euler),
        builtin("e"@) == Some(Word::Euler),
        builtin("pi"@) == Some(Word::Pi),
        builtin("tau"@) == Some(Word::Tau),
        builtin("help"@) == Some(Word::Help),
        builtin("?"@) == Some(Word::Help),
        builtin("emit"@) == Some(Word::Emit),
        builtin("."@) == Some(Word::Emit),
        builtin("sum"@) == Some(Word::Sum),
        builtin("clear"@) == Some(Word::ClearStack),
        builtin("c"@) == Some(Word::ClearStack),
        builtin("quit"@) == Some(Word::Quit),
        builtin("q"@) == Some(Word::Quit),
        forall|s: Seq<char>|
            !(#[trigger] builtin(s) is Some && (builtin(s)->0 is Push || builtin(s)->0 is Definition
                || builtin(s)->0 is EndOfLine)),
{
    reveal_strlit("+");
    assert("+"@.len() == 1 && "+"@[0] == '+');
    reveal_strlit("-");
    assert("-"@.len() == 1 && "-"@[0] == '-');
    reveal_strlit("*");
    assert("*"@.len() == 1 && "*"@[0] == '*');
    reveal_strlit("/");
    assert("/"@.len() == 1 && "/"@[0] == '/');
    reveal_strlit("dup");
    assert("dup"@.len() == 3 && "dup"@[0] == 'd' && "dup"@[1] == 'u' && "dup"@[2] == 'p');
    reveal_strlit("drop");
    assert("drop"@.len() == 4 && "drop"@[0] == 'd' && "drop"@[1] == 'r' && "drop"@[2] == 'o' && "drop"@[3] == 'p');
    reveal_strlit("swap");
    assert("swap"@.len() == 4 && "swap"@[0] == 's' && "swap"@[1] == 'w' && "swap"@[2] == 'a' && "swap"@[3] == 'p');
    reveal_strlit("over");
    assert("over"@.len() == 4 && "over"@[0] == 'o' && "over"@[1] == 'v' && "over"@[2] == 'e' && "over"@[3] == 'r');
    reveal_strlit(":");
    assert(":"@.len() == 1 && ":"@[0] == ':');
    reveal_strlit(";");
    assert(";"@.len() == 1 && ";"@[0] == ';');
    reveal_strlit("%");
    assert("%"@.len() == 1 && "%"@[0] == '%');
    reveal_strlit("abs");
    assert("abs"@.len() == 3 && "abs"@[0] == 'a' && "abs"@[1] == 'b' && "abs"@[2] == 's');
    reveal_strlit("||");
    assert("||"@.len() == 2 && "||"@[0] == '|' && "||"@[1] == '|');
    reveal_strlit("floor");
    assert("floor"@.len() == 5 && "floor"@[0] == 'f' && "floor"@[1] == 'l' && "floor"@[2] == 'o' && "floor"@[3] == 'o' && "floor"@[4] == 'r');
    reveal_strlit("fl");
    assert("fl"@.len() == 2 && "fl"@[0] == 'f' && "fl"@[1] == 'l');
    reveal_strlit("ceil");
    assert("ceil"@.len() == 4 && "ceil"@[0] == 'c' && "ceil"@[1] == 'e' && "ceil"@[2] == 'i' && "ceil"@[3] == 'l');
    reveal_strlit("cl");
    assert("cl"@.len() == 2 && "cl"@[0] == 'c' && "cl"@[1] == 'l');
    reveal_strlit("round");
    assert("round"@.len() == 5 && "round"@[0] == 'r' && "round"@[1] == 'o' && "round"@[2] == 'u' && "round"@[3] == 'n' && "round"@[4] == 'd');
    reveal_strlit("r");
    assert("r"@.len() == 1 && "r"@[0] == 'r');
    reveal_strlit("pow");
    assert("pow"@.len() == 3 && "pow"@[0] == 'p' && "pow"@[1] == 'o' && "pow"@[2] == 'w');
    reveal_strlit("^");
    assert("^"@.len() == 1 && "^"@[0] == '^');
    reveal_strlit("sqrt");
    assert("sqrt"@.len() == 4 && "sqrt"@[0] == 's' && "sqrt"@[1] == 'q' && "sqrt"@[2] == 'r' && "sqrt"@[3] == 't');
    reveal_strlit("v");
    assert("v"@.len() == 1 && "v"@[0] == 'v');
    reveal_strlit("cbrt");
    assert("cbrt"@.len() == 4 && "cbrt"@[0] == 'c' && "cbrt"@[1] == 'b' && "cbrt"@[2] == 'r' && "cbrt"@[3] == 't');
    reveal_strlit("v3");
    assert("v3"@.len() == 2 && "v3"@[0] == 'v' && "v3"@[1] == '3');
    reveal_strlit("ln");
    assert("ln"@.len() == 2 && "ln"@[0] == 'l' && "ln"@[1] == 'n');
    reveal_strlit("log");
    assert("log"@.len() == 3 && "log"@[0] == 'l' && "log"@[1] == 'o' && "log"@[2] == 'g');
    reveal_strlit("sin");
    assert("sin"@.len() == 3 && "sin"@[0] == 's' && "sin"@[1] == 'i' && "sin"@[2] == 'n');
    reveal_strlit("asin");
    assert("asin"@.len() == 4 && "asin"@[0] == 'a' && "asin"@[1] == 's' && "asin"@[2] == 'i' && "asin"@[3] == 'n');
    reveal_strlit("sinh");
    assert("sinh"@.len() == 4 && "sinh"@[0] == 's' && "sinh"@[1] == 'i' && "sinh"@[2] == 'n' && "sinh"@[3] == 'h');
    reveal_strlit("cos");
    assert("cos"@.len() == 3 && "cos"@[0] == 'c' && "cos"@[1] == 'o' && "cos"@[2] == 's');
    reveal_strlit("acos");
    assert("acos"@.len() == 4 && "acos"@[0] == 'a' && "acos"@[1] == 'c' && "acos"@[2] == 'o' && "acos"@[3] == 's');
    reveal_strlit("cosh");
    assert("cosh"@.len() == 4 && "cosh"@[0] == 'c' && "cosh"@[1] == 'o' && "cosh"@[2] == 's' && "cosh"@[3] == 'h');
    reveal_strlit("tan");
    assert("tan"@.len() == 3 && "tan"@[0] == 't' && "tan"@[1] == 'a' && "tan"@[2] == 'n');
    reveal_strlit("atan");
    assert("atan"@.len() == 4 && "atan"@[0] == 'a' && "atan"@[1] == 't' && "atan"@[2] == 'a' && "atan"@[3] == 'n');
    reveal_strlit("tanh");
    assert("tanh"@.len() == 4 && "tanh"@[0] == 't' && "tanh"@[1] == 'a' && "tanh"@[2] == 'n' && "tanh"@[3] == 'h');
    reveal_strlit("me");
    assert("me"@.len() == 2 && "me"@[0] == 'm' && "me"@[1] == 'e');
    reveal_strlit("euler");
    assert("euler"@.len() == 5 && "euler"@[0] == 'e' && "euler"@[1] == 'u' && "euler"@[2] == 'l' && "euler"@[3] == 'e' && "euler"@[4] == 'r');
    reveal_strlit("e");
    assert("e"@.len() == 1 && "e"@[0] == 'e');
    reveal_strlit("pi");
    assert("pi"@.len() == 2 && "pi"@[0] == 'p' && "pi"@[1] == 'i');
    reveal_strlit("tau");
    assert("tau"@.len() == 3 && "tau"@[0] == 't' && "tau"@[1] == 'a' && "tau"@[2] == 'u');
    reveal_strlit("help");
    assert("help"@.len() == 4 && "help"@[0] == 'h' && "help"@[1] == 'e' && "help"@[2] == 'l' && "help"@[3] == 'p');
    reveal_strlit("?");
    assert("?"@.len() == 1 && "?"@[0] == '?');
    reveal_strlit("emit");
    assert("emit"@.len() == 4 && "emit"@[0] == 'e' && "emit"@[1] == 'm' && "emit"@[2] == 'i' && "emit"@[3] == 't');
    reveal_strlit(".");
    assert("."@.len() == 1 && "."@[0] == '.');
    reveal_strlit("sum");
    assert("sum"@.len() == 3 && "sum"@[0] == 's' && "sum"@[1] == 'u' && "sum"@[2] == 'm');
    reveal_strlit("clear");
    assert("clear"@.len() == 5 && "clear"@[0] == 'c' && "clear"@[1] == 'l' && "clear"@[2] == 'e' && "clear"@[3] == 'a' && "clear"@[4] == 'r');
    reveal_strlit("c");
    assert("c"@.len() == 1 && "c"@[0] == 'c');
    reveal_strlit("quit");
    assert("quit"@.len() == 4 && "quit"@[0] == 'q' && "quit"@[1] == 'u' && "quit"@[2] == 'i' && "quit"@[3] == 't');
    reveal_strlit("q");
    assert("q"@.len() == 1 && "q"@[0] == 'q');
}

} // verus!
