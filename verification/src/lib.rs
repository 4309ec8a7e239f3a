//! A reverse Polish notation calculator with a small Forth-like word
//! mechanism, written as a resumable stack machine.
//!
//! An [`RPN`] owns the evaluation stack, the definitions, and the place in
//! the line that it evaluates. Numbers are IEEE 754 binary64 values carried
//! as their bit patterns. The machine compares them and tells zero from
//! the rest, and leaves all arithmetic to its caller: [`RPN::eval`] runs
//! until the line is done or until something is to be done outside, and
//! says which in an [`Action`]; [`RPN::resume`] hands the result in and
//! runs on.
//!
//! What the machine does is stated in [`semantics`] over plain
//! mathematical values, and [`laws`] holds what follows for every state.

pub mod laws;
pub mod number;
pub mod rpn;
pub mod semantics;
pub mod text;
pub mod value;
pub mod word;

pub use rpn::{Action, RPN};
pub use value::Value;
pub use word::{BinaryOp, Error, Parsed, UnaryOp, Word};
