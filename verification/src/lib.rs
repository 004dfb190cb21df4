//! A small dynamically typed, expression-oriented language runtime.
//!
//! Every construct of the language, control flow and variable binding
//! included, is a named function invocation with positional arguments,
//! resolved at call time by matching the call's name, arity and the runtime
//! shapes of its (possibly unevaluated) arguments against the registered
//! signatures.
//!
//! The crate is the evaluation engine alone: signature overload resolution,
//! the scoping model, the value representation with shared mutable aliasing,
//! and the propagation of break/continue/return through nested invocations.
//! Programs arrive already parsed, as a sequence of [`interpreter::Invocation`]
//! trees; the engine performs no real I/O, it consumes a sequence of input
//! lines and produces a sequence of output lines.

pub mod interpreter;
pub mod util;
