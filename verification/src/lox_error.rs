//! Errors raised while resolving or running a program.
use vstd::prelude::*;

verus! {

/// An error raised after scanning and parsing: either a runtime fault
/// (type mismatch, undefined variable, bad call) or a binding fault
/// found by the static resolver.  Each variant carries its message;
/// the binding variant also names the offending token.
#[derive(Debug, PartialEq)]
pub enum LoxError {
    RuntimeError(String),
    BindingError(String, String),
}

/// The mathematical value of a `LoxError`.
pub enum SpecLoxError {
    Runtime(Seq<char>),
    Binding(Seq<char>, Seq<char>),
}

impl View for LoxError {
    type V = SpecLoxError;

    open spec fn view(&self) -> SpecLoxError {
        match self {
            LoxError::RuntimeError(m) => SpecLoxError::Runtime(m@),
            LoxError::BindingError(t, m) => SpecLoxError::Binding(t@, m@),
        }
    }
}

impl Clone for LoxError {
    fn clone(&self) -> (r: Self)
        ensures
            r@ == self@,
    {
        match self {
            LoxError::RuntimeError(m) => LoxError::RuntimeError(m.clone()),
            LoxError::BindingError(t, m) => LoxError::BindingError(t.clone(), m.clone()),
        }
    }
}

} // verus!
