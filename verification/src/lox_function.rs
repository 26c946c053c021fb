//! Runtime function values: a declaration plus the environment frame
//! captured at declaration time (the closure).
use vstd::prelude::*;
use std::rc::Rc;
use crate::stmt::{Function, SpecFunction};

verus! {

/// A function value.  `closure` is the identifier of the environment
/// frame that was current when the declaration executed.
#[derive(Debug, PartialEq)]
pub struct LoxFunction {
    pub declaration: Rc<Function>,
    pub closure: usize,
}

/// The mathematical value of a function value.
pub struct SpecLoxFunction {
    pub declaration: SpecFunction,
    pub closure: int,
}

impl View for LoxFunction {
    type V = SpecLoxFunction;

    open spec fn view(&self) -> SpecLoxFunction {
        SpecLoxFunction { declaration: self.declaration@, closure: self.closure as int }
    }
}

/// Relies on `Rc::clone`: the clone refers to the same allocation and
/// so carries the same value.
#[verifier::external_body]
pub fn rc_dup<T>(rc: &Rc<T>) -> (r: Rc<T>)
    ensures
        r == *rc,
{
    Rc::clone(rc)
}

impl Clone for LoxFunction {
    fn clone(&self) -> (r: Self)
        ensures
            r@ == self@,
    {
        LoxFunction { declaration: rc_dup(&self.declaration), closure: self.closure }
    }
}

impl LoxFunction {
    /// Invokes this function value: the interpreter binds the
    /// arguments in a fresh frame over the closure and runs the body.
    pub fn call(
        &self,
        interpreter: &mut crate::interpreter::Interpreter,
        arguments: Vec<crate::lox_value::LoxValue>,
        fuel: u64,
    ) -> (r: Result<crate::lox_value::LoxValue, crate::interpreter::Halt>)
        requires
            old(interpreter).wf(),
            0 <= self@.closure < old(interpreter)@.frames.len(),
            crate::interpreter::vals_wf(
                crate::interpreter::values_view(arguments@),
                old(interpreter)@.frames.len() as int,
            ),
        ensures
            final(interpreter).wf(),
            final(interpreter)@.frames.len() >= old(interpreter)@.frames.len(),
            match r {
                Ok(v) => crate::interpreter::spec_call(
                    self@,
                    crate::interpreter::values_view(arguments@),
                    old(interpreter)@,
                    fuel,
                ) == crate::interpreter::EvalStep::Val(v@, final(interpreter)@),
                Err(h) => crate::interpreter::spec_call(
                    self@,
                    crate::interpreter::values_view(arguments@),
                    old(interpreter)@,
                    fuel,
                ) == crate::interpreter::EvalStep::Halt(h@, final(interpreter)@),
            },
    {
        interpreter.call_function(self, arguments, fuel)
    }

    pub fn new(declaration: Rc<Function>, closure: usize) -> (r: LoxFunction)
        ensures
            r@ == (SpecLoxFunction { declaration: declaration@, closure: closure as int }),
    {
        LoxFunction { declaration, closure }
    }

    pub fn name(&self) -> (r: String)
        ensures
            r@ == self@.declaration.name.lexeme,
    {
        self.declaration.name().lexeme()
    }
}

} // verus!
