//! A tree-walking interpreter for Lox, a small dynamically-typed
//! language with first-class functions, lexical scoping and closures.
//!
//! The pipeline is scanning, recursive-descent parsing, a static
//! resolution pass that binds every variable use to a scope distance,
//! and evaluation against an arena of environment frames.  Each stage
//! is specified by a mathematical twin and proved to match it;
//! [`run`] composes the stages and is specified end to end by
//! [`spec_run`].  Numbers are 64-bit signed integers.
use vstd::prelude::*;

pub mod environment;
pub mod expr;
pub mod interpreter;
pub mod lox_error;
pub mod lox_function;
pub mod lox_value;
pub mod parser;
pub mod resolver;
pub mod scanner;
pub mod stmt;
pub mod token;

verus! {

use crate::environment::SpecFrame;
use crate::interpreter::{
    spec_interpret, Halt, Interpreter, ProgStep, SpecHalt, SpecInterp,
};
use crate::lox_error::{LoxError, SpecLoxError};
use crate::parser::{spec_parse, Parser};
use crate::resolver::{spec_resolve, Resolved, Resolver};
use crate::scanner::{spec_scan, Scanner, SpecScanError};
use crate::stmt::stmts_view;
use crate::token::tokens_view;

/// Fuel for one run; no program a machine can finish exhausts it.
pub const RUN_FUEL: u64 = 0xFFFF_FFFF_FFFF_FFFF;

/// Where a run stopped, and with what.
#[derive(Debug, PartialEq)]
pub enum RunError {
    /// An unexpected character, with its line.
    Scan(crate::scanner::ParserError),
    /// A missing or malformed token.
    Parse(crate::parser::ParserError),
    /// A fault found by the static resolver.
    Resolve(LoxError),
    /// A fault while the program ran.
    Runtime(LoxError),
    /// The interpreter's fuel ran out.
    OutOfFuel,
}

/// The mathematical value of a run error.
pub enum SpecRunError {
    Scan(SpecScanError),
    Parse(Seq<char>),
    Resolve(SpecLoxError),
    Runtime(SpecLoxError),
    OutOfFuel,
}

impl View for RunError {
    type V = SpecRunError;

    open spec fn view(&self) -> SpecRunError {
        match self {
            RunError::Scan(e) => SpecRunError::Scan(e@),
            RunError::Parse(e) => SpecRunError::Parse(e@),
            RunError::Resolve(e) => SpecRunError::Resolve(e@),
            RunError::Runtime(e) => SpecRunError::Runtime(e@),
            RunError::OutOfFuel => SpecRunError::OutOfFuel,
        }
    }
}

/// What a run produced: the lines printed, and the error that stopped
/// it, if one did.  On an error the lines printed before it are kept.
#[derive(Debug)]
pub struct RunOutcome {
    pub output: Vec<String>,
    pub error: Option<RunError>,
}

/// The error of a run as mathematics; `None` is a clean finish.
pub open spec fn spec_run_error(src: Seq<char>) -> Option<SpecRunError> {
    match spec_scan(src) {
        Err(e) => Some(SpecRunError::Scan(e)),
        Ok(toks) => match spec_parse(toks) {
            Err(m) => Some(SpecRunError::Parse(m)),
            Ok(ss) => match spec_resolve(ss, Map::empty()) {
                Resolved::Fail(le) => Some(SpecRunError::Resolve(le)),
                Resolved::Done(rst) => match spec_interpret(
                    ss,
                    initial_interp(rst.locals),
                    RUN_FUEL,
                ) {
                    ProgStep::Fin(_) => None,
                    ProgStep::Halt(SpecHalt::Fault(le), _) => Some(SpecRunError::Runtime(le)),
                    ProgStep::Halt(SpecHalt::Spent, _) => Some(SpecRunError::OutOfFuel),
                },
            },
        },
    }
}

/// The interpreter state a run starts from: one empty global frame
/// and the resolver's distance table.
pub open spec fn initial_interp(locals: Map<u64, usize>) -> SpecInterp {
    SpecInterp {
        frames: seq![SpecFrame { enclosing: None::<int>, bindings: Map::empty() }],
        cur: 0,
        locals,
        output: Seq::<Seq<char>>::empty(),
    }
}

/// The lines a run prints: everything up to the end, or up to the
/// halt.  Before the program runs, nothing has been printed.
pub open spec fn spec_run_output(src: Seq<char>) -> Seq<Seq<char>> {
    match spec_scan(src) {
        Err(_) => Seq::empty(),
        Ok(toks) => match spec_parse(toks) {
            Err(_) => Seq::empty(),
            Ok(ss) => match spec_resolve(ss, Map::empty()) {
                Resolved::Fail(_) => Seq::empty(),
                Resolved::Done(rst) => match spec_interpret(
                    ss,
                    initial_interp(rst.locals),
                    RUN_FUEL,
                ) {
                    ProgStep::Fin(st) => st.output,
                    ProgStep::Halt(_, st) => st.output,
                },
            },
        },
    }
}

/// Scans, parses, resolves and runs a source text.
///
/// The outcome's error is exactly [`spec_run_error`] of the source,
/// and the output lines are exactly [`spec_run_output`]: everything
/// printed before the end of the program, or before the fault that
/// stopped it.
pub fn run(source: &str) -> (r: RunOutcome)
    ensures
        match r.error {
            Some(e) => spec_run_error(source@) == Some(e@),
            None => spec_run_error(source@) is None,
        },
        r.output@.map_values(|s: String| s@) == spec_run_output(source@),
{
    let scanner = Scanner::new(String::from_str(source));
    proof {
        assert(Seq::<String>::empty().map_values(|s2: String| s2@) =~= Seq::<Seq<char>>::empty());
    }
    let tokens = match scanner.scan() {
        Ok(ts) => ts,
        Err(e) => {
            return RunOutcome { output: Vec::new(), error: Some(RunError::Scan(e)) };
        },
    };
    let mut parser = Parser::new(tokens);
    let statements = match parser.parse() {
        Ok(ss) => ss,
        Err(e) => {
            return RunOutcome { output: Vec::new(), error: Some(RunError::Parse(e)) };
        },
    };
    let mut interpreter = Interpreter::new();
    let mut resolver = Resolver::new();
    match resolver.resolve(&mut interpreter, &statements) {
        Ok(_) => {},
        Err(e) => {
            return RunOutcome { output: Vec::new(), error: Some(RunError::Resolve(e)) };
        },
    }
    proof {
        assert(interpreter@ == initial_interp(interpreter@.locals));
    }
    match interpreter.interpret(&statements, RUN_FUEL) {
        Ok(_) => {
            let out = RunOutcome { output: interpreter.output, error: None };
            out
        },
        Err(Halt::Fault(le)) => RunOutcome {
            output: interpreter.output,
            error: Some(RunError::Runtime(le)),
        },
        Err(Halt::Spent) => RunOutcome {
            output: interpreter.output,
            error: Some(RunError::OutOfFuel),
        },
    }
}

} // verus!
