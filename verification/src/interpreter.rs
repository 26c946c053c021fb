//! Tree-walking evaluation of statements and expressions.
use vstd::prelude::*;
use crate::environment::{
    env_wf, spec_ancestor, spec_assign, spec_define, spec_lookup, val_wf, Environment, SpecFrame,
};
use crate::expr::{Expr, SpecExpr, SpecLiteral};
use crate::lox_error::{LoxError, SpecLoxError};
use crate::lox_function::{rc_dup, LoxFunction, SpecLoxFunction};
use crate::lox_value::{spec_truthy, LoxValue, SpecValue};
use crate::stmt::{SpecFunction, SpecStmt, Stmt};
use crate::token::TokenType;
use vstd::hash_map::HashMapWithView;

verus! {

use vstd::string::StringExecFns;

/// The interpreter's whole state as mathematics: the arena of frames,
/// the current frame, the resolver's scope-distance table, and the
/// lines printed so far.
pub struct SpecInterp {
    pub frames: Seq<SpecFrame>,
    pub cur: int,
    pub locals: Map<u64, usize>,
    pub output: Seq<Seq<char>>,
}

/// A state whose frame chain is sound and whose current frame exists.
pub open spec fn interp_wf(st: SpecInterp) -> bool {
    &&& env_wf(st.frames)
    &&& 0 <= st.cur < st.frames.len()
}

/// The interpreter: the environment arena, the identifier of the
/// current frame (frame 0 is the globals), the distance table keyed by
/// expression identifiers, and the output sink.
pub struct Interpreter {
    pub environment: Environment,
    pub current: usize,
    pub locals: HashMapWithView<u64, usize>,
    pub output: Vec<String>,
}

impl View for Interpreter {
    type V = SpecInterp;

    open spec fn view(&self) -> SpecInterp {
        SpecInterp {
            frames: self.environment@,
            cur: self.current as int,
            locals: self.locals@,
            output: self.output@.map_values(|s: String| s@),
        }
    }
}

impl Interpreter {
    pub open spec fn wf(&self) -> bool {
        interp_wf(self@)
    }

    /// A fresh interpreter: an empty global environment, an empty
    /// distance table, no output.
    pub fn new() -> (r: Interpreter)
        ensures
            r@ == (SpecInterp {
                frames: seq![SpecFrame { enclosing: None::<int>, bindings: Map::empty() }],
                cur: 0,
                locals: Map::<u64, usize>::empty(),
                output: Seq::<Seq<char>>::empty(),
            }),
            r.wf(),
    {
        broadcast use vstd::std_specs::hash::axiom_u64_obeys_hash_table_key_model;

        let r = Interpreter {
            environment: Environment::new(),
            current: 0,
            locals: HashMapWithView::<u64, usize>::new(),
            output: Vec::new(),
        };
        proof {
            assert(r@.output =~= Seq::<Seq<char>>::empty());
        }
        r
    }

    /// The environment arena.
    pub fn environment(&self) -> (r: &Environment)
        ensures
            r@ == self@.frames,
    {
        &self.environment
    }

    /// Records that the expression node `expr_id` binds `depth` scopes
    /// out; the resolver is the only caller.
    pub fn resolve(&mut self, expr_id: u64, depth: usize)
        ensures
            final(self)@ == (SpecInterp {
                locals: old(self)@.locals.insert(expr_id, depth),
                ..old(self)@
            }),
            old(self).wf() ==> final(self).wf(),
    {
        self.locals.insert(expr_id, depth);
    }
}

// ---------------------------------------------------------------
// Rendering values for `print`.
// ---------------------------------------------------------------

/// The decimal digits of a non-negative number.
pub open spec fn dec_nat(n: int) -> Seq<char>
    decreases n,
{
    if n < 10 {
        seq![((48 + if n >= 0 { n } else { 0 }) as u8) as char]
    } else {
        dec_nat(n / 10).push(((48 + n % 10) as u8) as char)
    }
}

/// The decimal rendering of a number, minus sign included.
pub open spec fn dec_of(n: int) -> Seq<char> {
    if n < 0 {
        seq!['-'] + dec_nat(-n)
    } else {
        dec_nat(n)
    }
}

/// How `print` renders each value.
pub open spec fn render(v: SpecValue) -> Seq<char> {
    match v {
        SpecValue::Nil => "nil"@,
        SpecValue::Bool(b) => if b {
            "true"@
        } else {
            "false"@
        },
        SpecValue::Num(n) => dec_of(n),
        SpecValue::Str(s) => s,
        SpecValue::Fun(f) => "fn "@ + f.declaration.name.lexeme,
    }
}

/// Appends the decimal digits of a non-negative number.
fn push_digits(m: u64, out: &mut Vec<char>)
    ensures
        final(out)@ == old(out)@ + dec_nat(m as int),
    decreases m,
{
    if m < 10 {
        out.push((48 + m as u8) as char);
        proof {
            assert(dec_nat(m as int) =~= seq![((48 + m as int) as u8) as char]);
            assert(out@ =~= old(out)@ + dec_nat(m as int));
        }
    } else {
        push_digits(m / 10, out);
        out.push((48 + (m % 10) as u8) as char);
        proof {
            assert(dec_nat(m as int) == dec_nat(m as int / 10).push(
                ((48 + (m as int) % 10) as u8) as char,
            ));
            assert(out@ =~= old(out)@ + dec_nat(m as int));
        }
    }
}

/// Writes a number in decimal.
fn num_to_string(n: i64) -> (s: String)
    ensures
        s@ == dec_of(n as int),
{
    let mut digits: Vec<char> = Vec::new();
    if n < 0 {
        digits.push('-');
    }
    push_digits(crate::lox_value::magnitude(n), &mut digits);
    proof {
        if n < 0 {
            assert(digits@ =~= seq!['-'] + dec_nat(-(n as int)));
        }
    }
    crate::scanner::chars_to_string(digits.as_slice())
}

/// Renders a value the way `print` shows it.
pub fn render_value(v: &LoxValue) -> (s: String)
    ensures
        s@ == render(v@),
{
    match v {
        LoxValue::Nil => String::from_str("nil"),
        LoxValue::Boolean(b) => if *b {
            String::from_str("true")
        } else {
            String::from_str("false")
        },
        LoxValue::Number(n) => num_to_string(*n),
        LoxValue::String(s) => s.clone(),
        LoxValue::Function(f) => {
            let mut s = String::from_str("fn ");
            let name = f.name();
            s.append(name.as_str());
            s
        },
    }
}

// ---------------------------------------------------------------
// The specification semantics: a big-step evaluator over fuel.
// ---------------------------------------------------------------

/// Why evaluation stopped early: a runtime fault, or the fuel ran
/// out.
pub enum SpecHalt {
    Fault(SpecLoxError),
    Spent,
}

/// What evaluating an expression does: a value and the state after
/// it, or a halt with the state at the halt.
pub enum EvalStep {
    Val(SpecValue, SpecInterp),
    Halt(SpecHalt, SpecInterp),
}

/// What executing a statement does: fall through, return a value to
/// the nearest call, or halt.
pub enum ExecStep {
    Done(SpecInterp),
    Ret(SpecValue, SpecInterp),
    Halt(SpecHalt, SpecInterp),
}

/// What evaluating an argument list does.
pub enum ArgsStep {
    Vals(Seq<SpecValue>, SpecInterp),
    Halt(SpecHalt, SpecInterp),
}

pub open spec fn rt(msg: Seq<char>) -> SpecHalt {
    SpecHalt::Fault(SpecLoxError::Runtime(msg))
}

/// The value a literal stands for.
pub open spec fn sv_literal(l: SpecLiteral) -> SpecValue {
    match l {
        SpecLiteral::Nil => SpecValue::Nil,
        SpecLiteral::Bool(b) => SpecValue::Bool(b),
        SpecLiteral::Number(n) => SpecValue::Num(n),
        SpecLiteral::Str(s) => SpecValue::Str(s),
    }
}

pub open spec fn with_cur(st: SpecInterp, c: int) -> SpecInterp {
    SpecInterp { cur: c, ..st }
}

pub open spec fn with_frames(st: SpecInterp, frames: Seq<SpecFrame>) -> SpecInterp {
    SpecInterp { frames, ..st }
}

pub open spec fn undefined_variable(name: Seq<char>) -> SpecHalt {
    rt("Undefined variable '"@ + name + "'."@)
}

/// Binds each parameter to its argument in frame `env`.
pub open spec fn bind_params(
    frames: Seq<SpecFrame>,
    env: int,
    params: Seq<crate::token::SpecToken>,
    args: Seq<SpecValue>,
) -> Seq<SpecFrame>
    decreases params.len(),
{
    if params.len() == 0 || args.len() == 0 {
        frames
    } else {
        bind_params(
            spec_define(frames, env, params[0].lexeme, args[0]),
            env,
            params.drop_first(),
            args.drop_first(),
        )
    }
}

/// Reads a variable: through the distance table when the resolver
/// annotated the node, dynamically through the globals otherwise.
pub open spec fn spec_read_variable(st: SpecInterp, id: u64, name: Seq<char>) -> EvalStep {
    if st.locals.dom().contains(id) {
        match spec_ancestor(st.frames, st.cur, st.locals[id] as nat) {
            Some(f) => if 0 <= f < st.frames.len() && st.frames[f].bindings.dom().contains(name) {
                EvalStep::Val(st.frames[f].bindings[name], st)
            } else {
                EvalStep::Halt(undefined_variable(name), st)
            },
            None => EvalStep::Halt(undefined_variable(name), st),
        }
    } else {
        match spec_lookup(st.frames, 0, name) {
            Some(v) => EvalStep::Val(v, st),
            None => EvalStep::Halt(undefined_variable(name), st),
        }
    }
}

/// Writes a variable: at its resolved distance, or through the
/// globals.  Assignment is an expression and yields the value.
pub open spec fn spec_write_variable(
    st: SpecInterp,
    id: u64,
    name: Seq<char>,
    v: SpecValue,
) -> EvalStep {
    if st.locals.dom().contains(id) {
        match spec_ancestor(st.frames, st.cur, st.locals[id] as nat) {
            Some(f) => if 0 <= f < st.frames.len() && st.frames[f].bindings.dom().contains(name) {
                EvalStep::Val(v, with_frames(st, spec_define(st.frames, f, name, v)))
            } else {
                EvalStep::Halt(undefined_variable(name), st)
            },
            None => EvalStep::Halt(undefined_variable(name), st),
        }
    } else {
        match spec_assign(st.frames, 0, name, v) {
            Some(frames2) => EvalStep::Val(v, with_frames(st, frames2)),
            None => EvalStep::Halt(undefined_variable(name), st),
        }
    }
}

pub open spec fn spec_eval(e: SpecExpr, st: SpecInterp, fuel: u64) -> EvalStep
    decreases fuel, 0int,
{
    if fuel == 0 {
        EvalStep::Halt(SpecHalt::Spent, st)
    } else {
        match e {
            SpecExpr::Literal(l) => EvalStep::Val(sv_literal(l), st),
            SpecExpr::Grouping(inner) => spec_eval(*inner, st, (fuel - 1) as u64),
            SpecExpr::Unary { operator, right } => match spec_eval(*right, st, (fuel - 1) as u64) {
                EvalStep::Val(v, st1) => match crate::lox_value::spec_unary(
                    operator.token_type,
                    v,
                ) {
                    Ok(out) => EvalStep::Val(out, st1),
                    Err(m) => EvalStep::Halt(rt(m), st1),
                },
                EvalStep::Halt(h, sth) => EvalStep::Halt(h, sth),
            },
            SpecExpr::Binary { left, operator, right } => match spec_eval(
                *left,
                st,
                (fuel - 1) as u64,
            ) {
                EvalStep::Val(a, st1) => match spec_eval(*right, st1, (fuel - 1) as u64) {
                    EvalStep::Val(b, st2) => match crate::lox_value::spec_binary(
                        operator.token_type,
                        a,
                        b,
                    ) {
                        Ok(out) => EvalStep::Val(out, st2),
                        Err(m) => EvalStep::Halt(rt(m), st2),
                    },
                    EvalStep::Halt(h, sth) => EvalStep::Halt(h, sth),
                },
                EvalStep::Halt(h, sth) => EvalStep::Halt(h, sth),
            },
            SpecExpr::Logical { left, operator, right } => match spec_eval(
                *left,
                st,
                (fuel - 1) as u64,
            ) {
                EvalStep::Val(a, st1) => {
                    if operator.token_type == TokenType::Or {
                        if spec_truthy(a) {
                            EvalStep::Val(a, st1)
                        } else {
                            spec_eval(*right, st1, (fuel - 1) as u64)
                        }
                    } else {
                        if !spec_truthy(a) {
                            EvalStep::Val(a, st1)
                        } else {
                            spec_eval(*right, st1, (fuel - 1) as u64)
                        }
                    }
                },
                EvalStep::Halt(h, sth) => EvalStep::Halt(h, sth),
            },
            SpecExpr::Variable { id, name } => spec_read_variable(st, id, name.lexeme),
            SpecExpr::Assign { id, name, value } => match spec_eval(*value, st, (fuel - 1) as u64) {
                EvalStep::Val(v, st1) => spec_write_variable(st1, id, name.lexeme, v),
                EvalStep::Halt(h, sth) => EvalStep::Halt(h, sth),
            },
            SpecExpr::Call { callee, paren: _, arguments } => match spec_eval(
                *callee,
                st,
                (fuel - 1) as u64,
            ) {
                EvalStep::Val(cv, st1) => match spec_eval_args(
                    arguments,
                    Seq::empty(),
                    st1,
                    (fuel - 1) as u64,
                ) {
                    ArgsStep::Vals(vs, st2) => match cv {
                        SpecValue::Fun(f) => spec_call(f, vs, st2, (fuel - 1) as u64),
                        _ => EvalStep::Halt(rt("Can only call functions."@), st2),
                    },
                    ArgsStep::Halt(h, sth) => EvalStep::Halt(h, sth),
                },
                EvalStep::Halt(h, sth) => EvalStep::Halt(h, sth),
            },
        }
    }
}

pub open spec fn spec_eval_args(
    es: Seq<SpecExpr>,
    sofar: Seq<SpecValue>,
    st: SpecInterp,
    fuel: u64,
) -> ArgsStep
    decreases fuel, 0int,
{
    if fuel == 0 {
        ArgsStep::Halt(SpecHalt::Spent, st)
    } else if es.len() == 0 {
        ArgsStep::Vals(sofar, st)
    } else {
        match spec_eval(es[0], st, (fuel - 1) as u64) {
            EvalStep::Val(v, st1) => spec_eval_args(
                es.drop_first(),
                sofar.push(v),
                st1,
                (fuel - 1) as u64,
            ),
            EvalStep::Halt(h, sth) => ArgsStep::Halt(h, sth),
        }
    }
}

/// Runs statements with `env` installed as the current frame, and
/// restores the caller's frame on every outcome that carries a state.
pub open spec fn spec_exec_in(
    ss: Seq<SpecStmt>,
    env: int,
    st: SpecInterp,
    fuel: u64,
) -> ExecStep
    decreases fuel, 1int,
{
    if fuel == 0 {
        ExecStep::Halt(SpecHalt::Spent, st)
    } else {
        match spec_exec_seq(ss, with_cur(st, env), (fuel - 1) as u64) {
            ExecStep::Done(st2) => ExecStep::Done(with_cur(st2, st.cur)),
            ExecStep::Ret(v, st2) => ExecStep::Ret(v, with_cur(st2, st.cur)),
            ExecStep::Halt(h, st2) => ExecStep::Halt(h, with_cur(st2, st.cur)),
        }
    }
}

/// Calls a function value: a fresh frame over its closure, the
/// parameters bound to the arguments, the body run in it.  A call
/// that falls off the body's end yields nil.
pub open spec fn spec_call(
    f: crate::lox_function::SpecLoxFunction,
    args: Seq<SpecValue>,
    st: SpecInterp,
    fuel: u64,
) -> EvalStep
    decreases fuel, 2int,
{
    if fuel == 0 {
        EvalStep::Halt(SpecHalt::Spent, st)
    } else if args.len() != f.declaration.params.len() {
        EvalStep::Halt(rt("Wrong number of arguments."@), st)
    } else {
        let envid = st.frames.len() as int;
        let frames1 = st.frames.push(
            SpecFrame { enclosing: Some(f.closure), bindings: Map::empty() },
        );
        let frames2 = bind_params(frames1, envid, f.declaration.params, args);
        match spec_exec_in(f.declaration.body, envid, with_frames(st, frames2), fuel) {
            ExecStep::Done(st2) => EvalStep::Val(SpecValue::Nil, st2),
            ExecStep::Ret(v, st2) => EvalStep::Val(v, st2),
            ExecStep::Halt(h, sth) => EvalStep::Halt(h, sth),
        }
    }
}

pub open spec fn spec_exec(s: SpecStmt, st: SpecInterp, fuel: u64) -> ExecStep
    decreases fuel, 0int,
{
    if fuel == 0 {
        ExecStep::Halt(SpecHalt::Spent, st)
    } else {
        match s {
            SpecStmt::Expression(e) => match spec_eval(e, st, (fuel - 1) as u64) {
                EvalStep::Val(_, st1) => ExecStep::Done(st1),
                EvalStep::Halt(h, sth) => ExecStep::Halt(h, sth),
            },
            SpecStmt::Print(e) => match spec_eval(e, st, (fuel - 1) as u64) {
                EvalStep::Val(v, st1) => ExecStep::Done(
                    SpecInterp { output: st1.output.push(render(v)), ..st1 },
                ),
                EvalStep::Halt(h, sth) => ExecStep::Halt(h, sth),
            },
            SpecStmt::Var { name, initializer } => {
                let evaluated: EvalStep = match initializer {
                    Some(e) => spec_eval(e, st, (fuel - 1) as u64),
                    None => EvalStep::Val(SpecValue::Nil, st),
                };
                match evaluated {
                    EvalStep::Val(v, st1) => ExecStep::Done(
                        with_frames(st1, spec_define(st1.frames, st1.cur, name.lexeme, v)),
                    ),
                    EvalStep::Halt(h, sth) => ExecStep::Halt(h, sth),
                }
            },
            SpecStmt::Block(ss) => {
                let envid = st.frames.len() as int;
                let frames1 = st.frames.push(
                    SpecFrame { enclosing: Some(st.cur), bindings: Map::empty() },
                );
                spec_exec_in(ss, envid, with_frames(st, frames1), (fuel - 1) as u64)
            },
            SpecStmt::If { condition, then_branch, else_branch } => match spec_eval(
                condition,
                st,
                (fuel - 1) as u64,
            ) {
                EvalStep::Val(c, st1) => if spec_truthy(c) {
                    spec_exec(*then_branch, st1, (fuel - 1) as u64)
                } else {
                    match else_branch {
                        Some(els) => spec_exec(*els, st1, (fuel - 1) as u64),
                        None => ExecStep::Done(st1),
                    }
                },
                EvalStep::Halt(h, sth) => ExecStep::Halt(h, sth),
            },
            SpecStmt::While { condition, body } => match spec_eval(
                condition,
                st,
                (fuel - 1) as u64,
            ) {
                EvalStep::Val(c, st1) => if !spec_truthy(c) {
                    ExecStep::Done(st1)
                } else {
                    match spec_exec(*body, st1, (fuel - 1) as u64) {
                        ExecStep::Done(st2) => spec_exec(
                            SpecStmt::While { condition, body },
                            st2,
                            (fuel - 1) as u64,
                        ),
                        ExecStep::Ret(v, st2) => ExecStep::Ret(v, st2),
                        ExecStep::Halt(h, sth) => ExecStep::Halt(h, sth),
                    }
                },
                EvalStep::Halt(h, sth) => ExecStep::Halt(h, sth),
            },
            SpecStmt::Function(f) => {
                let value = SpecValue::Fun(
                    crate::lox_function::SpecLoxFunction { declaration: f, closure: st.cur },
                );
                ExecStep::Done(
                    with_frames(st, spec_define(st.frames, st.cur, f.name.lexeme, value)),
                )
            },
            SpecStmt::Return { keyword: _, value } => match spec_eval(value, st, (fuel - 1) as u64) {
                EvalStep::Val(v, st1) => ExecStep::Ret(v, st1),
                EvalStep::Halt(h, sth) => ExecStep::Halt(h, sth),
            },
        }
    }
}

pub open spec fn spec_exec_seq(ss: Seq<SpecStmt>, st: SpecInterp, fuel: u64) -> ExecStep
    decreases fuel, 0int,
{
    if fuel == 0 {
        ExecStep::Halt(SpecHalt::Spent, st)
    } else if ss.len() == 0 {
        ExecStep::Done(st)
    } else {
        match spec_exec(ss[0], st, (fuel - 1) as u64) {
            ExecStep::Done(st1) => spec_exec_seq(ss.drop_first(), st1, (fuel - 1) as u64),
            ExecStep::Ret(v, st1) => ExecStep::Ret(v, st1),
            ExecStep::Halt(h, sth) => ExecStep::Halt(h, sth),
        }
    }
}

/// What a program's outcome is.
pub enum ProgStep {
    Fin(SpecInterp),
    Halt(SpecHalt, SpecInterp),
}

/// Runs top-level statements in order.  A `return` at the top level
/// is evaluated and its value discarded.
pub open spec fn spec_interpret(ss: Seq<SpecStmt>, st: SpecInterp, fuel: u64) -> ProgStep
    decreases fuel, 0int,
{
    if fuel == 0 {
        ProgStep::Halt(SpecHalt::Spent, st)
    } else if ss.len() == 0 {
        ProgStep::Fin(st)
    } else {
        match spec_exec(ss[0], st, (fuel - 1) as u64) {
            ExecStep::Done(st1) => spec_interpret(ss.drop_first(), st1, (fuel - 1) as u64),
            ExecStep::Ret(_, st1) => spec_interpret(ss.drop_first(), st1, (fuel - 1) as u64),
            ExecStep::Halt(h, sth) => ProgStep::Halt(h, sth),
        }
    }
}

// ---------------------------------------------------------------
// The executable evaluator.
// ---------------------------------------------------------------

/// Why executable evaluation stopped early.
#[derive(Debug, PartialEq)]
pub enum Halt {
    Fault(LoxError),
    Spent,
}

impl View for Halt {
    type V = SpecHalt;

    open spec fn view(&self) -> SpecHalt {
        match self {
            Halt::Fault(e) => SpecHalt::Fault(e@),
            Halt::Spent => SpecHalt::Spent,
        }
    }
}

/// Every value of the list captures only frames of an arena of `n`.
pub open spec fn vals_wf(vs: Seq<SpecValue>, n: int) -> bool {
    forall|i: int| 0 <= i < vs.len() ==> val_wf(#[trigger] vs[i], n)
}

/// A list of runtime values as mathematics.
pub open spec fn values_view(vs: Seq<LoxValue>) -> Seq<SpecValue> {
    vs.map_values(|v: LoxValue| v@)
}

fn spent() -> (h: Halt)
    ensures
        h@ == SpecHalt::Spent,
{
    Halt::Spent
}

fn fault(message: &str) -> (h: Halt)
    ensures
        h@ == rt(message@),
{
    Halt::Fault(LoxError::RuntimeError(String::from_str(message)))
}

fn undefined_fault(name: &String) -> (h: Halt)
    ensures
        h@ == undefined_variable(name@),
{
    let mut m = String::from_str("Undefined variable '");
    m.append(name.as_str());
    m.append("'.");
    proof {
        assert(m@ =~= "Undefined variable '"@ + name@ + "'."@);
    }
    Halt::Fault(LoxError::RuntimeError(m))
}

impl Interpreter {
    /// Reads a variable: at its resolved distance when the node was
    /// annotated, through the globals otherwise.
    fn look_up_variable(&mut self, id: u64, name: &crate::token::Token) -> (r: Result<
        LoxValue,
        Halt,
    >)
        requires
            old(self).wf(),
        ensures
            final(self).wf(),
            final(self)@ == old(self)@,
            match r {
                Ok(v) => spec_read_variable(old(self)@, id, name@.lexeme) == EvalStep::Val(
                    v@,
                    final(self)@,
                ) && val_wf(v@, final(self)@.frames.len() as int),
                Err(h) => spec_read_variable(old(self)@, id, name@.lexeme) == EvalStep::Halt(h@, final(self)@),
            },
    {
        let lex = name.lexeme();
        match self.locals.get(&id) {
            Some(d) => {
                let d = *d;
                match self.environment.get_at(self.current, d, &lex) {
                    Some(v) => Ok(v),
                    None => Err(undefined_fault(&lex)),
                }
            },
            None => {
                match self.environment.get(0, &lex) {
                    Some(v) => Ok(v),
                    None => Err(undefined_fault(&lex)),
                }
            },
        }
    }

    /// Writes a variable: at its resolved distance when annotated,
    /// through the globals otherwise; yields the assigned value.
    fn assign_variable(&mut self, id: u64, name: &crate::token::Token, v: LoxValue) -> (r: Result<
        LoxValue,
        Halt,
    >)
        requires
            old(self).wf(),
            val_wf(v@, old(self)@.frames.len() as int),
        ensures
            final(self).wf(),
            final(self)@.frames.len() == old(self)@.frames.len(),
            match r {
                Ok(out) => spec_write_variable(old(self)@, id, name@.lexeme, v@) == EvalStep::Val(
                    out@,
                    final(self)@,
                ) && val_wf(out@, final(self)@.frames.len() as int),
                Err(h) => spec_write_variable(old(self)@, id, name@.lexeme, v@) == EvalStep::Halt(
                    h@,
                    final(self)@,
                ),
            },
    {
        let lex = name.lexeme();
        match self.locals.get(&id) {
            Some(d) => {
                let d = *d;
                if self.environment.assign_at(self.current, d, &lex, v.clone()) {
                    Ok(v)
                } else {
                    Err(undefined_fault(&lex))
                }
            },
            None => {
                if self.environment.assign(0, &lex, v.clone()) {
                    Ok(v)
                } else {
                    Err(undefined_fault(&lex))
                }
            },
        }
    }

    /// Evaluates one expression in the current environment.
    #[verifier::rlimit(100)]
    pub fn evaluate(&mut self, e: &Expr, fuel: u64) -> (r: Result<LoxValue, Halt>)
        requires
            old(self).wf(),
        ensures
            final(self).wf(),
            final(self)@.frames.len() >= old(self)@.frames.len(),
            match r {
                Ok(v) => spec_eval(e@, old(self)@, fuel) == EvalStep::Val(v@, final(self)@)
                    && val_wf(v@, final(self)@.frames.len() as int),
                Err(h) => spec_eval(e@, old(self)@, fuel) == EvalStep::Halt(h@, final(self)@),
            },
        decreases fuel, 2int,
    {
        if fuel == 0 {
            return Err(spent());
        }
        match e {
            Expr::Literal(l) => {
                let v = match l {
                    crate::expr::Literal::Nil => LoxValue::Nil,
                    crate::expr::Literal::Bool(b) => LoxValue::Boolean(*b),
                    crate::expr::Literal::Number(n) => LoxValue::Number(*n),
                    crate::expr::Literal::Str(str0) => LoxValue::String(str0.clone()),
                };
                Ok(v)
            },
            Expr::Grouping(inner) => self.evaluate(inner, fuel - 1),
            Expr::Unary { operator, right } => {
                let v = self.evaluate(right, fuel - 1)?;
                match crate::lox_value::apply_unary(operator.token_type(), &v) {
                    Ok(out) => {
                        proof {
                            crate::lox_value::lemma_unary_wf(operator@.token_type, v@);
                        }
                        Ok(out)
                    },
                    Err(er) => Err(Halt::Fault(er)),
                }
            },
            Expr::Binary { left, operator, right } => {
                let a = self.evaluate(left, fuel - 1)?;
                let b = self.evaluate(right, fuel - 1)?;
                match crate::lox_value::apply_binary(operator.token_type(), &a, &b) {
                    Ok(out) => {
                        proof {
                            crate::lox_value::lemma_binary_wf(operator@.token_type, a@, b@);
                        }
                        Ok(out)
                    },
                    Err(er) => Err(Halt::Fault(er)),
                }
            },
            Expr::Logical { left, operator, right } => {
                let a = self.evaluate(left, fuel - 1)?;
                if operator.token_type() == TokenType::Or {
                    if a.is_truthy() {
                        Ok(a)
                    } else {
                        self.evaluate(right, fuel - 1)
                    }
                } else {
                    if !a.is_truthy() {
                        Ok(a)
                    } else {
                        self.evaluate(right, fuel - 1)
                    }
                }
            },
            Expr::Variable { id, name } => self.look_up_variable(*id, name),
            Expr::Assign { id, name, value } => {
                let v = self.evaluate(value, fuel - 1)?;
                self.assign_variable(*id, name, v)
            },
            Expr::Call { callee, paren: _, arguments } => {
                let cv = self.evaluate(callee, fuel - 1)?;
                proof {
                    crate::expr::lemma_exprs_view(arguments@);
                    assert(crate::expr::exprs_view(arguments@).skip(0) =~= crate::expr::exprs_view(
                        arguments@,
                    ));
                    assert(values_view(Seq::<LoxValue>::empty()) =~= Seq::<SpecValue>::empty());
                }
                let args = self.evaluate_arguments(arguments, 0, Vec::new(), fuel - 1)?;
                match cv {
                    LoxValue::Function(lf) => self.call_function(&lf, args, fuel - 1),
                    _ => Err(fault("Can only call functions.")),
                }
            },
        }
    }

    /// Evaluates argument expressions left to right.
    fn evaluate_arguments(
        &mut self,
        es: &Vec<Expr>,
        k: usize,
        sofar: Vec<LoxValue>,
        fuel: u64,
    ) -> (r: Result<Vec<LoxValue>, Halt>)
        requires
            old(self).wf(),
            k <= es@.len(),
            vals_wf(values_view(sofar@), old(self)@.frames.len() as int),
        ensures
            final(self).wf(),
            final(self)@.frames.len() >= old(self)@.frames.len(),
            match r {
                Ok(vs) => spec_eval_args(
                    crate::expr::exprs_view(es@).skip(k as int),
                    values_view(sofar@),
                    old(self)@,
                    fuel,
                ) == ArgsStep::Vals(values_view(vs@), final(self)@) && vals_wf(
                    values_view(vs@),
                    final(self)@.frames.len() as int,
                ),
                Err(h) => spec_eval_args(
                    crate::expr::exprs_view(es@).skip(k as int),
                    values_view(sofar@),
                    old(self)@,
                    fuel,
                ) == ArgsStep::Halt(h@, final(self)@),
            },
        decreases fuel, 2int,
    {
        proof {
            crate::expr::lemma_exprs_view(es@);
        }
        if fuel == 0 {
            return Err(spent());
        }
        if k == es.len() {
            proof {
                assert(crate::expr::exprs_view(es@).skip(k as int) =~= Seq::<SpecExpr>::empty());
            }
            return Ok(sofar);
        }
        proof {
            let views = crate::expr::exprs_view(es@);
            assert(views.skip(k as int)[0] == views[k as int]);
            assert(views.skip(k as int).drop_first() =~= views.skip(k + 1));
        }
        let v = self.evaluate(&es[k], fuel - 1)?;
        let mut acc = sofar;
        let ghost pre = values_view(acc@);
        acc.push(v);
        proof {
            assert(values_view(acc@) =~= pre.push(acc@.last()@));
            assert forall|i: int|
                0 <= i < values_view(acc@).len() implies val_wf(
                #[trigger] values_view(acc@)[i],
                self@.frames.len() as int,
            ) by {
                if i < pre.len() {
                    assert(pre[i] == values_view(acc@)[i]);
                }
            }
        }
        self.evaluate_arguments(es, k + 1, acc, fuel - 1)
    }

    /// Invokes a function value on already-evaluated arguments: a
    /// fresh frame over its closure, parameters bound, body run.
    pub(crate) fn call_function(&mut self, function: &LoxFunction, arguments: Vec<LoxValue>, fuel: u64) -> (r:
        Result<LoxValue, Halt>)
        requires
            old(self).wf(),
            0 <= function@.closure < old(self)@.frames.len(),
            vals_wf(values_view(arguments@), old(self)@.frames.len() as int),
        ensures
            final(self).wf(),
            final(self)@.frames.len() >= old(self)@.frames.len(),
            match r {
                Ok(v) => spec_call(function@, values_view(arguments@), old(self)@, fuel)
                    == EvalStep::Val(v@, final(self)@) && val_wf(
                    v@,
                    final(self)@.frames.len() as int,
                ),
                Err(h) => spec_call(function@, values_view(arguments@), old(self)@, fuel)
                    == EvalStep::Halt(h@, final(self)@),
            },
        decreases fuel, 1int,
    {
        proof {
            crate::stmt::lemma_stmts_view(function.declaration.body@);
        }
        if fuel == 0 {
            return Err(spent());
        }
        if arguments.len() != function.declaration.params.len() {
            return Err(fault("Wrong number of arguments."));
        }
        let envid = self.environment.new_with(function.closure);
        let ghost frames1 = self@.frames;
        let ghost pviews = crate::token::tokens_view(function.declaration.params@);
        let ghost aviews = values_view(arguments@);
        let ghost cur0 = self@.cur;
        proof {
            assert(pviews.skip(0) =~= pviews);
            assert(aviews.skip(0) =~= aviews);
        }
        let n = function.declaration.params.len();
        let mut i: usize = 0;
        while i < n
            invariant
                i <= n,
                n == function.declaration.params@.len(),
                n == arguments@.len(),
                pviews == crate::token::tokens_view(function.declaration.params@),
                aviews == values_view(arguments@),
                self.wf(),
                envid < self@.frames.len(),
                self@.frames.len() == frames1.len(),
                self@.cur == cur0,
                self@.locals == old(self)@.locals,
                self@.output == old(self)@.output,
                vals_wf(aviews, self@.frames.len() as int),
                bind_params(frames1, envid as int, pviews, aviews) == bind_params(
                    self@.frames,
                    envid as int,
                    pviews.skip(i as int),
                    aviews.skip(i as int),
                ),
            decreases n - i,
        {
            proof {
                assert(pviews.skip(i as int)[0] == pviews[i as int]);
                assert(pviews[i as int] == function.declaration.params@[i as int]@);
                assert(pviews.skip(i as int).drop_first() =~= pviews.skip(i + 1));
                assert(aviews.skip(i as int)[0] == aviews[i as int]);
                assert(aviews[i as int] == arguments@[i as int]@);
                assert(aviews.skip(i as int).drop_first() =~= aviews.skip(i + 1));
                assert(val_wf(aviews[i as int], self@.frames.len() as int));
            }
            let lex = function.declaration.params[i].lexeme();
            self.environment.define(envid, &lex, arguments[i].clone());
            i = i + 1;
        }
        proof {
            assert(pviews.skip(n as int) =~= Seq::<crate::token::SpecToken>::empty());
            assert(aviews.skip(n as int) =~= Seq::<SpecValue>::empty());
            assert(self@.frames == bind_params(frames1, envid as int, pviews, aviews));
        }
        let r = self.execute_block(&function.declaration.body, envid, fuel);
        match r {
            Ok(None) => Ok(LoxValue::Nil),
            Ok(Some(v)) => Ok(v),
            Err(h) => Err(h),
        }
    }

    /// Runs statements with `environment` installed as the current
    /// frame; the caller's frame is restored on every exit.
    pub fn execute_block(&mut self, statements: &Vec<Stmt>, environment: usize, fuel: u64) -> (r:
        Result<Option<LoxValue>, Halt>)
        requires
            old(self).wf(),
            environment < old(self)@.frames.len(),
        ensures
            final(self).wf(),
            final(self)@.frames.len() >= old(self)@.frames.len(),
            final(self)@.cur == old(self)@.cur,
            match r {
                Ok(out) => match out {
                    None => spec_exec_in(
                        crate::stmt::stmts_view(statements@),
                        environment as int,
                        old(self)@,
                        fuel,
                    ) == ExecStep::Done(final(self)@),
                    Some(v) => spec_exec_in(
                        crate::stmt::stmts_view(statements@),
                        environment as int,
                        old(self)@,
                        fuel,
                    ) == ExecStep::Ret(v@, final(self)@) && val_wf(
                        v@,
                        final(self)@.frames.len() as int,
                    ),
                },
                Err(h) => spec_exec_in(
                    crate::stmt::stmts_view(statements@),
                    environment as int,
                    old(self)@,
                    fuel,
                ) == ExecStep::Halt(h@, final(self)@),
            },
        decreases fuel, 0int,
    {
        if fuel == 0 {
            return Err(spent());
        }
        let saved = self.current;
        self.current = environment;
        proof {
            assert(self@ == with_cur(old(self)@, environment as int));
            assert(crate::stmt::stmts_view(statements@).skip(0) =~= crate::stmt::stmts_view(
                statements@,
            ));
        }
        let r = self.run_seq(statements, 0, fuel - 1);
        self.current = saved;
        r
    }

    /// Runs the statements from `k` on, stopping at a `return`.
    fn run_seq(&mut self, ss: &Vec<Stmt>, k: usize, fuel: u64) -> (r: Result<
        Option<LoxValue>,
        Halt,
    >)
        requires
            old(self).wf(),
            k <= ss@.len(),
        ensures
            final(self).wf(),
            final(self)@.frames.len() >= old(self)@.frames.len(),
            match r {
                Ok(out) => match out {
                    None => spec_exec_seq(
                        crate::stmt::stmts_view(ss@).skip(k as int),
                        old(self)@,
                        fuel,
                    ) == ExecStep::Done(final(self)@),
                    Some(v) => spec_exec_seq(
                        crate::stmt::stmts_view(ss@).skip(k as int),
                        old(self)@,
                        fuel,
                    ) == ExecStep::Ret(v@, final(self)@) && val_wf(
                        v@,
                        final(self)@.frames.len() as int,
                    ),
                },
                Err(h) => spec_exec_seq(
                    crate::stmt::stmts_view(ss@).skip(k as int),
                    old(self)@,
                    fuel,
                ) == ExecStep::Halt(h@, final(self)@),
            },
        decreases fuel, 2int,
    {
        proof {
            crate::stmt::lemma_stmts_view(ss@);
        }
        if fuel == 0 {
            return Err(spent());
        }
        if k == ss.len() {
            proof {
                assert(crate::stmt::stmts_view(ss@).skip(k as int) =~= Seq::<SpecStmt>::empty());
            }
            return Ok(None);
        }
        proof {
            let views = crate::stmt::stmts_view(ss@);
            assert(views.skip(k as int)[0] == views[k as int]);
            assert(views.skip(k as int).drop_first() =~= views.skip(k + 1));
        }
        match self.execute(&ss[k], fuel - 1)? {
            Some(v) => Ok(Some(v)),
            None => self.run_seq(ss, k + 1, fuel - 1),
        }
    }

    /// Runs a `while` loop: the condition before each pass, the body
    /// while it stays truthy.
    #[verifier::rlimit(100)]
    fn execute_while(&mut self, condition: &Expr, body: &Stmt, fuel: u64) -> (r: Result<
        Option<LoxValue>,
        Halt,
    >)
        requires
            old(self).wf(),
        ensures
            final(self).wf(),
            final(self)@.frames.len() >= old(self)@.frames.len(),
            ({
                let w = SpecStmt::While { condition: condition@, body: Box::new(body@) };
                match r {
                    Ok(out) => match out {
                        None => spec_exec(w, old(self)@, fuel) == ExecStep::Done(final(self)@),
                        Some(v) => spec_exec(w, old(self)@, fuel) == ExecStep::Ret(
                            v@,
                            final(self)@,
                        ) && val_wf(v@, final(self)@.frames.len() as int),
                    },
                    Err(h) => spec_exec(w, old(self)@, fuel) == ExecStep::Halt(h@, final(self)@),
                }
            }),
        decreases fuel, 1int,
    {
        let ghost w = SpecStmt::While { condition: condition@, body: Box::new(body@) };
        let mut fuel_now = fuel;
        loop
            invariant
                self.wf(),
                fuel_now <= fuel,
                self@.frames.len() >= old(self)@.frames.len(),
                spec_exec(w, old(self)@, fuel) == spec_exec(w, self@, fuel_now),
                w == (SpecStmt::While { condition: condition@, body: Box::new(body@) }),
            decreases fuel_now,
        {
            if fuel_now == 0 {
                return Err(spent());
            }
            let ghost st_head = self@;
            let c = self.evaluate(condition, fuel_now - 1)?;
            if !c.is_truthy() {
                return Ok(None);
            }
            match self.execute(body, fuel_now - 1)? {
                Some(v) => {
                    return Ok(Some(v));
                },
                None => {},
            }
            proof {
                assert(spec_exec(w, st_head, fuel_now) == spec_exec(
                    w,
                    self@,
                    (fuel_now - 1) as u64,
                ));
            }
            fuel_now = fuel_now - 1;
        }
    }

    /// Executes one statement: `None` falls through, `Some` carries a
    /// `return` value to the nearest call.
    pub fn execute(&mut self, s: &Stmt, fuel: u64) -> (r: Result<Option<LoxValue>, Halt>)
        requires
            old(self).wf(),
        ensures
            final(self).wf(),
            final(self)@.frames.len() >= old(self)@.frames.len(),
            match r {
                Ok(out) => match out {
                    None => spec_exec(s@, old(self)@, fuel) == ExecStep::Done(final(self)@),
                    Some(v) => spec_exec(s@, old(self)@, fuel) == ExecStep::Ret(v@, final(self)@)
                        && val_wf(v@, final(self)@.frames.len() as int),
                },
                Err(h) => spec_exec(s@, old(self)@, fuel) == ExecStep::Halt(h@, final(self)@),
            },
        decreases fuel, 2int,
    {
        if fuel == 0 {
            return Err(spent());
        }
        match s {
            Stmt::Expression(e) => {
                let _ = self.evaluate(e, fuel - 1)?;
                Ok(None)
            },
            Stmt::Print(e) => {
                let v = self.evaluate(e, fuel - 1)?;
                let line = render_value(&v);
                let ghost pre = self@.output;
                self.output.push(line);
                proof {
                    assert(self@.output =~= pre.push(self.output@.last()@));
                }
                Ok(None)
            },
            Stmt::Var { name, initializer } => {
                let v: LoxValue = match initializer {
                    Some(e) => self.evaluate(e, fuel - 1)?,
                    None => LoxValue::Nil,
                };
                let lex = name.lexeme();
                self.environment.define(self.current, &lex, v);
                Ok(None)
            },
            Stmt::Block(b) => {
                let envid = self.environment.new_with(self.current);
                self.execute_block(b.statements(), envid, fuel - 1)
            },
            Stmt::If { condition, then_branch, else_branch } => {
                let c = self.evaluate(condition, fuel - 1)?;
                if c.is_truthy() {
                    self.execute(then_branch, fuel - 1)
                } else {
                    match else_branch {
                        Some(els) => self.execute(els, fuel - 1),
                        None => Ok(None),
                    }
                }
            },
            Stmt::While { condition, body } => self.execute_while(condition, body, fuel),
            Stmt::Function(f) => {
                let lf = LoxFunction::new(rc_dup(f), self.current);
                let name_token = f.name();
                let lex = name_token.lexeme();
                self.environment.define(self.current, &lex, LoxValue::Function(lf));
                Ok(None)
            },
            Stmt::Return { keyword: _, value } => {
                let v = self.evaluate(value, fuel - 1)?;
                Ok(Some(v))
            },
        }
    }

    /// Runs the statements from `k` on at the top level, where a
    /// `return` value is discarded.
    fn interpret_from(&mut self, ss: &Vec<Stmt>, k: usize, fuel: u64) -> (r: Result<(), Halt>)
        requires
            old(self).wf(),
            k <= ss@.len(),
        ensures
            final(self).wf(),
            final(self)@.frames.len() >= old(self)@.frames.len(),
            match r {
                Ok(_) => spec_interpret(
                    crate::stmt::stmts_view(ss@).skip(k as int),
                    old(self)@,
                    fuel,
                ) == ProgStep::Fin(final(self)@),
                Err(h) => spec_interpret(
                    crate::stmt::stmts_view(ss@).skip(k as int),
                    old(self)@,
                    fuel,
                ) == ProgStep::Halt(h@, final(self)@),
            },
        decreases fuel, 2int,
    {
        proof {
            crate::stmt::lemma_stmts_view(ss@);
        }
        if fuel == 0 {
            return Err(spent());
        }
        if k == ss.len() {
            proof {
                assert(crate::stmt::stmts_view(ss@).skip(k as int) =~= Seq::<SpecStmt>::empty());
            }
            return Ok(());
        }
        proof {
            let views = crate::stmt::stmts_view(ss@);
            assert(views.skip(k as int)[0] == views[k as int]);
            assert(views.skip(k as int).drop_first() =~= views.skip(k + 1));
        }
        let _ = self.execute(&ss[k], fuel - 1)?;
        self.interpret_from(ss, k + 1, fuel - 1)
    }

    /// Runs a whole program in order, stopping at the first fault.
    pub fn interpret(&mut self, statements: &Vec<Stmt>, fuel: u64) -> (r: Result<(), Halt>)
        requires
            old(self).wf(),
        ensures
            final(self).wf(),
            match r {
                Ok(_) => spec_interpret(crate::stmt::stmts_view(statements@), old(self)@, fuel)
                    == ProgStep::Fin(final(self)@),
                Err(h) => spec_interpret(crate::stmt::stmts_view(statements@), old(self)@, fuel)
                    == ProgStep::Halt(h@, final(self)@),
            },
    {
        proof {
            assert(crate::stmt::stmts_view(statements@).skip(0) =~= crate::stmt::stmts_view(
                statements@,
            ));
        }
        self.interpret_from(statements, 0, fuel)
    }

    /// The lines printed so far.
    pub fn output(&self) -> (r: &Vec<String>)
        ensures
            r@.map_values(|s: String| s@) == self@.output,
    {
        &self.output
    }
}

// ---------------------------------------------------------------
// Laws of the semantics.
// ---------------------------------------------------------------

/// Short-circuit: when the left side of `or` is truthy, the whole
/// expression is that value and the right side never runs — the state
/// after the `or` is the state after the left side alone; and
/// symmetrically, a falsy left side short-circuits `and`.
pub proof fn lemma_logical_short_circuit(
    left: SpecExpr,
    op: crate::token::SpecToken,
    right: SpecExpr,
    st: SpecInterp,
    v: SpecValue,
    st1: SpecInterp,
    fuel: u64,
)
    requires
        fuel >= 1,
        spec_eval(left, st, (fuel - 1) as u64) == EvalStep::Val(v, st1),
    ensures
        op.token_type == TokenType::Or && spec_truthy(v) ==> spec_eval(
            SpecExpr::Logical { left: Box::new(left), operator: op, right: Box::new(right) },
            st,
            fuel,
        ) == EvalStep::Val(v, st1),
        op.token_type == TokenType::And && !spec_truthy(v) ==> spec_eval(
            SpecExpr::Logical { left: Box::new(left), operator: op, right: Box::new(right) },
            st,
            fuel,
        ) == EvalStep::Val(v, st1),
{
}

/// Block scope: a block runs its statements in a frame that did not
/// exist before, and the current frame afterwards is the current
/// frame before — nothing declared inside remains in scope outside.
pub proof fn lemma_block_scope(ss: Seq<SpecStmt>, st: SpecInterp, st2: SpecInterp, fuel: u64)
    requires
        fuel >= 2,
        spec_exec(SpecStmt::Block(ss), st, fuel) == ExecStep::Done(st2),
    ensures
        st2.cur == st.cur,
        // the block's own frame is fresh: it stands past every frame
        // that existed before, and it encloses the outer frame
        ({
            let frames1 = st.frames.push(
                SpecFrame { enclosing: Some(st.cur), bindings: Map::empty() },
            );
            frames1[st.frames.len() as int].enclosing == Some(st.cur)
        }),
{
    let envid = st.frames.len() as int;
    let frames1 = st.frames.push(SpecFrame { enclosing: Some(st.cur), bindings: Map::empty() });
    let stp = with_frames(st, frames1);
    assert(spec_exec(SpecStmt::Block(ss), st, fuel) == spec_exec_in(
        ss,
        envid,
        stp,
        (fuel - 1) as u64,
    ));
    assert(stp.cur == st.cur);
    match spec_exec_seq(ss, with_cur(stp, envid), (fuel - 2) as u64) {
        ExecStep::Done(s2) => {
            assert(spec_exec_in(ss, envid, stp, (fuel - 1) as u64) == ExecStep::Done(
                with_cur(s2, stp.cur),
            ));
        },
        ExecStep::Ret(_, _) => {},
        ExecStep::Halt(_, _) => {},
    }
}

/// Closure capture and sharing, composed: a function declared now
/// captures exactly the frame that is current at its declaration;
/// and any frame reachable both from that closure and from another
/// scope is one shared frame, so a later assignment through either
/// chain is read through the other — mutation is observable in both
/// directions.
pub proof fn lemma_closure_mutation_visible(
    f: SpecFunction,
    st: SpecInterp,
    fuel: u64,
    frames2: Seq<SpecFrame>,
    da: nat,
    db: nat,
    b: int,
    g: int,
    name: Seq<char>,
    v: SpecValue,
)
    requires
        fuel >= 1,
        // a frame `g` holding `name`, reached from the declaration
        // frame (the closure) at distance `da` and from some other
        // scope `b` at distance `db`, in any later arena `frames2`
        spec_ancestor(frames2, st.cur, da) == Some(g),
        spec_ancestor(frames2, b, db) == Some(g),
        0 <= g < frames2.len(),
        frames2[g].bindings.dom().contains(name),
    ensures
        // the declaration stores a value closing over the current frame
        spec_exec(SpecStmt::Function(f), st, fuel) == ExecStep::Done(
            with_frames(
                st,
                spec_define(
                    st.frames,
                    st.cur,
                    f.name.lexeme,
                    SpecValue::Fun(
                        crate::lox_function::SpecLoxFunction { declaration: f, closure: st.cur },
                    ),
                ),
            ),
        ),
        // a write through the outer scope is read through the closure
        ({
            let written = spec_define(frames2, g, name, v);
            &&& spec_ancestor(written, st.cur, da) == Some(g)
            &&& written[g].bindings[name] == v
        }),
        // and a write through the closure is read through the outer scope
        ({
            let written = spec_define(frames2, g, name, v);
            &&& spec_ancestor(written, b, db) == Some(g)
            &&& written[g].bindings[name] == v
        }),
{
    crate::environment::lemma_shared_frame_write_read(frames2, st.cur, da, b, db, g, name, v);
    crate::environment::lemma_shared_frame_write_read(frames2, b, db, st.cur, da, g, name, v);
}

/// Closure capture: executing a function declaration binds, in the
/// current frame, a function value whose closure is exactly the
/// frame that is current at the declaration, and changes nothing
/// else.
pub proof fn lemma_closure_captures_declaration_frame(
    f: crate::stmt::SpecFunction,
    st: SpecInterp,
    fuel: u64,
)
    requires
        fuel >= 1,
    ensures
        spec_exec(SpecStmt::Function(f), st, fuel) == ExecStep::Done(
            with_frames(
                st,
                spec_define(
                    st.frames,
                    st.cur,
                    f.name.lexeme,
                    SpecValue::Fun(
                        crate::lox_function::SpecLoxFunction { declaration: f, closure: st.cur },
                    ),
                ),
            ),
        ),
{
}

// ---------------------------------------------------------------
// Bound-name preservation: what evaluation can never declare.
// ---------------------------------------------------------------

/// Every frame that existed in `pre` — except possibly the one frame
/// `except` — binds exactly the same names in `post`.  An `except` of
/// -1 excepts no frame.
pub open spec fn doms_kept(pre: Seq<SpecFrame>, post: Seq<SpecFrame>, except: int) -> bool {
    &&& post.len() >= pre.len()
    &&& forall|f: int|
        0 <= f < pre.len() && f != except ==> (#[trigger] post[f]).bindings.dom()
            == pre[f].bindings.dom()
}

proof fn lemma_doms_trans(a: Seq<SpecFrame>, b: Seq<SpecFrame>, c: Seq<SpecFrame>, e: int)
    requires
        doms_kept(a, b, e),
        doms_kept(b, c, e),
    ensures
        doms_kept(a, c, e),
{
    assert forall|f: int| 0 <= f < a.len() && f != e implies (#[trigger] c[f]).bindings.dom()
        == a[f].bindings.dom() by {
        assert(b[f].bindings.dom() == a[f].bindings.dom());
        assert(c[f].bindings.dom() == b[f].bindings.dom());
    }
}

proof fn lemma_doms_weaken(a: Seq<SpecFrame>, b: Seq<SpecFrame>, e: int)
    requires
        doms_kept(a, b, -1),
    ensures
        doms_kept(a, b, e),
{
    assert forall|f: int| 0 <= f < a.len() && f != e implies (#[trigger] b[f]).bindings.dom()
        == a[f].bindings.dom() by {
        assert(b[f].bindings.dom() == a[f].bindings.dom());
    }
}

/// Defining a name a frame already binds changes no frame's bound
/// names.
proof fn lemma_define_existing_doms(frames: Seq<SpecFrame>, f: int, name: Seq<char>, v: SpecValue)
    requires
        0 <= f < frames.len(),
        frames[f].bindings.dom().contains(name),
    ensures
        doms_kept(frames, spec_define(frames, f, name, v), -1),
{
    let post = spec_define(frames, f, name, v);
    assert(post[f].bindings.dom() =~= frames[f].bindings.dom());
    assert forall|g: int| 0 <= g < frames.len() && g != -1 implies (#[trigger] post[g]).bindings.dom()
        == frames[g].bindings.dom() by {
        if g != f {
            assert(post[g] == frames[g]);
        }
    }
}

/// Defining into frame `f` touches no other frame's bound names.
proof fn lemma_define_doms(frames: Seq<SpecFrame>, f: int, name: Seq<char>, v: SpecValue)
    requires
        0 <= f < frames.len(),
    ensures
        doms_kept(frames, spec_define(frames, f, name, v), f),
{
    let post = spec_define(frames, f, name, v);
    assert forall|g: int| 0 <= g < frames.len() && g != f implies (#[trigger] post[g]).bindings.dom()
        == frames[g].bindings.dom() by {
        assert(post[g] == frames[g]);
    }
}

/// Dynamic assignment writes an already-bound name, so it changes no
/// frame's bound names.
proof fn lemma_assign_doms(frames: Seq<SpecFrame>, start: int, name: Seq<char>, v: SpecValue)
    ensures
        match spec_assign(frames, start, name, v) {
            Some(frames2) => doms_kept(frames, frames2, -1),
            None => true,
        },
    decreases start + 1,
{
    if 0 <= start < frames.len() {
        if frames[start].bindings.dom().contains(name) {
            lemma_define_existing_doms(frames, start, name, v);
        } else {
            match frames[start].enclosing {
                Some(e) => {
                    if 0 <= e < start {
                        lemma_assign_doms(frames, e, name, v);
                    }
                },
                None => {},
            }
        }
    }
}

/// Writing a variable never changes which names any frame binds, and
/// leaves the current frame where it was.
proof fn lemma_write_variable_doms(st: SpecInterp, id: u64, name: Seq<char>, v: SpecValue)
    ensures
        match spec_write_variable(st, id, name, v) {
            EvalStep::Val(_, st2) => doms_kept(st.frames, st2.frames, -1) && st2.cur == st.cur
                && st2.locals == st.locals && st2.output == st.output,
            EvalStep::Halt(_, _) => true,
        },
{
    if st.locals.dom().contains(id) {
        match spec_ancestor(st.frames, st.cur, st.locals[id] as nat) {
            Some(f) => {
                if 0 <= f < st.frames.len() && st.frames[f].bindings.dom().contains(name) {
                    lemma_define_existing_doms(st.frames, f, name, v);
                }
            },
            None => {},
        }
    } else {
        lemma_assign_doms(st.frames, 0, name, v);
    }
}

/// Binding parameters touches only the call's own frame.
proof fn lemma_bind_params_doms(
    frames: Seq<SpecFrame>,
    env: int,
    params: Seq<crate::token::SpecToken>,
    args: Seq<SpecValue>,
)
    requires
        0 <= env < frames.len(),
    ensures
        doms_kept(frames, bind_params(frames, env, params, args), env),
        bind_params(frames, env, params, args).len() == frames.len(),
    decreases params.len(),
{
    if params.len() != 0 && args.len() != 0 {
        let mid = spec_define(frames, env, params[0].lexeme, args[0]);
        lemma_define_doms(frames, env, params[0].lexeme, args[0]);
        lemma_bind_params_doms(mid, env, params.drop_first(), args.drop_first());
        lemma_doms_trans(frames, mid, bind_params(frames, env, params, args), env);
    }
}

/// Evaluating an expression never changes which names any existing
/// frame binds, and leaves the current frame where it was.
proof fn lemma_eval_doms(e: SpecExpr, st: SpecInterp, fuel: u64)
    ensures
        match spec_eval(e, st, fuel) {
            EvalStep::Val(_, st2) => doms_kept(st.frames, st2.frames, -1) && st2.cur == st.cur,
            EvalStep::Halt(_, _) => true,
        },
    decreases fuel, 2int,
{
    if fuel == 0 {
        return;
    }
    match e {
        SpecExpr::Literal(_) => {},
        SpecExpr::Grouping(inner) => {
            lemma_eval_doms(*inner, st, (fuel - 1) as u64);
        },
        SpecExpr::Unary { operator: _, right } => {
            lemma_eval_doms(*right, st, (fuel - 1) as u64);
        },
        SpecExpr::Binary { left, operator: _, right } => {
            lemma_eval_doms(*left, st, (fuel - 1) as u64);
            match spec_eval(*left, st, (fuel - 1) as u64) {
                EvalStep::Val(_, st1) => {
                    lemma_eval_doms(*right, st1, (fuel - 1) as u64);
                    match spec_eval(*right, st1, (fuel - 1) as u64) {
                        EvalStep::Val(_, st2) => {
                            lemma_doms_trans(st.frames, st1.frames, st2.frames, -1);
                        },
                        EvalStep::Halt(_, _) => {},
                    }
                },
                EvalStep::Halt(_, _) => {},
            }
        },
        SpecExpr::Logical { left, operator: _, right } => {
            lemma_eval_doms(*left, st, (fuel - 1) as u64);
            match spec_eval(*left, st, (fuel - 1) as u64) {
                EvalStep::Val(_, st1) => {
                    lemma_eval_doms(*right, st1, (fuel - 1) as u64);
                    match spec_eval(*right, st1, (fuel - 1) as u64) {
                        EvalStep::Val(_, st2) => {
                            lemma_doms_trans(st.frames, st1.frames, st2.frames, -1);
                        },
                        EvalStep::Halt(_, _) => {},
                    }
                },
                EvalStep::Halt(_, _) => {},
            }
        },
        SpecExpr::Variable { id: _, name: _ } => {},
        SpecExpr::Assign { id, name, value } => {
            lemma_eval_doms(*value, st, (fuel - 1) as u64);
            match spec_eval(*value, st, (fuel - 1) as u64) {
                EvalStep::Val(v, st1) => {
                    lemma_write_variable_doms(st1, id, name.lexeme, v);
                    match spec_write_variable(st1, id, name.lexeme, v) {
                        EvalStep::Val(_, st2) => {
                            lemma_doms_trans(st.frames, st1.frames, st2.frames, -1);
                        },
                        EvalStep::Halt(_, _) => {},
                    }
                },
                EvalStep::Halt(_, _) => {},
            }
        },
        SpecExpr::Call { callee, paren: _, arguments } => {
            lemma_eval_doms(*callee, st, (fuel - 1) as u64);
            match spec_eval(*callee, st, (fuel - 1) as u64) {
                EvalStep::Val(cv, st1) => {
                    lemma_eval_args_doms(arguments, Seq::empty(), st1, (fuel - 1) as u64);
                    match spec_eval_args(arguments, Seq::empty(), st1, (fuel - 1) as u64) {
                        ArgsStep::Vals(vs, st2) => {
                            lemma_doms_trans(st.frames, st1.frames, st2.frames, -1);
                            match cv {
                                SpecValue::Fun(f) => {
                                    lemma_call_doms(f, vs, st2, (fuel - 1) as u64);
                                    match spec_call(f, vs, st2, (fuel - 1) as u64) {
                                        EvalStep::Val(_, st3) => {
                                            lemma_doms_trans(
                                                st.frames,
                                                st2.frames,
                                                st3.frames,
                                                -1,
                                            );
                                        },
                                        EvalStep::Halt(_, _) => {},
                                    }
                                },
                                _ => {},
                            }
                        },
                        ArgsStep::Halt(_, _) => {},
                    }
                },
                EvalStep::Halt(_, _) => {},
            }
        },
    }
}

proof fn lemma_eval_args_doms(
    es: Seq<SpecExpr>,
    sofar: Seq<SpecValue>,
    st: SpecInterp,
    fuel: u64,
)
    ensures
        match spec_eval_args(es, sofar, st, fuel) {
            ArgsStep::Vals(_, st2) => doms_kept(st.frames, st2.frames, -1) && st2.cur == st.cur,
            ArgsStep::Halt(_, _) => true,
        },
    decreases fuel, 3int,
{
    if fuel == 0 || es.len() == 0 {
        return;
    }
    lemma_eval_doms(es[0], st, (fuel - 1) as u64);
    match spec_eval(es[0], st, (fuel - 1) as u64) {
        EvalStep::Val(v, st1) => {
            lemma_eval_args_doms(es.drop_first(), sofar.push(v), st1, (fuel - 1) as u64);
            match spec_eval_args(es.drop_first(), sofar.push(v), st1, (fuel - 1) as u64) {
                ArgsStep::Vals(_, st2) => {
                    lemma_doms_trans(st.frames, st1.frames, st2.frames, -1);
                },
                ArgsStep::Halt(_, _) => {},
            }
        },
        EvalStep::Halt(_, _) => {},
    }
}

proof fn lemma_call_doms(
    f: crate::lox_function::SpecLoxFunction,
    args: Seq<SpecValue>,
    st: SpecInterp,
    fuel: u64,
)
    ensures
        match spec_call(f, args, st, fuel) {
            EvalStep::Val(_, st2) => doms_kept(st.frames, st2.frames, -1) && st2.cur == st.cur,
            EvalStep::Halt(_, _) => true,
        },
    decreases fuel, 1int,
{
    if fuel == 0 || args.len() != f.declaration.params.len() {
        return;
    }
    let envid = st.frames.len() as int;
    let frames1 = st.frames.push(SpecFrame { enclosing: Some(f.closure), bindings: Map::empty() });
    let frames2 = bind_params(frames1, envid, f.declaration.params, args);
    lemma_bind_params_doms(frames1, envid, f.declaration.params, args);
    let stmid = with_frames(st, frames2);
    lemma_exec_in_doms(f.declaration.body, envid, stmid, fuel);
    assert(doms_kept(st.frames, frames2, -1)) by {
        assert forall|g: int| 0 <= g < st.frames.len() && g != -1 implies (#[trigger] frames2[
            g
        ]).bindings.dom() == st.frames[g].bindings.dom() by {
            assert(frames1[g] == st.frames[g]);
            assert(frames2[g].bindings.dom() == frames1[g].bindings.dom());
        }
    }
    match spec_exec_in(f.declaration.body, envid, stmid, fuel) {
        ExecStep::Done(st2) => {
            assert(doms_kept(st.frames, st2.frames, -1)) by {
                assert forall|g: int| 0 <= g < st.frames.len() && g != -1 implies (
                #[trigger] st2.frames[g]).bindings.dom() == st.frames[g].bindings.dom() by {
                    assert(st2.frames[g].bindings.dom() == stmid.frames[g].bindings.dom());
                    assert(frames2[g].bindings.dom() == st.frames[g].bindings.dom());
                }
            }
        },
        ExecStep::Ret(_, st2) => {
            assert(doms_kept(st.frames, st2.frames, -1)) by {
                assert forall|g: int| 0 <= g < st.frames.len() && g != -1 implies (
                #[trigger] st2.frames[g]).bindings.dom() == st.frames[g].bindings.dom() by {
                    assert(st2.frames[g].bindings.dom() == stmid.frames[g].bindings.dom());
                    assert(frames2[g].bindings.dom() == st.frames[g].bindings.dom());
                }
            }
        },
        ExecStep::Halt(_, _) => {},
    }
}

proof fn lemma_exec_in_doms(ss: Seq<SpecStmt>, env: int, st: SpecInterp, fuel: u64)
    requires
        0 <= env < st.frames.len(),
    ensures
        match spec_exec_in(ss, env, st, fuel) {
            ExecStep::Done(st2) => doms_kept(st.frames, st2.frames, env) && st2.cur == st.cur,
            ExecStep::Ret(_, st2) => doms_kept(st.frames, st2.frames, env) && st2.cur == st.cur,
            ExecStep::Halt(_, _) => true,
        },
    decreases fuel, 0int,
{
    if fuel == 0 {
        return;
    }
    lemma_exec_seq_doms(ss, with_cur(st, env), (fuel - 1) as u64);
}

/// Executing one statement declares names only in the frame that is
/// current when it starts.
proof fn lemma_exec_doms(s: SpecStmt, st: SpecInterp, fuel: u64)
    requires
        0 <= st.cur < st.frames.len(),
    ensures
        match spec_exec(s, st, fuel) {
            ExecStep::Done(st2) => doms_kept(st.frames, st2.frames, st.cur) && st2.cur == st.cur,
            ExecStep::Ret(_, st2) => doms_kept(st.frames, st2.frames, st.cur) && st2.cur == st.cur,
            ExecStep::Halt(_, _) => true,
        },
    decreases fuel, 4int,
{
    if fuel == 0 {
        return;
    }
    match s {
        SpecStmt::Expression(e) => {
            lemma_eval_doms(e, st, (fuel - 1) as u64);
            match spec_eval(e, st, (fuel - 1) as u64) {
                EvalStep::Val(_, st1) => {
                    lemma_doms_weaken(st.frames, st1.frames, st.cur);
                },
                EvalStep::Halt(_, _) => {},
            }
        },
        SpecStmt::Print(e) => {
            lemma_eval_doms(e, st, (fuel - 1) as u64);
            match spec_eval(e, st, (fuel - 1) as u64) {
                EvalStep::Val(_, st1) => {
                    lemma_doms_weaken(st.frames, st1.frames, st.cur);
                },
                EvalStep::Halt(_, _) => {},
            }
        },
        SpecStmt::Var { name, initializer } => {
            let evaluated: EvalStep = match initializer {
                Some(e) => spec_eval(e, st, (fuel - 1) as u64),
                None => EvalStep::Val(SpecValue::Nil, st),
            };
            match initializer {
                Some(e) => {
                    lemma_eval_doms(e, st, (fuel - 1) as u64);
                },
                None => {},
            }
            match evaluated {
                EvalStep::Val(v, st1) => {
                    lemma_doms_weaken(st.frames, st1.frames, st.cur);
                    lemma_define_doms(st1.frames, st1.cur, name.lexeme, v);
                    lemma_doms_trans(
                        st.frames,
                        st1.frames,
                        spec_define(st1.frames, st1.cur, name.lexeme, v),
                        st.cur,
                    );
                },
                EvalStep::Halt(_, _) => {},
            }
        },
        SpecStmt::Block(ss) => {
            let envid = st.frames.len() as int;
            let frames1 = st.frames.push(
                SpecFrame { enclosing: Some(st.cur), bindings: Map::empty() },
            );
            let stp = with_frames(st, frames1);
            lemma_exec_in_doms(ss, envid, stp, (fuel - 1) as u64);
            match spec_exec_in(ss, envid, stp, (fuel - 1) as u64) {
                ExecStep::Done(st2) => {
                    assert forall|g: int| 0 <= g < st.frames.len() && g != st.cur implies (
                    #[trigger] st2.frames[g]).bindings.dom() == st.frames[g].bindings.dom() by {
                        assert(st2.frames[g].bindings.dom() == frames1[g].bindings.dom());
                        assert(frames1[g] == st.frames[g]);
                    }
                },
                ExecStep::Ret(_, st2) => {
                    assert forall|g: int| 0 <= g < st.frames.len() && g != st.cur implies (
                    #[trigger] st2.frames[g]).bindings.dom() == st.frames[g].bindings.dom() by {
                        assert(st2.frames[g].bindings.dom() == frames1[g].bindings.dom());
                        assert(frames1[g] == st.frames[g]);
                    }
                },
                ExecStep::Halt(_, _) => {},
            }
        },
        SpecStmt::If { condition, then_branch, else_branch } => {
            lemma_eval_doms(condition, st, (fuel - 1) as u64);
            match spec_eval(condition, st, (fuel - 1) as u64) {
                EvalStep::Val(c, st1) => {
                    lemma_doms_weaken(st.frames, st1.frames, st.cur);
                    if spec_truthy(c) {
                        lemma_exec_doms(*then_branch, st1, (fuel - 1) as u64);
                        match spec_exec(*then_branch, st1, (fuel - 1) as u64) {
                            ExecStep::Done(st2) => {
                                lemma_doms_trans(st.frames, st1.frames, st2.frames, st.cur);
                            },
                            ExecStep::Ret(_, st2) => {
                                lemma_doms_trans(st.frames, st1.frames, st2.frames, st.cur);
                            },
                            ExecStep::Halt(_, _) => {},
                        }
                    } else {
                        match else_branch {
                            Some(els) => {
                                lemma_exec_doms(*els, st1, (fuel - 1) as u64);
                                match spec_exec(*els, st1, (fuel - 1) as u64) {
                                    ExecStep::Done(st2) => {
                                        lemma_doms_trans(
                                            st.frames,
                                            st1.frames,
                                            st2.frames,
                                            st.cur,
                                        );
                                    },
                                    ExecStep::Ret(_, st2) => {
                                        lemma_doms_trans(
                                            st.frames,
                                            st1.frames,
                                            st2.frames,
                                            st.cur,
                                        );
                                    },
                                    ExecStep::Halt(_, _) => {},
                                }
                            },
                            None => {},
                        }
                    }
                },
                EvalStep::Halt(_, _) => {},
            }
        },
        SpecStmt::While { condition, body } => {
            lemma_eval_doms(condition, st, (fuel - 1) as u64);
            match spec_eval(condition, st, (fuel - 1) as u64) {
                EvalStep::Val(c, st1) => {
                    lemma_doms_weaken(st.frames, st1.frames, st.cur);
                    if spec_truthy(c) {
                        lemma_exec_doms(*body, st1, (fuel - 1) as u64);
                        match spec_exec(*body, st1, (fuel - 1) as u64) {
                            ExecStep::Done(st2) => {
                                lemma_doms_trans(st.frames, st1.frames, st2.frames, st.cur);
                                lemma_exec_doms(
                                    SpecStmt::While { condition, body },
                                    st2,
                                    (fuel - 1) as u64,
                                );
                                match spec_exec(
                                    SpecStmt::While { condition, body },
                                    st2,
                                    (fuel - 1) as u64,
                                ) {
                                    ExecStep::Done(st3) => {
                                        lemma_doms_trans(
                                            st.frames,
                                            st2.frames,
                                            st3.frames,
                                            st.cur,
                                        );
                                    },
                                    ExecStep::Ret(_, st3) => {
                                        lemma_doms_trans(
                                            st.frames,
                                            st2.frames,
                                            st3.frames,
                                            st.cur,
                                        );
                                    },
                                    ExecStep::Halt(_, _) => {},
                                }
                            },
                            ExecStep::Ret(_, st2) => {
                                lemma_doms_trans(st.frames, st1.frames, st2.frames, st.cur);
                            },
                            ExecStep::Halt(_, _) => {},
                        }
                    }
                },
                EvalStep::Halt(_, _) => {},
            }
        },
        SpecStmt::Function(f) => {
            lemma_define_doms(
                st.frames,
                st.cur,
                f.name.lexeme,
                SpecValue::Fun(
                    crate::lox_function::SpecLoxFunction { declaration: f, closure: st.cur },
                ),
            );
        },
        SpecStmt::Return { keyword: _, value } => {
            lemma_eval_doms(value, st, (fuel - 1) as u64);
            match spec_eval(value, st, (fuel - 1) as u64) {
                EvalStep::Val(_, st1) => {
                    lemma_doms_weaken(st.frames, st1.frames, st.cur);
                },
                EvalStep::Halt(_, _) => {},
            }
        },
    }
}

proof fn lemma_exec_seq_doms(ss: Seq<SpecStmt>, st: SpecInterp, fuel: u64)
    requires
        0 <= st.cur < st.frames.len(),
    ensures
        match spec_exec_seq(ss, st, fuel) {
            ExecStep::Done(st2) => doms_kept(st.frames, st2.frames, st.cur) && st2.cur == st.cur,
            ExecStep::Ret(_, st2) => doms_kept(st.frames, st2.frames, st.cur) && st2.cur == st.cur,
            ExecStep::Halt(_, _) => true,
        },
    decreases fuel, 5int,
{
    if fuel == 0 || ss.len() == 0 {
        return;
    }
    lemma_exec_doms(ss[0], st, (fuel - 1) as u64);
    match spec_exec(ss[0], st, (fuel - 1) as u64) {
        ExecStep::Done(st1) => {
            lemma_exec_seq_doms(ss.drop_first(), st1, (fuel - 1) as u64);
            match spec_exec_seq(ss.drop_first(), st1, (fuel - 1) as u64) {
                ExecStep::Done(st2) => {
                    lemma_doms_trans(st.frames, st1.frames, st2.frames, st.cur);
                },
                ExecStep::Ret(_, st2) => {
                    lemma_doms_trans(st.frames, st1.frames, st2.frames, st.cur);
                },
                ExecStep::Halt(_, _) => {},
            }
        },
        ExecStep::Ret(_, _) => {},
        ExecStep::Halt(_, _) => {},
    }
}

/// Block scope, whole: after a block runs to completion, every frame
/// that existed at its entry — the then-current frame included —
/// binds exactly the names it bound before.  Everything the block
/// declared lives only in the block's own fresh frame, so none of it
/// is visible outside.
pub proof fn lemma_block_declares_nothing_outside(
    ss: Seq<SpecStmt>,
    st: SpecInterp,
    st2: SpecInterp,
    fuel: u64,
)
    requires
        fuel >= 1,
        spec_exec(SpecStmt::Block(ss), st, fuel) == ExecStep::Done(st2),
    ensures
        st2.cur == st.cur,
        st2.frames.len() >= st.frames.len(),
        forall|f: int|
            0 <= f < st.frames.len() ==> (#[trigger] st2.frames[f]).bindings.dom()
                == st.frames[f].bindings.dom(),
{
    let envid = st.frames.len() as int;
    let frames1 = st.frames.push(SpecFrame { enclosing: Some(st.cur), bindings: Map::empty() });
    let stp = with_frames(st, frames1);
    lemma_exec_in_doms(ss, envid, stp, (fuel - 1) as u64);
    assert forall|f: int| 0 <= f < st.frames.len() implies (#[trigger] st2.frames[f]).bindings.dom()
        == st.frames[f].bindings.dom() by {
        assert(st2.frames[f].bindings.dom() == frames1[f].bindings.dom());
        assert(frames1[f] == st.frames[f]);
    }
}

} // verus!
