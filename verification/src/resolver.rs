//! Static resolution: binds every variable use to the number of
//! scopes between the use and its declaration.
//!
//! The resolver never executes code and never touches runtime
//! environments; it only fills the interpreter's distance table.  A
//! use with no entry afterwards is a global reference.
use vstd::prelude::*;
use crate::expr::{Expr, SpecExpr};
use crate::interpreter::{Interpreter, SpecInterp};
use crate::lox_error::{LoxError, SpecLoxError};
use crate::stmt::{SpecStmt, Stmt};
use crate::token::{SpecToken, Token};

verus! {

use vstd::string::StringExecFns;

/// The resolver's state as mathematics: the stack of scopes, each a
/// map from name to "defined yet?", and the distance table built so
/// far.
pub struct RState {
    pub scopes: Seq<Map<Seq<char>, bool>>,
    pub locals: Map<u64, usize>,
}

/// What resolving a piece of tree does: a new state, or a binding
/// error.
pub enum Resolved {
    Done(RState),
    Fail(SpecLoxError),
}

pub open spec fn r_spent() -> SpecLoxError {
    SpecLoxError::Runtime("Program too deeply nested."@)
}

/// Marks a name as declared but not yet defined in the innermost
/// scope; outside any scope this does nothing.
pub open spec fn r_declare(st: RState, name: Seq<char>) -> RState {
    if st.scopes.len() == 0 {
        st
    } else {
        RState {
            scopes: st.scopes.update(
                st.scopes.len() - 1,
                st.scopes.last().insert(name, false),
            ),
            locals: st.locals,
        }
    }
}

/// Marks a name as defined in the innermost scope.
pub open spec fn r_define(st: RState, name: Seq<char>) -> RState {
    if st.scopes.len() == 0 {
        st
    } else {
        RState {
            scopes: st.scopes.update(st.scopes.len() - 1, st.scopes.last().insert(name, true)),
            locals: st.locals,
        }
    }
}

/// How many scopes out the innermost occurrence of a name stands;
/// `None` when no scope holds it (a global reference).
pub open spec fn scope_distance(scopes: Seq<Map<Seq<char>, bool>>, name: Seq<char>) -> Option<int>
    decreases scopes.len(),
{
    if scopes.len() == 0 {
        None
    } else if scopes.last().dom().contains(name) {
        Some(0)
    } else {
        match scope_distance(scopes.drop_last(), name) {
            Some(d) => Some(d + 1),
            None => None,
        }
    }
}

/// Records the distance for one expression node, when the name is
/// local at all.
pub open spec fn r_resolve_local(st: RState, id: u64, name: Seq<char>) -> RState {
    match scope_distance(st.scopes, name) {
        Some(d) => RState { scopes: st.scopes, locals: st.locals.insert(id, d as usize) },
        None => st,
    }
}

/// A variable use: rejected while its own declaration is unfinished,
/// resolved to a distance otherwise.
pub open spec fn r_variable(st: RState, id: u64, name: Seq<char>) -> Resolved {
    if st.scopes.len() > 0 && st.scopes.last().dom().contains(name) && st.scopes.last()[name]
        == false {
        Resolved::Fail(
            SpecLoxError::Binding(name, "cannot read local variable in its own initializer."@),
        )
    } else {
        Resolved::Done(r_resolve_local(st, id, name))
    }
}

/// Declares and defines every parameter, innermost scope.
pub open spec fn r_params(st: RState, params: Seq<SpecToken>) -> RState
    decreases params.len(),
{
    if params.len() == 0 {
        st
    } else {
        r_params(r_define(r_declare(st, params[0].lexeme), params[0].lexeme), params.drop_first())
    }
}

pub open spec fn r_expr(e: SpecExpr, st: RState, fuel: u64) -> Resolved
    decreases fuel, 0int,
{
    if fuel == 0 {
        Resolved::Fail(r_spent())
    } else {
        match e {
            SpecExpr::Literal(_) => Resolved::Done(st),
            SpecExpr::Unary { operator: _, right } => r_expr(*right, st, (fuel - 1) as u64),
            SpecExpr::Binary { left, operator: _, right } => match r_expr(
                *left,
                st,
                (fuel - 1) as u64,
            ) {
                Resolved::Done(st2) => r_expr(*right, st2, (fuel - 1) as u64),
                Resolved::Fail(m) => Resolved::Fail(m),
            },
            SpecExpr::Logical { left, operator: _, right } => match r_expr(
                *left,
                st,
                (fuel - 1) as u64,
            ) {
                Resolved::Done(st2) => r_expr(*right, st2, (fuel - 1) as u64),
                Resolved::Fail(m) => Resolved::Fail(m),
            },
            SpecExpr::Grouping(inner) => r_expr(*inner, st, (fuel - 1) as u64),
            SpecExpr::Variable { id, name } => r_variable(st, id, name.lexeme),
            SpecExpr::Assign { id, name, value } => match r_expr(*value, st, (fuel - 1) as u64) {
                Resolved::Done(st2) => r_variable(st2, id, name.lexeme),
                Resolved::Fail(m) => Resolved::Fail(m),
            },
            SpecExpr::Call { callee, paren: _, arguments } => match r_expr(
                *callee,
                st,
                (fuel - 1) as u64,
            ) {
                Resolved::Done(st2) => r_exprs(arguments, st2, (fuel - 1) as u64),
                Resolved::Fail(m) => Resolved::Fail(m),
            },
        }
    }
}

pub open spec fn r_exprs(es: Seq<SpecExpr>, st: RState, fuel: u64) -> Resolved
    decreases fuel, 1int,
{
    if fuel == 0 {
        Resolved::Fail(r_spent())
    } else if es.len() == 0 {
        Resolved::Done(st)
    } else {
        match r_expr(es[0], st, (fuel - 1) as u64) {
            Resolved::Done(st2) => r_exprs(es.drop_first(), st2, (fuel - 1) as u64),
            Resolved::Fail(m) => Resolved::Fail(m),
        }
    }
}

pub open spec fn r_stmt(s: SpecStmt, st: RState, fuel: u64) -> Resolved
    decreases fuel, 0int,
{
    if fuel == 0 {
        Resolved::Fail(r_spent())
    } else {
        match s {
            SpecStmt::Expression(e) => r_expr(e, st, (fuel - 1) as u64),
            SpecStmt::Print(e) => r_expr(e, st, (fuel - 1) as u64),
            SpecStmt::Var { name, initializer } => {
                let st1 = r_declare(st, name.lexeme);
                match initializer {
                    Some(e) => match r_expr(e, st1, (fuel - 1) as u64) {
                        Resolved::Done(st2) => Resolved::Done(r_define(st2, name.lexeme)),
                        Resolved::Fail(m) => Resolved::Fail(m),
                    },
                    None => Resolved::Done(r_define(st1, name.lexeme)),
                }
            },
            SpecStmt::Block(ss) => {
                let st1 = RState { scopes: st.scopes.push(Map::empty()), locals: st.locals };
                match r_stmts(ss, st1, (fuel - 1) as u64) {
                    Resolved::Done(st2) => Resolved::Done(
                        RState { scopes: st2.scopes.drop_last(), locals: st2.locals },
                    ),
                    Resolved::Fail(m) => Resolved::Fail(m),
                }
            },
            SpecStmt::If { condition, then_branch, else_branch } => match r_expr(
                condition,
                st,
                (fuel - 1) as u64,
            ) {
                Resolved::Done(st2) => match r_stmt(*then_branch, st2, (fuel - 1) as u64) {
                    Resolved::Done(st3) => match else_branch {
                        Some(els) => r_stmt(*els, st3, (fuel - 1) as u64),
                        None => Resolved::Done(st3),
                    },
                    Resolved::Fail(m) => Resolved::Fail(m),
                },
                Resolved::Fail(m) => Resolved::Fail(m),
            },
            SpecStmt::While { condition, body } => match r_expr(condition, st, (fuel - 1) as u64) {
                Resolved::Done(st2) => r_stmt(*body, st2, (fuel - 1) as u64),
                Resolved::Fail(m) => Resolved::Fail(m),
            },
            SpecStmt::Function(f) => {
                let st1 = r_define(r_declare(st, f.name.lexeme), f.name.lexeme);
                let st2 = RState { scopes: st1.scopes.push(Map::empty()), locals: st1.locals };
                let st3 = r_params(st2, f.params);
                match r_stmts(f.body, st3, (fuel - 1) as u64) {
                    Resolved::Done(st4) => Resolved::Done(
                        RState { scopes: st4.scopes.drop_last(), locals: st4.locals },
                    ),
                    Resolved::Fail(m) => Resolved::Fail(m),
                }
            },
            SpecStmt::Return { keyword: _, value } => r_expr(value, st, (fuel - 1) as u64),
        }
    }
}

pub open spec fn r_stmts(ss: Seq<SpecStmt>, st: RState, fuel: u64) -> Resolved
    decreases fuel, 1int,
{
    if fuel == 0 {
        Resolved::Fail(r_spent())
    } else if ss.len() == 0 {
        Resolved::Done(st)
    } else {
        match r_stmt(ss[0], st, (fuel - 1) as u64) {
            Resolved::Done(st2) => r_stmts(ss.drop_first(), st2, (fuel - 1) as u64),
            Resolved::Fail(m) => Resolved::Fail(m),
        }
    }
}

/// Fuel that bounds the resolver's structural recursion; trees this
/// deep cannot be built in memory.
pub const RESOLVE_FUEL: u64 = 0xFFFF_FFFF_FFFF_FFFF;

/// What `Resolver::resolve` computes over a whole program: the
/// statements are resolved inside one top-level scope, so that even a
/// top-level `var a = a;` is caught reading its own initializer.
pub open spec fn spec_resolve(ss: Seq<SpecStmt>, locals: Map<u64, usize>) -> Resolved {
    r_stmts(
        ss,
        RState { scopes: seq![Map::<Seq<char>, bool>::empty()], locals },
        RESOLVE_FUEL,
    )
}

// ---------------------------------------------------------------
// Executable resolver.
// ---------------------------------------------------------------

/// One scope as the resolver holds it: an append-only association
/// list, the latest entry for a name winning.
pub open spec fn scope_view(es: Seq<(String, bool)>) -> Map<Seq<char>, bool>
    decreases es,
{
    if es.len() == 0 {
        Map::empty()
    } else {
        scope_view(es.drop_last()).insert(es.last().0@, es.last().1@)
    }
}

proof fn lemma_scope_found(es: Seq<(String, bool)>, i: int, name: Seq<char>)
    requires
        0 <= i < es.len(),
        es[i].0@ == name,
        forall|k: int| i < k < es.len() ==> (#[trigger] es[k]).0@ != name,
    ensures
        scope_view(es).dom().contains(name),
        scope_view(es)[name] == es[i].1,
    decreases es.len(),
{
    if i == es.len() - 1 {
    } else {
        assert(es.drop_last()[i] == es[i]);
        lemma_scope_found(es.drop_last(), i, name);
    }
}

proof fn lemma_scope_absent(es: Seq<(String, bool)>, name: Seq<char>)
    requires
        forall|k: int| 0 <= k < es.len() ==> (#[trigger] es[k]).0@ != name,
    ensures
        !scope_view(es).dom().contains(name),
    decreases es.len(),
{
    if es.len() > 0 {
        lemma_scope_absent(es.drop_last(), name);
    }
}

/// The latest mark for a name in one scope.
fn scope_find(es: &Vec<(String, bool)>, name: &String) -> (r: Option<bool>)
    ensures
        match r {
            Some(b) => scope_view(es@).dom().contains(name@) && scope_view(es@)[name@] == b,
            None => !scope_view(es@).dom().contains(name@),
        },
{
    let n = es.len();
    let mut i: usize = n;
    while i > 0
        invariant
            i <= n,
            n == es@.len(),
            forall|k: int| i <= k < n ==> (#[trigger] es@[k]).0@ != name@,
        decreases i,
    {
        i = i - 1;
        if es[i].0.eq(name) {
            proof {
                lemma_scope_found(es@, i as int, name@);
            }
            return Some(es[i].1);
        }
    }
    proof {
        lemma_scope_absent(es@, name@);
    }
    None
}

/// The static pre-pass: walks the tree carrying a stack of scopes and
/// fills the interpreter's distance table.
pub struct Resolver {
    pub scopes: Vec<Vec<(String, bool)>>,
}

impl View for Resolver {
    type V = Seq<Map<Seq<char>, bool>>;

    open spec fn view(&self) -> Seq<Map<Seq<char>, bool>> {
        self.scopes@.map_values(|es: Vec<(String, bool)>| scope_view(es@))
    }
}

/// The combined state a resolver and an interpreter stand for.
pub open spec fn rstate(scopes: Seq<Map<Seq<char>, bool>>, interp: SpecInterp) -> RState {
    RState { scopes, locals: interp.locals }
}

/// Everything of the interpreter but the distance table is untouched
/// by resolution.
pub open spec fn same_but_locals(pre: SpecInterp, post: SpecInterp) -> bool {
    &&& post.frames == pre.frames
    &&& post.cur == pre.cur
    &&& post.output == pre.output
}

impl Resolver {
    pub fn new() -> (r: Resolver)
        ensures
            r@ == Seq::<Map<Seq<char>, bool>>::empty(),
    {
        let r = Resolver { scopes: Vec::new() };
        proof {
            assert(r@ =~= Seq::<Map<Seq<char>, bool>>::empty());
        }
        r
    }

    fn begin_scope(&mut self)
        ensures
            final(self)@ == old(self)@.push(Map::<Seq<char>, bool>::empty()),
    {
        self.scopes.push(Vec::new());
        proof {
            assert(scope_view(self.scopes@.last()@) =~= Map::<Seq<char>, bool>::empty());
            assert(self@ =~= old(self)@.push(Map::<Seq<char>, bool>::empty()));
        }
    }

    fn end_scope(&mut self)
        requires
            old(self)@.len() > 0,
        ensures
            final(self)@ == old(self)@.drop_last(),
    {
        let _ = self.scopes.pop();
        proof {
            assert(self@ =~= old(self)@.drop_last());
        }
    }

    /// Declares a name in the innermost scope, not yet defined.
    fn declare(&mut self, name: &Token)
        ensures
            final(self)@ == r_declare(
                RState { scopes: old(self)@, locals: Map::empty() },
                name@.lexeme,
            ).scopes,
    {
        let n = self.scopes.len();
        if n == 0 {
            return;
        }
        self.scopes[n - 1].push((name.lexeme(), false));
        proof {
            let es = self.scopes@[n as int - 1]@;
            assert(es.drop_last() =~= old(self).scopes@[n as int - 1]@);
            assert(self@ =~= old(self)@.update(n - 1, old(self)@.last().insert(name@.lexeme, false)));
        }
    }

    /// Marks a name as defined in the innermost scope.
    fn define(&mut self, name: &Token)
        ensures
            final(self)@ == r_define(
                RState { scopes: old(self)@, locals: Map::empty() },
                name@.lexeme,
            ).scopes,
    {
        let n = self.scopes.len();
        if n == 0 {
            return;
        }
        self.scopes[n - 1].push((name.lexeme(), true));
        proof {
            let es = self.scopes@[n as int - 1]@;
            assert(es.drop_last() =~= old(self).scopes@[n as int - 1]@);
            assert(self@ =~= old(self)@.update(n - 1, old(self)@.last().insert(name@.lexeme, true)));
        }
    }

    /// Finds the innermost scope holding the name and records its
    /// distance for the node `id`.
    fn resolve_local(&mut self, interpreter: &mut Interpreter, id: u64, name: &String)
        ensures
            final(self)@ == old(self)@,
            same_but_locals(old(interpreter)@, final(interpreter)@),
            rstate(final(self)@, final(interpreter)@) == r_resolve_local(
                rstate(old(self)@, old(interpreter)@),
                id,
                name@,
            ),
            old(interpreter).wf() ==> final(interpreter).wf(),
    {
        let n = self.scopes.len();
        proof {
            assert(self@.take(n as int) =~= self@);
        }
        let mut i: usize = n;
        while i > 0
            invariant
                i <= n,
                n == self@.len(),
                self@ == old(self)@,
                interpreter == old(interpreter),
                scope_distance(self@, name@) == match scope_distance(
                    self@.take(i as int),
                    name@,
                ) {
                    Some(d) => Some(d + (n - i)),
                    None => None::<int>,
                },
            decreases i,
        {
            i = i - 1;
            proof {
                assert(self@.take(i + 1).last() == self@[i as int]);
                assert(self@.take(i + 1).drop_last() =~= self@.take(i as int));
                assert(self@[i as int] == scope_view(self.scopes@[i as int]@));
            }
            match scope_find(&self.scopes[i], name) {
                Some(_) => {
                    let depth = n - 1 - i;
                    proof {
                        assert(scope_distance(self@.take(i + 1), name@) == Some(0int));
                        assert(scope_distance(self@, name@) == Some((n - 1 - i) as int));
                    }
                    interpreter.resolve(id, depth);
                    return;
                },
                None => {},
            }
        }
        proof {
            assert(self@.take(0) =~= Seq::<Map<Seq<char>, bool>>::empty());
            assert(scope_distance(self@, name@) is None);
        }
    }

    /// A variable or assignment target: rejected while its own
    /// declaration is unfinished, bound to a distance otherwise.
    fn visit_name(&mut self, interpreter: &mut Interpreter, id: u64, name: &Token) -> (r: Result<
        (),
        LoxError,
    >)
        ensures
            final(self)@ == old(self)@,
            same_but_locals(old(interpreter)@, final(interpreter)@),
            match r {
                Ok(_) => r_variable(rstate(old(self)@, old(interpreter)@), id, name@.lexeme)
                    == Resolved::Done(rstate(final(self)@, final(interpreter)@)),
                Err(e) => r_variable(rstate(old(self)@, old(interpreter)@), id, name@.lexeme)
                    == Resolved::Fail(e@) && final(interpreter)@ == old(interpreter)@,
            },
            old(interpreter).wf() ==> final(interpreter).wf(),
    {
        let n = self.scopes.len();
        if n > 0 {
            proof {
                assert(self@.last() == scope_view(self.scopes@[n as int - 1]@));
            }
            match scope_find(&self.scopes[n - 1], &name.lexeme()) {
                Some(false) => {
                    return Err(
                        LoxError::BindingError(
                            name.lexeme(),
                            String::from_str(
                                "cannot read local variable in its own initializer.",
                            ),
                        ),
                    );
                },
                _ => {},
            }
        }
        self.resolve_local(interpreter, id, &name.lexeme());
        Ok(())
    }

    fn visit_expr(&mut self, interpreter: &mut Interpreter, e: &Expr, fuel: u64) -> (r: Result<
        (),
        LoxError,
    >)
        ensures
            same_but_locals(old(interpreter)@, final(interpreter)@),
            old(interpreter).wf() ==> final(interpreter).wf(),
            match r {
                Ok(_) => r_expr(e@, rstate(old(self)@, old(interpreter)@), fuel) == Resolved::Done(
                    rstate(final(self)@, final(interpreter)@),
                ) && final(self)@.len() == old(self)@.len(),
                Err(er) => r_expr(e@, rstate(old(self)@, old(interpreter)@), fuel)
                    == Resolved::Fail(er@),
            },
        decreases fuel, 0int,
    {
        if fuel == 0 {
            return Err(LoxError::RuntimeError(String::from_str("Program too deeply nested.")));
        }
        match e {
            Expr::Literal(_) => Ok(()),
            Expr::Unary { operator: _, right } => self.visit_expr(interpreter, right, fuel - 1),
            Expr::Binary { left, operator: _, right } => {
                self.visit_expr(interpreter, left, fuel - 1)?;
                self.visit_expr(interpreter, right, fuel - 1)
            },
            Expr::Logical { left, operator: _, right } => {
                self.visit_expr(interpreter, left, fuel - 1)?;
                self.visit_expr(interpreter, right, fuel - 1)
            },
            Expr::Grouping(inner) => self.visit_expr(interpreter, inner, fuel - 1),
            Expr::Variable { id, name } => self.visit_name(interpreter, *id, name),
            Expr::Assign { id, name, value } => {
                self.visit_expr(interpreter, value, fuel - 1)?;
                self.visit_name(interpreter, *id, name)
            },
            Expr::Call { callee, paren: _, arguments } => {
                self.visit_expr(interpreter, callee, fuel - 1)?;
                proof {
                    assert(crate::expr::exprs_view(arguments@).skip(0) =~= crate::expr::exprs_view(
                        arguments@,
                    ));
                }
                self.visit_exprs(interpreter, arguments, 0, fuel - 1)
            },
        }
    }

    fn visit_exprs(
        &mut self,
        interpreter: &mut Interpreter,
        es: &Vec<Expr>,
        k: usize,
        fuel: u64,
    ) -> (r: Result<(), LoxError>)
        requires
            k <= es@.len(),
        ensures
            same_but_locals(old(interpreter)@, final(interpreter)@),
            old(interpreter).wf() ==> final(interpreter).wf(),
            match r {
                Ok(_) => r_exprs(
                    crate::expr::exprs_view(es@).skip(k as int),
                    rstate(old(self)@, old(interpreter)@),
                    fuel,
                ) == Resolved::Done(rstate(final(self)@, final(interpreter)@))
                    && final(self)@.len() == old(self)@.len(),
                Err(er) => r_exprs(
                    crate::expr::exprs_view(es@).skip(k as int),
                    rstate(old(self)@, old(interpreter)@),
                    fuel,
                ) == Resolved::Fail(er@),
            },
        decreases fuel, 1int,
    {
        proof {
            crate::expr::lemma_exprs_view(es@);
        }
        if fuel == 0 {
            return Err(LoxError::RuntimeError(String::from_str("Program too deeply nested.")));
        }
        if k == es.len() {
            proof {
                assert(crate::expr::exprs_view(es@).skip(k as int)
                    =~= Seq::<SpecExpr>::empty());
            }
            return Ok(());
        }
        proof {
            let views = crate::expr::exprs_view(es@);
            assert(views.skip(k as int)[0] == views[k as int]);
            assert(views.skip(k as int).drop_first() =~= views.skip(k + 1));
        }
        self.visit_expr(interpreter, &es[k], fuel - 1)?;
        self.visit_exprs(interpreter, es, k + 1, fuel - 1)
    }

    #[verifier::rlimit(100)]
    fn visit_stmt(&mut self, interpreter: &mut Interpreter, s: &Stmt, fuel: u64) -> (r: Result<
        (),
        LoxError,
    >)
        ensures
            same_but_locals(old(interpreter)@, final(interpreter)@),
            old(interpreter).wf() ==> final(interpreter).wf(),
            match r {
                Ok(_) => r_stmt(s@, rstate(old(self)@, old(interpreter)@), fuel) == Resolved::Done(
                    rstate(final(self)@, final(interpreter)@),
                ) && final(self)@.len() == old(self)@.len(),
                Err(er) => r_stmt(s@, rstate(old(self)@, old(interpreter)@), fuel)
                    == Resolved::Fail(er@),
            },
        decreases fuel, 0int,
    {
        if fuel == 0 {
            return Err(LoxError::RuntimeError(String::from_str("Program too deeply nested.")));
        }
        match s {
            Stmt::Expression(e) => self.visit_expr(interpreter, e, fuel - 1),
            Stmt::Print(e) => self.visit_expr(interpreter, e, fuel - 1),
            Stmt::Var { name, initializer } => {
                self.declare(name);
                match initializer {
                    Some(e) => {
                        self.visit_expr(interpreter, e, fuel - 1)?;
                        self.define(name);
                        Ok(())
                    },
                    None => {
                        self.define(name);
                        Ok(())
                    },
                }
            },
            Stmt::Block(b) => {
                self.begin_scope();
                let body = b.statements();
                proof {
                    assert(crate::stmt::stmts_view(body@).skip(0) =~= crate::stmt::stmts_view(
                        body@,
                    ));
                }
                self.visit_stmts(interpreter, body, 0, fuel - 1)?;
                self.end_scope();
                Ok(())
            },
            Stmt::If { condition, then_branch, else_branch } => {
                self.visit_expr(interpreter, condition, fuel - 1)?;
                self.visit_stmt(interpreter, then_branch, fuel - 1)?;
                match else_branch {
                    Some(els) => self.visit_stmt(interpreter, els, fuel - 1),
                    None => Ok(()),
                }
            },
            Stmt::While { condition, body } => {
                self.visit_expr(interpreter, condition, fuel - 1)?;
                self.visit_stmt(interpreter, body, fuel - 1)
            },
            Stmt::Function(f) => {
                let name = f.name();
                self.declare(&name);
                self.define(&name);
                self.begin_scope();
                let params = f.params();
                let n = params.len();
                let ghost scoped = rstate(self@, interpreter@);
                let ghost pviews = crate::token::tokens_view(params@);
                proof {
                    assert(pviews.skip(0) =~= pviews);
                }
                let mut i: usize = 0;
                while i < n
                    invariant
                        i <= n,
                        n == params@.len(),
                        pviews == crate::token::tokens_view(params@),
                        interpreter == old(interpreter),
                        self@.len() == scoped.scopes.len(),
                        r_params(scoped, pviews) == r_params(
                            rstate(self@, interpreter@),
                            pviews.skip(i as int),
                        ),
                    decreases n - i,
                {
                    proof {
                        assert(pviews.skip(i as int)[0] == pviews[i as int]);
                        assert(pviews[i as int] == params@[i as int]@);
                        assert(pviews.skip(i as int).drop_first() =~= pviews.skip(i + 1));
                    }
                    self.declare(&params[i]);
                    self.define(&params[i]);
                    i = i + 1;
                }
                proof {
                    assert(pviews.skip(n as int) =~= Seq::<SpecToken>::empty());
                }
                let body = f.body();
                proof {
                    assert(crate::stmt::stmts_view(body@).skip(0) =~= crate::stmt::stmts_view(
                        body@,
                    ));
                }
                self.visit_stmts(interpreter, body, 0, fuel - 1)?;
                self.end_scope();
                Ok(())
            },
            Stmt::Return { keyword: _, value } => self.visit_expr(interpreter, value, fuel - 1),
        }
    }

    fn visit_stmts(
        &mut self,
        interpreter: &mut Interpreter,
        ss: &Vec<Stmt>,
        k: usize,
        fuel: u64,
    ) -> (r: Result<(), LoxError>)
        requires
            k <= ss@.len(),
        ensures
            same_but_locals(old(interpreter)@, final(interpreter)@),
            old(interpreter).wf() ==> final(interpreter).wf(),
            match r {
                Ok(_) => r_stmts(
                    crate::stmt::stmts_view(ss@).skip(k as int),
                    rstate(old(self)@, old(interpreter)@),
                    fuel,
                ) == Resolved::Done(rstate(final(self)@, final(interpreter)@))
                    && final(self)@.len() == old(self)@.len(),
                Err(er) => r_stmts(
                    crate::stmt::stmts_view(ss@).skip(k as int),
                    rstate(old(self)@, old(interpreter)@),
                    fuel,
                ) == Resolved::Fail(er@),
            },
        decreases fuel, 1int,
    {
        proof {
            crate::stmt::lemma_stmts_view(ss@);
        }
        if fuel == 0 {
            return Err(LoxError::RuntimeError(String::from_str("Program too deeply nested.")));
        }
        if k == ss.len() {
            proof {
                assert(crate::stmt::stmts_view(ss@).skip(k as int)
                    =~= Seq::<SpecStmt>::empty());
            }
            return Ok(());
        }
        proof {
            let views = crate::stmt::stmts_view(ss@);
            assert(views.skip(k as int)[0] == views[k as int]);
            assert(views.skip(k as int).drop_first() =~= views.skip(k + 1));
        }
        self.visit_stmt(interpreter, &ss[k], fuel - 1)?;
        self.visit_stmts(interpreter, ss, k + 1, fuel - 1)
    }

    /// Resolves a whole program inside one top-level scope, filling
    /// the interpreter's distance table; a read-in-own-initializer
    /// stops resolution with a binding error.
    pub fn resolve(&mut self, interpreter: &mut Interpreter, statements: &Vec<Stmt>) -> (r: Result<
        (),
        LoxError,
    >)
        requires
            old(self)@ == Seq::<Map<Seq<char>, bool>>::empty(),
        ensures
            same_but_locals(old(interpreter)@, final(interpreter)@),
            old(interpreter).wf() ==> final(interpreter).wf(),
            match spec_resolve(crate::stmt::stmts_view(statements@), old(interpreter)@.locals) {
                Resolved::Done(st2) => r matches Ok(_) && final(interpreter)@.locals == st2.locals,
                Resolved::Fail(e) => r matches Err(er) && er@ == e,
            },
    {
        proof {
            assert(crate::stmt::stmts_view(statements@).skip(0)
                =~= crate::stmt::stmts_view(statements@));
        }
        self.begin_scope();
        proof {
            assert(self@ =~= seq![Map::<Seq<char>, bool>::empty()]);
        }
        let r = self.visit_stmts(interpreter, statements, 0, RESOLVE_FUEL);
        match r {
            Ok(_) => {
                self.end_scope();
                Ok(())
            },
            Err(e) => Err(e),
        }
    }
}

/// Every distance the resolver records is the count of scopes between
/// the use and its binding: non-negative and within the scope stack.
pub proof fn lemma_distance_in_range(scopes: Seq<Map<Seq<char>, bool>>, name: Seq<char>)
    ensures
        match scope_distance(scopes, name) {
            Some(d) => 0 <= d < scopes.len(),
            None => true,
        },
    decreases scopes.len(),
{
    if scopes.len() > 0 && !scopes.last().dom().contains(name) {
        lemma_distance_in_range(scopes.drop_last(), name);
    }
}

/// A variable use either fails with the read-in-own-initializer
/// binding error, or leaves every other table entry alone and maps
/// the node to a distance within the scope stack or to no entry (a
/// global).
pub proof fn lemma_resolution_annotates(st: RState, id: u64, name: Seq<char>)
    ensures
        match r_variable(st, id, name) {
            Resolved::Done(st2) => {
                &&& st2.scopes == st.scopes
                &&& forall|other: u64|
                    other != id && st.locals.dom().contains(other) ==> st2.locals.dom().contains(
                        other,
                    ) && st2.locals[other] == #[trigger] st.locals[other]
                &&& st2.locals.dom().contains(id) ==> (st2.locals[id] as int)
                    < st.scopes.len() || st.locals.dom().contains(id)
            },
            Resolved::Fail(e) => e == SpecLoxError::Binding(
                name,
                "cannot read local variable in its own initializer."@,
            ),
        },
{
    lemma_distance_in_range(st.scopes, name);
}

// ---------------------------------------------------------------
// The distance table holds only the program's own nodes.
// ---------------------------------------------------------------

/// Every key of `post` was a key of `pre` or is one of `allowed`.
pub open spec fn keys_from(pre: Map<u64, usize>, post: Map<u64, usize>, allowed: Set<u64>) -> bool {
    forall|k: u64| #[trigger] post.dom().contains(k) ==> pre.dom().contains(k) || allowed.contains(k)
}

proof fn lemma_keys_trans(
    a: Map<u64, usize>,
    b: Map<u64, usize>,
    c: Map<u64, usize>,
    s1: Set<u64>,
    s2: Set<u64>,
)
    requires
        keys_from(a, b, s1),
        keys_from(b, c, s2),
    ensures
        keys_from(a, c, s1.union(s2)),
{
}

/// Binding parameters never touches the distance table.
proof fn lemma_r_params_locals(st: RState, params: Seq<SpecToken>)
    ensures
        r_params(st, params).locals == st.locals,
    decreases params.len(),
{
    if params.len() > 0 {
        lemma_r_params_locals(
            r_define(r_declare(st, params[0].lexeme), params[0].lexeme),
            params.drop_first(),
        );
    }
}

proof fn lemma_r_expr_keys(e: SpecExpr, st: RState, fuel: u64)
    ensures
        match r_expr(e, st, fuel) {
            Resolved::Done(st2) => keys_from(st.locals, st2.locals, crate::expr::expr_ids(e)),
            Resolved::Fail(_) => true,
        },
    decreases fuel, 0int,
{
    if fuel == 0 {
        return;
    }
    match e {
        SpecExpr::Literal(_) => {},
        SpecExpr::Unary { operator: _, right } => {
            lemma_r_expr_keys(*right, st, (fuel - 1) as u64);
        },
        SpecExpr::Binary { left, operator: _, right } => {
            lemma_r_expr_keys(*left, st, (fuel - 1) as u64);
            match r_expr(*left, st, (fuel - 1) as u64) {
                Resolved::Done(st2) => {
                    lemma_r_expr_keys(*right, st2, (fuel - 1) as u64);
                    match r_expr(*right, st2, (fuel - 1) as u64) {
                        Resolved::Done(st3) => {
                            lemma_keys_trans(
                                st.locals,
                                st2.locals,
                                st3.locals,
                                crate::expr::expr_ids(*left),
                                crate::expr::expr_ids(*right),
                            );
                        },
                        Resolved::Fail(_) => {},
                    }
                },
                Resolved::Fail(_) => {},
            }
        },
        SpecExpr::Logical { left, operator: _, right } => {
            lemma_r_expr_keys(*left, st, (fuel - 1) as u64);
            match r_expr(*left, st, (fuel - 1) as u64) {
                Resolved::Done(st2) => {
                    lemma_r_expr_keys(*right, st2, (fuel - 1) as u64);
                    match r_expr(*right, st2, (fuel - 1) as u64) {
                        Resolved::Done(st3) => {
                            lemma_keys_trans(
                                st.locals,
                                st2.locals,
                                st3.locals,
                                crate::expr::expr_ids(*left),
                                crate::expr::expr_ids(*right),
                            );
                        },
                        Resolved::Fail(_) => {},
                    }
                },
                Resolved::Fail(_) => {},
            }
        },
        SpecExpr::Grouping(inner) => {
            lemma_r_expr_keys(*inner, st, (fuel - 1) as u64);
        },
        SpecExpr::Variable { id, name: _ } => {},
        SpecExpr::Assign { id, name: _, value } => {
            lemma_r_expr_keys(*value, st, (fuel - 1) as u64);
        },
        SpecExpr::Call { callee, paren: _, arguments } => {
            lemma_r_expr_keys(*callee, st, (fuel - 1) as u64);
            match r_expr(*callee, st, (fuel - 1) as u64) {
                Resolved::Done(st2) => {
                    lemma_r_exprs_keys(arguments, st2, (fuel - 1) as u64);
                    match r_exprs(arguments, st2, (fuel - 1) as u64) {
                        Resolved::Done(st3) => {
                            lemma_keys_trans(
                                st.locals,
                                st2.locals,
                                st3.locals,
                                crate::expr::expr_ids(*callee),
                                crate::expr::exprs_ids(arguments),
                            );
                        },
                        Resolved::Fail(_) => {},
                    }
                },
                Resolved::Fail(_) => {},
            }
        },
    }
}

proof fn lemma_r_exprs_keys(es: Seq<SpecExpr>, st: RState, fuel: u64)
    ensures
        match r_exprs(es, st, fuel) {
            Resolved::Done(st2) => keys_from(st.locals, st2.locals, crate::expr::exprs_ids(es)),
            Resolved::Fail(_) => true,
        },
    decreases fuel, 1int,
{
    if fuel == 0 || es.len() == 0 {
        return;
    }
    lemma_r_expr_keys(es[0], st, (fuel - 1) as u64);
    match r_expr(es[0], st, (fuel - 1) as u64) {
        Resolved::Done(st2) => {
            lemma_r_exprs_keys(es.drop_first(), st2, (fuel - 1) as u64);
            match r_exprs(es.drop_first(), st2, (fuel - 1) as u64) {
                Resolved::Done(st3) => {
                    lemma_keys_trans(
                        st.locals,
                        st2.locals,
                        st3.locals,
                        crate::expr::expr_ids(es[0]),
                        crate::expr::exprs_ids(es.drop_first()),
                    );
                },
                Resolved::Fail(_) => {},
            }
        },
        Resolved::Fail(_) => {},
    }
}

proof fn lemma_r_stmt_keys(s: SpecStmt, st: RState, fuel: u64)
    ensures
        match r_stmt(s, st, fuel) {
            Resolved::Done(st2) => keys_from(st.locals, st2.locals, crate::stmt::stmt_ids(s)),
            Resolved::Fail(_) => true,
        },
    decreases fuel, 0int,
{
    if fuel == 0 {
        return;
    }
    match s {
        SpecStmt::Expression(e) => {
            lemma_r_expr_keys(e, st, (fuel - 1) as u64);
        },
        SpecStmt::Print(e) => {
            lemma_r_expr_keys(e, st, (fuel - 1) as u64);
        },
        SpecStmt::Var { name, initializer } => {
            let st1 = r_declare(st, name.lexeme);
            match initializer {
                Some(e) => {
                    lemma_r_expr_keys(e, st1, (fuel - 1) as u64);
                },
                None => {},
            }
        },
        SpecStmt::Block(ss) => {
            let st1 = RState { scopes: st.scopes.push(Map::empty()), locals: st.locals };
            lemma_r_stmts_keys(ss, st1, (fuel - 1) as u64);
        },
        SpecStmt::If { condition, then_branch, else_branch } => {
            lemma_r_expr_keys(condition, st, (fuel - 1) as u64);
            match r_expr(condition, st, (fuel - 1) as u64) {
                Resolved::Done(st2) => {
                    lemma_r_stmt_keys(*then_branch, st2, (fuel - 1) as u64);
                    match r_stmt(*then_branch, st2, (fuel - 1) as u64) {
                        Resolved::Done(st3) => {
                            lemma_keys_trans(
                                st.locals,
                                st2.locals,
                                st3.locals,
                                crate::expr::expr_ids(condition),
                                crate::stmt::stmt_ids(*then_branch),
                            );
                            match else_branch {
                                Some(els) => {
                                    lemma_r_stmt_keys(*els, st3, (fuel - 1) as u64);
                                    match r_stmt(*els, st3, (fuel - 1) as u64) {
                                        Resolved::Done(st4) => {
                                            lemma_keys_trans(
                                                st.locals,
                                                st3.locals,
                                                st4.locals,
                                                crate::expr::expr_ids(condition).union(
                                                    crate::stmt::stmt_ids(*then_branch),
                                                ),
                                                crate::stmt::stmt_ids(*els),
                                            );
                                        },
                                        Resolved::Fail(_) => {},
                                    }
                                },
                                None => {},
                            }
                        },
                        Resolved::Fail(_) => {},
                    }
                },
                Resolved::Fail(_) => {},
            }
        },
        SpecStmt::While { condition, body } => {
            lemma_r_expr_keys(condition, st, (fuel - 1) as u64);
            match r_expr(condition, st, (fuel - 1) as u64) {
                Resolved::Done(st2) => {
                    lemma_r_stmt_keys(*body, st2, (fuel - 1) as u64);
                    match r_stmt(*body, st2, (fuel - 1) as u64) {
                        Resolved::Done(st3) => {
                            lemma_keys_trans(
                                st.locals,
                                st2.locals,
                                st3.locals,
                                crate::expr::expr_ids(condition),
                                crate::stmt::stmt_ids(*body),
                            );
                        },
                        Resolved::Fail(_) => {},
                    }
                },
                Resolved::Fail(_) => {},
            }
        },
        SpecStmt::Function(f) => {
            let st1 = r_define(r_declare(st, f.name.lexeme), f.name.lexeme);
            let st2 = RState { scopes: st1.scopes.push(Map::empty()), locals: st1.locals };
            let st3 = r_params(st2, f.params);
            lemma_r_params_locals(st2, f.params);
            lemma_r_stmts_keys(f.body, st3, (fuel - 1) as u64);
        },
        SpecStmt::Return { keyword: _, value } => {
            lemma_r_expr_keys(value, st, (fuel - 1) as u64);
        },
    }
}

proof fn lemma_r_stmts_keys(ss: Seq<SpecStmt>, st: RState, fuel: u64)
    ensures
        match r_stmts(ss, st, fuel) {
            Resolved::Done(st2) => keys_from(st.locals, st2.locals, crate::stmt::stmts_ids(ss)),
            Resolved::Fail(_) => true,
        },
    decreases fuel, 1int,
{
    if fuel == 0 || ss.len() == 0 {
        return;
    }
    lemma_r_stmt_keys(ss[0], st, (fuel - 1) as u64);
    match r_stmt(ss[0], st, (fuel - 1) as u64) {
        Resolved::Done(st2) => {
            lemma_r_stmts_keys(ss.drop_first(), st2, (fuel - 1) as u64);
            match r_stmts(ss.drop_first(), st2, (fuel - 1) as u64) {
                Resolved::Done(st3) => {
                    lemma_keys_trans(
                        st.locals,
                        st2.locals,
                        st3.locals,
                        crate::stmt::stmt_ids(ss[0]),
                        crate::stmt::stmts_ids(ss.drop_first()),
                    );
                },
                Resolved::Fail(_) => {},
            }
        },
        Resolved::Fail(_) => {},
    }
}

/// When resolution succeeds, every key of the distance table was
/// there before or is the identifier of a `Variable` or `Assign` node
/// of the program; together with `lemma_distance_in_range`, every
/// annotation maps a node of the program to a scope count.
pub proof fn lemma_resolver_writes_only_node_ids(ss: Seq<SpecStmt>, locals: Map<u64, usize>)
    ensures
        match spec_resolve(ss, locals) {
            Resolved::Done(st2) => forall|k: u64|
                #[trigger] st2.locals.dom().contains(k) ==> locals.dom().contains(k)
                    || crate::stmt::stmts_ids(ss).contains(k),
            Resolved::Fail(_) => true,
        },
{
    lemma_r_stmts_keys(
        ss,
        RState { scopes: seq![Map::<Seq<char>, bool>::empty()], locals },
        RESOLVE_FUEL,
    );
}

} // verus!
