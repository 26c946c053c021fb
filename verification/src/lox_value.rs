//! Runtime values and the semantics of the operators on them.
//!
//! Numbers are 64-bit signed integers here; arithmetic that would
//! leave that range is a runtime error rather than a silent wrap.
use vstd::prelude::*;
use crate::lox_error::{LoxError, SpecLoxError};
use crate::lox_function::{LoxFunction, SpecLoxFunction};
use crate::token::TokenType;

verus! {

use vstd::string::StringExecFns;

/// A runtime value.
#[derive(Debug, PartialEq)]
pub enum LoxValue {
    Nil,
    String(String),
    Number(i64),
    Boolean(bool),
    Function(LoxFunction),
}

/// The mathematical value of a runtime value.
pub enum SpecValue {
    Nil,
    Str(Seq<char>),
    Num(int),
    Bool(bool),
    Fun(SpecLoxFunction),
}

impl View for LoxValue {
    type V = SpecValue;

    open spec fn view(&self) -> SpecValue {
        match self {
            LoxValue::Nil => SpecValue::Nil,
            LoxValue::String(s) => SpecValue::Str(s@),
            LoxValue::Number(n) => SpecValue::Num(*n as int),
            LoxValue::Boolean(b) => SpecValue::Bool(*b),
            LoxValue::Function(f) => SpecValue::Fun(f@),
        }
    }
}

impl Clone for LoxValue {
    fn clone(&self) -> (r: Self)
        ensures
            r@ == self@,
    {
        match self {
            LoxValue::Nil => LoxValue::Nil,
            LoxValue::String(s) => LoxValue::String(s.clone()),
            LoxValue::Number(n) => LoxValue::Number(*n),
            LoxValue::Boolean(b) => LoxValue::Boolean(*b),
            LoxValue::Function(f) => LoxValue::Function(f.clone()),
        }
    }
}

/// A value is truthy unless it is nil or false.
pub open spec fn spec_truthy(v: SpecValue) -> bool {
    match v {
        SpecValue::Nil => false,
        SpecValue::Bool(b) => b,
        _ => true,
    }
}

/// Structural equality across all values; function values are unequal
/// to everything, themselves included.
pub open spec fn spec_equal(a: SpecValue, b: SpecValue) -> bool {
    match (a, b) {
        (SpecValue::Nil, SpecValue::Nil) => true,
        (SpecValue::Str(x), SpecValue::Str(y)) => x == y,
        (SpecValue::Num(x), SpecValue::Num(y)) => x == y,
        (SpecValue::Bool(x), SpecValue::Bool(y)) => x == y,
        _ => false,
    }
}

pub open spec fn in_i64(n: int) -> bool {
    i64::MIN <= n <= i64::MAX
}

pub open spec fn spec_abs(a: int) -> int {
    if a >= 0 {
        a
    } else {
        -a
    }
}

/// Division truncating toward zero, as the host's integer division does.
pub open spec fn trunc_div(a: int, b: int) -> int {
    if (a < 0) != (b < 0) {
        -(spec_abs(a) / spec_abs(b))
    } else {
        spec_abs(a) / spec_abs(b)
    }
}

/// What unary `-` and `!` return, or the message of the runtime error.
pub open spec fn spec_unary(op: TokenType, v: SpecValue) -> Result<SpecValue, Seq<char>> {
    match op {
        TokenType::Minus => match v {
            SpecValue::Num(n) => if in_i64(-n) {
                Ok(SpecValue::Num(-n))
            } else {
                Err("Arithmetic overflow."@)
            },
            _ => Err("Operand must be a number."@),
        },
        TokenType::Bang => Ok(SpecValue::Bool(!spec_truthy(v))),
        _ => Ok(SpecValue::Num(0)),
    }
}

/// What a binary operator returns, or the message of the runtime error.
///
/// `+` is overloaded for numbers and strings; `- * /` and the four
/// comparisons demand numbers; `==` and `!=` are defined on all values.
pub open spec fn spec_binary(op: TokenType, a: SpecValue, b: SpecValue) -> Result<
    SpecValue,
    Seq<char>,
> {
    match op {
        TokenType::Plus => match (a, b) {
            (SpecValue::Num(x), SpecValue::Num(y)) => if in_i64(x + y) {
                Ok(SpecValue::Num(x + y))
            } else {
                Err("Arithmetic overflow."@)
            },
            (SpecValue::Str(x), SpecValue::Str(y)) => Ok(SpecValue::Str(x + y)),
            _ => Err("Operands must be two numbers or two strings."@),
        },
        TokenType::Minus => match (a, b) {
            (SpecValue::Num(x), SpecValue::Num(y)) => if in_i64(x - y) {
                Ok(SpecValue::Num(x - y))
            } else {
                Err("Arithmetic overflow."@)
            },
            _ => Err("Operands must be numbers."@),
        },
        TokenType::Star => match (a, b) {
            (SpecValue::Num(x), SpecValue::Num(y)) => if in_i64(x * y) {
                Ok(SpecValue::Num(x * y))
            } else {
                Err("Arithmetic overflow."@)
            },
            _ => Err("Operands must be numbers."@),
        },
        TokenType::Slash => match (a, b) {
            (SpecValue::Num(x), SpecValue::Num(y)) => if y == 0 {
                Err("Division by zero."@)
            } else if in_i64(trunc_div(x, y)) {
                Ok(SpecValue::Num(trunc_div(x, y)))
            } else {
                Err("Arithmetic overflow."@)
            },
            _ => Err("Operands must be numbers."@),
        },
        TokenType::Greater => match (a, b) {
            (SpecValue::Num(x), SpecValue::Num(y)) => Ok(SpecValue::Bool(x > y)),
            _ => Err("Operands must be numbers."@),
        },
        TokenType::GreaterEqual => match (a, b) {
            (SpecValue::Num(x), SpecValue::Num(y)) => Ok(SpecValue::Bool(x >= y)),
            _ => Err("Operands must be numbers."@),
        },
        TokenType::Less => match (a, b) {
            (SpecValue::Num(x), SpecValue::Num(y)) => Ok(SpecValue::Bool(x < y)),
            _ => Err("Operands must be numbers."@),
        },
        TokenType::LessEqual => match (a, b) {
            (SpecValue::Num(x), SpecValue::Num(y)) => Ok(SpecValue::Bool(x <= y)),
            _ => Err("Operands must be numbers."@),
        },
        TokenType::EqualEqual => Ok(SpecValue::Bool(spec_equal(a, b))),
        TokenType::BangEqual => Ok(SpecValue::Bool(!spec_equal(a, b))),
        _ => Ok(SpecValue::Num(0)),
    }
}

/// A unary operator never produces a function value, so its result
/// is well-formed in any arena.
pub proof fn lemma_unary_wf(op: TokenType, v: SpecValue)
    ensures
        match spec_unary(op, v) {
            Ok(out) => !(out is Fun),
            Err(_) => true,
        },
{
}

/// A binary operator never produces a function value.
pub proof fn lemma_binary_wf(op: TokenType, a: SpecValue, b: SpecValue)
    ensures
        match spec_binary(op, a, b) {
            Ok(out) => !(out is Fun),
            Err(_) => true,
        },
{
}

/// Every value of a kind equals itself, except function values, which
/// equal nothing; and equality is symmetric.
pub proof fn lemma_equality_reflexive_except_functions(a: SpecValue, b: SpecValue)
    ensures
        !(a is Fun) ==> spec_equal(a, a),
        a is Fun ==> !spec_equal(a, a),
        spec_equal(a, b) == spec_equal(b, a),
{
}

impl LoxValue {
    /// Whether this value counts as true in a condition.
    pub fn is_truthy(&self) -> (r: bool)
        ensures
            r == spec_truthy(self@),
    {
        match self {
            LoxValue::Nil => false,
            LoxValue::Boolean(b) => *b,
            _ => true,
        }
    }

    /// Language-level equality of two values.
    pub fn lox_equals(&self, other: &LoxValue) -> (r: bool)
        ensures
            r == spec_equal(self@, other@),
    {
        match (self, other) {
            (LoxValue::Nil, LoxValue::Nil) => true,
            (LoxValue::String(x), LoxValue::String(y)) => x.eq(y),
            (LoxValue::Number(x), LoxValue::Number(y)) => *x == *y,
            (LoxValue::Boolean(x), LoxValue::Boolean(y)) => *x == *y,
            _ => false,
        }
    }
}

/// The magnitude of a signed number, as an unsigned one.
pub fn magnitude(a: i64) -> (m: u64)
    ensures
        m == spec_abs(a as int),
{
    if a >= 0 {
        a as u64
    } else {
        ((-(a + 1)) as u64) + 1
    }
}

/// Rebuilds a signed number from a sign and a magnitude, or reports
/// overflow.
fn from_magnitude(negative: bool, m: u64) -> (r: Option<i64>)
    ensures
        ({
            let signed: int = if negative {
                -(m as int)
            } else {
                m as int
            };
            match r {
                Some(n) => in_i64(signed) && n as int == signed,
                None => !in_i64(signed),
            }
        }),
{
    if negative {
        if m <= 0x7FFF_FFFF_FFFF_FFFF {
            Some(-(m as i64))
        } else if m == 0x8000_0000_0000_0000 {
            Some(i64::MIN)
        } else {
            None
        }
    } else {
        if m <= 0x7FFF_FFFF_FFFF_FFFF {
            Some(m as i64)
        } else {
            None
        }
    }
}

fn runtime_error(message: &str) -> (r: LoxError)
    ensures
        r@ == SpecLoxError::Runtime(message@),
{
    LoxError::RuntimeError(String::from_str(message))
}

/// Applies a unary operator.
pub fn apply_unary(op: TokenType, v: &LoxValue) -> (r: Result<LoxValue, LoxError>)
    ensures
        match r {
            Ok(out) => spec_unary(op, v@) == Ok::<SpecValue, Seq<char>>(out@),
            Err(e) => spec_unary(op, v@) == Err::<SpecValue, Seq<char>>(
                match e@ {
                    SpecLoxError::Runtime(m) => m,
                    _ => Seq::empty(),
                },
            ) && e@ is Runtime,
        },
{
    match op {
        TokenType::Minus => match v {
            LoxValue::Number(n) => {
                let m = magnitude(*n);
                match from_magnitude(*n >= 0, m) {
                    Some(out) => Ok(LoxValue::Number(out)),
                    None => Err(runtime_error("Arithmetic overflow.")),
                }
            },
            _ => Err(runtime_error("Operand must be a number.")),
        },
        TokenType::Bang => Ok(LoxValue::Boolean(!v.is_truthy())),
        _ => Ok(LoxValue::Number(0)),
    }
}

/// Applies a binary operator to already-evaluated operands.
pub fn apply_binary(op: TokenType, a: &LoxValue, b: &LoxValue) -> (r: Result<LoxValue, LoxError>)
    ensures
        match r {
            Ok(out) => spec_binary(op, a@, b@) == Ok::<SpecValue, Seq<char>>(out@),
            Err(e) => spec_binary(op, a@, b@) == Err::<SpecValue, Seq<char>>(
                match e@ {
                    SpecLoxError::Runtime(m) => m,
                    _ => Seq::empty(),
                },
            ) && e@ is Runtime,
        },
{
    match op {
        TokenType::Plus => match (a, b) {
            (LoxValue::Number(x), LoxValue::Number(y)) => {
                let wide: i128 = (*x as i128) + (*y as i128);
                if i64::MIN as i128 <= wide && wide <= i64::MAX as i128 {
                    Ok(LoxValue::Number(wide as i64))
                } else {
                    Err(runtime_error("Arithmetic overflow."))
                }
            },
            (LoxValue::String(x), LoxValue::String(y)) => {
                let mut joined = x.clone();
                joined.append(y.as_str());
                Ok(LoxValue::String(joined))
            },
            _ => Err(runtime_error("Operands must be two numbers or two strings.")),
        },
        TokenType::Minus => match (a, b) {
            (LoxValue::Number(x), LoxValue::Number(y)) => {
                let wide: i128 = (*x as i128) - (*y as i128);
                if i64::MIN as i128 <= wide && wide <= i64::MAX as i128 {
                    Ok(LoxValue::Number(wide as i64))
                } else {
                    Err(runtime_error("Arithmetic overflow."))
                }
            },
            _ => Err(runtime_error("Operands must be numbers.")),
        },
        TokenType::Star => match (a, b) {
            (LoxValue::Number(x), LoxValue::Number(y)) => {
                proof {
                    let xi = *x as int;
                    let yi = *y as int;
                    assert(xi * yi < 0x4000_0000_0000_0000_0000_0000_0000_0000int + 1
                        && xi * yi > -0x4000_0000_0000_0000_0000_0000_0000_0000int - 1)
                        by (nonlinear_arith)
                        requires
                            -0x8000_0000_0000_0000int <= xi <= 0x7FFF_FFFF_FFFF_FFFFint,
                            -0x8000_0000_0000_0000int <= yi <= 0x7FFF_FFFF_FFFF_FFFFint,
                    ;
                }
                let wide: i128 = (*x as i128) * (*y as i128);
                if i64::MIN as i128 <= wide && wide <= i64::MAX as i128 {
                    Ok(LoxValue::Number(wide as i64))
                } else {
                    Err(runtime_error("Arithmetic overflow."))
                }
            },
            _ => Err(runtime_error("Operands must be numbers.")),
        },
        TokenType::Slash => match (a, b) {
            (LoxValue::Number(x), LoxValue::Number(y)) => {
                if *y == 0 {
                    Err(runtime_error("Division by zero."))
                } else {
                    let q = magnitude(*x) / magnitude(*y);
                    match from_magnitude((*x < 0) != (*y < 0), q) {
                        Some(out) => Ok(LoxValue::Number(out)),
                        None => Err(runtime_error("Arithmetic overflow.")),
                    }
                }
            },
            _ => Err(runtime_error("Operands must be numbers.")),
        },
        TokenType::Greater => match (a, b) {
            (LoxValue::Number(x), LoxValue::Number(y)) => Ok(LoxValue::Boolean(*x > *y)),
            _ => Err(runtime_error("Operands must be numbers.")),
        },
        TokenType::GreaterEqual => match (a, b) {
            (LoxValue::Number(x), LoxValue::Number(y)) => Ok(LoxValue::Boolean(*x >= *y)),
            _ => Err(runtime_error("Operands must be numbers.")),
        },
        TokenType::Less => match (a, b) {
            (LoxValue::Number(x), LoxValue::Number(y)) => Ok(LoxValue::Boolean(*x < *y)),
            _ => Err(runtime_error("Operands must be numbers.")),
        },
        TokenType::LessEqual => match (a, b) {
            (LoxValue::Number(x), LoxValue::Number(y)) => Ok(LoxValue::Boolean(*x <= *y)),
            _ => Err(runtime_error("Operands must be numbers.")),
        },
        TokenType::EqualEqual => Ok(LoxValue::Boolean(a.lox_equals(b))),
        TokenType::BangEqual => Ok(LoxValue::Boolean(!a.lox_equals(b))),
        _ => Ok(LoxValue::Number(0)),
    }
}

} // verus!
