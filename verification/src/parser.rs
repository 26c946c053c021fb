//! Recursive-descent parsing: tokens to statement trees.
//!
//! Each grammar production has a specification twin, a recursive
//! function over the token sequence; the executable methods are proved
//! to return exactly what the twin describes.  All recursion is
//! measured by a fuel that no realistic input can exhaust, since every
//! cycle of productions consumes at least one token.
use vstd::prelude::*;
use crate::expr::{exprs_view, Expr, Literal, SpecExpr, SpecLiteral};
use crate::scanner::{spec_is_digit, chars_of};
use crate::stmt::{stmts_view, Block, Function, SpecStmt, Stmt};
use crate::token::{tokens_view, SpecToken, Token, TokenType};
use std::rc::Rc;

verus! {

use vstd::string::StringExecFns;

/// Fuel that bounds the parser's recursion depth.  A program would
/// need that many nested productions to run out, which no token
/// sequence a machine can hold produces.
pub const PARSE_FUEL: u64 = 0xFFFF_FFFF_FFFF_FFFF;

/// A missing or unexpected token, with a descriptive message.
#[derive(Debug, PartialEq)]
pub struct ParserError {
    pub description: String,
}

impl View for ParserError {
    type V = Seq<char>;

    open spec fn view(&self) -> Seq<char> {
        self.description@
    }
}

impl ParserError {
    pub fn new(description: String) -> (r: ParserError)
        ensures
            r@ == description@,
    {
        ParserError { description }
    }
}

/// What a specification production returns: the parsed value with the
/// position and identifier counter after it, or a message.
pub enum Parsed<T> {
    Done(T, int, u64),
    Fail(Seq<char>),
}

pub open spec fn spent_message() -> Seq<char> {
    "Program too deeply nested."@
}

/// Whether the token at `i` exists and has the given kind.
pub open spec fn sp_check(toks: Seq<SpecToken>, i: int, tt: TokenType) -> bool {
    0 <= i < toks.len() && toks[i].token_type == tt
}

/// Whether the parse position stands at the end of the stream.
pub open spec fn sp_is_end(toks: Seq<SpecToken>, i: int) -> bool {
    !(0 <= i < toks.len()) || toks[i].token_type == TokenType::Eof
}

/// The position after a tolerated `consume`: one further on a match,
/// unchanged otherwise.
pub open spec fn sp_skip(toks: Seq<SpecToken>, i: int, tt: TokenType) -> int {
    if sp_check(toks, i, tt) {
        i + 1
    } else {
        i
    }
}

/// The next identifier counter: saturates instead of wrapping.
pub open spec fn sp_next_id(nid: u64) -> u64 {
    if nid < 0xFFFF_FFFF_FFFF_FFFF {
        (nid + 1) as u64
    } else {
        nid
    }
}

/// The numeric value of a digit string.
pub open spec fn digits_val(s: Seq<char>) -> int
    decreases s.len(),
{
    if s.len() == 0 {
        0
    } else {
        digits_val(s.drop_last()) * 10 + (s.last() as u32 - 48)
    }
}

pub open spec fn all_digits(s: Seq<char>) -> bool {
    forall|k: int| 0 <= k < s.len() ==> spec_is_digit(#[trigger] s[k])
}

/// A number lexeme the parser accepts: digits whose value fits the
/// number type.
pub open spec fn sp_valid_number(s: Seq<char>) -> bool {
    s.len() > 0 && all_digits(s) && digits_val(s) <= i64::MAX
}

proof fn lemma_digits_val_nonneg(s: Seq<char>)
    requires
        all_digits(s),
    ensures
        digits_val(s) >= 0,
    decreases s.len(),
{
    if s.len() > 0 {
        assert(all_digits(s.drop_last()));
        lemma_digits_val_nonneg(s.drop_last());
        assert(spec_is_digit(s.last()));
    }
}

/// Extending a digit string never shrinks its value.
proof fn lemma_digits_val_prefix(s: Seq<char>, k: int)
    requires
        all_digits(s),
        0 <= k <= s.len(),
    ensures
        digits_val(s.take(k)) <= digits_val(s),
    decreases s.len() - k,
{
    if k < s.len() {
        lemma_digits_val_prefix(s, k + 1);
        let t = s.take(k + 1);
        assert(t.drop_last() =~= s.take(k));
        assert(all_digits(s.take(k)));
        lemma_digits_val_nonneg(s.take(k));
        assert(spec_is_digit(s[k]));
        assert(t.last() == s[k]);
        assert(digits_val(t) == digits_val(s.take(k)) * 10 + (s[k] as u32 - 48));
    } else {
        assert(s.take(k) =~= s);
    }
}

/// Reads a digit lexeme as a number, or reports that it is not a
/// digit string or does not fit.
fn parse_number(lexeme: &String) -> (r: Option<i64>)
    ensures
        match r {
            Some(n) => sp_valid_number(lexeme@) && n as int == digits_val(lexeme@),
            None => !sp_valid_number(lexeme@),
        },
{
    let chars = chars_of(lexeme.as_str());
    if chars.len() == 0 {
        return None;
    }
    let mut acc: i64 = 0;
    let mut k: usize = 0;
    while k < chars.len()
        invariant
            0 <= k <= chars@.len(),
            chars@ == lexeme@,
            chars@.len() > 0,
            all_digits(chars@.take(k as int)),
            acc as int == digits_val(chars@.take(k as int)),
            acc >= 0,
        decreases chars@.len() - k,
    {
        let c = chars[k];
        let u = c as u32;
        if !(48 <= u && u <= 57) {
            return None;
        }
        let d = (u - 48) as i64;
        if acc > (i64::MAX - d) / 10 {
            // The value no longer fits; show that the full string
            // cannot fit either.
            proof {
                let t = chars@.take(k + 1);
                assert(t.drop_last() =~= chars@.take(k as int));
                assert(t.last() == chars@[k as int]);
                assert(all_digits(t));
                assert(digits_val(t) == acc * 10 + d);
                if all_digits(chars@) {
                    lemma_digits_val_prefix(chars@, k + 1);
                    assert(digits_val(chars@) >= digits_val(t));
                    assert(acc * 10 + d > i64::MAX) by (nonlinear_arith)
                        requires
                            acc > (i64::MAX - d) / 10,
                            0 <= d <= 9,
                            acc >= 0,
                    ;
                }
            }
            return None;
        }
        proof {
            assert(acc * 10 + d <= i64::MAX) by (nonlinear_arith)
                requires
                    acc <= (i64::MAX - d) / 10,
                    0 <= d <= 9,
                    acc >= 0,
            ;
            let t = chars@.take(k + 1);
            assert(t.drop_last() =~= chars@.take(k as int));
            assert(t.last() == chars@[k as int]);
            assert(all_digits(t));
        }
        acc = acc * 10 + d;
        k = k + 1;
    }
    proof {
        assert(chars@.take(k as int) =~= chars@);
    }
    Some(acc)
}

// ---------------------------------------------------------------
// Specification grammar, lowest precedence first.
// ---------------------------------------------------------------

/// `primary := false | true | nil | NUMBER | STRING | ( expression ) |
/// IDENTIFIER`; anything else is read as the number literal `0` rather than
/// stopping the parse.
pub open spec fn sp_primary(toks: Seq<SpecToken>, i: int, nid: u64, fuel: u64) -> Parsed<SpecExpr>
    decreases fuel, 0int,
{
    if fuel == 0 {
        Parsed::Fail(spent_message())
    } else if sp_check(toks, i, TokenType::False) {
        Parsed::Done(SpecExpr::Literal(SpecLiteral::Bool(false)), i + 1, nid)
    } else if sp_check(toks, i, TokenType::True) {
        Parsed::Done(SpecExpr::Literal(SpecLiteral::Bool(true)), i + 1, nid)
    } else if sp_check(toks, i, TokenType::Nil) {
        Parsed::Done(SpecExpr::Literal(SpecLiteral::Nil), i + 1, nid)
    } else if sp_check(toks, i, TokenType::Number) {
        if sp_valid_number(toks[i].lexeme) {
            Parsed::Done(
                SpecExpr::Literal(SpecLiteral::Number(digits_val(toks[i].lexeme))),
                i + 1,
                nid,
            )
        } else {
            Parsed::Fail("Invalid number literal."@)
        }
    } else if sp_check(toks, i, TokenType::String) {
        Parsed::Done(SpecExpr::Literal(SpecLiteral::Str(toks[i].lexeme)), i + 1, nid)
    } else if sp_check(toks, i, TokenType::LeftParen) {
        match sp_expression(toks, i + 1, nid, (fuel - 1) as u64) {
            Parsed::Done(inner, j, nid2) => Parsed::Done(
                SpecExpr::Grouping(Box::new(inner)),
                sp_skip(toks, j, TokenType::RightParen),
                nid2,
            ),
            Parsed::Fail(m) => Parsed::Fail(m),
        }
    } else if sp_check(toks, i, TokenType::Identifier) {
        Parsed::Done(SpecExpr::Variable { id: nid, name: toks[i] }, i + 1, sp_next_id(nid))
    } else {
        Parsed::Done(SpecExpr::Literal(SpecLiteral::Number(0)), i, nid)
    }
}

/// The comma-separated arguments after a call's `(`, capped at 10.
pub open spec fn sp_arguments(
    toks: Seq<SpecToken>,
    i: int,
    nid: u64,
    sofar: Seq<SpecExpr>,
    fuel: u64,
) -> Parsed<Seq<SpecExpr>>
    decreases fuel, 0int,
{
    if fuel == 0 {
        Parsed::Fail(spent_message())
    } else {
        match sp_expression(toks, i, nid, (fuel - 1) as u64) {
            Parsed::Done(arg, j, nid2) => {
                let args = sofar.push(arg);
                if sp_check(toks, j, TokenType::Comma) {
                    if args.len() >= 10 {
                        Parsed::Fail("Cannot have more than 10 arguments."@)
                    } else {
                        sp_arguments(toks, j + 1, nid2, args, (fuel - 1) as u64)
                    }
                } else {
                    Parsed::Done(args, j, nid2)
                }
            },
            Parsed::Fail(m) => Parsed::Fail(m),
        }
    }
}

/// The rest of a call expression: argument lists, one per `(`.
pub open spec fn sp_finish_call(
    toks: Seq<SpecToken>,
    i: int,
    nid: u64,
    callee: SpecExpr,
    fuel: u64,
) -> Parsed<SpecExpr>
    decreases fuel, 0int,
{
    if fuel == 0 {
        Parsed::Fail(spent_message())
    } else {
        let after: Parsed<Seq<SpecExpr>> = if sp_check(toks, i, TokenType::RightParen) {
            Parsed::Done(Seq::empty(), i, nid)
        } else {
            sp_arguments(toks, i, nid, Seq::empty(), (fuel - 1) as u64)
        };
        match after {
            Parsed::Done(args, j, nid2) => {
                if sp_check(toks, j, TokenType::RightParen) {
                    Parsed::Done(
                        SpecExpr::Call {
                            callee: Box::new(callee),
                            paren: toks[j],
                            arguments: args,
                        },
                        j + 1,
                        nid2,
                    )
                } else {
                    Parsed::Fail("Expect ')' after arguments"@)
                }
            },
            Parsed::Fail(m) => Parsed::Fail(m),
        }
    }
}

pub open spec fn sp_call_rest(
    toks: Seq<SpecToken>,
    i: int,
    nid: u64,
    callee: SpecExpr,
    fuel: u64,
) -> Parsed<SpecExpr>
    decreases fuel, 0int,
{
    if fuel == 0 {
        Parsed::Fail(spent_message())
    } else if sp_check(toks, i, TokenType::LeftParen) {
        match sp_finish_call(toks, i + 1, nid, callee, (fuel - 1) as u64) {
            Parsed::Done(c, j, nid2) => sp_call_rest(toks, j, nid2, c, (fuel - 1) as u64),
            Parsed::Fail(m) => Parsed::Fail(m),
        }
    } else {
        Parsed::Done(callee, i, nid)
    }
}

pub open spec fn sp_call(toks: Seq<SpecToken>, i: int, nid: u64, fuel: u64) -> Parsed<SpecExpr>
    decreases fuel, 1int,
{
    if fuel == 0 {
        Parsed::Fail(spent_message())
    } else {
        match sp_primary(toks, i, nid, fuel) {
            Parsed::Done(e, j, nid2) => sp_call_rest(toks, j, nid2, e, (fuel - 1) as u64),
            Parsed::Fail(m) => Parsed::Fail(m),
        }
    }
}

pub open spec fn sp_unary(toks: Seq<SpecToken>, i: int, nid: u64, fuel: u64) -> Parsed<SpecExpr>
    decreases fuel, 2int,
{
    if fuel == 0 {
        Parsed::Fail(spent_message())
    } else if sp_check(toks, i, TokenType::Bang) || sp_check(toks, i, TokenType::Minus) {
        match sp_unary(toks, i + 1, nid, (fuel - 1) as u64) {
            Parsed::Done(right, j, nid2) => Parsed::Done(
                SpecExpr::Unary { operator: toks[i], right: Box::new(right) },
                j,
                nid2,
            ),
            Parsed::Fail(m) => Parsed::Fail(m),
        }
    } else {
        sp_call(toks, i, nid, fuel)
    }
}

pub open spec fn sp_multiplication_rest(
    toks: Seq<SpecToken>,
    i: int,
    nid: u64,
    left: SpecExpr,
    fuel: u64,
) -> Parsed<SpecExpr>
    decreases fuel, 0int,
{
    if fuel == 0 {
        Parsed::Fail(spent_message())
    } else if sp_check(toks, i, TokenType::Slash) || sp_check(toks, i, TokenType::Star) {
        match sp_unary(toks, i + 1, nid, (fuel - 1) as u64) {
            Parsed::Done(right, j, nid2) => sp_multiplication_rest(
                toks,
                j,
                nid2,
                SpecExpr::Binary {
                    left: Box::new(left),
                    operator: toks[i],
                    right: Box::new(right),
                },
                (fuel - 1) as u64,
            ),
            Parsed::Fail(m) => Parsed::Fail(m),
        }
    } else {
        Parsed::Done(left, i, nid)
    }
}

pub open spec fn sp_multiplication(toks: Seq<SpecToken>, i: int, nid: u64, fuel: u64) -> Parsed<
    SpecExpr,
>
    decreases fuel, 3int,
{
    if fuel == 0 {
        Parsed::Fail(spent_message())
    } else {
        match sp_unary(toks, i, nid, fuel) {
            Parsed::Done(e, j, nid2) => sp_multiplication_rest(toks, j, nid2, e, (fuel - 1) as u64),
            Parsed::Fail(m) => Parsed::Fail(m),
        }
    }
}

pub open spec fn sp_addition_rest(
    toks: Seq<SpecToken>,
    i: int,
    nid: u64,
    left: SpecExpr,
    fuel: u64,
) -> Parsed<SpecExpr>
    decreases fuel, 0int,
{
    if fuel == 0 {
        Parsed::Fail(spent_message())
    } else if sp_check(toks, i, TokenType::Minus) || sp_check(toks, i, TokenType::Plus) {
        match sp_multiplication(toks, i + 1, nid, (fuel - 1) as u64) {
            Parsed::Done(right, j, nid2) => sp_addition_rest(
                toks,
                j,
                nid2,
                SpecExpr::Binary {
                    left: Box::new(left),
                    operator: toks[i],
                    right: Box::new(right),
                },
                (fuel - 1) as u64,
            ),
            Parsed::Fail(m) => Parsed::Fail(m),
        }
    } else {
        Parsed::Done(left, i, nid)
    }
}

pub open spec fn sp_addition(toks: Seq<SpecToken>, i: int, nid: u64, fuel: u64) -> Parsed<SpecExpr>
    decreases fuel, 4int,
{
    if fuel == 0 {
        Parsed::Fail(spent_message())
    } else {
        match sp_multiplication(toks, i, nid, fuel) {
            Parsed::Done(e, j, nid2) => sp_addition_rest(toks, j, nid2, e, (fuel - 1) as u64),
            Parsed::Fail(m) => Parsed::Fail(m),
        }
    }
}

pub open spec fn sp_comparison_rest(
    toks: Seq<SpecToken>,
    i: int,
    nid: u64,
    left: SpecExpr,
    fuel: u64,
) -> Parsed<SpecExpr>
    decreases fuel, 0int,
{
    if fuel == 0 {
        Parsed::Fail(spent_message())
    } else if sp_check(toks, i, TokenType::Greater) || sp_check(toks, i, TokenType::GreaterEqual)
        || sp_check(toks, i, TokenType::LessEqual) || sp_check(toks, i, TokenType::Less) {
        match sp_addition(toks, i + 1, nid, (fuel - 1) as u64) {
            Parsed::Done(right, j, nid2) => sp_comparison_rest(
                toks,
                j,
                nid2,
                SpecExpr::Binary {
                    left: Box::new(left),
                    operator: toks[i],
                    right: Box::new(right),
                },
                (fuel - 1) as u64,
            ),
            Parsed::Fail(m) => Parsed::Fail(m),
        }
    } else {
        Parsed::Done(left, i, nid)
    }
}

pub open spec fn sp_comparison(toks: Seq<SpecToken>, i: int, nid: u64, fuel: u64) -> Parsed<
    SpecExpr,
>
    decreases fuel, 5int,
{
    if fuel == 0 {
        Parsed::Fail(spent_message())
    } else {
        match sp_addition(toks, i, nid, fuel) {
            Parsed::Done(e, j, nid2) => sp_comparison_rest(toks, j, nid2, e, (fuel - 1) as u64),
            Parsed::Fail(m) => Parsed::Fail(m),
        }
    }
}

pub open spec fn sp_equality_rest(
    toks: Seq<SpecToken>,
    i: int,
    nid: u64,
    left: SpecExpr,
    fuel: u64,
) -> Parsed<SpecExpr>
    decreases fuel, 0int,
{
    if fuel == 0 {
        Parsed::Fail(spent_message())
    } else if sp_check(toks, i, TokenType::BangEqual) || sp_check(toks, i, TokenType::EqualEqual) {
        match sp_comparison(toks, i + 1, nid, (fuel - 1) as u64) {
            Parsed::Done(right, j, nid2) => sp_equality_rest(
                toks,
                j,
                nid2,
                SpecExpr::Binary {
                    left: Box::new(left),
                    operator: toks[i],
                    right: Box::new(right),
                },
                (fuel - 1) as u64,
            ),
            Parsed::Fail(m) => Parsed::Fail(m),
        }
    } else {
        Parsed::Done(left, i, nid)
    }
}

pub open spec fn sp_equality(toks: Seq<SpecToken>, i: int, nid: u64, fuel: u64) -> Parsed<SpecExpr>
    decreases fuel, 6int,
{
    if fuel == 0 {
        Parsed::Fail(spent_message())
    } else {
        match sp_comparison(toks, i, nid, fuel) {
            Parsed::Done(e, j, nid2) => sp_equality_rest(toks, j, nid2, e, (fuel - 1) as u64),
            Parsed::Fail(m) => Parsed::Fail(m),
        }
    }
}

pub open spec fn sp_and_rest(
    toks: Seq<SpecToken>,
    i: int,
    nid: u64,
    left: SpecExpr,
    fuel: u64,
) -> Parsed<SpecExpr>
    decreases fuel, 0int,
{
    if fuel == 0 {
        Parsed::Fail(spent_message())
    } else if sp_check(toks, i, TokenType::And) {
        match sp_equality(toks, i + 1, nid, (fuel - 1) as u64) {
            Parsed::Done(right, j, nid2) => sp_and_rest(
                toks,
                j,
                nid2,
                SpecExpr::Logical {
                    left: Box::new(left),
                    operator: toks[i],
                    right: Box::new(right),
                },
                (fuel - 1) as u64,
            ),
            Parsed::Fail(m) => Parsed::Fail(m),
        }
    } else {
        Parsed::Done(left, i, nid)
    }
}

pub open spec fn sp_and(toks: Seq<SpecToken>, i: int, nid: u64, fuel: u64) -> Parsed<SpecExpr>
    decreases fuel, 7int,
{
    if fuel == 0 {
        Parsed::Fail(spent_message())
    } else {
        match sp_equality(toks, i, nid, fuel) {
            Parsed::Done(e, j, nid2) => sp_and_rest(toks, j, nid2, e, (fuel - 1) as u64),
            Parsed::Fail(m) => Parsed::Fail(m),
        }
    }
}

pub open spec fn sp_or_rest(
    toks: Seq<SpecToken>,
    i: int,
    nid: u64,
    left: SpecExpr,
    fuel: u64,
) -> Parsed<SpecExpr>
    decreases fuel, 0int,
{
    if fuel == 0 {
        Parsed::Fail(spent_message())
    } else if sp_check(toks, i, TokenType::Or) {
        match sp_and(toks, i + 1, nid, (fuel - 1) as u64) {
            Parsed::Done(right, j, nid2) => sp_or_rest(
                toks,
                j,
                nid2,
                SpecExpr::Logical {
                    left: Box::new(left),
                    operator: toks[i],
                    right: Box::new(right),
                },
                (fuel - 1) as u64,
            ),
            Parsed::Fail(m) => Parsed::Fail(m),
        }
    } else {
        Parsed::Done(left, i, nid)
    }
}

pub open spec fn sp_or(toks: Seq<SpecToken>, i: int, nid: u64, fuel: u64) -> Parsed<SpecExpr>
    decreases fuel, 8int,
{
    if fuel == 0 {
        Parsed::Fail(spent_message())
    } else {
        match sp_and(toks, i, nid, fuel) {
            Parsed::Done(e, j, nid2) => sp_or_rest(toks, j, nid2, e, (fuel - 1) as u64),
            Parsed::Fail(m) => Parsed::Fail(m),
        }
    }
}

/// `assignment := or ( "=" assignment )?`; an `=` after anything but
/// a variable is an invalid assignment target and stops the parse.
pub open spec fn sp_assignment(toks: Seq<SpecToken>, i: int, nid: u64, fuel: u64) -> Parsed<
    SpecExpr,
>
    decreases fuel, 9int,
{
    if fuel == 0 {
        Parsed::Fail(spent_message())
    } else {
        match sp_or(toks, i, nid, fuel) {
            Parsed::Done(e, j, nid2) => {
                if sp_check(toks, j, TokenType::Equal) {
                    match sp_assignment(toks, j + 1, nid2, (fuel - 1) as u64) {
                        Parsed::Done(value, k, nid3) => match e {
                            SpecExpr::Variable { id: _, name } => Parsed::Done(
                                SpecExpr::Assign {
                                    id: nid3,
                                    name,
                                    value: Box::new(value),
                                },
                                k,
                                sp_next_id(nid3),
                            ),
                            _ => Parsed::Fail("Invalid assignment target."@),
                        },
                        Parsed::Fail(m) => Parsed::Fail(m),
                    }
                } else {
                    Parsed::Done(e, j, nid2)
                }
            },
            Parsed::Fail(m) => Parsed::Fail(m),
        }
    }
}

pub open spec fn sp_expression(toks: Seq<SpecToken>, i: int, nid: u64, fuel: u64) -> Parsed<
    SpecExpr,
>
    decreases fuel, 10int,
{
    if fuel == 0 {
        Parsed::Fail(spent_message())
    } else {
        sp_assignment(toks, i, nid, (fuel - 1) as u64)
    }
}

// ---------------------------------------------------------------
// Specification grammar: statements.
// ---------------------------------------------------------------

/// The comma-separated parameter names of a declaration, capped at 10.
pub open spec fn sp_params(
    toks: Seq<SpecToken>,
    i: int,
    nid: u64,
    sofar: Seq<SpecToken>,
    fuel: u64,
) -> Parsed<Seq<SpecToken>>
    decreases fuel, 0int,
{
    if fuel == 0 {
        Parsed::Fail(spent_message())
    } else if !sp_check(toks, i, TokenType::Identifier) {
        Parsed::Fail("Expect parameter name"@)
    } else {
        let params = sofar.push(toks[i]);
        if sp_check(toks, i + 1, TokenType::Comma) {
            if params.len() >= 10 {
                Parsed::Fail("Cannot have more than 10 parameters."@)
            } else {
                sp_params(toks, i + 2, nid, params, (fuel - 1) as u64)
            }
        } else {
            Parsed::Done(params, i + 1, nid)
        }
    }
}

/// The statements of a block up to its closing brace, which is then
/// stepped over when present.
pub open spec fn sp_block_rest(
    toks: Seq<SpecToken>,
    i: int,
    nid: u64,
    sofar: Seq<SpecStmt>,
    fuel: u64,
) -> Parsed<Seq<SpecStmt>>
    decreases fuel, 0int,
{
    if fuel == 0 {
        Parsed::Fail(spent_message())
    } else if sp_check(toks, i, TokenType::RightBrace) || sp_is_end(toks, i) {
        Parsed::Done(sofar, sp_skip(toks, i, TokenType::RightBrace), nid)
    } else {
        match sp_declaration(toks, i, nid, (fuel - 1) as u64) {
            Parsed::Done(s, j, nid2) => if j > i {
                sp_block_rest(toks, j, nid2, sofar.push(s), (fuel - 1) as u64)
            } else {
                Parsed::Fail("Expect expression."@)
            },
            Parsed::Fail(m) => Parsed::Fail(m),
        }
    }
}

/// `fun` declarations: name, parenthesised parameters, braced body.
pub open spec fn sp_function(toks: Seq<SpecToken>, i: int, nid: u64, fuel: u64) -> Parsed<SpecStmt>
    decreases fuel, 0int,
{
    if fuel == 0 {
        Parsed::Fail(spent_message())
    } else if !sp_check(toks, i, TokenType::Identifier) {
        Parsed::Fail("Expect function name"@)
    } else {
        let name = toks[i];
        let i2 = sp_skip(toks, i + 1, TokenType::LeftParen);
        let params_parsed: Parsed<Seq<SpecToken>> = if sp_check(toks, i2, TokenType::RightParen) {
            Parsed::Done(Seq::empty(), i2, nid)
        } else {
            sp_params(toks, i2, nid, Seq::empty(), (fuel - 1) as u64)
        };
        match params_parsed {
            Parsed::Done(params, j, nid2) => {
                let j2 = sp_skip(toks, j, TokenType::RightParen);
                let j3 = sp_skip(toks, j2, TokenType::LeftBrace);
                match sp_block_rest(toks, j3, nid2, Seq::empty(), (fuel - 1) as u64) {
                    Parsed::Done(body, k, nid3) => Parsed::Done(
                        SpecStmt::Function(crate::stmt::SpecFunction { name, params, body }),
                        k,
                        nid3,
                    ),
                    Parsed::Fail(m) => Parsed::Fail(m),
                }
            },
            Parsed::Fail(m) => Parsed::Fail(m),
        }
    }
}

/// `var` declarations, with or without an initializer.
pub open spec fn sp_var_declaration(toks: Seq<SpecToken>, i: int, nid: u64, fuel: u64) -> Parsed<
    SpecStmt,
>
    decreases fuel, 0int,
{
    if fuel == 0 {
        Parsed::Fail(spent_message())
    } else if !sp_check(toks, i, TokenType::Identifier) {
        Parsed::Fail("Expected variable name"@)
    } else {
        let name = toks[i];
        if sp_check(toks, i + 1, TokenType::Equal) {
            match sp_expression(toks, i + 2, nid, (fuel - 1) as u64) {
                Parsed::Done(e, j, nid2) => Parsed::Done(
                    SpecStmt::Var { name, initializer: Some(e) },
                    sp_skip(toks, j, TokenType::Semicolon),
                    nid2,
                ),
                Parsed::Fail(m) => Parsed::Fail(m),
            }
        } else {
            Parsed::Done(
                SpecStmt::Var { name, initializer: None },
                sp_skip(toks, i + 1, TokenType::Semicolon),
                nid,
            )
        }
    }
}

pub open spec fn sp_print_statement(toks: Seq<SpecToken>, i: int, nid: u64, fuel: u64) -> Parsed<
    SpecStmt,
>
    decreases fuel, 0int,
{
    if fuel == 0 {
        Parsed::Fail(spent_message())
    } else {
        match sp_expression(toks, i, nid, (fuel - 1) as u64) {
            Parsed::Done(e, j, nid2) => Parsed::Done(
                SpecStmt::Print(e),
                sp_skip(toks, j, TokenType::Semicolon),
                nid2,
            ),
            Parsed::Fail(m) => Parsed::Fail(m),
        }
    }
}

/// `return`, whose value defaults to the literal nil.
pub open spec fn sp_return_statement(
    toks: Seq<SpecToken>,
    i: int,
    nid: u64,
    keyword: SpecToken,
    fuel: u64,
) -> Parsed<SpecStmt>
    decreases fuel, 0int,
{
    if fuel == 0 {
        Parsed::Fail(spent_message())
    } else if !sp_check(toks, i, TokenType::Semicolon) {
        match sp_expression(toks, i, nid, (fuel - 1) as u64) {
            Parsed::Done(v, j, nid2) => Parsed::Done(
                SpecStmt::Return { keyword, value: v },
                sp_skip(toks, j, TokenType::Semicolon),
                nid2,
            ),
            Parsed::Fail(m) => Parsed::Fail(m),
        }
    } else {
        Parsed::Done(
            SpecStmt::Return { keyword, value: SpecExpr::Literal(SpecLiteral::Nil) },
            sp_skip(toks, i, TokenType::Semicolon),
            nid,
        )
    }
}

pub open spec fn sp_while_statement(toks: Seq<SpecToken>, i: int, nid: u64, fuel: u64) -> Parsed<
    SpecStmt,
>
    decreases fuel, 0int,
{
    if fuel == 0 {
        Parsed::Fail(spent_message())
    } else {
        let i2 = sp_skip(toks, i, TokenType::LeftParen);
        match sp_expression(toks, i2, nid, (fuel - 1) as u64) {
            Parsed::Done(cond, j, nid2) => {
                let j2 = sp_skip(toks, j, TokenType::RightParen);
                match sp_statement(toks, j2, nid2, (fuel - 1) as u64) {
                    Parsed::Done(body, k, nid3) => Parsed::Done(
                        SpecStmt::While { condition: cond, body: Box::new(body) },
                        k,
                        nid3,
                    ),
                    Parsed::Fail(m) => Parsed::Fail(m),
                }
            },
            Parsed::Fail(m) => Parsed::Fail(m),
        }
    }
}

pub open spec fn sp_if_statement(toks: Seq<SpecToken>, i: int, nid: u64, fuel: u64) -> Parsed<
    SpecStmt,
>
    decreases fuel, 0int,
{
    if fuel == 0 {
        Parsed::Fail(spent_message())
    } else {
        let i2 = sp_skip(toks, i, TokenType::LeftParen);
        match sp_expression(toks, i2, nid, (fuel - 1) as u64) {
            Parsed::Done(cond, j, nid2) => {
                let j2 = sp_skip(toks, j, TokenType::RightParen);
                match sp_statement(toks, j2, nid2, (fuel - 1) as u64) {
                    Parsed::Done(then, k, nid3) => if sp_check(toks, k, TokenType::Else) {
                        match sp_statement(toks, k + 1, nid3, (fuel - 1) as u64) {
                            Parsed::Done(els, l, nid4) => Parsed::Done(
                                SpecStmt::If {
                                    condition: cond,
                                    then_branch: Box::new(then),
                                    else_branch: Some(Box::new(els)),
                                },
                                l,
                                nid4,
                            ),
                            Parsed::Fail(m) => Parsed::Fail(m),
                        }
                    } else {
                        Parsed::Done(
                            SpecStmt::If {
                                condition: cond,
                                then_branch: Box::new(then),
                                else_branch: None,
                            },
                            k,
                            nid3,
                        )
                    },
                    Parsed::Fail(m) => Parsed::Fail(m),
                }
            },
            Parsed::Fail(m) => Parsed::Fail(m),
        }
    }
}

pub open spec fn sp_expression_statement(
    toks: Seq<SpecToken>,
    i: int,
    nid: u64,
    fuel: u64,
) -> Parsed<SpecStmt>
    decreases fuel, 0int,
{
    if fuel == 0 {
        Parsed::Fail(spent_message())
    } else {
        match sp_expression(toks, i, nid, (fuel - 1) as u64) {
            Parsed::Done(e, j, nid2) => Parsed::Done(
                SpecStmt::Expression(e),
                sp_skip(toks, j, TokenType::Semicolon),
                nid2,
            ),
            Parsed::Fail(m) => Parsed::Fail(m),
        }
    }
}

/// The desugared `while` a `for` statement parses to.
pub open spec fn sp_desugar_for(
    init: Option<SpecStmt>,
    cond: Option<SpecExpr>,
    incr: Option<SpecExpr>,
    body: SpecStmt,
) -> SpecStmt {
    let body2 = match incr {
        Some(inc) => SpecStmt::Block(seq![body, SpecStmt::Expression(inc)]),
        None => body,
    };
    let cond2 = match cond {
        Some(c) => c,
        None => SpecExpr::Literal(SpecLiteral::Bool(true)),
    };
    let w = SpecStmt::While { condition: cond2, body: Box::new(body2) };
    match init {
        Some(ini) => SpecStmt::Block(seq![ini, w]),
        None => w,
    }
}

/// A `for` statement's initializer clause.
pub open spec fn sp_for_init(toks: Seq<SpecToken>, i: int, nid: u64, fuel: u64) -> Parsed<
    Option<SpecStmt>,
>
    decreases fuel, 0int,
{
    if fuel == 0 {
        Parsed::Fail(spent_message())
    } else if sp_check(toks, i, TokenType::Semicolon) {
        Parsed::Done(None, i + 1, nid)
    } else if sp_check(toks, i, TokenType::Var) {
        match sp_var_declaration(toks, i + 1, nid, (fuel - 1) as u64) {
            Parsed::Done(s, j, nid2) => Parsed::Done(Some(s), j, nid2),
            Parsed::Fail(m) => Parsed::Fail(m),
        }
    } else {
        match sp_expression_statement(toks, i, nid, (fuel - 1) as u64) {
            Parsed::Done(s, j, nid2) => Parsed::Done(Some(s), j, nid2),
            Parsed::Fail(m) => Parsed::Fail(m),
        }
    }
}

/// A `for` statement's three parenthesised clauses.
pub open spec fn sp_for_clauses(toks: Seq<SpecToken>, i: int, nid: u64, fuel: u64) -> Parsed<
    (Option<SpecStmt>, Option<SpecExpr>, Option<SpecExpr>),
>
    decreases fuel, 1int,
{
    if fuel == 0 {
        Parsed::Fail(spent_message())
    } else {
        let i2 = sp_skip(toks, i, TokenType::LeftParen);
        match sp_for_init(toks, i2, nid, fuel) {
            Parsed::Done(init, j, nid2) => {
                let cond_parsed: Parsed<Option<SpecExpr>> = if !sp_check(
                    toks,
                    j,
                    TokenType::Semicolon,
                ) {
                    match sp_expression(toks, j, nid2, (fuel - 1) as u64) {
                        Parsed::Done(c, jc, nid3) => Parsed::Done(Some(c), jc, nid3),
                        Parsed::Fail(m) => Parsed::Fail(m),
                    }
                } else {
                    Parsed::Done(None, j, nid2)
                };
                match cond_parsed {
                    Parsed::Done(cond, jc, nid3) => {
                        let j2 = sp_skip(toks, jc, TokenType::Semicolon);
                        let incr_parsed: Parsed<Option<SpecExpr>> = if !sp_check(
                            toks,
                            j2,
                            TokenType::RightParen,
                        ) {
                            match sp_expression(toks, j2, nid3, (fuel - 1) as u64) {
                                Parsed::Done(e, ji, nid4) => Parsed::Done(Some(e), ji, nid4),
                                Parsed::Fail(m) => Parsed::Fail(m),
                            }
                        } else {
                            Parsed::Done(None, j2, nid3)
                        };
                        match incr_parsed {
                            Parsed::Done(incr, ji, nid4) => Parsed::Done(
                                (init, cond, incr),
                                sp_skip(toks, ji, TokenType::RightParen),
                                nid4,
                            ),
                            Parsed::Fail(m) => Parsed::Fail(m),
                        }
                    },
                    Parsed::Fail(m) => Parsed::Fail(m),
                }
            },
            Parsed::Fail(m) => Parsed::Fail(m),
        }
    }
}

/// `for` statements desugar at parse time into a block around a
/// `while`.
pub open spec fn sp_for_statement(toks: Seq<SpecToken>, i: int, nid: u64, fuel: u64) -> Parsed<
    SpecStmt,
>
    decreases fuel, 2int,
{
    if fuel == 0 {
        Parsed::Fail(spent_message())
    } else {
        match sp_for_clauses(toks, i, nid, fuel) {
            Parsed::Done(clauses, j, nid2) => {
                match sp_statement(toks, j, nid2, (fuel - 1) as u64) {
                    Parsed::Done(body, k, nid3) => Parsed::Done(
                        sp_desugar_for(clauses.0, clauses.1, clauses.2, body),
                        k,
                        nid3,
                    ),
                    Parsed::Fail(m) => Parsed::Fail(m),
                }
            },
            Parsed::Fail(m) => Parsed::Fail(m),
        }
    }
}

pub open spec fn sp_statement(toks: Seq<SpecToken>, i: int, nid: u64, fuel: u64) -> Parsed<
    SpecStmt,
>
    decreases fuel, 3int,
{
    if fuel == 0 {
        Parsed::Fail(spent_message())
    } else if sp_check(toks, i, TokenType::For) {
        sp_for_statement(toks, i + 1, nid, (fuel - 1) as u64)
    } else if sp_check(toks, i, TokenType::If) {
        sp_if_statement(toks, i + 1, nid, (fuel - 1) as u64)
    } else if sp_check(toks, i, TokenType::Print) {
        sp_print_statement(toks, i + 1, nid, (fuel - 1) as u64)
    } else if sp_check(toks, i, TokenType::Return) {
        sp_return_statement(toks, i + 1, nid, toks[i], (fuel - 1) as u64)
    } else if sp_check(toks, i, TokenType::While) {
        sp_while_statement(toks, i + 1, nid, (fuel - 1) as u64)
    } else if sp_check(toks, i, TokenType::LeftBrace) {
        match sp_block_rest(toks, i + 1, nid, Seq::empty(), (fuel - 1) as u64) {
            Parsed::Done(ss, k, nid2) => Parsed::Done(SpecStmt::Block(ss), k, nid2),
            Parsed::Fail(m) => Parsed::Fail(m),
        }
    } else {
        sp_expression_statement(toks, i, nid, (fuel - 1) as u64)
    }
}

pub open spec fn sp_declaration(toks: Seq<SpecToken>, i: int, nid: u64, fuel: u64) -> Parsed<
    SpecStmt,
>
    decreases fuel, 4int,
{
    if fuel == 0 {
        Parsed::Fail(spent_message())
    } else if sp_check(toks, i, TokenType::Fun) {
        sp_function(toks, i + 1, nid, (fuel - 1) as u64)
    } else if sp_check(toks, i, TokenType::Var) {
        sp_var_declaration(toks, i + 1, nid, (fuel - 1) as u64)
    } else {
        sp_statement(toks, i, nid, (fuel - 1) as u64)
    }
}

/// The whole program: declarations until the end of the stream.  A
/// declaration that consumes nothing stops the parse with an error,
/// so the parse always comes to an end.
pub open spec fn sp_program(
    toks: Seq<SpecToken>,
    i: int,
    nid: u64,
    sofar: Seq<SpecStmt>,
    fuel: u64,
) -> Parsed<Seq<SpecStmt>>
    decreases fuel, 0int,
{
    if fuel == 0 {
        Parsed::Fail(spent_message())
    } else if sp_is_end(toks, i) {
        Parsed::Done(sofar, i, nid)
    } else {
        match sp_declaration(toks, i, nid, (fuel - 1) as u64) {
            Parsed::Done(s, j, nid2) => if j > i {
                sp_program(toks, j, nid2, sofar.push(s), (fuel - 1) as u64)
            } else {
                Parsed::Fail("Expect expression."@)
            },
            Parsed::Fail(m) => Parsed::Fail(m),
        }
    }
}

/// What `Parser::parse` returns on a fresh parser over `toks`.
pub open spec fn spec_parse(toks: Seq<SpecToken>) -> Result<Seq<SpecStmt>, Seq<char>> {
    match sp_program(toks, 0, 0, Seq::empty(), PARSE_FUEL) {
        Parsed::Done(ss, _, _) => Ok(ss),
        Parsed::Fail(m) => Err(m),
    }
}

/// Where `synchronize` stops, scanning from `i`: just after a
/// semicolon, or at a keyword that begins a statement, or at the end.
pub open spec fn sp_sync_from(toks: Seq<SpecToken>, i: int) -> int
    decreases toks.len() - i,
{
    if !(0 <= i < toks.len()) {
        i
    } else if 1 <= i && toks[i - 1].token_type == TokenType::Semicolon {
        i
    } else if toks[i].token_type == TokenType::Class || toks[i].token_type == TokenType::Fun
        || toks[i].token_type == TokenType::For || toks[i].token_type == TokenType::If
        || toks[i].token_type == TokenType::Var || toks[i].token_type == TokenType::While
        || toks[i].token_type == TokenType::Print || toks[i].token_type == TokenType::Return {
        i
    } else {
        sp_sync_from(toks, i + 1)
    }
}

pub open spec fn sp_synchronize(toks: Seq<SpecToken>, i: int) -> int {
    if 0 <= i < toks.len() {
        sp_sync_from(toks, i + 1)
    } else {
        i
    }
}

// ---------------------------------------------------------------
// The parser itself.
// ---------------------------------------------------------------

/// Builds the block-and-`while` form a `for` statement stands for.
fn pair_block(first: Stmt, second: Stmt) -> (r: Stmt)
    ensures
        r@ == SpecStmt::Block(seq![first@, second@]),
{
    let mut pair: Vec<Stmt> = Vec::new();
    pair.push(first);
    pair.push(second);
    proof {
        let p = pair@;
        assert(p.drop_last().drop_last() =~= Seq::<Stmt>::empty());
        assert(stmts_view(p.drop_last().drop_last()) =~= Seq::<SpecStmt>::empty());
        assert(p.drop_last().last() == p[0]);
        assert(stmts_view(p.drop_last()) =~= seq![p[0]@]);
        assert(p.last() == p[1]);
        assert(stmts_view(p) =~= seq![p[0]@, p[1]@]);
    }
    Stmt::Block(Block::new(pair))
}

/// Desugars the clauses and body of a `for` statement.
fn desugar_for(
    initializer: Option<Stmt>,
    condition: Option<Expr>,
    increment: Option<Expr>,
    body: Stmt,
) -> (r: Stmt)
    ensures
        r@ == sp_desugar_for(
            match initializer {
                Some(s) => Some(s@),
                None => None,
            },
            match condition {
                Some(e) => Some(e@),
                None => None,
            },
            match increment {
                Some(e) => Some(e@),
                None => None,
            },
            body@,
        ),
{
    let mut desugared = body;
    if let Some(increment) = increment {
        desugared = pair_block(desugared, Stmt::Expression(increment));
    }
    let for_condition: Expr = match condition {
        Some(condition) => condition,
        None => Expr::Literal(Literal::Bool(true)),
    };
    desugared = Stmt::While { condition: for_condition, body: Box::new(desugared) };
    if let Some(initializer) = initializer {
        desugared = pair_block(initializer, desugared);
    }
    desugared
}

/// The parser: a token sequence, the position in it, and the counter
/// that hands out node identifiers.
pub struct Parser {
    pub tokens: Vec<Token>,
    pub index: usize,
    pub next_id: u64,
}

impl Parser {
    pub open spec fn toks(&self) -> Seq<SpecToken> {
        tokens_view(self.tokens@)
    }

    pub open spec fn wf(&self) -> bool {
        self.index <= self.tokens@.len()
    }

    pub fn new(tokens: Vec<Token>) -> (r: Parser)
        ensures
            r.toks() == tokens_view(tokens@),
            r.index == 0,
            r.next_id == 0,
            r.wf(),
    {
        Parser { tokens, index: 0, next_id: 0 }
    }

    fn peek(&self) -> (r: Option<Token>)
        requires
            self.wf(),
        ensures
            match r {
                Some(t) => self.index < self.toks().len() && t@ == self.toks()[self.index as int],
                None => self.index == self.toks().len(),
            },
    {
        if self.index < self.tokens.len() {
            Some(self.tokens[self.index].clone())
        } else {
            None
        }
    }

    fn check(&self, token_type: TokenType) -> (r: bool)
        requires
            self.wf(),
        ensures
            r == sp_check(self.toks(), self.index as int, token_type),
    {
        match self.peek() {
            Some(t) => t.token_type() == token_type,
            None => false,
        }
    }

    fn is_end(&self) -> (r: bool)
        requires
            self.wf(),
        ensures
            r == sp_is_end(self.toks(), self.index as int),
    {
        match self.peek() {
            Some(t) => t.token_type() == TokenType::Eof,
            None => true,
        }
    }

    fn previous(&self) -> (r: Token)
        requires
            self.wf(),
            1 <= self.index,
        ensures
            r@ == self.toks()[self.index - 1],
    {
        self.tokens[self.index - 1].clone()
    }

    /// Steps over the current token when it has one of the given
    /// kinds.
    fn matches(&mut self, kinds: &[TokenType]) -> (r: bool)
        requires
            old(self).wf(),
        ensures
            final(self).tokens == old(self).tokens,
            final(self).next_id == old(self).next_id,
            final(self).wf(),
            r == exists|k: int|
                0 <= k < kinds@.len() && sp_check(
                    old(self).toks(),
                    old(self).index as int,
                    kinds@[k],
                ),
            r ==> final(self).index == old(self).index + 1,
            !r ==> final(self).index == old(self).index,
    {
        let mut k: usize = 0;
        while k < kinds.len()
            invariant
                0 <= k <= kinds@.len(),
                self == old(self),
                self.wf(),
                forall|j: int|
                    0 <= j < k ==> !sp_check(self.toks(), self.index as int, kinds@[j]),
            decreases kinds@.len() - k,
        {
            let n = self.tokens.len();
            if self.check(kinds[k]) {
                proof {
                    assert(self.toks().len() == self.tokens@.len());
                }
                self.index = self.index + 1;
                return true;
            }
            k = k + 1;
        }
        false
    }

    /// Steps over the current token when it has the expected kind;
    /// otherwise reports `error` and stays put.
    fn consume(&mut self, token_type: TokenType, error: &str) -> (r: Result<Token, ParserError>)
        requires
            old(self).wf(),
        ensures
            final(self).tokens == old(self).tokens,
            final(self).next_id == old(self).next_id,
            final(self).wf(),
            match r {
                Ok(t) => sp_check(old(self).toks(), old(self).index as int, token_type) && t@
                    == old(self).toks()[old(self).index as int] && final(self).index == old(self).index + 1,
                Err(e) => !sp_check(old(self).toks(), old(self).index as int, token_type) && e@
                    == error@ && final(self).index == old(self).index,
            },
    {
        if self.check(token_type) {
            let n = self.tokens.len();
            proof {
                assert(self.toks().len() == self.tokens@.len());
            }
            let t = self.tokens[self.index].clone();
            self.index = self.index + 1;
            Ok(t)
        } else {
            Err(ParserError::new(String::from_str(error)))
        }
    }

    /// Steps over the current token when it has the given kind.
    fn take(&mut self, token_type: TokenType) -> (r: bool)
        requires
            old(self).wf(),
        ensures
            final(self).tokens == old(self).tokens,
            final(self).next_id == old(self).next_id,
            final(self).wf(),
            r == sp_check(old(self).toks(), old(self).index as int, token_type),
            r ==> final(self).index == old(self).index + 1,
            !r ==> final(self).index == old(self).index,
    {
        if self.check(token_type) {
            let n = self.tokens.len();
            proof {
                assert(self.toks().len() == self.tokens@.len());
            }
            self.index = self.index + 1;
            true
        } else {
            false
        }
    }

    /// Hands out the next node identifier.
    fn fresh_id(&mut self) -> (r: u64)
        ensures
            final(self).tokens == old(self).tokens,
            final(self).index == old(self).index,
            r == old(self).next_id,
            final(self).next_id == sp_next_id(old(self).next_id),
    {
        let id = self.next_id;
        if self.next_id < 0xFFFF_FFFF_FFFF_FFFF {
            self.next_id = self.next_id + 1;
        }
        id
    }

    fn primary(&mut self, fuel: u64) -> (r: Result<Expr, ParserError>)
        requires
            old(self).wf(),
        ensures
            final(self).tokens == old(self).tokens,
            final(self).wf(),
            match r {
                Ok(e) => sp_primary(old(self).toks(), old(self).index as int, old(self).next_id, fuel)
                    == Parsed::Done(e@, final(self).index as int, final(self).next_id),
                Err(er) => sp_primary(old(self).toks(), old(self).index as int, old(self).next_id, fuel)
                    == Parsed::<SpecExpr>::Fail(er@),
            },
        decreases fuel, 0int,
    {
        if fuel == 0 {
            return Err(ParserError::new(String::from_str("Program too deeply nested.")));
        }
        if self.take(TokenType::False) {
            return Ok(Expr::Literal(Literal::Bool(false)));
        }
        if self.take(TokenType::True) {
            return Ok(Expr::Literal(Literal::Bool(true)));
        }
        if self.take(TokenType::Nil) {
            return Ok(Expr::Literal(Literal::Nil));
        }
        if self.take(TokenType::Number) {
            let lexeme = self.previous().lexeme();
            match parse_number(&lexeme) {
                Some(n) => {
                    return Ok(Expr::Literal(Literal::Number(n)));
                },
                None => {
                    return Err(ParserError::new(String::from_str("Invalid number literal.")));
                },
            }
        }
        if self.take(TokenType::String) {
            let lexeme = self.previous().lexeme();
            return Ok(Expr::Literal(Literal::Str(lexeme)));
        }
        if self.take(TokenType::LeftParen) {
            let inner = self.expression(fuel - 1)?;
            let _ = self.consume(TokenType::RightParen, "Expect ')' after expression");
            return Ok(Expr::Grouping(Box::new(inner)));
        }
        if self.take(TokenType::Identifier) {
            let name = self.previous();
            let id = self.fresh_id();
            return Ok(Expr::Variable { id, name });
        }
        Ok(Expr::Literal(Literal::Number(0)))
    }

    #[verifier::rlimit(50)]
    fn arguments(&mut self, first_done: Vec<Expr>, fuel: u64) -> (r: Result<Vec<Expr>, ParserError>)
        requires
            old(self).wf(),
        ensures
            final(self).tokens == old(self).tokens,
            final(self).wf(),
            match r {
                Ok(args) => sp_arguments(
                    old(self).toks(),
                    old(self).index as int,
                    old(self).next_id,
                    exprs_view(first_done@),
                    fuel,
                ) == Parsed::Done(exprs_view(args@), final(self).index as int, final(self).next_id),
                Err(er) => sp_arguments(
                    old(self).toks(),
                    old(self).index as int,
                    old(self).next_id,
                    exprs_view(first_done@),
                    fuel,
                ) == Parsed::<Seq<SpecExpr>>::Fail(er@),
            },
        decreases fuel, 0int,
    {
        if fuel == 0 {
            return Err(ParserError::new(String::from_str("Program too deeply nested.")));
        }
        let mut args = first_done;
        let ghost sofar = exprs_view(args@);
        let arg = self.expression(fuel - 1)?;
        args.push(arg);
        proof {
            assert(args@.drop_last() =~= first_done@);
            assert(exprs_view(args@) == sofar.push(args@.last()@));
        }
        proof {
            crate::expr::lemma_exprs_view(args@);
            crate::expr::lemma_exprs_view(first_done@);
        }
        if self.check(TokenType::Comma) {
            if args.len() >= 10 {
                return Err(ParserError::new(
                    String::from_str("Cannot have more than 10 arguments."),
                ));
            }
            let _ = self.take(TokenType::Comma);
            self.arguments(args, fuel - 1)
        } else {
            Ok(args)
        }
    }

    fn finish_call(&mut self, callee: Expr, fuel: u64) -> (r: Result<Expr, ParserError>)
        requires
            old(self).wf(),
        ensures
            final(self).tokens == old(self).tokens,
            final(self).wf(),
            match r {
                Ok(e) => sp_finish_call(
                    old(self).toks(),
                    old(self).index as int,
                    old(self).next_id,
                    callee@,
                    fuel,
                ) == Parsed::Done(e@, final(self).index as int, final(self).next_id),
                Err(er) => sp_finish_call(
                    old(self).toks(),
                    old(self).index as int,
                    old(self).next_id,
                    callee@,
                    fuel,
                ) == Parsed::<SpecExpr>::Fail(er@),
            },
        decreases fuel, 0int,
    {
        if fuel == 0 {
            return Err(ParserError::new(String::from_str("Program too deeply nested.")));
        }
        let mut args: Vec<Expr> = Vec::new();
        if !self.check(TokenType::RightParen) {
            proof {
                assert(exprs_view(args@) =~= Seq::<SpecExpr>::empty());
            }
            args = self.arguments(args, fuel - 1)?;
        } else {
            proof {
                assert(exprs_view(args@) =~= Seq::<SpecExpr>::empty());
            }
        }
        match self.consume(TokenType::RightParen, "Expect ')' after arguments") {
            Ok(paren) => Ok(Expr::Call { callee: Box::new(callee), paren, arguments: args }),
            Err(e) => Err(e),
        }
    }

    #[verifier::rlimit(100)]
    fn call_rest(&mut self, callee: Expr, fuel: u64) -> (r: Result<Expr, ParserError>)
        requires
            old(self).wf(),
        ensures
            final(self).tokens == old(self).tokens,
            final(self).wf(),
            match r {
                Ok(e) => sp_call_rest(
                    old(self).toks(),
                    old(self).index as int,
                    old(self).next_id,
                    callee@,
                    fuel,
                ) == Parsed::Done(e@, final(self).index as int, final(self).next_id),
                Err(er) => sp_call_rest(
                    old(self).toks(),
                    old(self).index as int,
                    old(self).next_id,
                    callee@,
                    fuel,
                ) == Parsed::<SpecExpr>::Fail(er@),
            },
        decreases fuel, 0int,
    {
        if fuel == 0 {
            return Err(ParserError::new(String::from_str("Program too deeply nested.")));
        }
        if self.take(TokenType::LeftParen) {
            let c = self.finish_call(callee, fuel - 1)?;
            self.call_rest(c, fuel - 1)
        } else {
            Ok(callee)
        }
    }

    fn call(&mut self, fuel: u64) -> (r: Result<Expr, ParserError>)
        requires
            old(self).wf(),
        ensures
            final(self).tokens == old(self).tokens,
            final(self).wf(),
            match r {
                Ok(e) => sp_call(old(self).toks(), old(self).index as int, old(self).next_id, fuel)
                    == Parsed::Done(e@, final(self).index as int, final(self).next_id),
                Err(er) => sp_call(old(self).toks(), old(self).index as int, old(self).next_id, fuel)
                    == Parsed::<SpecExpr>::Fail(er@),
            },
        decreases fuel, 1int,
    {
        if fuel == 0 {
            return Err(ParserError::new(String::from_str("Program too deeply nested.")));
        }
        let e = self.primary(fuel)?;
        self.call_rest(e, fuel - 1)
    }

    fn unary(&mut self, fuel: u64) -> (r: Result<Expr, ParserError>)
        requires
            old(self).wf(),
        ensures
            final(self).tokens == old(self).tokens,
            final(self).wf(),
            match r {
                Ok(e) => sp_unary(old(self).toks(), old(self).index as int, old(self).next_id, fuel)
                    == Parsed::Done(e@, final(self).index as int, final(self).next_id),
                Err(er) => sp_unary(old(self).toks(), old(self).index as int, old(self).next_id, fuel)
                    == Parsed::<SpecExpr>::Fail(er@),
            },
        decreases fuel, 2int,
    {
        if fuel == 0 {
            return Err(ParserError::new(String::from_str("Program too deeply nested.")));
        }
        if self.matches(&[TokenType::Bang, TokenType::Minus]) {
            let operator = self.previous();
            let right = self.unary(fuel - 1)?;
            Ok(Expr::Unary { operator, right: Box::new(right) })
        } else {
            self.call(fuel)
        }
    }

    #[verifier::rlimit(100)]
    fn multiplication_rest(&mut self, left: Expr, fuel: u64) -> (r: Result<Expr, ParserError>)
        requires
            old(self).wf(),
        ensures
            final(self).tokens == old(self).tokens,
            final(self).wf(),
            match r {
                Ok(e) => sp_multiplication_rest(
                    old(self).toks(),
                    old(self).index as int,
                    old(self).next_id,
                    left@,
                    fuel,
                ) == Parsed::Done(e@, final(self).index as int, final(self).next_id),
                Err(er) => sp_multiplication_rest(
                    old(self).toks(),
                    old(self).index as int,
                    old(self).next_id,
                    left@,
                    fuel,
                ) == Parsed::<SpecExpr>::Fail(er@),
            },
        decreases fuel, 0int,
    {
        if fuel == 0 {
            return Err(ParserError::new(String::from_str("Program too deeply nested.")));
        }
        if self.matches(&[TokenType::Slash, TokenType::Star]) {
            let operator = self.previous();
            let right = self.unary(fuel - 1)?;
            self.multiplication_rest(
                Expr::Binary { left: Box::new(left), operator, right: Box::new(right) },
                fuel - 1,
            )
        } else {
            Ok(left)
        }
    }

    fn multiplication(&mut self, fuel: u64) -> (r: Result<Expr, ParserError>)
        requires
            old(self).wf(),
        ensures
            final(self).tokens == old(self).tokens,
            final(self).wf(),
            match r {
                Ok(e) => sp_multiplication(
                    old(self).toks(),
                    old(self).index as int,
                    old(self).next_id,
                    fuel,
                ) == Parsed::Done(e@, final(self).index as int, final(self).next_id),
                Err(er) => sp_multiplication(
                    old(self).toks(),
                    old(self).index as int,
                    old(self).next_id,
                    fuel,
                ) == Parsed::<SpecExpr>::Fail(er@),
            },
        decreases fuel, 3int,
    {
        if fuel == 0 {
            return Err(ParserError::new(String::from_str("Program too deeply nested.")));
        }
        let e = self.unary(fuel)?;
        self.multiplication_rest(e, fuel - 1)
    }

    #[verifier::rlimit(100)]
    fn addition_rest(&mut self, left: Expr, fuel: u64) -> (r: Result<Expr, ParserError>)
        requires
            old(self).wf(),
        ensures
            final(self).tokens == old(self).tokens,
            final(self).wf(),
            match r {
                Ok(e) => sp_addition_rest(
                    old(self).toks(),
                    old(self).index as int,
                    old(self).next_id,
                    left@,
                    fuel,
                ) == Parsed::Done(e@, final(self).index as int, final(self).next_id),
                Err(er) => sp_addition_rest(
                    old(self).toks(),
                    old(self).index as int,
                    old(self).next_id,
                    left@,
                    fuel,
                ) == Parsed::<SpecExpr>::Fail(er@),
            },
        decreases fuel, 0int,
    {
        if fuel == 0 {
            return Err(ParserError::new(String::from_str("Program too deeply nested.")));
        }
        if self.matches(&[TokenType::Minus, TokenType::Plus]) {
            let operator = self.previous();
            let right = self.multiplication(fuel - 1)?;
            self.addition_rest(
                Expr::Binary { left: Box::new(left), operator, right: Box::new(right) },
                fuel - 1,
            )
        } else {
            Ok(left)
        }
    }

    fn addition(&mut self, fuel: u64) -> (r: Result<Expr, ParserError>)
        requires
            old(self).wf(),
        ensures
            final(self).tokens == old(self).tokens,
            final(self).wf(),
            match r {
                Ok(e) => sp_addition(old(self).toks(), old(self).index as int, old(self).next_id, fuel)
                    == Parsed::Done(e@, final(self).index as int, final(self).next_id),
                Err(er) => sp_addition(
                    old(self).toks(),
                    old(self).index as int,
                    old(self).next_id,
                    fuel,
                ) == Parsed::<SpecExpr>::Fail(er@),
            },
        decreases fuel, 4int,
    {
        if fuel == 0 {
            return Err(ParserError::new(String::from_str("Program too deeply nested.")));
        }
        let e = self.multiplication(fuel)?;
        self.addition_rest(e, fuel - 1)
    }

    #[verifier::rlimit(100)]
    fn comparison_rest(&mut self, left: Expr, fuel: u64) -> (r: Result<Expr, ParserError>)
        requires
            old(self).wf(),
        ensures
            final(self).tokens == old(self).tokens,
            final(self).wf(),
            match r {
                Ok(e) => sp_comparison_rest(
                    old(self).toks(),
                    old(self).index as int,
                    old(self).next_id,
                    left@,
                    fuel,
                ) == Parsed::Done(e@, final(self).index as int, final(self).next_id),
                Err(er) => sp_comparison_rest(
                    old(self).toks(),
                    old(self).index as int,
                    old(self).next_id,
                    left@,
                    fuel,
                ) == Parsed::<SpecExpr>::Fail(er@),
            },
        decreases fuel, 0int,
    {
        if fuel == 0 {
            return Err(ParserError::new(String::from_str("Program too deeply nested.")));
        }
        if self.matches(
            &[TokenType::Greater, TokenType::GreaterEqual, TokenType::LessEqual, TokenType::Less],
        ) {
            let operator = self.previous();
            let right = self.addition(fuel - 1)?;
            self.comparison_rest(
                Expr::Binary { left: Box::new(left), operator, right: Box::new(right) },
                fuel - 1,
            )
        } else {
            Ok(left)
        }
    }

    fn comparison(&mut self, fuel: u64) -> (r: Result<Expr, ParserError>)
        requires
            old(self).wf(),
        ensures
            final(self).tokens == old(self).tokens,
            final(self).wf(),
            match r {
                Ok(e) => sp_comparison(
                    old(self).toks(),
                    old(self).index as int,
                    old(self).next_id,
                    fuel,
                ) == Parsed::Done(e@, final(self).index as int, final(self).next_id),
                Err(er) => sp_comparison(
                    old(self).toks(),
                    old(self).index as int,
                    old(self).next_id,
                    fuel,
                ) == Parsed::<SpecExpr>::Fail(er@),
            },
        decreases fuel, 5int,
    {
        if fuel == 0 {
            return Err(ParserError::new(String::from_str("Program too deeply nested.")));
        }
        let e = self.addition(fuel)?;
        self.comparison_rest(e, fuel - 1)
    }

    #[verifier::rlimit(100)]
    fn equality_rest(&mut self, left: Expr, fuel: u64) -> (r: Result<Expr, ParserError>)
        requires
            old(self).wf(),
        ensures
            final(self).tokens == old(self).tokens,
            final(self).wf(),
            match r {
                Ok(e) => sp_equality_rest(
                    old(self).toks(),
                    old(self).index as int,
                    old(self).next_id,
                    left@,
                    fuel,
                ) == Parsed::Done(e@, final(self).index as int, final(self).next_id),
                Err(er) => sp_equality_rest(
                    old(self).toks(),
                    old(self).index as int,
                    old(self).next_id,
                    left@,
                    fuel,
                ) == Parsed::<SpecExpr>::Fail(er@),
            },
        decreases fuel, 0int,
    {
        if fuel == 0 {
            return Err(ParserError::new(String::from_str("Program too deeply nested.")));
        }
        if self.matches(&[TokenType::BangEqual, TokenType::EqualEqual]) {
            let operator = self.previous();
            let right = self.comparison(fuel - 1)?;
            self.equality_rest(
                Expr::Binary { left: Box::new(left), operator, right: Box::new(right) },
                fuel - 1,
            )
        } else {
            Ok(left)
        }
    }

    fn equality(&mut self, fuel: u64) -> (r: Result<Expr, ParserError>)
        requires
            old(self).wf(),
        ensures
            final(self).tokens == old(self).tokens,
            final(self).wf(),
            match r {
                Ok(e) => sp_equality(old(self).toks(), old(self).index as int, old(self).next_id, fuel)
                    == Parsed::Done(e@, final(self).index as int, final(self).next_id),
                Err(er) => sp_equality(
                    old(self).toks(),
                    old(self).index as int,
                    old(self).next_id,
                    fuel,
                ) == Parsed::<SpecExpr>::Fail(er@),
            },
        decreases fuel, 6int,
    {
        if fuel == 0 {
            return Err(ParserError::new(String::from_str("Program too deeply nested.")));
        }
        let e = self.comparison(fuel)?;
        self.equality_rest(e, fuel - 1)
    }

    fn and(&mut self, fuel: u64) -> (r: Result<Expr, ParserError>)
        requires
            old(self).wf(),
        ensures
            final(self).tokens == old(self).tokens,
            final(self).wf(),
            match r {
                Ok(e) => sp_and(old(self).toks(), old(self).index as int, old(self).next_id, fuel)
                    == Parsed::Done(e@, final(self).index as int, final(self).next_id),
                Err(er) => sp_and(old(self).toks(), old(self).index as int, old(self).next_id, fuel)
                    == Parsed::<SpecExpr>::Fail(er@),
            },
        decreases fuel, 7int,
    {
        if fuel == 0 {
            return Err(ParserError::new(String::from_str("Program too deeply nested.")));
        }
        let e = self.equality(fuel)?;
        self.and_rest(e, fuel - 1)
    }

    #[verifier::rlimit(100)]
    fn and_rest(&mut self, left: Expr, fuel: u64) -> (r: Result<Expr, ParserError>)
        requires
            old(self).wf(),
        ensures
            final(self).tokens == old(self).tokens,
            final(self).wf(),
            match r {
                Ok(e) => sp_and_rest(
                    old(self).toks(),
                    old(self).index as int,
                    old(self).next_id,
                    left@,
                    fuel,
                ) == Parsed::Done(e@, final(self).index as int, final(self).next_id),
                Err(er) => sp_and_rest(
                    old(self).toks(),
                    old(self).index as int,
                    old(self).next_id,
                    left@,
                    fuel,
                ) == Parsed::<SpecExpr>::Fail(er@),
            },
        decreases fuel, 0int,
    {
        if fuel == 0 {
            return Err(ParserError::new(String::from_str("Program too deeply nested.")));
        }
        if self.take(TokenType::And) {
            let operator = self.previous();
            let right = self.equality(fuel - 1)?;
            self.and_rest(
                Expr::Logical { left: Box::new(left), operator, right: Box::new(right) },
                fuel - 1,
            )
        } else {
            Ok(left)
        }
    }

    fn or(&mut self, fuel: u64) -> (r: Result<Expr, ParserError>)
        requires
            old(self).wf(),
        ensures
            final(self).tokens == old(self).tokens,
            final(self).wf(),
            match r {
                Ok(e) => sp_or(old(self).toks(), old(self).index as int, old(self).next_id, fuel)
                    == Parsed::Done(e@, final(self).index as int, final(self).next_id),
                Err(er) => sp_or(old(self).toks(), old(self).index as int, old(self).next_id, fuel)
                    == Parsed::<SpecExpr>::Fail(er@),
            },
        decreases fuel, 8int,
    {
        if fuel == 0 {
            return Err(ParserError::new(String::from_str("Program too deeply nested.")));
        }
        let e = self.and(fuel)?;
        self.or_rest(e, fuel - 1)
    }

    #[verifier::rlimit(100)]
    fn or_rest(&mut self, left: Expr, fuel: u64) -> (r: Result<Expr, ParserError>)
        requires
            old(self).wf(),
        ensures
            final(self).tokens == old(self).tokens,
            final(self).wf(),
            match r {
                Ok(e) => sp_or_rest(
                    old(self).toks(),
                    old(self).index as int,
                    old(self).next_id,
                    left@,
                    fuel,
                ) == Parsed::Done(e@, final(self).index as int, final(self).next_id),
                Err(er) => sp_or_rest(
                    old(self).toks(),
                    old(self).index as int,
                    old(self).next_id,
                    left@,
                    fuel,
                ) == Parsed::<SpecExpr>::Fail(er@),
            },
        decreases fuel, 0int,
    {
        if fuel == 0 {
            return Err(ParserError::new(String::from_str("Program too deeply nested.")));
        }
        if self.take(TokenType::Or) {
            let operator = self.previous();
            let right = self.and(fuel - 1)?;
            self.or_rest(
                Expr::Logical { left: Box::new(left), operator, right: Box::new(right) },
                fuel - 1,
            )
        } else {
            Ok(left)
        }
    }

    fn assignment(&mut self, fuel: u64) -> (r: Result<Expr, ParserError>)
        requires
            old(self).wf(),
        ensures
            final(self).tokens == old(self).tokens,
            final(self).wf(),
            match r {
                Ok(e) => sp_assignment(
                    old(self).toks(),
                    old(self).index as int,
                    old(self).next_id,
                    fuel,
                ) == Parsed::Done(e@, final(self).index as int, final(self).next_id),
                Err(er) => sp_assignment(
                    old(self).toks(),
                    old(self).index as int,
                    old(self).next_id,
                    fuel,
                ) == Parsed::<SpecExpr>::Fail(er@),
            },
        decreases fuel, 9int,
    {
        if fuel == 0 {
            return Err(ParserError::new(String::from_str("Program too deeply nested.")));
        }
        let e = self.or(fuel)?;
        if self.take(TokenType::Equal) {
            let value = self.assignment(fuel - 1)?;
            match e {
                Expr::Variable { id: _, name } => {
                    let id = self.fresh_id();
                    Ok(Expr::Assign { id, name, value: Box::new(value) })
                },
                _ => Err(ParserError::new(String::from_str("Invalid assignment target."))),
            }
        } else {
            Ok(e)
        }
    }

    fn expression(&mut self, fuel: u64) -> (r: Result<Expr, ParserError>)
        requires
            old(self).wf(),
        ensures
            final(self).tokens == old(self).tokens,
            final(self).wf(),
            match r {
                Ok(e) => sp_expression(
                    old(self).toks(),
                    old(self).index as int,
                    old(self).next_id,
                    fuel,
                ) == Parsed::Done(e@, final(self).index as int, final(self).next_id),
                Err(er) => sp_expression(
                    old(self).toks(),
                    old(self).index as int,
                    old(self).next_id,
                    fuel,
                ) == Parsed::<SpecExpr>::Fail(er@),
            },
        decreases fuel, 10int,
    {
        if fuel == 0 {
            return Err(ParserError::new(String::from_str("Program too deeply nested.")));
        }
        self.assignment(fuel - 1)
    }

    fn params(&mut self, sofar: Vec<Token>, fuel: u64) -> (r: Result<Vec<Token>, ParserError>)
        requires
            old(self).wf(),
        ensures
            final(self).tokens == old(self).tokens,
            final(self).wf(),
            match r {
                Ok(ps) => sp_params(
                    old(self).toks(),
                    old(self).index as int,
                    old(self).next_id,
                    tokens_view(sofar@),
                    fuel,
                ) == Parsed::Done(tokens_view(ps@), final(self).index as int, final(self).next_id),
                Err(er) => sp_params(
                    old(self).toks(),
                    old(self).index as int,
                    old(self).next_id,
                    tokens_view(sofar@),
                    fuel,
                ) == Parsed::<Seq<SpecToken>>::Fail(er@),
            },
        decreases fuel, 0int,
    {
        if fuel == 0 {
            return Err(ParserError::new(String::from_str("Program too deeply nested.")));
        }
        let mut ps = sofar;
        let ghost before = tokens_view(ps@);
        let name = self.consume(TokenType::Identifier, "Expect parameter name")?;
        ps.push(name);
        proof {
            assert(ps@.drop_last() =~= sofar@);
            assert(tokens_view(ps@) =~= before.push(ps@.last()@));
        }
        if self.check(TokenType::Comma) {
            if ps.len() >= 10 {
                return Err(ParserError::new(
                    String::from_str("Cannot have more than 10 parameters."),
                ));
            }
            let _ = self.take(TokenType::Comma);
            self.params(ps, fuel - 1)
        } else {
            Ok(ps)
        }
    }

    fn block_rest(&mut self, sofar: Vec<Stmt>, fuel: u64) -> (r: Result<Vec<Stmt>, ParserError>)
        requires
            old(self).wf(),
        ensures
            final(self).tokens == old(self).tokens,
            final(self).wf(),
            match r {
                Ok(ss) => sp_block_rest(
                    old(self).toks(),
                    old(self).index as int,
                    old(self).next_id,
                    stmts_view(sofar@),
                    fuel,
                ) == Parsed::Done(stmts_view(ss@), final(self).index as int, final(self).next_id),
                Err(er) => sp_block_rest(
                    old(self).toks(),
                    old(self).index as int,
                    old(self).next_id,
                    stmts_view(sofar@),
                    fuel,
                ) == Parsed::<Seq<SpecStmt>>::Fail(er@),
            },
        decreases fuel, 0int,
    {
        if fuel == 0 {
            return Err(ParserError::new(String::from_str("Program too deeply nested.")));
        }
        if self.check(TokenType::RightBrace) || self.is_end() {
            let _ = self.consume(TokenType::RightBrace, "Expect '}' after block.");
            return Ok(sofar);
        }
        let before_index = self.index;
        let mut ss = sofar;
        let ghost views = stmts_view(ss@);
        let s = self.declaration(fuel - 1)?;
        if self.index <= before_index {
            return Err(ParserError::new(String::from_str("Expect expression.")));
        }
        ss.push(s);
        proof {
            assert(ss@.drop_last() =~= sofar@);
            assert(stmts_view(ss@) =~= views.push(ss@.last()@));
        }
        self.block_rest(ss, fuel - 1)
    }

    /// The body of a brace-delimited block, closing brace included.
    pub fn block(&mut self, fuel: u64) -> (r: Result<Vec<Stmt>, ParserError>)
        requires
            old(self).wf(),
        ensures
            final(self).tokens == old(self).tokens,
            final(self).wf(),
            match r {
                Ok(ss) => sp_block_rest(
                    old(self).toks(),
                    old(self).index as int,
                    old(self).next_id,
                    Seq::empty(),
                    fuel,
                ) == Parsed::Done(stmts_view(ss@), final(self).index as int, final(self).next_id),
                Err(er) => sp_block_rest(
                    old(self).toks(),
                    old(self).index as int,
                    old(self).next_id,
                    Seq::empty(),
                    fuel,
                ) == Parsed::<Seq<SpecStmt>>::Fail(er@),
            },
        decreases fuel, 1int,
    {
        let ss: Vec<Stmt> = Vec::new();
        proof {
            assert(stmts_view(ss@) =~= Seq::<SpecStmt>::empty());
        }
        self.block_rest(ss, fuel)
    }

    fn function(&mut self, fuel: u64) -> (r: Result<Stmt, ParserError>)
        requires
            old(self).wf(),
        ensures
            final(self).tokens == old(self).tokens,
            final(self).wf(),
            match r {
                Ok(st) => sp_function(old(self).toks(), old(self).index as int, old(self).next_id, fuel)
                    == Parsed::Done(st@, final(self).index as int, final(self).next_id),
                Err(er) => sp_function(old(self).toks(), old(self).index as int, old(self).next_id, fuel)
                    == Parsed::<SpecStmt>::Fail(er@),
            },
        decreases fuel, 0int,
    {
        if fuel == 0 {
            return Err(ParserError::new(String::from_str("Program too deeply nested.")));
        }
        let name = self.consume(TokenType::Identifier, "Expect function name")?;
        let _ = self.consume(TokenType::LeftParen, "Expect '(' after function name");
        let mut parameters: Vec<Token> = Vec::new();
        proof {
            assert(tokens_view(parameters@) =~= Seq::<SpecToken>::empty());
        }
        if !self.check(TokenType::RightParen) {
            parameters = self.params(parameters, fuel - 1)?;
        }
        let _ = self.consume(TokenType::RightParen, "Expect ')' after parameters");
        let _ = self.consume(TokenType::LeftBrace, "Expect '{' before function body.");
        let body = self.block(fuel - 1)?;
        Ok(Stmt::Function(Rc::new(Function::new(name, parameters, body))))
    }

    fn var_declaration(&mut self, fuel: u64) -> (r: Result<Stmt, ParserError>)
        requires
            old(self).wf(),
        ensures
            final(self).tokens == old(self).tokens,
            final(self).wf(),
            match r {
                Ok(st) => sp_var_declaration(
                    old(self).toks(),
                    old(self).index as int,
                    old(self).next_id,
                    fuel,
                ) == Parsed::Done(st@, final(self).index as int, final(self).next_id),
                Err(er) => sp_var_declaration(
                    old(self).toks(),
                    old(self).index as int,
                    old(self).next_id,
                    fuel,
                ) == Parsed::<SpecStmt>::Fail(er@),
            },
        decreases fuel, 0int,
    {
        if fuel == 0 {
            return Err(ParserError::new(String::from_str("Program too deeply nested.")));
        }
        let name = self.consume(TokenType::Identifier, "Expected variable name")?;
        let initializer: Option<Expr> = if self.take(TokenType::Equal) {
            Some(self.expression(fuel - 1)?)
        } else {
            None
        };
        let _ = self.consume(TokenType::Semicolon, "Expect ';' after variable declaration.");
        Ok(Stmt::Var { name, initializer })
    }

    fn print_statement(&mut self, fuel: u64) -> (r: Result<Stmt, ParserError>)
        requires
            old(self).wf(),
        ensures
            final(self).tokens == old(self).tokens,
            final(self).wf(),
            match r {
                Ok(st) => sp_print_statement(
                    old(self).toks(),
                    old(self).index as int,
                    old(self).next_id,
                    fuel,
                ) == Parsed::Done(st@, final(self).index as int, final(self).next_id),
                Err(er) => sp_print_statement(
                    old(self).toks(),
                    old(self).index as int,
                    old(self).next_id,
                    fuel,
                ) == Parsed::<SpecStmt>::Fail(er@),
            },
        decreases fuel, 0int,
    {
        if fuel == 0 {
            return Err(ParserError::new(String::from_str("Program too deeply nested.")));
        }
        let expr = self.expression(fuel - 1)?;
        let _ = self.consume(TokenType::Semicolon, "Expect ';' after value.");
        Ok(Stmt::Print(expr))
    }

    fn return_statement(&mut self, keyword: Token, fuel: u64) -> (r: Result<Stmt, ParserError>)
        requires
            old(self).wf(),
        ensures
            final(self).tokens == old(self).tokens,
            final(self).wf(),
            match r {
                Ok(st) => sp_return_statement(
                    old(self).toks(),
                    old(self).index as int,
                    old(self).next_id,
                    keyword@,
                    fuel,
                ) == Parsed::Done(st@, final(self).index as int, final(self).next_id),
                Err(er) => sp_return_statement(
                    old(self).toks(),
                    old(self).index as int,
                    old(self).next_id,
                    keyword@,
                    fuel,
                ) == Parsed::<SpecStmt>::Fail(er@),
            },
        decreases fuel, 0int,
    {
        if fuel == 0 {
            return Err(ParserError::new(String::from_str("Program too deeply nested.")));
        }
        let value: Expr = if !self.check(TokenType::Semicolon) {
            self.expression(fuel - 1)?
        } else {
            Expr::Literal(Literal::Nil)
        };
        let _ = self.consume(TokenType::Semicolon, "Expect ';' after value.");
        Ok(Stmt::Return { keyword, value })
    }

    fn while_statement(&mut self, fuel: u64) -> (r: Result<Stmt, ParserError>)
        requires
            old(self).wf(),
        ensures
            final(self).tokens == old(self).tokens,
            final(self).wf(),
            match r {
                Ok(st) => sp_while_statement(
                    old(self).toks(),
                    old(self).index as int,
                    old(self).next_id,
                    fuel,
                ) == Parsed::Done(st@, final(self).index as int, final(self).next_id),
                Err(er) => sp_while_statement(
                    old(self).toks(),
                    old(self).index as int,
                    old(self).next_id,
                    fuel,
                ) == Parsed::<SpecStmt>::Fail(er@),
            },
        decreases fuel, 0int,
    {
        if fuel == 0 {
            return Err(ParserError::new(String::from_str("Program too deeply nested.")));
        }
        let _ = self.consume(TokenType::LeftParen, "Expect '(' after while.");
        let condition = self.expression(fuel - 1)?;
        let _ = self.consume(TokenType::RightParen, "Expect ')' after condition.");
        let body = self.statement(fuel - 1)?;
        Ok(Stmt::While { condition, body: Box::new(body) })
    }

    #[verifier::rlimit(100)]
    fn if_statement(&mut self, fuel: u64) -> (r: Result<Stmt, ParserError>)
        requires
            old(self).wf(),
        ensures
            final(self).tokens == old(self).tokens,
            final(self).wf(),
            match r {
                Ok(st) => sp_if_statement(
                    old(self).toks(),
                    old(self).index as int,
                    old(self).next_id,
                    fuel,
                ) == Parsed::Done(st@, final(self).index as int, final(self).next_id),
                Err(er) => sp_if_statement(
                    old(self).toks(),
                    old(self).index as int,
                    old(self).next_id,
                    fuel,
                ) == Parsed::<SpecStmt>::Fail(er@),
            },
        decreases fuel, 0int,
    {
        if fuel == 0 {
            return Err(ParserError::new(String::from_str("Program too deeply nested.")));
        }
        let _ = self.consume(TokenType::LeftParen, "Expect '(' after 'if'.");
        let condition = self.expression(fuel - 1)?;
        let _ = self.consume(TokenType::RightParen, "Expect ')' after if condition.");
        let then_branch = self.statement(fuel - 1)?;
        let else_branch: Option<Box<Stmt>> = if self.matches(&[TokenType::Else]) {
            Some(Box::new(self.statement(fuel - 1)?))
        } else {
            None
        };
        Ok(Stmt::If { condition, then_branch: Box::new(then_branch), else_branch })
    }

    fn expression_statement(&mut self, fuel: u64) -> (r: Result<Stmt, ParserError>)
        requires
            old(self).wf(),
        ensures
            final(self).tokens == old(self).tokens,
            final(self).wf(),
            match r {
                Ok(st) => sp_expression_statement(
                    old(self).toks(),
                    old(self).index as int,
                    old(self).next_id,
                    fuel,
                ) == Parsed::Done(st@, final(self).index as int, final(self).next_id),
                Err(er) => sp_expression_statement(
                    old(self).toks(),
                    old(self).index as int,
                    old(self).next_id,
                    fuel,
                ) == Parsed::<SpecStmt>::Fail(er@),
            },
        decreases fuel, 0int,
    {
        if fuel == 0 {
            return Err(ParserError::new(String::from_str("Program too deeply nested.")));
        }
        let expr = self.expression(fuel - 1)?;
        let _ = self.consume(TokenType::Semicolon, "Expect ';' after expression.");
        Ok(Stmt::Expression(expr))
    }

    fn for_init(&mut self, fuel: u64) -> (r: Result<Option<Stmt>, ParserError>)
        requires
            old(self).wf(),
        ensures
            final(self).tokens == old(self).tokens,
            final(self).wf(),
            match r {
                Ok(init) => sp_for_init(old(self).toks(), old(self).index as int, old(self).next_id, fuel)
                    == Parsed::Done(
                    match init {
                        Some(st) => Some(st@),
                        None => None,
                    },
                    final(self).index as int,
                    final(self).next_id,
                ),
                Err(er) => sp_for_init(old(self).toks(), old(self).index as int, old(self).next_id, fuel)
                    == Parsed::<Option<SpecStmt>>::Fail(er@),
            },
        decreases fuel, 0int,
    {
        if fuel == 0 {
            return Err(ParserError::new(String::from_str("Program too deeply nested.")));
        }
        if self.take(TokenType::Semicolon) {
            Ok(None)
        } else if self.take(TokenType::Var) {
            Ok(Some(self.var_declaration(fuel - 1)?))
        } else {
            Ok(Some(self.expression_statement(fuel - 1)?))
        }
    }

    #[verifier::rlimit(100)]
    fn for_clauses(&mut self, fuel: u64) -> (r: Result<
        (Option<Stmt>, Option<Expr>, Option<Expr>),
        ParserError,
    >)
        requires
            old(self).wf(),
        ensures
            final(self).tokens == old(self).tokens,
            final(self).wf(),
            match r {
                Ok(clauses) => sp_for_clauses(
                    old(self).toks(),
                    old(self).index as int,
                    old(self).next_id,
                    fuel,
                ) == Parsed::Done(
                    (
                        match clauses.0 {
                            Some(st) => Some(st@),
                            None => None,
                        },
                        match clauses.1 {
                            Some(e) => Some(e@),
                            None => None,
                        },
                        match clauses.2 {
                            Some(e) => Some(e@),
                            None => None,
                        },
                    ),
                    final(self).index as int,
                    final(self).next_id,
                ),
                Err(er) => sp_for_clauses(
                    old(self).toks(),
                    old(self).index as int,
                    old(self).next_id,
                    fuel,
                ) == Parsed::<(Option<SpecStmt>, Option<SpecExpr>, Option<SpecExpr>)>::Fail(er@),
            },
        decreases fuel, 1int,
    {
        if fuel == 0 {
            return Err(ParserError::new(String::from_str("Program too deeply nested.")));
        }
        let _ = self.consume(TokenType::LeftParen, "Expect '(' after 'for'.");
        let initializer: Option<Stmt> = self.for_init(fuel)?;
        let condition: Option<Expr> = if !self.check(TokenType::Semicolon) {
            Some(self.expression(fuel - 1)?)
        } else {
            None
        };
        let _ = self.consume(TokenType::Semicolon, "Expect ';' after loop condition.");
        let increment: Option<Expr> = if !self.check(TokenType::RightParen) {
            Some(self.expression(fuel - 1)?)
        } else {
            None
        };
        let _ = self.consume(TokenType::RightParen, "Expect ')' after 'for' clauses.");
        Ok((initializer, condition, increment))
    }

    fn for_statement(&mut self, fuel: u64) -> (r: Result<Stmt, ParserError>)
        requires
            old(self).wf(),
        ensures
            final(self).tokens == old(self).tokens,
            final(self).wf(),
            match r {
                Ok(st) => sp_for_statement(
                    old(self).toks(),
                    old(self).index as int,
                    old(self).next_id,
                    fuel,
                ) == Parsed::Done(st@, final(self).index as int, final(self).next_id),
                Err(er) => sp_for_statement(
                    old(self).toks(),
                    old(self).index as int,
                    old(self).next_id,
                    fuel,
                ) == Parsed::<SpecStmt>::Fail(er@),
            },
        decreases fuel, 2int,
    {
        if fuel == 0 {
            return Err(ParserError::new(String::from_str("Program too deeply nested.")));
        }
        let clauses = self.for_clauses(fuel)?;
        let body = self.statement(fuel - 1)?;
        Ok(desugar_for(clauses.0, clauses.1, clauses.2, body))
    }

    #[verifier::rlimit(100)]
    fn statement(&mut self, fuel: u64) -> (r: Result<Stmt, ParserError>)
        requires
            old(self).wf(),
        ensures
            final(self).tokens == old(self).tokens,
            final(self).wf(),
            match r {
                Ok(st) => sp_statement(old(self).toks(), old(self).index as int, old(self).next_id, fuel)
                    == Parsed::Done(st@, final(self).index as int, final(self).next_id),
                Err(er) => sp_statement(old(self).toks(), old(self).index as int, old(self).next_id, fuel)
                    == Parsed::<SpecStmt>::Fail(er@),
            },
        decreases fuel, 3int,
    {
        if fuel == 0 {
            return Err(ParserError::new(String::from_str("Program too deeply nested.")));
        }
        if self.take(TokenType::For) {
            return self.for_statement(fuel - 1);
        }
        if self.take(TokenType::If) {
            return self.if_statement(fuel - 1);
        }
        if self.take(TokenType::Print) {
            return self.print_statement(fuel - 1);
        }
        if self.take(TokenType::Return) {
            let keyword = self.previous();
            return self.return_statement(keyword, fuel - 1);
        }
        if self.take(TokenType::While) {
            return self.while_statement(fuel - 1);
        }
        if self.take(TokenType::LeftBrace) {
            let ss = self.block(fuel - 1)?;
            return Ok(Stmt::Block(Block::new(ss)));
        }
        self.expression_statement(fuel - 1)
    }

    fn declaration(&mut self, fuel: u64) -> (r: Result<Stmt, ParserError>)
        requires
            old(self).wf(),
        ensures
            final(self).tokens == old(self).tokens,
            final(self).wf(),
            match r {
                Ok(st) => sp_declaration(
                    old(self).toks(),
                    old(self).index as int,
                    old(self).next_id,
                    fuel,
                ) == Parsed::Done(st@, final(self).index as int, final(self).next_id),
                Err(er) => sp_declaration(
                    old(self).toks(),
                    old(self).index as int,
                    old(self).next_id,
                    fuel,
                ) == Parsed::<SpecStmt>::Fail(er@),
            },
        decreases fuel, 4int,
    {
        if fuel == 0 {
            return Err(ParserError::new(String::from_str("Program too deeply nested.")));
        }
        if self.take(TokenType::Fun) {
            return self.function(fuel - 1);
        }
        if self.take(TokenType::Var) {
            return self.var_declaration(fuel - 1);
        }
        self.statement(fuel - 1)
    }

    fn program_rest(&mut self, sofar: Vec<Stmt>, fuel: u64) -> (r: Result<Vec<Stmt>, ParserError>)
        requires
            old(self).wf(),
        ensures
            final(self).tokens == old(self).tokens,
            final(self).wf(),
            match r {
                Ok(ss) => sp_program(
                    old(self).toks(),
                    old(self).index as int,
                    old(self).next_id,
                    stmts_view(sofar@),
                    fuel,
                ) == Parsed::Done(stmts_view(ss@), final(self).index as int, final(self).next_id),
                Err(er) => sp_program(
                    old(self).toks(),
                    old(self).index as int,
                    old(self).next_id,
                    stmts_view(sofar@),
                    fuel,
                ) == Parsed::<Seq<SpecStmt>>::Fail(er@),
            },
        decreases fuel, 0int,
    {
        if fuel == 0 {
            return Err(ParserError::new(String::from_str("Program too deeply nested.")));
        }
        if self.is_end() {
            return Ok(sofar);
        }
        let before_index = self.index;
        let mut ss = sofar;
        let ghost views = stmts_view(ss@);
        let s = self.declaration(fuel - 1)?;
        if self.index <= before_index {
            return Err(ParserError::new(String::from_str("Expect expression.")));
        }
        ss.push(s);
        proof {
            assert(ss@.drop_last() =~= sofar@);
            assert(stmts_view(ss@) =~= views.push(ss@.last()@));
        }
        self.program_rest(ss, fuel - 1)
    }

    /// Parses the whole token stream into statements.
    pub fn parse(&mut self) -> (r: Result<Vec<Stmt>, ParserError>)
        requires
            old(self).wf(),
        ensures
            final(self).tokens == old(self).tokens,
            final(self).wf(),
            match r {
                Ok(ss) => sp_program(
                    old(self).toks(),
                    old(self).index as int,
                    old(self).next_id,
                    Seq::empty(),
                    PARSE_FUEL,
                ) == Parsed::Done(stmts_view(ss@), final(self).index as int, final(self).next_id),
                Err(er) => sp_program(
                    old(self).toks(),
                    old(self).index as int,
                    old(self).next_id,
                    Seq::empty(),
                    PARSE_FUEL,
                ) == Parsed::<Seq<SpecStmt>>::Fail(er@),
            },
            (old(self).index == 0 && old(self).next_id == 0) ==> match r {
                Ok(ss) => spec_parse(old(self).toks()) == Ok::<Seq<SpecStmt>, Seq<char>>(
                    stmts_view(ss@),
                ),
                Err(er) => spec_parse(old(self).toks()) == Err::<Seq<SpecStmt>, Seq<char>>(er@),
            },
    {
        let ss: Vec<Stmt> = Vec::new();
        proof {
            assert(stmts_view(ss@) =~= Seq::<SpecStmt>::empty());
        }
        self.program_rest(ss, PARSE_FUEL)
    }

    /// Fast-forwards to a statement boundary after an error: just past
    /// a semicolon, or to a keyword that begins a statement.
    pub fn synchronize(&mut self)
        requires
            old(self).wf(),
        ensures
            final(self).tokens == old(self).tokens,
            final(self).next_id == old(self).next_id,
            final(self).wf(),
            final(self).index as int == sp_synchronize(old(self).toks(), old(self).index as int),
    {
        proof {
            assert(self.toks().len() == self.tokens@.len());
        }
        if self.index < self.tokens.len() {
            self.index = self.index + 1;
        } else {
            return;
        }
        while self.index < self.tokens.len()
            invariant
                self.wf(),
                self.tokens == old(self).tokens,
                self.next_id == old(self).next_id,
                1 <= self.index,
                sp_sync_from(self.toks(), self.index as int) == sp_synchronize(
                    old(self).toks(),
                    old(self).index as int,
                ),
            decreases self.tokens@.len() - self.index,
        {
            proof {
                assert(self.toks().len() == self.tokens@.len());
            }
            let prev = self.previous();
            if prev.token_type() == TokenType::Semicolon {
                return;
            }
            let here = self.tokens[self.index].clone();
            match here.token_type() {
                TokenType::Class => return,
                TokenType::Fun => return,
                TokenType::For => return,
                TokenType::If => return,
                TokenType::Var => return,
                TokenType::While => return,
                TokenType::Print => return,
                TokenType::Return => return,
                _ => {},
            }
            self.index = self.index + 1;
        }
    }
}

} // verus!
