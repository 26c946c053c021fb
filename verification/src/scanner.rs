//! Lexical analysis: source text to tokens.
use vstd::prelude::*;
use crate::token::{tokens_view, SpecToken, Token, TokenType};

verus! {

use vstd::std_specs::iter::IteratorSpec;
use vstd::string::StringExecFns;

/// An unexpected character, with the line it stands on.
#[derive(Debug, PartialEq)]
pub struct ParserError {
    pub line: u32,
    pub character: char,
}

/// The mathematical value of a scan error.
pub struct SpecScanError {
    pub line: u32,
    pub character: char,
}

impl View for ParserError {
    type V = SpecScanError;

    open spec fn view(&self) -> SpecScanError {
        SpecScanError { line: self.line, character: self.character }
    }
}

impl ParserError {
    pub fn new(line: u32, character: char) -> (r: ParserError)
        ensures
            r@ == (SpecScanError { line, character }),
    {
        ParserError { line, character }
    }

    pub fn line(&self) -> (r: u32)
        ensures
            r == self@.line,
    {
        self.line
    }
}

pub open spec fn spec_is_digit(c: char) -> bool {
    48 <= c as u32 <= 57
}

pub open spec fn spec_is_alpha(c: char) -> bool {
    (65 <= c as u32 <= 90) || (97 <= c as u32 <= 122) || c == '_'
}

pub open spec fn spec_is_ident_continue(c: char) -> bool {
    (65 <= c as u32 <= 90) || (97 <= c as u32 <= 122) || spec_is_digit(c)
}

fn is_digit(c: char) -> (r: bool)
    ensures
        r == spec_is_digit(c),
{
    let u = c as u32;
    48 <= u && u <= 57
}

fn is_alpha(c: char) -> (r: bool)
    ensures
        r == spec_is_alpha(c),
{
    let u = c as u32;
    (65 <= u && u <= 90) || (97 <= u && u <= 122) || c == '_'
}

fn is_ident_continue(c: char) -> (r: bool)
    ensures
        r == spec_is_ident_continue(c),
{
    let u = c as u32;
    (65 <= u && u <= 90) || (97 <= u && u <= 122) || (48 <= u && u <= 57)
}

/// The kind an identifier lexeme scans to: a keyword kind where the
/// lexeme is a reserved word, `Identifier` otherwise.
pub open spec fn spec_keyword(lex: Seq<char>) -> TokenType {
    if lex == "and"@ {
        TokenType::And
    } else if lex == "class"@ {
        TokenType::Class
    } else if lex == "else"@ {
        TokenType::Else
    } else if lex == "false"@ {
        TokenType::False
    } else if lex == "for"@ {
        TokenType::For
    } else if lex == "fun"@ {
        TokenType::Fun
    } else if lex == "if"@ {
        TokenType::If
    } else if lex == "nil"@ {
        TokenType::Nil
    } else if lex == "or"@ {
        TokenType::Or
    } else if lex == "print"@ {
        TokenType::Print
    } else if lex == "return"@ {
        TokenType::Return
    } else if lex == "super"@ {
        TokenType::Super
    } else if lex == "this"@ {
        TokenType::This
    } else if lex == "true"@ {
        TokenType::True
    } else if lex == "var"@ {
        TokenType::Var
    } else if lex == "while"@ {
        TokenType::While
    } else {
        TokenType::Identifier
    }
}

fn lit_eq(s: &String, lit: &str) -> (r: bool)
    ensures
        r == (s@ == lit@),
{
    String::from_str(lit).eq(s)
}

fn keyword_or_identifier(lex: &String) -> (t: TokenType)
    ensures
        t == spec_keyword(lex@),
{
    if lit_eq(lex, "and") {
        TokenType::And
    } else if lit_eq(lex, "class") {
        TokenType::Class
    } else if lit_eq(lex, "else") {
        TokenType::Else
    } else if lit_eq(lex, "false") {
        TokenType::False
    } else if lit_eq(lex, "for") {
        TokenType::For
    } else if lit_eq(lex, "fun") {
        TokenType::Fun
    } else if lit_eq(lex, "if") {
        TokenType::If
    } else if lit_eq(lex, "nil") {
        TokenType::Nil
    } else if lit_eq(lex, "or") {
        TokenType::Or
    } else if lit_eq(lex, "print") {
        TokenType::Print
    } else if lit_eq(lex, "return") {
        TokenType::Return
    } else if lit_eq(lex, "super") {
        TokenType::Super
    } else if lit_eq(lex, "this") {
        TokenType::This
    } else if lit_eq(lex, "true") {
        TokenType::True
    } else if lit_eq(lex, "var") {
        TokenType::Var
    } else if lit_eq(lex, "while") {
        TokenType::While
    } else {
        TokenType::Identifier
    }
}

/// Lines saturate rather than wrap at the top of the counter's range.
pub open spec fn bump_line(line: u32) -> u32 {
    if line < 0xFFFF_FFFF {
        (line + 1) as u32
    } else {
        line
    }
}

/// The index just past a line comment's text: the next newline, or the
/// end of the source.  The newline itself is left for the main scan.
pub open spec fn comment_end(src: Seq<char>, j: int) -> int
    decreases src.len() - j,
{
    if j < 0 || j >= src.len() {
        src.len() as int
    } else if src[j] == '\n' {
        j
    } else {
        comment_end(src, j + 1)
    }
}

/// The index of the closing quote of a string body starting at `j`, or
/// the end of the source when the string is unterminated.
pub open spec fn string_end(src: Seq<char>, j: int) -> int
    decreases src.len() - j,
{
    if j < 0 || j >= src.len() {
        src.len() as int
    } else if src[j] == '"' {
        j
    } else {
        string_end(src, j + 1)
    }
}

/// The index just past a run of digits starting at `j`.
pub open spec fn digits_end(src: Seq<char>, j: int) -> int
    decreases src.len() - j,
{
    if 0 <= j < src.len() && spec_is_digit(src[j]) {
        digits_end(src, j + 1)
    } else {
        j
    }
}

/// The index just past a number lexeme whose first digit stands
/// before `j`: the integer digits, and a fractional part only when a
/// digit follows the dot.
pub open spec fn number_end(src: Seq<char>, j: int) -> int {
    let whole = digits_end(src, j);
    if whole + 1 < src.len() && src[whole] == '.' && spec_is_digit(src[whole + 1]) {
        digits_end(src, whole + 2)
    } else {
        whole
    }
}

/// The index just past a run of identifier characters starting at `j`.
pub open spec fn ident_end(src: Seq<char>, j: int) -> int
    decreases src.len() - j,
{
    if 0 <= j < src.len() && spec_is_ident_continue(src[j]) {
        ident_end(src, j + 1)
    } else {
        j
    }
}

/// What one scanning step at position `i` does.
pub enum SpecStep {
    /// A token, the position after it, and the line after it.
    Emit(SpecToken, int, u32),
    /// Nothing to keep; the position and line to continue from.
    Skip(int, u32),
    /// An unexpected character on its line.
    Fail(u32, char),
}

pub open spec fn tk(lexeme: Seq<char>, token_type: TokenType) -> SpecToken {
    SpecToken { lexeme, token_type }
}

/// One step of the scanner: consumes at least the character at `i`.
pub open spec fn spec_step(src: Seq<char>, i: int, line: u32) -> SpecStep {
    let c = src[i];
    if c == '(' {
        SpecStep::Emit(tk("("@, TokenType::LeftParen), i + 1, line)
    } else if c == ')' {
        SpecStep::Emit(tk(")"@, TokenType::RightParen), i + 1, line)
    } else if c == '{' {
        SpecStep::Emit(tk("{"@, TokenType::LeftBrace), i + 1, line)
    } else if c == '}' {
        SpecStep::Emit(tk("}"@, TokenType::RightBrace), i + 1, line)
    } else if c == ',' {
        SpecStep::Emit(tk(","@, TokenType::Comma), i + 1, line)
    } else if c == '.' {
        SpecStep::Emit(tk("."@, TokenType::Dot), i + 1, line)
    } else if c == '-' {
        SpecStep::Emit(tk("-"@, TokenType::Minus), i + 1, line)
    } else if c == '+' {
        SpecStep::Emit(tk("+"@, TokenType::Plus), i + 1, line)
    } else if c == ';' {
        SpecStep::Emit(tk(";"@, TokenType::Semicolon), i + 1, line)
    } else if c == '*' {
        SpecStep::Emit(tk("*"@, TokenType::Star), i + 1, line)
    } else if c == '!' {
        if i + 1 < src.len() && src[i + 1] == '=' {
            SpecStep::Emit(tk("!="@, TokenType::BangEqual), i + 2, line)
        } else {
            SpecStep::Emit(tk("!"@, TokenType::Bang), i + 1, line)
        }
    } else if c == '=' {
        if i + 1 < src.len() && src[i + 1] == '=' {
            SpecStep::Emit(tk("=="@, TokenType::EqualEqual), i + 2, line)
        } else {
            SpecStep::Emit(tk("="@, TokenType::Equal), i + 1, line)
        }
    } else if c == '<' {
        if i + 1 < src.len() && src[i + 1] == '=' {
            SpecStep::Emit(tk("<="@, TokenType::LessEqual), i + 2, line)
        } else {
            SpecStep::Emit(tk("<"@, TokenType::Less), i + 1, line)
        }
    } else if c == '>' {
        if i + 1 < src.len() && src[i + 1] == '=' {
            SpecStep::Emit(tk(">="@, TokenType::GreaterEqual), i + 2, line)
        } else {
            SpecStep::Emit(tk(">"@, TokenType::Greater), i + 1, line)
        }
    } else if c == '/' {
        if i + 1 < src.len() && src[i + 1] == '/' {
            SpecStep::Skip(comment_end(src, i + 2), line)
        } else {
            SpecStep::Emit(tk("/"@, TokenType::Slash), i + 1, line)
        }
    } else if c == ' ' || c == '\t' || c == '\r' {
        SpecStep::Skip(i + 1, line)
    } else if c == '\n' {
        SpecStep::Skip(i + 1, bump_line(line))
    } else if c == '"' {
        let close = string_end(src, i + 1);
        let after = if close < src.len() {
            close + 1
        } else {
            close
        };
        SpecStep::Emit(tk(src.subrange(i + 1, close), TokenType::String), after, line)
    } else if spec_is_digit(c) {
        let end = number_end(src, i + 1);
        SpecStep::Emit(tk(src.subrange(i, end), TokenType::Number), end, line)
    } else if spec_is_alpha(c) {
        let end = ident_end(src, i + 1);
        SpecStep::Emit(
            tk(src.subrange(i, end), spec_keyword(src.subrange(i, end))),
            end,
            line,
        )
    } else {
        SpecStep::Fail(line, c)
    }
}

pub open spec fn eof_token() -> SpecToken {
    SpecToken { lexeme: Seq::empty(), token_type: TokenType::Eof }
}

/// The tokens of the source from position `i` on, ending in the
/// end-of-file token, or the first unexpected character.
pub open spec fn spec_scan_from(src: Seq<char>, i: int, line: u32) -> Result<
    Seq<SpecToken>,
    SpecScanError,
>
    decreases src.len() - i,
{
    if i < 0 || i >= src.len() {
        Ok(seq![eof_token()])
    } else {
        match spec_step(src, i, line) {
            SpecStep::Emit(t, j, l) => if i < j <= src.len() {
                match spec_scan_from(src, j, l) {
                    Ok(rest) => Ok(seq![t] + rest),
                    Err(e) => Err(e),
                }
            } else {
                Err(SpecScanError { line, character: src[i] })
            },
            SpecStep::Skip(j, l) => if i < j <= src.len() {
                spec_scan_from(src, j, l)
            } else {
                Err(SpecScanError { line, character: src[i] })
            },
            SpecStep::Fail(l, c) => Err(SpecScanError { line: l, character: c }),
        }
    }
}

/// The token stream of a whole source text.
pub open spec fn spec_scan(src: Seq<char>) -> Result<Seq<SpecToken>, SpecScanError> {
    spec_scan_from(src, 0, 0)
}

/// The characters of a string, in order.
pub fn chars_of(s: &str) -> (v: Vec<char>)
    ensures
        v@ == s@,
{
    broadcast use vstd::string::next_postcondition;
    broadcast use vstd::string::axiom_spec_iter;

    let mut it = s.chars();
    let mut v: Vec<char> = Vec::new();
    loop
        invariant
            it.obeys_prophetic_iter_laws(),
            v@ + IteratorSpec::remaining(&it) == s@,
        decreases s@.len() - v@.len(),
    {
        let ghost pre = it;
        match it.next() {
            Some(c) => {
                proof {
                    assert(IteratorSpec::remaining(&pre).len() > 0);
                }
                v.push(c);
            },
            None => {
                proof {
                    assert(IteratorSpec::remaining(&pre).len() == 0);
                    assert(v@ =~= s@);
                }
                return v;
            },
        }
        proof {
            assert(v@ + IteratorSpec::remaining(&it) =~= s@);
        }
    }
}

/// Relies on `String::from_iter` (via `collect`): the string holds
/// exactly the characters of the slice, in order.
#[verifier::external_body]
pub fn chars_to_string(v: &[char]) -> (s: String)
    ensures
        s@ == v@,
{
    v.iter().collect()
}

/// Copies `chars[from .. to]` into a string.
fn substring(chars: &Vec<char>, from: usize, to: usize) -> (s: String)
    requires
        from <= to <= chars@.len(),
    ensures
        s@ == chars@.subrange(from as int, to as int),
{
    let mut sub: Vec<char> = Vec::new();
    let mut j = from;
    while j < to
        invariant
            from <= j <= to <= chars@.len(),
            sub@ == chars@.subrange(from as int, j as int),
        decreases to - j,
    {
        sub.push(chars[j]);
        proof {
            assert(sub@ =~= chars@.subrange(from as int, j + 1));
        }
        j = j + 1;
    }
    chars_to_string(sub.as_slice())
}

/// Scans a string literal's body; `*i` stands just past the opening
/// quote and ends just past the closing quote (or at the end of the
/// source when unterminated).
fn scan_string(chars: &Vec<char>, i: &mut usize) -> (lexeme: String)
    requires
        *old(i) <= chars@.len(),
    ensures
        ({
            let close = string_end(chars@, *old(i) as int);
            &&& *old(i) <= close <= chars@.len()
            &&& lexeme@ == chars@.subrange(*old(i) as int, close)
            &&& *final(i) == if close < chars@.len() {
                close + 1
            } else {
                close
            }
        }),
{
    let start = *i;
    let mut j = *i;
    while j < chars.len() && chars[j] != '"'
        invariant
            start <= j <= chars@.len(),
            string_end(chars@, start as int) == string_end(chars@, j as int),
            forall|k: int| start <= k < j ==> chars@[k] != '"',
        decreases chars@.len() - j,
    {
        j = j + 1;
    }
    proof {
        assert(string_end(chars@, j as int) == j);
    }
    let lexeme = substring(chars, start, j);
    if j < chars.len() {
        *i = j + 1;
    } else {
        *i = j;
    }
    lexeme
}

/// Scans a run of digits from `*i` on.
fn scan_digits(chars: &Vec<char>, i: &mut usize) -> (end: usize)
    requires
        *old(i) <= chars@.len(),
    ensures
        end == digits_end(chars@, *old(i) as int),
        *final(i) == end,
        *old(i) <= end <= chars@.len(),
{
    let mut j = *i;
    while j < chars.len() && is_digit(chars[j])
        invariant
            *old(i) <= j <= chars@.len(),
            digits_end(chars@, *old(i) as int) == digits_end(chars@, j as int),
        decreases chars@.len() - j,
    {
        j = j + 1;
    }
    proof {
        assert(digits_end(chars@, j as int) == j);
    }
    *i = j;
    j
}

/// Scans the rest of a number whose first digit stands at `*i - 1`:
/// the remaining digits, then a fractional part only when a digit
/// follows the dot.
fn scan_number(chars: &Vec<char>, i: &mut usize) -> (end: usize)
    requires
        *old(i) <= chars@.len(),
    ensures
        end == number_end(chars@, *old(i) as int),
        *final(i) == end,
        *old(i) <= end <= chars@.len(),
{
    let whole = scan_digits(chars, i);
    let n = chars.len();
    if whole < n && whole + 1 < n && chars[whole] == '.' && is_digit(chars[whole + 1]) {
        *i = whole + 2;
        scan_digits(chars, i)
    } else {
        whole
    }
}

/// Scans the rest of an identifier whose first character stands at
/// `*i - 1`.
fn scan_identifier(chars: &Vec<char>, i: &mut usize) -> (end: usize)
    requires
        *old(i) <= chars@.len(),
    ensures
        end == ident_end(chars@, *old(i) as int),
        *final(i) == end,
        *old(i) <= end <= chars@.len(),
{
    let mut j = *i;
    while j < chars.len() && is_ident_continue(chars[j])
        invariant
            *old(i) <= j <= chars@.len(),
            ident_end(chars@, *old(i) as int) == ident_end(chars@, j as int),
        decreases chars@.len() - j,
    {
        j = j + 1;
    }
    proof {
        assert(ident_end(chars@, j as int) == j);
    }
    *i = j;
    j
}

/// One scanning step; consumes at least one character.
fn scan_token(chars: &Vec<char>, i: &mut usize, line: &mut u32) -> (r: Result<
    Option<Token>,
    ParserError,
>)
    requires
        *old(i) < chars@.len(),
    ensures
        *old(i) < *final(i) <= chars@.len(),
        match spec_step(chars@, *old(i) as int, *old(line)) {
            SpecStep::Emit(t, j, l) => r matches Ok(Some(tok)) && tok@ == t && *final(i) == j
                && *final(line) == l,
            SpecStep::Skip(j, l) => r matches Ok(None) && *final(i) == j && *final(line) == l,
            SpecStep::Fail(l, c) => r matches Err(e) && e@ == (SpecScanError {
                line: l,
                character: c,
            }),
        },
{
    let n = chars.len();
    let c = chars[*i];
    if c == '(' {
        *i = *i + 1;
        Ok(Some(Token::new(String::from_str("("), TokenType::LeftParen)))
    } else if c == ')' {
        *i = *i + 1;
        Ok(Some(Token::new(String::from_str(")"), TokenType::RightParen)))
    } else if c == '{' {
        *i = *i + 1;
        Ok(Some(Token::new(String::from_str("{"), TokenType::LeftBrace)))
    } else if c == '}' {
        *i = *i + 1;
        Ok(Some(Token::new(String::from_str("}"), TokenType::RightBrace)))
    } else if c == ',' {
        *i = *i + 1;
        Ok(Some(Token::new(String::from_str(","), TokenType::Comma)))
    } else if c == '.' {
        *i = *i + 1;
        Ok(Some(Token::new(String::from_str("."), TokenType::Dot)))
    } else if c == '-' {
        *i = *i + 1;
        Ok(Some(Token::new(String::from_str("-"), TokenType::Minus)))
    } else if c == '+' {
        *i = *i + 1;
        Ok(Some(Token::new(String::from_str("+"), TokenType::Plus)))
    } else if c == ';' {
        *i = *i + 1;
        Ok(Some(Token::new(String::from_str(";"), TokenType::Semicolon)))
    } else if c == '*' {
        *i = *i + 1;
        Ok(Some(Token::new(String::from_str("*"), TokenType::Star)))
    } else if c == '!' {
        if *i + 1 < chars.len() && chars[*i + 1] == '=' {
            *i = *i + 2;
            Ok(Some(Token::new(String::from_str("!="), TokenType::BangEqual)))
        } else {
            *i = *i + 1;
            Ok(Some(Token::new(String::from_str("!"), TokenType::Bang)))
        }
    } else if c == '=' {
        if *i + 1 < chars.len() && chars[*i + 1] == '=' {
            *i = *i + 2;
            Ok(Some(Token::new(String::from_str("=="), TokenType::EqualEqual)))
        } else {
            *i = *i + 1;
            Ok(Some(Token::new(String::from_str("="), TokenType::Equal)))
        }
    } else if c == '<' {
        if *i + 1 < chars.len() && chars[*i + 1] == '=' {
            *i = *i + 2;
            Ok(Some(Token::new(String::from_str("<="), TokenType::LessEqual)))
        } else {
            *i = *i + 1;
            Ok(Some(Token::new(String::from_str("<"), TokenType::Less)))
        }
    } else if c == '>' {
        if *i + 1 < chars.len() && chars[*i + 1] == '=' {
            *i = *i + 2;
            Ok(Some(Token::new(String::from_str(">="), TokenType::GreaterEqual)))
        } else {
            *i = *i + 1;
            Ok(Some(Token::new(String::from_str(">"), TokenType::Greater)))
        }
    } else if c == '/' {
        if *i + 1 < chars.len() && chars[*i + 1] == '/' {
            // A comment: skip to the newline, which the caller counts.
            let mut j = *i + 2;
            while j < chars.len() && chars[j] != '\n'
                invariant
                    *old(i) + 2 <= j <= chars@.len(),
                    comment_end(chars@, *old(i) + 2) == comment_end(chars@, j as int),
                decreases chars@.len() - j,
            {
                j = j + 1;
            }
            proof {
                assert(comment_end(chars@, j as int) == j);
            }
            *i = j;
            Ok(None)
        } else {
            *i = *i + 1;
            Ok(Some(Token::new(String::from_str("/"), TokenType::Slash)))
        }
    } else if c == ' ' || c == '\t' || c == '\r' {
        *i = *i + 1;
        Ok(None)
    } else if c == '\n' {
        *i = *i + 1;
        if *line < 0xFFFF_FFFF {
            *line = *line + 1;
        }
        Ok(None)
    } else if c == '"' {
        *i = *i + 1;
        let lexeme = scan_string(chars, i);
        Ok(Some(Token::new(lexeme, TokenType::String)))
    } else if is_digit(c) {
        let start = *i;
        *i = *i + 1;
        let end = scan_number(chars, i);
        let lexeme = substring(chars, start, end);
        Ok(Some(Token::new(lexeme, TokenType::Number)))
    } else if is_alpha(c) {
        let start = *i;
        *i = *i + 1;
        let end = scan_identifier(chars, i);
        let lexeme = substring(chars, start, end);
        let kind = keyword_or_identifier(&lexeme);
        Ok(Some(Token::new(lexeme, kind)))
    } else {
        *i = *i + 1;
        Err(ParserError::new(*line, c))
    }
}

/// The scanner: holds the source text and walks it once.
pub struct Scanner {
    pub source: String,
}

impl Scanner {
    pub fn new(source: String) -> (r: Scanner)
        ensures
            r.source@ == source@,
    {
        Scanner { source }
    }

    /// Scans the whole source into tokens ending in an end-of-file
    /// token, or reports the first unexpected character.
    pub fn scan(&self) -> (r: Result<Vec<Token>, ParserError>)
        ensures
            match r {
                Ok(ts) => spec_scan(self.source@) == Ok::<Seq<SpecToken>, SpecScanError>(
                    tokens_view(ts@),
                ),
                Err(e) => spec_scan(self.source@) == Err::<Seq<SpecToken>, SpecScanError>(e@),
            },
    {
        let chars = chars_of(self.source.as_str());
        let mut tokens: Vec<Token> = Vec::new();
        let mut i: usize = 0;
        let mut line: u32 = 0;
        while i < chars.len()
            invariant
                i <= chars@.len(),
                chars@ == self.source@,
                match spec_scan_from(chars@, i as int, line) {
                    Ok(rest) => spec_scan(self.source@) == Ok::<Seq<SpecToken>, SpecScanError>(
                        tokens_view(tokens@) + rest,
                    ),
                    Err(e) => spec_scan(self.source@) == Err::<Seq<SpecToken>, SpecScanError>(e),
                },
            decreases chars@.len() - i,
        {
            let ghost pre_i = i as int;
            let ghost pre_line = line;
            let ghost pre_tokens = tokens@;
            match scan_token(&chars, &mut i, &mut line) {
                Ok(Some(token)) => {
                    tokens.push(token);
                    proof {
                        let step = spec_step(chars@, pre_i, pre_line);
                        assert(tokens_view(tokens@) =~= tokens_view(pre_tokens).push(
                            tokens@.last()@,
                        ));
                        match spec_scan_from(chars@, i as int, line) {
                            Ok(rest) => {
                                assert(tokens_view(pre_tokens) + (seq![tokens@.last()@] + rest)
                                    =~= tokens_view(tokens@) + rest);
                            },
                            Err(_) => {},
                        }
                    }
                },
                Ok(None) => {},
                Err(e) => {
                    return Err(e);
                },
            }
        }
        let ghost pre_tokens = tokens@;
        tokens.push(Token::new(String::new(), TokenType::Eof));
        proof {
            assert(spec_scan_from(chars@, i as int, line) == Ok::<Seq<SpecToken>, SpecScanError>(
                seq![eof_token()],
            ));
            assert(tokens@.last()@ == eof_token());
            assert(tokens_view(tokens@) =~= tokens_view(pre_tokens) + seq![eof_token()]);
        }
        Ok(tokens)
    }
}

} // verus!
