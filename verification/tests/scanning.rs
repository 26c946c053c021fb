//! The scanner and parser on their own.
use lox::parser::Parser;
use lox::scanner::Scanner;
use lox::stmt::Stmt;
use lox::token::TokenType;

fn kinds(source: &str) -> Vec<TokenType> {
    let scanner = Scanner::new(source.to_string());
    let tokens = scanner.scan().unwrap();
    tokens.iter().map(|t| t.token_type()).collect()
}

#[test]
fn scans_single_and_double_character_operators() {
    assert_eq!(
        kinds("(){},.-+;*/! != = == > >= < <="),
        vec![
            TokenType::LeftParen,
            TokenType::RightParen,
            TokenType::LeftBrace,
            TokenType::RightBrace,
            TokenType::Comma,
            TokenType::Dot,
            TokenType::Minus,
            TokenType::Plus,
            TokenType::Semicolon,
            TokenType::Star,
            TokenType::Slash,
            TokenType::Bang,
            TokenType::BangEqual,
            TokenType::Equal,
            TokenType::EqualEqual,
            TokenType::Greater,
            TokenType::GreaterEqual,
            TokenType::Less,
            TokenType::LessEqual,
            TokenType::Eof,
        ]
    );
}

#[test]
fn scans_keywords_and_identifiers() {
    assert_eq!(
        kinds("and class else false for fun if nil or print return super this true var while andy"),
        vec![
            TokenType::And,
            TokenType::Class,
            TokenType::Else,
            TokenType::False,
            TokenType::For,
            TokenType::Fun,
            TokenType::If,
            TokenType::Nil,
            TokenType::Or,
            TokenType::Print,
            TokenType::Return,
            TokenType::Super,
            TokenType::This,
            TokenType::True,
            TokenType::Var,
            TokenType::While,
            TokenType::Identifier,
            TokenType::Eof,
        ]
    );
}

#[test]
fn string_lexeme_holds_the_inner_characters() {
    let scanner = Scanner::new("\"hello world\"".to_string());
    let tokens = scanner.scan().unwrap();
    assert_eq!(tokens[0].token_type(), TokenType::String);
    assert_eq!(tokens[0].lexeme(), "hello world");
}

#[test]
fn number_lexeme_is_the_digit_run() {
    let scanner = Scanner::new("1234 56".to_string());
    let tokens = scanner.scan().unwrap();
    assert_eq!(tokens[0].lexeme(), "1234");
    assert_eq!(tokens[1].lexeme(), "56");
}

#[test]
fn comment_runs_to_end_of_line() {
    assert_eq!(
        kinds("1 // 2 + 3 ( ignored\n4"),
        vec![TokenType::Number, TokenType::Number, TokenType::Eof]
    );
}

#[test]
fn newlines_advance_the_error_line() {
    let scanner = Scanner::new("ok\nok\n%".to_string());
    let e = scanner.scan().unwrap_err();
    assert_eq!(e.line(), 2);
    assert_eq!(e.character, '%');
}

#[test]
fn parses_a_print_statement() {
    let scanner = Scanner::new("print 1;".to_string());
    let tokens = scanner.scan().unwrap();
    let mut parser = Parser::new(tokens);
    let statements = parser.parse().unwrap();
    assert_eq!(statements.len(), 1);
    assert!(matches!(statements[0], Stmt::Print(_)));
}

#[test]
fn for_desugars_into_a_block_with_a_while() {
    let scanner = Scanner::new("for (var i = 0; i < 3; i = i + 1) print i;".to_string());
    let tokens = scanner.scan().unwrap();
    let mut parser = Parser::new(tokens);
    let statements = parser.parse().unwrap();
    assert_eq!(statements.len(), 1);
    match &statements[0] {
        Stmt::Block(b) => {
            let inner = b.statements();
            assert_eq!(inner.len(), 2);
            assert!(matches!(inner[0], Stmt::Var { .. }));
            match &inner[1] {
                Stmt::While { body, .. } => assert!(matches!(**body, Stmt::Block(_))),
                other => panic!("expected a while, got {:?}", other),
            }
        },
        other => panic!("expected a block, got {:?}", other),
    }
}

#[test]
fn missing_call_paren_is_a_parse_error() {
    let scanner = Scanner::new("f(1;".to_string());
    let tokens = scanner.scan().unwrap();
    let mut parser = Parser::new(tokens);
    let e = parser.parse().unwrap_err();
    assert_eq!(e.description, "Expect ')' after arguments");
}

#[test]
fn variable_and_assign_nodes_get_distinct_identifiers() {
    let scanner = Scanner::new("a; b; a = b;".to_string());
    let tokens = scanner.scan().unwrap();
    let mut parser = Parser::new(tokens);
    let statements = parser.parse().unwrap();
    let mut seen: Vec<u64> = Vec::new();
    for s in &statements {
        if let Stmt::Expression(e) = s {
            collect_ids(e, &mut seen);
        }
    }
    assert_eq!(seen.len(), 4);
    for i in 0..seen.len() {
        for j in 0..i {
            assert_ne!(seen[i], seen[j]);
        }
    }
}

fn collect_ids(e: &lox::expr::Expr, out: &mut Vec<u64>) {
    match e {
        lox::expr::Expr::Variable { id, .. } => out.push(*id),
        lox::expr::Expr::Assign { id, value, .. } => {
            collect_ids(value, out);
            out.push(*id);
        },
        _ => {},
    }
}

#[test]
fn fractional_lexeme_keeps_its_dot_when_a_digit_follows() {
    let scanner = Scanner::new("12.75 3. .5".to_string());
    let tokens = scanner.scan().unwrap();
    assert_eq!(tokens[0].token_type(), TokenType::Number);
    assert_eq!(tokens[0].lexeme(), "12.75");
    assert_eq!(tokens[1].lexeme(), "3");
    assert_eq!(tokens[2].token_type(), TokenType::Dot);
    assert_eq!(tokens[3].token_type(), TokenType::Dot);
    assert_eq!(tokens[4].lexeme(), "5");
}
