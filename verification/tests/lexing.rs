use coco::lexer::{Lexer, TokenType};
use coco::parser::Parser;
use coco::Resolver;

fn lex(source: &str) -> Lexer {
    let resolver = Resolver::new("test".to_owned(), source.to_owned());
    let mut lexer = Lexer::new(source, &resolver);
    lexer.analyse().unwrap();
    lexer
}

#[test]
fn keywords_numbers_and_operators_tokenize() {
    let lexer = lex("let x = 1 + 2.5");
    let kinds: Vec<TokenType> = lexer.tokens.iter().map(|t| t.token_type).collect();
    assert_eq!(
        kinds,
        vec![
            TokenType::LET,
            TokenType::WORD,
            TokenType::EQUALS,
            TokenType::NUMBER,
            TokenType::PLUS,
            TokenType::NUMBER,
        ]
    );
    assert_eq!(lexer.tokens[1].text, "x");
    assert_eq!(lexer.tokens[3].text, "1");
    assert_eq!(lexer.tokens[5].text, "2.5");
}

#[test]
fn strings_and_comments_tokenize() {
    let lexer = lex("'hi' // trailing\n\"there\" /* block */ fun");
    let kinds: Vec<TokenType> = lexer.tokens.iter().map(|t| t.token_type).collect();
    assert_eq!(kinds, vec![TokenType::STRING, TokenType::STRING, TokenType::FUN]);
    assert_eq!(lexer.tokens[0].text, "hi");
    assert_eq!(lexer.tokens[1].text, "there");
}

#[test]
fn maximal_munch_prefers_longer_operators() {
    let lexer = lex("a == b ... c **= d");
    let kinds: Vec<TokenType> = lexer.tokens.iter().map(|t| t.token_type).collect();
    assert_eq!(
        kinds,
        vec![
            TokenType::WORD,
            TokenType::EQEQ,
            TokenType::WORD,
            TokenType::SPREAD,
            TokenType::WORD,
            TokenType::EXPONENTEQ,
            TokenType::WORD,
        ]
    );
}

#[test]
fn unterminated_string_is_an_error() {
    let resolver = Resolver::new("test".to_owned(), "'open".to_owned());
    let mut lexer = Lexer::new("'open", &resolver);
    let err = lexer.analyse().unwrap_err();
    assert_eq!(err.msg, "String did not close");
}

#[test]
fn second_decimal_point_is_an_error() {
    let resolver = Resolver::new("test".to_owned(), "1.2.3".to_owned());
    let mut lexer = Lexer::new("1.2.3", &resolver);
    let err = lexer.analyse().unwrap_err();
    assert_eq!(err.msg, "Invalid float");
}

#[test]
fn resolver_reports_line_and_column() {
    let resolver = Resolver::new("test".to_owned(), "ab\ncd".to_owned());
    assert_eq!(resolver.resolve_where(0), vec![1, 1]);
    assert_eq!(resolver.resolve_where(3), vec![2, 1]);
    assert_eq!(resolver.resolve_where(4), vec![2, 2]);
    assert_eq!(resolver.resolve_where(9), vec![0, 0]);
}

#[test]
fn parser_cursor_matches_and_consumes() {
    let lexer = lex("let x");
    let resolver = Resolver::new("test".to_owned(), "let x".to_owned());
    let mut parser = Parser::new(lexer.tokens, &resolver);
    assert!(!parser.match_token(TokenType::FUN));
    assert!(parser.match_token(TokenType::LET));
    let word = parser.consume_token(TokenType::WORD).unwrap();
    assert_eq!(word.text, "x");
    assert_eq!(parser.get_token(None).token_type, TokenType::EOF);
    let err = parser.consume_token(TokenType::WORD).unwrap_err();
    assert_eq!(err.msg, "Token did not match");
}

fn run_source(source: &str) -> (coco::types::Value, coco::scope::Scope, coco::interpreter::Io) {
    let resolver = Resolver::new("test".to_owned(), source.to_owned());
    let mut lexer = Lexer::new(source, &resolver);
    lexer.analyse().unwrap();
    let mut parser = Parser::new(lexer.tokens, &resolver);
    let program = parser.parse(100_000).unwrap();
    let mut scope = coco::scope::Scope::new("test".to_owned());
    let mut io = coco::interpreter::Io {
        args: vec![],
        input: vec![],
        in_pos: 0,
        output: vec![],
        entropy: vec![],
        ent_pos: 0,
    };
    let value = coco::interpreter::walk_tree(&program, &mut scope, &mut io, 100_000).unwrap();
    (value, scope, io)
}

#[test]
fn parses_and_runs_arithmetic() {
    let (_, scope, _) = run_source("let x = 1 + 2 * 3");
    match scope.get(&"x".to_owned()) {
        coco::types::Value::Number(b) => assert_eq!(b, 7.0f64.to_bits()),
        other => panic!("expected a number, got {:?}", other),
    }
}

#[test]
fn parses_and_runs_the_fallthrough_switch() {
    let source = "let x = 2 let r = switch (x) { case 1: case 2: return 'a' default: return 'b' }";
    let (_, scope, _) = run_source(source);
    match scope.get(&"r".to_owned()) {
        coco::types::Value::String(s) => assert_eq!(s, "a"),
        other => panic!("expected a string, got {:?}", other),
    }
}

#[test]
fn parses_and_runs_functions_and_loops() {
    let source = "fun double(n) { return n * 2 } let total = 0 for (v in [1, 2, 3]) { total += double(v) } log('total is $total')";
    let (_, scope, io) = run_source(source);
    match scope.get(&"total".to_owned()) {
        coco::types::Value::Number(b) => assert_eq!(b, 12.0f64.to_bits()),
        other => panic!("expected a number, got {:?}", other),
    }
    assert_eq!(io.output.len(), 1);
    assert!(io.output[0].starts_with("total is "));
}

#[test]
fn parses_field_access_and_objects() {
    let source = "let obj = { b: 5, a: [10, 20] } let v = obj.a[1] obj.a[0] = 7 let w = obj.a[0]";
    let (_, scope, _) = run_source(source);
    match scope.get(&"v".to_owned()) {
        coco::types::Value::Number(b) => assert_eq!(b, 20.0f64.to_bits()),
        other => panic!("expected a number, got {:?}", other),
    }
    match scope.get(&"w".to_owned()) {
        coco::types::Value::Number(b) => assert_eq!(b, 7.0f64.to_bits()),
        other => panic!("expected a number, got {:?}", other),
    }
}

#[test]
fn parse_error_reports_a_position() {
    let resolver = Resolver::new("test".to_owned(), "let = 3".to_owned());
    let mut lexer = Lexer::new("let = 3", &resolver);
    lexer.analyse().unwrap();
    let mut parser = Parser::new(lexer.tokens, &resolver);
    let err = parser.parse(1000).unwrap_err();
    assert_eq!(err.msg, "Token did not match");
}
