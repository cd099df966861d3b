use contractus::{Lexer, Span, Token, TokenKind};

#[test]
fn test_token_creation() {
    let token = Token {
        kind: TokenKind::Fn,
        span: Span {
            start: 0,
            end: 2,
            line: 1,
            column: 1,
        },
        raw: "fn".to_string(),
    };
    assert_eq!(token.kind, TokenKind::Fn);
}

#[test]
fn test_span_creation() {
    let span = Span {
        start: 0,
        end: 5,
        line: 1,
        column: 1,
    };
    assert_eq!(span.start, 0);
    assert_eq!(span.end, 5);
}

#[test]
fn test_lexer_creation() {
    let lexer = Lexer::new("test");
    assert_eq!(lexer.position(), 0);
    assert_eq!(lexer.line(), 1);
    assert_eq!(lexer.column(), 1);
}

#[test]
fn test_token_display() {
    assert_eq!(TokenKind::Fn.text(), "fn");
    assert_eq!(TokenKind::IntLiteral(42).text(), "42");
    assert_eq!(TokenKind::Ident("test".to_string()).text(), "test");
}

#[test]
fn test_keyword_recognition() {
    let input = "fn let if else for while struct return in";
    let lexer = Lexer::new(input);
    let tokens = lexer.tokenize().unwrap();

    assert_eq!(tokens[0].kind, TokenKind::Fn);
    assert_eq!(tokens[1].kind, TokenKind::Let);
    assert_eq!(tokens[2].kind, TokenKind::If);
    assert_eq!(tokens[3].kind, TokenKind::Else);
    assert_eq!(tokens[4].kind, TokenKind::For);
    assert_eq!(tokens[5].kind, TokenKind::While);
    assert_eq!(tokens[6].kind, TokenKind::Struct);
    assert_eq!(tokens[7].kind, TokenKind::Return);
    assert_eq!(tokens[8].kind, TokenKind::In);
}

#[test]
fn test_number_parsing() {
    let input = "0 42 123 999";
    let lexer = Lexer::new(input);
    let tokens = lexer.tokenize().unwrap();

    assert_eq!(tokens[0].kind, TokenKind::IntLiteral(0));
    assert_eq!(tokens[1].kind, TokenKind::IntLiteral(42));
    assert_eq!(tokens[2].kind, TokenKind::IntLiteral(123));
    assert_eq!(tokens[3].kind, TokenKind::IntLiteral(999));
}

#[test]
fn test_operator_parsing() {
    let input = "+ - * / = == != < > <= >=";
    let lexer = Lexer::new(input);
    let tokens = lexer.tokenize().unwrap();

    assert_eq!(tokens[0].kind, TokenKind::Plus);
    assert_eq!(tokens[1].kind, TokenKind::Minus);
    assert_eq!(tokens[2].kind, TokenKind::Star);
    assert_eq!(tokens[3].kind, TokenKind::Slash);
    assert_eq!(tokens[4].kind, TokenKind::Assign);
    assert_eq!(tokens[5].kind, TokenKind::Equal);
    assert_eq!(tokens[6].kind, TokenKind::NotEqual);
    assert_eq!(tokens[7].kind, TokenKind::Less);
    assert_eq!(tokens[8].kind, TokenKind::Greater);
    assert_eq!(tokens[9].kind, TokenKind::LessEqual);
    assert_eq!(tokens[10].kind, TokenKind::GreaterEqual);
}
