use contractus::{
    BinOp, Expr, Item, Lexer, Literal, ParseError, Parser, Pattern, Program, Span, Statement,
    Token, TokenKind, Type, UnOp, Visibility,
};

fn lex(input: &str) -> Vec<Token> {
    Lexer::new(input).tokenize().unwrap()
}

fn lex_errors(input: &str) -> Vec<String> {
    Lexer::new(input).tokenize().unwrap_err()
}

fn kinds(input: &str) -> Vec<TokenKind> {
    lex(input).into_iter().map(|t| t.kind).collect()
}

fn program(input: &str) -> Result<Program, Vec<ParseError>> {
    Parser::new(lex(input)).parse()
}

fn expression(input: &str) -> Result<Expr, ParseError> {
    Parser::new(lex(input)).parse_expression()
}

fn body_of(input: &str) -> Vec<Statement> {
    let mut items = program(input).unwrap().items;
    assert_eq!(items.len(), 1);
    match items.remove(0) {
        Item::Function(f) => f.body.statements,
        other => panic!("not a function: {:?}", other),
    }
}

fn number(e: &Expr) -> i64 {
    match e {
        Expr::Literal(Literal::Int(n), _) => *n,
        other => panic!("not an integer literal: {:?}", other),
    }
}

fn ident(e: &Expr) -> &str {
    match e {
        Expr::Ident(n, _) => n,
        other => panic!("not a name: {:?}", other),
    }
}

fn binary(e: &Expr) -> (BinOp, &Expr, &Expr) {
    match e {
        Expr::Binary(op, l, r, _) => (*op, l, r),
        other => panic!("not a binary expression: {:?}", other),
    }
}

#[test]
fn function_with_two_parameters() {
    let parsed = program("fn add(x: i32, y: i32) -> i32 { return x + y; }").unwrap();
    assert_eq!(parsed.items.len(), 1);
    let f = match &parsed.items[0] {
        Item::Function(f) => f,
        other => panic!("not a function: {:?}", other),
    };
    assert_eq!(f.name, "add");
    assert_eq!(f.visibility, Visibility::Private);
    assert!(f.generics.is_none());
    assert_eq!(f.params.len(), 2);
    assert!(matches!(&f.params[0].pattern, Pattern::Ident(n) if n == "x"));
    assert!(matches!(&f.params[1].pattern, Pattern::Ident(n) if n == "y"));
    assert_eq!(f.params[0].ty, Type::I32);
    assert_eq!(f.params[1].ty, Type::I32);
    assert_eq!(f.return_type, Some(Type::I32));
    assert_eq!(f.body.statements.len(), 1);
    let value = match &f.body.statements[0] {
        Statement::Return(r) => r.expr.as_ref().unwrap(),
        other => panic!("not a return: {:?}", other),
    };
    let (op, l, r) = binary(value);
    assert_eq!(op, BinOp::Add);
    assert_eq!(ident(l), "x");
    assert_eq!(ident(r), "y");
    assert_eq!(f.span.start, 0);
    assert_eq!(f.span.end, 47);
}

#[test]
fn struct_with_two_fields() {
    let parsed = program("struct Point { x: i32, y: i32 }").unwrap();
    assert_eq!(parsed.items.len(), 1);
    let s = match &parsed.items[0] {
        Item::Struct(s) => s,
        other => panic!("not a struct: {:?}", other),
    };
    assert_eq!(s.name, "Point");
    assert!(s.generics.is_none());
    assert_eq!(s.fields.len(), 2);
    assert_eq!(s.fields[0].name, "x");
    assert_eq!(s.fields[0].ty, Type::I32);
    assert_eq!(s.fields[1].name, "y");
    assert_eq!(s.fields[1].ty, Type::I32);
}

#[test]
fn missing_initializer_is_reported_and_parsing_resumes() {
    let errors = program("fn a() { let x = ; } fn b() { let y = 42; }").unwrap_err();
    assert_eq!(errors.len(), 2);
    assert_eq!(errors[0].message, "Unexpected token in expression: Semicolon");
    assert_eq!(errors[0].span.start, 17);
    // Parsing resumed after the `;`; the second function was read without an error.
    assert_eq!(errors[1].message, "Expected item declaration, found RightBrace");
    assert_eq!(errors[1].span.start, 19);

    let errors = program("fn test() { let x = ; let y = 42; }").unwrap_err();
    assert!(!errors.is_empty());
    assert_eq!(errors[0].message, "Unexpected token in expression: Semicolon");
    // Parsing resumed after the `;`, at the next `let`, which begins no item.
    assert_eq!(errors[1].message, "Expected item declaration, found Let");
    assert_eq!(errors[1].span.start, 22);
}

#[test]
fn every_error_of_a_program_is_found() {
    let errors = program("fn a( { } struct S { x i32 } fn c() { } enum E { 1 }").unwrap_err();
    assert_eq!(errors.len(), 3);
    assert_eq!(errors[0].message, "Expected pattern, found LeftBrace");
    assert_eq!(errors[1].message, "Expected ':' after field name, found I32");
    assert_eq!(errors[2].message, "Expected variant name, found IntLiteral(1)");
}

#[test]
fn at_sign_is_an_unexpected_character() {
    let errors = lex_errors("let a = @;\n  @");
    assert_eq!(errors.len(), 2);
    assert_eq!(errors[0], "Unexpected character '@' at line 1, column 9");
    assert_eq!(errors[1], "Unexpected character '@' at line 2, column 3");
}

#[test]
fn range_of_a_for_loop() {
    let body = body_of("fn f() { for i in 0..10 { } for j in 0..=10 { } }");
    let inclusive: Vec<bool> = body
        .iter()
        .map(|s| match s {
            Statement::For(f) => match &f.iterable {
                Expr::Range(from, to, inclusive, _) => {
                    assert_eq!(number(from), 0);
                    assert_eq!(number(to), 10);
                    assert!(f.body.statements.is_empty());
                    *inclusive
                },
                other => panic!("not a range: {:?}", other),
            },
            other => panic!("not a for loop: {:?}", other),
        })
        .collect();
    assert_eq!(inclusive, vec![false, true]);
    assert!(matches!(expression("0.. =10").unwrap(), Expr::Range(_, _, true, _)));
}

#[test]
fn tighter_operators_group_first() {
    let e = expression("1 + 2 * 3").unwrap();
    let (op, l, r) = binary(&e);
    assert_eq!(op, BinOp::Add);
    assert_eq!(number(l), 1);
    let (op, l, r) = binary(r);
    assert_eq!((op, number(l), number(r)), (BinOp::Mul, 2, 3));

    let e = expression("1 * 2 + 3").unwrap();
    let (op, l, r) = binary(&e);
    assert_eq!((op, number(r)), (BinOp::Add, 3));
    let (op, l, r) = binary(l);
    assert_eq!((op, number(l), number(r)), (BinOp::Mul, 1, 2));

    let e = expression("1 < 2 && 3 < 4").unwrap();
    let (op, l, r) = binary(&e);
    assert_eq!(op, BinOp::LogicalAnd);
    let (lop, a, b) = binary(l);
    assert_eq!((lop, number(a), number(b)), (BinOp::Less, 1, 2));
    let (rop, c, d) = binary(r);
    assert_eq!((rop, number(c), number(d)), (BinOp::Less, 3, 4));
}

#[test]
fn adjacent_tiers_of_operators() {
    // Each pair: the operator that binds tighter, and the next looser one.
    let pairs = [
        ("*", BinOp::Mul, "+", BinOp::Add),
        ("+", BinOp::Add, "<<", BinOp::LeftShift),
        ("<<", BinOp::LeftShift, "<", BinOp::Less),
        ("<", BinOp::Less, "==", BinOp::Equal),
        ("==", BinOp::Equal, "&", BinOp::BitwiseAnd),
        ("&", BinOp::BitwiseAnd, "^", BinOp::BitwiseXor),
        ("^", BinOp::BitwiseXor, "|", BinOp::BitwiseOr),
        ("|", BinOp::BitwiseOr, "&&", BinOp::LogicalAnd),
        ("&&", BinOp::LogicalAnd, "||", BinOp::LogicalOr),
    ];
    for (tight, tight_op, loose, loose_op) in pairs {
        let e = expression(&format!("1 {} 2 {} 3", tight, loose)).unwrap();
        let (op, l, r) = binary(&e);
        assert_eq!((op, number(r)), (loose_op, 3));
        let (op, a, b) = binary(l);
        assert_eq!((op, number(a), number(b)), (tight_op, 1, 2));

        let e = expression(&format!("1 {} 2 {} 3", loose, tight)).unwrap();
        let (op, l, r) = binary(&e);
        assert_eq!((op, number(l)), (loose_op, 1));
        let (op, a, b) = binary(r);
        assert_eq!((op, number(a), number(b)), (tight_op, 2, 3));
    }
}

#[test]
fn operators_of_one_tier_group_to_the_left() {
    let e = expression("1 - 2 + 3").unwrap();
    let (op, l, r) = binary(&e);
    assert_eq!((op, number(r)), (BinOp::Add, 3));
    let (op, a, b) = binary(l);
    assert_eq!((op, number(a), number(b)), (BinOp::Sub, 1, 2));
}

#[test]
fn assignment_groups_to_the_right() {
    match expression("a = b = 1").unwrap() {
        Expr::Assign(target, value, _) => {
            assert_eq!(ident(&target), "a");
            match *value {
                Expr::Assign(target, value, _) => {
                    assert_eq!(ident(&target), "b");
                    assert_eq!(number(&value), 1);
                },
                other => panic!("not an assignment: {:?}", other),
            }
        },
        other => panic!("not an assignment: {:?}", other),
    }
    assert!(matches!(
        expression("a += 1").unwrap(),
        Expr::CompoundAssign(BinOp::Add, _, _, _)
    ));
    assert!(matches!(
        expression("a /= 1").unwrap(),
        Expr::CompoundAssign(BinOp::Div, _, _, _)
    ));
}

#[test]
fn jumps_need_a_loop() {
    for outside in [
        "fn f() { break; }",
        "fn f() { continue; }",
        "fn f() { if a > 0 { break; } }",
        "fn f() { { { continue; } } }",
        "fn f() { match a { 0 => { break; } } }",
        "fn f() { let x = break; }",
        "fn f() { while a > 0 { } break; }",
    ] {
        assert!(program(outside).is_err(), "{}", outside);
    }
    for inside in [
        "fn f() { while a > 0 { break; } }",
        "fn f() { for i in 0..3 { continue; } }",
        "fn f() { while a > 0 { if b > 0 { break; } else { continue; } } }",
        "fn f() { for i in 0..3 { match i { 0 => { break; } } } }",
        "fn f() { while a > 0 { { { break; } } } }",
        "fn f() { while a > 0 { while b > 0 { } break; } }",
    ] {
        assert!(program(inside).is_ok(), "{}", inside);
    }
}

#[test]
fn an_error_in_a_loop_leaves_no_loop_open() {
    let errors = program("fn a() { while x > 0 { let = ; } } fn b() { break; }").unwrap_err();
    assert!(errors.iter().any(|e| e.message == "break statement outside of loop"));
}

#[test]
fn jump_outside_loop_carries_help() {
    let errors = program("fn f() { break; }").unwrap_err();
    assert_eq!(errors[0].message, "break statement outside of loop");
    assert_eq!(
        errors[0].help.as_deref(),
        Some("break can only be used inside while or for loops")
    );
    assert_eq!(
        errors[0].describe(),
        "Parse error at line 1, column 10: break statement outside of loop\nhelp: break can only be used inside while or for loops"
    );
    let errors = program("fn f() { continue; }").unwrap_err();
    assert_eq!(errors[0].message, "continue statement outside of loop");
    assert_eq!(
        errors[0].help.as_deref(),
        Some("continue can only be used inside while or for loops")
    );
    let error = expression("break").unwrap_err();
    assert_eq!(error.message, "break outside of loop");
    assert!(error.help.is_none());
    assert_eq!(expression("continue").unwrap_err().message, "continue outside of loop");
}

#[test]
fn integer_literals_of_the_whole_range() {
    for n in [0i32, 1, 9, 10, 99, 12345, 2147483646, 2147483647] {
        let tokens = lex(&n.to_string());
        assert_eq!(tokens.len(), 2);
        assert_eq!(tokens[0].kind, TokenKind::IntLiteral(n));
        assert_eq!(tokens[1].kind, TokenKind::Eof);
    }
    assert_eq!(lex_errors("2147483648"), vec!["Invalid number '2147483648' at line 1"]);
    assert_eq!(lex_errors("99999999999"), vec!["Invalid number '99999999999' at line 1"]);
    assert_eq!(kinds("1_000"), vec![TokenKind::IntLiteral(1000), TokenKind::Eof]);
    assert_eq!(kinds("0xFF 0x7fff_ffff 0b101"), vec![
        TokenKind::IntLiteral(255),
        TokenKind::IntLiteral(2147483647),
        TokenKind::IntLiteral(5),
        TokenKind::Eof,
    ]);
    assert_eq!(kinds("-5"), vec![TokenKind::Minus, TokenKind::IntLiteral(5), TokenKind::Eof]);
}

#[test]
fn every_lexical_error() {
    assert_eq!(lex_errors("#"), vec!["Unexpected character '#' at line 1, column 1"]);
    assert_eq!(lex_errors("0x"), vec!["Invalid hexadecimal number at line 1"]);
    assert_eq!(lex_errors("0xFFFFFFFF"), vec!["Invalid hexadecimal number at line 1"]);
    assert_eq!(lex_errors("\n0b"), vec!["Invalid binary number at line 2"]);
    assert_eq!(lex_errors("1__0_ 99999999999"), vec!["Invalid number '99999999999' at line 1"]);
    assert_eq!(lex_errors("1.5"), vec!["Float literals not yet supported at line 1"]);
    assert_eq!(lex_errors("\"abc"), vec!["Unterminated string at line 1"]);
    assert_eq!(lex_errors("\"abc\\"), vec!["Unterminated string at line 1"]);
    assert_eq!(lex_errors("\"a\\qb\""), vec![
        "Invalid escape sequence '\\q' at line 1",
        "Unterminated string at line 1",
    ]);
    assert_eq!(lex_errors("'"), vec!["Unterminated character literal at line 1"]);
    assert_eq!(lex_errors("'\\"), vec!["Unterminated character literal at line 1"]);
    assert_eq!(lex_errors("'\\q'"), vec![
        "Invalid escape sequence '\\q' in character literal at line 1",
        "Unterminated character literal at line 1",
    ]);
    assert_eq!(lex_errors("'ab'"), vec![
        "Character literal must be exactly one character at line 1",
        "Unterminated character literal at line 1",
    ]);
}

#[test]
fn a_float_literal_is_an_error_and_lexing_goes_on() {
    let result = Lexer::new("let x = 1.5;").tokenize();
    assert_eq!(result.unwrap_err(), vec!["Float literals not yet supported at line 1"]);
    assert_eq!(kinds("1 .5"), vec![
        TokenKind::IntLiteral(1),
        TokenKind::Dot,
        TokenKind::IntLiteral(5),
        TokenKind::Eof,
    ]);
    assert_eq!(kinds("1..5"), vec![
        TokenKind::IntLiteral(1),
        TokenKind::DotDot,
        TokenKind::IntLiteral(5),
        TokenKind::Eof,
    ]);
}

#[test]
fn escapes_in_literals() {
    assert_eq!(kinds(r#""a\n\r\t\\\"\0b""#), vec![
        TokenKind::StringLiteral("a\n\r\t\\\"\0b".to_string()),
        TokenKind::Eof,
    ]);
    assert_eq!(kinds(r"'\n' '\'' '\\' '\0' 'x' '\t' '\r'"), vec![
        TokenKind::CharLiteral('\n'),
        TokenKind::CharLiteral('\''),
        TokenKind::CharLiteral('\\'),
        TokenKind::CharLiteral('\0'),
        TokenKind::CharLiteral('x'),
        TokenKind::CharLiteral('\t'),
        TokenKind::CharLiteral('\r'),
        TokenKind::Eof,
    ]);
}

#[test]
fn longest_operator_wins() {
    assert_eq!(kinds("..= .. . :: : => = == -> -= - += *= /= << <= < >> >= > && & || | != !"), vec![
        TokenKind::DotDotEqual,
        TokenKind::DotDot,
        TokenKind::Dot,
        TokenKind::DoubleColon,
        TokenKind::Colon,
        TokenKind::FatArrow,
        TokenKind::Assign,
        TokenKind::Equal,
        TokenKind::Arrow,
        TokenKind::MinusAssign,
        TokenKind::Minus,
        TokenKind::PlusAssign,
        TokenKind::StarAssign,
        TokenKind::SlashAssign,
        TokenKind::LeftShift,
        TokenKind::LessEqual,
        TokenKind::Less,
        TokenKind::RightShift,
        TokenKind::GreaterEqual,
        TokenKind::Greater,
        TokenKind::LogicalAnd,
        TokenKind::BitwiseAnd,
        TokenKind::LogicalOr,
        TokenKind::BitwiseOr,
        TokenKind::NotEqual,
        TokenKind::LogicalNot,
        TokenKind::Eof,
    ]);
    assert_eq!(kinds("...="), vec![TokenKind::DotDot, TokenKind::Dot, TokenKind::Assign, TokenKind::Eof]);
}

#[test]
fn words_and_keywords() {
    assert_eq!(kinds("_ _a a_ forloop for true false string String i32 i33"), vec![
        TokenKind::Underscore,
        TokenKind::Ident("_a".to_string()),
        TokenKind::Ident("a_".to_string()),
        TokenKind::Ident("forloop".to_string()),
        TokenKind::For,
        TokenKind::BoolLiteral(true),
        TokenKind::BoolLiteral(false),
        TokenKind::String,
        TokenKind::Ident("String".to_string()),
        TokenKind::I32,
        TokenKind::Ident("i33".to_string()),
        TokenKind::Eof,
    ]);
}

#[test]
fn comments_and_positions() {
    let tokens = lex("a // b\n/* c\n d */ e /* f */g\n\th");
    let seen: Vec<(String, usize, usize, u32, u32)> = tokens
        .iter()
        .map(|t| (t.raw.clone(), t.span.start, t.span.end, t.span.line, t.span.column))
        .collect();
    assert_eq!(seen, vec![
        ("a".to_string(), 0, 1, 1, 1),
        ("e".to_string(), 18, 19, 3, 7),
        ("g".to_string(), 27, 28, 3, 16),
        ("h".to_string(), 30, 31, 4, 2),
        ("".to_string(), 31, 31, 4, 3),
    ]);
    // A block comment ends at the first `*/`, and one that never ends takes the rest.
    assert_eq!(kinds("/* /* */ a */"), vec![
        TokenKind::Ident("a".to_string()),
        TokenKind::Star,
        TokenKind::Slash,
        TokenKind::Eof,
    ]);
    assert_eq!(kinds("a /* b"), vec![TokenKind::Ident("a".to_string()), TokenKind::Eof]);
}

#[test]
fn lexemes_are_kept() {
    let tokens = lex("main \"h\u{e9}\" 0x1F ..=");
    let raw: Vec<&str> = tokens.iter().map(|t| t.raw.as_str()).collect();
    assert_eq!(raw, vec!["main", "\"h\u{e9}\"", "0x1F", "..=", ""]);
    // Inside a literal every byte becomes the character of its code.
    assert_eq!(tokens[1].kind, TokenKind::StringLiteral("h\u{c3}\u{a9}".to_string()));
}

#[test]
fn two_texts_one_after_the_other() {
    let first = "fn a() { return 1; }\n";
    let second = "struct B { x: i32 }";
    let mut expected = kinds(first);
    expected.pop();
    expected.extend(kinds(second));
    assert_eq!(kinds(&format!("{}{}", first, second)), expected);
    // The tokens of the second text lie where they lay, one line lower.
    let alone = lex(second);
    let joined = lex(&format!("{}{}", first, second));
    let offset = joined.len() - alone.len();
    for (i, t) in alone.iter().enumerate() {
        let j = &joined[offset + i];
        assert_eq!(j.span.start, t.span.start + first.len());
        assert_eq!(j.span.end, t.span.end + first.len());
        assert_eq!(j.span.line, t.span.line + 1);
        assert_eq!(j.span.column, t.span.column);
        assert_eq!(j.raw, t.raw);
    }
}

#[test]
fn merge_of_spans() {
    let a = Span::new(10, 20, 3, 7);
    let b = Span::new(5, 15, 2, 9);
    assert_eq!(a.merge(&b), Span { start: 5, end: 20, line: 2, column: 9 });
    assert_eq!(b.merge(&a), Span { start: 5, end: 20, line: 2, column: 9 });
    let c = Span::new(12, 30, 3, 4);
    assert_eq!(a.merge(&c), Span { start: 10, end: 30, line: 3, column: 4 });
    assert_eq!(a.merge(&a), a);
    // The end of a merge is the larger end, whichever span comes first.
    assert_eq!(Span::new(0, 9, 1, 1).merge(&Span::new(2, 4, 1, 3)).end, 9);
}

#[test]
fn names_before_a_brace() {
    // In a condition, an iterable and a scrutinee the brace opens the body.
    for input in [
        "fn f() { if a { b } }",
        "fn f() { while a { } }",
        "fn f() { for i in items { } }",
        "fn f() { match a { } }",
        "fn f() { let x = if a { b } else { c }; }",
    ] {
        assert!(program(input).is_ok(), "{}", input);
    }
    // Elsewhere it begins a struct literal, and so it does within brackets.
    assert!(matches!(expression("a { b: 1 }").unwrap(), Expr::StructLit(..)));
    match body_of("fn f() { if (P { x: 1 }) { } }").remove(0) {
        Statement::If(s) => assert!(matches!(s.cond, Expr::StructLit(..))),
        other => panic!("not an if: {:?}", other),
    }
    match expression("P { x, y: 2 }").unwrap() {
        Expr::StructLit(n, fields, _) => {
            assert_eq!(n, "P");
            assert_eq!(fields[0].0, "x");
            assert_eq!(ident(&fields[0].1), "x");
            assert_eq!(fields[1].0, "y");
            assert_eq!(number(&fields[1].1), 2);
        },
        other => panic!("not a struct literal: {:?}", other),
    }
}

#[test]
fn array_literals() {
    match expression("[1, 2, 3,]").unwrap() {
        Expr::ArrayLit(items, _) => {
            assert_eq!(items.iter().map(number).collect::<Vec<_>>(), vec![1, 2, 3])
        },
        other => panic!("not an array: {:?}", other),
    }
    match expression("[7; 4]").unwrap() {
        Expr::ArrayLit(items, _) => {
            assert_eq!(items.iter().map(number).collect::<Vec<_>>(), vec![7, 7, 7, 7])
        },
        other => panic!("not an array: {:?}", other),
    }
    match expression("[1, 2; 3]").unwrap() {
        Expr::ArrayLit(items, _) => {
            assert_eq!(items.iter().map(number).collect::<Vec<_>>(), vec![1, 1, 1])
        },
        other => panic!("not an array: {:?}", other),
    }
    assert!(matches!(expression("[x; 0]").unwrap(), Expr::ArrayLit(items, _) if items.is_empty()));
    assert_eq!(
        expression("[1; x]").unwrap_err().message,
        "Expected integer after ';' in array literal"
    );
}

#[test]
fn parentheses_tuples_and_closures() {
    assert_eq!(number(&expression("(1)").unwrap()), 1);
    assert!(matches!(expression("()").unwrap(), Expr::TupleLit(items, _) if items.is_empty()));
    assert!(matches!(expression("(1, 2)").unwrap(), Expr::TupleLit(items, _) if items.len() == 2));
    assert!(matches!(expression("(1,)").unwrap(), Expr::TupleLit(items, _) if items.len() == 1));
    match expression("(x: i32, y: i32) -> i32 { x + y }").unwrap() {
        Expr::Closure(params, ret, body, _) => {
            assert_eq!(params.len(), 2);
            assert_eq!(ret, Some(Type::I32));
            assert!(matches!(*body, Expr::Block(..)));
        },
        other => panic!("not a closure: {:?}", other),
    }
    match expression("|x, y: u8| x").unwrap() {
        Expr::Closure(params, ret, _, _) => {
            assert_eq!(params[0].ty, Type::Infer);
            assert_eq!(params[1].ty, Type::U8);
            assert!(ret.is_none());
        },
        other => panic!("not a closure: {:?}", other),
    }
    assert!(matches!(expression("|| 1").unwrap(), Expr::Closure(params, _, _, _) if params.is_empty()));
}

#[test]
fn postfix_and_prefix() {
    match expression("-a.b(1)[2].c").unwrap() {
        Expr::Unary(UnOp::Neg, inner, _) => match *inner {
            Expr::FieldAccess(base, field, _) => {
                assert_eq!(field, "c");
                match *base {
                    Expr::IndexAccess(base, index, _) => {
                        assert_eq!(number(&index), 2);
                        assert!(matches!(*base, Expr::MethodCall(_, ref m, ref args, _) if m == "b" && args.len() == 1));
                    },
                    other => panic!("not an index: {:?}", other),
                }
            },
            other => panic!("not a field: {:?}", other),
        },
        other => panic!("not a negation: {:?}", other),
    }
    assert!(matches!(expression("&mut a").unwrap(), Expr::Unary(UnOp::RefMut, _, _)));
    assert!(matches!(expression("&a").unwrap(), Expr::Unary(UnOp::Ref, _, _)));
    assert!(matches!(expression("*a").unwrap(), Expr::Unary(UnOp::Deref, _, _)));
    assert!(matches!(expression("!~a").unwrap(), Expr::Unary(UnOp::LogicalNot, _, _)));
    assert!(matches!(expression("a as u8").unwrap(), Expr::Cast(_, Type::U8, _)));
    assert_eq!(expression("a.1").unwrap_err().message, "Expected identifier after '.'");
}

#[test]
fn types() {
    let f = match program("fn f(a: [i32; 3], b: [u8], c: *mut T, d: &G<A, (B, C)>, e: fn(i8) -> !, g: (), h: (i8) -> _) { }").unwrap().items.remove(0) {
        Item::Function(f) => f,
        other => panic!("not a function: {:?}", other),
    };
    let types: Vec<Type> = f.params.into_iter().map(|p| p.ty).collect();
    assert_eq!(types, vec![
        Type::Array(Box::new(Type::I32), 3),
        Type::Slice(Box::new(Type::U8)),
        Type::Pointer(Box::new(Type::Named("T".to_string())), true),
        Type::Reference(
            Box::new(Type::Generic(
                "G".to_string(),
                vec![Type::Named("A".to_string()), Type::Tuple(vec![
                    Type::Named("B".to_string()),
                    Type::Named("C".to_string()),
                ])],
            )),
            false,
        ),
        Type::Function(vec![Type::I8], Box::new(Type::Never)),
        Type::Unit,
        Type::Function(vec![Type::I8], Box::new(Type::Infer)),
    ]);
    let errors = program("fn f(a: [i32; n]) { }").unwrap_err();
    assert_eq!(errors[0].message, "Expected array size");
}

#[test]
fn patterns() {
    let body = body_of("fn f() { let (a, _, 1) = x; let P { x, y: true } = p; match v { 1 | 2 => a, _ => b } }");
    match &body[0] {
        Statement::Let(l) => match &l.pattern {
            Pattern::Tuple(items) => {
                assert!(matches!(&items[0], Pattern::Ident(n) if n == "a"));
                assert!(matches!(&items[1], Pattern::Wildcard));
                assert!(matches!(&items[2], Pattern::Literal(Literal::Int(1))));
            },
            other => panic!("not a tuple pattern: {:?}", other),
        },
        other => panic!("not a let: {:?}", other),
    }
    match &body[1] {
        Statement::Let(l) => match &l.pattern {
            Pattern::Struct(n, fields) => {
                assert_eq!(n, "P");
                assert!(matches!(&fields[0], (f, Pattern::Ident(b)) if f == "x" && b == "x"));
                assert!(matches!(&fields[1], (f, Pattern::Literal(Literal::Bool(true))) if f == "y"));
            },
            other => panic!("not a struct pattern: {:?}", other),
        },
        other => panic!("not a let: {:?}", other),
    }
    match &body[2] {
        Statement::Match(m) => {
            assert!(matches!(&m.arms[0].pattern, Pattern::Or(alts) if alts.len() == 2));
            assert!(matches!(&m.arms[1].pattern, Pattern::Wildcard));
        },
        other => panic!("not a match: {:?}", other),
    }
}

#[test]
fn items_of_every_kind() {
    let parsed = program(
        "pub fn f<T: A + B, U>() { } pub struct S<T> { pub a: T } enum E { A, B(i8, u8) } \
         const C: i32 = 1; pub static mut D: u8 = 2; import a::b::c as d; export { f, S };",
    )
    .unwrap();
    assert_eq!(parsed.items.len(), 7);
    match &parsed.items[0] {
        Item::Function(f) => {
            assert_eq!(f.visibility, Visibility::Public);
            let g = f.generics.as_ref().unwrap();
            assert_eq!(g.params[0].name, "T");
            assert_eq!(g.params[0].bounds, vec!["A", "B"]);
            assert!(g.params[1].bounds.is_empty());
        },
        other => panic!("not a function: {:?}", other),
    }
    match &parsed.items[1] {
        Item::Struct(s) => {
            assert_eq!(s.visibility, Visibility::Public);
            assert_eq!(s.fields[0].visibility, Visibility::Public);
        },
        other => panic!("not a struct: {:?}", other),
    }
    match &parsed.items[2] {
        Item::Enum(e) => {
            assert!(e.variants[0].fields.is_none());
            assert_eq!(e.variants[1].fields, Some(vec![Type::I8, Type::U8]));
        },
        other => panic!("not an enum: {:?}", other),
    }
    assert!(matches!(&parsed.items[3], Item::Const(c) if c.name == "C" && c.ty == Type::I32));
    assert!(matches!(&parsed.items[4], Item::Static(s) if s.mutable && s.visibility == Visibility::Public));
    match &parsed.items[5] {
        Item::Import(i) => {
            assert_eq!(i.path, vec!["a", "b", "c"]);
            assert_eq!(i.alias.as_deref(), Some("d"));
        },
        other => panic!("not an import: {:?}", other),
    }
    assert!(matches!(&parsed.items[6], Item::Export(e) if e.items == vec!["f", "S"]));
    assert_eq!(
        program("const C = 1;").unwrap_err()[0].message,
        "Expected ':' after const name, found Assign"
    );
    assert_eq!(
        program("static X: u8 1;").unwrap_err()[0].message,
        "Expected '=' after static type, found IntLiteral(1)"
    );
}

#[test]
fn the_token_found_is_named_in_the_message() {
    assert_eq!(
        program("struct S { x y }").unwrap_err()[0].message,
        "Expected ':' after field name, found Ident(\"y\")"
    );
    assert_eq!(
        program("fn f() { let x 'a'; }").unwrap_err()[0].message,
        "Expected ';' after let statement, found CharLiteral('a')"
    );
    assert_eq!(
        program("fn f() { let x \"a\\\"b\"; }").unwrap_err()[0].message,
        "Expected ';' after let statement, found StringLiteral(\"a\\\"b\")"
    );
    assert_eq!(
        program("fn f() { let x true; }").unwrap_err()[0].message,
        "Expected ';' after let statement, found BoolLiteral(true)"
    );
    assert_eq!(program("fn").unwrap_err()[0].message, "Expected function name, found Eof");
    assert_eq!(program("let").unwrap_err()[0].message, "Expected item declaration, found Let");
}

#[test]
fn tokens_as_text() {
    assert_eq!(TokenKind::StringLiteral("a\"b\n".to_string()).text(), "\"a\\\"b\\n\"");
    assert_eq!(TokenKind::CharLiteral('\n').text(), "'\\n'");
    assert_eq!(TokenKind::CharLiteral('\'').text(), "'\\''");
    assert_eq!(TokenKind::IntLiteral(-7).text(), "-7");
    assert_eq!(TokenKind::IntLiteral(i32::MIN).text(), "-2147483648");
    assert_eq!(TokenKind::BoolLiteral(false).text(), "false");
    assert_eq!(TokenKind::DotDotEqual.text(), "..=");
    assert_eq!(TokenKind::LeftBrace.text(), "{");
    assert_eq!(TokenKind::Eof.text(), "EOF");
    assert_eq!(TokenKind::Newline.text(), "\\n");
    assert_eq!(TokenKind::Error("bad".to_string()).text(), "error(bad)");
    assert_eq!(TokenKind::Error("b\"d".to_string()).debug_text(), "Error(\"b\\\"d\")");
    assert_eq!(TokenKind::IntLiteral(-7).debug_text(), "IntLiteral(-7)");
    assert_eq!(TokenKind::LeftBrace.debug_text(), "LeftBrace");
    assert_eq!(TokenKind::LeftBrace.name(), "LeftBrace");
    assert!(TokenKind::Ident("a".to_string()).same_variant(&TokenKind::Ident("b".to_string())));
    assert!(!TokenKind::Plus.same_variant(&TokenKind::Minus));
    assert_eq!(TokenKind::IntLiteral(0).index(), 0);
    assert_eq!(TokenKind::Error(String::new()).index(), 85);
}

#[test]
fn errors_as_text() {
    let error = ParseError::new("wrong".to_string(), Span::new(3, 4, 12, 34));
    assert_eq!(error.describe(), "Parse error at line 12, column 34: wrong");
    let error = error.with_help("do better".to_string());
    assert_eq!(error.help.as_deref(), Some("do better"));
    assert_eq!(error.describe(), "Parse error at line 12, column 34: wrong\nhelp: do better");
    let copy = error.clone();
    assert_eq!(copy.message, "wrong");
    assert_eq!(copy.span, error.span);
    assert_eq!(copy.help, error.help);
}

#[test]
fn copies_are_equal() {
    let e = expression("f(a, [1; 2], |x| P { y: x.z as u8 }, if c { 1 } else { while d { break; } })").unwrap();
    assert_eq!(format!("{:?}", e.clone()), format!("{:?}", e));
    let body = body_of("fn f() { let (a, b): (i8, [u8; 2]) = x; for i in 0..2 { continue; } match a { 1 | 2 if b => { return; }, _ => c } }");
    for s in &body {
        assert_eq!(format!("{:?}", s.clone()), format!("{:?}", s));
    }
}

#[test]
fn spans_of_expressions() {
    let e = expression("  ab + (cd * 2)").unwrap();
    assert_eq!(e.span(), Span { start: 2, end: 14, line: 1, column: 3 });
    let e = expression("f(1,\n 2)").unwrap();
    assert_eq!(e.span(), Span { start: 0, end: 8, line: 1, column: 1 });
}

#[test]
fn an_empty_program() {
    let parsed = program("").unwrap();
    assert!(parsed.items.is_empty());
    assert_eq!(parsed.span, Span { start: 0, end: 0, line: 1, column: 1 });
    let mut parser = Parser::new(lex("fn f() { }"));
    assert!(parser.parse().is_ok());
    // A second call finds the input read, and no item.
    assert!(parser.parse().unwrap().items.is_empty());
}

#[test]
fn statements_of_every_kind() {
    let body = body_of(
        "fn f() { let mut a: u8 = 1; a; b if c { } else if d { } else { } while e { } \
         for g in h { } match i { j => k, } { } return; }",
    );
    assert_eq!(body.len(), 9);
    assert!(matches!(&body[0], Statement::Let(l) if l.mutable && l.ty == Some(Type::U8)));
    assert!(matches!(&body[1], Statement::Expr(e) if e.semicolon));
    assert!(matches!(&body[2], Statement::Expr(e) if !e.semicolon));
    match &body[3] {
        Statement::If(s) => {
            let other = s.else_block.as_ref().unwrap();
            assert_eq!(other.statements.len(), 1);
            assert!(matches!(&other.statements[0], Statement::If(n) if n.else_block.is_some()));
        },
        other => panic!("not an if: {:?}", other),
    }
    assert!(matches!(&body[4], Statement::While(_)));
    assert!(matches!(&body[5], Statement::For(_)));
    assert!(matches!(&body[6], Statement::Match(m) if m.arms.len() == 1));
    assert!(matches!(&body[7], Statement::Block(b) if b.statements.is_empty()));
    assert!(matches!(&body[8], Statement::Return(r) if r.expr.is_none()));
}
