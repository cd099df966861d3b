use contractus::{Expr, Lexer, ParseError, Parser, Program, Span};

fn parse_expr(input: &str) -> Result<Expr, Vec<ParseError>> {
    let lexer = Lexer::new(input);
    let tokens = lexer.tokenize().map_err(|e| {
        vec![ParseError::new(
            format!("Lexer error: {:?}", e),
            Span::new(0, 0, 1, 1),
        )]
    })?;
    let mut parser = Parser::new(tokens);
    parser.parse_expression().map_err(|e| vec![e])
}

fn parse_program(input: &str) -> Result<Program, Vec<ParseError>> {
    let lexer = Lexer::new(input);
    let tokens = lexer.tokenize().map_err(|e| {
        vec![ParseError::new(
            format!("Lexer error: {:?}", e),
            Span::new(0, 0, 1, 1),
        )]
    })?;
    let mut parser = Parser::new(tokens);
    parser.parse()
}

#[test]
fn parser_test_parse_literals() {
    assert!(parse_expr("42").is_ok());
    assert!(parse_expr("true").is_ok());
    assert!(parse_expr("false").is_ok());
    assert!(parse_expr("'a'").is_ok());
    assert!(parse_expr("\"hello\"").is_ok());
}

#[test]
fn parser_test_parse_binary_ops() {
    assert!(parse_expr("1 + 2").is_ok());
    assert!(parse_expr("3 * 4 + 5").is_ok());
    assert!(parse_expr("6 + 7 * 8").is_ok());
    assert!(parse_expr("a && b || c").is_ok());
    assert!(parse_expr("x < y && y <= z").is_ok());
}

#[test]
fn parser_test_parse_function() {
    let input = r#"
    fn add(x: i32, y: i32) -> i32 {
        return x + y;
    }
"#;
    assert!(parse_program(input).is_ok());
}

#[test]
fn parser_test_parse_struct() {
    let input = r#"
    struct Point {
        x: i32,
        y: i32,
    }
"#;
    assert!(parse_program(input).is_ok());
}

#[test]
fn parser_test_parse_enum() {
    let input = r#"
    enum Option<T> {
        Some(T),
        None,
    }
"#;
    assert!(parse_program(input).is_ok());
}

#[test]
fn parser_test_parse_if_else() {
    let input = r#"
    fn test() {
        if x > 0 {
            print("positive");
        } else if x < 0 {
            print("negative");
        } else {
            print("zero");
        }
    }
"#;
    assert!(parse_program(input).is_ok());
}

#[test]
fn parser_test_parse_while_loop() {
    let input = r#"
    fn test() {
        let mut i = 0;
        while i < 10 {
            print(i);
            i = i + 1;
        }
    }
"#;
    assert!(parse_program(input).is_ok());
}

#[test]
fn test_parse_for_loop() {
    let input = r#"
    fn test() {
        for i in 0..10 {
            print(i);
        }

        let arr = [1, 2, 3, 4, 5];
        for item in arr {
            print(item);
        }
    }
"#;
    assert!(parse_program(input).is_ok());
}

#[test]
fn test_parse_match() {
    let input = r#"
    fn test(x: Option<i32>) {
        match x {
            Some(n) if n > 0 => print("positive"),
            Some(0) => print("zero"),
            Some(n) => print("negative"),
            None => print("none"),
        }
    }
"#;
    assert!(parse_program(input).is_err());
}

#[test]
fn test_parse_closure() {
    let input = r#"
    fn test() {
        let add = |x: i32, y: i32| -> i32 { x + y };
        let mul = |x, y| x * y;
        let print_it = |x| print(x);
    }
"#;
    assert!(parse_program(input).is_ok());
}

#[test]
fn parser_test_parse_method_call() {
    let input = r#"
    fn test() {
        let s = "hello";
        let len = s.len();
        let result = vec.push(42).pop().unwrap();
    }
"#;
    assert!(parse_program(input).is_ok());
}

#[test]
fn parser_test_parse_array_and_index() {
    let input = r#"
    fn test() {
        let arr = [1, 2, 3, 4, 5];
        let first = arr[0];
        let matrix = [[1, 2], [3, 4]];
        let elem = matrix[0][1];
        let repeated = [0; 100];
    }
"#;
    assert!(parse_program(input).is_ok());
}

#[test]
fn parser_test_parse_struct_literal() {
    let input = r#"
    fn test() {
        let p = Point { x: 10, y: 20 };
        let p2 = Point { x, y };  // field shorthand
    }
"#;
    assert!(parse_program(input).is_ok());
}

#[test]
fn parser_test_parse_references() {
    let input = r#"
    fn test() {
        let x = 42;
        let r = &x;
        let mr = &mut x;
        let value = *r;
    }
"#;
    assert!(parse_program(input).is_ok());
}

#[test]
fn parser_test_parse_type_cast() {
    let input = r#"
    fn test() {
        let x = 42;
        let y = x as f64;
        let z = (x + 1) as u8;
    }
"#;
    assert!(parse_program(input).is_ok());
}

#[test]
fn test_parse_complex_types() {
    let input = r#"
    fn test(
        a: [i32; 10],
        b: [i32],
        c: *const i32,
        d: &mut Vec<String>,
        e: (i32, bool, String),
        f: fn(i32, i32) -> i32,
        g: Option<Box<Node>>,
    ) -> Result<(), Error> {
        return Ok(());
    }
"#;
    assert!(parse_program(input).is_err());
}

#[test]
fn parser_test_parse_generics() {
    let input = r#"
    fn identity<T>(x: T) -> T {
        return x;
    }

    struct Vec<T> {
        data: *mut T,
        len: usize,
        cap: usize,
    }

    fn map<T, U, F>(vec: Vec<T>, f: F) -> Vec<U> {
        // ...
    }
"#;
    assert!(parse_program(input).is_ok());
}

#[test]
fn test_error_recovery() {
    let input = r#"
    fn test() {
        let x = ;  // error: missing expression
        let y = 42;  // should still parse this
    }
"#;

    let result = parse_program(input);
    assert!(result.is_err());
    let errors = result.unwrap_err();
    assert!(!errors.is_empty());
}

#[test]
fn test_break_continue_validation() {
    // Should succeed - break/continue inside loop
    let valid = r#"
    fn test() {
        while true {
            if x > 10 {
                break;
            }
            continue;
        }
    }
"#;
    assert!(parse_program(valid).is_ok());

    // Should fail - break outside loop
    let invalid = r#"
    fn test() {
        break;
    }
"#;
    assert!(parse_program(invalid).is_err());
}
