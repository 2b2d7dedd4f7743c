use exx::ast::{BinaryOp, Expr, Literal, Parameter, Stmt, Type, UnaryOp};
use exx::lexer::Lexer;
use exx::parser::{ParseError, Parser, ParserToken, TokenKind};
use exx::token::Token;
use exx::tokentype::TokenType;

fn tokens_of(source: &str) -> Vec<ParserToken> {
    let tokens: Vec<Token> = Lexer::new(source).collect();
    let mut adapted: Vec<ParserToken> = tokens.into_iter().map(ParserToken::from).collect();
    adapted.push(ParserToken { kind: TokenKind::Eof });
    adapted
}

fn parse(source: &str) -> Result<Vec<Stmt>, ParseError> {
    Parser::new(tokens_of(source)).parse_program()
}

fn parse_expr(source: &str) -> Result<Expr, ParseError> {
    Parser::new(tokens_of(source)).expression()
}

fn program(source: &str) -> Vec<Stmt> {
    match parse(source) {
        Ok(statements) => statements,
        Err(error) => panic!("{}: {}", source, error.message),
    }
}

fn expr(source: &str) -> Expr {
    match parse_expr(source) {
        Ok(expr) => expr,
        Err(error) => panic!("{}: {}", source, error.message),
    }
}

fn message(source: &str) -> String {
    match parse(source) {
        Ok(statements) => panic!("{}: parsed to {:?}", source, statements),
        Err(error) => error.message,
    }
}

fn id(name: &str) -> Expr {
    Expr::Identifier(name.to_string())
}

fn num(text: &str) -> Expr {
    Expr::Literal(Literal::Number(text.to_string()))
}

fn binary(left: Expr, op: BinaryOp, right: Expr) -> Expr {
    Expr::Binary { left: Box::new(left), op, right: Box::new(right) }
}

fn call(callee: Expr, arguments: Vec<Expr>) -> Expr {
    Expr::Call { callee: Box::new(callee), arguments }
}

fn property(object: Expr, name: &str) -> Expr {
    Expr::PropertyAccess { object: Box::new(object), name: name.to_string() }
}

fn param(name: &str, type_annotation: Option<Type>) -> Parameter {
    Parameter { name: name.to_string(), type_annotation }
}

fn simple(name: &str) -> Type {
    Type::Simple(name.to_string())
}

fn kinds(kinds: Vec<TokenKind>) -> Vec<ParserToken> {
    kinds.into_iter().map(|kind| ParserToken { kind }).collect()
}

#[test]
fn variable_declaration_with_type_and_initializer() {
    let statements = program("let a: number = 23;");
    assert_eq!(statements.len(), 1);
    match &statements[0] {
        Stmt::VariableDecl { is_mutable, name, type_annotation, initializer } => {
            assert!(!*is_mutable);
            assert_eq!(name, "a");
            assert_eq!(type_annotation, &Some(Type::Simple("number".to_string())));
            match initializer {
                Some(Expr::Literal(Literal::Number(text))) => {
                    assert_eq!(text, "23");
                    assert_eq!(text.parse::<f64>().unwrap(), 23.0);
                },
                other => panic!("unexpected initializer {:?}", other),
            }
        },
        other => panic!("unexpected statement {:?}", other),
    }
}

#[test]
fn lambda_with_two_parameters_and_a_call_body() {
    let parsed = expr("(f, x) -> f(x)");
    assert_eq!(
        parsed,
        Expr::Lambda {
            params: vec![param("f", None), param("x", None)],
            body: Box::new(call(id("f"), vec![id("x")])),
        }
    );
}

#[test]
fn class_body_missing_its_brace_fails() {
    assert_eq!(message("class A { let x = 1;"), "Expected '}' after class body");
    assert_eq!(message("class A { fn f() { } "), "Expected '}' after class body");
    assert!(parse("class A { let x = 1;").is_err());
}

#[test]
fn missing_terminators_fail() {
    assert_eq!(message("let a = 1"), "Expected ';' after variable declaration");
    assert_eq!(message("a + b"), "Expected ';' after expression");
    assert_eq!(message("(a + b;"), "Expected ')' after expression");
    assert_eq!(message("f(a, b;"), "Expected ')' after arguments");
    assert_eq!(message("{ a; "), "Expected '}' after block");
    assert_eq!(message("fn f() { a; "), "Expected '}' after function body");
    assert_eq!(message("module m { a; "), "Expected '}' after module body");
    assert_eq!(message("return a"), "Expected ';' after return statement");
    assert_eq!(message("import a"), "Expected ';' after import declaration");
    assert_eq!(message("P { x "), "Expected '}' after struct literal");
}

#[test]
fn an_error_after_good_statements_gives_no_statements() {
    let result = parse("let a = 1; let b = 2; let = 3;");
    match result {
        Err(error) => assert_eq!(error.message, "Expected variable name"),
        Ok(statements) => panic!("parsed to {:?}", statements),
    }
}

#[test]
fn parsing_twice_gives_the_same_tree() {
    let source = "fn f(a: number, b) -> number { return a + b * 2; } let g = (x) -> f(x, 1).y;";
    let first = program(source);
    let second = program(source);
    assert_eq!(first, second);
    let failing = "fn f( { }";
    assert_eq!(message(failing), message(failing));
}

#[test]
fn a_parser_parses_on_from_where_it_stands() {
    let mut parser = Parser::new(tokens_of("a b;"));
    assert_eq!(parser.expression().unwrap(), id("a"));
    assert_eq!(parser.parse_program().unwrap(), vec![Stmt::Expression(id("b"))]);
    assert_eq!(parser.parse_program().unwrap(), vec![]);
}

#[test]
fn empty_program() {
    assert_eq!(program(""), vec![]);
    assert_eq!(Parser::new(vec![]).parse_program().unwrap(), vec![]);
    assert_eq!(Parser::new(kinds(vec![TokenKind::Eof])).parse_program().unwrap(), vec![]);
}

#[test]
fn tokens_need_no_end_marker() {
    let mut tokens = tokens_of("a;");
    tokens.pop();
    assert_eq!(Parser::new(tokens).parse_program().unwrap(), vec![Stmt::Expression(id("a"))]);
    let mut tokens = tokens_of("a +");
    tokens.pop();
    match Parser::new(tokens).parse_program() {
        Err(error) => assert_eq!(error.message, "Unexpected token: Eof"),
        Ok(statements) => panic!("parsed to {:?}", statements),
    }
}

#[test]
fn parsing_stops_at_the_end_marker() {
    let tokens = kinds(vec![
        TokenKind::Identifier("a".to_string()),
        TokenKind::Semicolon,
        TokenKind::Eof,
        TokenKind::Identifier("b".to_string()),
    ]);
    assert_eq!(Parser::new(tokens).parse_program().unwrap(), vec![Stmt::Expression(id("a"))]);
}

#[test]
fn multiplication_binds_tighter_than_addition() {
    assert_eq!(
        expr("a + b * c"),
        binary(id("a"), BinaryOp::Add, binary(id("b"), BinaryOp::Mul, id("c")))
    );
    assert_eq!(
        expr("a * b + c"),
        binary(binary(id("a"), BinaryOp::Mul, id("b")), BinaryOp::Add, id("c"))
    );
}

#[test]
fn binary_operators_associate_to_the_left() {
    assert_eq!(
        expr("a - b - c"),
        binary(binary(id("a"), BinaryOp::Sub, id("b")), BinaryOp::Sub, id("c"))
    );
    assert_eq!(
        expr("a / b % c * d"),
        binary(
            binary(binary(id("a"), BinaryOp::Div, id("b")), BinaryOp::Mod, id("c")),
            BinaryOp::Mul,
            id("d")
        )
    );
}

#[test]
fn all_precedence_levels_in_one_expression() {
    assert_eq!(
        expr("a || b && c == d < e + f * g"),
        binary(
            id("a"),
            BinaryOp::Or,
            binary(
                id("b"),
                BinaryOp::And,
                binary(
                    id("c"),
                    BinaryOp::EqualEqual,
                    binary(
                        id("d"),
                        BinaryOp::Less,
                        binary(id("e"), BinaryOp::Add, binary(id("f"), BinaryOp::Mul, id("g")))
                    )
                )
            )
        )
    );
}

#[test]
fn every_binary_operator() {
    let cases = [
        ("+", BinaryOp::Add),
        ("-", BinaryOp::Sub),
        ("*", BinaryOp::Mul),
        ("/", BinaryOp::Div),
        ("%", BinaryOp::Mod),
        ("==", BinaryOp::EqualEqual),
        ("!=", BinaryOp::NotEqual),
        ("<", BinaryOp::Less),
        ("<=", BinaryOp::LessEqual),
        (">", BinaryOp::Greater),
        (">=", BinaryOp::GreaterEqual),
        ("&&", BinaryOp::And),
        ("||", BinaryOp::Or),
    ];
    for (text, op) in cases {
        let source = format!("a {} b", text);
        assert_eq!(expr(&source), binary(id("a"), op, id("b")), "{}", source);
    }
}

#[test]
fn unary_operators_nest_to_the_right() {
    assert_eq!(
        expr("! - a"),
        Expr::Unary {
            op: UnaryOp::Not,
            expr: Box::new(Expr::Unary { op: UnaryOp::Negate, expr: Box::new(id("a")) }),
        }
    );
    assert_eq!(
        expr("- a * b"),
        binary(
            Expr::Unary { op: UnaryOp::Negate, expr: Box::new(id("a")) },
            BinaryOp::Mul,
            id("b")
        )
    );
    assert_eq!(
        expr("a - - b"),
        binary(
            id("a"),
            BinaryOp::Sub,
            Expr::Unary { op: UnaryOp::Negate, expr: Box::new(id("b")) }
        )
    );
}

#[test]
fn postfix_chain_composes_left_to_right() {
    assert_eq!(
        expr("a.b(c).d"),
        property(call(property(id("a"), "b"), vec![id("c")]), "d")
    );
    assert_eq!(expr("f()()"), call(call(id("f"), vec![]), vec![]));
    assert_eq!(expr("f(a, b + c)"), call(id("f"), vec![
        id("a"),
        binary(id("b"), BinaryOp::Add, id("c")),
    ]));
}

#[test]
fn postfix_follows_every_primary() {
    assert_eq!(expr("(a).b"), property(Expr::Grouping(Box::new(id("a"))), "b"));
    assert_eq!(
        expr("\"s\".len"),
        property(Expr::Literal(Literal::String("s".to_string())), "len")
    );
    assert_eq!(expr("1(2)"), call(num("1"), vec![num("2")]));
    assert_eq!(expr("{ }.x"), property(Expr::Block(vec![]), "x"));
    assert_eq!(
        expr("P { x }.x"),
        property(
            Expr::StructLiteral {
                name: "P".to_string(),
                fields: vec![("x".to_string(), id("x"))],
            },
            "x"
        )
    );
}

#[test]
fn a_lambda_body_takes_what_follows_it() {
    assert_eq!(
        expr("(x) -> x(1)"),
        Expr::Lambda {
            params: vec![param("x", None)],
            body: Box::new(call(id("x"), vec![num("1")])),
        }
    );
    assert_eq!(
        expr("(x) -> x + 1"),
        Expr::Lambda {
            params: vec![param("x", None)],
            body: Box::new(binary(id("x"), BinaryOp::Add, num("1"))),
        }
    );
}

#[test]
fn grouping_is_not_a_lambda_without_an_arrow() {
    assert_eq!(expr("(a)"), Expr::Grouping(Box::new(id("a"))));
    assert_eq!(
        expr("((a)) - b"),
        binary(
            Expr::Grouping(Box::new(Expr::Grouping(Box::new(id("a"))))),
            BinaryOp::Sub,
            id("b")
        )
    );
    assert_eq!(
        expr("(f(a))"),
        Expr::Grouping(Box::new(call(id("f"), vec![id("a")])))
    );
}

#[test]
fn lookahead_matches_nested_parentheses() {
    assert_eq!(
        expr("(f: (number) -> number) -> f"),
        Expr::Lambda {
            params: vec![param(
                "f",
                Some(Type::Function(vec![simple("number")], Box::new(simple("number")))),
            )],
            body: Box::new(id("f")),
        }
    );
    assert_eq!(
        expr("((a) -> a)"),
        Expr::Grouping(Box::new(Expr::Lambda {
            params: vec![param("a", None)],
            body: Box::new(id("a")),
        }))
    );
    assert_eq!(expr("() -> 1"), Expr::Lambda { params: vec![], body: Box::new(num("1")) });
}

#[test]
fn lambda_errors() {
    assert_eq!(parse_expr("(1) -> x").unwrap_err().message, "Expected parameter name");
    assert_eq!(parse_expr("(a b) -> x").unwrap_err().message, "Expected ')' after parameters");
    assert_eq!(parse_expr("(a,) -> x").unwrap_err().message, "Expected parameter name");
    assert_eq!(parse_expr("(a) ->").unwrap_err().message, "Unexpected token: Eof");
}

#[test]
fn literals() {
    assert_eq!(expr("12.5"), num("12.5"));
    assert_eq!(expr("\"a\\nb\""), Expr::Literal(Literal::String("a\nb".to_string())));
    let booleans = kinds(vec![TokenKind::Boolean(true), TokenKind::Eof]);
    assert_eq!(
        Parser::new(booleans).expression().unwrap(),
        Expr::Literal(Literal::Boolean(true))
    );
    let booleans = kinds(vec![TokenKind::Boolean(false)]);
    assert_eq!(
        Parser::new(booleans).expression().unwrap(),
        Expr::Literal(Literal::Boolean(false))
    );
}

#[test]
fn number_tokens_are_validated_again() {
    let bad = kinds(vec![TokenKind::Number("12..3".to_string()), TokenKind::Eof]);
    assert_eq!(
        Parser::new(bad).expression().unwrap_err().message,
        "Invalid number literal: 12..3"
    );
    let empty = kinds(vec![TokenKind::Number(String::new())]);
    assert_eq!(
        Parser::new(empty).expression().unwrap_err().message,
        "Invalid number literal: "
    );
    let exponent = kinds(vec![TokenKind::Number("1e5".to_string())]);
    assert_eq!(Parser::new(exponent).expression().unwrap(), num("1e5"));
    let infinity = kinds(vec![TokenKind::Number("inf".to_string())]);
    assert_eq!(Parser::new(infinity).expression().unwrap(), num("inf"));
}

#[test]
fn struct_literal_fields_are_their_own_names() {
    assert_eq!(
        expr("Point { x, y }"),
        Expr::StructLiteral {
            name: "Point".to_string(),
            fields: vec![("x".to_string(), id("x")), ("y".to_string(), id("y"))],
        }
    );
    assert_eq!(
        expr("Point { }"),
        Expr::StructLiteral { name: "Point".to_string(), fields: vec![] }
    );
    assert_eq!(
        expr("Point { x, }"),
        Expr::StructLiteral {
            name: "Point".to_string(),
            fields: vec![("x".to_string(), id("x"))],
        }
    );
    assert_eq!(
        parse_expr("Point { 1 }").unwrap_err().message,
        "Expected field name in struct literal"
    );
    assert_eq!(
        parse_expr("Point { x y }").unwrap_err().message,
        "Expected '}' after struct literal"
    );
    assert_eq!(
        parse_expr("Point { x: 1 }").unwrap_err().message,
        "Expected '}' after struct literal"
    );
}

#[test]
fn block_expression_holds_declarations() {
    assert_eq!(
        expr("{ let a = 1; a; }"),
        Expr::Block(vec![
            Stmt::VariableDecl {
                is_mutable: false,
                name: "a".to_string(),
                type_annotation: None,
                initializer: Some(num("1")),
            },
            Stmt::Expression(id("a")),
        ])
    );
}

#[test]
fn unexpected_tokens_are_named() {
    assert_eq!(message(";"), "Unexpected token: Semicolon");
    assert_eq!(message("a + ;"), "Unexpected token: Semicolon");
    assert_eq!(message(")"), "Unexpected token: RightParen");
    assert_eq!(message("}"), "Unexpected token: RightBrace");
    assert_eq!(message("a = 1;"), "Expected ';' after expression");
    assert_eq!(message("* a;"), "Unexpected token: Star");
    assert_eq!(message("if a;"), "Unexpected token: If");
    assert_eq!(message("a +"), "Unexpected token: Eof");
    assert_eq!(message("a.1"), "Expected property name after '.'");
    assert_eq!(message("a."), "Expected property name after '.'");
}

#[test]
fn variable_declarations() {
    assert_eq!(
        program("var a;"),
        vec![Stmt::VariableDecl {
            is_mutable: true,
            name: "a".to_string(),
            type_annotation: None,
            initializer: None,
        }]
    );
    assert_eq!(
        program("let a = b;"),
        vec![Stmt::VariableDecl {
            is_mutable: false,
            name: "a".to_string(),
            type_annotation: None,
            initializer: Some(id("b")),
        }]
    );
    assert_eq!(
        program("var a: T;"),
        vec![Stmt::VariableDecl {
            is_mutable: true,
            name: "a".to_string(),
            type_annotation: Some(simple("T")),
            initializer: None,
        }]
    );
    assert_eq!(message("let 1 = 2;"), "Expected variable name");
    assert_eq!(message("let a: = 2;"), "Expected type name");
    assert_eq!(message("let a = ;"), "Unexpected token: Semicolon");
}

#[test]
fn type_grammar() {
    let declared = |source: &str| match program(source).pop() {
        Some(Stmt::VariableDecl { type_annotation: Some(t), .. }) => t,
        other => panic!("unexpected statement {:?}", other),
    };
    assert_eq!(declared("let a: number;"), simple("number"));
    assert_eq!(
        declared("let a: List<number>;"),
        Type::Generic { name: "List".to_string(), params: vec![simple("number")] }
    );
    assert_eq!(
        declared("let a: Map<K, List<V> >;"),
        Type::Generic {
            name: "Map".to_string(),
            params: vec![
                simple("K"),
                Type::Generic { name: "List".to_string(), params: vec![simple("V")] },
            ],
        }
    );
    assert_eq!(
        declared("let a: (A, B) -> C;"),
        Type::Function(vec![simple("A"), simple("B")], Box::new(simple("C")))
    );
    assert_eq!(
        declared("let apply: ((number) -> number, number) -> number;"),
        Type::Function(
            vec![
                Type::Function(vec![simple("number")], Box::new(simple("number"))),
                simple("number"),
            ],
            Box::new(simple("number"))
        )
    );
}

#[test]
fn type_errors() {
    assert_eq!(message("let a: (A, B) C;"), "Expected '->' in function type");
    assert_eq!(message("let a: (A, B;"), "Expected ')' in function type");
    assert_eq!(message("let a: () -> C;"), "Expected type name");
    assert_eq!(message("let a: List<A;"), "Expected '>' in generic type");
    assert_eq!(message("let a: List< >;"), "Expected type name");
    assert_eq!(message("let a: List<>;"), "Expected ';' after variable declaration");
    assert_eq!(message("let a: 1;"), "Expected type name");
}

#[test]
fn the_whole_example_program() {
    let statements = program(
        "let apply: ((number) -> number, number) -> number =\n    (f, x) -> f(x);",
    );
    assert_eq!(
        statements,
        vec![Stmt::VariableDecl {
            is_mutable: false,
            name: "apply".to_string(),
            type_annotation: Some(Type::Function(
                vec![
                    Type::Function(vec![simple("number")], Box::new(simple("number"))),
                    simple("number"),
                ],
                Box::new(simple("number"))
            )),
            initializer: Some(Expr::Lambda {
                params: vec![param("f", None), param("x", None)],
                body: Box::new(call(id("f"), vec![id("x")])),
            }),
        }]
    );
}

#[test]
fn function_declarations() {
    assert_eq!(
        program("fn f() { }"),
        vec![Stmt::FunctionDecl {
            name: "f".to_string(),
            params: vec![],
            return_type: None,
            body: vec![],
        }]
    );
    assert_eq!(
        program("fn add(a: number, b) -> number { return a + b; }"),
        vec![Stmt::FunctionDecl {
            name: "add".to_string(),
            params: vec![param("a", Some(simple("number"))), param("b", None)],
            return_type: Some(simple("number")),
            body: vec![Stmt::Return(Some(binary(id("a"), BinaryOp::Add, id("b"))))],
        }]
    );
    assert_eq!(message("fn { }"), "Expected function name");
    assert_eq!(message("fn f { }"), "Expected '(' after function name");
    assert_eq!(message("fn f(1) { }"), "Expected parameter name");
    assert_eq!(message("fn f(a { }"), "Expected ')' after parameters");
    assert_eq!(message("fn f() -> { }"), "Expected type name");
    assert_eq!(message("fn f() ;"), "Expected '{' before function body");
}

#[test]
fn return_statements() {
    assert_eq!(program("return;"), vec![Stmt::Return(None)]);
    assert_eq!(program("return a;"), vec![Stmt::Return(Some(id("a")))]);
}

#[test]
fn import_and_module_declarations() {
    assert_eq!(program("import io;"), vec![Stmt::Import("io".to_string())]);
    assert_eq!(
        program("module m { import io; let a; }"),
        vec![Stmt::ModuleDecl {
            name: "m".to_string(),
            declarations: vec![
                Stmt::Import("io".to_string()),
                Stmt::VariableDecl {
                    is_mutable: false,
                    name: "a".to_string(),
                    type_annotation: None,
                    initializer: None,
                },
            ],
        }]
    );
    assert_eq!(message("import 1;"), "Expected module name after 'import'");
    assert_eq!(message("module { }"), "Expected module name");
    assert_eq!(message("module m a"), "Expected '{' after module name");
}

#[test]
fn class_declarations() {
    assert_eq!(
        program("class A { let x: T; fn f() { } var y = 1; fn g(a) { } }"),
        vec![Stmt::ClassDecl {
            name: "A".to_string(),
            fields: vec![
                Stmt::VariableDecl {
                    is_mutable: false,
                    name: "x".to_string(),
                    type_annotation: Some(simple("T")),
                    initializer: None,
                },
                Stmt::VariableDecl {
                    is_mutable: true,
                    name: "y".to_string(),
                    type_annotation: None,
                    initializer: Some(num("1")),
                },
            ],
            methods: vec![
                Stmt::FunctionDecl {
                    name: "f".to_string(),
                    params: vec![],
                    return_type: None,
                    body: vec![],
                },
                Stmt::FunctionDecl {
                    name: "g".to_string(),
                    params: vec![param("a", None)],
                    return_type: None,
                    body: vec![],
                },
            ],
        }]
    );
    assert_eq!(
        program("class A { }"),
        vec![Stmt::ClassDecl { name: "A".to_string(), fields: vec![], methods: vec![] }]
    );
    assert_eq!(
        message("class A { x; }"),
        "Expected field declaration starting with 'let' or 'var', or a method declaration starting with 'fn'."
    );
    assert_eq!(message("class { }"), "Expected class name");
    assert_eq!(message("class A x"), "Expected '{' after class name");
}

#[test]
fn adapter_keeps_kinds_and_texts() {
    let kinds: Vec<TokenKind> = tokens_of(
        "let var fn rec class type module import return if else ( ) { } , : ; -> . + - * / % == != < <= > >= && || ! = x 1 \"s\"",
    )
    .into_iter()
    .map(|t| t.kind)
    .collect();
    assert_eq!(
        kinds,
        vec![
            TokenKind::Let,
            TokenKind::Var,
            TokenKind::Fn,
            TokenKind::Rec,
            TokenKind::Class,
            TokenKind::Type,
            TokenKind::Module,
            TokenKind::Import,
            TokenKind::Return,
            TokenKind::If,
            TokenKind::Else,
            TokenKind::LeftParen,
            TokenKind::RightParen,
            TokenKind::LeftBrace,
            TokenKind::RightBrace,
            TokenKind::Comma,
            TokenKind::Colon,
            TokenKind::Semicolon,
            TokenKind::Arrow,
            TokenKind::Dot,
            TokenKind::Plus,
            TokenKind::Minus,
            TokenKind::Star,
            TokenKind::Slash,
            TokenKind::Percent,
            TokenKind::EqualEqual,
            TokenKind::NotEqual,
            TokenKind::Less,
            TokenKind::LessEqual,
            TokenKind::Greater,
            TokenKind::GreaterEqual,
            TokenKind::And,
            TokenKind::Or,
            TokenKind::Not,
            TokenKind::Equal,
            TokenKind::Identifier("x".to_string()),
            TokenKind::Number("1".to_string()),
            TokenKind::String("s".to_string()),
            TokenKind::Eof,
        ]
    );
}

#[test]
fn adapter_turns_what_it_does_not_know_into_unknown() {
    let unknown = TokenKind::Identifier("unknown".to_string());
    let kinds: Vec<TokenKind> =
        tokens_of("+= -= & | ^ @ 1. \"open").into_iter().map(|t| t.kind).collect();
    assert_eq!(kinds.len(), 9);
    for kind in &kinds[..8] {
        assert_eq!(kind, &unknown);
    }
    assert_eq!(kinds[8], TokenKind::Eof);
    let direct = |token_type: TokenType| {
        let token = Lexer::new("x").next().unwrap();
        ParserToken::from(Token { token_type, span: token.span, errors: vec![] }).kind
    };
    assert_eq!(direct(TokenType::Keyword("while".to_string())), unknown);
    assert_eq!(direct(TokenType::LeftBracket), unknown);
    assert_eq!(direct(TokenType::RightBracket), unknown);
    assert_eq!(direct(TokenType::Boolean(true)), TokenKind::Boolean(true));
    assert_eq!(direct(TokenType::Eof), TokenKind::Eof);
    assert_eq!(direct(TokenType::Error("bad".to_string())), unknown);
}

#[test]
fn tokens_are_shown_with_their_text() {
    let show = |kind: TokenKind| ParserToken { kind }.to_string();
    assert_eq!(show(TokenKind::Identifier("a".to_string())), "identifier(a)");
    assert_eq!(show(TokenKind::Number("1.5".to_string())), "number(1.5)");
    assert_eq!(show(TokenKind::String("s t".to_string())), "string(s t)");
    assert_eq!(show(TokenKind::Boolean(true)), "Boolean(true)");
    assert_eq!(show(TokenKind::Boolean(false)), "Boolean(false)");
    assert_eq!(show(TokenKind::LeftParen), "LeftParen");
    assert_eq!(show(TokenKind::Eof), "Eof");
}

#[test]
fn kind_names_are_the_variant_names() {
    let all = vec![
        TokenKind::Let,
        TokenKind::Var,
        TokenKind::Fn,
        TokenKind::Rec,
        TokenKind::Class,
        TokenKind::Type,
        TokenKind::Module,
        TokenKind::Import,
        TokenKind::Return,
        TokenKind::If,
        TokenKind::Else,
        TokenKind::LeftParen,
        TokenKind::RightParen,
        TokenKind::LeftBrace,
        TokenKind::RightBrace,
        TokenKind::Comma,
        TokenKind::Colon,
        TokenKind::Semicolon,
        TokenKind::Arrow,
        TokenKind::Dot,
        TokenKind::Plus,
        TokenKind::Minus,
        TokenKind::Star,
        TokenKind::Slash,
        TokenKind::Percent,
        TokenKind::EqualEqual,
        TokenKind::NotEqual,
        TokenKind::Less,
        TokenKind::LessEqual,
        TokenKind::Greater,
        TokenKind::GreaterEqual,
        TokenKind::And,
        TokenKind::Or,
        TokenKind::Not,
        TokenKind::Equal,
        TokenKind::Eof,
    ];
    for kind in all {
        assert_eq!(kind.name(), format!("{:?}", kind));
        assert_eq!(kind.clone(), kind);
        assert!(kind.admits(&kind));
    }
    assert_eq!(TokenKind::Identifier("a".to_string()).name(), "Identifier");
    assert_eq!(TokenKind::Boolean(true).name(), "Boolean");
}

#[test]
fn requests_admit_any_text_but_only_the_same_boolean() {
    let a = TokenKind::Identifier("a".to_string());
    let b = TokenKind::Identifier("b".to_string());
    assert!(a.admits(&b));
    assert!(TokenKind::Number(String::new()).admits(&TokenKind::Number("1".to_string())));
    assert!(TokenKind::String(String::new()).admits(&TokenKind::String("s".to_string())));
    assert!(!a.admits(&TokenKind::String("a".to_string())));
    assert!(TokenKind::Boolean(true).admits(&TokenKind::Boolean(true)));
    assert!(!TokenKind::Boolean(true).admits(&TokenKind::Boolean(false)));
    assert!(!TokenKind::Plus.admits(&TokenKind::Minus));
    assert_eq!(a.clone(), a);
}

#[test]
fn unbalanced_brackets_do_not_parse() {
    let sources = [
        "(a;",
        "a);",
        "((a);",
        "f(a;",
        "f(a));",
        "{ a;",
        "a; }",
        "{ { a; }",
        "fn f() { { }",
        "fn f( { }",
        "fn f()) { }",
        "class A { fn f() { }",
        "class A { } }",
        "module m { class A { }",
        "P { x ;",
        "let f = (a, b -> a;",
        "let t: (A, B -> C;",
        "let t: (A)) -> C;",
    ];
    for source in sources {
        assert!(parse(source).is_err(), "{}", source);
    }
}

#[test]
fn what_parses_has_as_many_closing_as_opening_brackets() {
    let sources = [
        "",
        "a;",
        "f(a, (b), g())(c).d;",
        "let f: ((A) -> B, C) -> D = (x: (A) -> B, y) -> { return x(y); };",
        "class A { let p = P { x, y }; fn f(a) { { }; } }",
        "module m { fn f() { } module n { } }",
    ];
    for source in sources {
        let tokens = tokens_of(source);
        let count = |kind: &TokenKind| tokens.iter().filter(|t| &t.kind == kind).count();
        assert!(Parser::new(tokens_of(source)).parse_program().is_ok(), "{}", source);
        assert_eq!(count(&TokenKind::LeftParen), count(&TokenKind::RightParen), "{}", source);
        assert_eq!(count(&TokenKind::LeftBrace), count(&TokenKind::RightBrace), "{}", source);
    }
}

#[test]
fn every_construct_consumes_tokens() {
    let mut parser = Parser::new(tokens_of("a + b; c;"));
    let first = parser.expression().unwrap();
    assert_eq!(first, binary(id("a"), BinaryOp::Add, id("b")));
    assert!(parser.expression().is_err());
    let rest = Parser::new(tokens_of("; c;")).parse_program();
    assert!(rest.is_err());
}
