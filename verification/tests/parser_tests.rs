use dislang::lexer::{new_lexer, Token};
use dislang::parser::ast::{Expr, Ident, Infix, LLVMExpressionType, Literal, Prefix, Stmt};
use dislang::parser::Parser;

fn ident(name: &str) -> Ident {
    Ident(String::from(name))
}

fn name(text: &str) -> Expr {
    Expr::Ident(ident(text))
}

fn number(value: i64) -> Expr {
    Expr::Literal(Literal::Int(value))
}

fn parse_all(input: &str) -> (Vec<Stmt>, Vec<Stmt>, bool) {
    let mut parser = Parser::new(new_lexer(input));
    let programs = parser.parse();
    assert_eq!(programs.len(), 2);
    (programs[0].clone(), programs[1].clone(), parser.has_failed())
}

#[test]
#[allow(unreachable_code)]
fn test_blank() {
    let input = String::from(
        "
        1000;
        1000;
        1000;
        if (x) {
            x = 5;
        }",
    );

    let mut parser = Parser::new(new_lexer(&input));
    let programs = parser.parse();
    let program = programs.get(0).unwrap().clone();
    assert!(true);
    return;
    assert_eq!(
        vec![
            Stmt::Expr(Expr::Literal(Literal::Int(1000))),
            Stmt::Expr(Expr::Literal(Literal::Int(1000))),
            Stmt::Expr(Expr::Literal(Literal::Int(1000))),
            Stmt::Expr(Expr::If {
                cond: Box::new(Expr::Ident(Ident(String::from("x")))),
                consequence: vec![Stmt::Assignment(
                    Ident(String::from("x")),
                    Expr::Literal(Literal::Int(1000))
                )],
                alternative: None,
            }),
        ],
        program,
    );
}

#[test]
fn test_func_ast_1() {
    let input = "func takevalues(x: int, y: int): int {takevalues()}";
    let mut parser = Parser::new(new_lexer(input));
    let programs = parser.parse();
    let program = programs.get(0).unwrap().clone();
    let _program2 = programs.get(1).unwrap().clone();
    println!("{:?}", program);
    assert_eq!(
        vec![Stmt::Func {
            distributed: false,
            name: String::from("takevalues"),
            params: vec![Ident(String::from("x")), Ident(String::from("y"))],
            param_types: vec![LLVMExpressionType::Integer, LLVMExpressionType::Integer],
            return_type: LLVMExpressionType::Integer,
            body: vec![Stmt::Expr(Expr::Call {
                func: Box::new(Expr::Ident(Ident(String::from("takevalues")))),
                args: vec![]
            })],
        }],
        program,
    );
}

#[test]
fn test_func_ast_2() {
    let input = "dis func takevalues(x: int, y: int): int {}";
    let mut parser = Parser::new(new_lexer(input));
    let programs = parser.parse();
    let _program = programs.get(0).unwrap().clone();
    let program2 = programs.get(1).unwrap().clone();
    assert_eq!(
        vec![Stmt::Func {
            distributed: true,
            name: String::from("takevalues"),
            params: vec![Ident(String::from("x")), Ident(String::from("y"))],
            param_types: vec![LLVMExpressionType::Integer, LLVMExpressionType::Integer],
            return_type: LLVMExpressionType::Integer,
            body: vec![],
        }],
        program2,
    );
}

#[test]
fn blank_text_parses_to_what_it_says() {
    let (program, second, failed) = parse_all(
        "
        1000;
        1000;
        1000;
        if (x) {
            x = 5;
        }",
    );
    assert!(!failed);
    assert!(second.is_empty());
    assert_eq!(
        program,
        vec![
            Stmt::Expr(number(1000)),
            Stmt::Expr(number(1000)),
            Stmt::Expr(number(1000)),
            Stmt::Expr(Expr::If {
                cond: Box::new(name("x")),
                consequence: vec![Stmt::Assignment(ident("x"), number(5))],
                alternative: None,
            }),
        ]
    );
}

#[test]
fn distributable_functions_go_to_both_lists() {
    let (program, second, failed) = parse_all(
        "func a(): int { return 1; } dis func b(): int { return 2; } let x: int = 3; dis func c(p: bool): bool { return p; }",
    );
    assert!(!failed);
    assert_eq!(program.len(), 4);
    assert_eq!(second.len(), 2);
    assert_eq!(second[0], program[1]);
    assert_eq!(second[1], program[3]);
    match &program[0] {
        Stmt::Func { name, distributed, .. } => {
            assert_eq!(name, "a");
            assert!(!*distributed);
        }
        other => panic!("not a function: {:?}", other),
    }
    match &second[1] {
        Stmt::Func { name, distributed, params, param_types, return_type, body } => {
            assert_eq!(name, "c");
            assert!(*distributed);
            assert_eq!(params, &vec![ident("p")]);
            assert_eq!(param_types, &vec![LLVMExpressionType::Boolean]);
            assert_eq!(*return_type, LLVMExpressionType::Boolean);
            assert_eq!(body, &vec![Stmt::Return(name_expr("p"))]);
        }
        other => panic!("not a function: {:?}", other),
    }
}

fn name_expr(text: &str) -> Expr {
    name(text)
}

#[test]
fn let_assign_return() {
    let (program, _, failed) = parse_all("let a: int = 1; let b: int = 2; a = b return a + b;");
    assert!(!failed);
    assert_eq!(
        program,
        vec![
            Stmt::Let(ident("a"), number(1), LLVMExpressionType::Integer),
            Stmt::Let(ident("b"), number(2), LLVMExpressionType::Integer),
            Stmt::Assignment(ident("a"), name("b")),
            Stmt::Return(Expr::Infix(Infix::Plus, Box::new(name("a")), Box::new(name("b")))),
        ]
    );
}

#[test]
fn unknown_type_names_declare_null() {
    let (program, _, failed) = parse_all("let f: thing = g;");
    assert!(!failed);
    assert_eq!(program, vec![Stmt::Let(ident("f"), name("g"), LLVMExpressionType::Null)]);
}

#[test]
fn operators_bind_by_precedence_and_to_the_left() {
    let (program, _, failed) = parse_all("1 + 2 - 3 == 4 != -5;");
    assert!(!failed);
    let sum = Expr::Infix(
        Infix::Minus,
        Box::new(Expr::Infix(Infix::Plus, Box::new(number(1)), Box::new(number(2)))),
        Box::new(number(3)),
    );
    let eq = Expr::Infix(Infix::Equal, Box::new(sum), Box::new(number(4)));
    let ne = Expr::Infix(
        Infix::NotEqual,
        Box::new(eq),
        Box::new(Expr::Prefix(Prefix::Minus, Box::new(number(5)))),
    );
    assert_eq!(program, vec![Stmt::Expr(ne)]);
}

#[test]
fn grouping_and_prefixes() {
    let (program, _, failed) = parse_all("!(a == b); +1 - (2 + 3)");
    assert!(!failed);
    assert_eq!(
        program,
        vec![
            Stmt::Expr(Expr::Prefix(
                Prefix::Not,
                Box::new(Expr::Infix(Infix::Equal, Box::new(name("a")), Box::new(name("b"))))
            )),
            Stmt::Expr(Expr::Infix(
                Infix::Minus,
                Box::new(Expr::Prefix(Prefix::Plus, Box::new(number(1)))),
                Box::new(Expr::Infix(Infix::Plus, Box::new(number(2)), Box::new(number(3))))
            )),
        ]
    );
}

#[test]
fn calls_with_arguments() {
    let (program, _, failed) = parse_all("let r: int = add(2, 3 + 4)(true);");
    assert!(!failed);
    let inner = Expr::Call {
        func: Box::new(name("add")),
        args: vec![number(2), Expr::Infix(Infix::Plus, Box::new(number(3)), Box::new(number(4)))],
    };
    let outer = Expr::Call { func: Box::new(inner), args: vec![Expr::Literal(Literal::Bool(true))] };
    assert_eq!(program, vec![Stmt::Let(ident("r"), outer, LLVMExpressionType::Integer)]);
}

#[test]
fn if_with_else_and_nested_blocks() {
    let (program, _, failed) =
        parse_all("if (true) { return 1; } else { if (false) { x = 2; } return 3; } return 4;");
    assert!(!failed);
    assert_eq!(
        program,
        vec![
            Stmt::Expr(Expr::If {
                cond: Box::new(Expr::Literal(Literal::Bool(true))),
                consequence: vec![Stmt::Return(number(1))],
                alternative: Some(vec![
                    Stmt::Expr(Expr::If {
                        cond: Box::new(Expr::Literal(Literal::Bool(false))),
                        consequence: vec![Stmt::Assignment(ident("x"), number(2))],
                        alternative: None,
                    }),
                    Stmt::Return(number(3)),
                ]),
            }),
            Stmt::Return(number(4)),
        ]
    );
}

#[test]
fn refused_texts_set_the_flag_and_keep_what_was_read() {
    for text in ["1; let x = 2;", "1; (2 + 3;", "1; if x { }", "1; 2 + ;", "1; dis x", "1; f(2, 3"] {
        let (program, second, failed) = parse_all(text);
        assert!(failed, "accepted: {}", text);
        assert_eq!(program, vec![Stmt::Expr(number(1))], "for: {}", text);
        assert!(second.is_empty());
    }
    let (program, _, failed) = parse_all("func f(a: int): int { return a; } }");
    assert!(failed);
    assert_eq!(program.len(), 1);
}

#[test]
fn a_let_without_a_name_yields_no_statement() {
    let (program, _, failed) = parse_all("let 5; 7;");
    assert!(!failed);
    assert_eq!(program, vec![Stmt::Expr(number(5)), Stmt::Expr(number(7))]);
}

#[test]
fn parse_type_and_block_from_the_cursor() {
    let mut parser = Parser::new(new_lexer("x: bool { 1; 2 } 3"));
    assert_eq!(parser.parse_type(), Some(LLVMExpressionType::Boolean));
    assert!(!parser.has_failed());
    let mut at_block = Parser::new(new_lexer("{ 1; 2 } 3"));
    let block = at_block.parse_block_stmt();
    assert_eq!(block, vec![Stmt::Expr(number(1)), Stmt::Expr(number(2))]);
    let mut no_colon = Parser::new(new_lexer("x int"));
    assert_eq!(no_colon.parse_type(), None);
    assert!(no_colon.has_failed());
}

#[test]
fn token_types_convert() {
    let mut parser = Parser::new(new_lexer(""));
    assert_eq!(parser.convert_token_to_expression_type(Token::IntType), LLVMExpressionType::Integer);
    assert_eq!(parser.convert_token_to_expression_type(Token::BoolType), LLVMExpressionType::Boolean);
    assert_eq!(parser.convert_token_to_expression_type(Token::Let), LLVMExpressionType::Null);
    assert_eq!(
        parser.convert_token_to_expression_type(Token::Ident("int".to_owned())),
        LLVMExpressionType::Null
    );
}
