use monkey_parser::ExpressionNode;
use monkey_parser::Lexer;
use monkey_parser::Node;
use monkey_parser::Program;
use monkey_parser::StatementNode;
use monkey_parser::Parser;
use monkey_parser::TokenKind;

fn parse(input: &str) -> Program {
    let lexer = Lexer::new(input);
    let mut parser = Parser::new(lexer);
    let program = parser.parse_program();
    check_parser_errors(parser);
    program.expect("Parse program should not be none")
}

#[test]
fn test_let_statements() {
    let input = r#"
        let x= 5;
        let y= 10;
        let foobar = 838383;

        "#;

    let lexer = Lexer::new(input);
    let mut parser = Parser::new(lexer);
    let program = parser.parse_program();
    check_parser_errors(parser);

    match program {
        Some(program) => {
            assert_eq!(
                program.statements.len(),
                3,
                "statements does not contain 3 statements, got{}",
                program.statements.len()
            );

            let expected = vec!["x", "y", "foobar"];
            for (idx, exp) in expected.into_iter().enumerate() {
                let stmt = &program.statements[idx];
                test_let_statement(stmt, exp);
            }
        }
        None => {
            panic!("Parse program should not be none");
        }
    }
}

#[test]
fn test_return_statements() {
    let input = r#"
            return 5;
            return 10;
            return 993322;
        "#;

    let lexer = Lexer::new(input);
    let mut parser = Parser::new(lexer);
    let program = parser.parse_program();
    check_parser_errors(parser);

    match program {
        Some(program) => {
            assert_eq!(
                program.statements.len(),
                3,
                "statements does not contain 3 statements, got{}",
                program.statements.len()
            );

            for stmt in program.statements {
                match stmt {
                    StatementNode::Return(ret_stmt) => {
                        assert_eq!(
                            ret_stmt.token_literal(),
                            "return",
                            "token literal not return, got={:?}",
                            ret_stmt.token_literal()
                        );
                    }
                    other => panic!("not a Return Statement got {:?}", other),
                }
            }
        }
        None => {
            panic!("Parse program should not be none");
        }
    }
}

#[test]
fn test_identifier_expressions() {
    let input = "foobar;";

    let lexer = Lexer::new(input);
    let mut parser = Parser::new(lexer);

    let program = parser.parse_program().unwrap();

    assert_eq!(
        program.statements.len(),
        1,
        "statements does not contain statements. got = {}",
        program.statements.len()
    );

    match &program.statements[0] {
        StatementNode::Expression(exp_stmt) => {
            assert!(exp_stmt.expression.is_some());
            match exp_stmt.expression.as_ref().unwrap() {
                ExpressionNode::IdentifierNode(identifier) => {
                    assert_eq!(
                        identifier.value, "foobar",
                        "identifir vlue nor 'foobar' got = {}",
                        identifier.value
                    );
                    assert_eq!(
                        identifier.token_literal(),
                        "foobar",
                        "identifier.token_literal() i not 'foobar', gor = {}",
                        identifier.token_literal()
                    )
                }
                other => panic!("expression not identifier, got = {:?}", other),
            }
        }
        other => panic!(
            "program.statements[o] is not ExpressionStatement got = {:?}",
            other
        ),
    }
}

#[test]
fn integer_literal_expression() {
    let program = parse("5;");
    assert_eq!(program.statements.len(), 1);
    match &program.statements[0] {
        StatementNode::Expression(exp_stmt) => match exp_stmt.expression.as_ref().unwrap() {
            ExpressionNode::Integer(int_lit) => {
                assert_eq!(int_lit.value, 5);
                assert_eq!(int_lit.token_literal(), "5");
            }
            other => panic!("expression not integer literal, got = {:?}", other),
        },
        other => panic!("not an ExpressionStatement, got = {:?}", other),
    }
}

#[test]
fn largest_integer_literal_parses() {
    let program = parse("9223372036854775807;");
    match &program.statements[0] {
        StatementNode::Expression(exp_stmt) => match exp_stmt.expression.as_ref().unwrap() {
            ExpressionNode::Integer(int_lit) => assert_eq!(int_lit.value, i64::MAX),
            other => panic!("expression not integer literal, got = {:?}", other),
        },
        other => panic!("not an ExpressionStatement, got = {:?}", other),
    }
}

#[test]
fn integer_literal_overflow_is_reported() {
    let lexer = Lexer::new("9223372036854775808;");
    let mut parser = Parser::new(lexer);
    let program = parser.parse_program().unwrap();
    assert_eq!(program.statements.len(), 1);
    let errors = parser.errors();
    assert_eq!(errors.len(), 1);
    assert_eq!(
        errors[0],
        "could not parse 9223372036854775808 as integer"
    );
}

#[test]
fn statement_nodes_carry_their_originating_tokens() {
    let program = parse("foobar;\n!5");
    assert_eq!(program.statements.len(), 2);
    match &program.statements[0] {
        StatementNode::Expression(exp_stmt) => {
            assert_eq!(exp_stmt.token.kind, TokenKind::Ident);
            assert_eq!(exp_stmt.token.literal, "foobar");
        }
        other => panic!("not an ExpressionStatement, got = {:?}", other),
    }
    match &program.statements[1] {
        StatementNode::Expression(exp_stmt) => {
            assert_eq!(exp_stmt.token.kind, TokenKind::Bang);
            match exp_stmt.expression.as_ref().unwrap() {
                ExpressionNode::Prefix(pre) => {
                    assert_eq!(pre.token.kind, TokenKind::Bang);
                    assert_eq!(pre.token.literal, "!");
                    assert_eq!(pre.operator, "!");
                }
                other => panic!("expression not prefix, got = {:?}", other),
            }
        }
        other => panic!("not an ExpressionStatement, got = {:?}", other),
    }
}

#[test]
fn prefix_expression_rendering() {
    let bang = parse("!5");
    assert_eq!(bang.print_string(), "(!5)");
    let minus = parse("-15");
    assert_eq!(minus.print_string(), "(-15)");
}

#[test]
fn let_statement_renders_round_trip() {
    let program = parse("let myVar = anotherVar;");
    assert_eq!(program.statements.len(), 1);
    assert_eq!(program.print_string(), "let myVar = anotherVar;");
}

#[test]
fn missing_identifier_is_reported_without_abort() {
    let lexer = Lexer::new("let = 5;");
    let mut parser = Parser::new(lexer);
    let program = parser.parse_program();
    assert!(program.is_some());
    let errors = parser.errors();
    assert!(errors.len() >= 1);
    assert_eq!(
        errors[0],
        "expected next token to be Ident, got Assign instead"
    );
    assert_eq!(errors[1], "no prefix parse function for Assign found");
    // recovery drops the broken let statement and goes on scanning
    assert!(program
        .unwrap()
        .statements
        .iter()
        .all(|s| !matches!(s, StatementNode::Let(_))));
}

#[test]
fn missing_assign_is_reported_without_abort() {
    let lexer = Lexer::new("let x 5;\nlet y = 10;");
    let mut parser = Parser::new(lexer);
    let program = parser.parse_program().unwrap();
    let errors = parser.errors();
    assert_eq!(
        errors[0],
        "expected next token to be Assign, got Int instead"
    );
    assert!(program
        .statements
        .iter()
        .any(|s| matches!(s, StatementNode::Let(_))));
}

#[test]
fn missing_prefix_rule_is_reported() {
    let lexer = Lexer::new("+;");
    let mut parser = Parser::new(lexer);
    let program = parser.parse_program().unwrap();
    assert_eq!(program.statements.len(), 1);
    let errors = parser.errors();
    assert_eq!(errors.len(), 1);
    assert_eq!(errors[0], "no prefix parse function for Plus found");
}

#[test]
fn dangling_prefix_operator_is_reported() {
    let lexer = Lexer::new("!");
    let mut parser = Parser::new(lexer);
    let program = parser.parse_program().unwrap();
    assert_eq!(program.statements.len(), 1);
    let errors = parser.errors();
    assert_eq!(errors.len(), 1);
    assert_eq!(errors[0], "no prefix parse function for Eof found");
}

#[test]
fn empty_input_parses_to_empty_program() {
    let program = parse("");
    assert_eq!(program.statements.len(), 0);
    assert_eq!(program.print_string(), "");
}

fn test_let_statement(stmt: &StatementNode, expected: &str) {
    assert_eq!(
        stmt.token_literal(),
        "let",
        "token literal not 'let' got = {}",
        stmt.token_literal()
    );

    match stmt {
        StatementNode::Let(let_stmt) => {
            assert_eq!(
                let_stmt.name.value, expected,
                "LetStatement name value not {}. got {}",
                expected, let_stmt.name.value
            );

            assert_eq!(
                let_stmt.name.token_literal(),
                expected,
                "LetStatement name value not {}. got {}",
                expected,
                let_stmt.name.value
            );
        }
        other => panic!("not a Let Statement got {:?}", other),
    }
}

fn check_parser_errors(parser: Parser) {
    let errors = parser.errors();

    if errors.len() == 0 {
        return;
    }

    for error in errors {
        println!("parser error: {}", error)
    }

    panic!("parser error present");
}
