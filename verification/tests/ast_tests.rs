use monkey_parser::ExpressionNode;
use monkey_parser::Identifier;
use monkey_parser::LetStatement;
use monkey_parser::Node;
use monkey_parser::Program;
use monkey_parser::StatementNode;
use monkey_parser::Token;
use monkey_parser::TokenKind;

#[test]
fn test_print_string() {
    let program = Program {
        statements: vec![StatementNode::Let(LetStatement {
            token: Token {
                kind: TokenKind::Let,
                literal: String::from("let"),
            },

            name: Identifier {
                token: Token {
                    kind: TokenKind::Ident,
                    literal: String::from("myVar"),
                },
                value: String::from("myVar"),
            },
            value: Some(ExpressionNode::IdentifierNode(Identifier {
                token: Token {
                    kind: TokenKind::Ident,
                    literal: String::from("anotherVar"),
                },
                value: String::from("anotherVar"),
            })),
        })],
    };

    assert_eq!(
        program.print_string(),
        String::from("let myVar = anotherVar;"),
        "print string wrong. got = {}",
        program.print_string()
    )
}

#[test]
fn empty_program_prints_nothing() {
    let program = Program { statements: vec![] };
    assert_eq!(program.print_string(), String::new());
    assert_eq!(program.token_literal(), String::from("value"));
}

#[test]
fn return_statement_prints_value() {
    let program = Program {
        statements: vec![StatementNode::Return(
            monkey_parser::ReturnStatement {
                token: Token {
                    kind: TokenKind::Return,
                    literal: String::from("return"),
                },
                ret_value: Some(ExpressionNode::IdentifierNode(Identifier {
                    token: Token {
                        kind: TokenKind::Ident,
                        literal: String::from("x"),
                    },
                    value: String::from("x"),
                })),
            },
        )],
    };
    assert_eq!(program.print_string(), String::from("return x;"));
    assert_eq!(program.token_literal(), String::from("return"));
}
