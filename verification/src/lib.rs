pub mod ast;
pub mod lexer;
pub mod parser;
pub mod token;

pub use ast::ExpressionNode;
pub use ast::ExpressionStatement;
pub use ast::Identifier;
pub use ast::IntegerLiteral;
pub use ast::LetStatement;
pub use ast::Node;
pub use ast::PrefixExpression;
pub use ast::Program;
pub use ast::ReturnStatement;
pub use ast::StatementNode;
pub use lexer::Lexer;
pub use parser::Parser;

pub use token::lookup_ident;
pub use token::Token;
pub use token::TokenKind;
