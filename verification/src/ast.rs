//! The AST model: statement and expression nodes as closed tagged unions, a
//! root `Program` node, and the `Node` capability — the originating token's
//! literal text and a canonical textual rendering, each pinned to a spec-level
//! rendering function.

use crate::token::Token;
use vstd::prelude::*;

verus! {

/// The uniform describe capability of every AST node: the literal text of its
/// originating token, and its canonical textual rendering.
pub trait Node {
    /// The literal text of the node's originating token.
    spec fn spec_token_literal(&self) -> Seq<char>;

    /// The node's canonical textual rendering.
    spec fn spec_render(&self) -> Seq<char>;

    fn token_literal(&self) -> (r: String)
        ensures
            r@ == self.spec_token_literal(),
    ;

    fn print_string(&self) -> (r: String)
        ensures
            r@ == self.spec_render(),
    ;
}

/// An expression in statement position.
#[derive(Debug)]
pub enum StatementNode {
    Let(LetStatement),
    Return(ReturnStatement),
    Expression(ExpressionStatement),
}

/// An expression node: one of the closed set of expression forms.
#[derive(Debug)]
pub enum ExpressionNode {
    IdentifierNode(Identifier),
    Integer(IntegerLiteral),
    Prefix(PrefixExpression),
}

/// The root node: the program's top-level statements in source order.
pub struct Program {
    pub statements: Vec<StatementNode>,
}

/// A plain name in expression position.
#[derive(Debug)]
pub struct Identifier {
    pub token: Token,
    pub value: String,
}

/// `let <name> = <value>;` — the value may be absent only while the parser
/// recovers from an error in it.
#[derive(Debug)]
pub struct LetStatement {
    pub token: Token,
    pub name: Identifier,
    pub value: Option<ExpressionNode>,
}

/// `return <value>;` — the value may be absent only while the parser recovers
/// from an error in it.
#[derive(Debug)]
pub struct ReturnStatement {
    pub token: Token,
    pub ret_value: Option<ExpressionNode>,
}

/// A bare expression used as a statement.
#[derive(Debug)]
pub struct ExpressionStatement {
    pub token: Token,
    pub expression: Option<ExpressionNode>,
}

/// An integer literal; its value always fits the 64-bit signed range, since
/// overflowing literal text is a parse error, never a node.
#[derive(Debug)]
pub struct IntegerLiteral {
    pub token: Token,
    pub value: i64,
}

/// A prefix operator applied to an operand, e.g. `!5` or `-15`.
#[derive(Debug)]
pub struct PrefixExpression {
    pub token: Token,
    pub operator: String,
    pub right: Box<ExpressionNode>,
}

/// The literal text of an expression's originating token.
pub open spec fn expr_token_literal(e: ExpressionNode) -> Seq<char> {
    match e {
        ExpressionNode::IdentifierNode(ident) => ident.token.literal@,
        ExpressionNode::Integer(int_lit) => int_lit.token.literal@,
        ExpressionNode::Prefix(pre) => pre.token.literal@,
    }
}

/// Canonical rendering of an expression: a name or an integer literal renders
/// as its text; a prefix expression is fully parenthesized.
pub open spec fn expr_render(e: ExpressionNode) -> Seq<char>
    decreases e,
{
    match e {
        ExpressionNode::IdentifierNode(ident) => ident.value@,
        ExpressionNode::Integer(int_lit) => int_lit.token.literal@,
        ExpressionNode::Prefix(pre) => "("@ + pre.operator@ + expr_render(*pre.right) + ")"@,
    }
}

/// Canonical rendering of an optional expression; an absent one renders as
/// nothing.
pub open spec fn opt_expr_render(v: Option<ExpressionNode>) -> Seq<char> {
    match v {
        Some(e) => expr_render(e),
        None => Seq::<char>::empty(),
    }
}

/// Canonical rendering of a prefix expression.
pub open spec fn prefix_render(pre: PrefixExpression) -> Seq<char> {
    "("@ + pre.operator@ + expr_render(*pre.right) + ")"@
}

/// Canonical rendering of a `let` statement: `let <name> = <value>;`.
pub open spec fn let_render(l: LetStatement) -> Seq<char> {
    l.token.literal@ + " "@ + l.name.value@ + " = "@ + opt_expr_render(l.value) + ";"@
}

/// Canonical rendering of a `return` statement: `return <value>;`.
pub open spec fn return_render(r: ReturnStatement) -> Seq<char> {
    r.token.literal@ + " "@ + opt_expr_render(r.ret_value) + ";"@
}

/// Canonical rendering of an expression statement: its expression alone.
pub open spec fn expr_stmt_render(e: ExpressionStatement) -> Seq<char> {
    opt_expr_render(e.expression)
}

/// Canonical rendering of a statement.
pub open spec fn stmt_render(s: StatementNode) -> Seq<char> {
    match s {
        StatementNode::Let(l) => let_render(l),
        StatementNode::Return(r) => return_render(r),
        StatementNode::Expression(e) => expr_stmt_render(e),
    }
}

/// The literal text of a statement's originating token.
pub open spec fn stmt_token_literal(s: StatementNode) -> Seq<char> {
    match s {
        StatementNode::Let(l) => l.token.literal@,
        StatementNode::Return(r) => r.token.literal@,
        StatementNode::Expression(e) => e.token.literal@,
    }
}

/// Canonical rendering of a statement sequence: each statement's rendering,
/// concatenated in order.
pub open spec fn program_render(stmts: Seq<StatementNode>) -> Seq<char>
    decreases stmts.len(),
{
    if stmts.len() == 0 {
        Seq::<char>::empty()
    } else {
        program_render(stmts.drop_last()) + stmt_render(stmts.last())
    }
}

/// Renders one expression; recursion mirrors the tree.
fn expr_print(e: &ExpressionNode) -> (r: String)
    ensures
        r@ == expr_render(*e),
    decreases *e,
{
    match e {
        ExpressionNode::IdentifierNode(ident) => ident.value.clone(),
        ExpressionNode::Integer(int_lit) => int_lit.token.literal.clone(),
        ExpressionNode::Prefix(pre) => {
            let mut out = String::from_str("(");
            out.append(pre.operator.as_str());
            let right = expr_print(&*pre.right);
            out.append(right.as_str());
            out.append(")");
            out
        },
    }
}

impl Node for Identifier {
    open spec fn spec_token_literal(&self) -> Seq<char> {
        self.token.literal@
    }

    open spec fn spec_render(&self) -> Seq<char> {
        self.value@
    }

    fn token_literal(&self) -> (r: String) {
        self.token.literal.clone()
    }

    fn print_string(&self) -> (r: String) {
        self.value.clone()
    }
}

impl Node for IntegerLiteral {
    open spec fn spec_token_literal(&self) -> Seq<char> {
        self.token.literal@
    }

    open spec fn spec_render(&self) -> Seq<char> {
        self.token.literal@
    }

    fn token_literal(&self) -> (r: String) {
        self.token.literal.clone()
    }

    fn print_string(&self) -> (r: String) {
        self.token.literal.clone()
    }
}

impl Node for PrefixExpression {
    open spec fn spec_token_literal(&self) -> Seq<char> {
        self.token.literal@
    }

    open spec fn spec_render(&self) -> Seq<char> {
        prefix_render(*self)
    }

    fn token_literal(&self) -> (r: String) {
        self.token.literal.clone()
    }

    fn print_string(&self) -> (r: String) {
        let mut out = String::from_str("(");
        out.append(self.operator.as_str());
        let right = expr_print(&*self.right);
        out.append(right.as_str());
        out.append(")");
        out
    }
}

impl Node for ExpressionNode {
    open spec fn spec_token_literal(&self) -> Seq<char> {
        expr_token_literal(*self)
    }

    open spec fn spec_render(&self) -> Seq<char> {
        expr_render(*self)
    }

    fn token_literal(&self) -> (r: String) {
        match self {
            ExpressionNode::IdentifierNode(ident) => ident.token.literal.clone(),
            ExpressionNode::Integer(int_lit) => int_lit.token.literal.clone(),
            ExpressionNode::Prefix(pre) => pre.token.literal.clone(),
        }
    }

    fn print_string(&self) -> (r: String) {
        expr_print(self)
    }
}

impl Node for LetStatement {
    open spec fn spec_token_literal(&self) -> Seq<char> {
        self.token.literal@
    }

    open spec fn spec_render(&self) -> Seq<char> {
        let_render(*self)
    }

    fn token_literal(&self) -> (r: String) {
        self.token.literal.clone()
    }

    fn print_string(&self) -> (r: String) {
        let mut out = self.token.literal.clone();
        out.append(" ");
        out.append(self.name.value.as_str());
        out.append(" = ");
        if let Some(value) = &self.value {
            let v = expr_print(value);
            out.append(v.as_str());
        } else {
            proof {
                assert(out@ + opt_expr_render(self.value) =~= out@);
            }
        }
        out.append(";");
        out
    }
}

impl Node for ReturnStatement {
    open spec fn spec_token_literal(&self) -> Seq<char> {
        self.token.literal@
    }

    open spec fn spec_render(&self) -> Seq<char> {
        return_render(*self)
    }

    fn token_literal(&self) -> (r: String) {
        self.token.literal.clone()
    }

    fn print_string(&self) -> (r: String) {
        let mut out = self.token.literal.clone();
        out.append(" ");
        if let Some(value) = &self.ret_value {
            let v = expr_print(value);
            out.append(v.as_str());
        } else {
            proof {
                assert(out@ + opt_expr_render(self.ret_value) =~= out@);
            }
        }
        out.append(";");
        out
    }
}

impl Node for ExpressionStatement {
    open spec fn spec_token_literal(&self) -> Seq<char> {
        self.token.literal@
    }

    open spec fn spec_render(&self) -> Seq<char> {
        expr_stmt_render(*self)
    }

    fn token_literal(&self) -> (r: String) {
        self.token.literal.clone()
    }

    fn print_string(&self) -> (r: String) {
        if let Some(expression) = &self.expression {
            expr_print(expression)
        } else {
            String::new()
        }
    }
}

impl Node for StatementNode {
    open spec fn spec_token_literal(&self) -> Seq<char> {
        stmt_token_literal(*self)
    }

    open spec fn spec_render(&self) -> Seq<char> {
        stmt_render(*self)
    }

    fn token_literal(&self) -> (r: String) {
        match self {
            StatementNode::Let(let_stmt) => let_stmt.token_literal(),
            StatementNode::Return(ret_stmt) => ret_stmt.token_literal(),
            StatementNode::Expression(expression) => expression.token_literal(),
        }
    }

    fn print_string(&self) -> (r: String) {
        match self {
            StatementNode::Let(let_stmt) => let_stmt.print_string(),
            StatementNode::Return(ret_stmt) => ret_stmt.print_string(),
            StatementNode::Expression(expression) => expression.print_string(),
        }
    }
}

impl Node for Program {
    open spec fn spec_token_literal(&self) -> Seq<char> {
        if self.statements@.len() > 0 {
            stmt_token_literal(self.statements@[0])
        } else {
            "value"@
        }
    }

    open spec fn spec_render(&self) -> Seq<char> {
        program_render(self.statements@)
    }

    fn token_literal(&self) -> (r: String) {
        if self.statements.len() > 0 {
            self.statements[0].token_literal()
        } else {
            String::from_str("value")
        }
    }

    fn print_string(&self) -> (r: String) {
        let mut out = String::new();
        let mut i: usize = 0;
        while i < self.statements.len()
            invariant
                i <= self.statements@.len(),
                out@ == program_render(self.statements@.take(i as int)),
            decreases self.statements@.len() - i,
        {
            let piece = self.statements[i].print_string();
            out.append(piece.as_str());
            i = i + 1;
            proof {
                let stmts = self.statements@;
                assert(stmts.take(i as int).drop_last() =~= stmts.take(i as int - 1));
                assert(stmts.take(i as int).last() == stmts[i as int - 1]);
            }
        }
        proof {
            assert(self.statements@.take(self.statements@.len() as int) =~= self.statements@);
        }
        out
    }
}

/// Round-trip rendering law: a `let` statement that carries the keyword's own
/// text, a name `n`, and an identifier-valued expression `v` renders exactly
/// as `let n = v;`.
pub proof fn lemma_let_statement_render(l: LetStatement, n: Seq<char>, v: Seq<char>)
    requires
        l.token.literal@ == "let"@,
        l.name.value@ == n,
        l.value matches Some(e) && e matches ExpressionNode::IdentifierNode(id) && id.value@ == v,
    ensures
        let_render(l) == "let "@ + n + " = "@ + v + ";"@,
{
    reveal_strlit("let");
    reveal_strlit(" ");
    reveal_strlit("let ");
    assert(let_render(l) =~= "let "@ + n + " = "@ + v + ";"@);
}

} // verus!
