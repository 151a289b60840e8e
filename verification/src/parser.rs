//! The parser: a Pratt-style recursive descent over the scanner's token
//! stream, one token of lookahead, best-effort error recovery. Its behaviour
//! is pinned to a parse model: spec functions over the token stream that say,
//! for every cursor index, which node is built, which diagnostics are
//! recorded, and where the cursor lands.

use crate::ast::ExpressionNode;
use crate::ast::ExpressionStatement;
use crate::ast::Identifier;
use crate::ast::IntegerLiteral;
use crate::ast::LetStatement;
use crate::ast::PrefixExpression;
use crate::ast::Program;
use crate::ast::ReturnStatement;
use crate::ast::StatementNode;
use crate::lexer::is_digit_char;
use crate::lexer::lemma_scan_all_wf;
use crate::lexer::lemma_scan_step;
use crate::lexer::scan_all;
use crate::lexer::suffix_from;
use crate::lexer::tok_at;
use crate::lexer::token_model_wf;
use crate::lexer::Lexer;
use crate::lexer::TokenModel;
use crate::token::kind_name;
use crate::token::spec_kind_name;
use crate::token::Token;
use crate::token::TokenKind;
use vstd::prelude::*;

verus! {

/// Precedence levels, lowest to highest: the single source of truth for
/// operator binding. Prefix rules alone are registered for the present
/// expression forms, so only `Lowest` and `Prefix` are handed around yet;
/// every infix rule added later must consult this ordering.
#[derive(Clone, Copy, Debug, PartialEq, Eq, Structural)]
pub enum Precedence {
    Lowest,
    Equals,
    LessGreater,
    Sum,
    Product,
    Prefix,
    Call,
}

/// An expression as the parse model sees it.
pub enum ExprModel {
    Ident { name: Seq<char> },
    Int { literal: Seq<char>, value: i64 },
    Prefix { token_kind: TokenKind, operator: Seq<char>, operand: Box<ExprModel> },
}

/// A statement as the parse model sees it.
pub enum StmtModel {
    Let { token_literal: Seq<char>, name: Seq<char>, value: Option<ExprModel> },
    Return { token_literal: Seq<char>, value: Option<ExprModel> },
    Expr { token_kind: TokenKind, token_literal: Seq<char>, value: Option<ExprModel> },
}

/// A diagnostic as the parse model sees it.
pub enum ErrModel {
    Expected { wanted: TokenKind, got: TokenKind },
    NoPrefix { kind: TokenKind },
    IntOutOfRange { literal: Seq<char> },
}

/// The text of a diagnostic.
pub open spec fn err_render(e: ErrModel) -> Seq<char> {
    match e {
        ErrModel::Expected { wanted, got } => "expected next token to be "@ + spec_kind_name(
            wanted,
        ) + ", got "@ + spec_kind_name(got) + " instead"@,
        ErrModel::NoPrefix { kind } => "no prefix parse function for "@ + spec_kind_name(kind)
            + " found"@,
        ErrModel::IntOutOfRange { literal } => "could not parse "@ + literal + " as integer"@,
    }
}

/// The numeric value of a run of decimal digits.
pub open spec fn digits_value(s: Seq<char>) -> int
    decreases s.len(),
{
    if s.len() == 0 {
        0
    } else {
        digits_value(s.drop_last()) * 10 + ((s.last() as u32) - ('0' as u32))
    }
}

/// The parse model of one expression at cursor `j`: the node built (if any),
/// the diagnostics recorded, and the cursor after it — the parser stays on the
/// expression's last token. No infix rule is registered yet, so the Pratt fold
/// never fires and no minimum precedence is consulted.
pub open spec fn model_parse_expression(toks: Seq<TokenModel>, j: int) -> (
    Option<ExprModel>,
    Seq<ErrModel>,
    int,
)
    decreases toks.len() - j,
{
    let cur = tok_at(toks, j);
    if cur.kind == TokenKind::Ident {
        (Some(ExprModel::Ident { name: cur.literal }), Seq::<ErrModel>::empty(), j)
    } else if cur.kind == TokenKind::Int {
        if digits_value(cur.literal) <= i64::MAX as int {
            (
                Some(
                    ExprModel::Int {
                        literal: cur.literal,
                        value: digits_value(cur.literal) as i64,
                    },
                ),
                Seq::<ErrModel>::empty(),
                j,
            )
        } else {
            (None, seq![(ErrModel::IntOutOfRange { literal: cur.literal })], j)
        }
    } else if cur.kind == TokenKind::Bang || cur.kind == TokenKind::Minus {
        let (operand, errs, j2) = model_parse_expression(toks, j + 1);
        match operand {
            Some(m) => (
                Some(
                    ExprModel::Prefix {
                        token_kind: cur.kind,
                        operator: cur.literal,
                        operand: Box::new(m),
                    },
                ),
                errs,
                j2,
            ),
            None => (None, errs, j2),
        }
    } else {
        (None, seq![(ErrModel::NoPrefix { kind: cur.kind })], j)
    }
}

/// The parse model of a `let` statement at cursor `j` (the `let` token). The
/// identifier and the `=` are mandatory lookahead assertions: on failure one
/// diagnostic is recorded and no node is built. A trailing `;` is consumed
/// when present.
pub open spec fn model_parse_let(toks: Seq<TokenModel>, j: int) -> (
    Option<StmtModel>,
    Seq<ErrModel>,
    int,
) {
    let cur = tok_at(toks, j);
    let peek = tok_at(toks, j + 1);
    if peek.kind != TokenKind::Ident {
        (None, seq![(ErrModel::Expected { wanted: TokenKind::Ident, got: peek.kind })], j)
    } else {
        let peek2 = tok_at(toks, j + 2);
        if peek2.kind != TokenKind::Assign {
            (None, seq![(ErrModel::Expected { wanted: TokenKind::Assign, got: peek2.kind })], j + 1)
        } else {
            let (value, errs, j4) = model_parse_expression(toks, j + 3);
            let j5 = if tok_at(toks, j4 + 1).kind == TokenKind::Semicolon {
                j4 + 1
            } else {
                j4
            };
            (
                Some(
                    StmtModel::Let {
                        token_literal: cur.literal,
                        name: tok_at(toks, j + 1).literal,
                        value,
                    },
                ),
                errs,
                j5,
            )
        }
    }
}

/// The parse model of a `return` statement at cursor `j` (the `return`
/// token): the value expression follows at once; a trailing `;` is consumed
/// when present.
pub open spec fn model_parse_return(toks: Seq<TokenModel>, j: int) -> (
    Option<StmtModel>,
    Seq<ErrModel>,
    int,
) {
    let cur = tok_at(toks, j);
    let (value, errs, j2) = model_parse_expression(toks, j + 1);
    let j3 = if tok_at(toks, j2 + 1).kind == TokenKind::Semicolon {
        j2 + 1
    } else {
        j2
    };
    (Some(StmtModel::Return { token_literal: cur.literal, value }), errs, j3)
}

/// The parse model of an expression statement at cursor `j`: one expression
/// at the lowest precedence; the node is built even when the expression is
/// not (the diagnostic still tells); a trailing `;` is optional.
pub open spec fn model_parse_expr_stmt(toks: Seq<TokenModel>, j: int) -> (
    Option<StmtModel>,
    Seq<ErrModel>,
    int,
) {
    let cur = tok_at(toks, j);
    let (value, errs, j2) = model_parse_expression(toks, j);
    let j3 = if tok_at(toks, j2 + 1).kind == TokenKind::Semicolon {
        j2 + 1
    } else {
        j2
    };
    (Some(StmtModel::Expr { token_kind: cur.kind, token_literal: cur.literal, value }), errs, j3)
}

/// The parse model of one statement: dispatch on the current token's kind,
/// with the expression statement as the fallback.
pub open spec fn model_parse_statement(toks: Seq<TokenModel>, j: int) -> (
    Option<StmtModel>,
    Seq<ErrModel>,
    int,
) {
    let cur = tok_at(toks, j);
    if cur.kind == TokenKind::Let {
        model_parse_let(toks, j)
    } else if cur.kind == TokenKind::Return {
        model_parse_return(toks, j)
    } else {
        model_parse_expr_stmt(toks, j)
    }
}

/// A statement that parsed contributes its node; one that failed contributes
/// none.
pub open spec fn opt_stmt_to_seq(m: Option<StmtModel>) -> Seq<StmtModel> {
    match m {
        Some(x) => seq![x],
        None => Seq::<StmtModel>::empty(),
    }
}

/// The parse model never moves the cursor backwards over an expression.
pub proof fn lemma_model_expr_monotone(toks: Seq<TokenModel>, j: int)
    ensures
        j <= model_parse_expression(toks, j).2,
    decreases toks.len() - j,
{
    let cur = tok_at(toks, j);
    if cur.kind == TokenKind::Bang || cur.kind == TokenKind::Minus {
        lemma_model_expr_monotone(toks, j + 1);
    }
}

/// The parse model never moves the cursor backwards over a statement.
pub proof fn lemma_model_stmt_monotone(toks: Seq<TokenModel>, j: int)
    ensures
        j <= model_parse_statement(toks, j).2,
{
    let cur = tok_at(toks, j);
    if cur.kind == TokenKind::Let {
        lemma_model_expr_monotone(toks, j + 3);
    } else if cur.kind == TokenKind::Return {
        lemma_model_expr_monotone(toks, j + 1);
    } else {
        lemma_model_expr_monotone(toks, j);
    }
}

/// What remains of the token stream at cursor `j`; zero once past the end.
pub open spec fn prog_measure(toks: Seq<TokenModel>, j: int) -> int {
    if j <= toks.len() {
        toks.len() - j
    } else {
        0
    }
}

/// The parse model of a whole program from cursor `j` on: one statement per
/// iteration until the stream is exhausted, the cursor stepping past each
/// statement's last token; a statement that fails contributes no node but
/// never stops the run.
pub open spec fn model_parse_program(toks: Seq<TokenModel>, j: int) -> (
    Seq<StmtModel>,
    Seq<ErrModel>,
)
    decreases prog_measure(toks, j),
    via model_parse_program_decreases
{
    if 0 <= j < toks.len() {
        let (st, errs, j2) = model_parse_statement(toks, j);
        let rest = model_parse_program(toks, j2 + 1);
        (opt_stmt_to_seq(st) + rest.0, errs + rest.1)
    } else {
        (Seq::<StmtModel>::empty(), Seq::<ErrModel>::empty())
    }
}

#[via_fn]
proof fn model_parse_program_decreases(toks: Seq<TokenModel>, j: int) {
    if 0 <= j < toks.len() {
        lemma_model_stmt_monotone(toks, j);
    }
}

/// An expression node carries exactly what its model prescribes: the
/// originating token, the recorded text, and — under a prefix operator — a
/// matching operand tree.
pub open spec fn expr_matches(e: ExpressionNode, m: ExprModel) -> bool
    decreases e,
{
    match (e, m) {
        (ExpressionNode::IdentifierNode(id), ExprModel::Ident { name }) => {
            &&& id.token.kind == TokenKind::Ident
            &&& id.token.literal@ == name
            &&& id.value@ == name
        },
        (ExpressionNode::Integer(il), ExprModel::Int { literal, value }) => {
            &&& il.token.kind == TokenKind::Int
            &&& il.token.literal@ == literal
            &&& il.value == value
        },
        (ExpressionNode::Prefix(p), ExprModel::Prefix { token_kind, operator, operand }) => {
            &&& p.token.kind == token_kind
            &&& p.token.literal@ == operator
            &&& p.operator@ == operator
            &&& expr_matches(*p.right, *operand)
        },
        _ => false,
    }
}

pub open spec fn opt_expr_matches(e: Option<ExpressionNode>, m: Option<ExprModel>) -> bool {
    match (e, m) {
        (Some(e0), Some(m0)) => expr_matches(e0, m0),
        (None, None) => true,
        _ => false,
    }
}

/// A statement node carries exactly what its model prescribes.
pub open spec fn stmt_matches(s: StatementNode, m: StmtModel) -> bool {
    match (s, m) {
        (StatementNode::Let(l), StmtModel::Let { token_literal, name, value }) => {
            &&& l.token.kind == TokenKind::Let
            &&& l.token.literal@ == token_literal
            &&& l.name.token.kind == TokenKind::Ident
            &&& l.name.token.literal@ == name
            &&& l.name.value@ == name
            &&& opt_expr_matches(l.value, value)
        },
        (StatementNode::Return(r), StmtModel::Return { token_literal, value }) => {
            &&& r.token.kind == TokenKind::Return
            &&& r.token.literal@ == token_literal
            &&& opt_expr_matches(r.ret_value, value)
        },
        (StatementNode::Expression(e), StmtModel::Expr { token_kind, token_literal, value }) => {
            &&& e.token.kind == token_kind
            &&& e.token.literal@ == token_literal
            &&& opt_expr_matches(e.expression, value)
        },
        _ => false,
    }
}

pub open spec fn opt_stmt_matches(s: Option<StatementNode>, m: Option<StmtModel>) -> bool {
    match (s, m) {
        (Some(s0), Some(m0)) => stmt_matches(s0, m0),
        (None, None) => true,
        _ => false,
    }
}

pub open spec fn stmts_match(ss: Seq<StatementNode>, ms: Seq<StmtModel>) -> bool {
    &&& ss.len() == ms.len()
    &&& forall|i: int| 0 <= i < ms.len() ==> #[trigger] stmt_matches(ss[i], ms[i])
}

/// The diagnostics list grew by exactly the rendered texts of `ms`, in order,
/// with everything already recorded kept in place.
pub open spec fn errors_extended(
    old_errs: Seq<String>,
    new_errs: Seq<String>,
    ms: Seq<ErrModel>,
) -> bool {
    &&& new_errs.len() == old_errs.len() + ms.len()
    &&& forall|i: int| 0 <= i < old_errs.len() ==> new_errs[i] == old_errs[i]
    &&& forall|i: int|
        0 <= i < ms.len() ==> new_errs[old_errs.len() + i]@ == #[trigger] err_render(ms[i])
}

/// Two extensions in a row extend by the concatenation.
pub proof fn lemma_errors_extended_trans(
    a: Seq<String>,
    b: Seq<String>,
    c: Seq<String>,
    m1: Seq<ErrModel>,
    m2: Seq<ErrModel>,
)
    requires
        errors_extended(a, b, m1),
        errors_extended(b, c, m2),
    ensures
        errors_extended(a, c, m1 + m2),
{
    assert forall|i: int| 0 <= i < (m1 + m2).len() implies c[a.len() + i]@ == #[trigger] err_render(
        (m1 + m2)[i],
    ) by {
        if i < m1.len() {
            assert(c[a.len() + i] == b[a.len() + i]);
        } else {
            assert((m1 + m2)[i] == m2[i - m1.len()]);
            assert(a.len() + i == b.len() + (i - m1.len()));
            assert(c[b.len() + (i - m1.len())]@ == err_render(m2[i - m1.len()]));
        }
    }
}

/// Under a well-formed token stream, a let-statement model carries the
/// keyword's own text `let`, and a return-statement model carries `return`.
pub open spec fn stmt_model_keyword_literal(m: StmtModel) -> bool {
    &&& (m matches StmtModel::Let { token_literal, .. } ==> token_literal == "let"@)
    &&& (m matches StmtModel::Return { token_literal, .. } ==> token_literal == "return"@)
}

/// One statement of the parse model, taken from a well-formed token stream,
/// carries its keyword's own text.
pub proof fn lemma_model_stmt_keyword_literal(toks: Seq<TokenModel>, j: int)
    requires
        forall|k: int| 0 <= k < toks.len() ==> token_model_wf(#[trigger] toks[k]),
    ensures
        ({
            let (m, errs, j2) = model_parse_statement(toks, j);
            m matches Some(sm) ==> stmt_model_keyword_literal(sm)
        }),
{
    let cur = tok_at(toks, j);
    if cur.kind == TokenKind::Let || cur.kind == TokenKind::Return {
        if 0 <= j < toks.len() {
            assert(token_model_wf(toks[j]));
        }
    }
}

/// Every statement of the whole-program parse model, taken from a well-formed
/// token stream, carries its keyword's own text.
pub proof fn lemma_model_program_keyword_literals(toks: Seq<TokenModel>, j: int)
    requires
        forall|k: int| 0 <= k < toks.len() ==> token_model_wf(#[trigger] toks[k]),
    ensures
        forall|i: int|
            0 <= i < model_parse_program(toks, j).0.len() ==> stmt_model_keyword_literal(
                #[trigger] model_parse_program(toks, j).0[i],
            ),
    decreases prog_measure(toks, j),
{
    if 0 <= j < toks.len() {
        let (st, errs, j2) = model_parse_statement(toks, j);
        lemma_model_stmt_keyword_literal(toks, j);
        lemma_model_stmt_monotone(toks, j);
        lemma_model_program_keyword_literals(toks, j2 + 1);
        let rest = model_parse_program(toks, j2 + 1);
        assert forall|i: int| 0 <= i < model_parse_program(toks, j).0.len() implies
            stmt_model_keyword_literal(#[trigger] model_parse_program(toks, j).0[i]) by {
            if i >= opt_stmt_to_seq(st).len() {
                assert(model_parse_program(toks, j).0[i] == rest.0[i - opt_stmt_to_seq(st).len()]);
            }
        }
    }
}

/// Round-trip rendering law at the program level: any `let` statement of a
/// parsed program whose name is `n` and whose value is an identifier
/// expression `v` renders exactly as `let n = v;`, provided the statements
/// match the parse model of a well-formed token stream — which is what
/// `Parser::parse_program` guarantees of its result.
pub proof fn lemma_program_let_round_trip(
    toks: Seq<TokenModel>,
    j: int,
    stmts: Seq<StatementNode>,
    i: int,
    n: Seq<char>,
    v: Seq<char>,
)
    requires
        forall|k: int| 0 <= k < toks.len() ==> token_model_wf(#[trigger] toks[k]),
        stmts_match(stmts, model_parse_program(toks, j).0),
        0 <= i < stmts.len(),
        stmts[i] matches StatementNode::Let(l) && l.name.value@ == n && (l.value matches Some(e)
            && (e matches ExpressionNode::IdentifierNode(id) && id.value@ == v)),
    ensures
        crate::ast::stmt_render(stmts[i]) == "let "@ + n + " = "@ + v + ";"@,
{
    let ms = model_parse_program(toks, j).0;
    lemma_model_program_keyword_literals(toks, j);
    assert(stmt_matches(stmts[i], ms[i]));
    assert(stmt_model_keyword_literal(ms[i]));
    let l = stmts[i]->Let_0;
    assert(l.token.literal@ == "let"@);
    crate::ast::lemma_let_statement_render(l, n, v);
}

/// An executable token agrees with a model token on kind and literal text.
pub open spec fn tok_matches(t: Token, m: TokenModel) -> bool {
    &&& t.kind == m.kind
    &&& t.literal@ == m.literal
}

/// The parser: it owns its scanner, holds the current token and one token of
/// lookahead, and accumulates diagnostics; it never throws. The ghost token
/// stream and cursor tie the three to the scan model.
pub struct Parser {
    lexer: Lexer,
    cur_token: Token,
    peek_token: Token,
    errors: Vec<String>,
    tokens_model: Ghost<Seq<TokenModel>>,
    cursor: Ghost<int>,
}

impl Parser {
    /// The token stream the parser consumes, as scanned at construction.
    pub closed spec fn tokens(&self) -> Seq<TokenModel> {
        self.tokens_model@
    }

    /// The index of the current token within the stream.
    pub closed spec fn cursor_model(&self) -> int {
        self.cursor@
    }

    /// The diagnostics recorded so far.
    pub closed spec fn spec_errors(&self) -> Seq<String> {
        self.errors@
    }

    /// The parser's invariant: the scanner is sound, the current and lookahead
    /// tokens are the stream's tokens at the cursor and one past it, the
    /// scanner's own cursor sits two tokens ahead, and every stream token is a
    /// well-formed scan product.
    pub closed spec fn wf(&self) -> bool {
        &&& self.lexer.wf()
        &&& 0 <= self.cursor@
        &&& tok_matches(self.cur_token, tok_at(self.tokens_model@, self.cursor@))
        &&& tok_matches(self.peek_token, tok_at(self.tokens_model@, self.cursor@ + 1))
        &&& scan_all(self.lexer.src(), self.lexer.pos()) == suffix_from(
            self.tokens_model@,
            self.cursor@ + 2,
        )
        &&& forall|j: int|
            0 <= j < self.tokens_model@.len() ==> token_model_wf(#[trigger] self.tokens_model@[j])
    }

    /// Builds a parser over the given scanner and primes the current and
    /// lookahead tokens with the scanner's first two pulls.
    pub fn new(lexer: Lexer) -> (parser: Parser)
        requires
            lexer.wf(),
        ensures
            parser.wf(),
            parser.tokens() == scan_all(lexer.src(), lexer.pos()),
            parser.cursor_model() == 0,
            parser.spec_errors() == Seq::<String>::empty(),
    {
        let mut lexer = lexer;
        let ghost toks = scan_all(lexer.src(), lexer.pos());
        proof {
            lemma_scan_all_wf(lexer.src(), lexer.pos());
            assert(suffix_from(toks, 0) =~= toks);
            lemma_scan_step(lexer.src(), lexer.pos(), toks, 0);
        }
        let cur_token = lexer.next_token();
        proof {
            lemma_scan_step(lexer.src(), lexer.pos(), toks, 1);
        }
        let peek_token = lexer.next_token();
        Parser {
            lexer,
            cur_token,
            peek_token,
            errors: Vec::new(),
            tokens_model: Ghost(toks),
            cursor: Ghost(0),
        }
    }

    /// Shifts the window one token forward: the lookahead becomes current and
    /// the scanner supplies a fresh lookahead.
    fn next_token(&mut self)
        requires
            old(self).wf(),
        ensures
            final(self).wf(),
            final(self).tokens() == old(self).tokens(),
            final(self).cursor_model() == old(self).cursor_model() + 1,
            final(self).spec_errors() == old(self).spec_errors(),
    {
        proof {
            lemma_scan_step(
                self.lexer.src(),
                self.lexer.pos(),
                self.tokens_model@,
                self.cursor@ + 2,
            );
        }
        self.cur_token = self.peek_token.clone();
        self.peek_token = self.lexer.next_token();
        proof {
            self.cursor@ = self.cursor@ + 1;
        }
    }

    fn cur_token_is(&self, token_kind: TokenKind) -> (r: bool)
        requires
            self.wf(),
        ensures
            r == (tok_at(self.tokens(), self.cursor_model()).kind == token_kind),
    {
        self.cur_token.kind == token_kind
    }

    fn peek_token_is(&self, token_kind: TokenKind) -> (r: bool)
        requires
            self.wf(),
        ensures
            r == (tok_at(self.tokens(), self.cursor_model() + 1).kind == token_kind),
    {
        self.peek_token.kind == token_kind
    }

    /// The diagnostics accumulated so far; a caller treats a nonempty list as
    /// "input rejected" while still free to inspect the partial tree.
    pub fn errors(&self) -> (r: &Vec<String>)
        ensures
            r@ == self.spec_errors(),
    {
        &self.errors
    }

    /// Records the structural-mismatch diagnostic for a failed lookahead
    /// assertion.
    fn peek_error(&mut self, token_kind: TokenKind)
        requires
            old(self).wf(),
        ensures
            final(self).wf(),
            final(self).tokens() == old(self).tokens(),
            final(self).cursor_model() == old(self).cursor_model(),
            errors_extended(
                old(self).spec_errors(),
                final(self).spec_errors(),
                seq![
                    (ErrModel::Expected {
                        wanted: token_kind,
                        got: tok_at(old(self).tokens(), old(self).cursor_model() + 1).kind,
                    }),
                ],
            ),
    {
        let mut msg = String::from_str("expected next token to be ");
        msg.append(kind_name(token_kind));
        msg.append(", got ");
        msg.append(kind_name(self.peek_token.kind));
        msg.append(" instead");
        self.errors.push(msg);
    }

    /// Records the missing-grammar-rule diagnostic: no prefix rule is
    /// registered for the given kind.
    fn no_prefix_error(&mut self, token_kind: TokenKind)
        requires
            old(self).wf(),
        ensures
            final(self).wf(),
            final(self).tokens() == old(self).tokens(),
            final(self).cursor_model() == old(self).cursor_model(),
            errors_extended(
                old(self).spec_errors(),
                final(self).spec_errors(),
                seq![(ErrModel::NoPrefix { kind: token_kind })],
            ),
    {
        let mut msg = String::from_str("no prefix parse function for ");
        msg.append(kind_name(token_kind));
        msg.append(" found");
        self.errors.push(msg);
    }

    /// The prefix rule for names: wraps the current token into an identifier
    /// expression; the cursor stays on it.
    fn parse_identifier(&mut self) -> (expr: Option<ExpressionNode>)
        requires
            old(self).wf(),
            tok_at(old(self).tokens(), old(self).cursor_model()).kind == TokenKind::Ident,
        ensures
            final(self).wf(),
            final(self).tokens() == old(self).tokens(),
            final(self).cursor_model() == old(self).cursor_model(),
            final(self).spec_errors() == old(self).spec_errors(),
            ({
                let (m, errs, j2) = model_parse_expression(
                    old(self).tokens(),
                    old(self).cursor_model(),
                );
                opt_expr_matches(expr, m)
            }),
    {
        Some(
            ExpressionNode::IdentifierNode(
                Identifier {
                    token: self.cur_token.clone(),
                    value: self.cur_token.literal.clone(),
                },
            ),
        )
    }

    /// The prefix rule for integer literals: converts the literal text to its
    /// value; text beyond the 64-bit signed range is a recorded parse error,
    /// never a wrapped value.
    fn parse_integer_literal(&mut self) -> (expr: Option<ExpressionNode>)
        requires
            old(self).wf(),
            tok_at(old(self).tokens(), old(self).cursor_model()).kind == TokenKind::Int,
        ensures
            final(self).wf(),
            final(self).tokens() == old(self).tokens(),
            final(self).cursor_model() == old(self).cursor_model(),
            ({
                let (m, errs, j2) = model_parse_expression(
                    old(self).tokens(),
                    old(self).cursor_model(),
                );
                &&& opt_expr_matches(expr, m)
                &&& errors_extended(old(self).spec_errors(), final(self).spec_errors(), errs)
            }),
    {
        let ghost toks = self.tokens_model@;
        let ghost j = self.cursor@;
        proof {
            if !(0 <= j < toks.len()) {
                assert(tok_at(toks, j).kind == TokenKind::Eof);
            }
            assert(token_model_wf(toks[j]));
        }
        let lit = self.cur_token.literal.clone();
        let n = lit.as_str().unicode_len();
        let mut acc: i64 = 0;
        let mut ok = true;
        let mut i: usize = 0;
        while i < n
            invariant
                n == lit@.len(),
                i <= n,
                forall|k: int| 0 <= k < lit@.len() ==> is_digit_char(#[trigger] lit@[k]),
                ok ==> 0 <= acc && acc as int == digits_value(lit@.take(i as int)),
                !ok ==> digits_value(lit@.take(i as int)) > i64::MAX as int,
            decreases n - i,
        {
            let c = lit.as_str().get_char(i);
            let d = (c as u32) - ('0' as u32);
            if ok {
                if acc <= (i64::MAX - (d as i64)) / 10 {
                    acc = acc * 10 + (d as i64);
                } else {
                    ok = false;
                }
            }
            i = i + 1;
            proof {
                assert(lit@.take(i as int).drop_last() =~= lit@.take(i as int - 1));
                assert(lit@.take(i as int).last() == lit@[i as int - 1]);
            }
        }
        proof {
            assert(lit@.take(n as int) =~= lit@);
        }
        if ok {
            let token = self.cur_token.clone();
            Some(ExpressionNode::Integer(IntegerLiteral { token, value: acc }))
        } else {
            let mut msg = String::from_str("could not parse ");
            msg.append(lit.as_str());
            msg.append(" as integer");
            self.errors.push(msg);
            None
        }
    }

    /// The prefix rule for the prefix operators `!` and unary `-`: captures
    /// the operator, advances past it, and parses the operand at `Prefix`
    /// precedence.
    fn parse_prefix_expression(&mut self) -> (expr: Option<ExpressionNode>)
        requires
            old(self).wf(),
            tok_at(old(self).tokens(), old(self).cursor_model()).kind == TokenKind::Bang || tok_at(
                old(self).tokens(),
                old(self).cursor_model(),
            ).kind == TokenKind::Minus,
        ensures
            final(self).wf(),
            final(self).tokens() == old(self).tokens(),
            ({
                let (m, errs, j2) = model_parse_expression(
                    old(self).tokens(),
                    old(self).cursor_model(),
                );
                &&& final(self).cursor_model() == j2
                &&& opt_expr_matches(expr, m)
                &&& errors_extended(old(self).spec_errors(), final(self).spec_errors(), errs)
            }),
        decreases self.tokens().len() - self.cursor_model(), 0int,
    {
        let token = self.cur_token.clone();
        let operator = self.cur_token.literal.clone();
        self.next_token();
        let right = self.parse_expression(Precedence::Prefix);
        match right {
            Some(r) => Some(
                ExpressionNode::Prefix(
                    PrefixExpression { token, operator, right: Box::new(r) },
                ),
            ),
            None => None,
        }
    }

    /// The Pratt core: looks up the prefix rule for the current token — none
    /// registered means a recorded diagnostic and no node — and would then
    /// fold infix rules whose precedence exceeds the minimum; none is
    /// registered for the present expression forms, so the fold never fires.
    fn parse_expression(&mut self, precedence: Precedence) -> (expr: Option<ExpressionNode>)
        requires
            old(self).wf(),
        ensures
            final(self).wf(),
            final(self).tokens() == old(self).tokens(),
            ({
                let (m, errs, j2) = model_parse_expression(
                    old(self).tokens(),
                    old(self).cursor_model(),
                );
                &&& final(self).cursor_model() == j2
                &&& opt_expr_matches(expr, m)
                &&& errors_extended(old(self).spec_errors(), final(self).spec_errors(), errs)
            }),
        decreases self.tokens().len() - self.cursor_model(), 1int,
    {
        let kind = self.cur_token.kind;
        if kind == TokenKind::Ident {
            self.parse_identifier()
        } else if kind == TokenKind::Int {
            self.parse_integer_literal()
        } else if kind == TokenKind::Bang || kind == TokenKind::Minus {
            proof {
                if !(0 <= self.cursor@ < self.tokens_model@.len()) {
                    assert(tok_at(self.tokens_model@, self.cursor@).kind == TokenKind::Eof);
                }
            }
            self.parse_prefix_expression()
        } else {
            self.no_prefix_error(kind);
            None
        }
    }

    /// The mandatory lookahead assertion: when the lookahead has the wanted
    /// kind the parser advances onto it; otherwise it records the diagnostic
    /// and stands still.
    fn expect_peek(&mut self, token_kind: TokenKind) -> (r: bool)
        requires
            old(self).wf(),
        ensures
            final(self).wf(),
            final(self).tokens() == old(self).tokens(),
            r == (tok_at(old(self).tokens(), old(self).cursor_model() + 1).kind == token_kind),
            r ==> final(self).cursor_model() == old(self).cursor_model() + 1
                && final(self).spec_errors() == old(self).spec_errors(),
            !r ==> final(self).cursor_model() == old(self).cursor_model() && errors_extended(
                old(self).spec_errors(),
                final(self).spec_errors(),
                seq![
                    (ErrModel::Expected {
                        wanted: token_kind,
                        got: tok_at(old(self).tokens(), old(self).cursor_model() + 1).kind,
                    }),
                ],
            ),
    {
        if self.peek_token_is(token_kind) {
            self.next_token();
            true
        } else {
            self.peek_error(token_kind);
            false
        }
    }

    /// The `let` rule: `let`, a mandatory identifier, a mandatory `=`, the
    /// value expression at the lowest precedence, and an optional trailing
    /// `;`. A failed mandatory check records its diagnostic and abandons the
    /// statement without stopping the parser.
    fn parse_let_statement(&mut self) -> (stmt: Option<StatementNode>)
        requires
            old(self).wf(),
            tok_at(old(self).tokens(), old(self).cursor_model()).kind == TokenKind::Let,
        ensures
            final(self).wf(),
            final(self).tokens() == old(self).tokens(),
            ({
                let (m, errs, j2) = model_parse_let(old(self).tokens(), old(self).cursor_model());
                &&& final(self).cursor_model() == j2
                &&& opt_stmt_matches(stmt, m)
                &&& errors_extended(old(self).spec_errors(), final(self).spec_errors(), errs)
            }),
        decreases self.tokens().len() - self.cursor_model(), 2int,
    {
        let token = self.cur_token.clone();
        if !self.expect_peek(TokenKind::Ident) {
            return None;
        }
        let name = Identifier {
            token: self.cur_token.clone(),
            value: self.cur_token.literal.clone(),
        };
        if !self.expect_peek(TokenKind::Assign) {
            return None;
        }
        self.next_token();
        let value = self.parse_expression(Precedence::Lowest);
        if self.peek_token_is(TokenKind::Semicolon) {
            self.next_token();
        }
        Some(StatementNode::Let(LetStatement { token, name, value }))
    }

    /// The `return` rule: `return`, the value expression at the lowest
    /// precedence, and an optional trailing `;`.
    fn parse_return_statement(&mut self) -> (stmt: Option<StatementNode>)
        requires
            old(self).wf(),
            tok_at(old(self).tokens(), old(self).cursor_model()).kind == TokenKind::Return,
        ensures
            final(self).wf(),
            final(self).tokens() == old(self).tokens(),
            ({
                let (m, errs, j2) = model_parse_return(
                    old(self).tokens(),
                    old(self).cursor_model(),
                );
                &&& final(self).cursor_model() == j2
                &&& opt_stmt_matches(stmt, m)
                &&& errors_extended(old(self).spec_errors(), final(self).spec_errors(), errs)
            }),
        decreases self.tokens().len() - self.cursor_model(), 2int,
    {
        let token = self.cur_token.clone();
        self.next_token();
        let ret_value = self.parse_expression(Precedence::Lowest);
        if self.peek_token_is(TokenKind::Semicolon) {
            self.next_token();
        }
        Some(StatementNode::Return(ReturnStatement { token, ret_value }))
    }

    /// The fallback rule: one expression at the lowest precedence used in
    /// statement position; a trailing `;` is optional. The node is built even
    /// when the expression is not — the recorded diagnostic tells.
    fn parse_expression_statement(&mut self) -> (stmt: Option<StatementNode>)
        requires
            old(self).wf(),
            tok_at(old(self).tokens(), old(self).cursor_model()).kind != TokenKind::Eof,
        ensures
            final(self).wf(),
            final(self).tokens() == old(self).tokens(),
            ({
                let (m, errs, j2) = model_parse_expr_stmt(
                    old(self).tokens(),
                    old(self).cursor_model(),
                );
                &&& final(self).cursor_model() == j2
                &&& opt_stmt_matches(stmt, m)
                &&& errors_extended(old(self).spec_errors(), final(self).spec_errors(), errs)
            }),
        decreases self.tokens().len() - self.cursor_model(), 2int,
    {
        let token = self.cur_token.clone();
        let expression = self.parse_expression(Precedence::Lowest);
        if self.peek_token_is(TokenKind::Semicolon) {
            self.next_token();
        }
        Some(StatementNode::Expression(ExpressionStatement { token, expression }))
    }

    /// One statement: dispatch on the current token's kind, with the
    /// expression statement as the fallback — any valid expression is a valid
    /// statement.
    fn parse_statement(&mut self) -> (stmt: Option<StatementNode>)
        requires
            old(self).wf(),
            tok_at(old(self).tokens(), old(self).cursor_model()).kind != TokenKind::Eof,
        ensures
            final(self).wf(),
            final(self).tokens() == old(self).tokens(),
            ({
                let (m, errs, j2) = model_parse_statement(
                    old(self).tokens(),
                    old(self).cursor_model(),
                );
                &&& final(self).cursor_model() == j2
                &&& opt_stmt_matches(stmt, m)
                &&& errors_extended(old(self).spec_errors(), final(self).spec_errors(), errs)
            }),
        decreases self.tokens().len() - self.cursor_model(), 3int,
    {
        if self.cur_token_is(TokenKind::Let) {
            self.parse_let_statement()
        } else if self.cur_token_is(TokenKind::Return) {
            self.parse_return_statement()
        } else {
            self.parse_expression_statement()
        }
    }

    /// Parses top-level statements until the end of the input and returns the
    /// accumulated `Program` — always a value, never an abort: a statement
    /// that fails to parse contributes no node, its diagnostics are recorded,
    /// and the loop advances at least one token, so the run always ends. The
    /// result and the recorded diagnostics are exactly the parse model's.
    pub fn parse_program(&mut self) -> (program: Option<Program>)
        requires
            old(self).wf(),
        ensures
            final(self).wf(),
            program matches Some(p) && ({
                let (ms, mes) = model_parse_program(old(self).tokens(), old(self).cursor_model());
                &&& stmts_match(p.statements@, ms)
                &&& errors_extended(old(self).spec_errors(), final(self).spec_errors(), mes)
            }),
    {
        let mut statements: Vec<StatementNode> = Vec::new();
        let ghost toks = self.tokens_model@;
        let ghost j0 = self.cursor@;
        let ghost mut done_stmts = Seq::<StmtModel>::empty();
        let ghost mut done_errs = Seq::<ErrModel>::empty();
        proof {
            assert(Seq::<StmtModel>::empty() + model_parse_program(toks, j0).0 =~= model_parse_program(toks, j0).0);
            assert(Seq::<ErrModel>::empty() + model_parse_program(toks, j0).1 =~= model_parse_program(toks, j0).1);
        }
        while !self.cur_token_is(TokenKind::Eof)
            invariant
                self.wf(),
                self.tokens() == toks,
                0 <= self.cursor_model(),
                stmts_match(statements@, done_stmts),
                errors_extended(old(self).spec_errors(), self.spec_errors(), done_errs),
                model_parse_program(toks, j0).0 == done_stmts + model_parse_program(
                    toks,
                    self.cursor_model(),
                ).0,
                model_parse_program(toks, j0).1 == done_errs + model_parse_program(
                    toks,
                    self.cursor_model(),
                ).1,
            decreases prog_measure(toks, self.cursor_model()),
        {
            let ghost jc = self.cursor@;
            let ghost errs_pre = self.errors@;
            proof {
                if !(0 <= jc < toks.len()) {
                    assert(tok_at(toks, jc).kind == TokenKind::Eof);
                }
            }
            let stmt = self.parse_statement();
            if let Some(statement) = stmt {
                statements.push(statement);
            }
            self.next_token();
            proof {
                let (st, errs, j2) = model_parse_statement(toks, jc);
                lemma_model_stmt_monotone(toks, jc);
                lemma_errors_extended_trans(
                    old(self).spec_errors(),
                    errs_pre,
                    self.errors@,
                    done_errs,
                    errs,
                );
                let rest = model_parse_program(toks, j2 + 1);
                assert(model_parse_program(toks, jc).0 == opt_stmt_to_seq(st) + rest.0);
                assert((done_stmts + opt_stmt_to_seq(st)) + rest.0 =~= done_stmts + (
                opt_stmt_to_seq(st) + rest.0));
                assert((done_errs + errs) + rest.1 =~= done_errs + (errs + rest.1));
                done_stmts = done_stmts + opt_stmt_to_seq(st);
                done_errs = done_errs + errs;
                if st is None {
                    assert(done_stmts + Seq::<StmtModel>::empty() =~= done_stmts);
                }
            }
        }
        proof {
            let jc = self.cursor@;
            if 0 <= jc < toks.len() {
                assert(token_model_wf(toks[jc]));
            }
            assert(model_parse_program(toks, jc).0 =~= Seq::<StmtModel>::empty());
            assert(done_stmts + model_parse_program(toks, jc).0 =~= done_stmts);
            assert(done_errs + model_parse_program(toks, jc).1 =~= done_errs);
        }
        Some(Program { statements })
    }
}

} // verus!

