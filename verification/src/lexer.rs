//! The scanner: one forward pass over the source characters that hands out
//! one classified token per pull. Its behaviour is pinned to a character-level
//! model: `scan_token` says which token starts at a cursor position and where
//! the cursor lands, and `scan_all` is the whole token stream of a source.

use crate::token::keyword_kind;
use crate::token::lookup_ident;
use crate::token::Token;
use crate::token::TokenKind;
use vstd::prelude::*;

verus! {

/// Whitespace skipped before token recognition: space, tab, newline, carriage
/// return.
pub open spec fn is_whitespace_char(c: char) -> bool {
    c == ' ' || c == '\t' || c == '\n' || c == '\r'
}

/// A character that may start an identifier or keyword.
pub open spec fn is_letter_char(c: char) -> bool {
    ||| ('a' as u32) <= (c as u32) && (c as u32) <= ('z' as u32)
    ||| ('A' as u32) <= (c as u32) && (c as u32) <= ('Z' as u32)
    ||| c == '_'
}

/// A decimal digit.
pub open spec fn is_digit_char(c: char) -> bool {
    ('0' as u32) <= (c as u32) && (c as u32) <= ('9' as u32)
}

/// A character that may continue an identifier: letter, digit or underscore.
pub open spec fn is_ident_char(c: char) -> bool {
    is_letter_char(c) || is_digit_char(c)
}

fn is_whitespace(c: char) -> (r: bool)
    ensures
        r == is_whitespace_char(c),
{
    c == ' ' || c == '\t' || c == '\n' || c == '\r'
}

fn is_letter(c: char) -> (r: bool)
    ensures
        r == is_letter_char(c),
{
    let u = c as u32;
    (('a' as u32) <= u && u <= ('z' as u32)) || (('A' as u32) <= u && u <= ('A' as u32) + 25)
        || c == '_'
}

fn is_digit(c: char) -> (r: bool)
    ensures
        r == is_digit_char(c),
{
    let u = c as u32;
    ('0' as u32) <= u && u <= ('9' as u32)
}

/// The first position at or after `i` that holds no whitespace (or the end of
/// the source).
pub open spec fn scan_ws_end(s: Seq<char>, i: int) -> int
    decreases s.len() - i,
{
    if 0 <= i < s.len() && is_whitespace_char(s[i]) {
        scan_ws_end(s, i + 1)
    } else {
        i
    }
}

/// The end of the maximal identifier run starting at `i`.
pub open spec fn scan_ident_end(s: Seq<char>, i: int) -> int
    decreases s.len() - i,
{
    if 0 <= i < s.len() && is_ident_char(s[i]) {
        scan_ident_end(s, i + 1)
    } else {
        i
    }
}

/// The end of the maximal digit run starting at `i`.
pub open spec fn scan_int_end(s: Seq<char>, i: int) -> int
    decreases s.len() - i,
{
    if 0 <= i < s.len() && is_digit_char(s[i]) {
        scan_int_end(s, i + 1)
    } else {
        i
    }
}

/// The classification of a one-character symbol; anything unrecognized is
/// `Illegal`.
pub open spec fn symbol_kind(c: char) -> TokenKind {
    if c == '=' {
        TokenKind::Assign
    } else if c == '+' {
        TokenKind::Plus
    } else if c == '-' {
        TokenKind::Minus
    } else if c == '!' {
        TokenKind::Bang
    } else if c == '*' {
        TokenKind::Asterisk
    } else if c == '/' {
        TokenKind::Slash
    } else if c == '<' {
        TokenKind::Lt
    } else if c == '>' {
        TokenKind::Gt
    } else if c == ',' {
        TokenKind::Comma
    } else if c == ';' {
        TokenKind::Semicolon
    } else if c == '(' {
        TokenKind::Lparen
    } else if c == ')' {
        TokenKind::Rparen
    } else if c == '{' {
        TokenKind::Lbrace
    } else if c == '}' {
        TokenKind::Rbrace
    } else {
        TokenKind::Illegal
    }
}

fn symbol_token_kind(c: char) -> (k: TokenKind)
    ensures
        k == symbol_kind(c),
{
    if c == '=' {
        TokenKind::Assign
    } else if c == '+' {
        TokenKind::Plus
    } else if c == '-' {
        TokenKind::Minus
    } else if c == '!' {
        TokenKind::Bang
    } else if c == '*' {
        TokenKind::Asterisk
    } else if c == '/' {
        TokenKind::Slash
    } else if c == '<' {
        TokenKind::Lt
    } else if c == '>' {
        TokenKind::Gt
    } else if c == ',' {
        TokenKind::Comma
    } else if c == ';' {
        TokenKind::Semicolon
    } else if c == '(' {
        TokenKind::Lparen
    } else if c == ')' {
        TokenKind::Rparen
    } else if c == '{' {
        TokenKind::Lbrace
    } else if c == '}' {
        TokenKind::Rbrace
    } else {
        TokenKind::Illegal
    }
}

fn ident_char_at(input: &Vec<char>, i: usize) -> (r: bool)
    ensures
        r == (i < input@.len() && is_ident_char(input@[i as int])),
{
    if i < input.len() {
        let c = input[i];
        is_letter(c) || is_digit(c)
    } else {
        false
    }
}

fn digit_char_at(input: &Vec<char>, i: usize) -> (r: bool)
    ensures
        r == (i < input@.len() && is_digit_char(input@[i as int])),
{
    if i < input.len() {
        is_digit(input[i])
    } else {
        false
    }
}

fn whitespace_char_at(input: &Vec<char>, i: usize) -> (r: bool)
    ensures
        r == (i < input@.len() && is_whitespace_char(input@[i as int])),
{
    if i < input.len() {
        is_whitespace(input[i])
    } else {
        false
    }
}

/// The token that starts at cursor position `pos` of source `s`: its kind,
/// its literal text, and the cursor position just past it.
pub open spec fn scan_token(s: Seq<char>, pos: int) -> (TokenKind, Seq<char>, int) {
    let start = scan_ws_end(s, pos);
    if !(0 <= start < s.len()) {
        (TokenKind::Eof, Seq::<char>::empty(), start)
    } else if is_letter_char(s[start]) {
        let end = scan_ident_end(s, start);
        (keyword_kind(s.subrange(start, end)), s.subrange(start, end), end)
    } else if is_digit_char(s[start]) {
        let end = scan_int_end(s, start);
        (TokenKind::Int, s.subrange(start, end), end)
    } else {
        (symbol_kind(s[start]), s.subrange(start, start + 1), start + 1)
    }
}

pub proof fn lemma_scan_ws_end_bounds(s: Seq<char>, i: int)
    requires
        0 <= i <= s.len(),
    ensures
        i <= scan_ws_end(s, i) <= s.len(),
    decreases s.len() - i,
{
    if i < s.len() && is_whitespace_char(s[i]) {
        lemma_scan_ws_end_bounds(s, i + 1);
    }
}

pub proof fn lemma_scan_ident_end_bounds(s: Seq<char>, i: int)
    requires
        0 <= i <= s.len(),
    ensures
        i <= scan_ident_end(s, i) <= s.len(),
    decreases s.len() - i,
{
    if i < s.len() && is_ident_char(s[i]) {
        lemma_scan_ident_end_bounds(s, i + 1);
    }
}

pub proof fn lemma_scan_int_end_bounds(s: Seq<char>, i: int)
    requires
        0 <= i <= s.len(),
    ensures
        i <= scan_int_end(s, i) <= s.len(),
    decreases s.len() - i,
{
    if i < s.len() && is_digit_char(s[i]) {
        lemma_scan_int_end_bounds(s, i + 1);
    }
}

/// A scan lands within the source, strictly ahead of where it started unless
/// it reported the end of input; at the end of input the literal is empty.
pub proof fn lemma_scan_token_bounds(s: Seq<char>, pos: int)
    requires
        0 <= pos <= s.len(),
    ensures
        ({
            let (k, lit, end) = scan_token(s, pos);
            &&& pos <= end <= s.len()
            &&& (k != TokenKind::Eof ==> pos < end)
            &&& (k == TokenKind::Eof ==> lit == Seq::<char>::empty() && end == s.len())
        }),
{
    lemma_scan_ws_end_bounds(s, pos);
    let start = scan_ws_end(s, pos);
    if start < s.len() {
        if is_letter_char(s[start]) {
            lemma_scan_ident_end_bounds(s, start + 1);
            assert(scan_ident_end(s, start) == scan_ident_end(s, start + 1));
        } else if is_digit_char(s[start]) {
            lemma_scan_int_end_bounds(s, start + 1);
            assert(scan_int_end(s, start) == scan_int_end(s, start + 1));
        }
    }
}

/// A token as the model sees it: classification and literal text.
pub struct TokenModel {
    pub kind: TokenKind,
    pub literal: Seq<char>,
}

/// The whole token stream of source `s` from cursor position `pos` on: every
/// token up to, and not including, the terminal `Eof`.
pub open spec fn scan_all(s: Seq<char>, pos: int) -> Seq<TokenModel>
    decreases s.len() - pos,
    via scan_all_decreases
{
    if 0 <= pos <= s.len() {
        let (k, lit, end) = scan_token(s, pos);
        if k == TokenKind::Eof {
            Seq::<TokenModel>::empty()
        } else {
            seq![TokenModel { kind: k, literal: lit }] + scan_all(s, end)
        }
    } else {
        Seq::<TokenModel>::empty()
    }
}

#[via_fn]
proof fn scan_all_decreases(s: Seq<char>, pos: int) {
    if 0 <= pos <= s.len() {
        lemma_scan_token_bounds(s, pos);
    }
}

/// The token at index `j` of a finite token stream; past the end, the stream
/// repeats `Eof` with an empty literal forever.
pub open spec fn tok_at(toks: Seq<TokenModel>, j: int) -> TokenModel {
    if 0 <= j < toks.len() {
        toks[j]
    } else {
        TokenModel { kind: TokenKind::Eof, literal: Seq::<char>::empty() }
    }
}

/// The suffix of a token stream from index `j` on.
pub open spec fn suffix_from(toks: Seq<TokenModel>, j: int) -> Seq<TokenModel> {
    if 0 <= j <= toks.len() {
        toks.skip(j)
    } else {
        Seq::<TokenModel>::empty()
    }
}

/// Every character of the maximal digit run starting at `i` is a digit.
pub proof fn lemma_scan_int_end_digits(s: Seq<char>, i: int)
    requires
        0 <= i <= s.len(),
    ensures
        forall|k: int| i <= k < scan_int_end(s, i) ==> is_digit_char(#[trigger] s[k]),
    decreases s.len() - i,
{
    if i < s.len() && is_digit_char(s[i]) {
        lemma_scan_int_end_digits(s, i + 1);
    }
}

/// What the scanner promises of every token it hands out: it is never the
/// terminal `Eof`; an `Int` token's literal is a nonempty digit run; a keyword
/// token carries the keyword's own text.
pub open spec fn token_model_wf(t: TokenModel) -> bool {
    &&& t.kind != TokenKind::Eof
    &&& (t.kind == TokenKind::Int ==> 1 <= t.literal.len() && forall|k: int|
        0 <= k < t.literal.len() ==> is_digit_char(#[trigger] t.literal[k]))
    &&& (t.kind == TokenKind::Let ==> t.literal == "let"@)
    &&& (t.kind == TokenKind::Return ==> t.literal == "return"@)
}

/// Every token of a scanned stream satisfies `token_model_wf`.
pub proof fn lemma_scan_all_wf(s: Seq<char>, pos: int)
    requires
        0 <= pos <= s.len(),
    ensures
        forall|j: int|
            0 <= j < scan_all(s, pos).len() ==> token_model_wf(#[trigger] scan_all(s, pos)[j]),
    decreases s.len() - pos,
{
    lemma_scan_token_bounds(s, pos);
    let (k, lit, end) = scan_token(s, pos);
    if k != TokenKind::Eof {
        let start = scan_ws_end(s, pos);
        lemma_scan_ws_end_bounds(s, pos);
        if is_letter_char(s[start]) {
        } else if is_digit_char(s[start]) {
            lemma_scan_int_end_digits(s, start);
            lemma_scan_int_end_bounds(s, start);
            let stop = scan_int_end(s, start);
            assert(lit == s.subrange(start, stop));
            assert forall|q: int| 0 <= q < lit.len() implies is_digit_char(#[trigger] lit[q]) by {
                assert(lit[q] == s[start + q]);
                assert(is_digit_char(s[start + q]));
            }
        }
        let tm = TokenModel { kind: k, literal: lit };
        assert(token_model_wf(tm));
        lemma_scan_all_wf(s, end);
        assert forall|j: int| 0 <= j < scan_all(s, pos).len() implies token_model_wf(
            #[trigger] scan_all(s, pos)[j],
        ) by {
            if j > 0 {
                assert(scan_all(s, pos)[j] == scan_all(s, end)[j - 1]);
            }
        }
    }
}

/// When the scan from `pos` yields exactly the tokens of `toks` from index `j`
/// on, one pull at `pos` produces the token at index `j` and leaves a cursor
/// from which the scan yields the tokens from index `j + 1` on.
pub proof fn lemma_scan_step(s: Seq<char>, pos: int, toks: Seq<TokenModel>, j: int)
    requires
        0 <= pos <= s.len(),
        0 <= j,
        scan_all(s, pos) == suffix_from(toks, j),
    ensures
        ({
            let (k, lit, end) = scan_token(s, pos);
            &&& k == tok_at(toks, j).kind
            &&& lit == tok_at(toks, j).literal
            &&& k == TokenKind::Eof <==> j >= toks.len()
            &&& pos <= end <= s.len()
            &&& scan_all(s, end) == suffix_from(toks, j + 1)
        }),
{
    lemma_scan_token_bounds(s, pos);
    let (k, lit, end) = scan_token(s, pos);
    if k == TokenKind::Eof {
        assert(scan_all(s, pos) =~= Seq::<TokenModel>::empty());
        assert(suffix_from(toks, j).len() == 0);
        if j < toks.len() {
            assert(suffix_from(toks, j).len() == toks.len() - j);
        }
        assert(j >= toks.len());
        assert(end == s.len());
        assert(scan_ws_end(s, end) == end);
        assert(scan_token(s, end).0 == TokenKind::Eof);
        assert(scan_all(s, end) =~= Seq::<TokenModel>::empty());
        assert(suffix_from(toks, j + 1) =~= Seq::<TokenModel>::empty());
    } else {
        let tm = TokenModel { kind: k, literal: lit };
        assert(scan_all(s, pos) == seq![tm] + scan_all(s, end));
        assert(suffix_from(toks, j).len() >= 1);
        assert(j < toks.len());
        assert(suffix_from(toks, j)[0] == toks[j]);
        assert((seq![tm] + scan_all(s, end))[0] == tm);
        assert(toks[j] == tm);
        assert(scan_all(s, end) =~= suffix_from(toks, j).skip(1));
        assert(suffix_from(toks, j).skip(1) =~= suffix_from(toks, j + 1));
        assert(scan_all(s, end) == suffix_from(toks, j + 1));
    }
}

/// Scanner termination law: once a pull reports the end of input, every later
/// pull reports it again — from the cursor it leaves, the scan yields `Eof`
/// with an empty literal and the same cursor, never an `Illegal` token.
pub proof fn lemma_eof_is_terminal(s: Seq<char>, pos: int)
    requires
        0 <= pos <= s.len(),
        scan_token(s, pos).0 == TokenKind::Eof,
    ensures
        scan_token(s, scan_token(s, pos).2) == (
            TokenKind::Eof,
            Seq::<char>::empty(),
            scan_token(s, pos).2,
        ),
{
    lemma_scan_token_bounds(s, pos);
    let end = scan_token(s, pos).2;
    assert(end == s.len());
    assert(scan_ws_end(s, end) == end);
}

/// Relies on String::push: appends exactly one character at the end.
#[verifier::external_body]
fn push_char(s: &mut String, c: char)
    ensures
        final(s)@ == old(s)@.push(c),
{
    s.push(c);
}

/// The scanner: the source as characters and a forward-only cursor.
pub struct Lexer {
    input: Vec<char>,
    position: usize,
}

impl Lexer {
    /// The source text the scanner walks, as characters.
    pub closed spec fn src(&self) -> Seq<char> {
        self.input@
    }

    /// The cursor: the index of the next character not yet consumed.
    pub closed spec fn pos(&self) -> int {
        self.position as int
    }

    /// The cursor never leaves the source (one past the last character at
    /// most), and the source's length fits the cursor's machine type.
    pub open spec fn wf(&self) -> bool {
        0 <= self.pos() <= self.src().len() <= usize::MAX
    }

    /// Builds a scanner over the given source text, cursor at the start.
    pub fn new(input: &str) -> (lexer: Lexer)
        ensures
            lexer.wf(),
            lexer.src() == input@,
            lexer.pos() == 0,
    {
        let n = input.unicode_len();
        let mut chars: Vec<char> = Vec::new();
        let mut i: usize = 0;
        while i < n
            invariant
                n == input@.len(),
                i <= n,
                chars@ == input@.subrange(0, i as int),
            decreases n - i,
        {
            let c = input.get_char(i);
            chars.push(c);
            i = i + 1;
            proof {
                assert(chars@ =~= input@.subrange(0, i as int));
            }
        }
        proof {
            assert(chars@ =~= input@);
        }
        Lexer { input: chars, position: 0 }
    }

    fn skip_whitespace(&mut self)
        requires
            old(self).wf(),
        ensures
            final(self).wf(),
            final(self).src() == old(self).src(),
            final(self).pos() == scan_ws_end(old(self).src(), old(self).pos()),
    {
        while whitespace_char_at(&self.input, self.position)
            invariant
                self.wf(),
                self.src() == old(self).src(),
                scan_ws_end(old(self).src(), old(self).pos()) == scan_ws_end(
                    self.src(),
                    self.pos(),
                ),
            decreases self.src().len() - self.pos(),
        {
            self.position = self.position + 1;
        }
    }

    fn read_identifier(&mut self) -> (literal: String)
        requires
            old(self).wf(),
        ensures
            final(self).wf(),
            final(self).src() == old(self).src(),
            final(self).pos() == scan_ident_end(old(self).src(), old(self).pos()),
            literal@ == old(self).src().subrange(old(self).pos(), final(self).pos()),
    {
        let mut literal = String::new();
        while ident_char_at(&self.input, self.position)
            invariant
                self.wf(),
                self.src() == old(self).src(),
                old(self).pos() <= self.pos(),
                literal@ == self.src().subrange(old(self).pos(), self.pos()),
                scan_ident_end(old(self).src(), old(self).pos()) == scan_ident_end(
                    self.src(),
                    self.pos(),
                ),
            decreases self.src().len() - self.pos(),
        {
            let c = self.input[self.position];
            push_char(&mut literal, c);
            self.position = self.position + 1;
            proof {
                assert(literal@ =~= self.src().subrange(old(self).pos(), self.pos()));
            }
        }
        literal
    }

    fn read_number(&mut self) -> (literal: String)
        requires
            old(self).wf(),
        ensures
            final(self).wf(),
            final(self).src() == old(self).src(),
            final(self).pos() == scan_int_end(old(self).src(), old(self).pos()),
            literal@ == old(self).src().subrange(old(self).pos(), final(self).pos()),
    {
        let mut literal = String::new();
        while digit_char_at(&self.input, self.position)
            invariant
                self.wf(),
                self.src() == old(self).src(),
                old(self).pos() <= self.pos(),
                literal@ == self.src().subrange(old(self).pos(), self.pos()),
                scan_int_end(old(self).src(), old(self).pos()) == scan_int_end(
                    self.src(),
                    self.pos(),
                ),
            decreases self.src().len() - self.pos(),
        {
            let c = self.input[self.position];
            push_char(&mut literal, c);
            self.position = self.position + 1;
            proof {
                assert(literal@ =~= self.src().subrange(old(self).pos(), self.pos()));
            }
        }
        literal
    }

    /// One pull: skips whitespace, recognizes exactly one token and returns
    /// it, advancing the cursor past it. At the end of the input it returns
    /// `Eof` with an empty literal, and keeps doing so on every later pull.
    pub fn next_token(&mut self) -> (tok: Token)
        requires
            old(self).wf(),
        ensures
            final(self).wf(),
            final(self).src() == old(self).src(),
            ({
                let (k, lit, end) = scan_token(old(self).src(), old(self).pos());
                &&& tok.kind == k
                &&& tok.literal@ == lit
                &&& final(self).pos() == end
            }),
    {
        self.skip_whitespace();
        if self.position >= self.input.len() {
            return Token { kind: TokenKind::Eof, literal: String::new() };
        }
        let c = self.input[self.position];
        if is_letter(c) {
            let literal = self.read_identifier();
            let kind = lookup_ident(&literal);
            Token { kind, literal }
        } else if is_digit(c) {
            let literal = self.read_number();
            Token { kind: TokenKind::Int, literal }
        } else {
            self.position = self.position + 1;
            let mut literal = String::new();
            push_char(&mut literal, c);
            proof {
                assert(literal@ =~= self.src().subrange(self.pos() - 1, self.pos()));
            }
            Token { kind: symbol_token_kind(c), literal }
        }
    }
}

} // verus!
