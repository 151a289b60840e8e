use monkey_parser::lookup_ident;
use monkey_parser::Lexer;
use monkey_parser::TokenKind;

#[test]
fn symbols_scan_one_by_one() {
    let mut lexer = Lexer::new("=+(){},;-!*/<>");
    let expected = vec![
        (TokenKind::Assign, "="),
        (TokenKind::Plus, "+"),
        (TokenKind::Lparen, "("),
        (TokenKind::Rparen, ")"),
        (TokenKind::Lbrace, "{"),
        (TokenKind::Rbrace, "}"),
        (TokenKind::Comma, ","),
        (TokenKind::Semicolon, ";"),
        (TokenKind::Minus, "-"),
        (TokenKind::Bang, "!"),
        (TokenKind::Asterisk, "*"),
        (TokenKind::Slash, "/"),
        (TokenKind::Lt, "<"),
        (TokenKind::Gt, ">"),
        (TokenKind::Eof, ""),
    ];
    for (kind, literal) in expected {
        let tok = lexer.next_token();
        assert_eq!(tok.kind, kind);
        assert_eq!(tok.literal, literal);
    }
}

#[test]
fn keywords_identifiers_and_numbers_scan() {
    let input = "let five = 5;\nfn add(x, y) { return x; }\nif true { } else { false }";
    let mut lexer = Lexer::new(input);
    let expected = vec![
        (TokenKind::Let, "let"),
        (TokenKind::Ident, "five"),
        (TokenKind::Assign, "="),
        (TokenKind::Int, "5"),
        (TokenKind::Semicolon, ";"),
        (TokenKind::Function, "fn"),
        (TokenKind::Ident, "add"),
        (TokenKind::Lparen, "("),
        (TokenKind::Ident, "x"),
        (TokenKind::Comma, ","),
        (TokenKind::Ident, "y"),
        (TokenKind::Rparen, ")"),
        (TokenKind::Lbrace, "{"),
        (TokenKind::Return, "return"),
        (TokenKind::Ident, "x"),
        (TokenKind::Semicolon, ";"),
        (TokenKind::Rbrace, "}"),
        (TokenKind::If, "if"),
        (TokenKind::True, "true"),
        (TokenKind::Lbrace, "{"),
        (TokenKind::Rbrace, "}"),
        (TokenKind::Else, "else"),
        (TokenKind::Lbrace, "{"),
        (TokenKind::False, "false"),
        (TokenKind::Rbrace, "}"),
        (TokenKind::Eof, ""),
    ];
    for (kind, literal) in expected {
        let tok = lexer.next_token();
        assert_eq!(tok.kind, kind, "wrong kind for literal {:?}", tok.literal);
        assert_eq!(tok.literal, literal);
    }
}

#[test]
fn identifiers_take_underscores_and_digits() {
    let mut lexer = Lexer::new("foo_bar2 _x");
    let tok = lexer.next_token();
    assert_eq!(tok.kind, TokenKind::Ident);
    assert_eq!(tok.literal, "foo_bar2");
    let tok = lexer.next_token();
    assert_eq!(tok.kind, TokenKind::Ident);
    assert_eq!(tok.literal, "_x");
}

#[test]
fn unrecognized_character_is_illegal_not_fatal() {
    let mut lexer = Lexer::new("@ x");
    let tok = lexer.next_token();
    assert_eq!(tok.kind, TokenKind::Illegal);
    assert_eq!(tok.literal, "@");
    let tok = lexer.next_token();
    assert_eq!(tok.kind, TokenKind::Ident);
    assert_eq!(tok.literal, "x");
}

#[test]
fn exhausted_scanner_returns_eof_forever() {
    let mut lexer = Lexer::new("x  ");
    let tok = lexer.next_token();
    assert_eq!(tok.kind, TokenKind::Ident);
    let mut i: usize = 0;
    while i < 100 {
        let tok = lexer.next_token();
        assert_eq!(tok.kind, TokenKind::Eof);
        assert_eq!(tok.literal, "");
        assert_ne!(tok.kind, TokenKind::Illegal);
        i += 1;
    }
}

#[test]
fn whitespace_carries_no_tokens() {
    let mut lexer = Lexer::new(" \t\r\n ");
    let tok = lexer.next_token();
    assert_eq!(tok.kind, TokenKind::Eof);
}

#[test]
fn keyword_lookup_classifies() {
    assert_eq!(lookup_ident(&String::from("fn")), TokenKind::Function);
    assert_eq!(lookup_ident(&String::from("let")), TokenKind::Let);
    assert_eq!(lookup_ident(&String::from("if")), TokenKind::If);
    assert_eq!(lookup_ident(&String::from("else")), TokenKind::Else);
    assert_eq!(lookup_ident(&String::from("return")), TokenKind::Return);
    assert_eq!(lookup_ident(&String::from("true")), TokenKind::True);
    assert_eq!(lookup_ident(&String::from("false")), TokenKind::False);
    assert_eq!(lookup_ident(&String::from("foobar")), TokenKind::Ident);
    assert_eq!(lookup_ident(&String::from("lets")), TokenKind::Ident);
}
