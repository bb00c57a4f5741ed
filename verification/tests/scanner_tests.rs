use roxy::scanner::Cursor;
use roxy::token::TokenType;

fn kinds_of(src: &str) -> Vec<String> {
    let mut c = Cursor::new(src);
    let mut out = Vec::new();
    loop {
        let t = c.advance();
        let is_eof = matches!(t.kind, TokenType::Eof);
        out.push(format!("{}", t.kind.as_str()));
        if is_eof {
            break;
        }
    }
    out
}

#[test]
fn p1_single_character_tokens() {
    for (text, probe) in [
        ("(", TokenType::OpenParen),
        (")", TokenType::CloseParen),
        ("{", TokenType::OpenBrace),
        ("}", TokenType::CloseBrace),
        (",", TokenType::Comma),
        (".", TokenType::Dot),
        ("-", TokenType::Minus),
        ("+", TokenType::Plus),
        (";", TokenType::SemiColon),
        ("/", TokenType::Slash),
        ("*", TokenType::Star),
        ("!", TokenType::Bang),
        ("=", TokenType::Equal),
        (">", TokenType::Greater),
        ("<", TokenType::Less),
    ] {
        let mut c = Cursor::new(text);
        let t = c.advance();
        assert_eq!(
            std::mem::discriminant(&t.kind),
            std::mem::discriminant(&probe),
            "text {text}"
        );
        assert_eq!(t.kind.as_str(), text);
        assert!(matches!(c.advance().kind, TokenType::Eof));
        assert!(matches!(c.advance().kind, TokenType::Eof));
    }
}

#[test]
fn p1_two_character_tokens() {
    for (text, probe) in [
        ("!=", TokenType::BangEqual),
        ("==", TokenType::EqualEqual),
        (">=", TokenType::GreaterEqual),
        ("<=", TokenType::LessEqual),
    ] {
        let mut c = Cursor::new(text);
        let t = c.advance();
        assert_eq!(std::mem::discriminant(&t.kind), std::mem::discriminant(&probe));
        assert_eq!(t.kind.as_str(), text);
        assert!(matches!(c.advance().kind, TokenType::Eof));
    }
}

#[test]
fn p1_keywords() {
    for (text, probe) in [
        ("and", TokenType::And),
        ("class", TokenType::Class),
        ("else", TokenType::Else),
        ("false", TokenType::False),
        ("fn", TokenType::Fn),
        ("for", TokenType::For),
        ("if", TokenType::If),
        ("nil", TokenType::Nil),
        ("or", TokenType::Or),
        ("return", TokenType::Return),
        ("super", TokenType::Super),
        ("this", TokenType::This),
        ("true", TokenType::True),
        ("var", TokenType::Var),
        ("while", TokenType::While),
    ] {
        let mut c = Cursor::new(text);
        let t = c.advance();
        assert_eq!(std::mem::discriminant(&t.kind), std::mem::discriminant(&probe));
        assert_eq!(t.kind.as_str(), text);
        assert!(matches!(c.advance().kind, TokenType::Eof));
    }
}

#[test]
fn p2_unterminated_string_is_error_token() {
    let mut c = Cursor::new("\"abc");
    let t = c.advance();
    match t.kind {
        TokenType::Error(msg) => assert_eq!(msg, "Unterminated string"),
        k => panic!("expected error token, got {}", k.as_str()),
    }
}

#[test]
fn string_token_excludes_delimiters() {
    let mut c = Cursor::new("\"hello\"");
    let t = c.advance();
    match t.kind {
        TokenType::String(s) => assert_eq!(s, "hello"),
        k => panic!("expected string token, got {}", k.as_str()),
    }
    assert!(matches!(c.advance().kind, TokenType::Eof));
}

#[test]
fn number_tokens_with_and_without_fraction() {
    let mut c = Cursor::new("12 3.5 7.");
    match c.advance().kind {
        TokenType::Number(s) => assert_eq!(s, "12"),
        _ => panic!(),
    }
    match c.advance().kind {
        TokenType::Number(s) => assert_eq!(s, "3.5"),
        _ => panic!(),
    }
    match c.advance().kind {
        TokenType::Number(s) => assert_eq!(s, "7."),
        _ => panic!(),
    }
}

#[test]
fn identifiers_are_maximal_letter_runs() {
    let mut c = Cursor::new("foo classy");
    match c.advance().kind {
        TokenType::Ident(s) => assert_eq!(s, "foo"),
        _ => panic!(),
    }
    // "classy" is an identifier, not the keyword "class"
    match c.advance().kind {
        TokenType::Ident(s) => assert_eq!(s, "classy"),
        _ => panic!(),
    }
}

#[test]
fn unexpected_character_is_error_token() {
    let mut c = Cursor::new("#");
    match c.advance().kind {
        TokenType::Error(msg) => assert_eq!(msg, "Unexpected character."),
        _ => panic!(),
    }
}

#[test]
fn line_numbers_advance_on_newlines() {
    let mut c = Cursor::new("1\n2\n\n3");
    assert_eq!(c.advance().line(), 1);
    assert_eq!(c.advance().line(), 2);
    assert_eq!(c.advance().line(), 4);
}

#[test]
fn spans_cover_token_text() {
    let mut c = Cursor::new("  12 +");
    let t = c.advance();
    assert_eq!((t.span.0, t.span.1), (2, 4));
    let t2 = c.advance();
    assert_eq!((t2.span.0, t2.span.1), (5, 6));
}

#[test]
fn whitespace_only_scans_to_eof() {
    let k = kinds_of(" \t\r\n ");
    assert_eq!(k, vec!["<<EOF>>".to_string()]);
}
