use minicc::lexer::Lexer;
use minicc::token::{SourceLocation, Token, TokenKind};

fn lex(src: &str) -> Result<Vec<Token>, String> {
    Lexer::new(src.to_string()).run()
}

fn kinds(src: &str) -> Vec<TokenKind> {
    lex(src).unwrap().into_iter().map(|t| t.kind).collect()
}

#[test]
fn max_constant_lexes() {
    assert_eq!(kinds("2147483647"), vec![TokenKind::Constant(2147483647)]);
}

#[test]
fn constant_past_max_fails() {
    assert_eq!(lex("2147483648").unwrap_err(), "constant out of range: 2147483648");
}

#[test]
fn underscore_identifier() {
    assert_eq!(kinds("_x1"), vec![TokenKind::Identifier("_x1".to_string())]);
}

#[test]
fn digit_letter_lexeme_fails_with_whole_lexeme() {
    assert_eq!(lex("42abc").unwrap_err(), "invalid constant: 42abc");
    assert_eq!(lex("int main(void){return 1a;}").unwrap_err(), "invalid constant: 1a");
    assert_eq!(lex("7_x;").unwrap_err(), "invalid constant: 7_x");
}

#[test]
fn empty_source_has_no_tokens() {
    assert!(lex("").unwrap().is_empty());
    assert!(lex(" \t\r\n\n").unwrap().is_empty());
}

#[test]
fn invalid_character_fails() {
    assert_eq!(lex("int main(void){return $;}").unwrap_err(), "invalid character: $");
    assert_eq!(lex("a + b").unwrap_err(), "invalid character: +");
}

#[test]
fn non_ascii_fails() {
    assert!(lex("int é").unwrap_err().starts_with("invalid character: "));
}

#[test]
fn keywords_and_punctuation() {
    assert_eq!(
        kinds("int main(void){return 2;}"),
        vec![
            TokenKind::Int,
            TokenKind::Identifier("main".to_string()),
            TokenKind::ParenOpen,
            TokenKind::Void,
            TokenKind::ParenClose,
            TokenKind::BraceOpen,
            TokenKind::Return,
            TokenKind::Constant(2),
            TokenKind::Semicolon,
            TokenKind::BraceClose,
        ]
    );
    assert_eq!(
        kinds("integer voids returned"),
        vec![
            TokenKind::Identifier("integer".to_string()),
            TokenKind::Identifier("voids".to_string()),
            TokenKind::Identifier("returned".to_string()),
        ]
    );
}

#[test]
fn locations_track_lines_and_columns() {
    let toks = lex("int\n  main (\n\tvoid").unwrap();
    let locs: Vec<SourceLocation> = toks.iter().map(|t| t.loc).collect();
    assert_eq!(locs[0], SourceLocation { index: (0, 3), line: 1, col: 0 });
    assert_eq!(locs[1], SourceLocation { index: (6, 10), line: 2, col: 2 });
    assert_eq!(locs[2], SourceLocation { index: (11, 12), line: 2, col: 7 });
    assert_eq!(locs[3], SourceLocation { index: (14, 18), line: 3, col: 1 });
}

#[test]
fn token_spans_cover_source() {
    let src = "int main (void)\n{\r\n\treturn 42 ;\n}\n";
    let toks = lex(src).unwrap();
    let bytes = src.as_bytes();
    let mut rebuilt: Vec<u8> = Vec::new();
    let mut at = 0;
    for t in &toks {
        let (s, e) = t.loc.index;
        assert!(at <= s && s < e && e <= bytes.len());
        for &b in &bytes[at..s] {
            assert!(b == b' ' || b == b'\t' || b == b'\r' || b == b'\n');
        }
        rebuilt.extend_from_slice(&bytes[at..s]);
        rebuilt.extend_from_slice(&bytes[s..e]);
        at = e;
    }
    for &b in &bytes[at..] {
        assert!(b == b' ' || b == b'\t' || b == b'\r' || b == b'\n');
    }
    rebuilt.extend_from_slice(&bytes[at..]);
    assert_eq!(rebuilt, bytes);
}

#[test]
fn display_forms() {
    assert_eq!(TokenKind::BraceOpen.display(), "BRACE_OPEN");
    assert_eq!(TokenKind::BraceClose.display(), "BRACE_CLOSE");
    assert_eq!(TokenKind::ParenOpen.display(), "PAREN_OPEN");
    assert_eq!(TokenKind::ParenClose.display(), "PAREN_CLOSE");
    assert_eq!(TokenKind::Semicolon.display(), "SEMICOLON");
    assert_eq!(TokenKind::Int.display(), "INT");
    assert_eq!(TokenKind::Void.display(), "VOID");
    assert_eq!(TokenKind::Return.display(), "RETURN");
    assert_eq!(TokenKind::Identifier("main".to_string()).display(), "IDENT(main)");
    assert_eq!(TokenKind::Constant(2).display(), "CONSTANT(2)");
    assert_eq!(TokenKind::Constant(-2147483648).display(), "CONSTANT(-2147483648)");
    assert_eq!(TokenKind::Constant(1090).display(), "CONSTANT(1090)");
}
