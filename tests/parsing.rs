use minicc::lexer::Lexer;
use minicc::parser::Parser;
use minicc::token::TokenKind;

fn parse(src: &str) -> Result<minicc::ast::Program, String> {
    let tokens = Lexer::new(src.to_string()).run().unwrap();
    Parser::new(tokens).parse_ast()
}

#[test]
fn empty_file_fails_expecting_int() {
    assert_eq!(parse("").unwrap_err(), "expected Int, found EOF");
}

#[test]
fn extra_token_after_closing_brace() {
    assert_eq!(
        parse("int main(void){return 0;} }").unwrap_err(),
        "parse finished but tokens remain: BRACE_CLOSE"
    );
    assert_eq!(
        parse("int main(void){return 0;} int").unwrap_err(),
        "parse finished but tokens remain: INT"
    );
}

#[test]
fn missing_constant() {
    assert_eq!(parse("int main(void){return;}").unwrap_err(), "expected Constant, found SEMICOLON");
}

#[test]
fn each_position_reports_its_expectation() {
    assert_eq!(parse("void").unwrap_err(), "expected Int, found VOID");
    assert_eq!(parse("int 5").unwrap_err(), "expected Identifier, found CONSTANT(5)");
    assert_eq!(parse("int f{").unwrap_err(), "expected ParenOpen, found BRACE_OPEN");
    assert_eq!(parse("int f()").unwrap_err(), "expected Void, found PAREN_CLOSE");
    assert_eq!(parse("int f(void").unwrap_err(), "expected ParenClose, found EOF");
    assert_eq!(parse("int f(void) return").unwrap_err(), "expected BraceOpen, found RETURN");
    assert_eq!(parse("int f(void){ x").unwrap_err(), "expected Return, found IDENT(x)");
    assert_eq!(parse("int f(void){return 1}").unwrap_err(), "expected Semicolon, found BRACE_CLOSE");
    assert_eq!(parse("int f(void){return 1;").unwrap_err(), "expected BraceClose, found EOF");
}

#[test]
fn tree_yields_input_tokens() {
    let src = "int answer(void) { return 42; }";
    let tokens = Lexer::new(src.to_string()).run().unwrap();
    let kinds: Vec<TokenKind> = tokens.iter().map(|t| t.kind.clone()).collect();
    let p = Parser::new(tokens).parse_ast().unwrap();
    assert_eq!(p.function.ident, "answer");
    assert_eq!(p.function.stmt.expr.int, 42);
    let walked = vec![
        TokenKind::Int,
        TokenKind::Identifier(p.function.ident.clone()),
        TokenKind::ParenOpen,
        TokenKind::Void,
        TokenKind::ParenClose,
        TokenKind::BraceOpen,
        TokenKind::Return,
        TokenKind::Constant(p.function.stmt.expr.int),
        TokenKind::Semicolon,
        TokenKind::BraceClose,
    ];
    assert_eq!(walked, kinds);
}
