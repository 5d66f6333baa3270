use vstd::prelude::*;

use crate::text::{int_decimal, push_int};

verus! {

/// Where a token stands in the source: its byte span, its 1-based line and
/// its 0-based column.
#[derive(Clone, Copy, Debug, PartialEq, Eq)]
pub struct SourceLocation {
    pub index: (usize, usize),
    pub line: usize,
    pub col: usize,
}

/// The kind of a token, with its payload for identifiers and constants.
#[derive(Clone, Debug, PartialEq)]
pub enum TokenKind {
    BraceOpen,
    BraceClose,
    ParenOpen,
    ParenClose,
    Semicolon,
    Int,
    Void,
    Return,
    Identifier(String),
    Constant(i32),
}

/// A token kind as a mathematical value.
pub enum Kind {
    BraceOpen,
    BraceClose,
    ParenOpen,
    ParenClose,
    Semicolon,
    Int,
    Void,
    Return,
    Identifier(Seq<char>),
    Constant(i32),
}

impl View for TokenKind {
    type V = Kind;

    open spec fn view(&self) -> Kind {
        match self {
            TokenKind::BraceOpen => Kind::BraceOpen,
            TokenKind::BraceClose => Kind::BraceClose,
            TokenKind::ParenOpen => Kind::ParenOpen,
            TokenKind::ParenClose => Kind::ParenClose,
            TokenKind::Semicolon => Kind::Semicolon,
            TokenKind::Int => Kind::Int,
            TokenKind::Void => Kind::Void,
            TokenKind::Return => Kind::Return,
            TokenKind::Identifier(s) => Kind::Identifier(s@),
            TokenKind::Constant(v) => Kind::Constant(*v),
        }
    }
}

/// A token: its kind and where it stands.
#[derive(Clone, Debug)]
pub struct Token {
    pub kind: TokenKind,
    pub loc: SourceLocation,
}

/// A token as a mathematical value.
pub struct TokenView {
    pub kind: Kind,
    pub loc: SourceLocation,
}

impl View for Token {
    type V = TokenView;

    open spec fn view(&self) -> TokenView {
        TokenView { kind: self.kind@, loc: self.loc }
    }
}

/// The views of a sequence of tokens.
pub open spec fn tokens_view(t: Seq<Token>) -> Seq<TokenView> {
    t.map_values(|x: Token| x@)
}

/// The display form of a token kind, as used in diagnostics and dumps.
pub open spec fn kind_text(k: Kind) -> Seq<char> {
    match k {
        Kind::BraceOpen => "BRACE_OPEN"@,
        Kind::BraceClose => "BRACE_CLOSE"@,
        Kind::ParenOpen => "PAREN_OPEN"@,
        Kind::ParenClose => "PAREN_CLOSE"@,
        Kind::Semicolon => "SEMICOLON"@,
        Kind::Int => "INT"@,
        Kind::Void => "VOID"@,
        Kind::Return => "RETURN"@,
        Kind::Identifier(name) => "IDENT("@ + name + ")"@,
        Kind::Constant(v) => "CONSTANT("@ + int_decimal(v as int) + ")"@,
    }
}

impl TokenKind {
    /// A copy of this kind.
    pub fn duplicate(&self) -> (r: TokenKind)
        ensures
            r@ == self@,
    {
        match self {
            TokenKind::BraceOpen => TokenKind::BraceOpen,
            TokenKind::BraceClose => TokenKind::BraceClose,
            TokenKind::ParenOpen => TokenKind::ParenOpen,
            TokenKind::ParenClose => TokenKind::ParenClose,
            TokenKind::Semicolon => TokenKind::Semicolon,
            TokenKind::Int => TokenKind::Int,
            TokenKind::Void => TokenKind::Void,
            TokenKind::Return => TokenKind::Return,
            TokenKind::Identifier(s) => TokenKind::Identifier(s.clone()),
            TokenKind::Constant(v) => TokenKind::Constant(*v),
        }
    }

    /// Appends the display form of this kind to `out`.
    pub fn write_to(&self, out: &mut String)
        ensures
            final(out)@ == old(out)@ + kind_text(self@),
    {
        let ghost start = out@;
        match self {
            TokenKind::BraceOpen => out.append("BRACE_OPEN"),
            TokenKind::BraceClose => out.append("BRACE_CLOSE"),
            TokenKind::ParenOpen => out.append("PAREN_OPEN"),
            TokenKind::ParenClose => out.append("PAREN_CLOSE"),
            TokenKind::Semicolon => out.append("SEMICOLON"),
            TokenKind::Int => out.append("INT"),
            TokenKind::Void => out.append("VOID"),
            TokenKind::Return => out.append("RETURN"),
            TokenKind::Identifier(s) => {
                out.append("IDENT(");
                out.append(s.as_str());
                out.append(")");
                assert(out@ =~= start + kind_text(self@));
            },
            TokenKind::Constant(v) => {
                out.append("CONSTANT(");
                push_int(out, *v);
                out.append(")");
                assert(out@ =~= start + kind_text(self@));
            },
        }
    }

    /// The display form of this kind: `BRACE_OPEN`, `IDENT(main)`,
    /// `CONSTANT(2)` and so on.
    pub fn display(&self) -> (r: String)
        ensures
            r@ == kind_text(self@),
    {
        let mut out = String::new();
        self.write_to(&mut out);
        assert(out@ =~= kind_text(self@));
        out
    }
}

impl Token {
    /// A copy of this token.
    pub fn duplicate(&self) -> (r: Token)
        ensures
            r@ == self@,
    {
        Token { kind: self.kind.duplicate(), loc: self.loc }
    }
}

} // verus!
