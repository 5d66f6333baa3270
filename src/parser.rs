use vstd::prelude::*;

use crate::ast;
use crate::token::{kind_text, Kind, Token, TokenKind};

verus! {

/// The token kinds of a token sequence.
pub open spec fn kinds_of(t: Seq<Token>) -> Seq<Kind> {
    t.map_values(|x: Token| x.kind@)
}

/// The number of tokens that the grammar takes.
pub open spec fn grammar_len() -> int {
    10
}

/// Whether `k` is what the grammar wants at position `p` of
/// `int IDENT ( void ) { return CONSTANT ; }`.
pub open spec fn fits(k: Kind, p: int) -> bool {
    if p == 0 {
        k is Int
    } else if p == 1 {
        k is Identifier
    } else if p == 2 {
        k is ParenOpen
    } else if p == 3 {
        k is Void
    } else if p == 4 {
        k is ParenClose
    } else if p == 5 {
        k is BraceOpen
    } else if p == 6 {
        k is Return
    } else if p == 7 {
        k is Constant
    } else if p == 8 {
        k is Semicolon
    } else {
        k is BraceClose
    }
}

/// The name of what the grammar wants at position `p`, for diagnostics.
pub open spec fn expected_name(p: int) -> Seq<char> {
    if p == 0 {
        "Int"@
    } else if p == 1 {
        "Identifier"@
    } else if p == 2 {
        "ParenOpen"@
    } else if p == 3 {
        "Void"@
    } else if p == 4 {
        "ParenClose"@
    } else if p == 5 {
        "BraceOpen"@
    } else if p == 6 {
        "Return"@
    } else if p == 7 {
        "Constant"@
    } else if p == 8 {
        "Semicolon"@
    } else {
        "BraceClose"@
    }
}

/// The first position from `i` on where the tokens leave the grammar, or
/// the grammar's length when they follow it to its end.
pub open spec fn first_misfit(toks: Seq<Kind>, i: int) -> int
    decreases grammar_len() - i,
{
    if i >= grammar_len() {
        grammar_len()
    } else if fits_at(toks, i) {
        first_misfit(toks, i + 1)
    } else {
        i
    }
}

/// Position `q` holds a token that fits the grammar there.
pub open spec fn fits_at(toks: Seq<Kind>, q: int) -> bool {
    0 <= q < toks.len() && fits(toks[q], q)
}

/// The diagnostic for a token stream that leaves the grammar at `p`.
pub open spec fn misfit_message(toks: Seq<Kind>, p: int) -> Seq<char> {
    "expected "@ + expected_name(p) + ", found "@ + (if p < toks.len() {
        kind_text(toks[p])
    } else {
        "EOF"@
    })
}

/// The program that a token stream spells (its function's name and the
/// value it returns), or the diagnostic for the first token that does not
/// fit, or for the first token left over.
pub open spec fn parse(toks: Seq<Kind>) -> Result<(Seq<char>, i32), Seq<char>> {
    let p = first_misfit(toks, 0);
    if p < grammar_len() {
        Err(misfit_message(toks, p))
    } else if toks.len() > grammar_len() {
        Err("parse finished but tokens remain: "@ + kind_text(toks[grammar_len()]))
    } else {
        Ok((toks[1]->Identifier_0, toks[7]->Constant_0))
    }
}

/// The mathematical value of a parser result.
pub open spec fn parse_result_view(r: Result<ast::Program, String>) -> Result<
    (Seq<char>, i32),
    Seq<char>,
> {
    match r {
        Ok(p) => Ok(p@),
        Err(m) => Err(m@),
    }
}

/// Where every position before `p` fits, the first misfit from any `i` up
/// to `p` is the first misfit from `p`.
proof fn lemma_first_misfit(toks: Seq<Kind>, i: int, p: int)
    requires
        0 <= i <= p <= grammar_len(),
        forall|q: int| 0 <= q < p ==> #[trigger] fits_at(toks, q),
    ensures
        first_misfit(toks, i) == first_misfit(toks, p),
    decreases p - i,
{
    if i < p {
        lemma_first_misfit(toks, i + 1, p);
    }
}

/// Every position before `n` fits the grammar.
pub open spec fn prefix_fits(toks: Seq<Kind>, n: int) -> bool {
    forall|q: int| 0 <= q < n ==> #[trigger] fits_at(toks, q)
}

/// The display form of what was found where a token was expected.
pub open spec fn found_text(found: Option<Token>) -> Seq<char> {
    match found {
        Some(t) => kind_text(t.kind@),
        None => "EOF"@,
    }
}

/// The token sequence that spells the program `int name(void) { return
/// value; }`.
pub open spec fn program_kinds(p: (Seq<char>, i32)) -> Seq<Kind> {
    seq![
        Kind::Int,
        Kind::Identifier(p.0),
        Kind::ParenOpen,
        Kind::Void,
        Kind::ParenClose,
        Kind::BraceOpen,
        Kind::Return,
        Kind::Constant(p.1),
        Kind::Semicolon,
        Kind::BraceClose,
    ]
}

proof fn lemma_misfit_at(toks: Seq<Kind>, p: int)
    requires
        0 <= p < grammar_len(),
        prefix_fits(toks, p),
        !fits_at(toks, p),
    ensures
        parse(toks) == Err::<(Seq<char>, i32), Seq<char>>(misfit_message(toks, p)),
{
    lemma_first_misfit(toks, 0, p);
}

proof fn lemma_all_fit(toks: Seq<Kind>)
    requires
        prefix_fits(toks, grammar_len()),
    ensures
        first_misfit(toks, 0) == grammar_len(),
{
    lemma_first_misfit(toks, 0, grammar_len());
}

proof fn lemma_no_misfit(toks: Seq<Kind>, i: int)
    requires
        0 <= i <= grammar_len(),
        first_misfit(toks, i) >= grammar_len(),
    ensures
        forall|q: int| i <= q < grammar_len() ==> #[trigger] fits_at(toks, q),
    decreases grammar_len() - i,
{
    if i < grammar_len() {
        lemma_no_misfit(toks, i + 1);
    }
}

/// Parsing follows the grammar exactly: a token stream parses if and only
/// if it is the token sequence of the program it yields, so walking the tree
/// gives back the input's tokens, and every program's own tokens parse to
/// that program.
pub proof fn lemma_parse_exact(toks: Seq<Kind>, prog: (Seq<char>, i32))
    ensures
        parse(toks) == Ok::<(Seq<char>, i32), Seq<char>>(prog) <==> toks == program_kinds(prog),
{
    if parse(toks) == Ok::<(Seq<char>, i32), Seq<char>>(prog) {
        lemma_no_misfit(toks, 0);
        assert(forall|q: int| 0 <= q < 10 ==> fits_at(toks, q));
        assert(fits_at(toks, 0) && fits_at(toks, 1) && fits_at(toks, 2) && fits_at(toks, 3)
            && fits_at(toks, 4));
        assert(fits_at(toks, 5) && fits_at(toks, 6) && fits_at(toks, 7) && fits_at(toks, 8)
            && fits_at(toks, 9));
        assert(toks =~= program_kinds(prog));
    }
    if toks == program_kinds(prog) {
        let t = program_kinds(prog);
        assert(prefix_fits(t, grammar_len())) by {
            assert forall|q: int| 0 <= q < grammar_len() implies #[trigger] fits_at(t, q) by {
                assert(0 <= q < t.len());
            }
        }
        lemma_all_fit(t);
    }
}

/// A recursive-descent parser over a token sequence.
pub struct Parser {
    tokens: Vec<Token>,
    curr_idx: usize,
}

/// Whether `k` is the fixed-kind token that position `p` of the grammar wants.
fn fits_exec(k: &TokenKind, p: usize) -> (r: bool)
    ensures
        r == fits(k@, p as int),
{
    match k {
        TokenKind::Int => p == 0,
        TokenKind::Identifier(_) => p == 1,
        TokenKind::ParenOpen => p == 2,
        TokenKind::Void => p == 3,
        TokenKind::ParenClose => p == 4,
        TokenKind::BraceOpen => p == 5,
        TokenKind::Return => p == 6,
        TokenKind::Constant(_) => p == 7,
        TokenKind::Semicolon => p == 8,
        TokenKind::BraceClose => p >= 9,
    }
}

/// The diagnostic for finding `found` where position `p` of the grammar
/// wanted something else.
fn misfit_error(p: usize, found: &Option<Token>) -> (r: String)
    requires
        p < grammar_len(),
    ensures
        r@ == "expected "@ + expected_name(p as int) + ", found "@ + found_text(*found),
{
    let mut m = String::new();
    m.append("expected ");
    if p == 0 {
        m.append("Int");
    } else if p == 1 {
        m.append("Identifier");
    } else if p == 2 {
        m.append("ParenOpen");
    } else if p == 3 {
        m.append("Void");
    } else if p == 4 {
        m.append("ParenClose");
    } else if p == 5 {
        m.append("BraceOpen");
    } else if p == 6 {
        m.append("Return");
    } else if p == 7 {
        m.append("Constant");
    } else if p == 8 {
        m.append("Semicolon");
    } else {
        m.append("BraceClose");
    }
    m.append(", found ");
    match found {
        Some(t) => t.kind.write_to(&mut m),
        None => m.append("EOF"),
    }
    assert(m@ =~= "expected "@ + expected_name(p as int) + ", found "@ + found_text(*found));
    m
}

impl Parser {
    /// The kinds of the tokens being parsed.
    pub closed spec fn kinds(&self) -> Seq<Kind> {
        kinds_of(self.tokens@)
    }

    /// How many tokens have been taken.
    pub closed spec fn cursor(&self) -> int {
        self.curr_idx as int
    }

    /// A parser at the start of `tokens`.
    pub fn new(tokens: Vec<Token>) -> (r: Parser)
        ensures
            r.kinds() == kinds_of(tokens@),
            r.cursor() == 0,
    {
        Parser { tokens, curr_idx: 0 }
    }

    /// The next token, if any is left.
    fn peek(&self) -> (r: Option<Token>)
        ensures
            r is Some <==> self.curr_idx < self.tokens@.len(),
            r is Some ==> r->Some_0@ == self.tokens@[self.curr_idx as int]@,
    {
        if self.curr_idx < self.tokens.len() {
            Some(self.tokens[self.curr_idx].duplicate())
        } else {
            None
        }
    }

    /// Takes the next token, if any is left.
    fn take_token(&mut self) -> (r: Option<Token>)
        requires
            old(self).curr_idx <= old(self).tokens@.len(),
        ensures
            final(self).tokens == old(self).tokens,
            final(self).curr_idx <= final(self).tokens@.len(),
            old(self).curr_idx < old(self).tokens@.len() ==> r is Some && r->Some_0@
                == old(self).tokens@[old(self).curr_idx as int]@ && final(self).curr_idx
                == old(self).curr_idx + 1,
            old(self).curr_idx == old(self).tokens@.len() ==> r is None && final(self).curr_idx
                == old(self).curr_idx,
    {
        let t = self.peek();
        if self.curr_idx < self.tokens.len() {
            self.curr_idx = self.curr_idx + 1;
        }
        t
    }

    /// Takes the token at grammar position `p`, which must be of the kind
    /// that the grammar wants there.
    fn expect(&mut self, p: usize) -> (r: Result<(), String>)
        requires
            old(self).curr_idx == p < grammar_len(),
            p <= old(self).tokens@.len(),
            prefix_fits(old(self).kinds(), p as int),
        ensures
            final(self).tokens == old(self).tokens,
            final(self).curr_idx <= final(self).tokens@.len(),
            r is Ok ==> final(self).curr_idx == p + 1 && prefix_fits(final(self).kinds(), p + 1),
            r is Err ==> parse(old(self).kinds()) == Err::<(Seq<char>, i32), Seq<char>>(
                r->Err_0@,
            ),
    {
        let t = self.take_token();
        match &t {
            Some(tok) => {
                if fits_exec(&tok.kind, p) {
                    assert(fits_at(self.kinds(), p as int));
                    return Ok(());
                }
            },
            None => {},
        }
        proof {
            lemma_misfit_at(self.kinds(), p as int);
        }
        Err(misfit_error(p, &t))
    }

    /// Takes the function's name.
    fn parse_identifier(&mut self) -> (r: Result<String, String>)
        requires
            old(self).curr_idx == 1 <= old(self).tokens@.len(),
            prefix_fits(old(self).kinds(), 1),
        ensures
            final(self).tokens == old(self).tokens,
            final(self).curr_idx <= final(self).tokens@.len(),
            r is Ok ==> final(self).curr_idx == 2 && prefix_fits(final(self).kinds(), 2) && r->Ok_0@
                == old(self).kinds()[1]->Identifier_0,
            r is Err ==> parse(old(self).kinds()) == Err::<(Seq<char>, i32), Seq<char>>(
                r->Err_0@,
            ),
    {
        let t = self.take_token();
        match t {
            Some(Token { kind: TokenKind::Identifier(name), .. }) => {
                assert(fits_at(self.kinds(), 1));
                return Ok(name);
            },
            _ => {},
        }
        proof {
            lemma_misfit_at(self.kinds(), 1);
        }
        Err(misfit_error(1, &t))
    }

    /// Takes the returned constant.
    fn parse_int(&mut self) -> (r: Result<i32, String>)
        requires
            old(self).curr_idx == 7 <= old(self).tokens@.len(),
            prefix_fits(old(self).kinds(), 7),
        ensures
            final(self).tokens == old(self).tokens,
            final(self).curr_idx <= final(self).tokens@.len(),
            r is Ok ==> final(self).curr_idx == 8 && prefix_fits(final(self).kinds(), 8) && r->Ok_0
                == old(self).kinds()[7]->Constant_0,
            r is Err ==> parse(old(self).kinds()) == Err::<(Seq<char>, i32), Seq<char>>(
                r->Err_0@,
            ),
    {
        let t = self.take_token();
        match t {
            Some(Token { kind: TokenKind::Constant(v), .. }) => {
                assert(fits_at(self.kinds(), 7));
                return Ok(v);
            },
            _ => {},
        }
        proof {
            lemma_misfit_at(self.kinds(), 7);
        }
        Err(misfit_error(7, &t))
    }

    /// `expr := CONSTANT`.
    fn parse_expr(&mut self) -> (r: Result<ast::Expr, String>)
        requires
            old(self).curr_idx == 7 <= old(self).tokens@.len(),
            prefix_fits(old(self).kinds(), 7),
        ensures
            final(self).tokens == old(self).tokens,
            final(self).curr_idx <= final(self).tokens@.len(),
            r is Ok ==> final(self).curr_idx == 8 && prefix_fits(final(self).kinds(), 8) && r->Ok_0@
                == old(self).kinds()[7]->Constant_0,
            r is Err ==> parse(old(self).kinds()) == Err::<(Seq<char>, i32), Seq<char>>(
                r->Err_0@,
            ),
    {
        match self.parse_int() {
            Ok(v) => Ok(ast::Expr { int: v }),
            Err(m) => Err(m),
        }
    }

    /// `statement := "return" expr ";"`.
    fn parse_statement(&mut self) -> (r: Result<ast::Stmt, String>)
        requires
            old(self).curr_idx == 6 <= old(self).tokens@.len(),
            prefix_fits(old(self).kinds(), 6),
        ensures
            final(self).tokens == old(self).tokens,
            final(self).curr_idx <= final(self).tokens@.len(),
            r is Ok ==> final(self).curr_idx == 9 && prefix_fits(final(self).kinds(), 9) && r->Ok_0@
                == old(self).kinds()[7]->Constant_0,
            r is Err ==> parse(old(self).kinds()) == Err::<(Seq<char>, i32), Seq<char>>(
                r->Err_0@,
            ),
    {
        if let Err(m) = self.expect(6) {
            return Err(m);
        }
        let expr = match self.parse_expr() {
            Ok(e) => e,
            Err(m) => {
                return Err(m);
            },
        };
        if let Err(m) = self.expect(8) {
            return Err(m);
        }
        Ok(ast::Stmt { expr })
    }

    /// `function := "int" IDENT "(" "void" ")" "{" statement "}"`.
    fn parse_function(&mut self) -> (r: Result<ast::Function, String>)
        requires
            old(self).curr_idx == 0,
        ensures
            final(self).tokens == old(self).tokens,
            final(self).curr_idx <= final(self).tokens@.len(),
            r is Ok ==> final(self).curr_idx == 10 && prefix_fits(final(self).kinds(), 10) && r->Ok_0@
                == (old(self).kinds()[1]->Identifier_0, old(self).kinds()[7]->Constant_0),
            r is Err ==> parse(old(self).kinds()) == Err::<(Seq<char>, i32), Seq<char>>(
                r->Err_0@,
            ),
    {
        if let Err(m) = self.expect(0) {
            return Err(m);
        }
        let ident = match self.parse_identifier() {
            Ok(name) => name,
            Err(m) => {
                return Err(m);
            },
        };
        if let Err(m) = self.expect(2) {
            return Err(m);
        }
        if let Err(m) = self.expect(3) {
            return Err(m);
        }
        if let Err(m) = self.expect(4) {
            return Err(m);
        }
        if let Err(m) = self.expect(5) {
            return Err(m);
        }
        let stmt = match self.parse_statement() {
            Ok(s) => s,
            Err(m) => {
                return Err(m);
            },
        };
        if let Err(m) = self.expect(9) {
            return Err(m);
        }
        Ok(ast::Function { ident, stmt })
    }

    /// `program := function`.
    fn parse_program(&mut self) -> (r: Result<ast::Program, String>)
        requires
            old(self).curr_idx == 0,
        ensures
            final(self).tokens == old(self).tokens,
            final(self).curr_idx <= final(self).tokens@.len(),
            r is Ok ==> final(self).curr_idx == 10 && prefix_fits(final(self).kinds(), 10) && r->Ok_0@
                == (old(self).kinds()[1]->Identifier_0, old(self).kinds()[7]->Constant_0),
            r is Err ==> parse(old(self).kinds()) == Err::<(Seq<char>, i32), Seq<char>>(
                r->Err_0@,
            ),
    {
        match self.parse_function() {
            Ok(function) => Ok(ast::Program { function }),
            Err(m) => Err(m),
        }
    }

    /// Parses the whole token sequence into a program. Fails at the first
    /// token that does not fit the grammar (or at its end), and when tokens
    /// are left after the program.
    pub fn parse_ast(&mut self) -> (r: Result<ast::Program, String>)
        requires
            old(self).cursor() == 0,
        ensures
            parse_result_view(r) == parse(old(self).kinds()),
            final(self).kinds() == old(self).kinds(),
    {
        let program = match self.parse_program() {
            Ok(p) => p,
            Err(m) => {
                return Err(m);
            },
        };
        proof {
            lemma_all_fit(self.kinds());
        }
        if let Some(next) = self.peek() {
            let mut m = String::new();
            m.append("parse finished but tokens remain: ");
            next.kind.write_to(&mut m);
            return Err(m);
        }
        Ok(program)
    }
}

} // verus!
