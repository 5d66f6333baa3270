use vstd::prelude::*;

use crate::text::{ascii_chars, push_char};
use crate::token::{tokens_view, Kind, SourceLocation, Token, TokenKind, TokenView};

verus! {

/// Space, tab and carriage return.
pub open spec fn is_blank(b: u8) -> bool {
    b == 32 || b == 9 || b == 13
}

pub open spec fn is_alpha(b: u8) -> bool {
    (65 <= b <= 90) || (97 <= b <= 122)
}

pub open spec fn is_digit(b: u8) -> bool {
    48 <= b <= 57
}

/// A byte that may continue an identifier: ASCII alphanumeric or `_`.
pub open spec fn is_word_byte(b: u8) -> bool {
    is_alpha(b) || is_digit(b) || b == 95
}

/// The single-byte punctuation tokens.
pub open spec fn punct_kind(b: u8) -> Option<Kind> {
    if b == 123 {
        Some(Kind::BraceOpen)
    } else if b == 125 {
        Some(Kind::BraceClose)
    } else if b == 40 {
        Some(Kind::ParenOpen)
    } else if b == 41 {
        Some(Kind::ParenClose)
    } else if b == 59 {
        Some(Kind::Semicolon)
    } else {
        None
    }
}

/// How many word bytes stand in a row from `i`.
pub open spec fn word_run(src: Seq<u8>, i: int) -> nat
    decreases src.len() - i,
{
    if 0 <= i < src.len() && is_word_byte(src[i]) {
        1 + word_run(src, i + 1)
    } else {
        0
    }
}

/// How many digits stand in a row from `i`.
pub open spec fn digit_run(src: Seq<u8>, i: int) -> nat
    decreases src.len() - i,
{
    if 0 <= i < src.len() && is_digit(src[i]) {
        1 + digit_run(src, i + 1)
    } else {
        0
    }
}

/// The value of a sequence of decimal digits.
pub open spec fn digits_value(d: Seq<u8>) -> int
    decreases d.len(),
{
    if d.len() == 0 {
        0
    } else {
        digits_value(d.drop_last()) * 10 + (d.last() - 48)
    }
}

/// A word is a keyword when it spells `int`, `void` or `return`, and an
/// identifier otherwise.
pub open spec fn word_kind(w: Seq<u8>) -> Kind {
    if w == seq![105u8, 110, 116] {
        Kind::Int
    } else if w == seq![118u8, 111, 105, 100] {
        Kind::Void
    } else if w == seq![114u8, 101, 116, 117, 114, 110] {
        Kind::Return
    } else {
        Kind::Identifier(ascii_chars(w))
    }
}

/// Scans the token that starts at `i`, a byte that is neither blank nor a
/// newline: its kind and the end of its span, or the diagnostic.
pub open spec fn scan_token(src: Seq<u8>, i: int) -> Result<(Kind, int), Seq<char>> {
    let c = src[i];
    let e = i + 1 + word_run(src, i + 1);
    let w = src.subrange(i, e);
    if punct_kind(c) is Some {
        Ok((punct_kind(c).unwrap(), i + 1))
    } else if is_alpha(c) || c == 95 {
        Ok((word_kind(w), e))
    } else if is_digit(c) {
        if digit_run(src, i + 1) < word_run(src, i + 1) {
            Err("invalid constant: "@ + ascii_chars(w))
        } else if digits_value(w) > i32::MAX {
            Err("constant out of range: "@ + ascii_chars(w))
        } else {
            Ok((Kind::Constant(digits_value(w) as i32), e))
        }
    } else {
        Err("invalid character: "@ + seq![c as char])
    }
}

/// The token of kind `k` spanning `[i, e)` on `line`, whose line starts at
/// byte `line_start`.
pub open spec fn token_at(k: Kind, i: int, e: int, line: int, line_start: int) -> TokenView {
    TokenView {
        kind: k,
        loc: SourceLocation {
            index: (i as usize, e as usize),
            line: line as usize,
            col: (i - line_start) as usize,
        },
    }
}

/// Lexes the source from byte `i`, on `line`, whose line starts at
/// `line_start`.
pub open spec fn lex_from(src: Seq<u8>, i: int, line: int, line_start: int) -> Result<
    Seq<TokenView>,
    Seq<char>,
>
    decreases (if i < src.len() { src.len() - i } else { 0 }),
{
    if i < 0 || i >= src.len() {
        Ok(seq![])
    } else if is_blank(src[i]) {
        lex_from(src, i + 1, line, line_start)
    } else if src[i] == 10 {
        lex_from(src, i + 1, line + 1, i + 1)
    } else {
        match scan_token(src, i) {
            Err(m) => Err(m),
            Ok((k, e)) => match lex_from(src, e, line, line_start) {
                Err(m) => Err(m),
                Ok(rest) => Ok(seq![token_at(k, i, e, line, line_start)] + rest),
            },
        }
    }
}

/// The token sequence of a whole source, or the first diagnostic.
pub open spec fn lex(src: Seq<u8>) -> Result<Seq<TokenView>, Seq<char>> {
    lex_from(src, 0, 1, 0)
}

/// The mathematical value of a lexer result.
pub open spec fn lex_result_view(r: Result<Vec<Token>, String>) -> Result<Seq<TokenView>, Seq<char>> {
    match r {
        Ok(t) => Ok(tokens_view(t@)),
        Err(m) => Err(m@),
    }
}

/// `ts` in front of a lexing outcome.
pub open spec fn prepend(ts: Seq<TokenView>, r: Result<Seq<TokenView>, Seq<char>>) -> Result<
    Seq<TokenView>,
    Seq<char>,
> {
    match r {
        Ok(rest) => Ok(ts + rest),
        Err(m) => Err(m),
    }
}

/// The mathematical value of the outcome of scanning one token.
pub open spec fn scan_result_view(r: Result<(TokenKind, usize), String>) -> Result<
    (Kind, int),
    Seq<char>,
> {
    match r {
        Ok((k, e)) => Ok((k@, e as int)),
        Err(m) => Err(m@),
    }
}

/// Every byte in `[from, to)` is blank or a newline.
pub open spec fn all_space(src: Seq<u8>, from: int, to: int) -> bool {
    forall|j: int| from <= j < to ==> is_blank(#[trigger] src[j]) || src[j] == 10
}

/// Read in order from byte `from`, the token spans lie within the source,
/// each one non-empty and after the previous, and every byte between, before
/// or after them is blank or a newline: the spans and the space between them
/// make up `src[from..]` exactly.
pub open spec fn covers_from(src: Seq<u8>, toks: Seq<TokenView>, from: int) -> bool
    decreases toks.len(),
{
    if toks.len() == 0 {
        all_space(src, from, src.len() as int)
    } else {
        let s = toks[0].loc.index.0 as int;
        let e = toks[0].loc.index.1 as int;
        from <= s < e <= src.len() && all_space(src, from, s) && covers_from(
            src,
            toks.drop_first(),
            e,
        )
    }
}

proof fn lemma_covers_from(src: Seq<u8>, i: int, line: int, line_start: int)
    requires
        0 <= i,
        src.len() <= usize::MAX,
        lex_from(src, i, line, line_start) is Ok,
    ensures
        covers_from(src, lex_from(src, i, line, line_start)->Ok_0, i),
    decreases (if i < src.len() { src.len() - i } else { 0 }),
{
    let toks = lex_from(src, i, line, line_start)->Ok_0;
    if i >= src.len() {
    } else if is_blank(src[i]) || src[i] == 10 {
        let (l2, s2) = if is_blank(src[i]) { (line, line_start) } else { (line + 1, i + 1) };
        lemma_covers_from(src, i + 1, l2, s2);
        lemma_covers_step(src, toks, i);
    } else {
        let (k, e) = scan_token(src, i)->Ok_0;
        lemma_word_run_bound(src, i + 1);
        lemma_covers_from(src, e, line, line_start);
        assert(toks.drop_first() =~= lex_from(src, e, line, line_start)->Ok_0);
    }
}

proof fn lemma_word_run_bound(src: Seq<u8>, i: int)
    requires
        0 <= i <= src.len(),
    ensures
        i + word_run(src, i) <= src.len(),
    decreases src.len() - i,
{
    if i < src.len() {
        lemma_word_run_bound(src, i + 1);
    }
}

/// A space byte in front of a covered suffix leaves it covered.
proof fn lemma_covers_step(src: Seq<u8>, toks: Seq<TokenView>, i: int)
    requires
        0 <= i < src.len(),
        is_blank(src[i]) || src[i] == 10,
        covers_from(src, toks, i + 1),
    ensures
        covers_from(src, toks, i),
{
}

/// Token coverage: when lexing succeeds, the token spans, in order, with the
/// blanks and newlines between them, reproduce the source byte for byte.
pub proof fn lemma_token_coverage(src: Seq<u8>)
    requires
        src.len() <= usize::MAX,
        lex(src) is Ok,
    ensures
        covers_from(src, lex(src)->Ok_0, 0),
{
    lemma_covers_from(src, 0, 1, 0);
}

/// A name made of ASCII letters, digits and underscores that does not
/// begin with a digit.
pub open spec fn is_identifier(name: Seq<char>) -> bool {
    name.len() > 0 && !is_digit(name[0] as u8) && forall|j: int|
        0 <= j < name.len() ==> is_word_byte(#[trigger] name[j] as u8)
}

/// Every byte of a word run is a word byte.
proof fn lemma_word_run(src: Seq<u8>, i: int, k: int)
    requires
        0 <= i,
        0 <= k < word_run(src, i),
    ensures
        is_word_byte(src[i + k]),
    decreases k,
{
    if k > 0 {
        lemma_word_run(src, i + 1, k - 1);
    }
}

proof fn lemma_identifiers_from(src: Seq<u8>, i: int, line: int, line_start: int)
    requires
        0 <= i,
        lex_from(src, i, line, line_start) is Ok,
    ensures
        forall|k: int|
            0 <= k < lex_from(src, i, line, line_start)->Ok_0.len() && (
            #[trigger] lex_from(src, i, line, line_start)->Ok_0[k]).kind is Identifier
                ==> is_identifier(lex_from(src, i, line, line_start)->Ok_0[k].kind->Identifier_0),
    decreases (if i < src.len() { src.len() - i } else { 0 }),
{
    let toks = lex_from(src, i, line, line_start)->Ok_0;
    if i >= src.len() {
    } else if is_blank(src[i]) {
        lemma_identifiers_from(src, i + 1, line, line_start);
    } else if src[i] == 10 {
        lemma_identifiers_from(src, i + 1, line + 1, i + 1);
    } else {
        let (k0, e) = scan_token(src, i)->Ok_0;
        lemma_identifiers_from(src, e, line, line_start);
        lemma_word_run_bound(src, i + 1);
        let rest = lex_from(src, e, line, line_start)->Ok_0;
        assert(toks == seq![token_at(k0, i, e, line, line_start)] + rest);
        if k0 is Identifier {
            let w = src.subrange(i, e);
            let name = ascii_chars(w);
            assert(k0 == word_kind(w));
            assert forall|j: int| 0 <= j < name.len() implies is_word_byte(#[trigger] name[j] as u8) by {
                if j > 0 {
                    lemma_word_run(src, i + 1, j - 1);
                }
            }
            assert(is_identifier(name));
        }
        assert forall|k: int| 0 <= k < toks.len() && (#[trigger] toks[k]).kind is Identifier
            implies is_identifier(toks[k].kind->Identifier_0) by {
            if k > 0 {
                assert(toks[k] == rest[k - 1]);
            }
        }
    }
}

/// Every identifier that lexing yields is a non-empty run of ASCII letters,
/// digits and underscores that does not begin with a digit.
pub proof fn lemma_identifiers_well_formed(src: Seq<u8>, k: int)
    requires
        lex(src) is Ok,
        0 <= k < lex(src)->Ok_0.len(),
        lex(src)->Ok_0[k].kind is Identifier,
    ensures
        is_identifier(lex(src)->Ok_0[k].kind->Identifier_0),
{
    lemma_identifiers_from(src, 0, 1, 0);
}

/// Every byte of a digit run is a digit.
proof fn lemma_digit_run(src: Seq<u8>, i: int, k: int)
    requires
        0 <= i,
        0 <= k < digit_run(src, i),
    ensures
        is_digit(src[i + k]),
    decreases k,
{
    if k > 0 {
        lemma_digit_run(src, i + 1, k - 1);
    }
}

fn word_byte(b: u8) -> (r: bool)
    ensures
        r == is_word_byte(b),
{
    (65 <= b && b <= 90) || (97 <= b && b <= 122) || (48 <= b && b <= 57) || b == 95
}

fn digit_byte(b: u8) -> (r: bool)
    ensures
        r == is_digit(b),
{
    48 <= b && b <= 57
}

/// A scanner over the bytes of one source text.
pub struct Lexer {
    source: Vec<u8>,
}

impl View for Lexer {
    type V = Seq<u8>;

    closed spec fn view(&self) -> Seq<u8> {
        self.source@
    }
}

impl Lexer {
    /// A lexer over the bytes of `source`.
    pub fn new(source: String) -> (r: Lexer)
        ensures
            r@ == vstd::utf8::encode_utf8(source@),
    {
        let bytes = source.as_str().as_bytes();
        Lexer { source: vstd::slice::slice_to_vec(bytes) }
    }

    /// The end of the run of word bytes from `from`.
    fn word_end(&self, from: usize) -> (e: usize)
        requires
            from <= self@.len(),
        ensures
            e == from + word_run(self@, from as int),
            e <= self@.len(),
    {
        let mut e = from;
        while e < self.source.len() && word_byte(self.source[e])
            invariant
                from <= e <= self@.len(),
                word_run(self@, from as int) == (e - from) + word_run(self@, e as int),
            decreases self@.len() - e,
        {
            e = e + 1;
        }
        e
    }

    /// The end of the run of digits from `from`.
    fn digit_end(&self, from: usize) -> (e: usize)
        requires
            from <= self@.len(),
        ensures
            e == from + digit_run(self@, from as int),
            e <= self@.len(),
    {
        let mut e = from;
        while e < self.source.len() && digit_byte(self.source[e])
            invariant
                from <= e <= self@.len(),
                digit_run(self@, from as int) == (e - from) + digit_run(self@, e as int),
            decreases self@.len() - e,
        {
            e = e + 1;
        }
        e
    }

    /// The value of the digits in `[start, end)`, or `None` when it does not
    /// fit in an `i32`.
    fn constant_value(&self, start: usize, end: usize) -> (r: Option<i32>)
        requires
            start <= end <= self@.len(),
            forall|k: int| start <= k < end ==> is_digit(#[trigger] self@[k]),
        ensures
            r == (if digits_value(self@.subrange(start as int, end as int)) <= i32::MAX {
                Some(digits_value(self@.subrange(start as int, end as int)) as i32)
            } else {
                None::<i32>
            }),
    {
        let ghost src = self@;
        let mut v: u64 = 0;
        let mut j = start;
        assert(src.subrange(start as int, start as int) =~= Seq::<u8>::empty());
        while j < end
            invariant
                start <= j <= end <= src.len(),
                src == self@,
                forall|k: int| start <= k < end ==> is_digit(#[trigger] src[k]),
                v <= i32::MAX + 1,
                v <= i32::MAX ==> v == digits_value(src.subrange(start as int, j as int)),
                v > i32::MAX ==> digits_value(src.subrange(start as int, j as int)) > i32::MAX,
            decreases end - j,
        {
            let d = self.source[j];
            let ghost prev = digits_value(src.subrange(start as int, j as int));
            assert(src.subrange(start as int, j + 1).drop_last() =~= src.subrange(
                start as int,
                j as int,
            ));
            assert(is_digit(src[j as int]));
            if v <= 2147483647 {
                v = v * 10 + (d - 48) as u64;
                if v > 2147483647 {
                    v = 2147483648;
                }
            } else {
                assert(prev * 10 + (d - 48) > i32::MAX) by (nonlinear_arith)
                    requires
                        prev > i32::MAX,
                        d >= 48,
                ;
            }
            j = j + 1;
        }
        if v <= 2147483647 {
            Some(v as i32)
        } else {
            None
        }
    }

    /// Appends the bytes in `[start, end)` to `out` as characters.
    fn push_span(&self, out: &mut String, start: usize, end: usize)
        requires
            start <= end <= self@.len(),
        ensures
            final(out)@ == old(out)@ + ascii_chars(self@.subrange(start as int, end as int)),
    {
        let ghost first = out@;
        let mut j = start;
        while j < end
            invariant
                start <= j <= end <= self@.len(),
                out@ == first + ascii_chars(self@.subrange(start as int, j as int)),
            decreases end - j,
        {
            push_char(out, self.source[j] as char);
            j = j + 1;
            assert(ascii_chars(self@.subrange(start as int, j as int)) =~= ascii_chars(
                self@.subrange(start as int, (j - 1) as int),
            ).push(self@[j - 1] as char));
        }
        assert(out@ =~= first + ascii_chars(self@.subrange(start as int, end as int)));
    }

    /// The keyword or identifier token for the word in `[start, end)`.
    fn word_token(&self, start: usize, end: usize) -> (k: TokenKind)
        requires
            start <= end <= self@.len(),
        ensures
            k@ == word_kind(self@.subrange(start as int, end as int)),
    {
        let ghost w = self@.subrange(start as int, end as int);
        let n = end - start;
        let s = &self.source;
        if n == 3 && s[start] == 105 && s[start + 1] == 110 && s[start + 2] == 116 {
            assert(w =~= seq![105u8, 110, 116]);
            return TokenKind::Int;
        }
        if n == 4 && s[start] == 118 && s[start + 1] == 111 && s[start + 2] == 105 && s[start + 3]
            == 100 {
            assert(w =~= seq![118u8, 111, 105, 100]);
            assert(w != seq![105u8, 110, 116]);
            return TokenKind::Void;
        }
        if n == 6 && s[start] == 114 && s[start + 1] == 101 && s[start + 2] == 116 && s[start + 3]
            == 117 && s[start + 4] == 114 && s[start + 5] == 110 {
            assert(w =~= seq![114u8, 101, 116, 117, 114, 110]);
            assert(w != seq![105u8, 110, 116]);
            assert(w != seq![118u8, 111, 105, 100]);
            return TokenKind::Return;
        }
        assert(w != seq![105u8, 110, 116] && w != seq![118u8, 111, 105, 100] && w != seq![
            114u8,
            101,
            116,
            117,
            114,
            110,
        ]) by {
            assert(w.len() == n);
            assert(forall|k: int| 0 <= k < n ==> w[k] == self@[start + k]);
            if w == seq![105u8, 110, 116] {
                assert(w[0] == 105 && w[1] == 110 && w[2] == 116);
            }
            if w == seq![118u8, 111, 105, 100] {
                assert(w[0] == 118 && w[1] == 111 && w[2] == 105 && w[3] == 100);
            }
            if w == seq![114u8, 101, 116, 117, 114, 110] {
                assert(w[0] == 114 && w[1] == 101 && w[2] == 116 && w[3] == 117 && w[4] == 114
                    && w[5] == 110);
            }
        }
        let mut name = String::new();
        self.push_span(&mut name, start, end);
        TokenKind::Identifier(name)
    }

    /// Scans the token that starts at `i`.
    fn scan(&self, i: usize) -> (r: Result<(TokenKind, usize), String>)
        requires
            i < self@.len() < usize::MAX,
            !is_blank(self@[i as int]),
            self@[i as int] != 10,
        ensures
            scan_result_view(r) == scan_token(self@, i as int),
            r is Ok ==> i < r->Ok_0.1 <= self@.len(),
    {
        let c = self.source[i];
        if c == 123 {
            return Ok((TokenKind::BraceOpen, i + 1));
        } else if c == 125 {
            return Ok((TokenKind::BraceClose, i + 1));
        } else if c == 40 {
            return Ok((TokenKind::ParenOpen, i + 1));
        } else if c == 41 {
            return Ok((TokenKind::ParenClose, i + 1));
        } else if c == 59 {
            return Ok((TokenKind::Semicolon, i + 1));
        }
        if (65 <= c && c <= 90) || (97 <= c && c <= 122) || c == 95 {
            let e = self.word_end(i + 1);
            return Ok((self.word_token(i, e), e));
        }
        if 48 <= c && c <= 57 {
            let e = self.word_end(i + 1);
            let d = self.digit_end(i + 1);
            if d < e {
                let mut m = String::new();
                proof {
                    reveal_strlit("invalid constant: ");
                }
                m.append("invalid constant: ");
                self.push_span(&mut m, i, e);
                return Err(m);
            }
            proof {
                assert forall|k: int| i <= k < e implies is_digit(#[trigger] self@[k]) by {
                    if k > i {
                        lemma_digit_run(self@, i + 1, k - i - 1);
                    }
                }
            }
            match self.constant_value(i, e) {
                Some(v) => {
                    return Ok((TokenKind::Constant(v), e));
                },
                None => {
                    let mut m = String::new();
                    proof {
                        reveal_strlit("constant out of range: ");
                    }
                    m.append("constant out of range: ");
                    self.push_span(&mut m, i, e);
                    return Err(m);
                },
            }
        }
        let mut m = String::new();
        proof {
            reveal_strlit("invalid character: ");
        }
        m.append("invalid character: ");
        push_char(&mut m, c as char);
        assert(m@ =~= "invalid character: "@ + seq![c as char]);
        Err(m)
    }

    /// Splits the source into tokens, or fails with the first diagnostic:
    /// an invalid character, a constant with letters in it, or a constant
    /// that does not fit in an `i32`.
    pub fn run(&self) -> (r: Result<Vec<Token>, String>)
        requires
            self@.len() < usize::MAX,
        ensures
            lex_result_view(r) == lex(self@),
    {
        let mut tokens: Vec<Token> = Vec::new();
        let mut i: usize = 0;
        let mut line: usize = 1;
        let mut line_start: usize = 0;
        assert(tokens_view(tokens@) =~= Seq::<TokenView>::empty());
        assert(prepend(seq![], lex(self@)) =~= lex(self@)) by {
            match lex(self@) {
                Ok(rest) => {
                    assert(Seq::<TokenView>::empty() + rest =~= rest);
                },
                Err(_) => {},
            }
        }
        while i < self.source.len()
            invariant
                i <= self@.len() < usize::MAX,
                line_start <= i,
                1 <= line <= i + 1,
                lex(self@) == prepend(
                    tokens_view(tokens@),
                    lex_from(self@, i as int, line as int, line_start as int),
                ),
            decreases self@.len() - i,
        {
            let c = self.source[i];
            if c == 32 || c == 9 || c == 13 {
                i = i + 1;
            } else if c == 10 {
                i = i + 1;
                line = line + 1;
                line_start = i;
            } else {
                match self.scan(i) {
                    Err(m) => {
                        return Err(m);
                    },
                    Ok((k, e)) => {
                        let ghost before = tokens_view(tokens@);
                        let ghost rest = lex_from(self@, e as int, line as int, line_start as int);
                        let t = Token {
                            kind: k,
                            loc: SourceLocation { index: (i, e), line, col: i - line_start },
                        };
                        assert(t@ == token_at(k@, i as int, e as int, line as int, line_start as int));
                        tokens.push(t);
                        assert(tokens_view(tokens@) =~= before.push(t@));
                        proof {
                            match rest {
                                Ok(rs) => {
                                    assert(before.push(t@) + rs =~= before + (seq![t@] + rs));
                                },
                                Err(_) => {},
                            }
                        }
                        i = e;
                    },
                }
            }
        }
        assert(tokens_view(tokens@) + Seq::<TokenView>::empty() =~= tokens_view(tokens@));
        Ok(tokens)
    }
}

} // verus!
