use vstd::prelude::*;

use crate::assembly::{self, Instruction, Operand};
use crate::ast;
use crate::text::{int_decimal, nat_decimal, push_int, push_nat};
use crate::token::{kind_text, tokens_view, Token, TokenView};

verus! {

/// The headers of lines `from + 1` to `to`, each on a new line.
pub open spec fn line_headers(from: int, to: int) -> Seq<char>
    decreases to - from,
{
    if to <= from {
        Seq::empty()
    } else {
        line_headers(from, to - 1) + "\nLine "@ + nat_decimal(to as nat) + ": "@
    }
}

/// The token dump from the given tokens on, the last header written being
/// that of `line`: each token's display form and a space, after the headers
/// of the lines up to its own.
pub open spec fn lex_dump_from(toks: Seq<TokenView>, line: int) -> Seq<char>
    decreases toks.len(),
{
    if toks.len() == 0 {
        Seq::empty()
    } else {
        line_headers(line, toks[0].loc.line as int) + kind_text(toks[0].kind) + " "@
            + lex_dump_from(toks.drop_first(), toks[0].loc.line as int)
    }
}

/// The token dump: a block per source line, `Line <n>: ` and the display
/// forms of the tokens on it.
pub open spec fn lex_dump_text(toks: Seq<TokenView>) -> Seq<char> {
    lex_dump_from(toks, 0)
}

/// The syntax tree dump.
pub open spec fn ast_dump_text(p: (Seq<char>, i32)) -> Seq<char> {
    "Program\n  Function "@ + p.0 + "\n    Return\n      Constant "@ + int_decimal(p.1 as int)
        + "\n"@
}

pub open spec fn operand_dump(o: Operand) -> Seq<char> {
    match o {
        Operand::Immediate(k) => "Immediate("@ + int_decimal(k as int) + ")"@,
        Operand::Register => "Register"@,
    }
}

pub open spec fn instruction_dump(i: Instruction) -> Seq<char> {
    match i {
        Instruction::Mov(s, d) => "    Mov("@ + operand_dump(s) + ", "@ + operand_dump(d) + ")\n"@,
        Instruction::Ret => "    Ret\n"@,
    }
}

pub open spec fn instructions_dump(is: Seq<Instruction>) -> Seq<char>
    decreases is.len(),
{
    if is.len() == 0 {
        Seq::empty()
    } else {
        instructions_dump(is.drop_last()) + instruction_dump(is.last())
    }
}

/// The assembly tree dump.
pub open spec fn asm_dump_text(p: (Seq<char>, Seq<Instruction>)) -> Seq<char> {
    "AsmProgram\n  AsmFunction "@ + p.0 + "\n"@ + instructions_dump(p.1)
}

/// The dump of a token sequence.
pub fn lex_dump(tokens: &Vec<Token>) -> (r: String)
    ensures
        r@ == lex_dump_text(tokens_view(tokens@)),
{
    let ghost all = tokens_view(tokens@);
    let mut out = String::new();
    let mut curr: usize = 0;
    let mut k: usize = 0;
    assert(all.subrange(0, all.len() as int) =~= all);
    while k < tokens.len()
        invariant
            k <= tokens@.len() == all.len(),
            all == tokens_view(tokens@),
            lex_dump_text(all) == out@ + lex_dump_from(all.subrange(k as int, all.len() as int), curr as int),
        decreases tokens@.len() - k,
    {
        let t = &tokens[k];
        let ghost rest = all.subrange(k as int, all.len() as int);
        let ghost base = out@;
        let line = t.loc.line;
        let mut j = curr;
        while j < line
            invariant
                curr <= j,
                curr <= line ==> j <= line,
                line < curr ==> j == curr,
                out@ == base + line_headers(curr as int, j as int),
            decreases line - j,
        {
            j = j + 1;
            out.append("\nLine ");
            push_nat(&mut out, j as u64);
            out.append(": ");
            assert(out@ =~= base + line_headers(curr as int, j as int));
        }
        assert(line_headers(curr as int, line as int) == line_headers(curr as int, j as int));
        t.kind.write_to(&mut out);
        out.append(" ");
        assert(rest.drop_first() =~= all.subrange(k + 1, all.len() as int));
        assert(out@ + lex_dump_from(rest.drop_first(), line as int) =~= base + lex_dump_from(rest, curr as int));
        curr = line;
        k = k + 1;
    }
    assert(out@ + Seq::<char>::empty() =~= out@);
    out
}

/// The dump of a syntax tree.
pub fn ast_dump(p: &ast::Program) -> (r: String)
    ensures
        r@ == ast_dump_text(p@),
{
    let mut out = String::new();
    out.append("Program\n  Function ");
    out.append(p.function.ident.as_str());
    out.append("\n    Return\n      Constant ");
    push_int(&mut out, p.function.stmt.expr.int);
    out.append("\n");
    assert(out@ =~= ast_dump_text(p@));
    out
}

fn push_operand(out: &mut String, o: &Operand)
    ensures
        final(out)@ == old(out)@ + operand_dump(*o),
{
    let ghost start = out@;
    match o {
        Operand::Immediate(k) => {
            out.append("Immediate(");
            push_int(out, *k);
            out.append(")");
        },
        Operand::Register => out.append("Register"),
    }
    assert(out@ =~= start + operand_dump(*o));
}

/// The dump of an assembly tree.
pub fn asm_dump(p: &assembly::Program) -> (r: String)
    ensures
        r@ == asm_dump_text(p@),
{
    let mut out = String::new();
    out.append("AsmProgram\n  AsmFunction ");
    out.append(p.function.name.as_str());
    out.append("\n");
    let ghost head = out@;
    let is = &p.function.instructions;
    let mut i: usize = 0;
    while i < is.len()
        invariant
            i <= is@.len(),
            out@ == head + instructions_dump(is@.subrange(0, i as int)),
        decreases is@.len() - i,
    {
        let ghost before = out@;
        match &is[i] {
            Instruction::Mov(s, d) => {
                out.append("    Mov(");
                push_operand(&mut out, s);
                out.append(", ");
                push_operand(&mut out, d);
                out.append(")\n");
            },
            Instruction::Ret => out.append("    Ret\n"),
        }
        assert(out@ =~= before + instruction_dump(is@[i as int]));
        i = i + 1;
        assert(is@.subrange(0, i as int).drop_last() =~= is@.subrange(0, i - 1));
        assert(out@ =~= head + instructions_dump(is@.subrange(0, i as int)));
    }
    assert(is@.subrange(0, is@.len() as int) =~= is@);
    assert(out@ =~= asm_dump_text(p@));
    out
}

} // verus!
