use vstd::prelude::*;

use crate::ast;

verus! {

/// A whole assembly program: one function.
#[derive(Debug)]
pub struct Program {
    pub function: Function,
}

/// A labelled function and its instructions, in order.
#[derive(Debug)]
pub struct Function {
    pub name: String,
    pub instructions: Vec<Instruction>,
}

#[derive(Clone, Copy, Debug, PartialEq, Eq, Structural)]
pub enum Instruction {
    Mov(Operand, Operand),
    Ret,
}

/// An immediate value, or `%eax`, the one register used.
#[derive(Clone, Copy, Debug, PartialEq, Eq, Structural)]
pub enum Operand {
    Immediate(i32),
    Register,
}

impl View for Function {
    type V = (Seq<char>, Seq<Instruction>);

    open spec fn view(&self) -> (Seq<char>, Seq<Instruction>) {
        (self.name@, self.instructions@)
    }
}

impl View for Program {
    type V = (Seq<char>, Seq<Instruction>);

    open spec fn view(&self) -> (Seq<char>, Seq<Instruction>) {
        self.function@
    }
}

/// `return k` becomes a move of `k` into `%eax`, then a return.
pub open spec fn lower_stmt_spec(k: i32) -> Seq<Instruction> {
    seq![Instruction::Mov(Operand::Immediate(k), Operand::Register), Instruction::Ret]
}

/// The lowering of a program: its name is kept, its statement lowered.
pub open spec fn lower_spec(p: (Seq<char>, i32)) -> (Seq<char>, Seq<Instruction>) {
    (p.0, lower_stmt_spec(p.1))
}

/// Lowers a statement to its instructions.
pub fn lower_stmt(s: ast::Stmt) -> (r: Vec<Instruction>)
    ensures
        r@ == lower_stmt_spec(s@),
{
    let r = vec![Instruction::Mov(Operand::Immediate(s.expr.int), Operand::Register), Instruction::Ret];
    assert(r@ =~= lower_stmt_spec(s@));
    r
}

impl Function {
    /// Lowers a function, keeping its name.
    pub fn lower(f: ast::Function) -> (r: Function)
        ensures
            r@ == lower_spec(f@),
    {
        Function { name: f.ident, instructions: lower_stmt(f.stmt) }
    }
}

impl Program {
    /// Lowers a program.
    pub fn lower(p: ast::Program) -> (r: Program)
        ensures
            r@ == lower_spec(p@),
    {
        Program { function: Function::lower(p.function) }
    }
}

/// Lowering is a function of the syntax tree alone: lowering one tree twice
/// gives equal assembly trees, and every lowered function ends with `ret`.
pub proof fn lemma_lowering_deterministic(p: (Seq<char>, i32), a: (Seq<char>, Seq<Instruction>), b: (Seq<char>, Seq<Instruction>))
    requires
        a == lower_spec(p),
        b == lower_spec(p),
    ensures
        a == b,
        a.1.len() > 0 && a.1.last() == Instruction::Ret,
{
}

} // verus!
