use vstd::prelude::*;

use crate::assembly::{self, Instruction, Operand};
use crate::text::{int_decimal, push_int};

verus! {

/// An operand in AT&T syntax.
pub open spec fn operand_text(o: Operand) -> Seq<char> {
    match o {
        Operand::Immediate(k) => "$"@ + int_decimal(k as int),
        Operand::Register => "%eax"@,
    }
}

/// One instruction line, indented by four spaces.
pub open spec fn instruction_text(i: Instruction) -> Seq<char> {
    match i {
        Instruction::Mov(src, dst) => "    movl "@ + operand_text(src) + ", "@ + operand_text(dst)
            + "\n"@,
        Instruction::Ret => "    ret\n"@,
    }
}

/// The lines of a sequence of instructions, in order.
pub open spec fn instructions_text(is: Seq<Instruction>) -> Seq<char>
    decreases is.len(),
{
    if is.len() == 0 {
        Seq::empty()
    } else {
        instructions_text(is.drop_last()) + instruction_text(is.last())
    }
}

/// A function: its `.globl` directive, its label, its instructions and a
/// blank line.
pub open spec fn function_text(f: (Seq<char>, Seq<Instruction>)) -> Seq<char> {
    "    .globl "@ + f.0 + "\n"@ + f.0 + ":\n"@ + instructions_text(f.1) + "\n"@
}

/// The note that marks the object as not needing an executable stack.
pub open spec fn stack_note() -> Seq<char> {
    "    .section .note.GNU-stack,\"\",@progbits\n"@
}

/// The assembly text of a whole program.
pub open spec fn program_text(p: (Seq<char>, Seq<Instruction>)) -> Seq<char> {
    function_text(p) + stack_note()
}

/// Emission is a function of the assembly tree alone: emitting one tree twice
/// gives identical text.
pub proof fn lemma_emit_deterministic(p: (Seq<char>, Seq<Instruction>), a: Seq<char>, b: Seq<char>)
    requires
        a == program_text(p),
        b == program_text(p),
    ensures
        a == b,
{
}

/// Writes GNU assembler text for an assembly tree.
pub struct Codegen<'a> {
    tree: &'a assembly::Program,
    output: String,
}

impl<'a> Codegen<'a> {
    /// The program being emitted.
    pub closed spec fn program(&self) -> (Seq<char>, Seq<Instruction>) {
        self.tree@
    }

    /// The text written so far.
    pub closed spec fn written(&self) -> Seq<char> {
        self.output@
    }

    pub fn new(tree: &'a assembly::Program) -> (r: Self)
        ensures
            r.program() == tree@,
            r.written() == Seq::<char>::empty(),
    {
        Codegen { tree, output: String::new() }
    }

    /// The assembly text of the program.
    pub fn emit(self) -> (r: String)
        requires
            self.written() == Seq::<char>::empty(),
        ensures
            r@ == program_text(self.program()),
    {
        let mut emitter = self;
        let program = emitter.tree;
        emitter.emit_program(program);
        assert(emitter.output@ =~= program_text(program@));
        emitter.output
    }

    fn emit_program(&mut self, program: &assembly::Program)
        ensures
            final(self).tree == old(self).tree,
            final(self).output@ == old(self).output@ + program_text(program@),
    {
        let ghost start = self.output@;
        self.emit_function(&program.function);
        self.output.append("    .section .note.GNU-stack,\"\",@progbits\n");
        assert(self.output@ =~= start + program_text(program@));
    }

    fn emit_function(&mut self, function: &assembly::Function)
        ensures
            final(self).tree == old(self).tree,
            final(self).output@ == old(self).output@ + function_text(function@),
    {
        let ghost start = self.output@;
        self.output.append("    .globl ");
        self.output.append(function.name.as_str());
        self.output.append("\n");
        self.output.append(function.name.as_str());
        self.output.append(":\n");
        let ghost head = self.output@;
        let n = function.instructions.len();
        let mut i: usize = 0;
        while i < n
            invariant
                n == function.instructions@.len(),
                i <= n,
                self.tree == old(self).tree,
                self.output@ == head + instructions_text(function.instructions@.subrange(0, i as int)),
            decreases n - i,
        {
            self.emit_instruction(&function.instructions[i]);
            i = i + 1;
            assert(function.instructions@.subrange(0, i as int).drop_last() =~= function.instructions@.subrange(0, i - 1));
            assert(self.output@ =~= head + instructions_text(function.instructions@.subrange(0, i as int)));
        }
        assert(function.instructions@.subrange(0, n as int) =~= function.instructions@);
        self.output.append("\n");
        assert(self.output@ =~= start + function_text(function@));
    }

    fn emit_instruction(&mut self, inst: &assembly::Instruction)
        ensures
            final(self).tree == old(self).tree,
            final(self).output@ == old(self).output@ + instruction_text(*inst),
    {
        let ghost start = self.output@;
        match inst {
            assembly::Instruction::Mov(src, dst) => {
                self.output.append("    movl ");
                self.emit_operand(src);
                self.output.append(", ");
                self.emit_operand(dst);
                self.output.append("\n");
            },
            assembly::Instruction::Ret => {
                self.output.append("    ret\n");
            },
        }
        assert(self.output@ =~= start + instruction_text(*inst));
    }

    fn emit_operand(&mut self, op: &assembly::Operand)
        ensures
            final(self).tree == old(self).tree,
            final(self).output@ == old(self).output@ + operand_text(*op),
    {
        let ghost start = self.output@;
        match op {
            assembly::Operand::Immediate(i) => {
                self.output.append("$");
                push_int(&mut self.output, *i);
            },
            assembly::Operand::Register => {
                self.output.append("%eax");
            },
        }
        assert(self.output@ =~= start + operand_text(*op));
    }
}

} // verus!
