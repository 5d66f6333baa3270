use minicc::assembly::{self, Instruction, Operand};
use minicc::ast;
use minicc::codegen_x86::Codegen;
use minicc::compiler::{Compiler, Outputs, Phase};
use minicc::dump::{asm_dump, ast_dump, lex_dump};
use minicc::lexer::Lexer;
use std::path::PathBuf;

fn full(src: &str) -> Outputs {
    Compiler::new().compile(src.to_string())
}

fn expected_asm(name: &str, value: &str) -> String {
    format!(
        "    .globl {name}\n{name}:\n    movl ${value}, %eax\n    ret\n\n    .section .note.GNU-stack,\"\",@progbits\n"
    )
}

fn program(name: &str, value: i32) -> ast::Program {
    ast::Program {
        function: ast::Function {
            ident: name.to_string(),
            stmt: ast::Stmt { expr: ast::Expr { int: value } },
        },
    }
}

#[test]
fn minimal_program() {
    let out = full("int main(void){return 0;}");
    assert_eq!(out.error, None);
    assert_eq!(out.assembly.unwrap(), expected_asm("main", "0"));
}

#[test]
fn non_zero_return() {
    let out = full("int main(void) { return 42; }");
    assert_eq!(out.assembly.unwrap(), expected_asm("main", "42"));
}

#[test]
fn named_function() {
    let text = full("int foo(void){return 7;}").assembly.unwrap();
    assert!(text.contains("    .globl foo\n"));
    assert!(text.contains("\nfoo:\n"));
    assert_eq!(text, expected_asm("foo", "7"));
}

#[test]
fn lex_only_dump() {
    let out = Compiler::new()
        .with_final_phase(Some(Phase::Lex))
        .with_pretty_print(true)
        .compile("int main(void){return 2;}".to_string());
    assert_eq!(
        out.lex_dump.unwrap(),
        "\nLine 1: INT IDENT(main) PAREN_OPEN VOID PAREN_CLOSE BRACE_OPEN RETURN CONSTANT(2) SEMICOLON BRACE_CLOSE "
    );
    assert_eq!(out.ast_dump, None);
    assert_eq!(out.asm_dump, None);
    assert_eq!(out.assembly, None);
    assert_eq!(out.error, None);
}

#[test]
fn lex_dump_over_lines() {
    let tokens = Lexer::new("int\n\nmain ;".to_string()).run().unwrap();
    assert_eq!(lex_dump(&tokens), "\nLine 1: INT \nLine 2: \nLine 3: IDENT(main) SEMICOLON ");
    assert_eq!(lex_dump(&Vec::new()), "");
}

#[test]
fn lexer_error() {
    let out = full("int main(void){return 1a;}");
    assert!(out.error.unwrap().contains("invalid constant: 1a"));
    assert_eq!(out.assembly, None);
}

#[test]
fn parser_error() {
    let out = Compiler::new().with_pretty_print(true).compile("int main(void){return;}".to_string());
    assert_eq!(out.error.unwrap(), "expected Constant, found SEMICOLON");
    assert!(out.lex_dump.is_some());
    assert_eq!(out.ast_dump, None);
    assert_eq!(out.assembly, None);
}

#[test]
fn phases_stop_where_asked() {
    let src = "int main(void){return 3;}";
    let parse = Compiler::new().with_final_phase(Some(Phase::Parse)).with_pretty_print(true).compile(src.to_string());
    assert_eq!(parse.ast_dump.unwrap(), "Program\n  Function main\n    Return\n      Constant 3\n");
    assert_eq!(parse.asm_dump, None);
    assert_eq!(parse.assembly, None);
    let lower = Compiler::new().with_final_phase(Some(Phase::Codegen)).with_pretty_print(true).compile(src.to_string());
    assert_eq!(
        lower.asm_dump.unwrap(),
        "AsmProgram\n  AsmFunction main\n    Mov(Immediate(3), Register)\n    Ret\n"
    );
    assert_eq!(lower.assembly, None);
    let quiet = Compiler::new().compile(src.to_string());
    assert_eq!(quiet.lex_dump, None);
    assert_eq!(quiet.ast_dump, None);
    assert_eq!(quiet.asm_dump, None);
    assert!(quiet.assembly.is_some());
}

#[test]
fn ast_dump_is_deterministic() {
    let run = || {
        Compiler::new()
            .with_final_phase(Some(Phase::Parse))
            .with_pretty_print(true)
            .compile("int main(void){return 5;}".to_string())
            .ast_dump
            .unwrap()
    };
    assert_eq!(run(), run());
    assert_eq!(ast_dump(&program("f", -1)), "Program\n  Function f\n    Return\n      Constant -1\n");
}

#[test]
fn lowering_twice_is_equal() {
    let a = assembly::Program::lower(program("main", 9));
    let b = assembly::Program::lower(program("main", 9));
    assert_eq!(a.function.name, b.function.name);
    assert_eq!(a.function.instructions, b.function.instructions);
    assert_eq!(
        a.function.instructions,
        vec![Instruction::Mov(Operand::Immediate(9), Operand::Register), Instruction::Ret]
    );
    assert_eq!(a.function.name, "main");
}

#[test]
fn lower_statement() {
    let is = assembly::lower_stmt(ast::Stmt { expr: ast::Expr { int: 12 } });
    assert_eq!(is, vec![Instruction::Mov(Operand::Immediate(12), Operand::Register), Instruction::Ret]);
}

#[test]
fn emitting_twice_is_identical() {
    let tree = assembly::Program::lower(program("main", 1));
    let a = Codegen::new(&tree).emit();
    let b = Codegen::new(&tree).emit();
    assert_eq!(a, b);
    assert_eq!(a, expected_asm("main", "1"));
}

#[test]
fn emit_negative_and_extreme_immediates() {
    let tree = assembly::Program {
        function: assembly::Function {
            name: "g".to_string(),
            instructions: vec![
                Instruction::Mov(Operand::Immediate(-2147483648), Operand::Register),
                Instruction::Mov(Operand::Immediate(2147483647), Operand::Register),
                Instruction::Ret,
            ],
        },
    };
    assert_eq!(
        Codegen::new(&tree).emit(),
        "    .globl g\ng:\n    movl $-2147483648, %eax\n    movl $2147483647, %eax\n    ret\n\n    .section .note.GNU-stack,\"\",@progbits\n"
    );
    assert_eq!(
        asm_dump(&tree),
        "AsmProgram\n  AsmFunction g\n    Mov(Immediate(-2147483648), Register)\n    Mov(Immediate(2147483647), Register)\n    Ret\n"
    );
}

#[test]
fn no_trailing_whitespace_in_assembly() {
    let text = full("int main(void){return 10;}").assembly.unwrap();
    for line in text.lines() {
        assert_eq!(line, line.trim_end());
    }
    assert!(text.ends_with('\n'));
}

#[test]
fn compiler_settings() {
    let c = Compiler::new();
    assert_eq!(c.final_phase(), None);
    assert!(!c.pretty_print());
    assert!(c.sources().is_empty());
    let c = c
        .with_final_phase(Some(Phase::Parse))
        .with_pretty_print(true)
        .add_source(PathBuf::from("a.i"))
        .add_source(PathBuf::from("b.i"));
    assert_eq!(c.final_phase(), Some(Phase::Parse));
    assert!(c.pretty_print());
    assert_eq!(c.sources(), &vec![PathBuf::from("a.i"), PathBuf::from("b.i")]);
}
