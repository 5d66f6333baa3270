use vstd::prelude::*;

use std::path::PathBuf;

use crate::assembly::{self, lower_spec};
use crate::codegen_x86::{program_text, Codegen};
use crate::dump::{asm_dump, asm_dump_text, ast_dump, ast_dump_text, lex_dump, lex_dump_text};
use crate::lexer::{lex, Lexer};
use crate::parser::{kinds_of, parse, Parser};
use crate::token::{tokens_view, Kind, TokenView};

verus! {

#[verifier::external_type_specification]
#[verifier::external_body]
pub struct ExPathBuf(PathBuf);

/// The last phase to run; with none, the whole pipeline runs.
#[derive(Clone, Copy, Debug, PartialEq, Eq, Structural)]
pub enum Phase {
    Lex,
    Parse,
    Codegen,
}

/// What compiling one translation unit produced: the dumps asked for, the
/// assembly text when the whole pipeline ran, and the diagnostic of the
/// stage that failed, if one did.
#[derive(Debug)]
pub struct Outputs {
    pub lex_dump: Option<String>,
    pub ast_dump: Option<String>,
    pub asm_dump: Option<String>,
    pub assembly: Option<String>,
    pub error: Option<String>,
}

/// Compilation outputs as mathematical values.
pub struct OutputsView {
    pub lex_dump: Option<Seq<char>>,
    pub ast_dump: Option<Seq<char>>,
    pub asm_dump: Option<Seq<char>>,
    pub assembly: Option<Seq<char>>,
    pub error: Option<Seq<char>>,
}

pub open spec fn opt_view(o: Option<String>) -> Option<Seq<char>> {
    match o {
        Some(s) => Some(s@),
        None => None,
    }
}

impl View for Outputs {
    type V = OutputsView;

    open spec fn view(&self) -> OutputsView {
        OutputsView {
            lex_dump: opt_view(self.lex_dump),
            ast_dump: opt_view(self.ast_dump),
            asm_dump: opt_view(self.asm_dump),
            assembly: opt_view(self.assembly),
            error: opt_view(self.error),
        }
    }
}

/// `Some(s)` when asked for.
pub open spec fn when(pretty: bool, s: Seq<char>) -> Option<Seq<char>> {
    if pretty {
        Some(s)
    } else {
        None
    }
}

/// The kinds of a sequence of token views.
pub open spec fn view_kinds(toks: Seq<TokenView>) -> Seq<Kind> {
    toks.map_values(|t: TokenView| t.kind)
}

/// What compiling the source bytes `src` produces: each stage runs on the
/// previous stage's value, stops the pipeline with its diagnostic when it
/// fails, and the pipeline stops after `phase`; each dump is there when
/// `pretty` asks for it and its stage ran.
pub open spec fn compile_spec(src: Seq<u8>, phase: Option<Phase>, pretty: bool) -> OutputsView {
    match lex(src) {
        Err(m) => OutputsView {
            lex_dump: None,
            ast_dump: None,
            asm_dump: None,
            assembly: None,
            error: Some(m),
        },
        Ok(toks) => {
            let ld = when(pretty, lex_dump_text(toks));
            if phase == Some(Phase::Lex) {
                OutputsView { lex_dump: ld, ast_dump: None, asm_dump: None, assembly: None, error: None }
            } else {
                match parse(view_kinds(toks)) {
                    Err(m) => OutputsView {
                        lex_dump: ld,
                        ast_dump: None,
                        asm_dump: None,
                        assembly: None,
                        error: Some(m),
                    },
                    Ok(p) => {
                        let ad = when(pretty, ast_dump_text(p));
                        let a = lower_spec(p);
                        let md = when(pretty, asm_dump_text(a));
                        if phase == Some(Phase::Parse) {
                            OutputsView { lex_dump: ld, ast_dump: ad, asm_dump: None, assembly: None, error: None }
                        } else if phase == Some(Phase::Codegen) {
                            OutputsView { lex_dump: ld, ast_dump: ad, asm_dump: md, assembly: None, error: None }
                        } else {
                            OutputsView {
                                lex_dump: ld,
                                ast_dump: ad,
                                asm_dump: md,
                                assembly: Some(program_text(a)),
                                error: None,
                            }
                        }
                    },
                }
            }
        },
    }
}

/// The settings of a compilation: the last phase to run, whether to write
/// dumps, and the sources to compile.
pub struct Compiler {
    final_phase: Option<Phase>,
    pretty_print: bool,
    sources: Vec<PathBuf>,
}

impl Compiler {
    pub closed spec fn spec_final_phase(&self) -> Option<Phase> {
        self.final_phase
    }

    pub closed spec fn spec_pretty_print(&self) -> bool {
        self.pretty_print
    }

    pub closed spec fn spec_sources(&self) -> Seq<PathBuf> {
        self.sources@
    }

    /// A compiler that runs the whole pipeline, writes no dumps and has no
    /// sources yet.
    pub fn new() -> (r: Self)
        ensures
            r.spec_final_phase() == None::<Phase>,
            !r.spec_pretty_print(),
            r.spec_sources().len() == 0,
    {
        Compiler { final_phase: None, pretty_print: false, sources: Vec::new() }
    }

    pub fn with_final_phase(self, phase: Option<Phase>) -> (r: Self)
        ensures
            r.spec_final_phase() == phase,
            r.spec_pretty_print() == self.spec_pretty_print(),
            r.spec_sources() == self.spec_sources(),
    {
        Compiler { final_phase: phase, ..self }
    }

    pub fn with_pretty_print(self, pretty: bool) -> (r: Self)
        ensures
            r.spec_final_phase() == self.spec_final_phase(),
            r.spec_pretty_print() == pretty,
            r.spec_sources() == self.spec_sources(),
    {
        Compiler { pretty_print: pretty, ..self }
    }

    pub fn add_source(self, path: PathBuf) -> (r: Self)
        ensures
            r.spec_final_phase() == self.spec_final_phase(),
            r.spec_pretty_print() == self.spec_pretty_print(),
            r.spec_sources() == self.spec_sources().push(path),
    {
        let mut sources = self.sources;
        sources.push(path);
        Compiler { final_phase: self.final_phase, pretty_print: self.pretty_print, sources }
    }

    pub fn final_phase(&self) -> (r: Option<Phase>)
        ensures
            r == self.spec_final_phase(),
    {
        self.final_phase
    }

    pub fn pretty_print(&self) -> (r: bool)
        ensures
            r == self.spec_pretty_print(),
    {
        self.pretty_print
    }

    pub fn sources(&self) -> (r: &Vec<PathBuf>)
        ensures
            r@ == self.spec_sources(),
    {
        &self.sources
    }

    /// Compiles one preprocessed source text as far as the final phase.
    pub fn compile(&self, source: String) -> (r: Outputs)
        requires
            vstd::utf8::encode_utf8(source@).len() < usize::MAX,
        ensures
            r@ == compile_spec(
                vstd::utf8::encode_utf8(source@),
                self.spec_final_phase(),
                self.spec_pretty_print(),
            ),
    {
        let pretty = self.pretty_print;
        let lexer = Lexer::new(source);
        let tokens = match lexer.run() {
            Ok(t) => t,
            Err(m) => {
                return Outputs {
                    lex_dump: None,
                    ast_dump: None,
                    asm_dump: None,
                    assembly: None,
                    error: Some(m),
                };
            },
        };
        let lex_d = if pretty {
            Some(lex_dump(&tokens))
        } else {
            None
        };
        if let Some(Phase::Lex) = self.final_phase {
            return Outputs { lex_dump: lex_d, ast_dump: None, asm_dump: None, assembly: None, error: None };
        }
        assert(kinds_of(tokens@) =~= view_kinds(tokens_view(tokens@)));
        let mut parser = Parser::new(tokens);
        let ast = match parser.parse_ast() {
            Ok(p) => p,
            Err(m) => {
                return Outputs {
                    lex_dump: lex_d,
                    ast_dump: None,
                    asm_dump: None,
                    assembly: None,
                    error: Some(m),
                };
            },
        };
        let ast_d = if pretty {
            Some(ast_dump(&ast))
        } else {
            None
        };
        if let Some(Phase::Parse) = self.final_phase {
            return Outputs { lex_dump: lex_d, ast_dump: ast_d, asm_dump: None, assembly: None, error: None };
        }
        let tree = assembly::Program::lower(ast);
        let asm_d = if pretty {
            Some(asm_dump(&tree))
        } else {
            None
        };
        if let Some(Phase::Codegen) = self.final_phase {
            return Outputs { lex_dump: lex_d, ast_dump: ast_d, asm_dump: asm_d, assembly: None, error: None };
        }
        let text = Codegen::new(&tree).emit();
        Outputs { lex_dump: lex_d, ast_dump: ast_d, asm_dump: asm_d, assembly: Some(text), error: None }
    }
}

/// Compilation is deterministic: two compilations of one source with the
/// same settings produce identical dumps (the syntax tree dump among them),
/// assembly text and diagnostics.
pub proof fn lemma_compile_deterministic(
    src: Seq<u8>,
    phase: Option<Phase>,
    pretty: bool,
    a: OutputsView,
    b: OutputsView,
)
    requires
        a == compile_spec(src, phase, pretty),
        b == compile_spec(src, phase, pretty),
    ensures
        a == b,
{
}

} // verus!
