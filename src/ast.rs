use vstd::prelude::*;

verus! {

/// A whole translation unit: one function.
#[derive(Debug)]
pub struct Program {
    pub function: Function,
}

/// `int <ident>(void) { <stmt> }`.
#[derive(Debug)]
pub struct Function {
    pub ident: String,
    pub stmt: Stmt,
}

/// `return <expr>;`.
#[derive(Debug)]
pub struct Stmt {
    pub expr: Expr,
}

/// An integer literal.
#[derive(Debug)]
pub struct Expr {
    pub int: i32,
}

impl View for Expr {
    type V = i32;

    open spec fn view(&self) -> i32 {
        self.int
    }
}

impl View for Stmt {
    type V = i32;

    /// The value returned.
    open spec fn view(&self) -> i32 {
        self.expr@
    }
}

impl View for Function {
    type V = (Seq<char>, i32);

    /// The function's name and the value it returns.
    open spec fn view(&self) -> (Seq<char>, i32) {
        (self.ident@, self.stmt@)
    }
}

impl View for Program {
    type V = (Seq<char>, i32);

    open spec fn view(&self) -> (Seq<char>, i32) {
        self.function@
    }
}

} // verus!
