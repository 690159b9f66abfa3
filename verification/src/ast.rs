//! The abstract syntax tree shared by the parser, the semantic analysis and
//! the code generator, together with its mathematical model.
//!
//! Every tree type has a view in which names are character sequences and
//! lists are sequences; all contracts of the later stages are stated over
//! these views.

use vstd::prelude::*;

verus! {

/// A whole translation unit: its external declarations in source order.
#[derive(Debug, PartialEq)]
pub struct Ast(pub Vec<ExtDecl>);

#[derive(Debug, PartialEq)]
pub enum ExtDecl {
    Func(FuncDecl),
    Global(GlobalVarDecl),
}

#[derive(Debug, PartialEq)]
pub struct FuncDecl {
    pub return_type: DataType,
    pub name: String,
    pub params: Vec<ParamDecl>,
    pub cmp_stmt: CmpStmt,
}

#[derive(Debug, PartialEq)]
pub struct ParamDecl {
    pub data_type: DataType,
    pub name: String,
}

/// Compound statement: a block that opens a lexical scope of its own.
#[derive(Debug, PartialEq)]
pub struct CmpStmt {
    pub stmts: Vec<Stmt>,
}

#[derive(Debug, PartialEq)]
pub enum Stmt {
    Compound(CmpStmt),
    VarDecl(VarDecl),
    Assignment(String, Expr),
    Return(Option<Expr>),
    Expr(Expr),
}

#[derive(Debug, PartialEq)]
pub enum Expr {
    IntConst(i64),
    FunctionCall(String, Vec<Expr>),
    VarRef(String),
    Arith(Box<Expr>, ArithOp, Box<Expr>),
}

/// Declaration of a local variable: type, name and optional initializer.
#[derive(Debug, PartialEq)]
pub struct VarDecl(pub DataType, pub String, pub Option<Expr>);

/// Declaration of a global variable: type, name and optional initializer.
#[derive(Debug, PartialEq)]
pub struct GlobalVarDecl(pub DataType, pub String, pub Option<Expr>);

#[derive(Debug, Clone, Copy, PartialEq, Eq, Structural)]
pub enum ArithOp {
    Add,
    Sub,
}

#[derive(Debug, Clone, Copy, PartialEq, Eq, Structural)]
pub enum DataType {
    Void,
    Char,
    Short,
    Int,
    Long,
    Float,
    Double,
}

/// Model of an expression.
pub enum ExprView {
    IntConst(i64),
    FunctionCall(Seq<char>, Seq<ExprView>),
    VarRef(Seq<char>),
    Arith(Box<ExprView>, ArithOp, Box<ExprView>),
}

/// Model of a variable declaration, local or global.
pub struct VarDeclView {
    pub data_type: DataType,
    pub name: Seq<char>,
    pub init: Option<ExprView>,
}

/// Model of a statement.
pub enum StmtView {
    Compound(CmpStmtView),
    VarDecl(VarDeclView),
    Assignment(Seq<char>, ExprView),
    Return(Option<ExprView>),
    Expr(ExprView),
}

/// Model of a compound statement.
pub struct CmpStmtView {
    pub stmts: Seq<StmtView>,
}

/// Model of a function parameter.
pub struct ParamDeclView {
    pub data_type: DataType,
    pub name: Seq<char>,
}

/// Model of a function declaration.
pub struct FuncDeclView {
    pub return_type: DataType,
    pub name: Seq<char>,
    pub params: Seq<ParamDeclView>,
    pub body: CmpStmtView,
}

/// Model of an external declaration.
pub enum ExtDeclView {
    Func(FuncDeclView),
    Global(VarDeclView),
}

/// Model of a translation unit.
pub struct AstView {
    pub decls: Seq<ExtDeclView>,
}

/// The model of the expression `e`.
pub open spec fn expr_view(e: Expr) -> ExprView
    decreases e,
{
    match e {
        Expr::IntConst(v) => ExprView::IntConst(v),
        Expr::FunctionCall(name, args) => ExprView::FunctionCall(
            name@,
            Seq::new(
                args@.len(),
                |i: int|
                    if 0 <= i < args@.len() {
                        expr_view(args@[i])
                    } else {
                        arbitrary()
                    },
            ),
        ),
        Expr::VarRef(name) => ExprView::VarRef(name@),
        Expr::Arith(l, op, r) => ExprView::Arith(
            Box::new(expr_view(*l)),
            op,
            Box::new(expr_view(*r)),
        ),
    }
}

impl View for Expr {
    type V = ExprView;

    open spec fn view(&self) -> ExprView {
        expr_view(*self)
    }
}

/// The model of an optional expression.
pub open spec fn opt_expr_view(e: Option<Expr>) -> Option<ExprView> {
    match e {
        Some(e) => Some(e@),
        None => None,
    }
}

impl View for VarDecl {
    type V = VarDeclView;

    open spec fn view(&self) -> VarDeclView {
        VarDeclView { data_type: self.0, name: self.1@, init: opt_expr_view(self.2) }
    }
}

impl View for GlobalVarDecl {
    type V = VarDeclView;

    open spec fn view(&self) -> VarDeclView {
        VarDeclView { data_type: self.0, name: self.1@, init: opt_expr_view(self.2) }
    }
}

/// The model of the statement `s`.
pub open spec fn stmt_view(s: Stmt) -> StmtView
    decreases s,
{
    match s {
        Stmt::Compound(c) => StmtView::Compound(block_view(c)),
        Stmt::VarDecl(d) => StmtView::VarDecl(d@),
        Stmt::Assignment(name, e) => StmtView::Assignment(name@, e@),
        Stmt::Return(e) => StmtView::Return(opt_expr_view(e)),
        Stmt::Expr(e) => StmtView::Expr(e@),
    }
}

/// The model of the compound statement `c`.
pub open spec fn block_view(c: CmpStmt) -> CmpStmtView
    decreases c,
{
    CmpStmtView {
        stmts: Seq::new(
            c.stmts@.len(),
            |i: int|
                if 0 <= i < c.stmts@.len() {
                    stmt_view(c.stmts@[i])
                } else {
                    arbitrary()
                },
        ),
    }
}

impl View for Stmt {
    type V = StmtView;

    open spec fn view(&self) -> StmtView {
        stmt_view(*self)
    }
}

impl View for CmpStmt {
    type V = CmpStmtView;

    open spec fn view(&self) -> CmpStmtView {
        block_view(*self)
    }
}

impl View for ParamDecl {
    type V = ParamDeclView;

    open spec fn view(&self) -> ParamDeclView {
        ParamDeclView { data_type: self.data_type, name: self.name@ }
    }
}

impl View for FuncDecl {
    type V = FuncDeclView;

    open spec fn view(&self) -> FuncDeclView {
        FuncDeclView {
            return_type: self.return_type,
            name: self.name@,
            params: Seq::new(self.params@.len(), |i: int| self.params@[i]@),
            body: self.cmp_stmt@,
        }
    }
}

impl View for ExtDecl {
    type V = ExtDeclView;

    open spec fn view(&self) -> ExtDeclView {
        match self {
            ExtDecl::Func(f) => ExtDeclView::Func(f@),
            ExtDecl::Global(g) => ExtDeclView::Global(g@),
        }
    }
}

impl View for Ast {
    type V = AstView;

    open spec fn view(&self) -> AstView {
        AstView { decls: Seq::new(self.0@.len(), |i: int| self.0@[i]@) }
    }
}

} // verus!
