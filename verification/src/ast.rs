//! The syntax tree of the surface language, as the front end hands it to the
//! IR builder.

use vstd::prelude::*;

verus! {

/// An expression. A numeric literal is held as the bit pattern of its
/// IEEE-754 double value: the builder only carries it through.
#[derive(Debug)]
pub enum Expr {
    Number(u64),
    Float(u64),
    String(String),
    Identifier(String),
    Add(Box<Expr>, Box<Expr>),
    Sub(Box<Expr>, Box<Expr>),
    Mul(Box<Expr>, Box<Expr>),
    Div(Box<Expr>, Box<Expr>),
    BitAnd(Box<Expr>, Box<Expr>),
    BitOr(Box<Expr>, Box<Expr>),
    BitXor(Box<Expr>, Box<Expr>),
    BitNot(Box<Expr>),
    Shl(Box<Expr>, Box<Expr>),
    Shr(Box<Expr>, Box<Expr>),
    Eq(Box<Expr>, Box<Expr>),
    Ne(Box<Expr>, Box<Expr>),
    Lt(Box<Expr>, Box<Expr>),
    Gt(Box<Expr>, Box<Expr>),
    Le(Box<Expr>, Box<Expr>),
    Ge(Box<Expr>, Box<Expr>),
    And(Box<Expr>, Box<Expr>),
    Or(Box<Expr>, Box<Expr>),
    Not(Box<Expr>),
    Neg(Box<Expr>),
    Bool(bool),
    Await(Box<Expr>),
    Call(String, Vec<Expr>),
    Ask(Box<Expr>),
    List(Vec<Expr>),
    Range(Box<Expr>, Box<Expr>),
    Index(Box<Expr>, Box<Expr>),
    Member(Box<Expr>, String),
    MethodCall(Box<Expr>, String, Vec<Expr>),
    Mapping(Vec<(Expr, Expr)>),
}

/// A struct declaration: its name and field names.
#[derive(Debug)]
pub struct StructDef {
    pub name: String,
    pub fields: Vec<String>,
}

/// A trait declaration: its name and the methods an impl must provide.
#[derive(Debug)]
pub struct TraitDef {
    pub name: String,
    pub methods: Vec<String>,
}

/// An impl of a trait for a type.
#[derive(Debug)]
pub struct ImplBlock {
    pub trait_name: String,
    pub for_type: String,
    pub methods: Vec<FnDef>,
}

/// A statement.
#[derive(Debug)]
pub enum Stmt {
    VarDecl(String, Expr),
    Assign(Expr, Expr),
    Say(Expr),
    Return(Expr),
    Expr(Expr),
    Block(Vec<Stmt>),
    Unsafe(Vec<Stmt>),
    If(Expr, Vec<Stmt>, Option<Vec<Stmt>>),
    While(Expr, Vec<Stmt>),
    For(String, Expr, Vec<Stmt>),
    Import(String),
    TryCatch(Vec<Stmt>, String, Vec<Stmt>),
    Throw(Expr),
    Struct(StructDef),
}

/// How a function was declared: `fn`, `fng` (global) or `fnc` (precompiled).
#[derive(Debug, Clone, Copy, PartialEq, Eq)]
pub enum FnType {
    Normal,
    Global,
    Precompiled,
}

/// A function definition.
#[derive(Debug)]
pub struct FnDef {
    pub name: String,
    pub params: Vec<String>,
    pub body: Vec<Stmt>,
    pub is_async: bool,
    pub is_unsafe: bool,
    pub fn_type: FnType,
}

/// An item at the top level of a source file.
#[derive(Debug)]
pub enum TopLevel {
    Function(FnDef),
    Struct(StructDef),
    Trait(TraitDef),
    Impl(ImplBlock),
    Statement(Stmt),
    Import(String),
    Use(String),
    Hardwire(String),
}

/// A parsed source file.
#[derive(Debug)]
pub struct Program {
    pub items: Vec<TopLevel>,
}

impl Program {
    /// A program with no items.
    pub fn new() -> (p: Self)
        ensures
            p.items@.len() == 0,
    {
        Program { items: Vec::new() }
    }
}


/// A binary operator of the syntax tree.
pub enum BinOp {
    Add,
    Sub,
    Mul,
    Div,
    BitAnd,
    BitOr,
    BitXor,
    Shl,
    Shr,
    Eq,
    Ne,
    Lt,
    Gt,
    Le,
    Ge,
    And,
    Or,
    Range,
    Index,
}

/// A unary operator of the syntax tree.
pub enum UnOp {
    BitNot,
    Not,
    Neg,
    Await,
    Ask,
}

/// An expression with its names as character sequences.
pub enum ExprView {
    Number(u64),
    Float(u64),
    Str(Seq<char>),
    Ident(Seq<char>),
    Bool(bool),
    Bin(BinOp, Box<ExprView>, Box<ExprView>),
    Un(UnOp, Box<ExprView>),
    Call(Seq<char>, Seq<ExprView>),
    List(Seq<ExprView>),
    Member(Box<ExprView>, Seq<char>),
    MethodCall(Box<ExprView>, Seq<char>, Seq<ExprView>),
    Mapping(Seq<(ExprView, ExprView)>),
}

/// The view of an expression.
pub open spec fn expr_view(e: Expr) -> ExprView
    decreases e,
{
    match e {
        Expr::Number(n) => ExprView::Number(n),
        Expr::Float(n) => ExprView::Float(n),
        Expr::String(s) => ExprView::Str(s@),
        Expr::Identifier(s) => ExprView::Ident(s@),
        Expr::Bool(b) => ExprView::Bool(b),
        Expr::Add(a, c) => ExprView::Bin(BinOp::Add, Box::new(expr_view(*a)), Box::new(expr_view(*c))),
        Expr::Sub(a, c) => ExprView::Bin(BinOp::Sub, Box::new(expr_view(*a)), Box::new(expr_view(*c))),
        Expr::Mul(a, c) => ExprView::Bin(BinOp::Mul, Box::new(expr_view(*a)), Box::new(expr_view(*c))),
        Expr::Div(a, c) => ExprView::Bin(BinOp::Div, Box::new(expr_view(*a)), Box::new(expr_view(*c))),
        Expr::BitAnd(a, c) => ExprView::Bin(BinOp::BitAnd, Box::new(expr_view(*a)), Box::new(expr_view(*c))),
        Expr::BitOr(a, c) => ExprView::Bin(BinOp::BitOr, Box::new(expr_view(*a)), Box::new(expr_view(*c))),
        Expr::BitXor(a, c) => ExprView::Bin(BinOp::BitXor, Box::new(expr_view(*a)), Box::new(expr_view(*c))),
        Expr::Shl(a, c) => ExprView::Bin(BinOp::Shl, Box::new(expr_view(*a)), Box::new(expr_view(*c))),
        Expr::Shr(a, c) => ExprView::Bin(BinOp::Shr, Box::new(expr_view(*a)), Box::new(expr_view(*c))),
        Expr::Eq(a, c) => ExprView::Bin(BinOp::Eq, Box::new(expr_view(*a)), Box::new(expr_view(*c))),
        Expr::Ne(a, c) => ExprView::Bin(BinOp::Ne, Box::new(expr_view(*a)), Box::new(expr_view(*c))),
        Expr::Lt(a, c) => ExprView::Bin(BinOp::Lt, Box::new(expr_view(*a)), Box::new(expr_view(*c))),
        Expr::Gt(a, c) => ExprView::Bin(BinOp::Gt, Box::new(expr_view(*a)), Box::new(expr_view(*c))),
        Expr::Le(a, c) => ExprView::Bin(BinOp::Le, Box::new(expr_view(*a)), Box::new(expr_view(*c))),
        Expr::Ge(a, c) => ExprView::Bin(BinOp::Ge, Box::new(expr_view(*a)), Box::new(expr_view(*c))),
        Expr::And(a, c) => ExprView::Bin(BinOp::And, Box::new(expr_view(*a)), Box::new(expr_view(*c))),
        Expr::Or(a, c) => ExprView::Bin(BinOp::Or, Box::new(expr_view(*a)), Box::new(expr_view(*c))),
        Expr::Range(a, c) => ExprView::Bin(BinOp::Range, Box::new(expr_view(*a)), Box::new(expr_view(*c))),
        Expr::Index(a, c) => ExprView::Bin(BinOp::Index, Box::new(expr_view(*a)), Box::new(expr_view(*c))),
        Expr::BitNot(a) => ExprView::Un(UnOp::BitNot, Box::new(expr_view(*a))),
        Expr::Not(a) => ExprView::Un(UnOp::Not, Box::new(expr_view(*a))),
        Expr::Neg(a) => ExprView::Un(UnOp::Neg, Box::new(expr_view(*a))),
        Expr::Await(a) => ExprView::Un(UnOp::Await, Box::new(expr_view(*a))),
        Expr::Ask(a) => ExprView::Un(UnOp::Ask, Box::new(expr_view(*a))),
        Expr::Call(n, args) => ExprView::Call(n@, exprs_view(args@)),
        Expr::List(items) => ExprView::List(exprs_view(items@)),
        Expr::Member(a, m) => ExprView::Member(Box::new(expr_view(*a)), m@),
        Expr::MethodCall(a, m, args) => ExprView::MethodCall(Box::new(expr_view(*a)), m@, exprs_view(args@)),
        Expr::Mapping(es) => ExprView::Mapping(entries_view(es@)),
    }
}

/// The views of expressions, in order.
pub open spec fn exprs_view(es: Seq<Expr>) -> Seq<ExprView>
    decreases es,
{
    if es.len() == 0 {
        seq![]
    } else {
        exprs_view(es.drop_last()).push(expr_view(es.last()))
    }
}

/// The views of map entries, in order.
pub open spec fn entries_view(es: Seq<(Expr, Expr)>) -> Seq<(ExprView, ExprView)>
    decreases es,
{
    if es.len() == 0 {
        seq![]
    } else {
        entries_view(es.drop_last()).push((expr_view(es.last().0), expr_view(es.last().1)))
    }
}

/// A struct declaration with its names as character sequences.
pub struct StructDefView {
    pub name: Seq<char>,
    pub fields: Seq<Seq<char>>,
}

/// A statement with its names as character sequences.
pub enum StmtView {
    VarDecl(Seq<char>, ExprView),
    Assign(ExprView, ExprView),
    Say(ExprView),
    Return(ExprView),
    Expr(ExprView),
    Block(Seq<StmtView>),
    Unsafe(Seq<StmtView>),
    If(ExprView, Seq<StmtView>, Option<Seq<StmtView>>),
    While(ExprView, Seq<StmtView>),
    For(Seq<char>, ExprView, Seq<StmtView>),
    Import(Seq<char>),
    TryCatch(Seq<StmtView>, Seq<char>, Seq<StmtView>),
    Throw(ExprView),
    Struct(StructDefView),
}

/// The names of `v`, as character sequences.
pub open spec fn names_of(v: Seq<String>) -> Seq<Seq<char>> {
    Seq::new(v.len(), |i: int| v[i]@)
}

/// The view of a struct declaration.
pub open spec fn struct_view(d: StructDef) -> StructDefView {
    StructDefView { name: d.name@, fields: names_of(d.fields@) }
}

/// The view of a statement.
pub open spec fn stmt_view(s: Stmt) -> StmtView
    decreases s,
{
    match s {
        Stmt::VarDecl(n, e) => StmtView::VarDecl(n@, expr_view(e)),
        Stmt::Assign(a, e) => StmtView::Assign(expr_view(a), expr_view(e)),
        Stmt::Say(e) => StmtView::Say(expr_view(e)),
        Stmt::Return(e) => StmtView::Return(expr_view(e)),
        Stmt::Expr(e) => StmtView::Expr(expr_view(e)),
        Stmt::Block(b) => StmtView::Block(stmts_view(b@)),
        Stmt::Unsafe(b) => StmtView::Unsafe(stmts_view(b@)),
        Stmt::If(c, t, e) => StmtView::If(
            expr_view(c),
            stmts_view(t@),
            match e {
                Some(b) => Some(stmts_view(b@)),
                None => None,
            },
        ),
        Stmt::While(c, b) => StmtView::While(expr_view(c), stmts_view(b@)),
        Stmt::For(n, e, b) => StmtView::For(n@, expr_view(e), stmts_view(b@)),
        Stmt::Import(p) => StmtView::Import(p@),
        Stmt::TryCatch(t, v, c) => StmtView::TryCatch(stmts_view(t@), v@, stmts_view(c@)),
        Stmt::Throw(e) => StmtView::Throw(expr_view(e)),
        Stmt::Struct(d) => StmtView::Struct(struct_view(d)),
    }
}

/// The views of statements, in order.
pub open spec fn stmts_view(ss: Seq<Stmt>) -> Seq<StmtView>
    decreases ss,
{
    if ss.len() == 0 {
        seq![]
    } else {
        stmts_view(ss.drop_last()).push(stmt_view(ss.last()))
    }
}

/// A function definition with its names as character sequences.
pub struct FnDefView {
    pub name: Seq<char>,
    pub params: Seq<Seq<char>>,
    pub body: Seq<StmtView>,
    pub is_async: bool,
    pub is_unsafe: bool,
    pub fn_type: FnType,
}

/// The view of a function definition.
pub open spec fn fn_view(f: FnDef) -> FnDefView {
    FnDefView {
        name: f.name@,
        params: names_of(f.params@),
        body: stmts_view(f.body@),
        is_async: f.is_async,
        is_unsafe: f.is_unsafe,
        fn_type: f.fn_type,
    }
}

/// The views of function definitions, in order.
pub open spec fn fns_view(fs: Seq<FnDef>) -> Seq<FnDefView> {
    Seq::new(fs.len(), |i: int| fn_view(fs[i]))
}

/// A trait declaration with its names as character sequences.
pub struct TraitDefView {
    pub name: Seq<char>,
    pub methods: Seq<Seq<char>>,
}

/// An impl block with its names as character sequences.
pub struct ImplView {
    pub trait_name: Seq<char>,
    pub for_type: Seq<char>,
    pub methods: Seq<FnDefView>,
}

/// A top-level item with its names as character sequences.
pub enum TopView {
    Function(FnDefView),
    Struct(StructDefView),
    Trait(TraitDefView),
    Impl(ImplView),
    Statement(StmtView),
    Import(Seq<char>),
    Use(Seq<char>),
    Hardwire(Seq<char>),
}

/// The view of a top-level item.
pub open spec fn top_view(t: TopLevel) -> TopView {
    match t {
        TopLevel::Function(f) => TopView::Function(fn_view(f)),
        TopLevel::Struct(d) => TopView::Struct(struct_view(d)),
        TopLevel::Trait(d) => TopView::Trait(TraitDefView { name: d.name@, methods: names_of(d.methods@) }),
        TopLevel::Impl(b) => TopView::Impl(ImplView { trait_name: b.trait_name@, for_type: b.for_type@, methods: fns_view(b.methods@) }),
        TopLevel::Statement(s) => TopView::Statement(stmt_view(s)),
        TopLevel::Import(p) => TopView::Import(p@),
        TopLevel::Use(p) => TopView::Use(p@),
        TopLevel::Hardwire(p) => TopView::Hardwire(p@),
    }
}

/// The views of a program's items, in order.
pub open spec fn program_view(p: Program) -> Seq<TopView> {
    Seq::new(p.items@.len(), |i: int| top_view(p.items@[i]))
}

} // verus!
