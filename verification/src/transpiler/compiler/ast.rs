//! The syntax tree of a Zoxi source file, and its mathematical model.
//!
//! Every executable node has a view (`expr_view`, `type_view`, ...) in the ghost types
//! `SExpr`, `SType`, ...; the parser and the code generator are specified over the views.
use crate::transpiler::error::Span;
use vstd::prelude::*;

verus! {

#[derive(Debug)]
pub struct Module {
    pub items: Vec<Item>,
}

#[derive(Debug)]
pub enum Item {
    Function(Function),
    Static(StaticItem),
}

#[derive(Debug)]
pub struct Function {
    pub name: String,
    pub params: Vec<Param>,
    pub return_type: Option<TypeExpr>,
    pub body: Block,
}

#[derive(Debug)]
pub struct Param {
    pub name: String,
    pub ty: TypeExpr,
}

#[derive(Debug)]
pub struct StaticItem {
    pub name: String,
    pub ty: TypeExpr,
    pub value: Expr,
}

#[derive(Debug)]
pub struct Block {
    pub statements: Vec<Stmt>,
    pub tail: Option<Expr>,
}

#[derive(Debug)]
pub enum Stmt {
    Let(LetStmt),
    IndexAssign(IndexAssignStmt),
    Expr(Expr),
}

#[derive(Debug)]
pub struct LetStmt {
    pub mutable: bool,
    pub name: String,
    pub ty: Option<TypeExpr>,
    pub value: Expr,
}

#[derive(Debug)]
pub struct IndexAssignStmt {
    pub target: Expr,
    pub index: Expr,
    pub value: Expr,
}

#[derive(Debug)]
pub enum Expr {
    Path(PathExpr),
    String(StringLiteral),
    Number(String),
    Char(String),
    Array(Vec<Expr>),
    MapLiteral(Vec<MapEntry>),
    Call { callee: Box<Expr>, args: Vec<Expr> },
    MacroCall { path: PathExpr, args: Vec<Expr> },
    MethodCall { receiver: Box<Expr>, method: String, args: Vec<Expr> },
    Field { receiver: Box<Expr>, name: String },
    Index { receiver: Box<Expr>, index: Box<Expr> },
    Unary { op: UnaryOp, expr: Box<Expr> },
    Binary { lhs: Box<Expr>, op: BinaryOp, rhs: Box<Expr> },
    Closure { param: String, body: Box<Expr> },
    Paren(Box<Expr>),
    Return(Box<Expr>),
}

#[derive(Debug)]
pub struct MapEntry {
    pub key: Expr,
    pub value: Expr,
}

#[derive(Debug)]
pub struct PathExpr {
    pub segments: Vec<String>,
}

#[derive(Debug)]
pub struct StringLiteral {
    pub raw: String,
    pub span: Span,
}

#[derive(Clone, Copy, Debug, PartialEq, Eq, Structural)]
pub enum UnaryOp {
    Ref,
    Not,
    Neg,
}

#[derive(Clone, Copy, Debug, PartialEq, Eq, Structural)]
pub enum BinaryOp {
    Mul,
    Div,
    Rem,
    Add,
    Sub,
    Gt,
    Lt,
    Ge,
    Le,
    Eq,
    NotEq,
    And,
    Or,
}

#[derive(Debug)]
pub enum TypeExpr {
    Path(TypePath),
    Reference { lifetime: Option<String>, mutable: bool, inner: Box<TypeExpr> },
}

#[derive(Debug)]
pub struct TypePath {
    pub segments: Vec<TypeSegment>,
}

#[derive(Debug)]
pub struct TypeSegment {
    pub name: String,
    pub generics: Vec<TypeExpr>,
}

#[derive(Debug)]
pub struct Analysis {
    pub module: Module,
}

// ---------------------------------------------------------------------------------------
// The model.
/// An expression as the contracts see it.
pub enum SExpr {
    Path(Seq<Seq<char>>),
    Str(Seq<char>, Span),
    Number(Seq<char>),
    Char(Seq<char>),
    Array(Seq<SExpr>),
    MapLiteral(Seq<SEntry>),
    Call(Box<SExpr>, Seq<SExpr>),
    MacroCall(Seq<Seq<char>>, Seq<SExpr>),
    MethodCall(Box<SExpr>, Seq<char>, Seq<SExpr>),
    Field(Box<SExpr>, Seq<char>),
    Index(Box<SExpr>, Box<SExpr>),
    Unary(UnaryOp, Box<SExpr>),
    Binary(Box<SExpr>, BinaryOp, Box<SExpr>),
    Closure(Seq<char>, Box<SExpr>),
    Paren(Box<SExpr>),
    Return(Box<SExpr>),
}

/// A map literal entry as the contracts see it.
pub struct SEntry {
    pub key: SExpr,
    pub value: SExpr,
}

/// A type as the contracts see it.
pub enum SType {
    Path(Seq<SSegment>),
    Reference(Option<Seq<char>>, bool, Box<SType>),
}

/// A segment of a type path as the contracts see it.
pub struct SSegment {
    pub name: Seq<char>,
    pub generics: Seq<SType>,
}

/// A statement as the contracts see it.
pub enum SStmt {
    Let(bool, Seq<char>, Option<SType>, SExpr),
    IndexAssign(SExpr, SExpr, SExpr),
    Expr(SExpr),
}

/// A block as the contracts see it.
pub struct SBlock {
    pub statements: Seq<SStmt>,
    pub tail: Option<SExpr>,
}

/// A function parameter as the contracts see it.
pub struct SParam {
    pub name: Seq<char>,
    pub ty: SType,
}

/// An item as the contracts see it.
pub enum SItem {
    Function(Seq<char>, Seq<SParam>, Option<SType>, SBlock),
    Static(Seq<char>, SType, SExpr),
}

pub open spec fn strings_view(s: Seq<String>) -> Seq<Seq<char>> {
    s.map_values(|x: String| x@)
}

pub open spec fn expr_view(e: Expr) -> SExpr
    decreases e,
{
    match e {
        Expr::Path(path) => SExpr::Path(strings_view(path.segments@)),
        Expr::String(literal) => SExpr::Str(literal.raw@, literal.span),
        Expr::Number(text) => SExpr::Number(text@),
        Expr::Char(text) => SExpr::Char(text@),
        Expr::Array(items) => SExpr::Array(exprs_view(items@)),
        Expr::MapLiteral(entries) => SExpr::MapLiteral(entries_view(entries@)),
        Expr::Call { callee, args } => SExpr::Call(Box::new(expr_view(*callee)), exprs_view(args@)),
        Expr::MacroCall { path, args } => SExpr::MacroCall(
            strings_view(path.segments@),
            exprs_view(args@),
        ),
        Expr::MethodCall { receiver, method, args } => SExpr::MethodCall(
            Box::new(expr_view(*receiver)),
            method@,
            exprs_view(args@),
        ),
        Expr::Field { receiver, name } => SExpr::Field(Box::new(expr_view(*receiver)), name@),
        Expr::Index { receiver, index } => SExpr::Index(
            Box::new(expr_view(*receiver)),
            Box::new(expr_view(*index)),
        ),
        Expr::Unary { op, expr } => SExpr::Unary(op, Box::new(expr_view(*expr))),
        Expr::Binary { lhs, op, rhs } => SExpr::Binary(
            Box::new(expr_view(*lhs)),
            op,
            Box::new(expr_view(*rhs)),
        ),
        Expr::Closure { param, body } => SExpr::Closure(param@, Box::new(expr_view(*body))),
        Expr::Paren(inner) => SExpr::Paren(Box::new(expr_view(*inner))),
        Expr::Return(inner) => SExpr::Return(Box::new(expr_view(*inner))),
    }
}

pub open spec fn exprs_view(s: Seq<Expr>) -> Seq<SExpr>
    decreases s,
{
    if s.len() == 0 {
        seq![]
    } else {
        exprs_view(s.drop_last()).push(expr_view(s.last()))
    }
}

pub open spec fn entries_view(s: Seq<MapEntry>) -> Seq<SEntry>
    decreases s,
{
    if s.len() == 0 {
        seq![]
    } else {
        entries_view(s.drop_last()).push(
            SEntry { key: expr_view(s.last().key), value: expr_view(s.last().value) },
        )
    }
}

pub open spec fn type_view(t: TypeExpr) -> SType
    decreases t,
{
    match t {
        TypeExpr::Path(path) => SType::Path(segments_view(path.segments@)),
        TypeExpr::Reference { lifetime, mutable, inner } => SType::Reference(
            match lifetime {
                Some(l) => Some(l@),
                None => None,
            },
            mutable,
            Box::new(type_view(*inner)),
        ),
    }
}

pub open spec fn types_view(s: Seq<TypeExpr>) -> Seq<SType>
    decreases s,
{
    if s.len() == 0 {
        seq![]
    } else {
        types_view(s.drop_last()).push(type_view(s.last()))
    }
}

pub open spec fn segments_view(s: Seq<TypeSegment>) -> Seq<SSegment>
    decreases s,
{
    if s.len() == 0 {
        seq![]
    } else {
        segments_view(s.drop_last()).push(
            SSegment { name: s.last().name@, generics: types_view(s.last().generics@) },
        )
    }
}

pub open spec fn opt_type_view(t: Option<TypeExpr>) -> Option<SType> {
    match t {
        Some(t) => Some(type_view(t)),
        None => None,
    }
}

pub open spec fn opt_expr_view(e: Option<Expr>) -> Option<SExpr> {
    match e {
        Some(e) => Some(expr_view(e)),
        None => None,
    }
}

pub open spec fn stmt_view(s: Stmt) -> SStmt {
    match s {
        Stmt::Let(l) => SStmt::Let(l.mutable, l.name@, opt_type_view(l.ty), expr_view(l.value)),
        Stmt::IndexAssign(a) => SStmt::IndexAssign(
            expr_view(a.target),
            expr_view(a.index),
            expr_view(a.value),
        ),
        Stmt::Expr(e) => SStmt::Expr(expr_view(e)),
    }
}

pub open spec fn stmts_view(s: Seq<Stmt>) -> Seq<SStmt>
    decreases s.len(),
{
    if s.len() == 0 {
        seq![]
    } else {
        stmts_view(s.drop_last()).push(stmt_view(s.last()))
    }
}

pub open spec fn block_view(b: Block) -> SBlock {
    SBlock { statements: stmts_view(b.statements@), tail: opt_expr_view(b.tail) }
}

pub open spec fn params_view(s: Seq<Param>) -> Seq<SParam>
    decreases s.len(),
{
    if s.len() == 0 {
        seq![]
    } else {
        params_view(s.drop_last()).push(
            SParam { name: s.last().name@, ty: type_view(s.last().ty) },
        )
    }
}

pub open spec fn item_view(i: Item) -> SItem {
    match i {
        Item::Function(f) => SItem::Function(
            f.name@,
            params_view(f.params@),
            opt_type_view(f.return_type),
            block_view(f.body),
        ),
        Item::Static(s) => SItem::Static(s.name@, type_view(s.ty), expr_view(s.value)),
    }
}

pub open spec fn items_view(s: Seq<Item>) -> Seq<SItem>
    decreases s.len(),
{
    if s.len() == 0 {
        seq![]
    } else {
        items_view(s.drop_last()).push(item_view(s.last()))
    }
}

pub open spec fn module_view(m: Module) -> Seq<SItem> {
    items_view(m.items@)
}

pub proof fn lemma_exprs_view(s: Seq<Expr>)
    ensures
        exprs_view(s).len() == s.len(),
        forall|i: int| 0 <= i < s.len() ==> #[trigger] exprs_view(s)[i] == expr_view(s[i]),
    decreases s.len(),
{
    if s.len() > 0 {
        lemma_exprs_view(s.drop_last());
    }
}

pub proof fn lemma_entries_view(s: Seq<MapEntry>)
    ensures
        entries_view(s).len() == s.len(),
        forall|i: int|
            0 <= i < s.len() ==> #[trigger] entries_view(s)[i] == (SEntry {
                key: expr_view(s[i].key),
                value: expr_view(s[i].value),
            }),
    decreases s.len(),
{
    if s.len() > 0 {
        lemma_entries_view(s.drop_last());
    }
}

pub proof fn lemma_types_view(s: Seq<TypeExpr>)
    ensures
        types_view(s).len() == s.len(),
        forall|i: int| 0 <= i < s.len() ==> #[trigger] types_view(s)[i] == type_view(s[i]),
    decreases s.len(),
{
    if s.len() > 0 {
        lemma_types_view(s.drop_last());
    }
}

pub proof fn lemma_segments_view(s: Seq<TypeSegment>)
    ensures
        segments_view(s).len() == s.len(),
        forall|i: int|
            0 <= i < s.len() ==> #[trigger] segments_view(s)[i] == (SSegment {
                name: s[i].name@,
                generics: types_view(s[i].generics@),
            }),
    decreases s.len(),
{
    if s.len() > 0 {
        lemma_segments_view(s.drop_last());
    }
}

pub proof fn lemma_stmts_view(s: Seq<Stmt>)
    ensures
        stmts_view(s).len() == s.len(),
        forall|i: int| 0 <= i < s.len() ==> #[trigger] stmts_view(s)[i] == stmt_view(s[i]),
    decreases s.len(),
{
    if s.len() > 0 {
        lemma_stmts_view(s.drop_last());
    }
}

pub proof fn lemma_params_view(s: Seq<Param>)
    ensures
        params_view(s).len() == s.len(),
        forall|i: int|
            0 <= i < s.len() ==> #[trigger] params_view(s)[i] == (SParam {
                name: s[i].name@,
                ty: type_view(s[i].ty),
            }),
    decreases s.len(),
{
    if s.len() > 0 {
        lemma_params_view(s.drop_last());
    }
}

pub proof fn lemma_items_view(s: Seq<Item>)
    ensures
        items_view(s).len() == s.len(),
        forall|i: int| 0 <= i < s.len() ==> #[trigger] items_view(s)[i] == item_view(s[i]),
    decreases s.len(),
{
    if s.len() > 0 {
        lemma_items_view(s.drop_last());
    }
}

/// A string literal can be generated: its text holds at least the two quotes, and positions
/// inside it fit in a `usize`.
pub open spec fn literal_wf(raw: Seq<char>, span: Span) -> bool {
    raw.len() >= 2 && span.start + raw.len() <= usize::MAX
}

/// Every string literal in the expression can be generated.
pub open spec fn sexpr_wf(e: SExpr) -> bool
    decreases e,
{
    match e {
        SExpr::Str(raw, span) => literal_wf(raw, span),
        SExpr::Array(items) => forall|i: int| 0 <= i < items.len() ==> sexpr_wf(#[trigger] items[i]),
        SExpr::MapLiteral(entries) => forall|i: int|
            0 <= i < entries.len() ==> sexpr_wf(#[trigger] entries[i].key) && sexpr_wf(
                entries[i].value,
            ),
        SExpr::Call(callee, args) => sexpr_wf(*callee) && forall|i: int|
            0 <= i < args.len() ==> sexpr_wf(#[trigger] args[i]),
        SExpr::MacroCall(_, args) => forall|i: int| 0 <= i < args.len() ==> sexpr_wf(#[trigger] args[i]),
        SExpr::MethodCall(receiver, _, args) => sexpr_wf(*receiver) && forall|i: int|
            0 <= i < args.len() ==> sexpr_wf(#[trigger] args[i]),
        SExpr::Field(receiver, _) => sexpr_wf(*receiver),
        SExpr::Index(receiver, index) => sexpr_wf(*receiver) && sexpr_wf(*index),
        SExpr::Unary(_, inner) => sexpr_wf(*inner),
        SExpr::Binary(lhs, _, rhs) => sexpr_wf(*lhs) && sexpr_wf(*rhs),
        SExpr::Closure(_, body) => sexpr_wf(*body),
        SExpr::Paren(inner) => sexpr_wf(*inner),
        SExpr::Return(inner) => sexpr_wf(*inner),
        _ => true,
    }
}

pub open spec fn sexprs_wf(s: Seq<SExpr>) -> bool {
    forall|i: int| 0 <= i < s.len() ==> sexpr_wf(#[trigger] s[i])
}

pub open spec fn sstmt_wf(s: SStmt) -> bool {
    match s {
        SStmt::Let(_, _, _, value) => sexpr_wf(value),
        SStmt::IndexAssign(target, index, value) => sexpr_wf(target) && sexpr_wf(index) && sexpr_wf(
            value,
        ),
        SStmt::Expr(e) => sexpr_wf(e),
    }
}

pub open spec fn sblock_wf(b: SBlock) -> bool {
    &&& forall|i: int| 0 <= i < b.statements.len() ==> sstmt_wf(#[trigger] b.statements[i])
    &&& b.tail matches Some(tail) ==> sexpr_wf(tail)
}

pub open spec fn sitem_wf(item: SItem) -> bool {
    match item {
        SItem::Function(_, _, _, body) => sblock_wf(body),
        SItem::Static(_, _, value) => sexpr_wf(value),
    }
}

/// Every string literal in the items can be generated.
pub open spec fn sitems_wf(items: Seq<SItem>) -> bool {
    forall|i: int| 0 <= i < items.len() ==> sitem_wf(#[trigger] items[i])
}

} // verus!
