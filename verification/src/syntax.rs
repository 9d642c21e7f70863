//! A model of the syntax of a source file.
//!
//! The model holds the constructs that the analyses take apart: items,
//! import trees, blocks, statements and a handful of expressions. Whatever
//! else a file contains is kept as an opaque leaf.
//!
//! Every node that stands for more source text than its fields spell out
//! carries a `digest`: a 64-bit fingerprint of that text, chosen by whoever
//! builds the model. It covers what the model does not hold, such as
//! visibility, attributes, generics, the signature of a function or the
//! trait that an `impl` block is for. Two nodes that stand for different
//! source text should carry different digests.
use vstd::prelude::*;

verus! {

/// A whole source file: its top-level items, in order.
#[derive(Debug, PartialEq, Eq)]
pub struct SourceFile {
    pub digest: u64,
    pub items: Vec<Item>,
}

/// One item of a file or of a module.
#[derive(Debug, PartialEq, Eq)]
pub enum Item {
    ExternCrate(u64),
    Use(ItemUse),
    Static(ItemValue),
    Const(ItemValue),
    Fn(ItemFn),
    Mod(ItemMod),
    ForeignMod(u64),
    Type(u64),
    Struct(u64),
    Enum(u64),
    Union(u64),
    Trait(u64),
    TraitAlias(u64),
    Impl(ItemImpl),
    Macro(u64),
    Macro2(u64),
    /// Anything that is none of the above.
    Verbatim(u64),
}

/// A `use` declaration.
#[derive(Debug, PartialEq, Eq)]
pub struct ItemUse {
    pub digest: u64,
    pub tree: UseTree,
}

/// The import tree of a `use` declaration.
#[derive(Debug, PartialEq, Eq)]
pub enum UseTree {
    /// `ident::tree`
    Path(UsePath),
    /// `ident`
    Name(String),
    /// `ident as rename`
    Rename(UseRename),
    /// `*`
    Glob,
    /// `{tree, tree, ...}`
    Group(Vec<UseTree>),
}

#[derive(Debug, PartialEq, Eq)]
pub struct UsePath {
    pub ident: String,
    pub tree: Box<UseTree>,
}

#[derive(Debug, PartialEq, Eq)]
pub struct UseRename {
    pub ident: String,
    pub rename: String,
}

/// A `static` or a `const`: the digest stands for its name and type, the
/// expression is its value.
#[derive(Debug, PartialEq, Eq)]
pub struct ItemValue {
    pub digest: u64,
    pub expr: Expr,
}

/// A free function.
#[derive(Debug, PartialEq, Eq)]
pub struct ItemFn {
    pub digest: u64,
    pub name: String,
    pub block: Block,
}

/// A module. One that is declared without a body has no items.
#[derive(Debug, PartialEq, Eq)]
pub struct ItemMod {
    pub digest: u64,
    pub name: String,
    pub items: Vec<Item>,
}

/// An `impl` block.
#[derive(Debug, PartialEq, Eq)]
pub struct ItemImpl {
    pub digest: u64,
    pub self_ty: Type,
    pub items: Vec<ImplItem>,
}

/// The type that an `impl` block is for.
#[derive(Debug, PartialEq, Eq)]
pub enum Type {
    /// A path such as `a::b::C`.
    Path(TypePath),
    /// Any other type: a tuple, a reference, a trait object, ...
    Other(u64),
}

/// A type that is a path: the names of its segments, in order.
#[derive(Debug, PartialEq, Eq)]
pub struct TypePath {
    pub digest: u64,
    pub segments: Vec<String>,
}

/// One item of an `impl` block.
#[derive(Debug, PartialEq, Eq)]
pub enum ImplItem {
    Method(ImplItemMethod),
    /// An associated constant or type, a macro, ...
    Other(u64),
}

#[derive(Debug, PartialEq, Eq)]
pub struct ImplItemMethod {
    pub digest: u64,
    pub name: String,
    pub block: Block,
}

/// A braced block of statements.
#[derive(Debug, PartialEq, Eq)]
pub struct Block {
    pub stmts: Vec<Stmt>,
}

/// One statement of a block.
#[derive(Debug, PartialEq, Eq)]
pub enum Stmt {
    /// A `let` binding.
    Local(u64),
    /// An item declared inside the block.
    Item(u64),
    /// An expression without a trailing semicolon.
    Expr(Expr),
    /// An expression with a trailing semicolon.
    Semi(Expr),
}

/// An expression. Only the forms that the analyses expand are taken apart.
#[derive(Debug, PartialEq, Eq)]
pub enum Expr {
    Array(ExprArray),
    Assign(ExprAssign),
    AssignOp(ExprAssignOp),
    Block(ExprBlock),
    Break(ExprBreak),
    If(ExprIf),
    /// Any other expression.
    Other(u64),
}

/// `[a, b, c]`
#[derive(Debug, PartialEq, Eq)]
pub struct ExprArray {
    pub digest: u64,
    pub elems: Vec<Expr>,
}

/// `left = right`
#[derive(Debug, PartialEq, Eq)]
pub struct ExprAssign {
    pub digest: u64,
    pub left: Box<Expr>,
    pub right: Box<Expr>,
}

/// The operator of a compound assignment.
#[derive(Debug, Clone, Copy, PartialEq, Eq)]
pub enum AssignOperator {
    Add,
    Sub,
    Mul,
    Div,
    Rem,
    BitXor,
    BitAnd,
    BitOr,
    Shl,
    Shr,
}

/// `left op= right`
#[derive(Debug, PartialEq, Eq)]
pub struct ExprAssignOp {
    pub digest: u64,
    pub op: AssignOperator,
    pub left: Box<Expr>,
    pub right: Box<Expr>,
}

/// `{ ... }` used as an expression.
#[derive(Debug, PartialEq, Eq)]
pub struct ExprBlock {
    pub digest: u64,
    pub block: Block,
}

/// `break`, `break 'label`, `break value`
#[derive(Debug, PartialEq, Eq)]
pub struct ExprBreak {
    pub digest: u64,
    pub label: Option<String>,
    pub expr: Option<Box<Expr>>,
}

/// `if cond { ... } else ...`; the `else` branch is a block expression or
/// another `if`.
#[derive(Debug, PartialEq, Eq)]
pub struct ExprIf {
    pub digest: u64,
    pub cond: Box<Expr>,
    pub then_branch: Block,
    pub else_branch: Option<Box<Expr>>,
}

} // verus!
