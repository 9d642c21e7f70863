//! The complexity of each function of a file, as a tree of its symbols.
//!
//! The complexity of a function is the number of its decision points: every
//! `if` on the way through its body counts one, an `else if` chain one for
//! each `if` in it. The tree has the file at its root, below it the free
//! functions and the `impl` blocks, and below each `impl` block its methods.
use vstd::prelude::*;

use crate::parsers::error::{ParseError, ParseErrorKind};
use crate::syntax::{
    Block, Expr, ExprArray, ExprAssign, ExprAssignOp, ExprBlock, ExprBreak, ExprIf, ImplItem,
    ImplItemMethod, Item, ItemFn, ItemImpl, SourceFile, Stmt, Type,
};

verus! {

/// A count as a machine integer: the count itself where it fits, else the
/// largest value there is.
pub open spec fn saturated(n: nat) -> usize {
    if n > usize::MAX {
        usize::MAX
    } else {
        n as usize
    }
}

/// The decision points of an expression. An `if` counts one, and with it
/// count the decision points of its two branches, not those of its
/// condition. An array, an assignment, a block and a `break` count what the
/// expressions in them count. Nothing else counts.
pub open spec fn expr_decisions(expr: Expr) -> nat
    decreases expr,
{
    match expr {
        Expr::Array(a) => exprs_decisions(a.elems@, a.elems@.len()),
        Expr::Assign(a) => expr_decisions(*a.left) + expr_decisions(*a.right),
        Expr::AssignOp(a) => expr_decisions(*a.left) + expr_decisions(*a.right),
        Expr::Block(b) => block_decisions(b.block),
        Expr::Break(b) => match b.expr {
            Some(value) => expr_decisions(*value),
            None => 0,
        },
        Expr::If(i) => 1 + block_decisions(i.then_branch) + match i.else_branch {
            Some(other) => expr_decisions(*other),
            None => 0,
        },
        Expr::Other(_) => 0,
    }
}

/// The decision points of the first `n` of `exprs` together.
pub open spec fn exprs_decisions(exprs: Seq<Expr>, n: nat) -> nat
    decreases exprs, n,
{
    if n == 0 || n > exprs.len() {
        0
    } else {
        exprs_decisions(exprs, (n - 1) as nat) + expr_decisions(exprs[n - 1])
    }
}

/// The decision points of a statement: those of its expression where it is
/// an expression, with or without a semicolon behind it, none where it is a
/// `let` or an item.
pub open spec fn stmt_decisions(stmt: Stmt) -> nat
    decreases stmt,
{
    match stmt {
        Stmt::Local(_) => 0,
        Stmt::Item(_) => 0,
        Stmt::Expr(e) => expr_decisions(e),
        Stmt::Semi(e) => expr_decisions(e),
    }
}

/// The decision points of the first `n` of `stmts` together.
pub open spec fn stmts_decisions(stmts: Seq<Stmt>, n: nat) -> nat
    decreases stmts, n,
{
    if n == 0 || n > stmts.len() {
        0
    } else {
        stmts_decisions(stmts, (n - 1) as nat) + stmt_decisions(stmts[n - 1])
    }
}

/// The decision points of a block: those of its statements together.
pub open spec fn block_decisions(block: Block) -> nat
    decreases block,
{
    stmts_decisions(block.stmts@, block.stmts@.len())
}

impl Block {
    /// The number of decision points of this block: the count itself
    /// wherever it fits a machine integer.
    pub fn process(&self) -> (complexity: usize)
        ensures
            complexity == saturated(block_decisions(*self)),
            block_decisions(*self) <= usize::MAX ==> complexity == block_decisions(*self),
        decreases self,
    {
        let mut complexity: usize = 0;
        let mut i: usize = 0;
        while i < self.stmts.len()
            invariant
                i <= self.stmts.len(),
                complexity == saturated(stmts_decisions(self.stmts@, i as nat)),
            decreases self.stmts.len() - i,
        {
            let counted: usize = match &self.stmts[i] {
                Stmt::Local(_) => 0,
                Stmt::Item(_) => 0,
                Stmt::Expr(inner) => inner.process(),
                Stmt::Semi(inner) => inner.process(),
            };
            assert(counted == saturated(stmt_decisions(self.stmts@[i as int])));
            complexity = complexity.saturating_add(counted);
            i += 1;
        }
        complexity
    }
}

impl Expr {
    /// The number of decision points of this expression: the count itself
    /// wherever it fits a machine integer.
    pub fn process(&self) -> (complexity: usize)
        ensures
            complexity == saturated(expr_decisions(*self)),
            expr_decisions(*self) <= usize::MAX ==> complexity == expr_decisions(*self),
        decreases self, 1nat,
    {
        match self {
            Expr::Array(inner) => inner.process(),
            Expr::Assign(inner) => inner.process(),
            Expr::AssignOp(inner) => inner.process(),
            Expr::Block(inner) => inner.process(),
            Expr::Break(inner) => inner.process(),
            Expr::If(inner) => inner.process(),
            Expr::Other(_) => 0,
        }
    }
}

impl ExprArray {
    /// The decision points of the elements together.
    pub fn process(&self) -> (complexity: usize)
        ensures
            complexity == saturated(exprs_decisions(self.elems@, self.elems@.len())),
        decreases self, 0nat,
    {
        let mut complexity: usize = 0;
        let mut i: usize = 0;
        while i < self.elems.len()
            invariant
                i <= self.elems.len(),
                complexity == saturated(exprs_decisions(self.elems@, i as nat)),
            decreases self.elems.len() - i,
        {
            let counted: usize = self.elems[i].process();
            complexity = complexity.saturating_add(counted);
            i += 1;
        }
        complexity
    }
}

impl ExprAssign {
    /// The decision points of the two sides together.
    pub fn process(&self) -> (complexity: usize)
        ensures
            complexity == saturated(expr_decisions(*self.left) + expr_decisions(*self.right)),
        decreases self, 0nat,
    {
        let left: usize = self.left.process();
        let right: usize = self.right.process();
        left.saturating_add(right)
    }
}

impl ExprAssignOp {
    /// The decision points of the two sides together.
    pub fn process(&self) -> (complexity: usize)
        ensures
            complexity == saturated(expr_decisions(*self.left) + expr_decisions(*self.right)),
        decreases self, 0nat,
    {
        let left: usize = self.left.process();
        let right: usize = self.right.process();
        left.saturating_add(right)
    }
}

impl ExprBlock {
    /// The decision points of the block.
    pub fn process(&self) -> (complexity: usize)
        ensures
            complexity == saturated(block_decisions(self.block)),
        decreases self, 0nat,
    {
        self.block.process()
    }
}

impl ExprBreak {
    /// The decision points of the value that the `break` carries, if any.
    pub fn process(&self) -> (complexity: usize)
        ensures
            complexity == saturated(
                match self.expr {
                    Some(value) => expr_decisions(*value),
                    None => 0,
                },
            ),
        decreases self, 0nat,
    {
        match &self.expr {
            Some(value) => value.process(),
            None => 0,
        }
    }
}

impl ExprIf {
    /// One for the `if` itself, and the decision points of its branches:
    /// the plain sum wherever that fits a machine integer.
    pub fn process(&self) -> (complexity: usize)
        ensures
            complexity == saturated(
                1 + block_decisions(self.then_branch) + match self.else_branch {
                    Some(other) => expr_decisions(*other),
                    None => 0,
                },
            ),
            expr_decisions(Expr::If(*self)) <= usize::MAX ==> complexity == 1 + block_decisions(
                self.then_branch,
            ) + match self.else_branch {
                Some(other) => expr_decisions(*other),
                None => 0,
            },
        decreases self, 0nat,
    {
        let mut complexity: usize = 1;
        let then: usize = self.then_branch.process();
        complexity = complexity.saturating_add(then);
        match &self.else_branch {
            Some(other) => {
                let rest: usize = other.process();
                complexity = complexity.saturating_add(rest);
            },
            None => {},
        }
        complexity
    }
}

/// What a node of the tree stands for.
#[derive(Debug, Clone, Copy, PartialEq, Eq, Structural)]
pub enum ComplexityNodeKind {
    Fn,
    Method,
    Impl,
    File,
}

impl ComplexityNodeKind {
    /// The name of the kind, as it is shown.
    pub open spec fn label(self) -> Seq<char> {
        match self {
            ComplexityNodeKind::Fn => "Fn"@,
            ComplexityNodeKind::Method => "Method"@,
            ComplexityNodeKind::Impl => "Impl"@,
            ComplexityNodeKind::File => "File"@,
        }
    }

    /// The kind as text.
    pub fn to_string(&self) -> (s: String)
        ensures
            s@ == self.label(),
    {
        match self {
            ComplexityNodeKind::Fn => "Fn".to_owned(),
            ComplexityNodeKind::Method => "Method".to_owned(),
            ComplexityNodeKind::Impl => "Impl".to_owned(),
            ComplexityNodeKind::File => "File".to_owned(),
        }
    }
}

/// A node of the tree, mathematically.
pub struct ComplexityNodeView {
    pub name: Seq<char>,
    pub kind: ComplexityNodeKind,
    pub complexity: usize,
    pub children: Seq<ComplexityNodeView>,
}

/// A symbol with its complexity, and the symbols declared in it. Only
/// functions and methods have a complexity of their own; a file and an `impl`
/// block have none.
#[derive(Debug, PartialEq, Eq)]
pub struct ComplexityNode {
    pub name: String,
    pub kind: ComplexityNodeKind,
    pub complexity: usize,
    pub children: Vec<ComplexityNode>,
}

impl ComplexityNode {
    /// The node and everything below it, mathematically.
    pub open spec fn model(self) -> ComplexityNodeView
        decreases self,
    {
        ComplexityNodeView {
            name: self.name@,
            kind: self.kind,
            complexity: self.complexity,
            children: Seq::new(
                self.children@.len(),
                |i: int|
                    if 0 <= i < self.children@.len() {
                        self.children@[i].model()
                    } else {
                        arbitrary()
                    },
            ),
        }
    }

    /// A node without complexity and without children.
    pub fn new(name: String, kind: ComplexityNodeKind) -> (node: ComplexityNode)
        ensures
            node@ == (ComplexityNodeView {
                name: name@,
                kind,
                complexity: 0,
                children: Seq::empty(),
            }),
    {
        let node = ComplexityNode { name, kind, complexity: 0, children: Vec::new() };
        assert(node@.children =~= Seq::empty());
        node
    }

    /// The same node with the given complexity.
    pub fn with_complexity(self, complexity: usize) -> (node: ComplexityNode)
        ensures
            node@ == (ComplexityNodeView { complexity, ..self@ }),
    {
        let mut node = self;
        node.complexity = complexity;
        node
    }

    /// Puts `child` after the children that the node has.
    pub fn add_child(&mut self, child: ComplexityNode)
        ensures
            final(self)@ == (ComplexityNodeView {
                children: old(self)@.children.push(child@),
                ..old(self)@
            }),
    {
        self.children.push(child);
        assert(self@.children =~= old(self)@.children.push(child@));
    }
}

impl View for ComplexityNode {
    type V = ComplexityNodeView;

    open spec fn view(&self) -> ComplexityNodeView {
        self.model()
    }
}

/// The tree of a file.
#[derive(Debug, PartialEq, Eq)]
pub struct ComplexityTree {
    pub root: ComplexityNode,
}

/// The leaf of a free function.
pub open spec fn fn_node(f: ItemFn) -> ComplexityNodeView {
    ComplexityNodeView {
        name: f.name@,
        kind: ComplexityNodeKind::Fn,
        complexity: saturated(block_decisions(f.block)),
        children: Seq::empty(),
    }
}

/// The leaf of a method.
pub open spec fn method_node(m: ImplItemMethod) -> ComplexityNodeView {
    ComplexityNodeView {
        name: m.name@,
        kind: ComplexityNodeKind::Method,
        complexity: saturated(block_decisions(m.block)),
        children: Seq::empty(),
    }
}

/// The leaves of the methods among the first `n` of `items`, in order.
/// What is no method leaves no trace.
pub open spec fn method_nodes(items: Seq<ImplItem>, n: nat) -> Seq<ComplexityNodeView>
    decreases n,
{
    if n == 0 || n > items.len() {
        Seq::empty()
    } else {
        let before = method_nodes(items, (n - 1) as nat);
        match items[n - 1] {
            ImplItem::Method(m) => before.push(method_node(m)),
            ImplItem::Other(_) => before,
        }
    }
}

/// The name under which an `impl` block for `ty` is shown: the first segment
/// of the path, where the type is a path and has one.
pub open spec fn resolved_name(ty: Type) -> Option<Seq<char>> {
    match ty {
        Type::Path(p) => if p.segments@.len() > 0 {
            Some(p.segments@[0]@)
        } else {
            None
        },
        Type::Other(_) => None,
    }
}

/// The node of an `impl` block whose type has a name.
pub open spec fn impl_node(i: ItemImpl) -> ComplexityNodeView
    recommends
        resolved_name(i.self_ty) is Some,
{
    ComplexityNodeView {
        name: resolved_name(i.self_ty)->0,
        kind: ComplexityNodeKind::Impl,
        complexity: 0,
        children: method_nodes(i.items@, i.items@.len()),
    }
}

/// Whether `item` is an `impl` block for a type without a name.
pub open spec fn unresolved(item: Item) -> bool {
    item matches Item::Impl(i) && resolved_name(i.self_ty) is None
}

/// How many of the first `n` of `items` come before the first `impl` block
/// for a type without a name; `n` where there is none among them.
pub open spec fn resolved_prefix(items: Seq<Item>, n: nat) -> nat
    decreases n,
{
    if n == 0 || n > items.len() {
        0
    } else {
        let before = resolved_prefix(items, (n - 1) as nat);
        if before == n - 1 && !unresolved(items[n - 1]) {
            n
        } else {
            before
        }
    }
}

/// The nodes of the functions and `impl` blocks among the first `n` of
/// `items`, in order. Every other item leaves no trace.
pub open spec fn item_nodes(items: Seq<Item>, n: nat) -> Seq<ComplexityNodeView>
    decreases n,
{
    if n == 0 || n > items.len() {
        Seq::empty()
    } else {
        let before = item_nodes(items, (n - 1) as nat);
        match items[n - 1] {
            Item::Fn(f) => before.push(fn_node(f)),
            Item::Impl(i) => before.push(impl_node(i)),
            _ => before,
        }
    }
}

/// The tree of `file` under the label `path`.
pub open spec fn file_node(file: SourceFile, path: Seq<char>) -> ComplexityNodeView {
    ComplexityNodeView {
        name: path,
        kind: ComplexityNodeKind::File,
        complexity: 0,
        children: item_nodes(file.items@, file.items@.len()),
    }
}

/// The error for an `impl` block whose type has no name.
pub open spec fn is_name_error(e: ParseError) -> bool {
    &&& e.kind == ParseErrorKind::NoMatches
    &&& e.msg matches Some(msg) && msg@ == "Identifier not found for impl"@
    &&& e.index is None
    &&& e.source is None
}

impl ComplexityTree {
    /// The tree of `file`, with `file_path` as the name of its root. Fails, with
    /// nothing built, where the file holds an `impl` block for a type that is
    /// no path, and only there.
    pub fn generate(file: &SourceFile, file_path: String) -> (tree: Result<
        ComplexityTree,
        ParseError,
    >)
        ensures
            match tree {
                Ok(t) => resolved_prefix(file.items@, file.items@.len()) == file.items@.len()
                    && t.root@ == file_node(*file, file_path@),
                Err(e) => resolved_prefix(file.items@, file.items@.len()) < file.items@.len()
                    && is_name_error(e),
            },
    {
        let mut root = ComplexityNode::new(file_path, ComplexityNodeKind::File);
        match process_file(file, &mut root) {
            Ok(()) => Ok(ComplexityTree { root }),
            Err(e) => Err(e),
        }
    }
}

/// Puts the nodes of the functions and `impl` blocks of `ast` below `parent`,
/// in order. Stops at the first `impl` block for a type without a name, with
/// the nodes of what came before it in place.
pub fn process_file(ast: &SourceFile, parent: &mut ComplexityNode) -> (done: Result<(), ParseError>)
    ensures
        final(parent)@ == (ComplexityNodeView {
            children: old(parent)@.children + item_nodes(
                ast.items@,
                resolved_prefix(ast.items@, ast.items@.len()),
            ),
            ..old(parent)@
        }),
        match done {
            Ok(()) => resolved_prefix(ast.items@, ast.items@.len()) == ast.items@.len(),
            Err(e) => resolved_prefix(ast.items@, ast.items@.len()) < ast.items@.len()
                && is_name_error(e),
        },
{
    let mut i: usize = 0;
    while i < ast.items.len()
        invariant
            i <= ast.items.len(),
            resolved_prefix(ast.items@, i as nat) == i,
            parent@ == (ComplexityNodeView {
                children: old(parent)@.children + item_nodes(ast.items@, i as nat),
                ..old(parent)@
            }),
        decreases ast.items.len() - i,
    {
        match &ast.items[i] {
            Item::Fn(ast) => process_item_fn(ast, parent),
            Item::Impl(inner) => {
                match process_item_impl(inner, parent) {
                    Ok(()) => {},
                    Err(e) => {
                        proof {
                            lemma_resolved_prefix_stops(ast.items@, i as nat, ast.items@.len());
                        }
                        return Err(e);
                    },
                }
            },
            _ => {},
        }
        assert(parent@.children =~= old(parent)@.children + item_nodes(
            ast.items@,
            (i + 1) as nat,
        ));
        i += 1;
    }
    Ok(())
}

/// Once an `impl` block for a type without a name stands at `k`, no longer
/// prefix comes before the first such block.
proof fn lemma_resolved_prefix_stops(items: Seq<Item>, k: nat, n: nat)
    requires
        k < n <= items.len(),
        resolved_prefix(items, k) == k,
        unresolved(items[k as int]),
    ensures
        resolved_prefix(items, n) == k,
    decreases n,
{
    if n > k + 1 {
        lemma_resolved_prefix_stops(items, k, (n - 1) as nat);
    }
}

/// Puts the leaf of the function `ast` below `parent`.
pub fn process_item_fn(ast: &ItemFn, parent: &mut ComplexityNode)
    ensures
        final(parent)@ == (ComplexityNodeView {
            children: old(parent)@.children.push(fn_node(*ast)),
            ..old(parent)@
        }),
{
    let node = ComplexityNode::new(ast.name.clone(), ComplexityNodeKind::Fn).with_complexity(
        ast.block.process(),
    );
    parent.add_child(node);
}

/// Puts the node of the `impl` block `ast`, with its methods, below `parent`.
/// Fails, and leaves `parent` as it is, where the type has no name.
pub fn process_item_impl(ast: &ItemImpl, parent: &mut ComplexityNode) -> (done: Result<
    (),
    ParseError,
>)
    ensures
        match done {
            Ok(()) => resolved_name(ast.self_ty) is Some && final(parent)@ == (ComplexityNodeView {
                children: old(parent)@.children.push(impl_node(*ast)),
                ..old(parent)@
            }),
            Err(e) => resolved_name(ast.self_ty) is None && is_name_error(e) && final(parent)@
                == old(parent)@,
        },
{
    let name: String = match get_impl_resolved_name(ast) {
        Ok(name) => name,
        Err(e) => {
            return Err(e);
        },
    };
    let mut node = ComplexityNode::new(name, ComplexityNodeKind::Impl);
    let mut i: usize = 0;
    while i < ast.items.len()
        invariant
            i <= ast.items.len(),
            node@ == (ComplexityNodeView {
                name: resolved_name(ast.self_ty)->0,
                kind: ComplexityNodeKind::Impl,
                complexity: 0,
                children: method_nodes(ast.items@, i as nat),
            }),
        decreases ast.items.len() - i,
    {
        match &ast.items[i] {
            ImplItem::Method(ast) => process_impl_item_method(ast, &mut node),
            ImplItem::Other(_) => {},
        }
        i += 1;
    }
    parent.add_child(node);
    Ok(())
}

/// Puts the leaf of the method `ast` below `parent`.
pub fn process_impl_item_method(ast: &ImplItemMethod, parent: &mut ComplexityNode)
    ensures
        final(parent)@ == (ComplexityNodeView {
            children: old(parent)@.children.push(method_node(*ast)),
            ..old(parent)@
        }),
{
    let node = ComplexityNode::new(ast.name.clone(), ComplexityNodeKind::Method).with_complexity(
        ast.block.process(),
    );
    parent.add_child(node);
}

/// The name under which the `impl` block `ast` is shown, or the error where
/// its type has none.
pub fn get_impl_resolved_name(ast: &ItemImpl) -> (name: Result<String, ParseError>)
    ensures
        match name {
            Ok(n) => resolved_name(ast.self_ty) == Some(n@),
            Err(e) => resolved_name(ast.self_ty) is None && is_name_error(e),
        },
{
    match &ast.self_ty {
        Type::Path(p) => {
            if p.segments.len() > 0 {
                return Ok(p.segments[0].clone());
            }
        },
        Type::Other(_) => {},
    }
    Err(ParseError::kind(ParseErrorKind::NoMatches).msg("Identifier not found for impl".to_owned()))
}

/// Whether there is no `if` anywhere in `expr`.
pub open spec fn expr_has_no_if(expr: Expr) -> bool
    decreases expr,
{
    match expr {
        Expr::Array(a) => exprs_have_no_if(a.elems@, a.elems@.len()),
        Expr::Assign(a) => expr_has_no_if(*a.left) && expr_has_no_if(*a.right),
        Expr::AssignOp(a) => expr_has_no_if(*a.left) && expr_has_no_if(*a.right),
        Expr::Block(b) => block_has_no_if(b.block),
        Expr::Break(b) => match b.expr {
            Some(value) => expr_has_no_if(*value),
            None => true,
        },
        Expr::If(_) => false,
        Expr::Other(_) => true,
    }
}

/// Whether there is no `if` anywhere in the first `n` of `exprs`.
pub open spec fn exprs_have_no_if(exprs: Seq<Expr>, n: nat) -> bool
    decreases exprs, n,
{
    if n == 0 || n > exprs.len() {
        true
    } else {
        exprs_have_no_if(exprs, (n - 1) as nat) && expr_has_no_if(exprs[n - 1])
    }
}

/// Whether there is no `if` anywhere in the expression of `stmt`, if it has
/// one.
pub open spec fn stmt_has_no_if(stmt: Stmt) -> bool
    decreases stmt,
{
    match stmt {
        Stmt::Local(_) => true,
        Stmt::Item(_) => true,
        Stmt::Expr(e) => expr_has_no_if(e),
        Stmt::Semi(e) => expr_has_no_if(e),
    }
}

/// Whether there is no `if` anywhere in the first `n` of `stmts`.
pub open spec fn stmts_have_no_if(stmts: Seq<Stmt>, n: nat) -> bool
    decreases stmts, n,
{
    if n == 0 || n > stmts.len() {
        true
    } else {
        stmts_have_no_if(stmts, (n - 1) as nat) && stmt_has_no_if(stmts[n - 1])
    }
}

/// Whether there is no `if` anywhere in `block`.
pub open spec fn block_has_no_if(block: Block) -> bool
    decreases block,
{
    stmts_have_no_if(block.stmts@, block.stmts@.len())
}

proof fn lemma_expr_without_if(expr: Expr)
    requires
        expr_has_no_if(expr),
    ensures
        expr_decisions(expr) == 0,
    decreases expr,
{
    match expr {
        Expr::Array(a) => lemma_exprs_without_if(a.elems@, a.elems@.len()),
        Expr::Assign(a) => {
            lemma_expr_without_if(*a.left);
            lemma_expr_without_if(*a.right);
        },
        Expr::AssignOp(a) => {
            lemma_expr_without_if(*a.left);
            lemma_expr_without_if(*a.right);
        },
        Expr::Block(b) => law_no_if_no_decision(b.block),
        Expr::Break(b) => match b.expr {
            Some(value) => lemma_expr_without_if(*value),
            None => {},
        },
        Expr::If(_) => {},
        Expr::Other(_) => {},
    }
}

proof fn lemma_exprs_without_if(exprs: Seq<Expr>, n: nat)
    requires
        exprs_have_no_if(exprs, n),
    ensures
        exprs_decisions(exprs, n) == 0,
    decreases exprs, n,
{
    if 0 < n <= exprs.len() {
        lemma_exprs_without_if(exprs, (n - 1) as nat);
        lemma_expr_without_if(exprs[n - 1]);
    }
}

proof fn lemma_stmts_without_if(stmts: Seq<Stmt>, n: nat)
    requires
        stmts_have_no_if(stmts, n),
    ensures
        stmts_decisions(stmts, n) == 0,
    decreases stmts, n,
{
    if 0 < n <= stmts.len() {
        lemma_stmts_without_if(stmts, (n - 1) as nat);
        let last = stmts[n - 1];
        assert(stmt_has_no_if(last));
        match last {
            Stmt::Expr(e) => {
                lemma_expr_without_if(e);
            },
            Stmt::Semi(e) => {
                lemma_expr_without_if(e);
            },
            _ => {},
        }
        assert(stmt_decisions(last) == 0);
    }
}

/// A body without an `if` has no decision point.
pub proof fn law_no_if_no_decision(block: Block)
    requires
        block_has_no_if(block),
    ensures
        block_decisions(block) == 0,
    decreases block,
{
    lemma_stmts_without_if(block.stmts@, block.stmts@.len());
}

/// An `if` with an `else` counts one more than its two branches together.
pub proof fn law_if_else(i: ExprIf)
    requires
        i.else_branch is Some,
    ensures
        expr_decisions(Expr::If(i)) == 1 + block_decisions(i.then_branch) + expr_decisions(
            *i.else_branch->0,
        ),
{
}

/// An `if` without an `else` counts one more than its branch.
pub proof fn law_if_alone(i: ExprIf)
    requires
        i.else_branch is None,
    ensures
        expr_decisions(Expr::If(i)) == 1 + block_decisions(i.then_branch),
{
}

/// `if .. {a} else if .. {b} else {c}` counts two more than `a`, `b` and `c`
/// together: one for each `if` of the chain.
pub proof fn law_else_if_chain(first: ExprIf, second: ExprIf, last: ExprBlock)
    requires
        first.else_branch == Some(Box::new(Expr::If(second))),
        second.else_branch == Some(Box::new(Expr::Block(last))),
    ensures
        expr_decisions(Expr::If(first)) == 2 + block_decisions(first.then_branch)
            + block_decisions(second.then_branch) + block_decisions(last.block),
{
    law_if_else(first);
    law_if_else(second);
}

/// The expression of a statement, where the statement is one.
pub open spec fn stmt_expr(stmt: Stmt) -> Option<Expr> {
    match stmt {
        Stmt::Local(_) => None,
        Stmt::Item(_) => None,
        Stmt::Expr(e) => Some(e),
        Stmt::Semi(e) => Some(e),
    }
}

/// A body that holds one expression counts what that expression counts,
/// whether a semicolon follows the expression or not.
pub proof fn law_body_of_one_expression(block: Block)
    requires
        block.stmts@.len() == 1,
        stmt_expr(block.stmts@[0]) is Some,
    ensures
        block_decisions(block) == expr_decisions(stmt_expr(block.stmts@[0])->0),
{
    reveal_with_fuel(stmts_decisions, 2);
}

/// A body that holds one `if`, with or without a semicolon behind it,
/// counts one more than the branches of the `if` together.
pub proof fn law_body_of_one_if(block: Block, i: ExprIf)
    requires
        block.stmts@.len() == 1,
        stmt_expr(block.stmts@[0]) == Some(Expr::If(i)),
    ensures
        block_decisions(block) == 1 + block_decisions(i.then_branch) + match i.else_branch {
            Some(other) => expr_decisions(*other),
            None => 0,
        },
{
    law_body_of_one_expression(block);
}

} // verus!
