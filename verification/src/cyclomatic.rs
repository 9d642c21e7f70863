//! The graph of a source file, and its complexity.
//!
//! A walk over the syntax of a file makes every piece of syntax that it
//! visits a vertex, named by the identity of the piece, and every visit an
//! edge from the piece above. A piece whose identity was seen before is not
//! expanded again: its edge is counted, its content is not walked twice.
//! Every top-level item of the file counts as one component.
use vstd::prelude::*;

use crate::calculator::{law_no_edge_no_exit, Graph, GraphView, Node};
use crate::syntax::{
    Block, Expr, Item, ItemFn, ItemMod, ItemUse, ItemValue, SourceFile, Stmt, UseTree,
};

verus! {

/// The graph after a visit of `node` from `parent`: one more edge, and
/// `node` among the vertices.
pub open spec fn visit(g: GraphView, node: Node, parent: Node) -> GraphView {
    g.add_edge(parent, node).register_vertex(node)
}

/// The graph after the walk of the trees that stand directly below `tree`,
/// as children of `parent`.
pub open spec fn walk_use_children(g: GraphView, tree: UseTree, parent: Node) -> GraphView
    decreases tree, 0nat,
{
    match tree {
        UseTree::Path(p) => walk_use_tree(g, *p.tree, parent),
        UseTree::Name(_) => g,
        UseTree::Rename(_) => g,
        UseTree::Glob => g,
        UseTree::Group(trees) => walk_use_trees(g, trees@, trees@.len(), parent),
    }
}

/// The graph after the walk of `tree` as a child of `parent`.
pub open spec fn walk_use_tree(g: GraphView, tree: UseTree, parent: Node) -> GraphView
    decreases tree, 1nat,
{
    let id = tree.identity();
    if g.vertices.contains(id) {
        visit(g, id, parent)
    } else {
        walk_use_children(visit(g, id, parent), tree, id)
    }
}

/// The graph after the walk of the first `n` of `trees`, in order, each as a
/// child of `parent`.
pub open spec fn walk_use_trees(
    g: GraphView,
    trees: Seq<UseTree>,
    n: nat,
    parent: Node,
) -> GraphView
    decreases trees, n,
{
    if n == 0 || n > trees.len() {
        g
    } else {
        walk_use_tree(walk_use_trees(g, trees, (n - 1) as nat, parent), trees[n - 1], parent)
    }
}

/// The graph after the walk of what `expr` holds, as children of `parent`.
/// Arrays, assignments, blocks, `break` and `if` are expanded; of an `if`,
/// the two branches. Any other expression holds nothing to walk.
pub open spec fn walk_expr_children(g: GraphView, expr: Expr, parent: Node) -> GraphView
    decreases expr, 0nat,
{
    match expr {
        Expr::Array(a) => walk_exprs(g, a.elems@, a.elems@.len(), parent),
        Expr::Assign(a) => walk_expr(walk_expr(g, *a.left, parent), *a.right, parent),
        Expr::AssignOp(a) => walk_expr(walk_expr(g, *a.left, parent), *a.right, parent),
        Expr::Block(b) => walk_block(g, b.block, parent),
        Expr::Break(b) => match b.expr {
            Some(value) => walk_expr(g, *value, parent),
            None => g,
        },
        Expr::If(i) => {
            let then = walk_block(g, i.then_branch, parent);
            match i.else_branch {
                Some(other) => walk_expr(then, *other, parent),
                None => then,
            }
        },
        Expr::Other(_) => g,
    }
}

/// The graph after the walk of `expr` as a child of `parent`.
pub open spec fn walk_expr(g: GraphView, expr: Expr, parent: Node) -> GraphView
    decreases expr, 1nat,
{
    let id = expr.identity();
    if g.vertices.contains(id) {
        visit(g, id, parent)
    } else {
        walk_expr_children(visit(g, id, parent), expr, id)
    }
}

/// The graph after the walk of the first `n` of `exprs`, in order, each as a
/// child of `parent`.
pub open spec fn walk_exprs(g: GraphView, exprs: Seq<Expr>, n: nat, parent: Node) -> GraphView
    decreases exprs, n,
{
    if n == 0 || n > exprs.len() {
        g
    } else {
        walk_expr(walk_exprs(g, exprs, (n - 1) as nat, parent), exprs[n - 1], parent)
    }
}

/// The graph after the walk of `stmt` as a child of `parent`. A statement
/// that is an expression is walked as that expression; a `let` or an item is
/// visited and not expanded.
pub open spec fn walk_stmt(g: GraphView, stmt: Stmt, parent: Node) -> GraphView
    decreases stmt, 0nat,
{
    match stmt {
        Stmt::Local(_) => visit(g, stmt.identity(), parent),
        Stmt::Item(_) => visit(g, stmt.identity(), parent),
        Stmt::Expr(e) => walk_expr(g, e, parent),
        Stmt::Semi(e) => walk_expr(g, e, parent),
    }
}

/// The graph after the walk of the first `n` of `stmts`, in order, each as a
/// child of `parent`.
pub open spec fn walk_stmts(g: GraphView, stmts: Seq<Stmt>, n: nat, parent: Node) -> GraphView
    decreases stmts, n,
{
    if n == 0 || n > stmts.len() {
        g
    } else {
        walk_stmt(walk_stmts(g, stmts, (n - 1) as nat, parent), stmts[n - 1], parent)
    }
}

/// The graph after the walk of `block` as a child of `parent`.
pub open spec fn walk_block(g: GraphView, block: Block, parent: Node) -> GraphView
    decreases block, 0nat,
{
    let id = block.identity();
    if g.vertices.contains(id) {
        visit(g, id, parent)
    } else {
        walk_stmts(visit(g, id, parent), block.stmts@, block.stmts@.len(), id)
    }
}

/// The graph after the walk of what `item` holds, as children of `parent`:
/// of a `use`, the trees below the first segment of its path; of a `static`
/// or a `const`, its value; of a function, its body; of a module, its items.
/// Every other item holds nothing to walk.
pub open spec fn walk_item_children(g: GraphView, item: Item, parent: Node) -> GraphView
    decreases item, 0nat,
{
    match item {
        Item::ExternCrate(_) => g,
        Item::Use(u) => walk_use_children(g, u.tree, parent),
        Item::Static(v) => walk_expr(g, v.expr, parent),
        Item::Const(v) => walk_expr(g, v.expr, parent),
        Item::Fn(f) => walk_block(g, f.block, parent),
        Item::Mod(m) => walk_items(g, m.items@, m.items@.len(), parent),
        Item::ForeignMod(_) => g,
        Item::Type(_) => g,
        Item::Struct(_) => g,
        Item::Enum(_) => g,
        Item::Union(_) => g,
        Item::Trait(_) => g,
        Item::TraitAlias(_) => g,
        Item::Impl(_) => g,
        Item::Macro(_) => g,
        Item::Macro2(_) => g,
        Item::Verbatim(_) => g,
    }
}

/// The graph after the walk of `item` as a child of `parent`.
pub open spec fn walk_item(g: GraphView, item: Item, parent: Node) -> GraphView
    decreases item, 1nat,
{
    let id = item.identity();
    if g.vertices.contains(id) {
        visit(g, id, parent)
    } else {
        walk_item_children(visit(g, id, parent), item, id)
    }
}

/// The graph after the walk of the first `n` of `items`, in order, each as a
/// child of `parent`.
pub open spec fn walk_items(g: GraphView, items: Seq<Item>, n: nat, parent: Node) -> GraphView
    decreases items, n,
{
    if n == 0 || n > items.len() {
        g
    } else {
        walk_item(walk_items(g, items, (n - 1) as nat, parent), items[n - 1], parent)
    }
}

/// The graph after the walk of the first `n` top-level items of a file whose
/// identity is `root`: each item counts one component and is then walked.
pub open spec fn walk_top_items(g: GraphView, items: Seq<Item>, n: nat, root: Node) -> GraphView
    decreases n,
{
    if n == 0 || n > items.len() {
        g
    } else {
        walk_item(
            walk_top_items(g, items, (n - 1) as nat, root).add_component(),
            items[n - 1],
            root,
        )
    }
}

/// The graph of a file: the file itself is a vertex, no edge leads to it,
/// and its items are walked as its children.
pub open spec fn walk_file(file: SourceFile) -> GraphView {
    walk_top_items(
        GraphView::empty().register_vertex(file.identity()),
        file.items@,
        file.items@.len(),
        file.identity(),
    )
}

/// The walk over a file, with the graph that it has built so far.
#[derive(Debug)]
pub struct ASTGraph {
    pub graph: Graph,
}

impl View for ASTGraph {
    type V = GraphView;

    open spec fn view(&self) -> GraphView {
        self.graph@
    }
}

impl ASTGraph {
    /// Walks `ast` and returns the graph of it.
    pub fn new(ast: &SourceFile) -> (ast_graph: ASTGraph)
        ensures
            ast_graph@ == walk_file(*ast),
            ast_graph@.closed(),
            ast_graph@.components == ast.items@.len(),
            ast_graph@.node_count() <= ast_graph@.edge_count() + 1,
    {
        proof {
            law_graph_of_file(*ast);
        }
        let mut ast_graph = ASTGraph { graph: Graph::new(Vec::new()) };
        proof {
            law_no_edge_no_exit(ast_graph@.edges);
            assert(ast_graph@ =~= GraphView::empty());
        }
        ast_graph.parse_file(ast);
        ast_graph
    }

    /// Visits `node` from `parent`: counts the edge in any case, and says
    /// whether the vertex is new, that is, whether to walk on below it.
    pub fn checked_update(&mut self, node: Node, parent: Node) -> (is_new: bool)
        ensures
            is_new == !old(self)@.vertices.contains(node),
            final(self)@ == visit(old(self)@, node, parent),
    {
        self.graph.add_edge(parent, node);
        self.graph.register_vertex(node)
    }

    /// Makes the file a vertex and walks its items, each as one more
    /// component.
    pub fn parse_file(&mut self, ast: &SourceFile)
        requires
            old(self).graph.components + ast.items.len() <= usize::MAX,
        ensures
            final(self)@ == walk_top_items(
                old(self)@.register_vertex(ast.identity()),
                ast.items@,
                ast.items@.len(),
                ast.identity(),
            ),
    {
        let node: Node = ast.get_node();
        self.graph.register_vertex(node);
        let mut i: usize = 0;
        while i < ast.items.len()
            invariant
                i <= ast.items.len(),
                node == ast.identity(),
                self.graph.components == old(self).graph.components + i,
                old(self).graph.components + ast.items.len() <= usize::MAX,
                self@ == walk_top_items(
                    old(self)@.register_vertex(node),
                    ast.items@,
                    i as nat,
                    node,
                ),
            decreases ast.items.len() - i,
        {
            self.graph.add_component();
            self.parse_item(&ast.items[i], node);
            i += 1;
        }
    }

    /// Walks `ast` as a child of `parent`.
    pub fn parse_item(&mut self, ast: &Item, parent: Node)
        ensures
            final(self)@ == walk_item(old(self)@, *ast, parent),
            final(self).graph.components == old(self).graph.components,
        decreases ast, 1nat,
    {
        let node: Node = ast.get_node();
        if self.checked_update(node, parent) {
            match ast {
                Item::ExternCrate(_) => {},
                Item::Use(ast) => self.parse_item_use(ast, node),
                Item::Static(ast) => self.parse_item_static(ast, node),
                Item::Const(ast) => self.parse_item_const(ast, node),
                Item::Fn(ast) => self.parse_item_fn(ast, node),
                Item::Mod(ast) => self.parse_item_mod(ast, node),
                Item::ForeignMod(_) => {},
                Item::Type(_) => {},
                Item::Struct(_) => {},
                Item::Enum(_) => {},
                Item::Union(_) => {},
                Item::Trait(_) => {},
                Item::TraitAlias(_) => {},
                Item::Impl(_) => {},
                Item::Macro(_) => {},
                Item::Macro2(_) => {},
                Item::Verbatim(_) => {},
            }
        }
    }

    /// Walks what stands below the first segment of the path of a `use`.
    pub fn parse_item_use(&mut self, ast: &ItemUse, node: Node)
        ensures
            final(self)@ == walk_use_children(old(self)@, ast.tree, node),
            final(self).graph.components == old(self).graph.components,
        decreases ast, 0nat,
    {
        self.expand_use_tree(&ast.tree, node);
    }

    /// Walks the value of a `static`.
    pub fn parse_item_static(&mut self, ast: &ItemValue, node: Node)
        ensures
            final(self)@ == walk_expr(old(self)@, ast.expr, node),
            final(self).graph.components == old(self).graph.components,
        decreases ast, 0nat,
    {
        self.parse_expr(&ast.expr, node);
    }

    /// Walks the value of a `const`.
    pub fn parse_item_const(&mut self, ast: &ItemValue, node: Node)
        ensures
            final(self)@ == walk_expr(old(self)@, ast.expr, node),
            final(self).graph.components == old(self).graph.components,
        decreases ast, 0nat,
    {
        self.parse_expr(&ast.expr, node);
    }

    /// Walks the body of a function.
    pub fn parse_item_fn(&mut self, ast: &ItemFn, node: Node)
        ensures
            final(self)@ == walk_block(old(self)@, ast.block, node),
            final(self).graph.components == old(self).graph.components,
        decreases ast, 0nat,
    {
        self.parse_block(&ast.block, node);
    }

    /// Walks the items of a module.
    pub fn parse_item_mod(&mut self, ast: &ItemMod, node: Node)
        ensures
            final(self)@ == walk_items(old(self)@, ast.items@, ast.items@.len(), node),
            final(self).graph.components == old(self).graph.components,
        decreases ast, 0nat,
    {
        self.parse_items(&ast.items, node);
    }

    fn parse_items(&mut self, items: &Vec<Item>, parent: Node)
        ensures
            final(self)@ == walk_items(old(self)@, items@, items@.len(), parent),
            final(self).graph.components == old(self).graph.components,
        decreases items, 0nat,
    {
        let mut i: usize = 0;
        while i < items.len()
            invariant
                i <= items.len(),
                self.graph.components == old(self).graph.components,
                self@ == walk_items(old(self)@, items@, i as nat, parent),
            decreases items.len() - i,
        {
            self.parse_item(&items[i], parent);
            i += 1;
        }
    }

    /// Walks `ast` as a child of `parent`.
    pub fn parse_use_tree(&mut self, ast: &UseTree, parent: Node)
        ensures
            final(self)@ == walk_use_tree(old(self)@, *ast, parent),
            final(self).graph.components == old(self).graph.components,
        decreases ast, 1nat,
    {
        let node: Node = ast.get_node();
        if self.checked_update(node, parent) {
            self.expand_use_tree(ast, node);
        }
    }

    fn expand_use_tree(&mut self, ast: &UseTree, node: Node)
        ensures
            final(self)@ == walk_use_children(old(self)@, *ast, node),
            final(self).graph.components == old(self).graph.components,
        decreases ast, 0nat,
    {
        match ast {
            UseTree::Path(p) => self.parse_use_tree(&p.tree, node),
            UseTree::Name(_) => {},
            UseTree::Rename(_) => {},
            UseTree::Glob => {},
            UseTree::Group(trees) => self.parse_use_trees(trees, node),
        }
    }

    fn parse_use_trees(&mut self, trees: &Vec<UseTree>, parent: Node)
        ensures
            final(self)@ == walk_use_trees(old(self)@, trees@, trees@.len(), parent),
            final(self).graph.components == old(self).graph.components,
        decreases trees, 0nat,
    {
        let mut i: usize = 0;
        while i < trees.len()
            invariant
                i <= trees.len(),
                self.graph.components == old(self).graph.components,
                self@ == walk_use_trees(old(self)@, trees@, i as nat, parent),
            decreases trees.len() - i,
        {
            self.parse_use_tree(&trees[i], parent);
            i += 1;
        }
    }

    /// Walks `ast` as a child of `parent`.
    pub fn parse_block(&mut self, ast: &Block, parent: Node)
        ensures
            final(self)@ == walk_block(old(self)@, *ast, parent),
            final(self).graph.components == old(self).graph.components,
        decreases ast, 0nat,
    {
        let node: Node = ast.get_node();
        if self.checked_update(node, parent) {
            let mut i: usize = 0;
            while i < ast.stmts.len()
                invariant
                    i <= ast.stmts.len(),
                    self.graph.components == old(self).graph.components,
                    self@ == walk_stmts(
                        visit(old(self)@, node, parent),
                        ast.stmts@,
                        i as nat,
                        node,
                    ),
                decreases ast.stmts.len() - i,
            {
                self.parse_stmt(&ast.stmts[i], node);
                i += 1;
            }
        }
    }

    /// Walks `ast` as a child of `parent`.
    pub fn parse_stmt(&mut self, ast: &Stmt, parent: Node)
        ensures
            final(self)@ == walk_stmt(old(self)@, *ast, parent),
            final(self).graph.components == old(self).graph.components,
        decreases ast, 0nat,
    {
        match ast {
            Stmt::Local(_) => {
                let node: Node = ast.get_node();
                self.checked_update(node, parent);
            },
            Stmt::Item(_) => {
                let node: Node = ast.get_node();
                self.checked_update(node, parent);
            },
            Stmt::Expr(e) => self.parse_expr(e, parent),
            Stmt::Semi(e) => self.parse_expr(e, parent),
        }
    }

    /// Walks `ast` as a child of `parent`.
    pub fn parse_expr(&mut self, ast: &Expr, parent: Node)
        ensures
            final(self)@ == walk_expr(old(self)@, *ast, parent),
            final(self).graph.components == old(self).graph.components,
        decreases ast, 1nat,
    {
        let node: Node = ast.get_node();
        if self.checked_update(node, parent) {
            self.expand_expr(ast, node);
        }
    }

    fn expand_expr(&mut self, ast: &Expr, node: Node)
        ensures
            final(self)@ == walk_expr_children(old(self)@, *ast, node),
            final(self).graph.components == old(self).graph.components,
        decreases ast, 0nat,
    {
        match ast {
            Expr::Array(a) => self.parse_exprs(&a.elems, node),
            Expr::Assign(a) => {
                self.parse_expr(&a.left, node);
                self.parse_expr(&a.right, node);
            },
            Expr::AssignOp(a) => {
                self.parse_expr(&a.left, node);
                self.parse_expr(&a.right, node);
            },
            Expr::Block(b) => self.parse_block(&b.block, node),
            Expr::Break(b) => match &b.expr {
                Some(value) => self.parse_expr(value, node),
                None => {},
            },
            Expr::If(i) => {
                self.parse_block(&i.then_branch, node);
                match &i.else_branch {
                    Some(other) => self.parse_expr(other, node),
                    None => {},
                }
            },
            Expr::Other(_) => {},
        }
    }

    fn parse_exprs(&mut self, exprs: &Vec<Expr>, parent: Node)
        ensures
            final(self)@ == walk_exprs(old(self)@, exprs@, exprs@.len(), parent),
            final(self).graph.components == old(self).graph.components,
        decreases exprs, 0nat,
    {
        let mut i: usize = 0;
        while i < exprs.len()
            invariant
                i <= exprs.len(),
                self.graph.components == old(self).graph.components,
                self@ == walk_exprs(old(self)@, exprs@, i as nat, parent),
            decreases exprs.len() - i,
        {
            self.parse_expr(&exprs[i], parent);
            i += 1;
        }
    }

    pub fn connected_components(&self) -> (n: usize)
        ensures
            n == self@.components,
    {
        self.graph.connected_components()
    }

    pub fn nodes(&self) -> (n: usize)
        ensures
            n == self@.node_count(),
    {
        self.graph.node_count()
    }

    pub fn edges(&self) -> (n: usize)
        ensures
            n == self@.edge_count(),
    {
        self.graph.edge_count()
    }
}

/// McCabe's metric of the graph of `ast`.
pub fn calculate_complexity(ast: &SourceFile) -> (m: i128)
    ensures
        m == walk_file(*ast).complexity(),
{
    let ast_graph = ASTGraph::new(ast);
    ast_graph.graph.calculate_complexity()
}

/// What holds of a graph `h` that a walk has made of a graph `g`: the walk
/// counts no component, takes no vertex away, adds edges and no more new
/// vertices than edges, and keeps every edge between vertices of the graph.
pub open spec fn grown(g: GraphView, h: GraphView) -> bool {
    &&& h.components == g.components
    &&& g.vertices.subset_of(h.vertices)
    &&& h.vertices.finite()
    &&& g.edges.len() <= h.edges.len()
    &&& h.vertices.len() + g.edges.len() <= g.vertices.len() + h.edges.len()
    &&& h.closed()
}

/// A graph from which a walk may start at `parent`.
pub open spec fn ready(g: GraphView, parent: Node) -> bool {
    &&& g.closed()
    &&& g.vertices.finite()
    &&& g.vertices.contains(parent)
}

proof fn lemma_visit(g: GraphView, node: Node, parent: Node)
    requires
        ready(g, parent),
    ensures
        grown(g, visit(g, node, parent)),
        ready(visit(g, node, parent), node),
        visit(g, node, parent).edges.len() == g.edges.len() + 1,
{
    let h = visit(g, node, parent);
    assert forall|i: int| 0 <= i < h.edges.len() implies h.vertices.contains(
        (#[trigger] h.edges[i]).from,
    ) && h.vertices.contains(h.edges[i].to) by {}
}

proof fn lemma_walk_use_children(g: GraphView, tree: UseTree, parent: Node)
    requires
        ready(g, parent),
    ensures
        grown(g, walk_use_children(g, tree, parent)),
    decreases tree, 0nat,
{
    match tree {
        UseTree::Path(p) => lemma_walk_use_tree(g, *p.tree, parent),
        UseTree::Name(_) => {},
        UseTree::Rename(_) => {},
        UseTree::Glob => {},
        UseTree::Group(trees) => lemma_walk_use_trees(g, trees@, trees@.len(), parent),
    }
}

proof fn lemma_walk_use_tree(g: GraphView, tree: UseTree, parent: Node)
    requires
        ready(g, parent),
    ensures
        grown(g, walk_use_tree(g, tree, parent)),
        walk_use_tree(g, tree, parent).vertices.contains(tree.identity()),
        g.edges.len() < walk_use_tree(g, tree, parent).edges.len(),
    decreases tree, 1nat,
{
    let id = tree.identity();
    lemma_visit(g, id, parent);
    if !g.vertices.contains(id) {
        lemma_walk_use_children(visit(g, id, parent), tree, id);
    }
}

proof fn lemma_walk_use_trees(g: GraphView, trees: Seq<UseTree>, n: nat, parent: Node)
    requires
        ready(g, parent),
    ensures
        grown(g, walk_use_trees(g, trees, n, parent)),
    decreases trees, n,
{
    if 0 < n <= trees.len() {
        lemma_walk_use_trees(g, trees, (n - 1) as nat, parent);
        lemma_walk_use_tree(walk_use_trees(g, trees, (n - 1) as nat, parent), trees[n - 1], parent);
    }
}

proof fn lemma_walk_expr_children(g: GraphView, expr: Expr, parent: Node)
    requires
        ready(g, parent),
    ensures
        grown(g, walk_expr_children(g, expr, parent)),
    decreases expr, 0nat,
{
    match expr {
        Expr::Array(a) => lemma_walk_exprs(g, a.elems@, a.elems@.len(), parent),
        Expr::Assign(a) => {
            lemma_walk_expr(g, *a.left, parent);
            lemma_walk_expr(walk_expr(g, *a.left, parent), *a.right, parent);
        },
        Expr::AssignOp(a) => {
            lemma_walk_expr(g, *a.left, parent);
            lemma_walk_expr(walk_expr(g, *a.left, parent), *a.right, parent);
        },
        Expr::Block(b) => lemma_walk_block(g, b.block, parent),
        Expr::Break(b) => match b.expr {
            Some(value) => lemma_walk_expr(g, *value, parent),
            None => {},
        },
        Expr::If(i) => {
            lemma_walk_block(g, i.then_branch, parent);
            match i.else_branch {
                Some(other) => lemma_walk_expr(
                    walk_block(g, i.then_branch, parent),
                    *other,
                    parent,
                ),
                None => {},
            }
        },
        Expr::Other(_) => {},
    }
}

proof fn lemma_walk_expr(g: GraphView, expr: Expr, parent: Node)
    requires
        ready(g, parent),
    ensures
        grown(g, walk_expr(g, expr, parent)),
        walk_expr(g, expr, parent).vertices.contains(expr.identity()),
        g.edges.len() < walk_expr(g, expr, parent).edges.len(),
    decreases expr, 1nat,
{
    let id = expr.identity();
    lemma_visit(g, id, parent);
    if !g.vertices.contains(id) {
        lemma_walk_expr_children(visit(g, id, parent), expr, id);
    }
}

proof fn lemma_walk_exprs(g: GraphView, exprs: Seq<Expr>, n: nat, parent: Node)
    requires
        ready(g, parent),
    ensures
        grown(g, walk_exprs(g, exprs, n, parent)),
    decreases exprs, n,
{
    if 0 < n <= exprs.len() {
        lemma_walk_exprs(g, exprs, (n - 1) as nat, parent);
        lemma_walk_expr(walk_exprs(g, exprs, (n - 1) as nat, parent), exprs[n - 1], parent);
    }
}

proof fn lemma_walk_stmt(g: GraphView, stmt: Stmt, parent: Node)
    requires
        ready(g, parent),
    ensures
        grown(g, walk_stmt(g, stmt, parent)),
    decreases stmt, 0nat,
{
    match stmt {
        Stmt::Local(_) => lemma_visit(g, stmt.identity(), parent),
        Stmt::Item(_) => lemma_visit(g, stmt.identity(), parent),
        Stmt::Expr(e) => lemma_walk_expr(g, e, parent),
        Stmt::Semi(e) => lemma_walk_expr(g, e, parent),
    }
}

proof fn lemma_walk_stmts(g: GraphView, stmts: Seq<Stmt>, n: nat, parent: Node)
    requires
        ready(g, parent),
    ensures
        grown(g, walk_stmts(g, stmts, n, parent)),
    decreases stmts, n,
{
    if 0 < n <= stmts.len() {
        lemma_walk_stmts(g, stmts, (n - 1) as nat, parent);
        lemma_walk_stmt(walk_stmts(g, stmts, (n - 1) as nat, parent), stmts[n - 1], parent);
    }
}

proof fn lemma_walk_block(g: GraphView, block: Block, parent: Node)
    requires
        ready(g, parent),
    ensures
        grown(g, walk_block(g, block, parent)),
        walk_block(g, block, parent).vertices.contains(block.identity()),
        g.edges.len() < walk_block(g, block, parent).edges.len(),
    decreases block, 0nat,
{
    let id = block.identity();
    lemma_visit(g, id, parent);
    if !g.vertices.contains(id) {
        lemma_walk_stmts(visit(g, id, parent), block.stmts@, block.stmts@.len(), id);
    }
}

proof fn lemma_walk_item_children(g: GraphView, item: Item, parent: Node)
    requires
        ready(g, parent),
    ensures
        grown(g, walk_item_children(g, item, parent)),
    decreases item, 0nat,
{
    match item {
        Item::Use(u) => lemma_walk_use_children(g, u.tree, parent),
        Item::Static(v) => lemma_walk_expr(g, v.expr, parent),
        Item::Const(v) => lemma_walk_expr(g, v.expr, parent),
        Item::Fn(f) => lemma_walk_block(g, f.block, parent),
        Item::Mod(m) => lemma_walk_items(g, m.items@, m.items@.len(), parent),
        _ => {},
    }
}

proof fn lemma_walk_item(g: GraphView, item: Item, parent: Node)
    requires
        ready(g, parent),
    ensures
        grown(g, walk_item(g, item, parent)),
        walk_item(g, item, parent).vertices.contains(item.identity()),
        g.edges.len() < walk_item(g, item, parent).edges.len(),
    decreases item, 1nat,
{
    let id = item.identity();
    lemma_visit(g, id, parent);
    if !g.vertices.contains(id) {
        lemma_walk_item_children(visit(g, id, parent), item, id);
    }
}

proof fn lemma_walk_items(g: GraphView, items: Seq<Item>, n: nat, parent: Node)
    requires
        ready(g, parent),
    ensures
        grown(g, walk_items(g, items, n, parent)),
    decreases items, n,
{
    if 0 < n <= items.len() {
        lemma_walk_items(g, items, (n - 1) as nat, parent);
        lemma_walk_item(walk_items(g, items, (n - 1) as nat, parent), items[n - 1], parent);
    }
}

proof fn lemma_walk_top_items(g: GraphView, items: Seq<Item>, n: nat, root: Node)
    requires
        ready(g, root),
        n <= items.len(),
    ensures
        ({
            let h = walk_top_items(g, items, n, root);
            &&& ready(h, root)
            &&& h.components == g.components + n
            &&& g.edges.len() + n <= h.edges.len()
            &&& h.vertices.len() + g.edges.len() <= g.vertices.len() + h.edges.len()
        }),
    decreases n,
{
    if n > 0 {
        lemma_walk_top_items(g, items, (n - 1) as nat, root);
        let before = walk_top_items(g, items, (n - 1) as nat, root).add_component();
        lemma_walk_item(before, items[n - 1], root);
    }
}

/// Of every file, the graph keeps its edges between its vertices, has as
/// many components as the file has top-level items, at least one edge for
/// each of them, and at most one vertex more than it has edges. So the
/// complexity of a file of `n` items is at least `2n - 1`.
pub proof fn law_graph_of_file(file: SourceFile)
    ensures
        walk_file(file).closed(),
        walk_file(file).vertices.finite(),
        walk_file(file).vertices.contains(file.identity()),
        walk_file(file).components == file.items@.len(),
        walk_file(file).edge_count() >= file.items@.len(),
        walk_file(file).node_count() <= walk_file(file).edge_count() + 1,
        walk_file(file).complexity() >= 2 * file.items@.len() - 1,
{
    let start = GraphView::empty().register_vertex(file.identity());
    lemma_walk_top_items(start, file.items@, file.items@.len(), file.identity());
}

/// A file without items has the file itself for its one vertex, no edge and
/// no component: its complexity is -1.
pub proof fn law_empty_file(file: SourceFile)
    requires
        file.items@.len() == 0,
    ensures
        walk_file(file).node_count() == 1,
        walk_file(file).edge_count() == 0,
        walk_file(file).components == 0,
        walk_file(file).complexity() == -1,
{
}

/// The walk of an item whose identity is among the vertices already adds
/// the edge to it and nothing else: what was seen is not expanded again.
pub proof fn law_seen_item_is_not_expanded(g: GraphView, item: Item, parent: Node)
    requires
        g.vertices.contains(item.identity()),
    ensures
        walk_item(g, item, parent).edges == g.edges.push(
            crate::calculator::Edge { from: parent, to: item.identity() },
        ),
        walk_item(g, item, parent).vertices == g.vertices,
        walk_item(g, item, parent).components == g.components,
{
}

/// After the walk of an item its identity is among the vertices, so a
/// second walk of the same item, from any parent, adds one edge and no
/// vertex.
pub proof fn law_second_walk_adds_one_edge(g: GraphView, item: Item, first: Node, second: Node)
    requires
        ready(g, first),
    ensures
        walk_item(walk_item(g, item, first), item, second).edge_count() == walk_item(
            g,
            item,
            first,
        ).edge_count() + 1,
        walk_item(walk_item(g, item, first), item, second).vertices == walk_item(
            g,
            item,
            first,
        ).vertices,
{
    lemma_walk_item(g, item, first);
    law_seen_item_is_not_expanded(walk_item(g, item, first), item, second);
}

/// The graph of a file is a function of the file: two walks of the same
/// syntax give the same edges in the same order, the same vertices and the
/// same count of components.
pub proof fn law_same_file_same_graph(a: SourceFile, b: SourceFile)
    requires
        a == b,
    ensures
        walk_file(a) == walk_file(b),
        walk_file(a).complexity() == walk_file(b).complexity(),
{
}

/// How many segments a path has after its first.
pub open spec fn segments_below(tree: UseTree) -> nat
    decreases tree,
{
    match tree {
        UseTree::Path(p) => 1 + segments_below(*p.tree),
        _ => 0,
    }
}

/// Whether `tree` is one path, with no group in it.
pub open spec fn single_path(tree: UseTree) -> bool
    decreases tree,
{
    match tree {
        UseTree::Path(p) => single_path(*p.tree),
        UseTree::Group(_) => false,
        _ => true,
    }
}

/// Whether the identity of every segment of `tree` after the first is
/// absent from `seen` and from the segments before it.
pub open spec fn unseen_below(seen: Set<Node>, tree: UseTree) -> bool
    decreases tree,
{
    match tree {
        UseTree::Path(p) => !seen.contains(p.tree.identity()) && unseen_below(
            seen.insert(p.tree.identity()),
            *p.tree,
        ),
        _ => true,
    }
}

/// Below the first segment of a path, every further segment adds exactly
/// one edge and one vertex, as long as none of them was seen before.
pub proof fn law_use_path_is_a_chain(g: GraphView, tree: UseTree, parent: Node)
    requires
        g.vertices.finite(),
        single_path(tree),
        unseen_below(g.vertices, tree),
    ensures
        walk_use_children(g, tree, parent).edge_count() == g.edge_count() + segments_below(tree),
        walk_use_children(g, tree, parent).node_count() == g.node_count() + segments_below(tree),
        walk_use_children(g, tree, parent).components == g.components,
    decreases tree,
{
    match tree {
        UseTree::Path(p) => {
            let id = p.tree.identity();
            law_use_path_is_a_chain(visit(g, id, parent), *p.tree, id);
        },
        _ => {},
    }
}

/// A file that holds one `use` of one path has two vertices, the file and
/// the `use`, and one edge between them; every segment of the path after
/// the first adds one vertex and one edge. This holds as long as the file,
/// the `use` and the segments all have different identities.
pub proof fn law_file_of_one_use(file: SourceFile, u: ItemUse)
    requires
        file.items@.len() == 1,
        file.items@[0] == Item::Use(u),
        single_path(u.tree),
        file.identity() != Item::Use(u).identity(),
        unseen_below(set![file.identity(), Item::Use(u).identity()], u.tree),
    ensures
        walk_file(file).node_count() == 2 + segments_below(u.tree),
        walk_file(file).edge_count() == 1 + segments_below(u.tree),
        walk_file(file).components == 1,
{
    let root = file.identity();
    let item = Item::Use(u);
    let id = item.identity();
    let start = GraphView::empty().register_vertex(root);
    assert(walk_top_items(start, file.items@, 0, root) == start);
    let counted = start.add_component();
    let visited = visit(counted, id, root);
    assert(walk_file(file) == walk_item(counted, item, root));
    assert(walk_item(counted, item, root) == walk_use_children(visited, u.tree, id));
    assert(visited.vertices =~= set![root, id]);
    law_use_path_is_a_chain(visited, u.tree, id);
}

/// With one more segment in the path of its one `use`, a file has one
/// vertex and one edge more and as many components, as long as no two
/// pieces of either file have the same identity.
pub proof fn law_one_more_segment(shorter: SourceFile, u: ItemUse, longer: SourceFile, v: ItemUse)
    requires
        shorter.items@.len() == 1,
        shorter.items@[0] == Item::Use(u),
        single_path(u.tree),
        shorter.identity() != Item::Use(u).identity(),
        unseen_below(set![shorter.identity(), Item::Use(u).identity()], u.tree),
        longer.items@.len() == 1,
        longer.items@[0] == Item::Use(v),
        single_path(v.tree),
        longer.identity() != Item::Use(v).identity(),
        unseen_below(set![longer.identity(), Item::Use(v).identity()], v.tree),
        segments_below(v.tree) == segments_below(u.tree) + 1,
    ensures
        walk_file(longer).node_count() == walk_file(shorter).node_count() + 1,
        walk_file(longer).edge_count() == walk_file(shorter).edge_count() + 1,
        walk_file(longer).components == walk_file(shorter).components,
{
    law_file_of_one_use(shorter, u);
    law_file_of_one_use(longer, v);
}


} // verus!
