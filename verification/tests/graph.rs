use cyclomatic_complexity::calculator::{calculate, Edge, Graph, Parser};
use cyclomatic_complexity::cyclomatic::{calculate_complexity, ASTGraph};
use cyclomatic_complexity::syntax::{
    Block, Expr, ExprArray, ExprAssign, ExprBlock, ExprBreak, ExprIf, Item, ItemFn, ItemMod,
    ItemUse, ItemValue, SourceFile, Stmt, UsePath, UseTree,
};

fn name(s: &str) -> UseTree {
    UseTree::Name(s.to_string())
}

fn path(s: &str, tree: UseTree) -> UseTree {
    UseTree::Path(UsePath { ident: s.to_string(), tree: Box::new(tree) })
}

fn use_item(tree: UseTree) -> Item {
    Item::Use(ItemUse { digest: 0, tree })
}

fn function(name: &str, stmts: Vec<Stmt>) -> Item {
    Item::Fn(ItemFn { digest: 0, name: name.to_string(), block: Block { stmts } })
}

fn counts(file: &SourceFile) -> (usize, usize, usize) {
    let g = ASTGraph::new(file);
    (g.nodes(), g.edges(), g.connected_components())
}

fn check_invariants(file: &SourceFile) {
    let g = ASTGraph::new(file);
    for e in g.graph.edges.iter() {
        assert!(g.graph.vertices.contains(&e.from));
        assert!(g.graph.vertices.contains(&e.to));
    }
    assert!(g.graph.vertices.contains(&file.get_node()));
    assert_eq!(g.connected_components(), file.items.len());
    assert!(g.nodes() <= g.edges() + 1);
    assert!(g.edges() >= file.items.len());
    assert_eq!(g.nodes(), g.graph.vertices.len());
    assert_eq!(g.edges(), g.graph.edges.len());
}

#[test]
fn empty_file_has_one_vertex_and_complexity_minus_one() {
    let file = SourceFile { digest: 0, items: vec![] };
    assert_eq!(counts(&file), (1, 0, 0));
    assert_eq!(calculate_complexity(&file), -1);
    check_invariants(&file);
}

#[test]
fn use_of_one_segment() {
    let file = SourceFile { digest: 0, items: vec![use_item(name("a"))] };
    assert_eq!(counts(&file), (2, 1, 1));
    assert_eq!(calculate_complexity(&file), 1);
    let g = ASTGraph::new(&file);
    assert_eq!(
        g.graph.edges,
        vec![Edge { from: file.get_node(), to: file.items[0].get_node() }]
    );
}

#[test]
fn use_of_two_segments() {
    let file = SourceFile { digest: 0, items: vec![use_item(path("a", name("b")))] };
    assert_eq!(counts(&file), (3, 2, 1));
    let g = ASTGraph::new(&file);
    assert_eq!(
        g.graph.edges,
        vec![
            Edge { from: file.get_node(), to: file.items[0].get_node() },
            Edge { from: file.items[0].get_node(), to: name("b").get_node() },
        ]
    );
}

#[test]
fn use_of_three_segments() {
    let file = SourceFile { digest: 0, items: vec![use_item(path("a", path("b", name("c"))))] };
    assert_eq!(counts(&file), (4, 3, 1));
    check_invariants(&file);
}

#[test]
fn every_further_segment_adds_one_node_and_one_edge() {
    let mut tree = name("last");
    for depth in 0..20 {
        let file = SourceFile { digest: 0, items: vec![use_item(path("a", tree))] };
        assert_eq!(counts(&file), (3 + depth, 2 + depth, 1));
        tree = match file.items.into_iter().next() {
            Some(Item::Use(u)) => u.tree,
            _ => unreachable!(),
        };
    }
}

#[test]
fn two_independent_uses() {
    let file = SourceFile {
        digest: 0,
        items: vec![use_item(name("a")), use_item(path("a", name("b")))],
    };
    assert_eq!(counts(&file), (4, 3, 2));
    assert_eq!(calculate_complexity(&file), 3 - 4 + 2 * 2);
    check_invariants(&file);
}

#[test]
fn use_group_and_leaves_of_use_trees() {
    let group = UseTree::Group(vec![name("b"), UseTree::Glob, path("c", name("d"))]);
    let file = SourceFile { digest: 0, items: vec![use_item(path("a", group))] };
    // file, item, group, b, *, c::d, d
    assert_eq!(counts(&file), (7, 6, 1));
    check_invariants(&file);
}

#[test]
fn item_seen_before_adds_an_edge_and_is_not_expanded() {
    let file = SourceFile {
        digest: 0,
        items: vec![use_item(path("a", name("b"))), use_item(path("a", name("b")))],
    };
    assert_eq!(counts(&file), (3, 3, 2));
    assert_eq!(calculate_complexity(&file), 3 - 3 + 4);
    check_invariants(&file);
}

#[test]
fn segment_seen_before_adds_an_edge_and_no_vertex() {
    let file = SourceFile {
        digest: 0,
        items: vec![use_item(path("b", name("c"))), use_item(path("a", path("b", name("c"))))],
    };
    // file, use b::c, c, use a::b::c, b::c; five edges
    assert_eq!(counts(&file), (5, 5, 2));
    check_invariants(&file);
}

#[test]
fn leaf_items_add_their_own_vertex_only() {
    let file = SourceFile {
        digest: 0,
        items: vec![
            Item::ExternCrate(1),
            Item::ForeignMod(2),
            Item::Type(3),
            Item::Struct(4),
            Item::Enum(5),
            Item::Union(6),
            Item::Trait(7),
            Item::TraitAlias(8),
            Item::Macro(9),
            Item::Macro2(10),
            Item::Verbatim(11),
        ],
    };
    assert_eq!(counts(&file), (12, 11, 11));
    assert_eq!(calculate_complexity(&file), 11 - 12 + 22);
    check_invariants(&file);
}

#[test]
fn module_is_walked_into() {
    let inner = Item::Mod(ItemMod {
        digest: 0,
        name: "inner".to_string(),
        items: vec![Item::Struct(1)],
    });
    let file = SourceFile {
        digest: 0,
        items: vec![Item::Mod(ItemMod {
            digest: 0,
            name: "outer".to_string(),
            items: vec![inner, Item::Enum(2)],
        })],
    };
    // file, outer, inner, struct, enum
    assert_eq!(counts(&file), (5, 4, 1));
    check_invariants(&file);
}

#[test]
fn function_body_is_walked_into() {
    let body = vec![
        Stmt::Local(1),
        Stmt::Item(2),
        Stmt::Semi(Expr::Other(3)),
        Stmt::Expr(Expr::If(ExprIf {
            digest: 0,
            cond: Box::new(Expr::Other(4)),
            then_branch: Block { stmts: vec![Stmt::Expr(Expr::Other(5))] },
            else_branch: Some(Box::new(Expr::Block(ExprBlock {
                digest: 0,
                block: Block { stmts: vec![] },
            }))),
        })),
    ];
    let file = SourceFile { digest: 0, items: vec![function("f", body)] };
    // file, fn, body, let, item, 3, if, then block, 5, else expr, else block
    assert_eq!(counts(&file), (11, 10, 1));
    check_invariants(&file);
}

#[test]
fn static_and_const_walk_their_value() {
    let value = || {
        Expr::Array(ExprArray {
            digest: 0,
            elems: vec![
                Expr::Assign(ExprAssign {
                    digest: 0,
                    left: Box::new(Expr::Other(1)),
                    right: Box::new(Expr::Other(2)),
                }),
                Expr::Break(ExprBreak {
                    digest: 0,
                    label: None,
                    expr: Some(Box::new(Expr::Other(3))),
                }),
            ],
        })
    };
    let file = SourceFile {
        digest: 0,
        items: vec![
            Item::Static(ItemValue { digest: 1, expr: value() }),
            Item::Const(ItemValue { digest: 1, expr: value() }),
        ],
    };
    // file, static, array, assign, 1, 2, break, 3, const; the array is seen
    // again below the const
    assert_eq!(counts(&file), (9, 9, 2));
    check_invariants(&file);
}

#[test]
fn walking_twice_gives_the_same_graph() {
    let file = SourceFile {
        digest: 0,
        items: vec![use_item(path("a", name("b"))), function("f", vec![Stmt::Local(1)])],
    };
    let first = ASTGraph::new(&file);
    let second = ASTGraph::new(&file);
    assert_eq!(first.graph.edges, second.graph.edges);
    assert_eq!(first.graph.vertices, second.graph.vertices);
    assert_eq!(first.connected_components(), second.connected_components());
    assert_eq!(calculate_complexity(&file), calculate_complexity(&file));
}

#[test]
fn checked_update_counts_every_edge_and_tells_new_vertices() {
    let mut g = ASTGraph::new(&SourceFile { digest: 0, items: vec![] });
    assert!(g.checked_update(7, 1));
    assert!(!g.checked_update(7, 2));
    assert!(g.checked_update(8, 7));
    assert_eq!(g.edges(), 3);
    assert_eq!(g.nodes(), 3);
    assert_eq!(
        g.graph.edges,
        vec![Edge { from: 1, to: 7 }, Edge { from: 2, to: 7 }, Edge { from: 7, to: 8 }]
    );
}

#[test]
fn second_walk_of_an_item_adds_one_edge() {
    let file = SourceFile { digest: 0, items: vec![] };
    let item = use_item(path("a", path("b", name("c"))));
    let mut g = ASTGraph::new(&file);
    g.parse_item(&item, file.get_node());
    let (nodes, edges) = (g.nodes(), g.edges());
    assert_eq!((nodes, edges), (4, 3));
    g.parse_item(&item, 99);
    assert_eq!((g.nodes(), g.edges()), (nodes, edges + 1));
    assert_eq!(g.connected_components(), 0);
}

#[test]
fn graph_of_edges() {
    let g = Graph::new(vec![Edge::from((1, 2)), Edge::from((2, 3)), Edge::from((1, 2))]);
    assert_eq!(g.edge_count(), 3);
    assert_eq!(g.node_count(), 3);
    assert_eq!(g.connected_components(), 1);
    assert_eq!(g.calculate_complexity(), 3 - 3 + 2);
    assert_eq!(Edge::from((4, 5)), Edge { from: 4, to: 5 });
}

#[test]
fn graph_of_a_file_with_one_item_given_by_its_edges() {
    let g = Graph::new(vec![Edge::from((0, 1)), Edge::from((1, 2))]);
    assert_eq!(g.edge_count(), 2);
    assert_eq!(g.node_count(), 3);
    assert_eq!(g.connected_components(), 1);
    assert_eq!(g.calculate_complexity(), 1);
}

#[test]
fn graph_of_edges_counts_the_vertices_that_no_edge_leaves() {
    let none = Graph::new(vec![]);
    assert_eq!(none.connected_components(), 0);
    assert_eq!(none.calculate_complexity(), 0);
    let fan = Graph::new(vec![
        Edge::from((0, 1)),
        Edge::from((1, 2)),
        Edge::from((1, 3)),
        Edge::from((1, 4)),
        Edge::from((2, 5)),
    ]);
    assert_eq!(fan.connected_components(), 3);
    assert_eq!(fan.calculate_complexity(), 5 - 6 + 2 * 3);
    let ring = Graph::new(vec![Edge::from((1, 2)), Edge::from((2, 1))]);
    assert_eq!(ring.connected_components(), 0);
    assert_eq!(ring.calculate_complexity(), 2 - 2);
    let own = Graph::new(vec![Edge::from((7, 7))]);
    assert_eq!(own.connected_components(), 0);
    assert_eq!(own.node_count(), 1);
}

#[test]
fn graph_model_operations() {
    let mut g = Graph::new(vec![]);
    assert_eq!(g.calculate_complexity(), 0);
    assert!(g.register_vertex(1));
    assert!(!g.register_vertex(1));
    assert!(g.register_vertex(2));
    g.add_edge(1, 2);
    g.add_edge(1, 2);
    g.add_edge(2, 2);
    g.add_component();
    assert_eq!(g.edge_count(), 3);
    assert_eq!(g.node_count(), 2);
    assert_eq!(g.connected_components(), 1);
    assert_eq!(g.calculate_complexity(), 3 - 2 + 2);
}

#[test]
fn complexity_may_be_negative() {
    let mut g = Graph::new(vec![]);
    for id in 0..5 {
        g.register_vertex(id);
    }
    assert_eq!(g.calculate_complexity(), -5);
}

struct Fixed {
    calls: usize,
}

impl Parser for Fixed {
    fn parse(&mut self, file: String) -> Graph {
        self.calls += 1;
        let mut g = Graph::new(vec![Edge::from((1, 2))]);
        if file == "two" {
            g.add_component();
            g.add_component();
        }
        g
    }
}

#[test]
fn calculate_is_the_complexity_of_the_parsed_graph() {
    assert_eq!(calculate("one".to_string(), Fixed { calls: 0 }), 1 - 2 + 2);
    assert_eq!(calculate("two".to_string(), Fixed { calls: 0 }), 1 - 2 + 2 * 3);
}

struct FromEdges;

impl Parser for FromEdges {
    fn parse(&mut self, _file: String) -> Graph {
        Graph::new(vec![(0, 1).into(), (1, 2).into()])
    }
}

#[test]
fn calculate_on_a_graph_made_from_edges() {
    assert_eq!(calculate("any".to_string(), FromEdges), 1);
}
