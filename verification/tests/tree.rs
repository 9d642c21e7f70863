use cyclomatic_complexity::parsers::error::ParseErrorKind;
use cyclomatic_complexity::parsers::rust_parser::{
    get_impl_resolved_name, process_file, process_impl_item_method, process_item_fn,
    process_item_impl, ComplexityNode, ComplexityNodeKind, ComplexityTree,
};
use cyclomatic_complexity::syntax::{
    Block, Expr, ExprIf, ImplItem, ImplItemMethod, Item, ItemFn, ItemImpl, ItemMod, SourceFile,
    Stmt, Type, TypePath,
};

fn ifs(n: usize) -> Block {
    let mut stmts = vec![];
    for i in 0..n {
        stmts.push(Stmt::Expr(Expr::If(ExprIf {
            digest: 0,
            cond: Box::new(Expr::Other(i as u64)),
            then_branch: Block { stmts: vec![] },
            else_branch: None,
        })));
    }
    Block { stmts }
}

fn a_function(name: &str, decisions: usize) -> ItemFn {
    ItemFn { digest: 0, name: name.to_string(), block: ifs(decisions) }
}

fn method(name: &str, decisions: usize) -> ImplItem {
    ImplItem::Method(ImplItemMethod { digest: 0, name: name.to_string(), block: ifs(decisions) })
}

fn type_path(segments: &[&str]) -> Type {
    Type::Path(TypePath { digest: 0, segments: segments.iter().map(|s| s.to_string()).collect() })
}

fn an_impl(self_ty: Type, items: Vec<ImplItem>) -> ItemImpl {
    ItemImpl { digest: 0, self_ty, items }
}

fn a_leaf(name: &str, kind: ComplexityNodeKind, complexity: usize) -> ComplexityNode {
    ComplexityNode { name: name.to_string(), kind, complexity, children: vec![] }
}

#[test]
fn free_function_and_method_are_two_leaves() {
    let file = SourceFile {
        digest: 0,
        items: vec![
            Item::Fn(a_function("free", 2)),
            Item::Impl(an_impl(type_path(&["Foo"]), vec![method("bar", 1)])),
        ],
    };
    let tree = ComplexityTree::generate(&file, "src/a.rs".to_string()).unwrap();
    let should_be = ComplexityNode {
        name: "src/a.rs".to_string(),
        kind: ComplexityNodeKind::File,
        complexity: 0,
        children: vec![
            a_leaf("free", ComplexityNodeKind::Fn, 2),
            ComplexityNode {
                name: "Foo".to_string(),
                kind: ComplexityNodeKind::Impl,
                complexity: 0,
                children: vec![a_leaf("bar", ComplexityNodeKind::Method, 1)],
            },
        ],
    };
    assert_eq!(tree.root, should_be);
}

#[test]
fn sibling_methods_are_counted_apart() {
    let file = SourceFile {
        digest: 0,
        items: vec![Item::Impl(ItemImpl {
            digest: 0,
            self_ty: type_path(&["a", "Foo"]),
            items: vec![method("one", 3), ImplItem::Other(9), method("two", 0), method("three", 1)],
        })],
    };
    let tree = ComplexityTree::generate(&file, "f".to_string()).unwrap();
    assert_eq!(tree.root.children.len(), 1);
    let node = &tree.root.children[0];
    assert_eq!(node.name, "a");
    assert_eq!(
        node.children,
        vec![
            a_leaf("one", ComplexityNodeKind::Method, 3),
            a_leaf("two", ComplexityNodeKind::Method, 0),
            a_leaf("three", ComplexityNodeKind::Method, 1),
        ]
    );
}

#[test]
fn other_items_leave_no_trace() {
    let file = SourceFile {
        digest: 0,
        items: vec![
            Item::Struct(1),
            Item::Mod(ItemMod {
                digest: 0,
                name: "m".to_string(),
                items: vec![Item::Fn(a_function("inner", 1))],
            }),
            Item::Trait(2),
            Item::Fn(a_function("f", 0)),
            Item::Macro(3),
        ],
    };
    let tree = ComplexityTree::generate(&file, "f".to_string()).unwrap();
    assert_eq!(tree.root.children, vec![a_leaf("f", ComplexityNodeKind::Fn, 0)]);
}

#[test]
fn empty_file_is_a_root_without_children() {
    let file = SourceFile { digest: 0, items: vec![] };
    let tree = ComplexityTree::generate(&file, "e".to_string()).unwrap();
    assert_eq!(tree.root, a_leaf("e", ComplexityNodeKind::File, 0));
}

#[test]
fn impl_for_a_type_without_a_name_is_an_error() {
    let file = SourceFile {
        digest: 0,
        items: vec![
            Item::Fn(a_function("f", 0)),
            Item::Impl(an_impl(Type::Other(5), vec![method("m", 1)])),
        ],
    };
    let err = ComplexityTree::generate(&file, "f".to_string()).unwrap_err();
    assert_eq!(err.kind, ParseErrorKind::NoMatches);
    assert_eq!(err.msg, Some("Identifier not found for impl".to_string()));
    assert_eq!(err.index, None);
    assert_eq!(err.source, None);
}

#[test]
fn impl_for_an_empty_path_is_an_error() {
    let item = an_impl(type_path(&[]), vec![]);
    assert_eq!(get_impl_resolved_name(&item).unwrap_err().kind, ParseErrorKind::NoMatches);
    assert_eq!(
        get_impl_resolved_name(&an_impl(type_path(&["X", "Y"]), vec![])).unwrap(),
        "X"
    );
}

#[test]
fn process_file_stops_at_the_first_error() {
    let file = SourceFile {
        digest: 0,
        items: vec![
            Item::Fn(a_function("before", 1)),
            Item::Impl(an_impl(Type::Other(5), vec![])),
            Item::Fn(a_function("after", 1)),
        ],
    };
    let mut root = ComplexityNode::new("r".to_string(), ComplexityNodeKind::File);
    assert!(process_file(&file, &mut root).is_err());
    assert_eq!(root.children, vec![a_leaf("before", ComplexityNodeKind::Fn, 1)]);
}

#[test]
fn process_functions_put_nodes_below_the_parent() {
    let mut parent = ComplexityNode::new("p".to_string(), ComplexityNodeKind::File);
    process_item_fn(&a_function("f", 2), &mut parent);
    process_impl_item_method(
        &ImplItemMethod { digest: 0, name: "m".to_string(), block: ifs(1) },
        &mut parent,
    );
    assert!(process_item_impl(
        &an_impl(type_path(&["T"]), vec![]),
        &mut parent
    )
    .is_ok());
    assert!(process_item_impl(&an_impl(Type::Other(1), vec![]), &mut parent)
        .is_err());
    assert_eq!(
        parent.children,
        vec![
            a_leaf("f", ComplexityNodeKind::Fn, 2),
            a_leaf("m", ComplexityNodeKind::Method, 1),
            a_leaf("T", ComplexityNodeKind::Impl, 0),
        ]
    );
}

#[test]
fn node_builders() {
    let mut node =
        ComplexityNode::new("n".to_string(), ComplexityNodeKind::Impl).with_complexity(4);
    assert_eq!(node, a_leaf("n", ComplexityNodeKind::Impl, 4));
    node.add_child(a_leaf("a", ComplexityNodeKind::Method, 1));
    node.add_child(a_leaf("b", ComplexityNodeKind::Method, 2));
    assert_eq!(node.children.len(), 2);
    assert_eq!(node.children[1].name, "b");
    assert_eq!(node.complexity, 4);
}

#[test]
fn kinds_are_shown_by_their_names() {
    assert_eq!(ComplexityNodeKind::Fn.to_string(), "Fn");
    assert_eq!(ComplexityNodeKind::Method.to_string(), "Method");
    assert_eq!(ComplexityNodeKind::Impl.to_string(), "Impl");
    assert_eq!(ComplexityNodeKind::File.to_string(), "File");
}

#[test]
fn generating_twice_gives_the_same_tree() {
    let file = SourceFile {
        digest: 0,
        items: vec![
            Item::Fn(a_function("free", 2)),
            Item::Impl(an_impl(type_path(&["Foo"]), vec![method("bar", 1)])),
        ],
    };
    let first = ComplexityTree::generate(&file, "x".to_string()).unwrap();
    let second = ComplexityTree::generate(&file, "x".to_string()).unwrap();
    assert_eq!(first, second);
}
