use cyclomatic_complexity::parsers::rust_parser::{
    ComplexityNode, ComplexityNodeKind, ComplexityTree,
};
use cyclomatic_complexity::report::{display, display_complexity, path_to, put_decimal};

fn line_leaf(name: &str, kind: ComplexityNodeKind, complexity: usize) -> ComplexityNode {
    ComplexityNode { name: name.to_string(), kind, complexity, children: vec![] }
}

fn tree() -> ComplexityTree {
    ComplexityTree {
        root: ComplexityNode {
            name: "src/a.rs".to_string(),
            kind: ComplexityNodeKind::File,
            complexity: 0,
            children: vec![
                line_leaf("free", ComplexityNodeKind::Fn, 12),
                ComplexityNode {
                    name: "Foo".to_string(),
                    kind: ComplexityNodeKind::Impl,
                    complexity: 0,
                    children: vec![
                        line_leaf("bar", ComplexityNodeKind::Method, 0),
                        line_leaf("baz", ComplexityNodeKind::Method, 3),
                    ],
                },
            ],
        },
    }
}

#[test]
fn report_has_header_lines_of_leaves_and_blank_line() {
    let should_be = "File: src/a.rs\n\
                     [File: src/a.rs > Fn: free] Complexity => 12\n\
                     [File: src/a.rs > Impl: Foo > Method: bar] Complexity => 0\n\
                     [File: src/a.rs > Impl: Foo > Method: baz] Complexity => 3\n\
                     \n";
    assert_eq!(display_complexity(&tree()), should_be);
}

#[test]
fn report_of_an_empty_file_is_header_and_blank_line() {
    let empty = ComplexityTree { root: line_leaf("e.rs", ComplexityNodeKind::File, 0) };
    assert_eq!(display_complexity(&empty), "File: e.rs\n\n");
}

#[test]
fn impl_without_methods_is_a_leaf() {
    let t = ComplexityTree {
        root: ComplexityNode {
            name: "f".to_string(),
            kind: ComplexityNodeKind::File,
            complexity: 0,
            children: vec![line_leaf("Empty", ComplexityNodeKind::Impl, 0)],
        },
    };
    assert_eq!(display_complexity(&t), "File: f\n[File: f > Impl: Empty] Complexity => 0\n\n");
}

#[test]
fn display_appends_the_lines_of_a_node() {
    let mut out = String::from(">");
    display(&line_leaf("f", ComplexityNodeKind::Fn, 7), "", &mut out);
    assert_eq!(out, ">[Fn: f] Complexity => 7\n");
    let mut nested = String::new();
    display(&tree().root.children[1], "X", &mut nested);
    assert_eq!(
        nested,
        "[X > Impl: Foo > Method: bar] Complexity => 0\n[X > Impl: Foo > Method: baz] Complexity => 3\n"
    );
}

#[test]
fn path_grows_by_one_step() {
    let node = line_leaf("m", ComplexityNodeKind::Method, 0);
    assert_eq!(path_to(&node, ""), "Method: m");
    assert_eq!(path_to(&node, "Impl: T"), "Impl: T > Method: m");
}

#[test]
fn numbers_are_written_in_decimal() {
    for n in [0usize, 7, 9, 10, 11, 99, 100, 1234567890, usize::MAX] {
        let mut out = String::from("n=");
        put_decimal(&mut out, n);
        assert_eq!(out, format!("n={}", n));
    }
}
