//! The report of a complexity tree: a header with the file, one line for
//! every leaf of the tree, and an empty line at the end.
//!
//! A line holds, between square brackets, the path from the root to the
//! leaf, then ` Complexity => ` and the complexity of the leaf.
use vstd::prelude::*;
use vstd::string::StringExecFns;

use crate::parsers::rust_parser::{ComplexityNode, ComplexityNodeView, ComplexityTree};

verus! {

/// The character of a decimal digit.
pub open spec fn digit(d: nat) -> char {
    if d == 0 {
        '0'
    } else if d == 1 {
        '1'
    } else if d == 2 {
        '2'
    } else if d == 3 {
        '3'
    } else if d == 4 {
        '4'
    } else if d == 5 {
        '5'
    } else if d == 6 {
        '6'
    } else if d == 7 {
        '7'
    } else if d == 8 {
        '8'
    } else {
        '9'
    }
}

/// A number in decimal, without leading zeros.
pub open spec fn decimal(n: nat) -> Seq<char>
    decreases n,
{
    if n < 10 {
        seq![digit(n)]
    } else {
        decimal(n / 10).push(digit(n % 10))
    }
}

/// The path `path` with one more step, to `node`: steps are `Kind: name` and
/// stand ` > ` apart.
pub open spec fn step(path: Seq<char>, node: ComplexityNodeView) -> Seq<char> {
    let here = node.kind.label() + ": "@ + node.name;
    if path.len() == 0 {
        here
    } else {
        path + " > "@ + here
    }
}

/// The lines of `node`, which is reached by `path`: its own line where it
/// has no children, else the lines of its children.
pub open spec fn lines(node: ComplexityNodeView, path: Seq<char>) -> Seq<char>
    decreases node,
{
    if node.children.len() == 0 {
        "["@ + step(path, node) + "] Complexity => "@ + decimal(node.complexity as nat) + "\n"@
    } else {
        lines_of(node.children, node.children.len(), step(path, node))
    }
}

/// The lines of the first `n` of `nodes`, in order, each reached by `path`.
pub open spec fn lines_of(nodes: Seq<ComplexityNodeView>, n: nat, path: Seq<char>) -> Seq<char>
    decreases nodes, n,
{
    if n == 0 || n > nodes.len() {
        Seq::empty()
    } else {
        lines_of(nodes, (n - 1) as nat, path) + lines(nodes[n - 1], path)
    }
}

/// The whole report of the tree with root `root`.
pub open spec fn report(root: ComplexityNodeView) -> Seq<char> {
    step(Seq::empty(), root) + "\n"@ + lines_of(
        root.children,
        root.children.len(),
        step(Seq::empty(), root),
    ) + "\n"@
}

fn digit_text(d: usize) -> (s: &'static str)
    requires
        d < 10,
    ensures
        s@ == seq![digit(d as nat)],
{
    proof {
        reveal_strlit("0");
        reveal_strlit("1");
        reveal_strlit("2");
        reveal_strlit("3");
        reveal_strlit("4");
        reveal_strlit("5");
        reveal_strlit("6");
        reveal_strlit("7");
        reveal_strlit("8");
        reveal_strlit("9");
    }
    let s: &'static str = if d == 0 {
        "0"
    } else if d == 1 {
        "1"
    } else if d == 2 {
        "2"
    } else if d == 3 {
        "3"
    } else if d == 4 {
        "4"
    } else if d == 5 {
        "5"
    } else if d == 6 {
        "6"
    } else if d == 7 {
        "7"
    } else if d == 8 {
        "8"
    } else {
        "9"
    };
    s
}

/// Appends `n` in decimal to `out`.
pub fn put_decimal(out: &mut String, n: usize)
    ensures
        final(out)@ == old(out)@ + decimal(n as nat),
    decreases n,
{
    if n >= 10 {
        put_decimal(out, n / 10);
    }
    out.append(digit_text(n % 10));
}

/// The path `path` with one more step, to `node`.
pub fn path_to(node: &ComplexityNode, path: &str) -> (here: String)
    ensures
        here@ == step(path@, node@),
{
    let mut here: String = path.to_owned();
    if path.unicode_len() > 0 {
        here.append(" > ");
    }
    let kind: String = node.kind.to_string();
    here.append(kind.as_str());
    here.append(": ");
    here.append(node.name.as_str());
    here
}

/// Appends the lines of `node`, which is reached by `path`, to `out`.
pub fn display(node: &ComplexityNode, path: &str, out: &mut String)
    ensures
        final(out)@ == old(out)@ + lines(node@, path@),
    decreases node,
{
    let here: String = path_to(node, path);
    if node.children.len() == 0 {
        out.append("[");
        out.append(here.as_str());
        out.append("] Complexity => ");
        put_decimal(out, node.complexity);
        out.append("\n");
    } else {
        let mut i: usize = 0;
        while i < node.children.len()
            invariant
                i <= node.children.len(),
                here@ == step(path@, node@),
                out@ == old(out)@ + lines_of(node@.children, i as nat, here@),
            decreases node.children.len() - i,
        {
            display(&node.children[i], here.as_str(), out);
            i += 1;
        }
    }
}

/// The report of `tree`.
pub fn display_complexity(tree: &ComplexityTree) -> (text: String)
    ensures
        text@ == report(tree.root@),
{
    let header: String = path_to(&tree.root, "");
    proof {
        reveal_strlit("");
    }
    let mut text: String = header.clone();
    text.append("\n");
    let mut i: usize = 0;
    while i < tree.root.children.len()
        invariant
            i <= tree.root.children.len(),
            header@ == step(Seq::empty(), tree.root@),
            text@ == header@ + "\n"@ + lines_of(tree.root@.children, i as nat, header@),
        decreases tree.root.children.len() - i,
    {
        display(&tree.root.children[i], header.as_str(), &mut text);
        i += 1;
    }
    text.append("\n");
    text
}

} // verus!
