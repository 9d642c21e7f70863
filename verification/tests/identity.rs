use cyclomatic_complexity::identity::get_node;
use cyclomatic_complexity::syntax::{
    AssignOperator, Block, Expr, ExprArray, ExprAssign, ExprAssignOp, ExprBlock, ExprBreak,
    ExprIf, ImplItem, ImplItemMethod, Item,
    ItemFn, ItemImpl, ItemMod, ItemUse, ItemValue, SourceFile, Stmt, Type, TypePath, UsePath,
    UseRename, UseTree,
};
use std::collections::hash_map::DefaultHasher;
use std::hash::Hasher;

fn use_name(s: &str) -> UseTree {
    UseTree::Name(s.to_string())
}

fn encoded_use(tree: &UseTree) -> Vec<u8> {
    let mut out = vec![];
    tree.encode(&mut out);
    out
}

#[test]
fn hashing_the_same_bytes_twice_gives_the_same_identity() {
    assert_eq!(get_node(b"abc"), get_node(b"abc"));
    assert_ne!(get_node(b"abc"), get_node(b"abd"));
    assert_ne!(get_node(b""), get_node(b"\0"));
}

#[test]
fn identity_is_the_default_hash_of_one_write() {
    let mut hasher = DefaultHasher::new();
    hasher.write(b"some bytes");
    assert_eq!(get_node(b"some bytes"), hasher.finish());
}

#[test]
fn identity_of_a_node_is_the_hash_of_its_encoding() {
    let tree = UseTree::Path(UsePath { ident: "a".to_string(), tree: Box::new(use_name("b")) });
    assert_eq!(tree.get_node(), get_node(&encoded_use(&tree)));
}

#[test]
fn same_content_has_the_same_identity() {
    let make = || {
        Item::Fn(ItemFn {
            digest: 0,
            name: "f".to_string(),
            block: Block { stmts: vec![Stmt::Local(1), Stmt::Expr(Expr::Other(2))] },
        })
    };
    assert_eq!(make().get_node(), make().get_node());
    let item = make();
    assert_eq!(item.get_node(), item.get_node());
}

#[test]
fn encoding_of_use_trees() {
    assert_eq!(encoded_use(&UseTree::Glob), vec![0x33]);
    assert_eq!(encoded_use(&use_name("ab")), vec![0x31, 2, 0, 0, 0, 0, 0, 0, 0, b'a', b'b']);
    assert_eq!(
        encoded_use(&use_name("é")),
        vec![0x31, 2, 0, 0, 0, 0, 0, 0, 0, 0xc3, 0xa9]
    );
    let renamed = UseTree::Rename(UseRename { ident: "a".to_string(), rename: "".to_string() });
    assert_eq!(
        encoded_use(&renamed),
        vec![0x32, 1, 0, 0, 0, 0, 0, 0, 0, b'a', 0, 0, 0, 0, 0, 0, 0, 0]
    );
    let path = UseTree::Path(UsePath { ident: "a".to_string(), tree: Box::new(UseTree::Glob) });
    assert_eq!(encoded_use(&path), vec![0x30, 1, 0, 0, 0, 0, 0, 0, 0, b'a', 0x33]);
    let group = UseTree::Group(vec![UseTree::Glob, UseTree::Glob]);
    assert_eq!(encoded_use(&group), vec![0x34, 2, 0, 0, 0, 0, 0, 0, 0, 0x33, 0x33]);
}

fn bytes(parts: &[&[u8]]) -> Vec<u8> {
    parts.iter().flat_map(|p| p.iter().copied()).collect()
}

fn word(n: u64) -> [u8; 8] {
    n.to_le_bytes()
}

#[test]
fn encoding_of_expressions_and_statements() {
    let mut out = vec![];
    Expr::Other(0x0102).encode(&mut out);
    assert_eq!(out, vec![0x56, 2, 1, 0, 0, 0, 0, 0, 0]);

    let mut out = vec![];
    Expr::Break(ExprBreak { digest: 5, label: Some("l".to_string()), expr: None })
        .encode(&mut out);
    assert_eq!(out, bytes(&[&[0x54], &word(5), &[1], &word(1), b"l", &[0]]));

    let mut out = vec![];
    Expr::AssignOp(ExprAssignOp {
        digest: 6,
        op: AssignOperator::Shr,
        left: Box::new(Expr::Other(0)),
        right: Box::new(Expr::Other(1)),
    })
    .encode(&mut out);
    assert_eq!(
        out,
        bytes(&[&[0x52], &word(6), &[9], &[0x56], &word(0), &[0x56], &word(1)])
    );

    let mut out = vec![];
    Expr::If(ExprIf {
        digest: 7,
        cond: Box::new(Expr::Other(0)),
        then_branch: Block { stmts: vec![Stmt::Local(3)] },
        else_branch: None,
    })
    .encode(&mut out);
    assert_eq!(
        out,
        bytes(&[
            &[0x55],
            &word(7),
            &[0x56],
            &word(0),
            &[0x40],
            &word(1),
            &[0x48],
            &word(3),
            &[0]
        ])
    );

    let mut out = vec![];
    Expr::Array(ExprArray { digest: 8, elems: vec![Expr::Other(1)] }).encode(&mut out);
    assert_eq!(out, bytes(&[&[0x50], &word(8), &word(1), &[0x56], &word(1)]));

    let mut out = vec![];
    Expr::Assign(ExprAssign {
        digest: 9,
        left: Box::new(Expr::Other(1)),
        right: Box::new(Expr::Other(2)),
    })
    .encode(&mut out);
    assert_eq!(out, bytes(&[&[0x51], &word(9), &[0x56], &word(1), &[0x56], &word(2)]));

    let mut out = vec![];
    Expr::Block(ExprBlock { digest: 10, block: Block { stmts: vec![] } }).encode(&mut out);
    assert_eq!(out, bytes(&[&[0x53], &word(10), &[0x40], &word(0)]));

    let mut out = vec![];
    Stmt::Semi(Expr::Other(0)).encode(&mut out);
    assert_eq!(out, vec![0x4b, 0x56, 0, 0, 0, 0, 0, 0, 0, 0]);
}

#[test]
fn encoding_of_items_and_files() {
    let mut out = vec![7];
    Item::Struct(1).encode(&mut out);
    assert_eq!(out, vec![7, 0x18, 1, 0, 0, 0, 0, 0, 0, 0]);

    let mut out = vec![];
    Item::Use(ItemUse { digest: 4, tree: UseTree::Glob }).encode(&mut out);
    assert_eq!(out, bytes(&[&[0x11], &word(4), &[0x33]]));

    let mut out = vec![];
    Item::Const(ItemValue { digest: 2, expr: Expr::Other(3) }).encode(&mut out);
    assert_eq!(out, vec![0x13, 2, 0, 0, 0, 0, 0, 0, 0, 0x56, 3, 0, 0, 0, 0, 0, 0, 0]);

    let mut out = vec![];
    Item::Fn(ItemFn { digest: 11, name: "f".to_string(), block: Block { stmts: vec![] } })
        .encode(&mut out);
    assert_eq!(out, bytes(&[&[0x14], &word(11), &word(1), b"f", &[0x40], &word(0)]));

    let mut out = vec![];
    Item::Mod(ItemMod { digest: 12, name: "m".to_string(), items: vec![Item::Enum(0)] })
        .encode(&mut out);
    assert_eq!(
        out,
        bytes(&[&[0x15], &word(12), &word(1), b"m", &word(1), &[0x19], &word(0)])
    );

    let mut out = vec![];
    Item::Impl(ItemImpl {
        digest: 13,
        self_ty: Type::Path(TypePath { digest: 14, segments: vec!["T".to_string()] }),
        items: vec![
            ImplItem::Other(1),
            ImplItem::Method(ImplItemMethod {
                digest: 15,
                name: "f".to_string(),
                block: Block { stmts: vec![] },
            }),
        ],
    })
    .encode(&mut out);
    assert_eq!(
        out,
        bytes(&[
            &[0x1d],
            &word(13),
            &[0x38],
            &word(14),
            &word(1),
            &word(1),
            b"T",
            &word(2),
            &[0x3d],
            &word(1),
            &[0x3c],
            &word(15),
            &word(1),
            b"f",
            &[0x40],
            &word(0)
        ])
    );

    let mut out = vec![];
    Type::Other(3).encode(&mut out);
    assert_eq!(out, bytes(&[&[0x39], &word(3)]));

    let mut out = vec![];
    SourceFile { digest: 16, items: vec![] }.encode(&mut out);
    assert_eq!(out, bytes(&[&[0x01], &word(16), &word(0)]));
}

#[test]
fn what_the_model_does_not_hold_is_told_apart_by_the_digest() {
    let function = |digest: u64| {
        Item::Fn(ItemFn { digest, name: "f".to_string(), block: Block { stmts: vec![] } })
    };
    assert_ne!(function(1).get_node(), function(2).get_node());
    assert_eq!(function(1).get_node(), function(1).get_node());
    let implementation = |digest: u64| {
        Item::Impl(ItemImpl {
            digest,
            self_ty: Type::Path(TypePath { digest: 0, segments: vec!["A".to_string()] }),
            items: vec![],
        })
    };
    assert_ne!(implementation(1).get_node(), implementation(2).get_node());
    let import = |digest: u64| Item::Use(ItemUse { digest, tree: use_name("a") });
    assert_ne!(import(1).get_node(), import(2).get_node());
    let module = |digest: u64| Item::Mod(ItemMod { digest, name: "m".to_string(), items: vec![] });
    assert_ne!(module(1).get_node(), module(2).get_node());
    let branch = |digest: u64| {
        Expr::If(ExprIf {
            digest,
            cond: Box::new(Expr::Other(0)),
            then_branch: Block { stmts: vec![] },
            else_branch: None,
        })
    };
    assert_ne!(branch(1).get_node(), branch(2).get_node());
    assert_ne!(
        SourceFile { digest: 1, items: vec![] }.get_node(),
        SourceFile { digest: 2, items: vec![] }.get_node()
    );
}

#[test]
fn different_kinds_with_the_same_digest_differ() {
    let ids = vec![
        Item::ExternCrate(1).get_node(),
        Item::ForeignMod(1).get_node(),
        Item::Type(1).get_node(),
        Item::Struct(1).get_node(),
        Item::Enum(1).get_node(),
        Item::Union(1).get_node(),
        Item::Trait(1).get_node(),
        Item::TraitAlias(1).get_node(),
        Item::Macro(1).get_node(),
        Item::Macro2(1).get_node(),
        Item::Verbatim(1).get_node(),
        Item::Struct(2).get_node(),
        Stmt::Local(1).get_node(),
        Stmt::Item(1).get_node(),
        Expr::Other(1).get_node(),
        Block { stmts: vec![] }.get_node(),
        SourceFile { digest: 0, items: vec![] }.get_node(),
    ];
    for i in 0..ids.len() {
        for j in 0..i {
            assert_ne!(ids[i], ids[j]);
        }
    }
}
