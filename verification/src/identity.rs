//! The identity of a piece of syntax: a 64-bit hash of its content.
//!
//! Every node of the syntax model has an `encoding`, a sequence of bytes
//! that spells out its kind and, in turn, the encodings of what it holds.
//! Its identity is the hash of that encoding, so two nodes with the
//! same content have the same identity wherever they stand in a file.
use std::collections::hash_map::DefaultHasher;
use std::hash::Hasher;
use vstd::bytes::{spec_u64_to_le_bytes, u64_to_le_bytes};
use vstd::prelude::*;
use vstd::std_specs::hash::DefaultHasherAdditionalSpecFns;
use vstd::string::StringSliceAdditionalSpecFns;

use crate::syntax::{
    AssignOperator, Block, Expr, ImplItem, Item, SourceFile, Stmt, Type, UseTree,
};

verus! {

/// The hash of a sequence of bytes.
pub open spec fn identity_of(bytes: Seq<u8>) -> u64 {
    DefaultHasher::spec_finish(seq![bytes])
}

/// Hashes `bytes` with the standard library's default hasher.
pub fn get_node(bytes: &[u8]) -> (id: u64)
    ensures
        id == identity_of(bytes@),
{
    let mut hasher: DefaultHasher = DefaultHasher::new();
    hasher.write(bytes);
    hasher.finish()
}

/// A 64-bit number as eight bytes, the least significant first.
pub open spec fn word(x: u64) -> Seq<u8> {
    spec_u64_to_le_bytes(x)
}

/// A length as a word. Lengths of what is in memory fit.
pub open spec fn count(n: nat) -> Seq<u8> {
    word(n as u64)
}

/// A text as the number of bytes of its UTF-8 form, then those bytes.
pub open spec fn text(s: Seq<char>) -> Seq<u8> {
    count(vstd::utf8::encode_utf8(s).len()) + vstd::utf8::encode_utf8(s)
}

fn put_word(out: &mut Vec<u8>, x: u64)
    ensures
        final(out)@ == old(out)@ + word(x),
{
    let mut bytes: Vec<u8> = u64_to_le_bytes(x);
    out.append(&mut bytes);
}

/// A leaf: its tag, then its digest.
fn put_leaf(out: &mut Vec<u8>, tag: u8, digest: u64)
    ensures
        final(out)@ == old(out)@ + seq![tag] + word(digest),
{
    out.push(tag);
    put_word(out, digest);
}

fn put_count(out: &mut Vec<u8>, n: usize)
    ensures
        final(out)@ == old(out)@ + count(n as nat),
{
    put_word(out, n as u64);
}

fn put_text(out: &mut Vec<u8>, s: &str)
    ensures
        final(out)@ == old(out)@ + text(s@),
{
    let mut bytes: Vec<u8> = vstd::string::StrSliceExecFns::as_bytes_vec(s);
    put_count(out, bytes.len());
    out.append(&mut bytes);
}

impl UseTree {
    pub open spec fn encoding(self) -> Seq<u8>
        decreases self,
    {
        match self {
            UseTree::Path(p) => seq![0x30u8] + text(p.ident@) + p.tree.encoding(),
            UseTree::Name(name) => seq![0x31u8] + text(name@),
            UseTree::Rename(r) => seq![0x32u8] + text(r.ident@) + text(r.rename@),
            UseTree::Glob => seq![0x33u8],
            UseTree::Group(trees) => seq![0x34u8] + count(trees@.len()) + use_trees_encoding(
                trees@,
                trees@.len(),
            ),
        }
    }

    /// The identity of this tree.
    pub open spec fn identity(self) -> u64 {
        identity_of(self.encoding())
    }

    /// Appends the encoding of this tree to `out`.
    pub fn encode(&self, out: &mut Vec<u8>)
        ensures
            final(out)@ == old(out)@ + self.encoding(),
        decreases self,
    {
        match self {
            UseTree::Path(p) => {
                out.push(0x30u8);
                put_text(out, p.ident.as_str());
                p.tree.encode(out);
            },
            UseTree::Name(name) => {
                out.push(0x31u8);
                put_text(out, name.as_str());
            },
            UseTree::Rename(r) => {
                out.push(0x32u8);
                put_text(out, r.ident.as_str());
                put_text(out, r.rename.as_str());
            },
            UseTree::Glob => {
                out.push(0x33u8);
            },
            UseTree::Group(trees) => {
                out.push(0x34u8);
                put_count(out, trees.len());
                encode_use_trees(trees, out);
            },
        }
    }

    pub fn get_node(&self) -> (id: u64)
        ensures
            id == self.identity(),
    {
        let mut out: Vec<u8> = Vec::new();
        self.encode(&mut out);
        get_node(out.as_slice())
    }
}

/// The encodings of the first `n` of `trees`, one after the other.
pub open spec fn use_trees_encoding(trees: Seq<UseTree>, n: nat) -> Seq<u8>
    decreases trees, n,
{
    if n == 0 || n > trees.len() {
        Seq::empty()
    } else {
        use_trees_encoding(trees, (n - 1) as nat) + trees[n - 1].encoding()
    }
}

fn encode_use_trees(trees: &Vec<UseTree>, out: &mut Vec<u8>)
    ensures
        final(out)@ == old(out)@ + use_trees_encoding(trees@, trees@.len()),
    decreases trees,
{
    let mut i: usize = 0;
    while i < trees.len()
        invariant
            i <= trees.len(),
            out@ == old(out)@ + use_trees_encoding(trees@, i as nat),
        decreases trees.len() - i,
    {
        trees[i].encode(out);
        i += 1;
    }
}

/// The encodings of the first `n` of `names`, one after the other.
pub open spec fn names_encoding(names: Seq<String>, n: nat) -> Seq<u8>
    decreases n,
{
    if n == 0 || n > names.len() {
        Seq::empty()
    } else {
        names_encoding(names, (n - 1) as nat) + text(names[n - 1]@)
    }
}

fn encode_names(names: &Vec<String>, out: &mut Vec<u8>)
    ensures
        final(out)@ == old(out)@ + names_encoding(names@, names@.len()),
{
    let mut i: usize = 0;
    while i < names.len()
        invariant
            i <= names.len(),
            out@ == old(out)@ + names_encoding(names@, i as nat),
        decreases names.len() - i,
    {
        put_text(out, names[i].as_str());
        i += 1;
    }
}

impl Type {
    pub open spec fn encoding(self) -> Seq<u8> {
        match self {
            Type::Path(p) => seq![0x38u8] + word(p.digest) + count(p.segments@.len())
                + names_encoding(p.segments@, p.segments@.len()),
            Type::Other(digest) => seq![0x39u8] + word(digest),
        }
    }

    /// Appends the encoding of this type to `out`.
    pub fn encode(&self, out: &mut Vec<u8>)
        ensures
            final(out)@ == old(out)@ + self.encoding(),
    {
        match self {
            Type::Path(p) => {
                put_leaf(out, 0x38u8, p.digest);
                put_count(out, p.segments.len());
                encode_names(&p.segments, out);
            },
            Type::Other(digest) => {
                out.push(0x39u8);
                put_word(out, *digest);
            },
        }
    }
}

impl AssignOperator {
    pub open spec fn tag(self) -> u8 {
        match self {
            AssignOperator::Add => 0u8,
            AssignOperator::Sub => 1u8,
            AssignOperator::Mul => 2u8,
            AssignOperator::Div => 3u8,
            AssignOperator::Rem => 4u8,
            AssignOperator::BitXor => 5u8,
            AssignOperator::BitAnd => 6u8,
            AssignOperator::BitOr => 7u8,
            AssignOperator::Shl => 8u8,
            AssignOperator::Shr => 9u8,
        }
    }

    fn exec_tag(&self) -> (t: u8)
        ensures
            t == self.tag(),
    {
        match self {
            AssignOperator::Add => 0u8,
            AssignOperator::Sub => 1u8,
            AssignOperator::Mul => 2u8,
            AssignOperator::Div => 3u8,
            AssignOperator::Rem => 4u8,
            AssignOperator::BitXor => 5u8,
            AssignOperator::BitAnd => 6u8,
            AssignOperator::BitOr => 7u8,
            AssignOperator::Shl => 8u8,
            AssignOperator::Shr => 9u8,
        }
    }
}

/// An optional label: a zero byte for none, else a one and the text.
pub open spec fn label_encoding(label: Option<String>) -> Seq<u8> {
    match label {
        Some(name) => seq![1u8] + text(name@),
        None => seq![0u8],
    }
}

impl Expr {
    pub open spec fn encoding(self) -> Seq<u8>
        decreases self,
    {
        match self {
            Expr::Array(a) => seq![0x50u8] + word(a.digest) + count(a.elems@.len())
                + exprs_encoding(a.elems@, a.elems@.len()),
            Expr::Assign(a) => seq![0x51u8] + word(a.digest) + a.left.encoding()
                + a.right.encoding(),
            Expr::AssignOp(a) => seq![0x52u8] + word(a.digest) + seq![a.op.tag()]
                + a.left.encoding() + a.right.encoding(),
            Expr::Block(b) => seq![0x53u8] + word(b.digest) + b.block.encoding(),
            Expr::Break(b) => seq![0x54u8] + word(b.digest) + label_encoding(b.label)
                + match b.expr {
                Some(value) => seq![1u8] + value.encoding(),
                None => seq![0u8],
            },
            Expr::If(i) => seq![0x55u8] + word(i.digest) + i.cond.encoding()
                + i.then_branch.encoding() + match i.else_branch {
                Some(other) => seq![1u8] + other.encoding(),
                None => seq![0u8],
            },
            Expr::Other(digest) => seq![0x56u8] + word(digest),
        }
    }

    /// The identity of this expression.
    pub open spec fn identity(self) -> u64 {
        identity_of(self.encoding())
    }

    /// Appends the encoding of this expression to `out`.
    pub fn encode(&self, out: &mut Vec<u8>)
        ensures
            final(out)@ == old(out)@ + self.encoding(),
        decreases self,
    {
        match self {
            Expr::Array(a) => {
                put_leaf(out, 0x50u8, a.digest);
                put_count(out, a.elems.len());
                encode_exprs(&a.elems, out);
            },
            Expr::Assign(a) => {
                put_leaf(out, 0x51u8, a.digest);
                a.left.encode(out);
                a.right.encode(out);
            },
            Expr::AssignOp(a) => {
                put_leaf(out, 0x52u8, a.digest);
                out.push(a.op.exec_tag());
                a.left.encode(out);
                a.right.encode(out);
            },
            Expr::Block(b) => {
                put_leaf(out, 0x53u8, b.digest);
                b.block.encode(out);
            },
            Expr::Break(b) => {
                put_leaf(out, 0x54u8, b.digest);
                match &b.label {
                    Some(name) => {
                        out.push(1u8);
                        put_text(out, name.as_str());
                    },
                    None => {
                        out.push(0u8);
                    },
                }
                match &b.expr {
                    Some(value) => {
                        out.push(1u8);
                        value.encode(out);
                    },
                    None => {
                        out.push(0u8);
                    },
                }
            },
            Expr::If(i) => {
                put_leaf(out, 0x55u8, i.digest);
                i.cond.encode(out);
                i.then_branch.encode(out);
                match &i.else_branch {
                    Some(other) => {
                        out.push(1u8);
                        other.encode(out);
                    },
                    None => {
                        out.push(0u8);
                    },
                }
            },
            Expr::Other(digest) => {
                out.push(0x56u8);
                put_word(out, *digest);
            },
        }
    }

    pub fn get_node(&self) -> (id: u64)
        ensures
            id == self.identity(),
    {
        let mut out: Vec<u8> = Vec::new();
        self.encode(&mut out);
        get_node(out.as_slice())
    }
}

/// The encodings of the first `n` of `exprs`, one after the other.
pub open spec fn exprs_encoding(exprs: Seq<Expr>, n: nat) -> Seq<u8>
    decreases exprs, n,
{
    if n == 0 || n > exprs.len() {
        Seq::empty()
    } else {
        exprs_encoding(exprs, (n - 1) as nat) + exprs[n - 1].encoding()
    }
}

fn encode_exprs(exprs: &Vec<Expr>, out: &mut Vec<u8>)
    ensures
        final(out)@ == old(out)@ + exprs_encoding(exprs@, exprs@.len()),
    decreases exprs,
{
    let mut i: usize = 0;
    while i < exprs.len()
        invariant
            i <= exprs.len(),
            out@ == old(out)@ + exprs_encoding(exprs@, i as nat),
        decreases exprs.len() - i,
    {
        exprs[i].encode(out);
        i += 1;
    }
}

impl Stmt {
    pub open spec fn encoding(self) -> Seq<u8>
        decreases self,
    {
        match self {
            Stmt::Local(digest) => seq![0x48u8] + word(digest),
            Stmt::Item(digest) => seq![0x49u8] + word(digest),
            Stmt::Expr(e) => seq![0x4au8] + e.encoding(),
            Stmt::Semi(e) => seq![0x4bu8] + e.encoding(),
        }
    }

    /// The identity of this statement.
    pub open spec fn identity(self) -> u64 {
        identity_of(self.encoding())
    }

    /// Appends the encoding of this statement to `out`.
    pub fn encode(&self, out: &mut Vec<u8>)
        ensures
            final(out)@ == old(out)@ + self.encoding(),
        decreases self,
    {
        match self {
            Stmt::Local(digest) => {
                out.push(0x48u8);
                put_word(out, *digest);
            },
            Stmt::Item(digest) => {
                out.push(0x49u8);
                put_word(out, *digest);
            },
            Stmt::Expr(e) => {
                out.push(0x4au8);
                e.encode(out);
            },
            Stmt::Semi(e) => {
                out.push(0x4bu8);
                e.encode(out);
            },
        }
    }

    pub fn get_node(&self) -> (id: u64)
        ensures
            id == self.identity(),
    {
        let mut out: Vec<u8> = Vec::new();
        self.encode(&mut out);
        get_node(out.as_slice())
    }
}

/// The encodings of the first `n` of `stmts`, one after the other.
pub open spec fn stmts_encoding(stmts: Seq<Stmt>, n: nat) -> Seq<u8>
    decreases stmts, n,
{
    if n == 0 || n > stmts.len() {
        Seq::empty()
    } else {
        stmts_encoding(stmts, (n - 1) as nat) + stmts[n - 1].encoding()
    }
}

impl Block {
    pub open spec fn encoding(self) -> Seq<u8>
        decreases self,
    {
        seq![0x40u8] + count(self.stmts@.len()) + stmts_encoding(self.stmts@, self.stmts@.len())
    }

    /// The identity of this block.
    pub open spec fn identity(self) -> u64 {
        identity_of(self.encoding())
    }

    /// Appends the encoding of this block to `out`.
    pub fn encode(&self, out: &mut Vec<u8>)
        ensures
            final(out)@ == old(out)@ + self.encoding(),
        decreases self,
    {
        out.push(0x40u8);
        put_count(out, self.stmts.len());
        let mut i: usize = 0;
        while i < self.stmts.len()
            invariant
                i <= self.stmts.len(),
                out@ == old(out)@ + seq![0x40u8] + count(self.stmts@.len()) + stmts_encoding(
                    self.stmts@,
                    i as nat,
                ),
            decreases self.stmts.len() - i,
        {
            self.stmts[i].encode(out);
            i += 1;
        }
    }

    pub fn get_node(&self) -> (id: u64)
        ensures
            id == self.identity(),
    {
        let mut out: Vec<u8> = Vec::new();
        self.encode(&mut out);
        get_node(out.as_slice())
    }
}

impl ImplItem {
    pub open spec fn encoding(self) -> Seq<u8> {
        match self {
            ImplItem::Method(m) => seq![0x3cu8] + word(m.digest) + text(m.name@)
                + m.block.encoding(),
            ImplItem::Other(digest) => seq![0x3du8] + word(digest),
        }
    }

    /// Appends the encoding of this item to `out`.
    pub fn encode(&self, out: &mut Vec<u8>)
        ensures
            final(out)@ == old(out)@ + self.encoding(),
    {
        match self {
            ImplItem::Method(m) => {
                put_leaf(out, 0x3cu8, m.digest);
                put_text(out, m.name.as_str());
                m.block.encode(out);
            },
            ImplItem::Other(digest) => {
                out.push(0x3du8);
                put_word(out, *digest);
            },
        }
    }
}

/// The encodings of the first `n` of `items`, one after the other.
pub open spec fn impl_items_encoding(items: Seq<ImplItem>, n: nat) -> Seq<u8>
    decreases n,
{
    if n == 0 || n > items.len() {
        Seq::empty()
    } else {
        impl_items_encoding(items, (n - 1) as nat) + items[n - 1].encoding()
    }
}

fn encode_impl_items(items: &Vec<ImplItem>, out: &mut Vec<u8>)
    ensures
        final(out)@ == old(out)@ + impl_items_encoding(items@, items@.len()),
{
    let mut i: usize = 0;
    while i < items.len()
        invariant
            i <= items.len(),
            out@ == old(out)@ + impl_items_encoding(items@, i as nat),
        decreases items.len() - i,
    {
        items[i].encode(out);
        i += 1;
    }
}

impl Item {
    pub open spec fn encoding(self) -> Seq<u8>
        decreases self,
    {
        match self {
            Item::ExternCrate(digest) => seq![0x10u8] + word(digest),
            Item::Use(u) => seq![0x11u8] + word(u.digest) + u.tree.encoding(),
            Item::Static(v) => seq![0x12u8] + word(v.digest) + v.expr.encoding(),
            Item::Const(v) => seq![0x13u8] + word(v.digest) + v.expr.encoding(),
            Item::Fn(f) => seq![0x14u8] + word(f.digest) + text(f.name@) + f.block.encoding(),
            Item::Mod(m) => seq![0x15u8] + word(m.digest) + text(m.name@) + count(
                m.items@.len(),
            ) + items_encoding(m.items@, m.items@.len()),
            Item::ForeignMod(digest) => seq![0x16u8] + word(digest),
            Item::Type(digest) => seq![0x17u8] + word(digest),
            Item::Struct(digest) => seq![0x18u8] + word(digest),
            Item::Enum(digest) => seq![0x19u8] + word(digest),
            Item::Union(digest) => seq![0x1au8] + word(digest),
            Item::Trait(digest) => seq![0x1bu8] + word(digest),
            Item::TraitAlias(digest) => seq![0x1cu8] + word(digest),
            Item::Impl(i) => seq![0x1du8] + word(i.digest) + i.self_ty.encoding() + count(
                i.items@.len(),
            ) + impl_items_encoding(i.items@, i.items@.len()),
            Item::Macro(digest) => seq![0x1eu8] + word(digest),
            Item::Macro2(digest) => seq![0x1fu8] + word(digest),
            Item::Verbatim(digest) => seq![0x20u8] + word(digest),
        }
    }

    /// The identity of this item.
    pub open spec fn identity(self) -> u64 {
        identity_of(self.encoding())
    }

    /// Appends the encoding of this item to `out`.
    pub fn encode(&self, out: &mut Vec<u8>)
        ensures
            final(out)@ == old(out)@ + self.encoding(),
        decreases self,
    {
        match self {
            Item::ExternCrate(digest) => put_leaf(out, 0x10u8, *digest),
            Item::Use(u) => {
                put_leaf(out, 0x11u8, u.digest);
                u.tree.encode(out);
            },
            Item::Static(v) => {
                put_leaf(out, 0x12u8, v.digest);
                v.expr.encode(out);
            },
            Item::Const(v) => {
                put_leaf(out, 0x13u8, v.digest);
                v.expr.encode(out);
            },
            Item::Fn(f) => {
                put_leaf(out, 0x14u8, f.digest);
                put_text(out, f.name.as_str());
                f.block.encode(out);
            },
            Item::Mod(m) => {
                put_leaf(out, 0x15u8, m.digest);
                put_text(out, m.name.as_str());
                put_count(out, m.items.len());
                encode_items(&m.items, out);
            },
            Item::ForeignMod(digest) => put_leaf(out, 0x16u8, *digest),
            Item::Type(digest) => put_leaf(out, 0x17u8, *digest),
            Item::Struct(digest) => put_leaf(out, 0x18u8, *digest),
            Item::Enum(digest) => put_leaf(out, 0x19u8, *digest),
            Item::Union(digest) => put_leaf(out, 0x1au8, *digest),
            Item::Trait(digest) => put_leaf(out, 0x1bu8, *digest),
            Item::TraitAlias(digest) => put_leaf(out, 0x1cu8, *digest),
            Item::Impl(i) => {
                put_leaf(out, 0x1du8, i.digest);
                i.self_ty.encode(out);
                put_count(out, i.items.len());
                encode_impl_items(&i.items, out);
            },
            Item::Macro(digest) => put_leaf(out, 0x1eu8, *digest),
            Item::Macro2(digest) => put_leaf(out, 0x1fu8, *digest),
            Item::Verbatim(digest) => put_leaf(out, 0x20u8, *digest),
        }
    }

    pub fn get_node(&self) -> (id: u64)
        ensures
            id == self.identity(),
    {
        let mut out: Vec<u8> = Vec::new();
        self.encode(&mut out);
        get_node(out.as_slice())
    }
}

/// The encodings of the first `n` of `items`, one after the other.
pub open spec fn items_encoding(items: Seq<Item>, n: nat) -> Seq<u8>
    decreases items, n,
{
    if n == 0 || n > items.len() {
        Seq::empty()
    } else {
        items_encoding(items, (n - 1) as nat) + items[n - 1].encoding()
    }
}

fn encode_items(items: &Vec<Item>, out: &mut Vec<u8>)
    ensures
        final(out)@ == old(out)@ + items_encoding(items@, items@.len()),
    decreases items,
{
    let mut i: usize = 0;
    while i < items.len()
        invariant
            i <= items.len(),
            out@ == old(out)@ + items_encoding(items@, i as nat),
        decreases items.len() - i,
    {
        items[i].encode(out);
        i += 1;
    }
}

impl SourceFile {
    pub open spec fn encoding(self) -> Seq<u8> {
        seq![0x01u8] + word(self.digest) + count(self.items@.len()) + items_encoding(
            self.items@,
            self.items@.len(),
        )
    }

    /// The identity of this file.
    pub open spec fn identity(self) -> u64 {
        identity_of(self.encoding())
    }

    /// Appends the encoding of this file to `out`.
    pub fn encode(&self, out: &mut Vec<u8>)
        ensures
            final(out)@ == old(out)@ + self.encoding(),
    {
        put_leaf(out, 0x01u8, self.digest);
        put_count(out, self.items.len());
        encode_items(&self.items, out);
    }

    pub fn get_node(&self) -> (id: u64)
        ensures
            id == self.identity(),
    {
        let mut out: Vec<u8> = Vec::new();
        self.encode(&mut out);
        get_node(out.as_slice())
    }
}

impl Item {
    /// The byte that stands for the kind of this item.
    pub open spec fn kind_tag(self) -> u8 {
        match self {
            Item::ExternCrate(_) => 0x10u8,
            Item::Use(_) => 0x11u8,
            Item::Static(_) => 0x12u8,
            Item::Const(_) => 0x13u8,
            Item::Fn(_) => 0x14u8,
            Item::Mod(_) => 0x15u8,
            Item::ForeignMod(_) => 0x16u8,
            Item::Type(_) => 0x17u8,
            Item::Struct(_) => 0x18u8,
            Item::Enum(_) => 0x19u8,
            Item::Union(_) => 0x1au8,
            Item::Trait(_) => 0x1bu8,
            Item::TraitAlias(_) => 0x1cu8,
            Item::Impl(_) => 0x1du8,
            Item::Macro(_) => 0x1eu8,
            Item::Macro2(_) => 0x1fu8,
            Item::Verbatim(_) => 0x20u8,
        }
    }

    /// The digest of this item.
    pub open spec fn digest(self) -> u64 {
        match self {
            Item::ExternCrate(digest) => digest,
            Item::Use(u) => u.digest,
            Item::Static(v) => v.digest,
            Item::Const(v) => v.digest,
            Item::Fn(f) => f.digest,
            Item::Mod(m) => m.digest,
            Item::ForeignMod(digest) => digest,
            Item::Type(digest) => digest,
            Item::Struct(digest) => digest,
            Item::Enum(digest) => digest,
            Item::Union(digest) => digest,
            Item::Trait(digest) => digest,
            Item::TraitAlias(digest) => digest,
            Item::Impl(i) => i.digest,
            Item::Macro(digest) => digest,
            Item::Macro2(digest) => digest,
            Item::Verbatim(digest) => digest,
        }
    }
}

impl Expr {
    /// The digest of this expression.
    pub open spec fn digest(self) -> u64 {
        match self {
            Expr::Array(a) => a.digest,
            Expr::Assign(a) => a.digest,
            Expr::AssignOp(a) => a.digest,
            Expr::Block(b) => b.digest,
            Expr::Break(b) => b.digest,
            Expr::If(i) => i.digest,
            Expr::Other(digest) => digest,
        }
    }
}

/// Different numbers are different words.
pub proof fn law_words_differ(a: u64, b: u64)
    requires
        a != b,
    ensures
        word(a) != word(b),
        word(a).len() == 8,
{
    vstd::bytes::lemma_auto_spec_u64_to_from_le_bytes();
}

/// The encoding of an item starts with its kind, so items of different
/// kinds have different encodings.
pub proof fn law_kind_is_in_encoding(a: Item, b: Item)
    ensures
        a.encoding().len() > 0,
        a.encoding()[0] == a.kind_tag(),
        a.kind_tag() != b.kind_tag() ==> a.encoding() != b.encoding(),
{
    assert(b.encoding()[0] == b.kind_tag());
}

/// The encoding of an item holds its digest behind its kind, so items with
/// different digests have different encodings, whatever else they hold.
pub proof fn law_digest_is_in_encoding(a: Item, b: Item)
    requires
        a.digest() != b.digest(),
    ensures
        a.encoding().len() >= 9,
        a.encoding().subrange(1, 9) == word(a.digest()),
        a.encoding() != b.encoding(),
{
    law_words_differ(a.digest(), b.digest());
    law_words_differ(b.digest(), a.digest());
    lemma_item_holds_digest(a);
    lemma_item_holds_digest(b);
}

proof fn lemma_item_holds_digest(a: Item)
    ensures
        a.encoding().len() >= 9,
        a.encoding().subrange(1, 9) == word(a.digest()),
{
    vstd::bytes::lemma_auto_spec_u64_to_from_le_bytes();
    assert(word(a.digest()).len() == 8);
    assert(a.encoding().subrange(1, 9) =~= word(a.digest()));
}

/// The encoding of an expression holds its digest behind its kind, so
/// expressions with different digests have different encodings.
pub proof fn law_digest_is_in_expr_encoding(a: Expr, b: Expr)
    requires
        a.digest() != b.digest(),
    ensures
        a.encoding().len() >= 9,
        a.encoding().subrange(1, 9) == word(a.digest()),
        a.encoding() != b.encoding(),
{
    law_words_differ(a.digest(), b.digest());
    law_words_differ(b.digest(), a.digest());
    lemma_expr_holds_digest(a);
    lemma_expr_holds_digest(b);
}

proof fn lemma_expr_holds_digest(a: Expr)
    ensures
        a.encoding().len() >= 9,
        a.encoding().subrange(1, 9) == word(a.digest()),
{
    vstd::bytes::lemma_auto_spec_u64_to_from_le_bytes();
    assert(word(a.digest()).len() == 8);
    assert(a.encoding().subrange(1, 9) =~= word(a.digest()));
}

/// Identity goes by content: two items with the same encoding have the same
/// identity, wherever each of them stands.
pub proof fn law_identity_by_content(a: Item, b: Item)
    requires
        a.encoding() == b.encoding(),
    ensures
        a.identity() == b.identity(),
{
}

/// The same expression has the same identity, at every place and at every
/// time.
pub proof fn law_same_expr_same_identity(a: Expr, b: Expr)
    requires
        a == b,
    ensures
        a.identity() == b.identity(),
{
}

} // verus!
