//! The parts of a Rust source file that the analyses read, as plain values.
//!
//! A source file is parsed with `syn` and brought into this form (see
//! `syn_bridge`); the analyses of storage keys, auth calls and storage
//! writes then work on it alone.
use vstd::prelude::*;
use crate::text::seq_join;

verus! {

/// A type as written in a field: a path with its generic arguments, a
/// reference, or anything else (kept as its `{:?}` rendering).
#[derive(Debug, PartialEq, Eq)]
pub enum TypeRepr {
    Path(Vec<PathSegmentRepr>),
    Reference { mutable: bool, elem: Box<TypeRepr> },
    Other(String),
}

/// One segment of a type path.
#[derive(Debug, PartialEq, Eq)]
pub struct PathSegmentRepr {
    pub ident: String,
    pub args: PathArgsRepr,
}

/// The arguments of a path segment.
#[derive(Debug, PartialEq, Eq)]
pub enum PathArgsRepr {
    Bare,
    AngleBracketed(Vec<GenericArgRepr>),
    Other,
}

/// One generic argument.
#[derive(Debug, PartialEq, Eq)]
pub enum GenericArgRepr {
    Type(TypeRepr),
    /// A lifetime, by its name without the apostrophe.
    Lifetime(String),
    Other,
}

/// A struct field: its name (none for a tuple field) and type.
#[derive(Debug, PartialEq, Eq)]
pub struct FieldRepr {
    pub name: Option<String>,
    pub ty: TypeRepr,
}

/// The fields of an enum variant.
#[derive(Debug, PartialEq, Eq)]
pub enum VariantFieldsRepr {
    Unit,
    Unnamed(Vec<TypeRepr>),
    Named(Vec<TypeRepr>),
}

/// An enum variant.
#[derive(Debug, PartialEq, Eq)]
pub struct VariantRepr {
    pub name: String,
    pub fields: VariantFieldsRepr,
}

/// An expression, as far as the analyses look into it. Of a method call
/// they read the method's name, the name of the method that produced the
/// receiver (when the receiver is itself a method call) and the first
/// argument's tokens; they do not look inside receivers or arguments.
#[derive(Debug, PartialEq, Eq)]
pub enum ExprRepr {
    MethodCall { method: String, receiver_method: Option<String>, first_arg: Option<String> },
    Block(BlockRepr),
    If { then_branch: BlockRepr, else_branch: Option<Box<ExprRepr>> },
    Match { arms: Vec<ExprRepr> },
    Other,
}

/// A statement: an expression, a `let` with its initializer if any, or
/// something else.
#[derive(Debug, PartialEq, Eq)]
pub enum StmtRepr {
    Expr(ExprRepr),
    Local(Option<ExprRepr>),
    Other,
}

/// A block of statements.
#[derive(Debug, PartialEq, Eq)]
pub struct BlockRepr {
    pub stmts: Vec<StmtRepr>,
}

/// A function or method: its name, whether it is `pub`, and its body.
#[derive(Debug, PartialEq, Eq)]
pub struct FnRepr {
    pub name: String,
    pub is_pub: bool,
    pub body: BlockRepr,
}

/// A top-level item. Of attributes, the last segment of each path is kept.
#[derive(Debug, PartialEq, Eq)]
pub enum ItemRepr {
    Struct { name: String, attrs: Vec<Option<String>>, fields: Vec<FieldRepr> },
    Enum { name: String, attrs: Vec<Option<String>>, variants: Vec<VariantRepr> },
    Fn(FnRepr),
    /// An impl block, with the functions among its items.
    Impl { methods: Vec<FnRepr> },
    Other,
}

/// One source file of a crate: where it was found, and its text.
#[derive(Debug, Clone, PartialEq, Eq)]
pub struct SourceText {
    pub path: String,
    pub content: String,
}

/// A parsed source file.
#[derive(Debug, PartialEq, Eq)]
pub struct SourceFile {
    pub items: Vec<ItemRepr>,
}

/// The text of a type, as the storage schema lists it: path segments joined
/// by `::` with their generic arguments in angle brackets, references with
/// `&` (and `mut `), anything else as given.
pub open spec fn type_text(t: TypeRepr) -> Seq<char>
    decreases t,
{
    match t {
        TypeRepr::Path(segs) => seq_join(segment_texts(segs@), "::"@),
        TypeRepr::Reference { mutable, elem } => "&"@ + (if mutable {
            "mut "@
        } else {
            Seq::empty()
        }) + type_text(*elem),
        TypeRepr::Other(s) => s@,
    }
}

pub open spec fn segment_texts(segs: Seq<PathSegmentRepr>) -> Seq<Seq<char>>
    decreases segs,
{
    if segs.len() == 0 {
        Seq::empty()
    } else {
        segment_texts(segs.drop_last()).push(segment_text(segs.last()))
    }
}

pub open spec fn segment_text(s: PathSegmentRepr) -> Seq<char>
    decreases s,
{
    match s.args {
        PathArgsRepr::AngleBracketed(args) => s.ident@ + "<"@ + seq_join(arg_texts(args@), ", "@) + ">"@,
        _ => s.ident@,
    }
}

pub open spec fn arg_texts(args: Seq<GenericArgRepr>) -> Seq<Seq<char>>
    decreases args,
{
    if args.len() == 0 {
        Seq::empty()
    } else {
        arg_texts(args.drop_last()).push(arg_text(args.last()))
    }
}

pub open spec fn arg_text(a: GenericArgRepr) -> Seq<char>
    decreases a,
{
    match a {
        GenericArgRepr::Type(t) => type_text(t),
        GenericArgRepr::Lifetime(l) => l@,
        GenericArgRepr::Other => "..."@,
    }
}

// ---------------------------------------------------------------------------
// Nesting depth
// ---------------------------------------------------------------------------
//
// How many levels of nesting a tree has: a type path, a reference or a
// generic argument list is one level; a block, an `if` or a `match` is one
// level. Leaves count zero.

pub open spec fn max_nat(a: nat, b: nat) -> nat {
    if a >= b {
        a
    } else {
        b
    }
}

pub open spec fn type_depth(t: TypeRepr) -> nat
    decreases t,
{
    match t {
        TypeRepr::Path(segs) => 1 + segments_depth(segs@),
        TypeRepr::Reference { elem, .. } => 1 + type_depth(*elem),
        TypeRepr::Other(_) => 0,
    }
}

pub open spec fn segments_depth(segs: Seq<PathSegmentRepr>) -> nat
    decreases segs,
{
    if segs.len() == 0 {
        0
    } else {
        max_nat(segments_depth(segs.drop_last()), segment_depth(segs.last()))
    }
}

pub open spec fn segment_depth(s: PathSegmentRepr) -> nat
    decreases s,
{
    match s.args {
        PathArgsRepr::AngleBracketed(args) => 1 + args_depth(args@),
        _ => 0,
    }
}

pub open spec fn args_depth(args: Seq<GenericArgRepr>) -> nat
    decreases args,
{
    if args.len() == 0 {
        0
    } else {
        max_nat(args_depth(args.drop_last()), arg_depth(args.last()))
    }
}

pub open spec fn arg_depth(a: GenericArgRepr) -> nat
    decreases a,
{
    match a {
        GenericArgRepr::Type(t) => type_depth(t),
        _ => 0,
    }
}

pub open spec fn types_depth(ts: Seq<TypeRepr>) -> nat
    decreases ts.len(),
{
    if ts.len() == 0 {
        0
    } else {
        max_nat(types_depth(ts.drop_last()), type_depth(ts.last()))
    }
}

pub open spec fn expr_depth(e: ExprRepr) -> nat
    decreases e,
{
    match e {
        ExprRepr::MethodCall { .. } => 0,
        ExprRepr::Block(b) => 1 + stmts_depth(b.stmts@),
        ExprRepr::If { then_branch, else_branch } => 1 + max_nat(
            stmts_depth(then_branch.stmts@),
            match else_branch {
                Some(x) => expr_depth(*x),
                None => 0,
            },
        ),
        ExprRepr::Match { arms } => 1 + exprs_depth(arms@),
        ExprRepr::Other => 0,
    }
}

pub open spec fn exprs_depth(es: Seq<ExprRepr>) -> nat
    decreases es,
{
    if es.len() == 0 {
        0
    } else {
        max_nat(exprs_depth(es.drop_last()), expr_depth(es.last()))
    }
}

pub open spec fn stmt_depth(s: StmtRepr) -> nat
    decreases s,
{
    match s {
        StmtRepr::Expr(e) => expr_depth(e),
        StmtRepr::Local(Some(e)) => expr_depth(e),
        _ => 0,
    }
}

pub open spec fn stmts_depth(ss: Seq<StmtRepr>) -> nat
    decreases ss,
{
    if ss.len() == 0 {
        0
    } else {
        max_nat(stmts_depth(ss.drop_last()), stmt_depth(ss.last()))
    }
}

pub open spec fn fields_depth(fs: Seq<FieldRepr>) -> nat
    decreases fs.len(),
{
    if fs.len() == 0 {
        0
    } else {
        max_nat(fields_depth(fs.drop_last()), type_depth(fs.last().ty))
    }
}

pub open spec fn variant_depth(v: VariantRepr) -> nat {
    match v.fields {
        VariantFieldsRepr::Unit => 0,
        VariantFieldsRepr::Unnamed(ts) => types_depth(ts@),
        VariantFieldsRepr::Named(ts) => types_depth(ts@),
    }
}

pub open spec fn variants_depth(vs: Seq<VariantRepr>) -> nat
    decreases vs.len(),
{
    if vs.len() == 0 {
        0
    } else {
        max_nat(variants_depth(vs.drop_last()), variant_depth(vs.last()))
    }
}

pub open spec fn fns_depth(fs: Seq<FnRepr>) -> nat
    decreases fs.len(),
{
    if fs.len() == 0 {
        0
    } else {
        max_nat(fns_depth(fs.drop_last()), stmts_depth(fs.last().body.stmts@))
    }
}

/// The nesting depth of an item: of its field types, of its variants'
/// field types, or of its functions' bodies.
pub open spec fn item_depth(it: ItemRepr) -> nat {
    match it {
        ItemRepr::Struct { fields, .. } => fields_depth(fields@),
        ItemRepr::Enum { variants, .. } => variants_depth(variants@),
        ItemRepr::Fn(f) => stmts_depth(f.body.stmts@),
        ItemRepr::Impl { methods } => fns_depth(methods@),
        ItemRepr::Other => 0,
    }
}

} // verus!
