//! Parsing Rust source with `syn` and bringing the syntax tree into the
//! plain form of `syntax`.
//!
//! `syn`'s tree is opaque here: each step of the walk asks a small accessor
//! for one field or tells the variants of one node apart. The accessors are
//! trusted and state nothing of their results (a `syn` node has no model
//! here); the walk itself is verified. What a text parses into, after the
//! walk, is named by `parsed_file`.
use vstd::prelude::*;
use crate::syntax::{
    arg_depth, args_depth, expr_depth, exprs_depth, fields_depth, fns_depth, item_depth, max_nat,
    segment_depth, segments_depth, stmt_depth, stmts_depth, type_depth, types_depth, variant_depth,
    variants_depth, BlockRepr, ExprRepr, FieldRepr, FnRepr, GenericArgRepr, ItemRepr, PathArgsRepr,
    PathSegmentRepr, SourceFile, SourceText, StmtRepr, TypeRepr, VariantFieldsRepr, VariantRepr,
};

verus! {

#[verifier::external_type_specification]
#[verifier::external_body]
pub struct ExSynFile(syn::File);

#[verifier::external_type_specification]
#[verifier::external_body]
pub struct ExSynError(syn::Error);

#[verifier::external_type_specification]
#[verifier::external_body]
pub struct ExSynItem(syn::Item);

#[verifier::external_type_specification]
#[verifier::external_body]
pub struct ExSynItemStruct(syn::ItemStruct);

#[verifier::external_type_specification]
#[verifier::external_body]
pub struct ExSynItemEnum(syn::ItemEnum);

#[verifier::external_type_specification]
#[verifier::external_body]
pub struct ExSynItemFn(syn::ItemFn);

#[verifier::external_type_specification]
#[verifier::external_body]
pub struct ExSynItemImpl(syn::ItemImpl);

#[verifier::external_type_specification]
#[verifier::external_body]
pub struct ExSynImplItem(syn::ImplItem);

#[verifier::external_type_specification]
#[verifier::external_body]
pub struct ExSynImplItemFn(syn::ImplItemFn);

#[verifier::external_type_specification]
#[verifier::external_body]
pub struct ExSynAttribute(syn::Attribute);

#[verifier::external_type_specification]
#[verifier::external_body]
pub struct ExSynField(syn::Field);

#[verifier::external_type_specification]
#[verifier::external_body]
pub struct ExSynVariant(syn::Variant);

#[verifier::external_type_specification]
#[verifier::external_body]
pub struct ExSynType(syn::Type);

#[verifier::external_type_specification]
#[verifier::external_body]
pub struct ExSynTypePath(syn::TypePath);

#[verifier::external_type_specification]
#[verifier::external_body]
pub struct ExSynTypeReference(syn::TypeReference);

#[verifier::external_type_specification]
#[verifier::external_body]
pub struct ExSynPathSegment(syn::PathSegment);

#[verifier::external_type_specification]
#[verifier::external_body]
pub struct ExSynGenericArgument(syn::GenericArgument);

#[verifier::external_type_specification]
#[verifier::external_body]
pub struct ExSynBlock(syn::Block);

#[verifier::external_type_specification]
#[verifier::external_body]
pub struct ExSynStmt(syn::Stmt);

#[verifier::external_type_specification]
#[verifier::external_body]
pub struct ExSynExpr(syn::Expr);

#[verifier::external_type_specification]
#[verifier::external_body]
pub struct ExSynExprMethodCall(syn::ExprMethodCall);

#[verifier::external_type_specification]
#[verifier::external_body]
pub struct ExSynExprIf(syn::ExprIf);

#[verifier::external_type_specification]
#[verifier::external_body]
pub struct ExSynExprMatch(syn::ExprMatch);

/// The kinds of top-level item that the analyses read.
pub enum ItemRef<'a> {
    Struct(&'a syn::ItemStruct),
    Enum(&'a syn::ItemEnum),
    Fn(&'a syn::ItemFn),
    Impl(&'a syn::ItemImpl),
    Other,
}

/// The fields of an enum variant.
pub enum FieldsRef<'a> {
    Unit,
    Unnamed(Vec<&'a syn::Field>),
    Named(Vec<&'a syn::Field>),
}

/// The kinds of statement that the analyses read.
pub enum StmtRef<'a> {
    Expr(&'a syn::Expr),
    Local(Option<&'a syn::Expr>),
    Other,
}

/// The kinds of expression that the analyses read.
pub enum ExprRef<'a> {
    MethodCall(&'a syn::ExprMethodCall),
    Block(&'a syn::Block),
    If(&'a syn::ExprIf),
    Match(&'a syn::ExprMatch),
    Other,
}

/// The kinds of type that the analyses read.
pub enum TypeRef<'a> {
    Path(&'a syn::TypePath),
    Reference(&'a syn::TypeReference),
    Other,
}

/// The arguments of a path segment.
pub enum ArgsRef<'a> {
    Bare,
    AngleBracketed(Vec<&'a syn::GenericArgument>),
    Other,
}

/// The kinds of generic argument that the analyses read.
pub enum GenericArgRef<'a> {
    Type(&'a syn::Type),
    Lifetime(String),
    Other,
}

/// What `syn::parse_file` makes of the text of a whole Rust source file,
/// brought into the plain form of `syntax` by `read_file`; `None` where
/// `syn` refuses the text.
pub uninterp spec fn parsed_file(text: Seq<char>) -> Option<SourceFile>;

/// Every source parses.
pub open spec fn all_parse(sources: Seq<SourceText>) -> bool {
    forall|k: int| 0 <= k < sources.len() ==> (#[trigger] parsed_file(sources[k].content@)) is Some
}

/// Source `i` is the first that does not parse.
pub open spec fn first_unparsed(sources: Seq<SourceText>, i: int) -> bool {
    &&& 0 <= i < sources.len()
    &&& parsed_file(sources[i].content@) is None
    &&& forall|k: int| 0 <= k < i ==> (#[trigger] parsed_file(sources[k].content@)) is Some
}

/// What each source parses into, in order.
pub open spec fn parsed_files(sources: Seq<SourceText>) -> Seq<SourceFile> {
    Seq::new(sources.len(), |k: int| parsed_file(sources[k].content@)->0)
}

/// `syn::parse_file`, with its tree handed to `read_file`.
///
/// Trusted: the result is named by `parsed_file`, a function of the text
/// alone (`syn` parses deterministically and `read_file` is a verified
/// function of the tree and the text's length); the error's content is not
/// stated.
#[verifier::external_body]
fn parse_and_read(content: &str) -> (r: Result<SourceFile, syn::Error>)
    ensures
        r is Ok <==> parsed_file(content@) is Some,
        r matches Ok(file) ==> parsed_file(content@) == Some(file),
{
    syn::parse_file(content).map(|file| read_file(&file, content))
}

/// The message of a `syn::Error`, as its `Display` gives it.
#[verifier::external_body]
fn syn_error_message(e: &syn::Error) -> String {
    e.to_string()
}

/// `File::items`.
#[verifier::external_body]
fn file_items(f: &syn::File) -> &Vec<syn::Item> {
    &f.items
}

/// Tells apart the variants of `syn::Item` that the analyses read.
#[verifier::external_body]
fn item_ref(item: &syn::Item) -> ItemRef<'_> {
    match item {
        syn::Item::Struct(s) => ItemRef::Struct(s),
        syn::Item::Enum(e) => ItemRef::Enum(e),
        syn::Item::Fn(f) => ItemRef::Fn(f),
        syn::Item::Impl(i) => ItemRef::Impl(i),
        _ => ItemRef::Other,
    }
}

/// `ItemStruct::ident`, as text.
#[verifier::external_body]
fn struct_name(s: &syn::ItemStruct) -> String {
    s.ident.to_string()
}

/// `ItemStruct::attrs`.
#[verifier::external_body]
fn struct_attrs(s: &syn::ItemStruct) -> &Vec<syn::Attribute> {
    &s.attrs
}

/// The fields of a struct, in order (`Fields::iter`).
#[verifier::external_body]
fn struct_fields(s: &syn::ItemStruct) -> Vec<&syn::Field> {
    s.fields.iter().collect()
}

/// `Field::ident`, as text.
#[verifier::external_body]
fn field_name(f: &syn::Field) -> Option<String> {
    f.ident.as_ref().map(|i| i.to_string())
}

/// `Field::ty`.
#[verifier::external_body]
fn field_type(f: &syn::Field) -> &syn::Type {
    &f.ty
}

/// `ItemEnum::ident`, as text.
#[verifier::external_body]
fn enum_name(e: &syn::ItemEnum) -> String {
    e.ident.to_string()
}

/// `ItemEnum::attrs`.
#[verifier::external_body]
fn enum_attrs(e: &syn::ItemEnum) -> &Vec<syn::Attribute> {
    &e.attrs
}

/// The variants of an enum, in order.
#[verifier::external_body]
fn enum_variants(e: &syn::ItemEnum) -> Vec<&syn::Variant> {
    e.variants.iter().collect()
}

/// `Variant::ident`, as text.
#[verifier::external_body]
fn variant_name(v: &syn::Variant) -> String {
    v.ident.to_string()
}

/// Tells apart the variants of `syn::Fields` for an enum variant, with the
/// fields of each in order.
#[verifier::external_body]
fn variant_fields(v: &syn::Variant) -> FieldsRef<'_> {
    match &v.fields {
        syn::Fields::Unit => FieldsRef::Unit,
        syn::Fields::Unnamed(f) => FieldsRef::Unnamed(f.unnamed.iter().collect()),
        syn::Fields::Named(f) => FieldsRef::Named(f.named.iter().collect()),
    }
}

/// The last segment of an attribute's path (`Attribute::path`), as text.
#[verifier::external_body]
fn attr_last_segment(a: &syn::Attribute) -> Option<String> {
    a.path().segments.last().map(|seg| seg.ident.to_string())
}

/// `ItemFn::sig.ident`, as text.
#[verifier::external_body]
fn fn_name(f: &syn::ItemFn) -> String {
    f.sig.ident.to_string()
}

/// Whether `ItemFn::vis` is `Visibility::Public`.
#[verifier::external_body]
fn fn_is_pub(f: &syn::ItemFn) -> bool {
    matches!(f.vis, syn::Visibility::Public(_))
}

/// `ItemFn::block`.
#[verifier::external_body]
fn fn_block(f: &syn::ItemFn) -> &syn::Block {
    &f.block
}

/// `ItemImpl::items`.
#[verifier::external_body]
fn impl_items(i: &syn::ItemImpl) -> &Vec<syn::ImplItem> {
    &i.items
}

/// The function of an `ImplItem::Fn`, or none for other impl items.
#[verifier::external_body]
fn impl_item_fn(i: &syn::ImplItem) -> Option<&syn::ImplItemFn> {
    match i {
        syn::ImplItem::Fn(m) => Some(m),
        _ => None,
    }
}

/// `ImplItemFn::sig.ident`, as text.
#[verifier::external_body]
fn method_name(m: &syn::ImplItemFn) -> String {
    m.sig.ident.to_string()
}

/// Whether `ImplItemFn::vis` is `Visibility::Public`.
#[verifier::external_body]
fn method_is_pub(m: &syn::ImplItemFn) -> bool {
    matches!(m.vis, syn::Visibility::Public(_))
}

/// `ImplItemFn::block`.
#[verifier::external_body]
fn method_block(m: &syn::ImplItemFn) -> &syn::Block {
    &m.block
}

/// `Block::stmts`.
#[verifier::external_body]
fn block_stmts(b: &syn::Block) -> &Vec<syn::Stmt> {
    &b.stmts
}

/// Tells apart the variants of `syn::Stmt` that the analyses read; of a
/// `let`, its initializer.
#[verifier::external_body]
fn stmt_ref(s: &syn::Stmt) -> StmtRef<'_> {
    match s {
        syn::Stmt::Expr(e, _) => StmtRef::Expr(e),
        syn::Stmt::Local(l) => StmtRef::Local(l.init.as_ref().map(|init| &*init.expr)),
        _ => StmtRef::Other,
    }
}

/// Tells apart the variants of `syn::Expr` that the analyses read.
#[verifier::external_body]
fn expr_ref(e: &syn::Expr) -> ExprRef<'_> {
    match e {
        syn::Expr::MethodCall(c) => ExprRef::MethodCall(c),
        syn::Expr::Block(b) => ExprRef::Block(&b.block),
        syn::Expr::If(i) => ExprRef::If(i),
        syn::Expr::Match(m) => ExprRef::Match(m),
        _ => ExprRef::Other,
    }
}

/// `ExprMethodCall::method`, as text.
#[verifier::external_body]
fn method_call_name(c: &syn::ExprMethodCall) -> String {
    c.method.to_string()
}

/// `ExprMethodCall::receiver`.
#[verifier::external_body]
fn method_call_receiver(c: &syn::ExprMethodCall) -> &syn::Expr {
    &c.receiver
}

/// The tokens of the first argument of a method call, as text
/// (`ToTokens::to_token_stream`, then `TokenStream`'s `Display`).
#[verifier::external_body]
fn method_call_first_arg(c: &syn::ExprMethodCall) -> Option<String> {
    c.args.first().map(|a| quote::ToTokens::to_token_stream(a).to_string())
}

/// `ExprIf::then_branch`.
#[verifier::external_body]
fn if_then(i: &syn::ExprIf) -> &syn::Block {
    &i.then_branch
}

/// The expression after `else` in `ExprIf::else_branch`.
#[verifier::external_body]
fn if_else(i: &syn::ExprIf) -> Option<&syn::Expr> {
    i.else_branch.as_ref().map(|(_, e)| &**e)
}

/// The bodies of a match's arms, in order.
#[verifier::external_body]
fn match_arm_bodies(m: &syn::ExprMatch) -> Vec<&syn::Expr> {
    m.arms.iter().map(|arm| &*arm.body).collect()
}

/// Tells apart the variants of `syn::Type` that the analyses read.
#[verifier::external_body]
fn type_ref(t: &syn::Type) -> TypeRef<'_> {
    match t {
        syn::Type::Path(p) => TypeRef::Path(p),
        syn::Type::Reference(r) => TypeRef::Reference(r),
        _ => TypeRef::Other,
    }
}

/// The `{:?}` rendering of a `syn::Type`.
#[verifier::external_body]
fn type_debug(t: &syn::Type) -> String {
    format!("{:?}", t)
}

/// The segments of `TypePath::path`, in order.
#[verifier::external_body]
fn type_path_segments(p: &syn::TypePath) -> Vec<&syn::PathSegment> {
    p.path.segments.iter().collect()
}

/// `PathSegment::ident`, as text.
#[verifier::external_body]
fn segment_name(s: &syn::PathSegment) -> String {
    s.ident.to_string()
}

/// Tells apart the variants of `PathSegment::arguments`, with the generic
/// arguments in angle brackets in order.
#[verifier::external_body]
fn segment_args(s: &syn::PathSegment) -> ArgsRef<'_> {
    match &s.arguments {
        syn::PathArguments::None => ArgsRef::Bare,
        syn::PathArguments::AngleBracketed(g) => ArgsRef::AngleBracketed(g.args.iter().collect()),
        _ => ArgsRef::Other,
    }
}

/// Tells apart the variants of `syn::GenericArgument` that the analyses
/// read; a lifetime by its identifier, as text.
#[verifier::external_body]
fn generic_arg_ref(a: &syn::GenericArgument) -> GenericArgRef<'_> {
    match a {
        syn::GenericArgument::Type(t) => GenericArgRef::Type(t),
        syn::GenericArgument::Lifetime(l) => GenericArgRef::Lifetime(l.ident.to_string()),
        _ => GenericArgRef::Other,
    }
}

/// Whether a reference type is `&mut`.
#[verifier::external_body]
fn reference_is_mut(r: &syn::TypeReference) -> bool {
    r.mutability.is_some()
}

/// `TypeReference::elem`.
#[verifier::external_body]
fn reference_elem(r: &syn::TypeReference) -> &syn::Type {
    &r.elem
}

// ---------------------------------------------------------------------------
// The walk
// ---------------------------------------------------------------------------
//
// Each level of nesting spends one unit of `fuel`, so that the walk
// terminates on any tree. Parsing starts with four units per byte of text,
// meant to exceed the depth of any tree that `syn` builds from that text;
// that bound is not proved here (the trees are opaque). Where fuel runs out,
// the node is kept as `Other`, as each function's contract states.

/// Brings a type into plain form, at most `fuel` levels deep; with no fuel
/// left it keeps the type's `{:?}` rendering.
fn convert_type(t: &syn::Type, fuel: usize) -> (r: TypeRepr)
    ensures
        type_depth(r) <= fuel,
        fuel == 0 ==> r is Other,
    decreases fuel,
{
    if fuel == 0 {
        return TypeRepr::Other(type_debug(t));
    }
    match type_ref(t) {
        TypeRef::Path(p) => {
            let segs = type_path_segments(p);
            let mut out: Vec<PathSegmentRepr> = Vec::new();
            let mut i: usize = 0;
            while i < segs.len()
                invariant
                    fuel > 0,
                    segments_depth(out@) <= fuel - 1,
                decreases segs.len() - i,
            {
                let seg = convert_segment(segs[i], fuel - 1);
                let ghost before = out@;
                out.push(seg);
                assert(out@.drop_last() =~= before);
                i = i + 1;
            }
            TypeRepr::Path(out)
        },
        TypeRef::Reference(r) => {
            let elem = convert_type(reference_elem(r), fuel - 1);
            TypeRepr::Reference { mutable: reference_is_mut(r), elem: Box::new(elem) }
        },
        TypeRef::Other => TypeRepr::Other(type_debug(t)),
    }
}

/// Brings a path segment into plain form, its generic arguments at most
/// `fuel` levels deep; with no fuel left its arguments are dropped.
fn convert_segment(s: &syn::PathSegment, fuel: usize) -> (r: PathSegmentRepr)
    ensures
        segment_depth(r) <= fuel,
        fuel == 0 ==> r.args is Other,
    decreases fuel,
{
    let ident = segment_name(s);
    if fuel == 0 {
        return PathSegmentRepr { ident, args: PathArgsRepr::Other };
    }
    let args = match segment_args(s) {
        ArgsRef::Bare => PathArgsRepr::Bare,
        ArgsRef::AngleBracketed(list) => {
            let mut out: Vec<GenericArgRepr> = Vec::new();
            let mut i: usize = 0;
            while i < list.len()
                invariant
                    fuel > 0,
                    args_depth(out@) <= fuel - 1,
                decreases list.len() - i,
            {
                let a = match generic_arg_ref(list[i]) {
                    GenericArgRef::Type(t) => GenericArgRepr::Type(convert_type(t, fuel - 1)),
                    GenericArgRef::Lifetime(l) => GenericArgRepr::Lifetime(l),
                    GenericArgRef::Other => GenericArgRepr::Other,
                };
                assert(arg_depth(a) <= fuel - 1);
                let ghost before = out@;
                out.push(a);
                assert(out@.drop_last() =~= before);
                i = i + 1;
            }
            PathArgsRepr::AngleBracketed(out)
        },
        ArgsRef::Other => PathArgsRepr::Other,
    };
    PathSegmentRepr { ident, args }
}

/// Brings an expression into plain form, at most `fuel` levels deep; with
/// no fuel left it is `Other`.
fn convert_expr(e: &syn::Expr, fuel: usize) -> (r: ExprRepr)
    ensures
        expr_depth(r) <= fuel,
        fuel == 0 ==> r is Other,
    decreases fuel,
{
    if fuel == 0 {
        return ExprRepr::Other;
    }
    match expr_ref(e) {
        ExprRef::MethodCall(c) => {
            let receiver_method = match expr_ref(method_call_receiver(c)) {
                ExprRef::MethodCall(inner) => Some(method_call_name(inner)),
                _ => None,
            };
            ExprRepr::MethodCall {
                method: method_call_name(c),
                receiver_method,
                first_arg: method_call_first_arg(c),
            }
        },
        ExprRef::Block(b) => ExprRepr::Block(convert_block(b, fuel - 1)),
        ExprRef::If(i) => {
            let then_branch = convert_block(if_then(i), fuel - 1);
            let else_branch = match if_else(i) {
                Some(x) => Some(Box::new(convert_expr(x, fuel - 1))),
                None => None,
            };
            ExprRepr::If { then_branch, else_branch }
        },
        ExprRef::Match(m) => {
            let bodies = match_arm_bodies(m);
            let mut arms: Vec<ExprRepr> = Vec::new();
            let mut i: usize = 0;
            while i < bodies.len()
                invariant
                    fuel > 0,
                    exprs_depth(arms@) <= fuel - 1,
                decreases bodies.len() - i,
            {
                let a = convert_expr(bodies[i], fuel - 1);
                let ghost before = arms@;
                arms.push(a);
                assert(arms@.drop_last() =~= before);
                i = i + 1;
            }
            ExprRepr::Match { arms }
        },
        ExprRef::Other => ExprRepr::Other,
    }
}

/// Brings a block into plain form, its statements at most `fuel` levels
/// deep; with no fuel left it is empty.
fn convert_block(b: &syn::Block, fuel: usize) -> (r: BlockRepr)
    ensures
        stmts_depth(r.stmts@) <= fuel,
        fuel == 0 ==> r.stmts@.len() == 0,
    decreases fuel,
{
    let mut stmts: Vec<StmtRepr> = Vec::new();
    if fuel == 0 {
        return BlockRepr { stmts };
    }
    let src = block_stmts(b);
    let mut i: usize = 0;
    while i < src.len()
        invariant
            fuel > 0,
            stmts_depth(stmts@) <= fuel - 1,
        decreases src.len() - i,
    {
        let s = match stmt_ref(&src[i]) {
            StmtRef::Expr(x) => StmtRepr::Expr(convert_expr(x, fuel - 1)),
            StmtRef::Local(Some(x)) => StmtRepr::Local(Some(convert_expr(x, fuel - 1))),
            StmtRef::Local(None) => StmtRepr::Local(None),
            StmtRef::Other => StmtRepr::Other,
        };
        assert(stmt_depth(s) <= fuel - 1);
        let ghost before = stmts@;
        stmts.push(s);
        assert(stmts@.drop_last() =~= before);
        i = i + 1;
    }
    BlockRepr { stmts }
}

/// The last path segment of each attribute, one entry per attribute.
fn convert_attrs(attrs: &Vec<syn::Attribute>) -> (r: Vec<Option<String>>)
    ensures
        r@.len() == attrs@.len(),
{
    let mut out: Vec<Option<String>> = Vec::new();
    let mut i: usize = 0;
    while i < attrs.len()
        invariant
            i <= attrs.len(),
            out@.len() == i,
        decreases attrs.len() - i,
    {
        out.push(attr_last_segment(&attrs[i]));
        i = i + 1;
    }
    out
}

/// The types of the fields, one per field, each at most `fuel` levels deep.
fn convert_types(fields: &Vec<&syn::Field>, fuel: usize) -> (r: Vec<TypeRepr>)
    ensures
        r@.len() == fields@.len(),
        types_depth(r@) <= fuel,
{
    let mut out: Vec<TypeRepr> = Vec::new();
    let mut i: usize = 0;
    while i < fields.len()
        invariant
            i <= fields.len(),
            out@.len() == i,
            types_depth(out@) <= fuel,
        decreases fields.len() - i,
    {
        let t = convert_type(field_type(fields[i]), fuel);
        let ghost before = out@;
        out.push(t);
        assert(out@.drop_last() =~= before);
        i = i + 1;
    }
    out
}

/// Brings a top-level item into plain form, its types and bodies at most
/// `fuel` levels deep.
fn convert_item(item: &syn::Item, fuel: usize) -> (r: ItemRepr)
    ensures
        item_depth(r) <= fuel,
{
    match item_ref(item) {
        ItemRef::Struct(s) => {
            let src = struct_fields(s);
            let mut fields: Vec<FieldRepr> = Vec::new();
            let mut i: usize = 0;
            while i < src.len()
                invariant
                    fields_depth(fields@) <= fuel,
                decreases src.len() - i,
            {
                let f = src[i];
                let fr = FieldRepr { name: field_name(f), ty: convert_type(field_type(f), fuel) };
                let ghost before = fields@;
                fields.push(fr);
                assert(fields@.drop_last() =~= before);
                i = i + 1;
            }
            ItemRepr::Struct { name: struct_name(s), attrs: convert_attrs(struct_attrs(s)), fields }
        },
        ItemRef::Enum(e) => {
            let src = enum_variants(e);
            let mut variants: Vec<VariantRepr> = Vec::new();
            let mut i: usize = 0;
            while i < src.len()
                invariant
                    variants_depth(variants@) <= fuel,
                decreases src.len() - i,
            {
                let v = src[i];
                let fields = match variant_fields(v) {
                    FieldsRef::Unit => VariantFieldsRepr::Unit,
                    FieldsRef::Unnamed(fs) => VariantFieldsRepr::Unnamed(convert_types(&fs, fuel)),
                    FieldsRef::Named(fs) => VariantFieldsRepr::Named(convert_types(&fs, fuel)),
                };
                let vr = VariantRepr { name: variant_name(v), fields };
                assert(variant_depth(vr) <= fuel);
                let ghost before = variants@;
                variants.push(vr);
                assert(variants@.drop_last() =~= before);
                i = i + 1;
            }
            ItemRepr::Enum { name: enum_name(e), attrs: convert_attrs(enum_attrs(e)), variants }
        },
        ItemRef::Fn(f) => ItemRepr::Fn(
            FnRepr { name: fn_name(f), is_pub: fn_is_pub(f), body: convert_block(fn_block(f), fuel) },
        ),
        ItemRef::Impl(im) => {
            let src = impl_items(im);
            let mut methods: Vec<FnRepr> = Vec::new();
            let mut i: usize = 0;
            while i < src.len()
                invariant
                    fns_depth(methods@) <= fuel,
                decreases src.len() - i,
            {
                match impl_item_fn(&src[i]) {
                    Some(m) => {
                        let fr = FnRepr {
                            name: method_name(m),
                            is_pub: method_is_pub(m),
                            body: convert_block(method_block(m), fuel),
                        };
                        let ghost before = methods@;
                        methods.push(fr);
                        assert(methods@.drop_last() =~= before);
                    },
                    None => {},
                }
                i = i + 1;
            }
            ItemRepr::Impl { methods }
        },
        ItemRef::Other => ItemRepr::Other,
    }
}

/// The nesting budget for a source text of `len` bytes: four levels per
/// byte and four more, or as many as a `usize` holds.
pub open spec fn parse_fuel(len: usize) -> nat {
    if len < usize::MAX / 4 - 1 {
        (len * 4 + 4) as nat
    } else {
        usize::MAX as nat
    }
}

/// Brings the items of a parsed file into the form the analyses read, each
/// at most `parse_fuel` levels deep for a text of `content`'s length.
pub(crate) fn read_file(file: &syn::File, content: &str) -> (r: SourceFile)
    ensures
        forall|i: int|
            0 <= i < r.items@.len() ==> item_depth(#[trigger] r.items@[i]) <= parse_fuel(content.len()),
{
    let fuel: usize = if content.len() < usize::MAX / 4 - 1 {
        content.len() * 4 + 4
    } else {
        usize::MAX
    };
    let src = file_items(file);
    let mut items: Vec<ItemRepr> = Vec::new();
    let mut i: usize = 0;
    while i < src.len()
        invariant
            fuel as nat == parse_fuel(content.len()),
            forall|k: int| 0 <= k < items@.len() ==> item_depth(#[trigger] items@[k]) <= fuel,
        decreases src.len() - i,
    {
        let it = convert_item(&src[i], fuel);
        let ghost before = items@;
        items.push(it);
        assert(forall|k: int| 0 <= k < before.len() ==> items@[k] == before[k]);
        i = i + 1;
    }
    SourceFile { items }
}

/// Parses the text of a Rust source file into the form the analyses read,
/// or gives the parser's error message.
pub(crate) fn parse_source(content: &str) -> (r: Result<SourceFile, String>)
    ensures
        r is Ok <==> parsed_file(content@) is Some,
        r matches Ok(file) ==> parsed_file(content@) == Some(file),
{
    match parse_and_read(content) {
        Err(e) => Err(syn_error_message(&e)),
        Ok(file) => Ok(file),
    }
}

} // verus!
