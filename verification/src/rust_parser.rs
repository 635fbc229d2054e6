//! Source-level analysis of a contract crate: its storage keys (types with
//! the `#[contracttype]` attribute) and the auth calls of its public
//! functions.
//!
//! Keys produced by procedural macros are not visible in the source and are
//! not found.
use vstd::prelude::*;
use crate::auth_extractor::{files_functions, items_functions, push_file_functions};
use crate::syn_bridge::{all_parse, first_unparsed, parse_source, parsed_file, parsed_files};
use crate::syntax::{
    arg_text, arg_texts, segment_text, segment_texts, type_text, FieldRepr, GenericArgRepr,
    ItemRepr, PathArgsRepr, PathSegmentRepr, SourceFile, SourceText, TypeRepr, VariantFieldsRepr,
    VariantRepr,
};
use crate::text::{concat3, join_strings, seq_join, str_eq, string_of};
use crate::types::{ContractAst, FieldInfo, FieldInfoView, StorageKey, StorageKeyKind, StorageKeyView};

verus! {

/// Why parsing a crate failed.
#[derive(Debug, Clone, PartialEq, Eq)]
pub enum ParseError {
    /// A source file could not be read.
    Io { path: String, message: String },
    /// A source file is not valid Rust.
    Syntax { path: String, line: usize, message: String },
    /// The crate's directory could not be walked.
    Walk(String),
}

// ---------------------------------------------------------------------------
// Types as text
// ---------------------------------------------------------------------------

/// The text of a type (see [`type_text`]).
#[verifier::loop_isolation(false)]
pub fn format_type(ty: &TypeRepr) -> (r: String)
    ensures
        r@ == type_text(*ty),
    decreases ty,
{
    match ty {
        TypeRepr::Path(segs) => {
            let mut texts: Vec<String> = Vec::new();
            let mut i: usize = 0;
            while i < segs.len()
                invariant
                    i <= segs.len(),
                    *ty == TypeRepr::Path(*segs),
                    texts.deep_view() =~= segment_texts(segs@.take(i as int)),
                decreases segs.len() - i,
            {
                assert(segs@.take(i + 1).drop_last() =~= segs@.take(i as int));
                assert(segs@.take(i + 1).last() == segs@[i as int]);
                let t = format_segment(&segs[i]);
                let ghost before = texts.deep_view();
                texts.push(t);
                assert(texts.deep_view() =~= before.push(segment_text(segs@[i as int])));
                i = i + 1;
            }
            assert(segs@.take(segs.len() as int) =~= segs@);
            join_strings(&texts, "::")
        },
        TypeRepr::Reference { mutable, elem } => {
            let mut s = string_of("&");
            if *mutable {
                s.append("mut ");
            }
            let inner = format_type(elem);
            s.append(inner.as_str());
            assert(s@ =~= type_text(*ty));
            s
        },
        TypeRepr::Other(s) => s.clone(),
    }
}

#[verifier::loop_isolation(false)]
fn format_segment(seg: &PathSegmentRepr) -> (r: String)
    ensures
        r@ == segment_text(*seg),
    decreases seg,
{
    match &seg.args {
        PathArgsRepr::AngleBracketed(args) => {
            let mut texts: Vec<String> = Vec::new();
            let mut i: usize = 0;
            while i < args.len()
                invariant
                    i <= args.len(),
                    seg.args == PathArgsRepr::AngleBracketed(*args),
                    texts.deep_view() =~= arg_texts(args@.take(i as int)),
                decreases args.len() - i,
            {
                assert(args@.take(i + 1).drop_last() =~= args@.take(i as int));
                assert(args@.take(i + 1).last() == args@[i as int]);
                let t = format_arg(&args[i]);
                let ghost before = texts.deep_view();
                texts.push(t);
                assert(texts.deep_view() =~= before.push(arg_text(args@[i as int])));
                i = i + 1;
            }
            assert(args@.take(args.len() as int) =~= args@);
            let joined = join_strings(&texts, ", ");
            let mut s = seg.ident.clone();
            s.append("<");
            s.append(joined.as_str());
            s.append(">");
            s
        },
        _ => seg.ident.clone(),
    }
}

fn format_arg(arg: &GenericArgRepr) -> (r: String)
    ensures
        r@ == arg_text(*arg),
    decreases arg,
{
    match arg {
        GenericArgRepr::Type(t) => format_type(t),
        GenericArgRepr::Lifetime(l) => l.clone(),
        GenericArgRepr::Other => string_of("..."),
    }
}

// ---------------------------------------------------------------------------
// Storage keys
// ---------------------------------------------------------------------------

/// Whether an attribute's path ends in `contracttype`.
pub open spec fn is_contracttype(attr: Option<String>) -> bool {
    attr matches Some(s) && s@ == "contracttype"@
}

/// Whether some attribute's path ends in `contracttype`.
pub open spec fn has_contracttype(attrs: Seq<Option<String>>) -> bool {
    exists|i: int| 0 <= i < attrs.len() && is_contracttype(#[trigger] attrs[i])
}

/// A struct field as a storage field: its name (empty for a tuple field)
/// and the text of its type.
pub open spec fn field_info(f: FieldRepr) -> FieldInfoView {
    FieldInfoView {
        name: match f.name {
            Some(n) => n@,
            None => Seq::empty(),
        },
        ty: type_text(f.ty),
    }
}

pub open spec fn struct_key(name: Seq<char>, fields: Seq<FieldRepr>) -> StorageKeyView {
    StorageKeyView {
        name,
        kind: StorageKeyKind::Struct,
        fields: Seq::new(fields.len(), |i: int| field_info(fields[i])),
    }
}

/// The texts of some types, joined with `, `.
pub open spec fn types_text(ts: Seq<TypeRepr>) -> Seq<char> {
    seq_join(Seq::new(ts.len(), |i: int| type_text(ts[i])), ", "@)
}

/// An enum variant as a storage field: its name, and `()` for a unit
/// variant or the texts of its field types otherwise.
pub open spec fn variant_info(v: VariantRepr) -> FieldInfoView {
    FieldInfoView {
        name: v.name@,
        ty: match v.fields {
            VariantFieldsRepr::Unit => "()"@,
            VariantFieldsRepr::Unnamed(ts) => types_text(ts@),
            VariantFieldsRepr::Named(ts) => types_text(ts@),
        },
    }
}

pub open spec fn enum_key(name: Seq<char>, variants: Seq<VariantRepr>) -> StorageKeyView {
    StorageKeyView {
        name,
        kind: StorageKeyKind::Enum,
        fields: Seq::new(variants.len(), |i: int| variant_info(variants[i])),
    }
}

/// The storage key an item declares, if any.
pub open spec fn item_storage_keys(it: ItemRepr) -> Seq<StorageKeyView> {
    match it {
        ItemRepr::Struct { name, attrs, fields } => if has_contracttype(attrs@) {
            seq![struct_key(name@, fields@)]
        } else {
            Seq::empty()
        },
        ItemRepr::Enum { name, attrs, variants } => if has_contracttype(attrs@) {
            seq![enum_key(name@, variants@)]
        } else {
            Seq::empty()
        },
        _ => Seq::empty(),
    }
}

pub open spec fn items_storage_keys(items: Seq<ItemRepr>) -> Seq<StorageKeyView>
    decreases items.len(),
{
    if items.len() == 0 {
        Seq::empty()
    } else {
        items_storage_keys(items.drop_last()) + item_storage_keys(items.last())
    }
}

pub open spec fn files_storage_keys(files: Seq<SourceFile>) -> Seq<StorageKeyView>
    decreases files.len(),
{
    if files.len() == 0 {
        Seq::empty()
    } else {
        files_storage_keys(files.drop_last()) + items_storage_keys(files.last().items@)
    }
}

/// Whether the attributes include `#[contracttype]` (by the last segment
/// of the path).
pub fn has_contracttype_attr(attrs: &Vec<Option<String>>) -> (r: bool)
    ensures
        r == has_contracttype(attrs@),
{
    let mut i: usize = 0;
    while i < attrs.len()
        invariant
            i <= attrs.len(),
            forall|j: int| 0 <= j < i ==> !is_contracttype(#[trigger] attrs@[j]),
        decreases attrs.len() - i,
    {
        match &attrs[i] {
            Some(s) => {
                if str_eq(s.as_str(), "contracttype") {
                    assert(is_contracttype(attrs@[i as int]));
                    return true;
                }
            },
            None => {},
        }
        i = i + 1;
    }
    false
}

/// The storage key of a `#[contracttype]` struct.
pub fn extract_struct_key(name: &String, fields: &Vec<FieldRepr>) -> (r: StorageKey)
    ensures
        r@ == struct_key(name@, fields@),
{
    let mut out: Vec<FieldInfo> = Vec::new();
    let mut i: usize = 0;
    while i < fields.len()
        invariant
            i <= fields.len(),
            out.deep_view() =~= Seq::new(i as nat, |k: int| field_info(fields@[k])),
        decreases fields.len() - i,
    {
        let f = &fields[i];
        let fname = match &f.name {
            Some(n) => n.clone(),
            None => String::new(),
        };
        let info = FieldInfo { name: fname, ty: format_type(&f.ty) };
        let ghost before = out.deep_view();
        out.push(info);
        assert(out.deep_view() =~= before.push(field_info(fields@[i as int])));
        i = i + 1;
    }
    StorageKey { name: name.clone(), kind: StorageKeyKind::Struct, fields: out }
}

fn format_types(ts: &Vec<TypeRepr>) -> (r: String)
    ensures
        r@ == types_text(ts@),
{
    let mut texts: Vec<String> = Vec::new();
    let mut i: usize = 0;
    while i < ts.len()
        invariant
            i <= ts.len(),
            texts.deep_view() =~= Seq::new(i as nat, |k: int| type_text(ts@[k])),
        decreases ts.len() - i,
    {
        let t = format_type(&ts[i]);
        let ghost before = texts.deep_view();
        texts.push(t);
        assert(texts.deep_view() =~= before.push(type_text(ts@[i as int])));
        i = i + 1;
    }
    join_strings(&texts, ", ")
}

/// The storage key of a `#[contracttype]` enum: one field per variant.
pub fn extract_enum_key(name: &String, variants: &Vec<VariantRepr>) -> (r: StorageKey)
    ensures
        r@ == enum_key(name@, variants@),
{
    let mut out: Vec<FieldInfo> = Vec::new();
    let mut i: usize = 0;
    while i < variants.len()
        invariant
            i <= variants.len(),
            out.deep_view() =~= Seq::new(i as nat, |k: int| variant_info(variants@[k])),
        decreases variants.len() - i,
    {
        let v = &variants[i];
        let ty = match &v.fields {
            VariantFieldsRepr::Unit => string_of("()"),
            VariantFieldsRepr::Unnamed(ts) => format_types(ts),
            VariantFieldsRepr::Named(ts) => format_types(ts),
        };
        let info = FieldInfo { name: v.name.clone(), ty };
        let ghost before = out.deep_view();
        out.push(info);
        assert(out.deep_view() =~= before.push(variant_info(variants@[i as int])));
        i = i + 1;
    }
    StorageKey { name: name.clone(), kind: StorageKeyKind::Enum, fields: out }
}

/// Appends the storage keys that a parsed file declares.
pub fn push_file_storage_keys(file: &SourceFile, keys: &mut Vec<StorageKey>)
    ensures
        final(keys).deep_view() == old(keys).deep_view() + items_storage_keys(file.items@),
{
    let ghost start = keys.deep_view();
    let items = &file.items;
    let mut i: usize = 0;
    while i < items.len()
        invariant
            i <= items.len(),
            keys.deep_view() == start + items_storage_keys(items@.take(i as int)),
        decreases items.len() - i,
    {
        assert(items@.take(i + 1).drop_last() =~= items@.take(i as int));
        assert(items@.take(i + 1).last() == items@[i as int]);
        let ghost before = keys.deep_view();
        match &items[i] {
            ItemRepr::Struct { name, attrs, fields } => {
                if has_contracttype_attr(attrs) {
                    let k = extract_struct_key(name, fields);
                    keys.push(k);
                    assert(keys.deep_view() =~= before.push(struct_key(name@, fields@)));
                }
            },
            ItemRepr::Enum { name, attrs, variants } => {
                if has_contracttype_attr(attrs) {
                    let k = extract_enum_key(name, variants);
                    keys.push(k);
                    assert(keys.deep_view() =~= before.push(enum_key(name@, variants@)));
                }
            },
            _ => {},
        }
        assert(keys.deep_view() =~= start + items_storage_keys(items@.take(i + 1)));
        i = i + 1;
    }
    assert(items@.take(items.len() as int) =~= items@);
}

/// Appends the storage keys and the public functions of a parsed file.
pub fn extract_from_file(
    file: &SourceFile,
    storage_keys: &mut Vec<StorageKey>,
    functions: &mut Vec<crate::types::FunctionAuth>,
)
    ensures
        final(storage_keys).deep_view() == old(storage_keys).deep_view() + items_storage_keys(
            file.items@,
        ),
        final(functions).deep_view() == old(functions).deep_view() + items_functions(file.items@),
{
    push_file_storage_keys(file, storage_keys);
    push_file_functions(file, functions);
}

/// Parses the sources of a crate and collects its storage keys and the
/// auth calls of its public functions.
///
/// On success the result is what the parsed files give, one file per
/// source, in order; a source that does not parse fails the whole with its
/// path and the parser's message.
pub fn parse_crate(sources: &Vec<SourceText>) -> (r: Result<ContractAst, ParseError>)
    ensures
        r is Ok <==> all_parse(sources@),
        match r {
            Ok(ast) => ast.storage_keys.deep_view() == files_storage_keys(parsed_files(sources@))
                && ast.functions.deep_view() == files_functions(parsed_files(sources@)),
            Err(ParseError::Syntax { path, line, .. }) => line == 0 && exists|i: int|
                first_unparsed(sources@, i) && path@ == sources@[i].path@,
            Err(_) => false,
        },
{
    let mut storage_keys: Vec<StorageKey> = Vec::new();
    let mut functions: Vec<crate::types::FunctionAuth> = Vec::new();
    let ghost mut files: Seq<SourceFile> = Seq::empty();
    let mut i: usize = 0;
    assert(storage_keys.deep_view() =~= files_storage_keys(files));
    assert(functions.deep_view() =~= files_functions(files));
    while i < sources.len()
        invariant
            i <= sources.len(),
            files.len() == i,
            forall|k: int|
                0 <= k < i ==> (#[trigger] parsed_file(sources@[k].content@)) is Some && files[k]
                    == parsed_file(sources@[k].content@)->0,
            storage_keys.deep_view() == files_storage_keys(files),
            functions.deep_view() == files_functions(files),
        decreases sources.len() - i,
    {
        match parse_source(sources[i].content.as_str()) {
            Err(message) => {
                assert(first_unparsed(sources@, i as int));
                return Err(ParseError::Syntax { path: sources[i].path.clone(), line: 0, message });
            },
            Ok(file) => {
                extract_from_file(&file, &mut storage_keys, &mut functions);
                proof {
                    assert(files.push(file).drop_last() =~= files);
                    files = files.push(file);
                }
            },
        }
        i = i + 1;
    }
    assert(files =~= parsed_files(sources@));
    Ok(ContractAst { storage_keys, functions })
}

// ---------------------------------------------------------------------------
// Laws
// ---------------------------------------------------------------------------

/// An item is marked as a storage type exactly when one of its attributes,
/// at any position, has a path whose last segment is `contracttype`.
pub proof fn lemma_contracttype_anywhere(attrs: Seq<Option<String>>)
    ensures
        has_contracttype(attrs) <==> exists|i: int|
            0 <= i < attrs.len() && (#[trigger] attrs[i] matches Some(s) && s@ == "contracttype"@),
{
    if has_contracttype(attrs) {
        let i = choose|i: int| 0 <= i < attrs.len() && is_contracttype(#[trigger] attrs[i]);
        assert(attrs[i] matches Some(s) && s@ == "contracttype"@);
    }
    if exists|i: int| 0 <= i < attrs.len() && (#[trigger] attrs[i] matches Some(s) && s@ == "contracttype"@) {
        let i = choose|i: int| 0 <= i < attrs.len() && (#[trigger] attrs[i] matches Some(s) && s@
            == "contracttype"@);
        assert(is_contracttype(attrs[i]));
    }
}

/// What an item declares as a storage key: a struct or enum marked
/// `contracttype` (by any of its attributes) gives one key under its name,
/// of its kind, with one field per struct field or enum variant, in order;
/// any other item gives none.
pub proof fn lemma_item_storage_key(it: ItemRepr)
    ensures
        (it matches ItemRepr::Struct { name, attrs, fields } ==> (item_storage_keys(it).len() == (if exists|i: int|
            0 <= i < attrs@.len() && (#[trigger] attrs@[i] matches Some(s) && s@ == "contracttype"@) {
            1int
        } else {
            0int
        })) && (item_storage_keys(it).len() == 1 ==> ({
            let k = item_storage_keys(it)[0];
            &&& k.name == name@
            &&& k.kind == StorageKeyKind::Struct
            &&& k.fields.len() == fields@.len()
            &&& forall|j: int| 0 <= j < fields@.len() ==> #[trigger] k.fields[j] == field_info(fields@[j])
        }))),
        (it matches ItemRepr::Enum { name, attrs, variants } ==> (item_storage_keys(it).len() == (if exists|i: int|
            0 <= i < attrs@.len() && (#[trigger] attrs@[i] matches Some(s) && s@ == "contracttype"@) {
            1int
        } else {
            0int
        })) && (item_storage_keys(it).len() == 1 ==> ({
            let k = item_storage_keys(it)[0];
            &&& k.name == name@
            &&& k.kind == StorageKeyKind::Enum
            &&& k.fields.len() == variants@.len()
            &&& forall|j: int| 0 <= j < variants@.len() ==> #[trigger] k.fields[j] == variant_info(variants@[j])
        }))),
        !(it is Struct || it is Enum) ==> item_storage_keys(it).len() == 0,
{
    match it {
        ItemRepr::Struct { attrs, .. } => {
            lemma_contracttype_anywhere(attrs@);
        },
        ItemRepr::Enum { attrs, .. } => {
            lemma_contracttype_anywhere(attrs@);
        },
        _ => {},
    }
}

/// The storage keys of some items are those of a first part followed by
/// those of the rest; one item gives its own.
pub proof fn lemma_items_storage_keys_split(a: Seq<ItemRepr>, b: Seq<ItemRepr>)
    ensures
        items_storage_keys(a + b) == items_storage_keys(a) + items_storage_keys(b),
        a.len() == 1 ==> items_storage_keys(a) == item_storage_keys(a[0]),
    decreases b.len(),
{
    if a.len() == 1 {
        assert(a.drop_last() =~= Seq::<ItemRepr>::empty());
        assert(items_storage_keys(a.drop_last()) == Seq::<StorageKeyView>::empty());
        assert(a.last() == a[0]);
        assert(Seq::<StorageKeyView>::empty() + item_storage_keys(a[0]) =~= item_storage_keys(a[0]));
    }
    if b.len() == 0 {
        assert(a + b =~= a);
        assert(items_storage_keys(a) + items_storage_keys(b) =~= items_storage_keys(a));
    } else {
        lemma_items_storage_keys_split(a, b.drop_last());
        assert((a + b).drop_last() =~= a + b.drop_last());
        assert((a + b).last() == b.last());
        assert(items_storage_keys(a) + items_storage_keys(b) =~= items_storage_keys(a) + items_storage_keys(
            b.drop_last(),
        ) + item_storage_keys(b.last()));
    }
}

/// The storage keys of some files are those of a first part followed by
/// those of the rest; one file gives those of its items.
pub proof fn lemma_files_storage_keys_split(a: Seq<SourceFile>, b: Seq<SourceFile>)
    ensures
        files_storage_keys(a + b) == files_storage_keys(a) + files_storage_keys(b),
        a.len() == 1 ==> files_storage_keys(a) == items_storage_keys(a[0].items@),
    decreases b.len(),
{
    if a.len() == 1 {
        assert(a.drop_last() =~= Seq::<SourceFile>::empty());
        assert(files_storage_keys(a.drop_last()) == Seq::<StorageKeyView>::empty());
        assert(a.last() == a[0]);
        assert(Seq::<StorageKeyView>::empty() + items_storage_keys(a[0].items@) =~= items_storage_keys(
            a[0].items@,
        ));
    }
    if b.len() == 0 {
        assert(a + b =~= a);
        assert(files_storage_keys(a) + files_storage_keys(b) =~= files_storage_keys(a));
    } else {
        lemma_files_storage_keys_split(a, b.drop_last());
        assert((a + b).drop_last() =~= a + b.drop_last());
        assert((a + b).last() == b.last());
        assert(files_storage_keys(a) + files_storage_keys(b) =~= files_storage_keys(a) + files_storage_keys(
            b.drop_last(),
        ) + items_storage_keys(b.last().items@));
    }
}

/// A path's text lists every segment, in order, each with its generic
/// arguments, every one of them, in order.
pub proof fn lemma_segment_texts(segs: Seq<PathSegmentRepr>, args: Seq<GenericArgRepr>)
    ensures
        segment_texts(segs).len() == segs.len(),
        forall|i: int| 0 <= i < segs.len() ==> #[trigger] segment_texts(segs)[i] == segment_text(segs[i]),
        arg_texts(args).len() == args.len(),
        forall|i: int| 0 <= i < args.len() ==> #[trigger] arg_texts(args)[i] == arg_text(args[i]),
    decreases segs.len() + args.len(),
{
    if segs.len() > 0 {
        lemma_segment_texts(segs.drop_last(), Seq::empty());
        assert forall|i: int| 0 <= i < segs.len() implies #[trigger] segment_texts(segs)[i] == segment_text(
            segs[i],
        ) by {
            if i < segs.len() - 1 {
                assert(segs.drop_last()[i] == segs[i]);
            }
        }
    }
    if args.len() > 0 {
        lemma_segment_texts(Seq::empty(), args.drop_last());
        assert forall|i: int| 0 <= i < args.len() implies #[trigger] arg_texts(args)[i] == arg_text(args[i]) by {
            if i < args.len() - 1 {
                assert(args.drop_last()[i] == args[i]);
            }
        }
    }
}

/// How types, fields and variants are written in the storage schema. A
/// reference is `&` (and `mut ` when mutable) before its target; a generic
/// argument is its type, its lifetime, or `...`; a segment with angle
/// brackets lists its arguments between `<` and `>`, separated by `, `. A
/// struct field is its name (empty for a tuple field) and its type; an enum
/// variant is its name and `()` when it has no fields, else the types of
/// its fields separated by `, `.
pub proof fn lemma_schema_text(t: TypeRepr, a: GenericArgRepr, seg: PathSegmentRepr, f: FieldRepr, v: VariantRepr)
    ensures
        t matches TypeRepr::Reference { mutable, elem } ==> type_text(t) == "&"@ + (if mutable {
            "mut "@
        } else {
            Seq::<char>::empty()
        }) + type_text(*elem),
        t matches TypeRepr::Path(segs) ==> type_text(t) == seq_join(segment_texts(segs@), "::"@),
        t matches TypeRepr::Other(s) ==> type_text(t) == s@,
        a matches GenericArgRepr::Type(x) ==> arg_text(a) == type_text(x),
        a matches GenericArgRepr::Lifetime(l) ==> arg_text(a) == l@,
        a is Other ==> arg_text(a) == "..."@,
        seg.args matches PathArgsRepr::AngleBracketed(args) ==> segment_text(seg) == seg.ident@ + "<"@
            + seq_join(arg_texts(args@), ", "@) + ">"@,
        !(seg.args is AngleBracketed) ==> segment_text(seg) == seg.ident@,
        field_info(f).ty == type_text(f.ty),
        f.name matches Some(n) ==> field_info(f).name == n@,
        f.name is None ==> field_info(f).name == Seq::<char>::empty(),
        variant_info(v).name == v.name@,
        v.fields is Unit ==> variant_info(v).ty == "()"@,
        v.fields matches VariantFieldsRepr::Unnamed(ts) ==> variant_info(v).ty == seq_join(
            Seq::new(ts@.len(), |i: int| type_text(ts@[i])),
            ", "@,
        ),
        v.fields matches VariantFieldsRepr::Named(ts) ==> variant_info(v).ty == seq_join(
            Seq::new(ts@.len(), |i: int| type_text(ts@[i])),
            ", "@,
        ),
{
}

} // verus!
