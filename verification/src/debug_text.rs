//! The `{:?}` renderings of the library's types, which the findings quote.
use vstd::prelude::*;
use crate::text::{concat2, concat3, debug_str, join_strings, seq_join, str_debug};
use crate::types::{FieldInfo, FieldInfoView, FunctionAuth, FunctionAuthView, ParamInfo, ParamInfoView, StorageKey, StorageKeyKind, StorageKeyView};

verus! {

/// `{:?}` of a [`StorageKeyKind`].
pub open spec fn kind_debug(k: StorageKeyKind) -> Seq<char> {
    match k {
        StorageKeyKind::Struct => "Struct"@,
        StorageKeyKind::Enum => "Enum"@,
    }
}

/// `{:?}` of a `bool`.
pub open spec fn bool_debug(b: bool) -> Seq<char> {
    if b {
        "true"@
    } else {
        "false"@
    }
}

/// `{:?}` of a [`FieldInfo`].
pub open spec fn field_debug(f: FieldInfoView) -> Seq<char> {
    "FieldInfo { name: "@ + str_debug(f.name) + ", ty: "@ + str_debug(f.ty) + " }"@
}

/// `{:?}` of a list of [`FieldInfo`].
pub open spec fn field_list_debug(fs: Seq<FieldInfoView>) -> Seq<char> {
    "["@ + seq_join(Seq::new(fs.len(), |i: int| field_debug(fs[i])), ", "@) + "]"@
}

/// `{:?}` of a [`StorageKey`].
pub open spec fn storage_key_debug(k: StorageKeyView) -> Seq<char> {
    "StorageKey { name: "@ + str_debug(k.name) + ", kind: "@ + kind_debug(k.kind) + ", fields: "@
        + field_list_debug(k.fields) + " }"@
}

/// `{:?}` of a [`FunctionAuth`].
pub open spec fn function_auth_debug(a: FunctionAuthView) -> Seq<char> {
    "FunctionAuth { function_name: "@ + str_debug(a.function_name) + ", has_require_auth: "@
        + bool_debug(a.has_require_auth) + ", has_require_auth_for_args: "@ + bool_debug(
        a.has_require_auth_for_args,
    ) + " }"@
}

/// `{:?}` of a [`ParamInfo`].
pub open spec fn param_debug(p: ParamInfoView) -> Seq<char> {
    "ParamInfo { name: "@ + str_debug(p.name) + ", ty: "@ + str_debug(p.ty) + " }"@
}

/// `{:?}` of a list of [`ParamInfo`].
pub open spec fn param_list_debug(ps: Seq<ParamInfoView>) -> Seq<char> {
    "["@ + seq_join(Seq::new(ps.len(), |i: int| param_debug(ps[i])), ", "@) + "]"@
}

pub(crate) fn debug_kind(k: StorageKeyKind) -> (r: &'static str)
    ensures
        r@ == kind_debug(k),
{
    match k {
        StorageKeyKind::Struct => "Struct",
        StorageKeyKind::Enum => "Enum",
    }
}

pub(crate) fn debug_bool(b: bool) -> (r: &'static str)
    ensures
        r@ == bool_debug(b),
{
    if b {
        "true"
    } else {
        "false"
    }
}

pub(crate) fn debug_field(f: &FieldInfo) -> (r: String)
    ensures
        r@ == field_debug(f@),
{
    let name = debug_str(f.name.as_str());
    let ty = debug_str(f.ty.as_str());
    let mut r = concat2("FieldInfo { name: ", name.as_str());
    r.append(", ty: ");
    r.append(ty.as_str());
    r.append(" }");
    r
}

pub(crate) fn debug_field_list(fs: &Vec<FieldInfo>) -> (r: String)
    ensures
        r@ == field_list_debug(fs.deep_view()),
{
    let ghost v = fs.deep_view();
    let mut items: Vec<String> = Vec::new();
    let n = fs.len();
    let mut i: usize = 0;
    while i < n
        invariant
            n == fs.len(),
            v == fs.deep_view(),
            i <= n,
            items.deep_view() =~= Seq::new(i as nat, |j: int| field_debug(v[j])),
        decreases n - i,
    {
        let s = debug_field(&fs[i]);
        let ghost before = items.deep_view();
        items.push(s);
        assert(items.deep_view() =~= before.push(field_debug(v[i as int])));
        i = i + 1;
    }
    let joined = join_strings(&items, ", ");
    concat3("[", joined.as_str(), "]")
}

pub(crate) fn debug_storage_key(k: &StorageKey) -> (r: String)
    ensures
        r@ == storage_key_debug(k@),
{
    let name = debug_str(k.name.as_str());
    let fields = debug_field_list(&k.fields);
    let mut r = concat2("StorageKey { name: ", name.as_str());
    r.append(", kind: ");
    r.append(debug_kind(k.kind));
    r.append(", fields: ");
    r.append(fields.as_str());
    r.append(" }");
    r
}

pub(crate) fn debug_function_auth(a: &FunctionAuth) -> (r: String)
    ensures
        r@ == function_auth_debug(a@),
{
    let name = debug_str(a.function_name.as_str());
    let mut r = concat2("FunctionAuth { function_name: ", name.as_str());
    r.append(", has_require_auth: ");
    r.append(debug_bool(a.has_require_auth));
    r.append(", has_require_auth_for_args: ");
    r.append(debug_bool(a.has_require_auth_for_args));
    r.append(" }");
    r
}

pub(crate) fn debug_param(p: &ParamInfo) -> (r: String)
    ensures
        r@ == param_debug(p@),
{
    let name = debug_str(p.name.as_str());
    let ty = debug_str(p.ty.as_str());
    let mut r = concat2("ParamInfo { name: ", name.as_str());
    r.append(", ty: ");
    r.append(ty.as_str());
    r.append(" }");
    r
}

pub(crate) fn debug_param_list(ps: &Vec<ParamInfo>) -> (r: String)
    ensures
        r@ == param_list_debug(ps.deep_view()),
{
    let ghost v = ps.deep_view();
    let mut items: Vec<String> = Vec::new();
    let n = ps.len();
    let mut i: usize = 0;
    while i < n
        invariant
            n == ps.len(),
            v == ps.deep_view(),
            i <= n,
            items.deep_view() =~= Seq::new(i as nat, |j: int| param_debug(v[j])),
        decreases n - i,
    {
        let s = debug_param(&ps[i]);
        let ghost before = items.deep_view();
        items.push(s);
        assert(items.deep_view() =~= before.push(param_debug(v[i as int])));
        i = i + 1;
    }
    let joined = join_strings(&items, ", ");
    concat3("[", joined.as_str(), "]")
}

} // verus!
