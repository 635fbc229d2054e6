//! Comparison of two contract versions.
//!
//! Each side is read as a map from name to entry: when a name occurs more
//! than once, its last entry stands for it. Names are visited in the order of
//! their last occurrence.
use vstd::prelude::*;
use crate::debug_text::{
    debug_function_auth, debug_kind, debug_param_list, debug_storage_key, function_auth_debug,
    kind_debug, param_list_debug, storage_key_debug,
};
use crate::text::{concat2, concat3, concat5, join_strings, seq_join, string_of};
use crate::types::{
    ContractSpec, DriftFinding, DriftFindingView, FieldInfo, FieldInfoView, FunctionAuth,
    FunctionAuthView, FunctionSpec, FunctionSpecView, ParamInfo, ParamInfoView, Severity,
    StorageKey, StorageKeyView,
};

verus! {

// ---------------------------------------------------------------------------
// Names and lookups
// ---------------------------------------------------------------------------

/// The index of the last entry of `names` equal to `name`, or -1 when there
/// is none.
pub open spec fn last_index(names: Seq<Seq<char>>, name: Seq<char>) -> int
    decreases names.len(),
{
    if names.len() == 0 {
        -1
    } else if names.last() == name {
        names.len() - 1
    } else {
        last_index(names.drop_last(), name)
    }
}

/// Whether entry `i` is the one that stands for its name.
pub open spec fn stands_for_name(names: Seq<Seq<char>>, i: int) -> bool {
    last_index(names, names[i]) == i
}

pub open spec fn key_names(s: Seq<StorageKeyView>) -> Seq<Seq<char>> {
    Seq::new(s.len(), |i: int| s[i].name)
}

pub open spec fn auth_names(s: Seq<FunctionAuthView>) -> Seq<Seq<char>> {
    Seq::new(s.len(), |i: int| s[i].function_name)
}

pub open spec fn spec_names(s: Seq<FunctionSpecView>) -> Seq<Seq<char>> {
    Seq::new(s.len(), |i: int| s[i].name)
}

/// `last_index` is -1 or the index of an entry with that name, and nothing
/// after it has that name.
pub proof fn lemma_last_index(names: Seq<Seq<char>>, name: Seq<char>)
    ensures
        -1 <= last_index(names, name) < names.len(),
        last_index(names, name) >= 0 ==> names[last_index(names, name)] == name,
        forall|j: int| last_index(names, name) < j < names.len() ==> names[j] != name,
    decreases names.len(),
{
    if names.len() > 0 && names.last() != name {
        lemma_last_index(names.drop_last(), name);
        assert forall|j: int| last_index(names, name) < j < names.len() implies names[j] != name by {
            if j < names.len() - 1 {
                assert(names[j] == names.drop_last()[j]);
            }
        }
    }
}

/// A name that occurs has a last occurrence.
pub proof fn lemma_last_index_found(names: Seq<Seq<char>>, i: int)
    requires
        0 <= i < names.len(),
    ensures
        i <= last_index(names, names[i]),
    decreases names.len(),
{
    lemma_last_index(names, names[i]);
    if names.last() != names[i] {
        lemma_last_index_found(names.drop_last(), i);
    }
}

fn find_last(names: &Vec<String>, name: &String) -> (r: Option<usize>)
    ensures
        match r {
            Some(i) => last_index(names.deep_view(), name@) == i as int,
            None => last_index(names.deep_view(), name@) == -1,
        },
{
    let ghost nv = names.deep_view();
    let mut j = names.len();
    assert(nv.take(j as int) =~= nv);
    while j > 0
        invariant
            nv == names.deep_view(),
            j <= names.len(),
            last_index(nv, name@) == last_index(nv.take(j as int), name@),
        decreases j,
    {
        assert(nv.take(j as int).drop_last() =~= nv.take(j - 1));
        if names[j - 1] == *name {
            return Some(j - 1);
        }
        j = j - 1;
    }
    None
}

fn storage_key_names(s: &[StorageKey]) -> (r: Vec<String>)
    ensures
        r.deep_view() == key_names(s.deep_view()),
{
    let mut r: Vec<String> = Vec::new();
    let mut i: usize = 0;
    while i < s.len()
        invariant
            i <= s.len(),
            r.deep_view() =~= key_names(s.deep_view()).take(i as int),
        decreases s.len() - i,
    {
        let ghost before = r.deep_view();
        r.push(s[i].name.clone());
        assert(r.deep_view() =~= before.push(key_names(s.deep_view())[i as int]));
        i = i + 1;
    }
    assert(key_names(s.deep_view()).take(s.len() as int) =~= key_names(s.deep_view()));
    r
}

fn function_auth_names(s: &[FunctionAuth]) -> (r: Vec<String>)
    ensures
        r.deep_view() == auth_names(s.deep_view()),
{
    let mut r: Vec<String> = Vec::new();
    let mut i: usize = 0;
    while i < s.len()
        invariant
            i <= s.len(),
            r.deep_view() =~= auth_names(s.deep_view()).take(i as int),
        decreases s.len() - i,
    {
        let ghost before = r.deep_view();
        r.push(s[i].function_name.clone());
        assert(r.deep_view() =~= before.push(auth_names(s.deep_view())[i as int]));
        i = i + 1;
    }
    assert(auth_names(s.deep_view()).take(s.len() as int) =~= auth_names(s.deep_view()));
    r
}

fn function_spec_names(s: &Vec<FunctionSpec>) -> (r: Vec<String>)
    ensures
        r.deep_view() == spec_names(s.deep_view()),
{
    let mut r: Vec<String> = Vec::new();
    let mut i: usize = 0;
    while i < s.len()
        invariant
            i <= s.len(),
            r.deep_view() =~= spec_names(s.deep_view()).take(i as int),
        decreases s.len() - i,
    {
        let ghost before = r.deep_view();
        r.push(s[i].name.clone());
        assert(r.deep_view() =~= before.push(spec_names(s.deep_view())[i as int]));
        i = i + 1;
    }
    assert(spec_names(s.deep_view()).take(s.len() as int) =~= spec_names(s.deep_view()));
    r
}

// ---------------------------------------------------------------------------
// Findings: model
// ---------------------------------------------------------------------------

pub open spec fn finding(
    severity: Severity,
    category: Seq<char>,
    message: Seq<char>,
    old_value: Option<Seq<char>>,
    new_value: Option<Seq<char>>,
) -> DriftFindingView {
    DriftFindingView { severity, category, message, old_value, new_value }
}

/// `name: ty`, as a field is listed in storage findings.
pub open spec fn field_text(f: FieldInfoView) -> Seq<char> {
    f.name + ": "@ + f.ty
}

pub open spec fn field_texts(fs: Seq<FieldInfoView>) -> Seq<Seq<char>> {
    Seq::new(fs.len(), |i: int| field_text(fs[i]))
}

/// Some field name occurs on both sides with different types, wherever
/// the field stands.
pub open spec fn has_type_change(o: Seq<FieldInfoView>, n: Seq<FieldInfoView>) -> bool {
    exists|i: int, j: int|
        0 <= i < o.len() && 0 <= j < n.len() && #[trigger] o[i].name == #[trigger] n[j].name
            && o[i].ty != n[j].ty
}

pub open spec fn removed_key_finding(k: StorageKeyView) -> DriftFindingView {
    finding(
        Severity::Breaking,
        "storage"@,
        "Storage key '"@ + k.name + "' was removed"@,
        Some(storage_key_debug(k)),
        None,
    )
}

pub open spec fn added_key_finding(k: StorageKeyView) -> DriftFindingView {
    finding(
        Severity::Warning,
        "storage"@,
        "Storage key '"@ + k.name + "' was added"@,
        None,
        Some(storage_key_debug(k)),
    )
}

/// What a key whose kind changed is reported as.
pub open spec fn kind_change_findings(o: StorageKeyView, n: StorageKeyView) -> Seq<DriftFindingView> {
    if o.kind != n.kind {
        seq![
            finding(
                Severity::Breaking,
                "storage"@,
                "Storage key '"@ + o.name + "' changed from "@ + kind_debug(o.kind) + " to "@
                    + kind_debug(n.kind),
                Some(kind_debug(o.kind)),
                Some(kind_debug(n.kind)),
            ),
        ]
    } else {
        Seq::empty()
    }
}

/// What a key whose fields changed is reported as: a type change of a field
/// that kept its name breaks readers; other changes are for information.
pub open spec fn field_change_findings(o: StorageKeyView, n: StorageKeyView) -> Seq<DriftFindingView> {
    if o.fields != n.fields && field_texts(o.fields) != field_texts(n.fields) {
        let old_text = seq_join(field_texts(o.fields), ", "@);
        let new_text = seq_join(field_texts(n.fields), ", "@);
        if has_type_change(o.fields, n.fields) {
            seq![
                finding(
                    Severity::Breaking,
                    "storage"@,
                    "Storage key '"@ + o.name + "' has field type changes"@,
                    Some(old_text),
                    Some(new_text),
                ),
            ]
        } else {
            seq![
                finding(
                    Severity::Info,
                    "storage"@,
                    "Storage key '"@ + o.name + "' fields changed (names/layout)"@,
                    Some(old_text),
                    Some(new_text),
                ),
            ]
        }
    } else {
        Seq::empty()
    }
}

/// What an old storage key is reported as, against the new keys.
pub open spec fn old_key_findings(k: StorageKeyView, new: Seq<StorageKeyView>) -> Seq<DriftFindingView> {
    let idx = last_index(key_names(new), k.name);
    if idx < 0 {
        seq![removed_key_finding(k)]
    } else {
        kind_change_findings(k, new[idx]) + field_change_findings(k, new[idx])
    }
}

/// Findings for the first `n` old keys.
pub open spec fn storage_scan_old(old: Seq<StorageKeyView>, new: Seq<StorageKeyView>, n: int) -> Seq<
    DriftFindingView,
>
    decreases n,
{
    if n <= 0 {
        Seq::empty()
    } else {
        storage_scan_old(old, new, n - 1) + if stands_for_name(key_names(old), n - 1) {
            old_key_findings(old[n - 1], new)
        } else {
            Seq::empty()
        }
    }
}

/// Findings for the first `n` new keys.
pub open spec fn storage_scan_new(old: Seq<StorageKeyView>, new: Seq<StorageKeyView>, n: int) -> Seq<
    DriftFindingView,
>
    decreases n,
{
    if n <= 0 {
        Seq::empty()
    } else {
        storage_scan_new(old, new, n - 1) + if stands_for_name(key_names(new), n - 1)
            && last_index(key_names(old), new[n - 1].name) < 0 {
            seq![added_key_finding(new[n - 1])]
        } else {
            Seq::empty()
        }
    }
}

/// All storage findings: removed and changed keys, then added keys.
pub open spec fn storage_findings(old: Seq<StorageKeyView>, new: Seq<StorageKeyView>) -> Seq<
    DriftFindingView,
> {
    storage_scan_old(old, new, old.len() as int) + storage_scan_new(old, new, new.len() as int)
}

pub open spec fn auth_finding(
    severity: Severity,
    message: Seq<char>,
    old_value: Option<Seq<char>>,
    new_value: Option<Seq<char>>,
) -> DriftFindingView {
    finding(severity, "auth"@, message, old_value, new_value)
}

/// A function that had `require_auth()` and lost it: a weakening to
/// `require_auth_for_args()` is a warning, a plain drop breaks.
pub open spec fn auth_drop_findings(o: FunctionAuthView, n: FunctionAuthView) -> Seq<DriftFindingView> {
    if o.has_require_auth && !n.has_require_auth {
        if n.has_require_auth_for_args {
            seq![
                auth_finding(
                    Severity::Warning,
                    "Function '"@ + o.function_name
                        + "' changed from require_auth() to require_auth_for_args()"@,
                    Some("require_auth"@),
                    Some("require_auth_for_args"@),
                ),
            ]
        } else {
            seq![
                auth_finding(
                    Severity::Breaking,
                    "Function '"@ + o.function_name + "' dropped require_auth()"@,
                    Some("require_auth"@),
                    Some("(none)"@),
                ),
            ]
        }
    } else {
        Seq::empty()
    }
}

/// A function that had `require_auth_for_args()` and has no auth call left.
pub open spec fn auth_args_drop_findings(o: FunctionAuthView, n: FunctionAuthView) -> Seq<
    DriftFindingView,
> {
    if o.has_require_auth_for_args && !n.has_require_auth_for_args && !n.has_require_auth {
        seq![
            auth_finding(
                Severity::Breaking,
                "Function '"@ + o.function_name + "' dropped require_auth_for_args()"@,
                Some("require_auth_for_args"@),
                Some("(none)"@),
            ),
        ]
    } else {
        Seq::empty()
    }
}

pub open spec fn old_fn_auth_findings(o: FunctionAuthView, new: Seq<FunctionAuthView>) -> Seq<
    DriftFindingView,
> {
    let idx = last_index(auth_names(new), o.function_name);
    if idx < 0 {
        seq![
            auth_finding(
                Severity::Info,
                "Function '"@ + o.function_name + "' was removed"@,
                Some(function_auth_debug(o)),
                None,
            ),
        ]
    } else {
        auth_drop_findings(o, new[idx]) + auth_args_drop_findings(o, new[idx])
    }
}

pub open spec fn auth_scan_old(old: Seq<FunctionAuthView>, new: Seq<FunctionAuthView>, n: int) -> Seq<
    DriftFindingView,
>
    decreases n,
{
    if n <= 0 {
        Seq::empty()
    } else {
        auth_scan_old(old, new, n - 1) + if stands_for_name(auth_names(old), n - 1) {
            old_fn_auth_findings(old[n - 1], new)
        } else {
            Seq::empty()
        }
    }
}

pub open spec fn added_fn_auth_finding(n: FunctionAuthView) -> DriftFindingView {
    auth_finding(
        Severity::Info,
        "Function '"@ + n.function_name + "' was added"@,
        None,
        Some(function_auth_debug(n)),
    )
}

pub open spec fn auth_scan_new(old: Seq<FunctionAuthView>, new: Seq<FunctionAuthView>, n: int) -> Seq<
    DriftFindingView,
>
    decreases n,
{
    if n <= 0 {
        Seq::empty()
    } else {
        auth_scan_new(old, new, n - 1) + if stands_for_name(auth_names(new), n - 1)
            && last_index(auth_names(old), new[n - 1].function_name) < 0 {
            seq![added_fn_auth_finding(new[n - 1])]
        } else {
            Seq::empty()
        }
    }
}

/// All auth findings: removed and weakened functions, then added ones.
pub open spec fn auth_findings(old: Seq<FunctionAuthView>, new: Seq<FunctionAuthView>) -> Seq<
    DriftFindingView,
> {
    auth_scan_old(old, new, old.len() as int) + auth_scan_new(old, new, new.len() as int)
}

/// `(inputs) -> (outputs)`, as a signature is quoted in findings.
pub open spec fn signature_text(f: FunctionSpecView) -> Seq<char> {
    "("@ + param_list_debug(f.inputs) + ") -> ("@ + param_list_debug(f.outputs) + ")"@
}

pub open spec fn signature_finding(
    message: Seq<char>,
    old_value: Option<Seq<char>>,
    new_value: Option<Seq<char>>,
) -> DriftFindingView {
    finding(Severity::Info, "signature"@, message, old_value, new_value)
}

pub open spec fn old_fn_spec_findings(o: FunctionSpecView, new: Seq<FunctionSpecView>) -> Seq<
    DriftFindingView,
> {
    let idx = last_index(spec_names(new), o.name);
    if idx < 0 {
        seq![signature_finding("Function '"@ + o.name + "' was removed from spec"@, None, None)]
    } else if o.inputs != new[idx].inputs || o.outputs != new[idx].outputs {
        seq![
            signature_finding(
                "Function '"@ + o.name + "' signature changed"@,
                Some(signature_text(o)),
                Some(signature_text(new[idx])),
            ),
        ]
    } else {
        Seq::empty()
    }
}

pub open spec fn spec_scan_old(old: Seq<FunctionSpecView>, new: Seq<FunctionSpecView>, n: int) -> Seq<
    DriftFindingView,
>
    decreases n,
{
    if n <= 0 {
        Seq::empty()
    } else {
        spec_scan_old(old, new, n - 1) + if stands_for_name(spec_names(old), n - 1) {
            old_fn_spec_findings(old[n - 1], new)
        } else {
            Seq::empty()
        }
    }
}

pub open spec fn spec_scan_new(old: Seq<FunctionSpecView>, new: Seq<FunctionSpecView>, n: int) -> Seq<
    DriftFindingView,
>
    decreases n,
{
    if n <= 0 {
        Seq::empty()
    } else {
        spec_scan_new(old, new, n - 1) + if stands_for_name(spec_names(new), n - 1)
            && last_index(spec_names(old), new[n - 1].name) < 0 {
            seq![
                signature_finding(
                    "Function '"@ + new[n - 1].name + "' was added to spec"@,
                    None,
                    None,
                ),
            ]
        } else {
            Seq::empty()
        }
    }
}

/// All signature findings: removed and changed functions, then added ones.
pub open spec fn signature_findings(old: Seq<FunctionSpecView>, new: Seq<FunctionSpecView>) -> Seq<
    DriftFindingView,
> {
    spec_scan_old(old, new, old.len() as int) + spec_scan_new(old, new, new.len() as int)
}

/// Everything that differs between two versions: storage, then auth, then
/// signature findings.
pub open spec fn drift_findings(
    old_storage: Seq<StorageKeyView>,
    new_storage: Seq<StorageKeyView>,
    old_auth: Seq<FunctionAuthView>,
    new_auth: Seq<FunctionAuthView>,
    old_spec: Seq<FunctionSpecView>,
    new_spec: Seq<FunctionSpecView>,
) -> Seq<DriftFindingView> {
    storage_findings(old_storage, new_storage) + auth_findings(old_auth, new_auth)
        + signature_findings(old_spec, new_spec)
}

// ---------------------------------------------------------------------------
// Storage
// ---------------------------------------------------------------------------

fn fields_equal(a: &Vec<FieldInfo>, b: &Vec<FieldInfo>) -> (r: bool)
    ensures
        r == (a.deep_view() == b.deep_view()),
{
    let ghost av = a.deep_view();
    let ghost bv = b.deep_view();
    if a.len() != b.len() {
        assert(av.len() != bv.len());
        return false;
    }
    let mut i: usize = 0;
    while i < a.len()
        invariant
            av == a.deep_view(),
            bv == b.deep_view(),
            a.len() == b.len(),
            i <= a.len(),
            forall|j: int| 0 <= j < i ==> av[j] == bv[j],
        decreases a.len() - i,
    {
        if !(a[i].name == b[i].name && a[i].ty == b[i].ty) {
            assert(av[i as int] != bv[i as int]);
            return false;
        }
        i = i + 1;
    }
    assert(av =~= bv);
    true
}

fn texts_equal(a: &Vec<String>, b: &Vec<String>) -> (r: bool)
    ensures
        r == (a.deep_view() == b.deep_view()),
{
    let ghost av = a.deep_view();
    let ghost bv = b.deep_view();
    if a.len() != b.len() {
        assert(av.len() != bv.len());
        return false;
    }
    let mut i: usize = 0;
    while i < a.len()
        invariant
            av == a.deep_view(),
            bv == b.deep_view(),
            a.len() == b.len(),
            i <= a.len(),
            forall|j: int| 0 <= j < i ==> av[j] == bv[j],
        decreases a.len() - i,
    {
        if !(a[i] == b[i]) {
            assert(av[i as int] != bv[i as int]);
            return false;
        }
        i = i + 1;
    }
    assert(av =~= bv);
    true
}

fn field_text_list(fs: &Vec<FieldInfo>) -> (r: Vec<String>)
    ensures
        r.deep_view() == field_texts(fs.deep_view()),
{
    let ghost fv = fs.deep_view();
    let mut r: Vec<String> = Vec::new();
    let mut i: usize = 0;
    while i < fs.len()
        invariant
            fv == fs.deep_view(),
            i <= fs.len(),
            r.deep_view() =~= field_texts(fv).take(i as int),
        decreases fs.len() - i,
    {
        let t = concat3(fs[i].name.as_str(), ": ", fs[i].ty.as_str());
        let ghost before = r.deep_view();
        r.push(t);
        assert(r.deep_view() =~= before.push(field_texts(fv)[i as int]));
        i = i + 1;
    }
    assert(field_texts(fv).take(fs.len() as int) =~= field_texts(fv));
    r
}

fn fields_have_type_change(a: &Vec<FieldInfo>, b: &Vec<FieldInfo>) -> (r: bool)
    ensures
        r == has_type_change(a.deep_view(), b.deep_view()),
{
    let ghost av = a.deep_view();
    let ghost bv = b.deep_view();
    let mut i: usize = 0;
    while i < a.len()
        invariant
            av == a.deep_view(),
            bv == b.deep_view(),
            i <= a.len(),
            forall|x: int, y: int|
                0 <= x < i && 0 <= y < bv.len() ==> !(av[x].name == bv[y].name && av[x].ty
                    != bv[y].ty),
        decreases a.len() - i,
    {
        let mut j: usize = 0;
        while j < b.len()
            invariant
                av == a.deep_view(),
                bv == b.deep_view(),
                i < a.len(),
                j <= b.len(),
                forall|y: int| 0 <= y < j ==> !(av[i as int].name == bv[y].name && av[i as int].ty != bv[y].ty),
            decreases b.len() - j,
        {
            if a[i].name == b[j].name && !(a[i].ty == b[j].ty) {
                assert(av[i as int].name == bv[j as int].name && av[i as int].ty != bv[j as int].ty);
                return true;
            }
            j = j + 1;
        }
        i = i + 1;
    }
    false
}

fn make_finding(
    severity: Severity,
    category: &str,
    message: String,
    old_value: Option<String>,
    new_value: Option<String>,
) -> (r: DriftFinding)
    ensures
        r@ == finding(severity, category@, message@, old_value.deep_view(), new_value.deep_view()),
{
    DriftFinding { severity, category: string_of(category), message, old_value, new_value }
}

fn push_kind_change(o: &StorageKey, n: &StorageKey, findings: &mut Vec<DriftFinding>)
    ensures
        final(findings).deep_view() == old(findings).deep_view() + kind_change_findings(o@, n@),
{
    if o.kind != n.kind {
        let mut m = concat3("Storage key '", o.name.as_str(), "' changed from ");
        m.append(debug_kind(o.kind));
        m.append(" to ");
        m.append(debug_kind(n.kind));
        let f = make_finding(
            Severity::Breaking,
            "storage",
            m,
            Some(string_of(debug_kind(o.kind))),
            Some(string_of(debug_kind(n.kind))),
        );
        let ghost before = findings.deep_view();
        findings.push(f);
        assert(findings.deep_view() =~= before + kind_change_findings(o@, n@));
    } else {
        assert(findings.deep_view() =~= old(findings).deep_view() + kind_change_findings(o@, n@));
    }
}

fn push_field_change(o: &StorageKey, n: &StorageKey, findings: &mut Vec<DriftFinding>)
    ensures
        final(findings).deep_view() == old(findings).deep_view() + field_change_findings(o@, n@),
{
    let ghost before = findings.deep_view();
    if !fields_equal(&o.fields, &n.fields) {
        let old_fields = field_text_list(&o.fields);
        let new_fields = field_text_list(&n.fields);
        if !texts_equal(&old_fields, &new_fields) {
            let old_text = join_strings(&old_fields, ", ");
            let new_text = join_strings(&new_fields, ", ");
            let f = if fields_have_type_change(&o.fields, &n.fields) {
                make_finding(
                    Severity::Breaking,
                    "storage",
                    concat3("Storage key '", o.name.as_str(), "' has field type changes"),
                    Some(old_text),
                    Some(new_text),
                )
            } else {
                make_finding(
                    Severity::Info,
                    "storage",
                    concat3("Storage key '", o.name.as_str(), "' fields changed (names/layout)"),
                    Some(old_text),
                    Some(new_text),
                )
            };
            findings.push(f);
            assert(findings.deep_view() =~= before + field_change_findings(o@, n@));
            return;
        }
    }
    assert(findings.deep_view() =~= before + field_change_findings(o@, n@));
}

fn push_old_key_findings(
    k: &StorageKey,
    new: &[StorageKey],
    new_names: &Vec<String>,
    findings: &mut Vec<DriftFinding>,
)
    requires
        new_names.deep_view() == key_names(new.deep_view()),
    ensures
        final(findings).deep_view() == old(findings).deep_view() + old_key_findings(k@, new.deep_view()),
{
    let ghost before = findings.deep_view();
    match find_last(new_names, &k.name) {
        None => {
            let f = make_finding(
                Severity::Breaking,
                "storage",
                concat3("Storage key '", k.name.as_str(), "' was removed"),
                Some(debug_storage_key(k)),
                None,
            );
            findings.push(f);
            assert(findings.deep_view() =~= before + old_key_findings(k@, new.deep_view()));
        },
        Some(idx) => {
            proof {
                lemma_last_index(new_names.deep_view(), k.name@);
            }
            let n = &new[idx];
            push_kind_change(k, n, findings);
            push_field_change(k, n, findings);
            assert(findings.deep_view() =~= before + old_key_findings(k@, new.deep_view()));
        },
    }
}

/// Appends the storage findings (and nothing else) to `findings`.
pub fn diff_storage(old_keys: &[StorageKey], new_keys: &[StorageKey], findings: &mut Vec<DriftFinding>)
    ensures
        final(findings).deep_view() == old(findings).deep_view() + storage_findings(
            old_keys.deep_view(),
            new_keys.deep_view(),
        ),
{
    let ghost start = findings.deep_view();
    let ghost ov = old_keys.deep_view();
    let ghost nv = new_keys.deep_view();
    let old_names = storage_key_names(old_keys);
    let new_names = storage_key_names(new_keys);
    let mut i: usize = 0;
    while i < old_keys.len()
        invariant
            ov == old_keys.deep_view(),
            nv == new_keys.deep_view(),
            old_names.deep_view() == key_names(ov),
            new_names.deep_view() == key_names(nv),
            i <= old_keys.len(),
            findings.deep_view() == start + storage_scan_old(ov, nv, i as int),
        decreases old_keys.len() - i,
    {
        assert(key_names(ov)[i as int] == old_keys[i as int].name@);
        assert(ov[i as int] == old_keys[i as int]@);
        let last = find_last(&old_names, &old_keys[i].name);
        if last == Some(i) {
            push_old_key_findings(&old_keys[i], new_keys, &new_names, findings);
        }
        assert(findings.deep_view() =~= start + storage_scan_old(ov, nv, i + 1));
        i = i + 1;
    }
    let ghost mid = findings.deep_view();
    let mut i: usize = 0;
    while i < new_keys.len()
        invariant
            ov == old_keys.deep_view(),
            nv == new_keys.deep_view(),
            old_names.deep_view() == key_names(ov),
            new_names.deep_view() == key_names(nv),
            i <= new_keys.len(),
            findings.deep_view() == mid + storage_scan_new(ov, nv, i as int),
        decreases new_keys.len() - i,
    {
        let ghost before = findings.deep_view();
        assert(key_names(nv)[i as int] == new_keys[i as int].name@);
        assert(nv[i as int] == new_keys[i as int]@);
        let last = find_last(&new_names, &new_keys[i].name);
        if last == Some(i) {
            if find_last(&old_names, &new_keys[i].name).is_none() {
                let f = make_finding(
                    Severity::Warning,
                    "storage",
                    concat3("Storage key '", new_keys[i].name.as_str(), "' was added"),
                    None,
                    Some(debug_storage_key(&new_keys[i])),
                );
                findings.push(f);
                assert(f@ == added_key_finding(nv[i as int]));
                assert(findings.deep_view() =~= before.push(added_key_finding(nv[i as int])));
                assert(stands_for_name(key_names(nv), i as int));
                assert(last_index(key_names(ov), nv[i as int].name) < 0);
            }
        }
        assert(findings.deep_view() =~= mid + storage_scan_new(ov, nv, i + 1));
        i = i + 1;
    }
}

// ---------------------------------------------------------------------------
// Auth
// ---------------------------------------------------------------------------

fn push_old_fn_auth_findings(
    o: &FunctionAuth,
    new_fns: &[FunctionAuth],
    new_names: &Vec<String>,
    findings: &mut Vec<DriftFinding>,
)
    requires
        new_names.deep_view() == auth_names(new_fns.deep_view()),
    ensures
        final(findings).deep_view() == old(findings).deep_view() + old_fn_auth_findings(
            o@,
            new_fns.deep_view(),
        ),
{
    let ghost before = findings.deep_view();
    match find_last(new_names, &o.function_name) {
        None => {
            let f = make_finding(
                Severity::Info,
                "auth",
                concat3("Function '", o.function_name.as_str(), "' was removed"),
                Some(debug_function_auth(o)),
                None,
            );
            findings.push(f);
            assert(findings.deep_view() =~= before + old_fn_auth_findings(o@, new_fns.deep_view()));
        },
        Some(idx) => {
            proof {
                lemma_last_index(new_names.deep_view(), o.function_name@);
            }
            let n = &new_fns[idx];
            assert(new_fns.deep_view()[idx as int] == n@);
            if o.has_require_auth && !n.has_require_auth {
                let f = if n.has_require_auth_for_args {
                    make_finding(
                        Severity::Warning,
                        "auth",
                        concat3(
                            "Function '",
                            o.function_name.as_str(),
                            "' changed from require_auth() to require_auth_for_args()",
                        ),
                        Some(string_of("require_auth")),
                        Some(string_of("require_auth_for_args")),
                    )
                } else {
                    make_finding(
                        Severity::Breaking,
                        "auth",
                        concat3("Function '", o.function_name.as_str(), "' dropped require_auth()"),
                        Some(string_of("require_auth")),
                        Some(string_of("(none)")),
                    )
                };
                findings.push(f);
            }
            let ghost mid = findings.deep_view();
            assert(mid =~= before + auth_drop_findings(o@, n@));
            if o.has_require_auth_for_args && !n.has_require_auth_for_args && !n.has_require_auth {
                let f = make_finding(
                    Severity::Breaking,
                    "auth",
                    concat3(
                        "Function '",
                        o.function_name.as_str(),
                        "' dropped require_auth_for_args()",
                    ),
                    Some(string_of("require_auth_for_args")),
                    Some(string_of("(none)")),
                );
                findings.push(f);
            }
            assert(findings.deep_view() =~= mid + auth_args_drop_findings(o@, n@));
            assert(findings.deep_view() =~= before + old_fn_auth_findings(o@, new_fns.deep_view()));
        },
    }
}

/// Appends the auth findings (and nothing else) to `findings`.
pub fn diff_auth(old_fns: &[FunctionAuth], new_fns: &[FunctionAuth], findings: &mut Vec<DriftFinding>)
    ensures
        final(findings).deep_view() == old(findings).deep_view() + auth_findings(
            old_fns.deep_view(),
            new_fns.deep_view(),
        ),
{
    let ghost start = findings.deep_view();
    let ghost ov = old_fns.deep_view();
    let ghost nv = new_fns.deep_view();
    let old_names = function_auth_names(old_fns);
    let new_names = function_auth_names(new_fns);
    let mut i: usize = 0;
    while i < old_fns.len()
        invariant
            ov == old_fns.deep_view(),
            nv == new_fns.deep_view(),
            old_names.deep_view() == auth_names(ov),
            new_names.deep_view() == auth_names(nv),
            i <= old_fns.len(),
            findings.deep_view() == start + auth_scan_old(ov, nv, i as int),
        decreases old_fns.len() - i,
    {
        assert(auth_names(ov)[i as int] == old_fns[i as int].function_name@);
        assert(ov[i as int] == old_fns[i as int]@);
        let last = find_last(&old_names, &old_fns[i].function_name);
        if last == Some(i) {
            push_old_fn_auth_findings(&old_fns[i], new_fns, &new_names, findings);
        }
        assert(findings.deep_view() =~= start + auth_scan_old(ov, nv, i + 1));
        i = i + 1;
    }
    let ghost mid = findings.deep_view();
    let mut i: usize = 0;
    while i < new_fns.len()
        invariant
            ov == old_fns.deep_view(),
            nv == new_fns.deep_view(),
            old_names.deep_view() == auth_names(ov),
            new_names.deep_view() == auth_names(nv),
            i <= new_fns.len(),
            findings.deep_view() == mid + auth_scan_new(ov, nv, i as int),
        decreases new_fns.len() - i,
    {
        let ghost before = findings.deep_view();
        assert(auth_names(nv)[i as int] == new_fns[i as int].function_name@);
        assert(nv[i as int] == new_fns[i as int]@);
        let last = find_last(&new_names, &new_fns[i].function_name);
        if last == Some(i) {
            if find_last(&old_names, &new_fns[i].function_name).is_none() {
                let f = make_finding(
                    Severity::Info,
                    "auth",
                    concat3("Function '", new_fns[i].function_name.as_str(), "' was added"),
                    None,
                    Some(debug_function_auth(&new_fns[i])),
                );
                findings.push(f);
                assert(f@ == added_fn_auth_finding(nv[i as int]));
                assert(findings.deep_view() =~= before.push(added_fn_auth_finding(nv[i as int])));
            }
        }
        assert(findings.deep_view() =~= mid + auth_scan_new(ov, nv, i + 1));
        i = i + 1;
    }
}

// ---------------------------------------------------------------------------
// Signatures
// ---------------------------------------------------------------------------

fn params_equal(a: &Vec<ParamInfo>, b: &Vec<ParamInfo>) -> (r: bool)
    ensures
        r == (a.deep_view() == b.deep_view()),
{
    let ghost av = a.deep_view();
    let ghost bv = b.deep_view();
    if a.len() != b.len() {
        assert(av.len() != bv.len());
        return false;
    }
    let mut i: usize = 0;
    while i < a.len()
        invariant
            av == a.deep_view(),
            bv == b.deep_view(),
            a.len() == b.len(),
            i <= a.len(),
            forall|j: int| 0 <= j < i ==> av[j] == bv[j],
        decreases a.len() - i,
    {
        if !(a[i].name == b[i].name && a[i].ty == b[i].ty) {
            assert(av[i as int] != bv[i as int]);
            return false;
        }
        i = i + 1;
    }
    assert(av =~= bv);
    true
}

fn signature_string(f: &FunctionSpec) -> (r: String)
    ensures
        r@ == signature_text(f@),
{
    let inputs = debug_param_list(&f.inputs);
    let outputs = debug_param_list(&f.outputs);
    concat5("(", inputs.as_str(), ") -> (", outputs.as_str(), ")")
}

fn push_old_fn_spec_findings(
    o: &FunctionSpec,
    new_fns: &Vec<FunctionSpec>,
    new_names: &Vec<String>,
    findings: &mut Vec<DriftFinding>,
)
    requires
        new_names.deep_view() == spec_names(new_fns.deep_view()),
    ensures
        final(findings).deep_view() == old(findings).deep_view() + old_fn_spec_findings(
            o@,
            new_fns.deep_view(),
        ),
{
    let ghost before = findings.deep_view();
    match find_last(new_names, &o.name) {
        None => {
            let f = make_finding(
                Severity::Info,
                "signature",
                concat3("Function '", o.name.as_str(), "' was removed from spec"),
                None,
                None,
            );
            findings.push(f);
            assert(findings.deep_view() =~= before + old_fn_spec_findings(o@, new_fns.deep_view()));
        },
        Some(idx) => {
            proof {
                lemma_last_index(new_names.deep_view(), o.name@);
            }
            let n = &new_fns[idx];
            assert(new_fns.deep_view()[idx as int] == n@);
            if !params_equal(&o.inputs, &n.inputs) || !params_equal(&o.outputs, &n.outputs) {
                let f = make_finding(
                    Severity::Info,
                    "signature",
                    concat3("Function '", o.name.as_str(), "' signature changed"),
                    Some(signature_string(o)),
                    Some(signature_string(n)),
                );
                findings.push(f);
            }
            assert(findings.deep_view() =~= before + old_fn_spec_findings(o@, new_fns.deep_view()));
        },
    }
}

/// Appends the signature findings (and nothing else) to `findings`.
pub fn diff_spec(old_spec: &ContractSpec, new_spec: &ContractSpec, findings: &mut Vec<DriftFinding>)
    ensures
        final(findings).deep_view() == old(findings).deep_view() + signature_findings(
            old_spec@,
            new_spec@,
        ),
{
    let old_fns = &old_spec.functions;
    let new_fns = &new_spec.functions;
    let ghost start = findings.deep_view();
    let ghost ov = old_fns.deep_view();
    let ghost nv = new_fns.deep_view();
    let old_names = function_spec_names(old_fns);
    let new_names = function_spec_names(new_fns);
    let mut i: usize = 0;
    while i < old_fns.len()
        invariant
            ov == old_fns.deep_view(),
            nv == new_fns.deep_view(),
            old_names.deep_view() == spec_names(ov),
            new_names.deep_view() == spec_names(nv),
            i <= old_fns.len(),
            findings.deep_view() == start + spec_scan_old(ov, nv, i as int),
        decreases old_fns.len() - i,
    {
        assert(spec_names(ov)[i as int] == old_fns[i as int].name@);
        assert(ov[i as int] == old_fns[i as int]@);
        let last = find_last(&old_names, &old_fns[i].name);
        if last == Some(i) {
            push_old_fn_spec_findings(&old_fns[i], new_fns, &new_names, findings);
        }
        assert(findings.deep_view() =~= start + spec_scan_old(ov, nv, i + 1));
        i = i + 1;
    }
    let ghost mid = findings.deep_view();
    let mut i: usize = 0;
    while i < new_fns.len()
        invariant
            ov == old_fns.deep_view(),
            nv == new_fns.deep_view(),
            old_names.deep_view() == spec_names(ov),
            new_names.deep_view() == spec_names(nv),
            i <= new_fns.len(),
            findings.deep_view() == mid + spec_scan_new(ov, nv, i as int),
        decreases new_fns.len() - i,
    {
        let ghost before = findings.deep_view();
        assert(spec_names(nv)[i as int] == new_fns[i as int].name@);
        assert(nv[i as int] == new_fns[i as int]@);
        let last = find_last(&new_names, &new_fns[i].name);
        if last == Some(i) {
            if find_last(&old_names, &new_fns[i].name).is_none() {
                let f = make_finding(
                    Severity::Info,
                    "signature",
                    concat3("Function '", new_fns[i].name.as_str(), "' was added to spec"),
                    None,
                    None,
                );
                findings.push(f);
                assert(findings.deep_view() =~= before.push(f@));
            }
        }
        assert(findings.deep_view() =~= mid + spec_scan_new(ov, nv, i + 1));
        i = i + 1;
    }
}

// ---------------------------------------------------------------------------
// Entry point
// ---------------------------------------------------------------------------

/// Compares two contract versions and lists what changed.
///
/// Storage keys: a removed key or a field whose type changed under the same
/// name breaks; a changed kind breaks; an added key is a warning; other
/// field changes are for information. Authorization: a dropped
/// `require_auth()` breaks, a weakening to `require_auth_for_args()` is a
/// warning, a dropped `require_auth_for_args()` with no auth call left
/// breaks; removed and added functions are for information. Every signature
/// change is for information.
pub fn diff(
    old_storage: &[StorageKey],
    new_storage: &[StorageKey],
    old_auth: &[FunctionAuth],
    new_auth: &[FunctionAuth],
    old_spec: &ContractSpec,
    new_spec: &ContractSpec,
) -> (findings: Vec<DriftFinding>)
    ensures
        findings.deep_view() == drift_findings(
            old_storage.deep_view(),
            new_storage.deep_view(),
            old_auth.deep_view(),
            new_auth.deep_view(),
            old_spec@,
            new_spec@,
        ),
{
    let mut findings: Vec<DriftFinding> = Vec::new();
    assert(findings.deep_view() =~= Seq::<DriftFindingView>::empty());
    diff_storage(old_storage, new_storage, &mut findings);
    diff_auth(old_auth, new_auth, &mut findings);
    diff_spec(old_spec, new_spec, &mut findings);
    assert(findings.deep_view() =~= drift_findings(
        old_storage.deep_view(),
        new_storage.deep_view(),
        old_auth.deep_view(),
        new_auth.deep_view(),
        old_spec@,
        new_spec@,
    ));
    findings
}

// ---------------------------------------------------------------------------
// Laws
// ---------------------------------------------------------------------------

proof fn lemma_standing_entry(names: Seq<Seq<char>>, i: int)
    requires
        0 <= i < names.len(),
    ensures
        i <= last_index(names, names[i]) < names.len(),
        names[last_index(names, names[i])] == names[i],
        stands_for_name(names, last_index(names, names[i])),
{
    lemma_last_index_found(names, i);
    lemma_last_index(names, names[i]);
}

proof fn lemma_contains_left<A>(a: Seq<A>, b: Seq<A>, x: A)
    requires
        a.contains(x),
    ensures
        (a + b).contains(x),
{
    let k = choose|k: int| 0 <= k < a.len() && a[k] == x;
    assert((a + b)[k] == x);
}

proof fn lemma_contains_right<A>(a: Seq<A>, b: Seq<A>, x: A)
    requires
        b.contains(x),
    ensures
        (a + b).contains(x),
{
    let k = choose|k: int| 0 <= k < b.len() && b[k] == x;
    assert((a + b)[a.len() + k] == x);
}

proof fn lemma_storage_scan_old_has(old: Seq<StorageKeyView>, new: Seq<StorageKeyView>, n: int, k: int, x: DriftFindingView)
    requires
        0 <= k < n <= old.len(),
        stands_for_name(key_names(old), k),
        old_key_findings(old[k], new).contains(x),
    ensures
        storage_scan_old(old, new, n).contains(x),
    decreases n,
{
    if k == n - 1 {
        lemma_contains_right(storage_scan_old(old, new, n - 1), old_key_findings(old[k], new), x);
    } else {
        lemma_storage_scan_old_has(old, new, n - 1, k, x);
        let part = if stands_for_name(key_names(old), n - 1) {
            old_key_findings(old[n - 1], new)
        } else {
            Seq::empty()
        };
        lemma_contains_left(storage_scan_old(old, new, n - 1), part, x);
    }
}

proof fn lemma_storage_scan_new_has(old: Seq<StorageKeyView>, new: Seq<StorageKeyView>, n: int, k: int)
    requires
        0 <= k < n <= new.len(),
        stands_for_name(key_names(new), k),
        last_index(key_names(old), new[k].name) < 0,
    ensures
        storage_scan_new(old, new, n).contains(added_key_finding(new[k])),
    decreases n,
{
    let x = added_key_finding(new[k]);
    if k == n - 1 {
        assert(key_names(new)[k] == new[k].name);
        assert(seq![x][0] == x);
        lemma_contains_right(storage_scan_new(old, new, n - 1), seq![x], x);
    } else {
        lemma_storage_scan_new_has(old, new, n - 1, k);
        let part = if stands_for_name(key_names(new), n - 1) && last_index(
            key_names(old),
            new[n - 1].name,
        ) < 0 {
            seq![added_key_finding(new[n - 1])]
        } else {
            Seq::empty()
        };
        lemma_contains_left(storage_scan_new(old, new, n - 1), part, x);
    }
}

proof fn lemma_auth_scan_old_has(old: Seq<FunctionAuthView>, new: Seq<FunctionAuthView>, n: int, k: int, x: DriftFindingView)
    requires
        0 <= k < n <= old.len(),
        stands_for_name(auth_names(old), k),
        old_fn_auth_findings(old[k], new).contains(x),
    ensures
        auth_scan_old(old, new, n).contains(x),
    decreases n,
{
    if k == n - 1 {
        lemma_contains_right(auth_scan_old(old, new, n - 1), old_fn_auth_findings(old[k], new), x);
    } else {
        lemma_auth_scan_old_has(old, new, n - 1, k, x);
        let part = if stands_for_name(auth_names(old), n - 1) {
            old_fn_auth_findings(old[n - 1], new)
        } else {
            Seq::empty()
        };
        lemma_contains_left(auth_scan_old(old, new, n - 1), part, x);
    }
}

proof fn lemma_storage_same_empty(s: Seq<StorageKeyView>, n: int)
    requires
        0 <= n <= s.len(),
    ensures
        storage_scan_old(s, s, n) == Seq::<DriftFindingView>::empty(),
        storage_scan_new(s, s, n) == Seq::<DriftFindingView>::empty(),
    decreases n,
{
    if n > 0 {
        lemma_storage_same_empty(s, n - 1);
        let names = key_names(s);
        assert(names[n - 1] == s[n - 1].name);
        if stands_for_name(names, n - 1) {
            assert(old_key_findings(s[n - 1], s) =~= Seq::<DriftFindingView>::empty());
        }
        assert(storage_scan_old(s, s, n) =~= Seq::<DriftFindingView>::empty());
        assert(storage_scan_new(s, s, n) =~= Seq::<DriftFindingView>::empty());
    }
}

proof fn lemma_auth_same_empty(s: Seq<FunctionAuthView>, n: int)
    requires
        0 <= n <= s.len(),
    ensures
        auth_scan_old(s, s, n) == Seq::<DriftFindingView>::empty(),
        auth_scan_new(s, s, n) == Seq::<DriftFindingView>::empty(),
    decreases n,
{
    if n > 0 {
        lemma_auth_same_empty(s, n - 1);
        let names = auth_names(s);
        assert(names[n - 1] == s[n - 1].function_name);
        if stands_for_name(names, n - 1) {
            assert(old_fn_auth_findings(s[n - 1], s) =~= Seq::<DriftFindingView>::empty());
        }
        assert(auth_scan_old(s, s, n) =~= Seq::<DriftFindingView>::empty());
        assert(auth_scan_new(s, s, n) =~= Seq::<DriftFindingView>::empty());
    }
}

proof fn lemma_spec_same_empty(s: Seq<FunctionSpecView>, n: int)
    requires
        0 <= n <= s.len(),
    ensures
        spec_scan_old(s, s, n) == Seq::<DriftFindingView>::empty(),
        spec_scan_new(s, s, n) == Seq::<DriftFindingView>::empty(),
    decreases n,
{
    if n > 0 {
        lemma_spec_same_empty(s, n - 1);
        let names = spec_names(s);
        assert(names[n - 1] == s[n - 1].name);
        if stands_for_name(names, n - 1) {
            assert(old_fn_spec_findings(s[n - 1], s) =~= Seq::<DriftFindingView>::empty());
        }
        assert(spec_scan_old(s, s, n) =~= Seq::<DriftFindingView>::empty());
        assert(spec_scan_new(s, s, n) =~= Seq::<DriftFindingView>::empty());
    }
}

/// Comparing a version with itself finds nothing.
pub proof fn lemma_same_version_has_no_findings(
    storage: Seq<StorageKeyView>,
    auth: Seq<FunctionAuthView>,
    spec: Seq<FunctionSpecView>,
)
    ensures
        drift_findings(storage, storage, auth, auth, spec, spec) == Seq::<DriftFindingView>::empty(),
{
    lemma_storage_same_empty(storage, storage.len() as int);
    lemma_auth_same_empty(auth, auth.len() as int);
    lemma_spec_same_empty(spec, spec.len() as int);
    assert(drift_findings(storage, storage, auth, auth, spec, spec) =~= Seq::<DriftFindingView>::empty());
}

/// A storage key whose name no new key carries is reported as a breaking
/// storage finding that names it as removed.
pub proof fn lemma_removed_key_is_breaking(
    old_storage: Seq<StorageKeyView>,
    new_storage: Seq<StorageKeyView>,
    old_auth: Seq<FunctionAuthView>,
    new_auth: Seq<FunctionAuthView>,
    old_spec: Seq<FunctionSpecView>,
    new_spec: Seq<FunctionSpecView>,
    i: int,
)
    requires
        0 <= i < old_storage.len(),
        forall|j: int| 0 <= j < new_storage.len() ==> new_storage[j].name != old_storage[i].name,
    ensures
        exists|f: DriftFindingView|
            drift_findings(old_storage, new_storage, old_auth, new_auth, old_spec, new_spec).contains(f)
                && f.severity == Severity::Breaking && f.category == "storage"@ && f.message
                == "Storage key '"@ + old_storage[i].name + "' was removed"@,
{
    let names = key_names(old_storage);
    assert(names[i] == old_storage[i].name);
    lemma_standing_entry(names, i);
    let k = last_index(names, names[i]);
    lemma_last_index(key_names(new_storage), old_storage[k].name);
    if last_index(key_names(new_storage), old_storage[k].name) >= 0 {
        let j = last_index(key_names(new_storage), old_storage[k].name);
        assert(key_names(new_storage)[j] == new_storage[j].name);
    }
    let x = removed_key_finding(old_storage[k]);
    assert(old_key_findings(old_storage[k], new_storage)[0] == x);
    lemma_storage_scan_old_has(old_storage, new_storage, old_storage.len() as int, k, x);
    lemma_contains_left(
        storage_scan_old(old_storage, new_storage, old_storage.len() as int),
        storage_scan_new(old_storage, new_storage, new_storage.len() as int),
        x,
    );
    lemma_contains_left(
        storage_findings(old_storage, new_storage),
        auth_findings(old_auth, new_auth),
        x,
    );
    lemma_contains_left(
        storage_findings(old_storage, new_storage) + auth_findings(old_auth, new_auth),
        signature_findings(old_spec, new_spec),
        x,
    );
    assert(names[k] == old_storage[k].name);
    assert(drift_findings(old_storage, new_storage, old_auth, new_auth, old_spec, new_spec).contains(x));
}

/// A storage key whose name no old key carries is reported as a storage
/// warning that names it as added.
pub proof fn lemma_added_key_is_warning(
    old_storage: Seq<StorageKeyView>,
    new_storage: Seq<StorageKeyView>,
    old_auth: Seq<FunctionAuthView>,
    new_auth: Seq<FunctionAuthView>,
    old_spec: Seq<FunctionSpecView>,
    new_spec: Seq<FunctionSpecView>,
    i: int,
)
    requires
        0 <= i < new_storage.len(),
        forall|j: int| 0 <= j < old_storage.len() ==> old_storage[j].name != new_storage[i].name,
    ensures
        exists|f: DriftFindingView|
            drift_findings(old_storage, new_storage, old_auth, new_auth, old_spec, new_spec).contains(f)
                && f.severity == Severity::Warning && f.category == "storage"@ && f.message
                == "Storage key '"@ + new_storage[i].name + "' was added"@,
{
    let names = key_names(new_storage);
    assert(names[i] == new_storage[i].name);
    lemma_standing_entry(names, i);
    let k = last_index(names, names[i]);
    lemma_last_index(key_names(old_storage), new_storage[k].name);
    if last_index(key_names(old_storage), new_storage[k].name) >= 0 {
        let j = last_index(key_names(old_storage), new_storage[k].name);
        assert(key_names(old_storage)[j] == old_storage[j].name);
    }
    let x = added_key_finding(new_storage[k]);
    lemma_storage_scan_new_has(old_storage, new_storage, new_storage.len() as int, k);
    lemma_contains_right(
        storage_scan_old(old_storage, new_storage, old_storage.len() as int),
        storage_scan_new(old_storage, new_storage, new_storage.len() as int),
        x,
    );
    lemma_contains_left(
        storage_findings(old_storage, new_storage),
        auth_findings(old_auth, new_auth),
        x,
    );
    lemma_contains_left(
        storage_findings(old_storage, new_storage) + auth_findings(old_auth, new_auth),
        signature_findings(old_spec, new_spec),
        x,
    );
    assert(names[k] == new_storage[k].name);
    assert(drift_findings(old_storage, new_storage, old_auth, new_auth, old_spec, new_spec).contains(x));
}

/// A function that called `require_auth()` and, in the new version, calls
/// neither `require_auth()` nor `require_auth_for_args()` is reported as a
/// breaking auth finding; one that moved to `require_auth_for_args()` is
/// reported as an auth warning. Each name is judged by its last entry on
/// each side.
pub proof fn lemma_dropped_auth_is_breaking(
    old_storage: Seq<StorageKeyView>,
    new_storage: Seq<StorageKeyView>,
    old_auth: Seq<FunctionAuthView>,
    new_auth: Seq<FunctionAuthView>,
    old_spec: Seq<FunctionSpecView>,
    new_spec: Seq<FunctionSpecView>,
    i: int,
    j: int,
)
    requires
        0 <= i < old_auth.len(),
        0 <= j < new_auth.len(),
        stands_for_name(auth_names(old_auth), i),
        stands_for_name(auth_names(new_auth), j),
        old_auth[i].function_name == new_auth[j].function_name,
        old_auth[i].has_require_auth,
        !new_auth[j].has_require_auth,
    ensures
        exists|f: DriftFindingView|
            drift_findings(old_storage, new_storage, old_auth, new_auth, old_spec, new_spec).contains(f)
                && f.category == "auth"@ && f.severity == (if new_auth[j].has_require_auth_for_args {
                Severity::Warning
            } else {
                Severity::Breaking
            }),
{
    assert(auth_names(old_auth)[i] == old_auth[i].function_name);
    assert(auth_names(new_auth)[j] == new_auth[j].function_name);
    assert(last_index(auth_names(new_auth), old_auth[i].function_name) == j);
    let x = auth_drop_findings(old_auth[i], new_auth[j])[0];
    assert(old_fn_auth_findings(old_auth[i], new_auth)[0] == x);
    lemma_auth_scan_old_has(old_auth, new_auth, old_auth.len() as int, i, x);
    lemma_contains_left(
        auth_scan_old(old_auth, new_auth, old_auth.len() as int),
        auth_scan_new(old_auth, new_auth, new_auth.len() as int),
        x,
    );
    lemma_contains_right(
        storage_findings(old_storage, new_storage),
        auth_findings(old_auth, new_auth),
        x,
    );
    lemma_contains_left(
        storage_findings(old_storage, new_storage) + auth_findings(old_auth, new_auth),
        signature_findings(old_spec, new_spec),
        x,
    );
    assert(drift_findings(old_storage, new_storage, old_auth, new_auth, old_spec, new_spec).contains(x));
}

proof fn lemma_spec_scans_info(old: Seq<FunctionSpecView>, new: Seq<FunctionSpecView>, n: int)
    ensures
        forall|k: int|
            0 <= k < spec_scan_old(old, new, n).len() ==> (#[trigger] spec_scan_old(old, new, n)[k]).severity
                == Severity::Info && spec_scan_old(old, new, n)[k].category == "signature"@,
        forall|k: int|
            0 <= k < spec_scan_new(old, new, n).len() ==> (#[trigger] spec_scan_new(old, new, n)[k]).severity
                == Severity::Info && spec_scan_new(old, new, n)[k].category == "signature"@,
    decreases n,
{
    if n > 0 {
        lemma_spec_scans_info(old, new, n - 1);
    }
}

/// Every signature finding is for information only.
pub proof fn lemma_signature_findings_are_info(
    old_spec: Seq<FunctionSpecView>,
    new_spec: Seq<FunctionSpecView>,
)
    ensures
        forall|k: int|
            0 <= k < signature_findings(old_spec, new_spec).len() ==> (#[trigger] signature_findings(
                old_spec,
                new_spec,
            )[k]).severity == Severity::Info && signature_findings(old_spec, new_spec)[k].category
                == "signature"@,
{
    lemma_spec_scans_info(old_spec, new_spec, old_spec.len() as int);
    lemma_spec_scans_info(old_spec, new_spec, new_spec.len() as int);
    let a = spec_scan_old(old_spec, new_spec, old_spec.len() as int);
    let b = spec_scan_new(old_spec, new_spec, new_spec.len() as int);
    assert forall|k: int| 0 <= k < (a + b).len() implies (#[trigger] (a + b)[k]).severity == Severity::Info
        && (a + b)[k].category == "signature"@ by {
        if k < a.len() {
            assert((a + b)[k] == a[k]);
        } else {
            assert((a + b)[k] == b[k - a.len()]);
        }
    }
}

/// A function that called `require_auth_for_args()` and, in the new
/// version, calls neither `require_auth_for_args()` nor `require_auth()` is
/// reported as a breaking auth finding. Each name is judged by its last
/// entry on each side.
pub proof fn lemma_dropped_auth_for_args_is_breaking(
    old_storage: Seq<StorageKeyView>,
    new_storage: Seq<StorageKeyView>,
    old_auth: Seq<FunctionAuthView>,
    new_auth: Seq<FunctionAuthView>,
    old_spec: Seq<FunctionSpecView>,
    new_spec: Seq<FunctionSpecView>,
    i: int,
    j: int,
)
    requires
        0 <= i < old_auth.len(),
        0 <= j < new_auth.len(),
        stands_for_name(auth_names(old_auth), i),
        stands_for_name(auth_names(new_auth), j),
        old_auth[i].function_name == new_auth[j].function_name,
        old_auth[i].has_require_auth_for_args,
        !new_auth[j].has_require_auth_for_args,
        !new_auth[j].has_require_auth,
    ensures
        exists|f: DriftFindingView|
            drift_findings(old_storage, new_storage, old_auth, new_auth, old_spec, new_spec).contains(f)
                && f.category == "auth"@ && f.severity == Severity::Breaking && f.message == "Function '"@
                + old_auth[i].function_name + "' dropped require_auth_for_args()"@,
{
    assert(auth_names(old_auth)[i] == old_auth[i].function_name);
    assert(auth_names(new_auth)[j] == new_auth[j].function_name);
    assert(last_index(auth_names(new_auth), old_auth[i].function_name) == j);
    let o = old_auth[i];
    let n = new_auth[j];
    let x = auth_args_drop_findings(o, n)[0];
    let all = auth_drop_findings(o, n) + auth_args_drop_findings(o, n);
    assert(all[all.len() - 1] == x);
    assert(old_fn_auth_findings(o, new_auth) == all);
    assert(old_fn_auth_findings(o, new_auth).contains(x));
    lemma_auth_scan_old_has(old_auth, new_auth, old_auth.len() as int, i, x);
    lemma_contains_left(
        auth_scan_old(old_auth, new_auth, old_auth.len() as int),
        auth_scan_new(old_auth, new_auth, new_auth.len() as int),
        x,
    );
    lemma_contains_right(
        storage_findings(old_storage, new_storage),
        auth_findings(old_auth, new_auth),
        x,
    );
    lemma_contains_left(
        storage_findings(old_storage, new_storage) + auth_findings(old_auth, new_auth),
        signature_findings(old_spec, new_spec),
        x,
    );
    assert(drift_findings(old_storage, new_storage, old_auth, new_auth, old_spec, new_spec).contains(x));
}

/// A storage key that both versions have, where some field name occurs on
/// both sides with different types (wherever the fields stand) and the
/// fields as listed differ, is reported as a breaking storage finding; so is
/// one whose kind (struct or enum) changed. Each name is judged by its last
/// entry on each side.
pub proof fn lemma_changed_key_is_breaking(
    old_storage: Seq<StorageKeyView>,
    new_storage: Seq<StorageKeyView>,
    old_auth: Seq<FunctionAuthView>,
    new_auth: Seq<FunctionAuthView>,
    old_spec: Seq<FunctionSpecView>,
    new_spec: Seq<FunctionSpecView>,
    i: int,
    j: int,
)
    requires
        0 <= i < old_storage.len(),
        0 <= j < new_storage.len(),
        stands_for_name(key_names(old_storage), i),
        stands_for_name(key_names(new_storage), j),
        old_storage[i].name == new_storage[j].name,
        (has_type_change(old_storage[i].fields, new_storage[j].fields) && field_texts(
            old_storage[i].fields,
        ) != field_texts(new_storage[j].fields)) || old_storage[i].kind != new_storage[j].kind,
    ensures
        exists|f: DriftFindingView|
            drift_findings(old_storage, new_storage, old_auth, new_auth, old_spec, new_spec).contains(f)
                && f.category == "storage"@ && f.severity == Severity::Breaking,
{
    assert(key_names(old_storage)[i] == old_storage[i].name);
    assert(key_names(new_storage)[j] == new_storage[j].name);
    assert(last_index(key_names(new_storage), old_storage[i].name) == j);
    let o = old_storage[i];
    let n = new_storage[j];
    let all = kind_change_findings(o, n) + field_change_findings(o, n);
    assert(old_key_findings(o, new_storage) == all);
    let x = if o.kind != n.kind {
        assert(all[0] == kind_change_findings(o, n)[0]);
        all[0]
    } else {
        assert(o.fields != n.fields);
        assert(all[all.len() - 1] == field_change_findings(o, n)[0]);
        all[all.len() - 1]
    };
    assert(old_key_findings(o, new_storage).contains(x));
    lemma_storage_scan_old_has(old_storage, new_storage, old_storage.len() as int, i, x);
    lemma_contains_left(
        storage_scan_old(old_storage, new_storage, old_storage.len() as int),
        storage_scan_new(old_storage, new_storage, new_storage.len() as int),
        x,
    );
    lemma_contains_left(
        storage_findings(old_storage, new_storage),
        auth_findings(old_auth, new_auth),
        x,
    );
    lemma_contains_left(
        storage_findings(old_storage, new_storage) + auth_findings(old_auth, new_auth),
        signature_findings(old_spec, new_spec),
        x,
    );
    assert(drift_findings(old_storage, new_storage, old_auth, new_auth, old_spec, new_spec).contains(x));
}

/// What the comparison reports about one storage key that both versions
/// have: at most one kind finding, breaking exactly when the kind changed;
/// at most one fields finding, present exactly when the fields differ and
/// so does their listing, breaking exactly when some field name occurs on
/// both sides with different types and for information otherwise.
pub proof fn lemma_key_change_findings(o: StorageKeyView, n: StorageKeyView)
    ensures
        kind_change_findings(o, n).len() == (if o.kind != n.kind { 1int } else { 0int }),
        kind_change_findings(o, n).len() == 1 ==> kind_change_findings(o, n)[0].severity
            == Severity::Breaking,
        field_change_findings(o, n).len() == (if o.fields != n.fields && field_texts(o.fields)
            != field_texts(n.fields) {
            1int
        } else {
            0int
        }),
        field_change_findings(o, n).len() == 1 ==> (field_change_findings(o, n)[0].severity
            == Severity::Breaking <==> has_type_change(o.fields, n.fields)),
        field_change_findings(o, n).len() == 1 ==> (field_change_findings(o, n)[0].severity
            == Severity::Info <==> !has_type_change(o.fields, n.fields)),
{
}

/// What the comparison reports about one function that both versions
/// have: a `require_auth()` drop exactly when the old version called it and
/// the new one does not, a warning when the new one calls
/// `require_auth_for_args()` instead and breaking otherwise; a
/// `require_auth_for_args()` drop, breaking, exactly when the old version
/// called it and the new one calls neither. Keeping or adding auth calls is
/// never reported.
pub proof fn lemma_auth_change_findings(o: FunctionAuthView, n: FunctionAuthView)
    ensures
        auth_drop_findings(o, n).len() == (if o.has_require_auth && !n.has_require_auth {
            1int
        } else {
            0int
        }),
        auth_drop_findings(o, n).len() == 1 ==> auth_drop_findings(o, n)[0].severity == (if n.has_require_auth_for_args {
            Severity::Warning
        } else {
            Severity::Breaking
        }),
        auth_args_drop_findings(o, n).len() == (if o.has_require_auth_for_args
            && !n.has_require_auth_for_args && !n.has_require_auth {
            1int
        } else {
            0int
        }),
        auth_args_drop_findings(o, n).len() == 1 ==> auth_args_drop_findings(o, n)[0].severity
            == Severity::Breaking,
        (o.has_require_auth ==> n.has_require_auth) && (o.has_require_auth_for_args
            ==> n.has_require_auth_for_args || n.has_require_auth) ==> auth_drop_findings(o, n)
            + auth_args_drop_findings(o, n) == Seq::<DriftFindingView>::empty(),
{
    if (o.has_require_auth ==> n.has_require_auth) && (o.has_require_auth_for_args
        ==> n.has_require_auth_for_args || n.has_require_auth) {
        assert(auth_drop_findings(o, n) + auth_args_drop_findings(o, n) =~= Seq::<
            DriftFindingView,
        >::empty());
    }
}

/// A function that both versions' specs have is reported, once, exactly
/// when its inputs or outputs differ.
pub proof fn lemma_signature_change_findings(o: FunctionSpecView, new: Seq<FunctionSpecView>)
    requires
        last_index(spec_names(new), o.name) >= 0,
    ensures
        old_fn_spec_findings(o, new).len() == (if o.inputs != new[last_index(
            spec_names(new),
            o.name,
        )].inputs || o.outputs != new[last_index(spec_names(new), o.name)].outputs {
            1int
        } else {
            0int
        }),
{
}

/// How often `x` occurs in `fs`.
pub open spec fn occurrences(fs: Seq<DriftFindingView>, x: DriftFindingView) -> nat
    decreases fs.len(),
{
    if fs.len() == 0 {
        0
    } else {
        occurrences(fs.drop_last(), x) + if fs.last() == x {
            1nat
        } else {
            0nat
        }
    }
}

proof fn lemma_occurrences_concat(a: Seq<DriftFindingView>, b: Seq<DriftFindingView>, x: DriftFindingView)
    ensures
        occurrences(a + b, x) == occurrences(a, x) + occurrences(b, x),
    decreases b.len(),
{
    if b.len() == 0 {
        assert(a + b =~= a);
    } else {
        lemma_occurrences_concat(a, b.drop_last(), x);
        assert((a + b).drop_last() =~= a + b.drop_last());
    }
}

proof fn lemma_occurrences_none(fs: Seq<DriftFindingView>, x: DriftFindingView)
    requires
        forall|i: int| 0 <= i < fs.len() ==> fs[i] != x,
    ensures
        occurrences(fs, x) == 0,
    decreases fs.len(),
{
    if fs.len() > 0 {
        lemma_occurrences_none(fs.drop_last(), x);
    }
}

proof fn lemma_occurrences_single(y: DriftFindingView, x: DriftFindingView)
    ensures
        occurrences(seq![y], x) == (if y == x {
            1nat
        } else {
            0nat
        }),
{
    let e = Seq::<DriftFindingView>::empty();
    assert(seq![y].drop_last() =~= e);
    assert(occurrences(e, x) == 0);
    assert(seq![y].last() == y);
}

proof fn lemma_middle_cancel(p: Seq<char>, a: Seq<char>, b: Seq<char>, s: Seq<char>)
    requires
        p + a + s == p + b + s,
    ensures
        a == b,
{
    assert((p + a).len() == p.len() + a.len());
    assert((p + b).len() == p.len() + b.len());
    assert((p + a + s).len() == (p + a).len() + s.len());
    assert((p + b + s).len() == (p + b).len() + s.len());
    assert(a.len() == b.len());
    assert(a =~= (p + a + s).subrange(p.len() as int, (p.len() + a.len()) as int));
    assert(b =~= (p + b + s).subrange(p.len() as int, (p.len() + b.len()) as int));
}

proof fn lemma_standing_names_differ(names: Seq<Seq<char>>, i: int, j: int)
    requires
        0 <= i < names.len(),
        0 <= j < names.len(),
        i != j,
        stands_for_name(names, i),
        stands_for_name(names, j),
    ensures
        names[i] != names[j],
{
}

proof fn lemma_storage_old_shapes(old: Seq<StorageKeyView>, new: Seq<StorageKeyView>, n: int)
    ensures
        forall|i: int|
            0 <= i < storage_scan_old(old, new, n).len() ==> (#[trigger] storage_scan_old(old, new, n)[i]).category
                == "storage"@ && storage_scan_old(old, new, n)[i].old_value is Some,
    decreases n,
{
    if n > 0 {
        lemma_storage_old_shapes(old, new, n - 1);
    }
}

proof fn lemma_storage_new_shapes(old: Seq<StorageKeyView>, new: Seq<StorageKeyView>, n: int)
    ensures
        forall|i: int|
            0 <= i < storage_scan_new(old, new, n).len() ==> (#[trigger] storage_scan_new(old, new, n)[i]).category
                == "storage"@ && storage_scan_new(old, new, n)[i].old_value is None,
    decreases n,
{
    if n > 0 {
        lemma_storage_new_shapes(old, new, n - 1);
    }
}

proof fn lemma_auth_shapes(old: Seq<FunctionAuthView>, new: Seq<FunctionAuthView>, n: int)
    ensures
        forall|i: int|
            0 <= i < auth_scan_old(old, new, n).len() ==> (#[trigger] auth_scan_old(old, new, n)[i]).category
                == "auth"@ && auth_scan_old(old, new, n)[i].old_value is Some,
        forall|i: int|
            0 <= i < auth_scan_new(old, new, n).len() ==> (#[trigger] auth_scan_new(old, new, n)[i]).category
                == "auth"@ && auth_scan_new(old, new, n)[i].old_value is None,
    decreases n,
{
    if n > 0 {
        lemma_auth_shapes(old, new, n - 1);
    }
}

proof fn lemma_category_apart(fs: Seq<DriftFindingView>, c: Seq<char>, x: DriftFindingView)
    requires
        forall|i: int| 0 <= i < fs.len() ==> (#[trigger] fs[i]).category == c,
        x.category != c,
    ensures
        occurrences(fs, x) == 0,
{
    lemma_occurrences_none(fs, x);
}

proof fn lemma_storage_removed_count(old: Seq<StorageKeyView>, new: Seq<StorageKeyView>, n: int, k: int)
    requires
        0 <= n <= old.len(),
        0 <= k < old.len(),
        stands_for_name(key_names(old), k),
        last_index(key_names(new), old[k].name) < 0,
    ensures
        occurrences(storage_scan_old(old, new, n), removed_key_finding(old[k])) == (if k < n {
            1nat
        } else {
            0nat
        }),
    decreases n,
{
    if n > 0 {
        lemma_storage_removed_count(old, new, n - 1, k);
        let x = removed_key_finding(old[k]);
        let m = n - 1;
        let part = if stands_for_name(key_names(old), m) {
            old_key_findings(old[m], new)
        } else {
            Seq::empty()
        };
        lemma_occurrences_concat(storage_scan_old(old, new, m), part, x);
        assert(key_names(old)[m] == old[m].name);
        assert(key_names(old)[k] == old[k].name);
        if m == k {
            lemma_occurrences_single(x, x);
        } else if stands_for_name(key_names(old), m) {
            lemma_standing_names_differ(key_names(old), m, k);
            if last_index(key_names(new), old[m].name) < 0 {
                let y = removed_key_finding(old[m]);
                if y == x {
                    lemma_middle_cancel("Storage key '"@, old[m].name, old[k].name, "' was removed"@);
                }
                lemma_occurrences_single(y, x);
            } else {
                lemma_occurrences_none(part, x);
            }
        } else {
            lemma_occurrences_none(part, x);
        }
    }
}

proof fn lemma_storage_added_count(old: Seq<StorageKeyView>, new: Seq<StorageKeyView>, n: int, k: int)
    requires
        0 <= n <= new.len(),
        0 <= k < new.len(),
        stands_for_name(key_names(new), k),
        last_index(key_names(old), new[k].name) < 0,
    ensures
        occurrences(storage_scan_new(old, new, n), added_key_finding(new[k])) == (if k < n {
            1nat
        } else {
            0nat
        }),
    decreases n,
{
    if n > 0 {
        lemma_storage_added_count(old, new, n - 1, k);
        let x = added_key_finding(new[k]);
        let m = n - 1;
        let part = if stands_for_name(key_names(new), m) && last_index(key_names(old), new[m].name)
            < 0 {
            seq![added_key_finding(new[m])]
        } else {
            Seq::empty()
        };
        lemma_occurrences_concat(storage_scan_new(old, new, m), part, x);
        assert(key_names(new)[m] == new[m].name);
        assert(key_names(new)[k] == new[k].name);
        if m == k {
            lemma_occurrences_single(x, x);
        } else if stands_for_name(key_names(new), m) && last_index(key_names(old), new[m].name) < 0 {
            lemma_standing_names_differ(key_names(new), m, k);
            let y = added_key_finding(new[m]);
            if y == x {
                lemma_middle_cancel("Storage key '"@, new[m].name, new[k].name, "' was added"@);
            }
            lemma_occurrences_single(y, x);
        } else {
            lemma_occurrences_none(part, x);
        }
    }
}

proof fn lemma_auth_removed_count(old: Seq<FunctionAuthView>, new: Seq<FunctionAuthView>, n: int, k: int)
    requires
        0 <= n <= old.len(),
        0 <= k < old.len(),
        stands_for_name(auth_names(old), k),
        last_index(auth_names(new), old[k].function_name) < 0,
    ensures
        occurrences(auth_scan_old(old, new, n), old_fn_auth_findings(old[k], new)[0]) == (if k < n {
            1nat
        } else {
            0nat
        }),
    decreases n,
{
    if n > 0 {
        lemma_auth_removed_count(old, new, n - 1, k);
        let x = old_fn_auth_findings(old[k], new)[0];
        let m = n - 1;
        let part = if stands_for_name(auth_names(old), m) {
            old_fn_auth_findings(old[m], new)
        } else {
            Seq::empty()
        };
        lemma_occurrences_concat(auth_scan_old(old, new, m), part, x);
        assert(auth_names(old)[m] == old[m].function_name);
        assert(auth_names(old)[k] == old[k].function_name);
        if m == k {
            lemma_occurrences_single(x, x);
        } else if stands_for_name(auth_names(old), m) {
            lemma_standing_names_differ(auth_names(old), m, k);
            if last_index(auth_names(new), old[m].function_name) < 0 {
                let y = part[0];
                if y == x {
                    lemma_middle_cancel(
                        "Function '"@,
                        old[m].function_name,
                        old[k].function_name,
                        "' was removed"@,
                    );
                }
                lemma_occurrences_single(y, x);
            } else {
                lemma_occurrences_none(part, x);
            }
        } else {
            lemma_occurrences_none(part, x);
        }
    }
}

proof fn lemma_auth_added_count(old: Seq<FunctionAuthView>, new: Seq<FunctionAuthView>, n: int, k: int)
    requires
        0 <= n <= new.len(),
        0 <= k < new.len(),
        stands_for_name(auth_names(new), k),
        last_index(auth_names(old), new[k].function_name) < 0,
    ensures
        occurrences(auth_scan_new(old, new, n), added_fn_auth_finding(new[k])) == (if k < n {
            1nat
        } else {
            0nat
        }),
    decreases n,
{
    if n > 0 {
        lemma_auth_added_count(old, new, n - 1, k);
        let x = added_fn_auth_finding(new[k]);
        let m = n - 1;
        let part = if stands_for_name(auth_names(new), m) && last_index(
            auth_names(old),
            new[m].function_name,
        ) < 0 {
            seq![added_fn_auth_finding(new[m])]
        } else {
            Seq::empty()
        };
        lemma_occurrences_concat(auth_scan_new(old, new, m), part, x);
        assert(auth_names(new)[m] == new[m].function_name);
        assert(auth_names(new)[k] == new[k].function_name);
        if m == k {
            lemma_occurrences_single(x, x);
        } else if stands_for_name(auth_names(new), m) && last_index(
            auth_names(old),
            new[m].function_name,
        ) < 0 {
            lemma_standing_names_differ(auth_names(new), m, k);
            let y = added_fn_auth_finding(new[m]);
            if y == x {
                lemma_middle_cancel("Function '"@, new[m].function_name, new[k].function_name, "' was added"@);
            }
            lemma_occurrences_single(y, x);
        } else {
            lemma_occurrences_none(part, x);
        }
    }
}

proof fn lemma_categories_differ()
    ensures
        "storage"@ != "auth"@,
        "storage"@ != "signature"@,
        "auth"@ != "signature"@,
{
    reveal_strlit("storage");
    reveal_strlit("auth");
    reveal_strlit("signature");
    assert("storage"@.len() == 7 && "auth"@.len() == 4 && "signature"@.len() == 9);
}

proof fn lemma_auth_findings_categories(old: Seq<FunctionAuthView>, new: Seq<FunctionAuthView>)
    ensures
        forall|i: int|
            0 <= i < auth_findings(old, new).len() ==> (#[trigger] auth_findings(old, new)[i]).category
                == "auth"@,
{
    lemma_auth_shapes(old, new, old.len() as int);
    lemma_auth_shapes(old, new, new.len() as int);
    let a = auth_scan_old(old, new, old.len() as int);
    let b = auth_scan_new(old, new, new.len() as int);
    assert forall|i: int| 0 <= i < (a + b).len() implies (#[trigger] (a + b)[i]).category == "auth"@ by {
        if i < a.len() {
            assert((a + b)[i] == a[i]);
        } else {
            assert((a + b)[i] == b[i - a.len()]);
        }
    }
}

proof fn lemma_storage_findings_categories(old: Seq<StorageKeyView>, new: Seq<StorageKeyView>)
    ensures
        forall|i: int|
            0 <= i < storage_findings(old, new).len() ==> (#[trigger] storage_findings(old, new)[i]).category
                == "storage"@,
{
    lemma_storage_old_shapes(old, new, old.len() as int);
    lemma_storage_new_shapes(old, new, new.len() as int);
    let a = storage_scan_old(old, new, old.len() as int);
    let b = storage_scan_new(old, new, new.len() as int);
    assert forall|i: int| 0 <= i < (a + b).len() implies (#[trigger] (a + b)[i]).category == "storage"@ by {
        if i < a.len() {
            assert((a + b)[i] == a[i]);
        } else {
            assert((a + b)[i] == b[i - a.len()]);
        }
    }
}

/// A storage key that only the old version has is reported as removed
/// exactly once; one that only the new version has is reported as added
/// exactly once. (A name stands for its last entry on each side.)
pub proof fn lemma_key_reported_once(
    old_storage: Seq<StorageKeyView>,
    new_storage: Seq<StorageKeyView>,
    old_auth: Seq<FunctionAuthView>,
    new_auth: Seq<FunctionAuthView>,
    old_spec: Seq<FunctionSpecView>,
    new_spec: Seq<FunctionSpecView>,
    k: int,
)
    ensures
        0 <= k < old_storage.len() && stands_for_name(key_names(old_storage), k) && last_index(
            key_names(new_storage),
            old_storage[k].name,
        ) < 0 ==> occurrences(
            drift_findings(old_storage, new_storage, old_auth, new_auth, old_spec, new_spec),
            removed_key_finding(old_storage[k]),
        ) == 1,
        0 <= k < new_storage.len() && stands_for_name(key_names(new_storage), k) && last_index(
            key_names(old_storage),
            new_storage[k].name,
        ) < 0 ==> occurrences(
            drift_findings(old_storage, new_storage, old_auth, new_auth, old_spec, new_spec),
            added_key_finding(new_storage[k]),
        ) == 1,
{
    lemma_categories_differ();
    lemma_auth_findings_categories(old_auth, new_auth);
    lemma_signature_findings_are_info(old_spec, new_spec);
    let so = storage_scan_old(old_storage, new_storage, old_storage.len() as int);
    let sn = storage_scan_new(old_storage, new_storage, new_storage.len() as int);
    let a = auth_findings(old_auth, new_auth);
    let g = signature_findings(old_spec, new_spec);
    lemma_storage_old_shapes(old_storage, new_storage, old_storage.len() as int);
    lemma_storage_new_shapes(old_storage, new_storage, new_storage.len() as int);
    assert(drift_findings(old_storage, new_storage, old_auth, new_auth, old_spec, new_spec) == so + sn
        + a + g);
    if 0 <= k < old_storage.len() && stands_for_name(key_names(old_storage), k) && last_index(
        key_names(new_storage),
        old_storage[k].name,
    ) < 0 {
        let x = removed_key_finding(old_storage[k]);
        lemma_storage_removed_count(old_storage, new_storage, old_storage.len() as int, k);
        lemma_occurrences_none(sn, x);
        lemma_category_apart(a, "auth"@, x);
        lemma_category_apart(g, "signature"@, x);
        lemma_occurrences_concat(so, sn, x);
        lemma_occurrences_concat(so + sn, a, x);
        lemma_occurrences_concat(so + sn + a, g, x);
    }
    if 0 <= k < new_storage.len() && stands_for_name(key_names(new_storage), k) && last_index(
        key_names(old_storage),
        new_storage[k].name,
    ) < 0 {
        let x = added_key_finding(new_storage[k]);
        lemma_storage_added_count(old_storage, new_storage, new_storage.len() as int, k);
        lemma_occurrences_none(so, x);
        lemma_category_apart(a, "auth"@, x);
        lemma_category_apart(g, "signature"@, x);
        lemma_occurrences_concat(so, sn, x);
        lemma_occurrences_concat(so + sn, a, x);
        lemma_occurrences_concat(so + sn + a, g, x);
    }
}

/// A function that only the old version has is reported as removed exactly
/// once; one that only the new version has is reported as added exactly
/// once. (A name stands for its last entry on each side.)
pub proof fn lemma_function_reported_once(
    old_storage: Seq<StorageKeyView>,
    new_storage: Seq<StorageKeyView>,
    old_auth: Seq<FunctionAuthView>,
    new_auth: Seq<FunctionAuthView>,
    old_spec: Seq<FunctionSpecView>,
    new_spec: Seq<FunctionSpecView>,
    k: int,
)
    ensures
        0 <= k < old_auth.len() && stands_for_name(auth_names(old_auth), k) && last_index(
            auth_names(new_auth),
            old_auth[k].function_name,
        ) < 0 ==> occurrences(
            drift_findings(old_storage, new_storage, old_auth, new_auth, old_spec, new_spec),
            old_fn_auth_findings(old_auth[k], new_auth)[0],
        ) == 1,
        0 <= k < old_auth.len() && last_index(auth_names(new_auth), old_auth[k].function_name) < 0
            ==> old_fn_auth_findings(old_auth[k], new_auth) == seq![
            auth_finding(
                Severity::Info,
                "Function '"@ + old_auth[k].function_name + "' was removed"@,
                Some(function_auth_debug(old_auth[k])),
                None,
            ),
        ],
        0 <= k < new_auth.len() && stands_for_name(auth_names(new_auth), k) && last_index(
            auth_names(old_auth),
            new_auth[k].function_name,
        ) < 0 ==> occurrences(
            drift_findings(old_storage, new_storage, old_auth, new_auth, old_spec, new_spec),
            added_fn_auth_finding(new_auth[k]),
        ) == 1,
{
    lemma_categories_differ();
    lemma_storage_findings_categories(old_storage, new_storage);
    lemma_signature_findings_are_info(old_spec, new_spec);
    let s = storage_findings(old_storage, new_storage);
    let ao = auth_scan_old(old_auth, new_auth, old_auth.len() as int);
    let an = auth_scan_new(old_auth, new_auth, new_auth.len() as int);
    let g = signature_findings(old_spec, new_spec);
    lemma_auth_shapes(old_auth, new_auth, old_auth.len() as int);
    lemma_auth_shapes(old_auth, new_auth, new_auth.len() as int);
    assert(drift_findings(old_storage, new_storage, old_auth, new_auth, old_spec, new_spec) == s + (ao
        + an) + g);
    assert(s + (ao + an) + g == s + ao + an + g);
    if 0 <= k < old_auth.len() && stands_for_name(auth_names(old_auth), k) && last_index(
        auth_names(new_auth),
        old_auth[k].function_name,
    ) < 0 {
        let x = old_fn_auth_findings(old_auth[k], new_auth)[0];
        lemma_auth_removed_count(old_auth, new_auth, old_auth.len() as int, k);
        lemma_occurrences_none(an, x);
        lemma_category_apart(s, "storage"@, x);
        lemma_category_apart(g, "signature"@, x);
        lemma_occurrences_concat(s, ao, x);
        lemma_occurrences_concat(s + ao, an, x);
        lemma_occurrences_concat(s + ao + an, g, x);
    }
    if 0 <= k < new_auth.len() && stands_for_name(auth_names(new_auth), k) && last_index(
        auth_names(old_auth),
        new_auth[k].function_name,
    ) < 0 {
        let x = added_fn_auth_finding(new_auth[k]);
        lemma_auth_added_count(old_auth, new_auth, new_auth.len() as int, k);
        lemma_occurrences_none(ao, x);
        lemma_category_apart(s, "storage"@, x);
        lemma_category_apart(g, "signature"@, x);
        lemma_occurrences_concat(s, ao, x);
        lemma_occurrences_concat(s + ao, an, x);
        lemma_occurrences_concat(s + ao + an, g, x);
    }
}

// ---------------------------------------------------------------------------
// Findings name by name
// ---------------------------------------------------------------------------

/// The names of `a` in the order of their last entries, among the first `k`.
pub open spec fn standing_names(a: Seq<Seq<char>>, k: int) -> Seq<Seq<char>>
    decreases k,
{
    if k <= 0 {
        Seq::empty()
    } else {
        standing_names(a, k - 1) + if stands_for_name(a, k - 1) {
            seq![a[k - 1]]
        } else {
            Seq::<Seq<char>>::empty()
        }
    }
}

/// The names of `b` that `a` lacks, in the order of their last entries,
/// among the first `k` of `b`.
pub open spec fn fresh_names(a: Seq<Seq<char>>, b: Seq<Seq<char>>, k: int) -> Seq<Seq<char>>
    decreases k,
{
    if k <= 0 {
        Seq::empty()
    } else {
        fresh_names(a, b, k - 1) + if stands_for_name(b, k - 1) && last_index(a, b[k - 1]) < 0 {
            seq![b[k - 1]]
        } else {
            Seq::<Seq<char>>::empty()
        }
    }
}

/// The names of two versions in the order the comparison visits them: the
/// old version's, then those only the new version has.
pub open spec fn visited_names(a: Seq<Seq<char>>, b: Seq<Seq<char>>) -> Seq<Seq<char>> {
    standing_names(a, a.len() as int) + fresh_names(a, b, b.len() as int)
}

proof fn lemma_push_contains(s: Seq<Seq<char>>, y: Seq<char>, x: Seq<char>)
    ensures
        (s + seq![y]).contains(x) <==> (s.contains(x) || x == y),
        (s + Seq::<Seq<char>>::empty()) == s,
{
    let t = s + seq![y];
    assert(s + Seq::<Seq<char>>::empty() =~= s);
    assert(t[s.len() as int] == y);
    if s.contains(x) {
        let i = choose|i: int| 0 <= i < s.len() && s[i] == x;
        assert(t[i] == x);
    }
    if t.contains(x) && x != y {
        let i = choose|i: int| 0 <= i < t.len() && t[i] == x;
        assert(i < s.len());
        assert(s[i] == x);
    }
}

proof fn lemma_push_no_duplicates(s: Seq<Seq<char>>, y: Seq<char>)
    requires
        s.no_duplicates(),
        !s.contains(y),
    ensures
        (s + seq![y]).no_duplicates(),
{
    let t = s + seq![y];
    assert forall|i: int, j: int| 0 <= i < t.len() && 0 <= j < t.len() && i != j implies t[i] != t[j] by {
        if i < s.len() && j < s.len() {
            assert(t[i] == s[i] && t[j] == s[j]);
        } else if i < s.len() {
            assert(t[i] == s[i]);
        } else if j < s.len() {
            assert(t[j] == s[j]);
        }
    }
}

proof fn lemma_standing_names(a: Seq<Seq<char>>, k: int)
    requires
        0 <= k <= a.len(),
    ensures
        standing_names(a, k).no_duplicates(),
        forall|x: Seq<char>|
            #[trigger] standing_names(a, k).contains(x) <==> 0 <= last_index(a, x) < k,
    decreases k,
{
    if k > 0 {
        lemma_standing_names(a, k - 1);
        let s = standing_names(a, k - 1);
        let y = a[k - 1];
        lemma_last_index(a, y);
        assert forall|x: Seq<char>| #[trigger] standing_names(a, k).contains(x) <==> 0 <= last_index(a, x) < k by {
            lemma_push_contains(s, y, x);
            lemma_last_index(a, x);
        }
        if stands_for_name(a, k - 1) {
            lemma_push_no_duplicates(s, y);
        } else {
            assert(standing_names(a, k) =~= s);
        }
    } else {
        assert(standing_names(a, k) =~= Seq::<Seq<char>>::empty());
    }
}

proof fn lemma_fresh_names(a: Seq<Seq<char>>, b: Seq<Seq<char>>, k: int)
    requires
        0 <= k <= b.len(),
    ensures
        fresh_names(a, b, k).no_duplicates(),
        forall|x: Seq<char>|
            #[trigger] fresh_names(a, b, k).contains(x) <==> (0 <= last_index(b, x) < k && last_index(a, x)
                < 0),
    decreases k,
{
    if k > 0 {
        lemma_fresh_names(a, b, k - 1);
        let s = fresh_names(a, b, k - 1);
        let y = b[k - 1];
        lemma_last_index(b, y);
        assert forall|x: Seq<char>| #[trigger] fresh_names(a, b, k).contains(x) <==> (0 <= last_index(b, x)
            < k && last_index(a, x) < 0) by {
            lemma_push_contains(s, y, x);
            lemma_last_index(b, x);
        }
        if stands_for_name(b, k - 1) && last_index(a, y) < 0 {
            lemma_push_no_duplicates(s, y);
        } else {
            assert(fresh_names(a, b, k) =~= s);
        }
    } else {
        assert(fresh_names(a, b, k) =~= Seq::<Seq<char>>::empty());
    }
}

/// Each name that either version has is visited exactly once, and no other.
pub proof fn lemma_visited_names(a: Seq<Seq<char>>, b: Seq<Seq<char>>)
    ensures
        visited_names(a, b).no_duplicates(),
        forall|x: Seq<char>|
            #[trigger] visited_names(a, b).contains(x) <==> (last_index(a, x) >= 0 || last_index(b, x) >= 0),
{
    lemma_standing_names(a, a.len() as int);
    lemma_fresh_names(a, b, b.len() as int);
    let s = standing_names(a, a.len() as int);
    let t = fresh_names(a, b, b.len() as int);
    let v = s + t;
    assert forall|x: Seq<char>| #[trigger] v.contains(x) <==> (last_index(a, x) >= 0 || last_index(b, x) >= 0) by {
        lemma_last_index(a, x);
        lemma_last_index(b, x);
        if v.contains(x) {
            let i = choose|i: int| 0 <= i < v.len() && v[i] == x;
            if i < s.len() {
                assert(s[i] == x);
                assert(s.contains(x));
            } else {
                assert(t[i - s.len()] == x);
                assert(t.contains(x));
            }
        }
        if s.contains(x) {
            let i = choose|i: int| 0 <= i < s.len() && s[i] == x;
            assert(v[i] == x);
        }
        if t.contains(x) {
            let i = choose|i: int| 0 <= i < t.len() && t[i] == x;
            assert(v[i + s.len()] == x);
        }
    }
    assert forall|i: int, j: int| 0 <= i < v.len() && 0 <= j < v.len() && i != j implies v[i] != v[j] by {
        if i < s.len() && j < s.len() {
            assert(v[i] == s[i] && v[j] == s[j]);
        } else if i >= s.len() && j >= s.len() {
            assert(v[i] == t[i - s.len()] && v[j] == t[j - s.len()]);
        } else if i < s.len() {
            assert(v[i] == s[i] && s.contains(s[i]));
            assert(v[j] == t[j - s.len()] && t.contains(t[j - s.len()]));
        } else {
            assert(v[j] == s[j] && s.contains(s[j]));
            assert(v[i] == t[i - s.len()] && t.contains(t[i - s.len()]));
        }
    }
}

/// What the comparison reports about one storage key name: removed when
/// only the old version has it, added when only the new one has it, and
/// otherwise a kind change and a change of fields between the entries that
/// stand for it.
pub open spec fn key_report(old: Seq<StorageKeyView>, new: Seq<StorageKeyView>, n: Seq<char>) -> Seq<
    DriftFindingView,
> {
    let io = last_index(key_names(old), n);
    let jn = last_index(key_names(new), n);
    if io >= 0 && jn >= 0 {
        kind_change_findings(old[io], new[jn]) + field_change_findings(old[io], new[jn])
    } else if io >= 0 {
        seq![removed_key_finding(old[io])]
    } else if jn >= 0 {
        seq![added_key_finding(new[jn])]
    } else {
        Seq::empty()
    }
}

/// The reports about the names `ns`, one after another.
pub open spec fn key_reports(old: Seq<StorageKeyView>, new: Seq<StorageKeyView>, ns: Seq<Seq<char>>) -> Seq<
    DriftFindingView,
>
    decreases ns.len(),
{
    if ns.len() == 0 {
        Seq::empty()
    } else {
        key_reports(old, new, ns.drop_last()) + key_report(old, new, ns.last())
    }
}

proof fn lemma_key_reports_concat(
    old: Seq<StorageKeyView>,
    new: Seq<StorageKeyView>,
    s: Seq<Seq<char>>,
    t: Seq<Seq<char>>,
)
    ensures
        key_reports(old, new, s + t) == key_reports(old, new, s) + key_reports(old, new, t),
    decreases t.len(),
{
    if t.len() == 0 {
        assert(s + t =~= s);
        assert(key_reports(old, new, s) + key_reports(old, new, t) =~= key_reports(old, new, s));
    } else {
        lemma_key_reports_concat(old, new, s, t.drop_last());
        assert((s + t).drop_last() =~= s + t.drop_last());
        assert((s + t).last() == t.last());
        assert(key_reports(old, new, s) + key_reports(old, new, t) =~= key_reports(old, new, s)
            + key_reports(old, new, t.drop_last()) + key_report(old, new, t.last()));
    }
}

proof fn lemma_key_reports_push(
    old: Seq<StorageKeyView>,
    new: Seq<StorageKeyView>,
    s: Seq<Seq<char>>,
    y: Seq<char>,
)
    ensures
        key_reports(old, new, s + seq![y]) == key_reports(old, new, s) + key_report(old, new, y),
{
    assert((s + seq![y]).drop_last() =~= s);
    assert((s + seq![y]).last() == y);
}

proof fn lemma_storage_scan_old_reports(old: Seq<StorageKeyView>, new: Seq<StorageKeyView>, k: int)
    requires
        0 <= k <= old.len(),
    ensures
        storage_scan_old(old, new, k) == key_reports(old, new, standing_names(key_names(old), k)),
    decreases k,
{
    let a = key_names(old);
    if k > 0 {
        lemma_storage_scan_old_reports(old, new, k - 1);
        let s = standing_names(a, k - 1);
        if stands_for_name(a, k - 1) {
            let y = a[k - 1];
            assert(y == old[k - 1].name);
            lemma_key_reports_push(old, new, s, y);
            assert(key_report(old, new, y) == old_key_findings(old[k - 1], new));
        } else {
            assert(standing_names(a, k) =~= s);
            assert(storage_scan_old(old, new, k) =~= storage_scan_old(old, new, k - 1));
        }
    } else {
        assert(standing_names(a, k) =~= Seq::<Seq<char>>::empty());
    }
}

proof fn lemma_storage_scan_new_reports(old: Seq<StorageKeyView>, new: Seq<StorageKeyView>, k: int)
    requires
        0 <= k <= new.len(),
    ensures
        storage_scan_new(old, new, k) == key_reports(old, new, fresh_names(key_names(old), key_names(new), k)),
    decreases k,
{
    let a = key_names(old);
    let b = key_names(new);
    if k > 0 {
        lemma_storage_scan_new_reports(old, new, k - 1);
        let s = fresh_names(a, b, k - 1);
        let y = b[k - 1];
        assert(y == new[k - 1].name);
        if stands_for_name(b, k - 1) && last_index(a, y) < 0 {
            lemma_key_reports_push(old, new, s, y);
            assert(key_report(old, new, y) == seq![added_key_finding(new[k - 1])]);
        } else {
            assert(fresh_names(a, b, k) =~= s);
            assert(storage_scan_new(old, new, k) =~= storage_scan_new(old, new, k - 1));
        }
    } else {
        assert(fresh_names(a, b, k) =~= Seq::<Seq<char>>::empty());
    }
}

/// The storage findings, name by name: each name that either version has
/// is visited once (the old version's names first, in the order of their
/// last entries, then those only the new version has), and what is
/// reported about it is its `key_report`, nothing else.
pub proof fn lemma_storage_findings_by_name(old: Seq<StorageKeyView>, new: Seq<StorageKeyView>)
    ensures
        storage_findings(old, new) == key_reports(old, new, visited_names(key_names(old), key_names(new))),
        visited_names(key_names(old), key_names(new)).no_duplicates(),
        forall|n: Seq<char>|
            #[trigger] visited_names(key_names(old), key_names(new)).contains(n) <==> (last_index(
                key_names(old),
                n,
            ) >= 0 || last_index(key_names(new), n) >= 0),
{
    lemma_storage_scan_old_reports(old, new, old.len() as int);
    lemma_storage_scan_new_reports(old, new, new.len() as int);
    lemma_key_reports_concat(
        old,
        new,
        standing_names(key_names(old), old.len() as int),
        fresh_names(key_names(old), key_names(new), new.len() as int),
    );
    lemma_visited_names(key_names(old), key_names(new));
}

/// What is reported about one storage key name. A name only the old
/// version has: one breaking finding that it was removed, with no new
/// value. Only the new version: one warning that it was added, with no old
/// value. Both, with entries `ko` and `kn`: nothing when they are equal; a
/// breaking kind change exactly when the kinds differ; one finding on the
/// fields exactly when their listings differ, which quotes both listings
/// and is breaking when some field name occurs on both sides with different
/// types, for information otherwise.
pub proof fn lemma_key_report(old: Seq<StorageKeyView>, new: Seq<StorageKeyView>, n: Seq<char>)
    ensures
        ({
            let io = last_index(key_names(old), n);
            let jn = last_index(key_names(new), n);
            let r = key_report(old, new, n);
            &&& io < 0 && jn < 0 ==> r.len() == 0
            &&& io >= 0 && jn < 0 ==> r.len() == 1 && r[0].severity == Severity::Breaking && r[0].category
                == "storage"@ && r[0].message == "Storage key '"@ + n + "' was removed"@ && r[0].old_value
                == Some(storage_key_debug(old[io])) && r[0].new_value is None
            &&& io < 0 && jn >= 0 ==> r.len() == 1 && r[0].severity == Severity::Warning && r[0].category
                == "storage"@ && r[0].message == "Storage key '"@ + n + "' was added"@ && r[0].old_value
                is None && r[0].new_value == Some(storage_key_debug(new[jn]))
            &&& io >= 0 && jn >= 0 ==> {
                let ko = old[io];
                let kn = new[jn];
                let kinds = kind_change_findings(ko, kn);
                let fields = field_change_findings(ko, kn);
                &&& r == kinds + fields
                &&& ko == kn ==> r.len() == 0
                &&& kinds.len() == (if ko.kind != kn.kind { 1int } else { 0int })
                &&& ko.kind != kn.kind ==> kinds[0] == finding(
                    Severity::Breaking,
                    "storage"@,
                    "Storage key '"@ + n + "' changed from "@ + kind_debug(ko.kind) + " to "@
                        + kind_debug(kn.kind),
                    Some(kind_debug(ko.kind)),
                    Some(kind_debug(kn.kind)),
                )
                &&& fields.len() == (if ko.fields != kn.fields && field_texts(ko.fields) != field_texts(
                    kn.fields,
                ) {
                    1int
                } else {
                    0int
                })
                &&& fields.len() == 1 ==> fields[0] == finding(
                    if has_type_change(ko.fields, kn.fields) {
                        Severity::Breaking
                    } else {
                        Severity::Info
                    },
                    "storage"@,
                    "Storage key '"@ + n + if has_type_change(ko.fields, kn.fields) {
                        "' has field type changes"@
                    } else {
                        "' fields changed (names/layout)"@
                    },
                    Some(seq_join(field_texts(ko.fields), ", "@)),
                    Some(seq_join(field_texts(kn.fields), ", "@)),
                )
            }
        }),
{
    let io = last_index(key_names(old), n);
    let jn = last_index(key_names(new), n);
    lemma_last_index(key_names(old), n);
    lemma_last_index(key_names(new), n);
    if io >= 0 {
        assert(key_names(old)[io] == old[io].name);
    }
    if jn >= 0 {
        assert(key_names(new)[jn] == new[jn].name);
    }
    if io >= 0 && jn >= 0 {
        let ko = old[io];
        let kn = new[jn];
        if has_type_change(ko.fields, kn.fields) {
            assert(("Storage key '"@ + n) + "' has field type changes"@ == "Storage key '"@ + n
                + "' has field type changes"@);
        }
    }
}

/// What the comparison reports about one function name's auth calls:
/// removed or added (for information) when only one version has it, and
/// otherwise the dropped calls between the entries that stand for it.
pub open spec fn auth_report(old: Seq<FunctionAuthView>, new: Seq<FunctionAuthView>, n: Seq<char>) -> Seq<
    DriftFindingView,
> {
    let io = last_index(auth_names(old), n);
    let jn = last_index(auth_names(new), n);
    if io >= 0 {
        old_fn_auth_findings(old[io], new)
    } else if jn >= 0 {
        seq![added_fn_auth_finding(new[jn])]
    } else {
        Seq::empty()
    }
}

/// The auth reports about the names `ns`, one after another.
pub open spec fn auth_reports(old: Seq<FunctionAuthView>, new: Seq<FunctionAuthView>, ns: Seq<Seq<char>>) -> Seq<
    DriftFindingView,
>
    decreases ns.len(),
{
    if ns.len() == 0 {
        Seq::empty()
    } else {
        auth_reports(old, new, ns.drop_last()) + auth_report(old, new, ns.last())
    }
}

proof fn lemma_auth_reports_concat(
    old: Seq<FunctionAuthView>,
    new: Seq<FunctionAuthView>,
    s: Seq<Seq<char>>,
    t: Seq<Seq<char>>,
)
    ensures
        auth_reports(old, new, s + t) == auth_reports(old, new, s) + auth_reports(old, new, t),
    decreases t.len(),
{
    if t.len() == 0 {
        assert(s + t =~= s);
        assert(auth_reports(old, new, s) + auth_reports(old, new, t) =~= auth_reports(old, new, s));
    } else {
        lemma_auth_reports_concat(old, new, s, t.drop_last());
        assert((s + t).drop_last() =~= s + t.drop_last());
        assert((s + t).last() == t.last());
        assert(auth_reports(old, new, s) + auth_reports(old, new, t) =~= auth_reports(old, new, s)
            + auth_reports(old, new, t.drop_last()) + auth_report(old, new, t.last()));
    }
}

proof fn lemma_auth_reports_push(
    old: Seq<FunctionAuthView>,
    new: Seq<FunctionAuthView>,
    s: Seq<Seq<char>>,
    y: Seq<char>,
)
    ensures
        auth_reports(old, new, s + seq![y]) == auth_reports(old, new, s) + auth_report(old, new, y),
{
    assert((s + seq![y]).drop_last() =~= s);
    assert((s + seq![y]).last() == y);
}

proof fn lemma_auth_scan_old_reports(old: Seq<FunctionAuthView>, new: Seq<FunctionAuthView>, k: int)
    requires
        0 <= k <= old.len(),
    ensures
        auth_scan_old(old, new, k) == auth_reports(old, new, standing_names(auth_names(old), k)),
    decreases k,
{
    let a = auth_names(old);
    if k > 0 {
        lemma_auth_scan_old_reports(old, new, k - 1);
        let s = standing_names(a, k - 1);
        if stands_for_name(a, k - 1) {
            let y = a[k - 1];
            assert(y == old[k - 1].function_name);
            lemma_auth_reports_push(old, new, s, y);
            assert(auth_report(old, new, y) == old_fn_auth_findings(old[k - 1], new));
        } else {
            assert(standing_names(a, k) =~= s);
            assert(auth_scan_old(old, new, k) =~= auth_scan_old(old, new, k - 1));
        }
    } else {
        assert(standing_names(a, k) =~= Seq::<Seq<char>>::empty());
    }
}

proof fn lemma_auth_scan_new_reports(old: Seq<FunctionAuthView>, new: Seq<FunctionAuthView>, k: int)
    requires
        0 <= k <= new.len(),
    ensures
        auth_scan_new(old, new, k) == auth_reports(old, new, fresh_names(auth_names(old), auth_names(new), k)),
    decreases k,
{
    let a = auth_names(old);
    let b = auth_names(new);
    if k > 0 {
        lemma_auth_scan_new_reports(old, new, k - 1);
        let s = fresh_names(a, b, k - 1);
        let y = b[k - 1];
        assert(y == new[k - 1].function_name);
        if stands_for_name(b, k - 1) && last_index(a, y) < 0 {
            lemma_auth_reports_push(old, new, s, y);
            assert(auth_report(old, new, y) == seq![added_fn_auth_finding(new[k - 1])]);
        } else {
            assert(fresh_names(a, b, k) =~= s);
            assert(auth_scan_new(old, new, k) =~= auth_scan_new(old, new, k - 1));
        }
    } else {
        assert(fresh_names(a, b, k) =~= Seq::<Seq<char>>::empty());
    }
}

/// The auth findings, name by name: each function name that either version
/// has is visited once (the old version's first, in the order of their last
/// entries, then those only the new version has), and what is reported
/// about it is its `auth_report`, nothing else.
pub proof fn lemma_auth_findings_by_name(old: Seq<FunctionAuthView>, new: Seq<FunctionAuthView>)
    ensures
        auth_findings(old, new) == auth_reports(old, new, visited_names(auth_names(old), auth_names(new))),
        visited_names(auth_names(old), auth_names(new)).no_duplicates(),
        forall|n: Seq<char>|
            #[trigger] visited_names(auth_names(old), auth_names(new)).contains(n) <==> (last_index(
                auth_names(old),
                n,
            ) >= 0 || last_index(auth_names(new), n) >= 0),
{
    lemma_auth_scan_old_reports(old, new, old.len() as int);
    lemma_auth_scan_new_reports(old, new, new.len() as int);
    lemma_auth_reports_concat(
        old,
        new,
        standing_names(auth_names(old), old.len() as int),
        fresh_names(auth_names(old), auth_names(new), new.len() as int),
    );
    lemma_visited_names(auth_names(old), auth_names(new));
}

/// What is reported about one function name's auth calls. A function only
/// the old version has: one finding, for information, that it was removed;
/// only the new version: one, for information, that it was added; so
/// adding or removing a function is never breaking nor a warning. Both,
/// with entries `o` and `w`: a breaking drop of `require_auth()` exactly
/// when `o` has it and `w` has neither call; a warning that it became
/// `require_auth_for_args()` exactly when `o` has `require_auth()` and `w`
/// only the other; a breaking drop of `require_auth_for_args()` exactly
/// when `o` has it and `w` has neither; in that order, and nothing else.
/// Keeping auth, adding it, or trading `require_auth_for_args()` for
/// `require_auth()` is never reported.
pub proof fn lemma_auth_report(old: Seq<FunctionAuthView>, new: Seq<FunctionAuthView>, n: Seq<char>)
    ensures
        ({
            let io = last_index(auth_names(old), n);
            let jn = last_index(auth_names(new), n);
            let r = auth_report(old, new, n);
            &&& io < 0 && jn < 0 ==> r.len() == 0
            &&& io >= 0 && jn < 0 ==> r == seq![
                auth_finding(
                    Severity::Info,
                    "Function '"@ + n + "' was removed"@,
                    Some(function_auth_debug(old[io])),
                    None,
                ),
            ]
            &&& io < 0 && jn >= 0 ==> r == seq![
                auth_finding(
                    Severity::Info,
                    "Function '"@ + n + "' was added"@,
                    None,
                    Some(function_auth_debug(new[jn])),
                ),
            ]
            &&& io >= 0 && jn >= 0 ==> {
                let o = old[io];
                let w = new[jn];
                let drop = if o.has_require_auth && !w.has_require_auth && !w.has_require_auth_for_args {
                    seq![
                        auth_finding(
                            Severity::Breaking,
                            "Function '"@ + n + "' dropped require_auth()"@,
                            Some("require_auth"@),
                            Some("(none)"@),
                        ),
                    ]
                } else {
                    Seq::<DriftFindingView>::empty()
                };
                let weaken = if o.has_require_auth && !w.has_require_auth && w.has_require_auth_for_args {
                    seq![
                        auth_finding(
                            Severity::Warning,
                            "Function '"@ + n + "' changed from require_auth() to require_auth_for_args()"@,
                            Some("require_auth"@),
                            Some("require_auth_for_args"@),
                        ),
                    ]
                } else {
                    Seq::<DriftFindingView>::empty()
                };
                let args_drop = if o.has_require_auth_for_args && !w.has_require_auth_for_args
                    && !w.has_require_auth {
                    seq![
                        auth_finding(
                            Severity::Breaking,
                            "Function '"@ + n + "' dropped require_auth_for_args()"@,
                            Some("require_auth_for_args"@),
                            Some("(none)"@),
                        ),
                    ]
                } else {
                    Seq::<DriftFindingView>::empty()
                };
                &&& r == drop + weaken + args_drop
                &&& w.has_require_auth || ((o.has_require_auth ==> w.has_require_auth) && (
                o.has_require_auth_for_args ==> w.has_require_auth_for_args)) ==> r.len() == 0
            }
        }),
{
    let io = last_index(auth_names(old), n);
    let jn = last_index(auth_names(new), n);
    lemma_last_index(auth_names(old), n);
    lemma_last_index(auth_names(new), n);
    if io >= 0 {
        assert(auth_names(old)[io] == old[io].function_name);
    }
    if jn >= 0 {
        assert(auth_names(new)[jn] == new[jn].function_name);
    }
    if io >= 0 && jn >= 0 {
        let o = old[io];
        let w = new[jn];
        assert(auth_report(old, new, n) == auth_drop_findings(o, w) + auth_args_drop_findings(o, w));
        let e = Seq::<DriftFindingView>::empty();
        assert(auth_drop_findings(o, w) + e =~= auth_drop_findings(o, w));
        assert(e + auth_drop_findings(o, w) =~= auth_drop_findings(o, w));
        assert(e + e =~= e);
        assert(e + e + auth_args_drop_findings(o, w) =~= auth_args_drop_findings(o, w));
        assert(auth_drop_findings(o, w) + e + auth_args_drop_findings(o, w) =~= auth_drop_findings(o, w)
            + auth_args_drop_findings(o, w));
        assert(e + auth_drop_findings(o, w) + auth_args_drop_findings(o, w) =~= auth_drop_findings(o, w)
            + auth_args_drop_findings(o, w));
    }
}

/// What the comparison reports about one function name's signature:
/// removed or added when only one version has it, and otherwise a change
/// between the entries that stand for it.
pub open spec fn spec_report(old: Seq<FunctionSpecView>, new: Seq<FunctionSpecView>, n: Seq<char>) -> Seq<
    DriftFindingView,
> {
    let io = last_index(spec_names(old), n);
    let jn = last_index(spec_names(new), n);
    if io >= 0 {
        old_fn_spec_findings(old[io], new)
    } else if jn >= 0 {
        seq![signature_finding("Function '"@ + n + "' was added to spec"@, None, None)]
    } else {
        Seq::empty()
    }
}

/// The signature reports about the names `ns`, one after another.
pub open spec fn spec_reports(old: Seq<FunctionSpecView>, new: Seq<FunctionSpecView>, ns: Seq<Seq<char>>) -> Seq<
    DriftFindingView,
>
    decreases ns.len(),
{
    if ns.len() == 0 {
        Seq::empty()
    } else {
        spec_reports(old, new, ns.drop_last()) + spec_report(old, new, ns.last())
    }
}

proof fn lemma_spec_reports_concat(
    old: Seq<FunctionSpecView>,
    new: Seq<FunctionSpecView>,
    s: Seq<Seq<char>>,
    t: Seq<Seq<char>>,
)
    ensures
        spec_reports(old, new, s + t) == spec_reports(old, new, s) + spec_reports(old, new, t),
    decreases t.len(),
{
    if t.len() == 0 {
        assert(s + t =~= s);
        assert(spec_reports(old, new, s) + spec_reports(old, new, t) =~= spec_reports(old, new, s));
    } else {
        lemma_spec_reports_concat(old, new, s, t.drop_last());
        assert((s + t).drop_last() =~= s + t.drop_last());
        assert((s + t).last() == t.last());
        assert(spec_reports(old, new, s) + spec_reports(old, new, t) =~= spec_reports(old, new, s)
            + spec_reports(old, new, t.drop_last()) + spec_report(old, new, t.last()));
    }
}

proof fn lemma_spec_reports_push(
    old: Seq<FunctionSpecView>,
    new: Seq<FunctionSpecView>,
    s: Seq<Seq<char>>,
    y: Seq<char>,
)
    ensures
        spec_reports(old, new, s + seq![y]) == spec_reports(old, new, s) + spec_report(old, new, y),
{
    assert((s + seq![y]).drop_last() =~= s);
    assert((s + seq![y]).last() == y);
}

proof fn lemma_spec_scan_old_reports(old: Seq<FunctionSpecView>, new: Seq<FunctionSpecView>, k: int)
    requires
        0 <= k <= old.len(),
    ensures
        spec_scan_old(old, new, k) == spec_reports(old, new, standing_names(spec_names(old), k)),
    decreases k,
{
    let a = spec_names(old);
    if k > 0 {
        lemma_spec_scan_old_reports(old, new, k - 1);
        let s = standing_names(a, k - 1);
        if stands_for_name(a, k - 1) {
            let y = a[k - 1];
            assert(y == old[k - 1].name);
            lemma_spec_reports_push(old, new, s, y);
            assert(spec_report(old, new, y) == old_fn_spec_findings(old[k - 1], new));
        } else {
            assert(standing_names(a, k) =~= s);
            assert(spec_scan_old(old, new, k) =~= spec_scan_old(old, new, k - 1));
        }
    } else {
        assert(standing_names(a, k) =~= Seq::<Seq<char>>::empty());
    }
}

proof fn lemma_spec_scan_new_reports(old: Seq<FunctionSpecView>, new: Seq<FunctionSpecView>, k: int)
    requires
        0 <= k <= new.len(),
    ensures
        spec_scan_new(old, new, k) == spec_reports(old, new, fresh_names(spec_names(old), spec_names(new), k)),
    decreases k,
{
    let a = spec_names(old);
    let b = spec_names(new);
    if k > 0 {
        lemma_spec_scan_new_reports(old, new, k - 1);
        let s = fresh_names(a, b, k - 1);
        let y = b[k - 1];
        assert(y == new[k - 1].name);
        if stands_for_name(b, k - 1) && last_index(a, y) < 0 {
            lemma_spec_reports_push(old, new, s, y);
        } else {
            assert(fresh_names(a, b, k) =~= s);
            assert(spec_scan_new(old, new, k) =~= spec_scan_new(old, new, k - 1));
        }
    } else {
        assert(fresh_names(a, b, k) =~= Seq::<Seq<char>>::empty());
    }
}

/// The signature findings, name by name: each function name that either
/// version's spec has is visited once (the old version's first, in the
/// order of their last entries, then those only the new version has), and
/// what is reported about it is its `spec_report`, nothing else.
pub proof fn lemma_signature_findings_by_name(old: Seq<FunctionSpecView>, new: Seq<FunctionSpecView>)
    ensures
        signature_findings(old, new) == spec_reports(old, new, visited_names(spec_names(old), spec_names(new))),
        visited_names(spec_names(old), spec_names(new)).no_duplicates(),
        forall|n: Seq<char>|
            #[trigger] visited_names(spec_names(old), spec_names(new)).contains(n) <==> (last_index(
                spec_names(old),
                n,
            ) >= 0 || last_index(spec_names(new), n) >= 0),
{
    lemma_spec_scan_old_reports(old, new, old.len() as int);
    lemma_spec_scan_new_reports(old, new, new.len() as int);
    lemma_spec_reports_concat(
        old,
        new,
        standing_names(spec_names(old), old.len() as int),
        fresh_names(spec_names(old), spec_names(new), new.len() as int),
    );
    lemma_visited_names(spec_names(old), spec_names(new));
}

/// What is reported about one function name's signature, always for
/// information and with no other finding: only in the old spec, that it was
/// removed from the spec; only in the new one, that it was added; in both,
/// with entries `o` and `w`, that its signature changed, quoting both
/// signatures, exactly when the inputs or the outputs differ.
pub proof fn lemma_spec_report(old: Seq<FunctionSpecView>, new: Seq<FunctionSpecView>, n: Seq<char>)
    ensures
        ({
            let io = last_index(spec_names(old), n);
            let jn = last_index(spec_names(new), n);
            let r = spec_report(old, new, n);
            &&& io < 0 && jn < 0 ==> r.len() == 0
            &&& io >= 0 && jn < 0 ==> r == seq![
                signature_finding("Function '"@ + n + "' was removed from spec"@, None, None),
            ]
            &&& io < 0 && jn >= 0 ==> r == seq![
                signature_finding("Function '"@ + n + "' was added to spec"@, None, None),
            ]
            &&& io >= 0 && jn >= 0 ==> r == if old[io].inputs != new[jn].inputs || old[io].outputs
                != new[jn].outputs {
                seq![
                    signature_finding(
                        "Function '"@ + n + "' signature changed"@,
                        Some(signature_text(old[io])),
                        Some(signature_text(new[jn])),
                    ),
                ]
            } else {
                Seq::<DriftFindingView>::empty()
            }
        }),
{
    lemma_last_index(spec_names(old), n);
    lemma_last_index(spec_names(new), n);
    let io = last_index(spec_names(old), n);
    if io >= 0 {
        assert(spec_names(old)[io] == old[io].name);
    }
}

/// A field that keeps its name and changes its type breaks readers,
/// wherever it stands in either version: for a key both versions have
/// (the entries standing for its name), with field `fi` of the old entry
/// and field `fj` of the new one sharing a name but not a type, and field
/// listings that differ, the comparison reports the key as having field
/// type changes, as breaking, quoting both listings.
pub proof fn lemma_retyped_field_is_breaking(
    old_storage: Seq<StorageKeyView>,
    new_storage: Seq<StorageKeyView>,
    old_auth: Seq<FunctionAuthView>,
    new_auth: Seq<FunctionAuthView>,
    old_spec: Seq<FunctionSpecView>,
    new_spec: Seq<FunctionSpecView>,
    i: int,
    j: int,
    fi: int,
    fj: int,
)
    requires
        0 <= i < old_storage.len(),
        0 <= j < new_storage.len(),
        stands_for_name(key_names(old_storage), i),
        stands_for_name(key_names(new_storage), j),
        old_storage[i].name == new_storage[j].name,
        0 <= fi < old_storage[i].fields.len(),
        0 <= fj < new_storage[j].fields.len(),
        old_storage[i].fields[fi].name == new_storage[j].fields[fj].name,
        old_storage[i].fields[fi].ty != new_storage[j].fields[fj].ty,
        field_texts(old_storage[i].fields) != field_texts(new_storage[j].fields),
    ensures
        drift_findings(old_storage, new_storage, old_auth, new_auth, old_spec, new_spec).contains(
            finding(
                Severity::Breaking,
                "storage"@,
                "Storage key '"@ + old_storage[i].name + "' has field type changes"@,
                Some(seq_join(field_texts(old_storage[i].fields), ", "@)),
                Some(seq_join(field_texts(new_storage[j].fields), ", "@)),
            ),
        ),
{
    let o = old_storage[i];
    let n = new_storage[j];
    assert(o.fields[fi].name == n.fields[fj].name && o.fields[fi].ty != n.fields[fj].ty);
    assert(has_type_change(o.fields, n.fields));
    assert(o.fields != n.fields);
    let x = finding(
        Severity::Breaking,
        "storage"@,
        "Storage key '"@ + o.name + "' has field type changes"@,
        Some(seq_join(field_texts(o.fields), ", "@)),
        Some(seq_join(field_texts(n.fields), ", "@)),
    );
    assert(field_change_findings(o, n) == seq![x]);
    assert(key_names(old_storage)[i] == o.name);
    assert(key_names(new_storage)[j] == n.name);
    assert(last_index(key_names(new_storage), o.name) == j);
    let all = kind_change_findings(o, n) + field_change_findings(o, n);
    assert(old_key_findings(o, new_storage) == all);
    assert(all[all.len() - 1] == x);
    assert(old_key_findings(o, new_storage).contains(x));
    lemma_storage_scan_old_has(old_storage, new_storage, old_storage.len() as int, i, x);
    lemma_contains_left(
        storage_scan_old(old_storage, new_storage, old_storage.len() as int),
        storage_scan_new(old_storage, new_storage, new_storage.len() as int),
        x,
    );
    lemma_contains_left(storage_findings(old_storage, new_storage), auth_findings(old_auth, new_auth), x);
    lemma_contains_left(
        storage_findings(old_storage, new_storage) + auth_findings(old_auth, new_auth),
        signature_findings(old_spec, new_spec),
        x,
    );
}

/// Whether a fields change is breaking: it is exactly when some field
/// name, at any position on either side, occurs on both sides with
/// different types.
pub proof fn lemma_type_change_anywhere(o: Seq<FieldInfoView>, n: Seq<FieldInfoView>)
    ensures
        has_type_change(o, n) <==> exists|i: int, j: int|
            0 <= i < o.len() && 0 <= j < n.len() && (#[trigger] o[i]).name == (#[trigger] n[j]).name
                && o[i].ty != n[j].ty,
{
}

} // verus!
