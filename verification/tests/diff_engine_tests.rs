use soroban_drift::diff_engine::diff;
use soroban_drift::types::{
    ContractSpec, FieldInfo, FunctionAuth, FunctionSpec, ParamInfo, Severity, StorageKey,
    StorageKeyKind,
};

fn make_storage_key(name: &str, kind: StorageKeyKind, fields: Vec<(&str, &str)>) -> StorageKey {
    StorageKey {
        name: name.to_string(),
        kind,
        fields: fields
            .into_iter()
            .map(|(n, t)| FieldInfo {
                name: n.to_string(),
                ty: t.to_string(),
            })
            .collect(),
    }
}

fn auth(name: &str, has_auth: bool, has_args: bool) -> FunctionAuth {
    FunctionAuth {
        function_name: name.to_string(),
        has_require_auth: has_auth,
        has_require_auth_for_args: has_args,
    }
}

#[test]
fn removed_storage_key_is_breaking() {
    let old = vec![make_storage_key("Balance", StorageKeyKind::Struct, vec![("amount", "i128")])];
    let new = vec![];
    let findings = diff(&old, &new, &[], &[], &ContractSpec::default(), &ContractSpec::default());
    assert!(findings.iter().any(|f| f.severity == Severity::Breaking && f.category == "storage"));
}

#[test]
fn added_storage_key_is_warning() {
    let old = vec![];
    let new = vec![make_storage_key("Balance", StorageKeyKind::Struct, vec![("amount", "i128")])];
    let findings = diff(&old, &new, &[], &[], &ContractSpec::default(), &ContractSpec::default());
    assert!(findings.iter().any(|f| f.severity == Severity::Warning && f.category == "storage"));
}

#[test]
fn changed_field_type_is_breaking() {
    let old = vec![make_storage_key("Balance", StorageKeyKind::Struct, vec![("amount", "i128")])];
    let new = vec![make_storage_key("Balance", StorageKeyKind::Struct, vec![("amount", "u32")])];
    let findings = diff(&old, &new, &[], &[], &ContractSpec::default(), &ContractSpec::default());
    assert!(findings.iter().any(|f| f.severity == Severity::Breaking && f.category == "storage"));
}

#[test]
fn unchanged_storage_no_findings() {
    let old = vec![make_storage_key("Balance", StorageKeyKind::Struct, vec![("amount", "i128")])];
    let new = vec![make_storage_key("Balance", StorageKeyKind::Struct, vec![("amount", "i128")])];
    let findings = diff(&old, &new, &[], &[], &ContractSpec::default(), &ContractSpec::default());
    assert!(!findings.iter().any(|f| f.category == "storage"));
}

#[test]
fn dropped_require_auth_is_breaking() {
    let old = vec![auth("transfer", true, false)];
    let new = vec![auth("transfer", false, false)];
    let findings = diff(&[], &[], &old, &new, &ContractSpec::default(), &ContractSpec::default());
    assert!(findings.iter().any(|f| f.severity == Severity::Breaking && f.category == "auth"));
}

#[test]
fn auth_to_auth_for_args_is_warning() {
    let old = vec![auth("transfer", true, false)];
    let new = vec![auth("transfer", false, true)];
    let findings = diff(&[], &[], &old, &new, &ContractSpec::default(), &ContractSpec::default());
    assert!(findings.iter().any(|f| f.severity == Severity::Warning && f.category == "auth"));
}

#[test]
fn dropped_auth_for_args_is_breaking() {
    let old = vec![auth("transfer", false, true)];
    let new = vec![auth("transfer", false, false)];
    let findings = diff(&[], &[], &old, &new, &ContractSpec::default(), &ContractSpec::default());
    assert!(findings.iter().any(|f| f.severity == Severity::Breaking && f.category == "auth"));
}

#[test]
fn unchanged_auth_no_findings() {
    let old = vec![auth("transfer", true, false)];
    let new = vec![auth("transfer", true, false)];
    let findings = diff(&[], &[], &old, &new, &ContractSpec::default(), &ContractSpec::default());
    assert!(!findings.iter().any(|f| f.category == "auth"));
}

#[test]
fn key_kind_change_is_breaking() {
    let old = vec![StorageKey {
        name: "DataKey".to_string(),
        kind: StorageKeyKind::Enum,
        fields: vec![],
    }];
    let new = vec![StorageKey {
        name: "DataKey".to_string(),
        kind: StorageKeyKind::Struct,
        fields: vec![],
    }];
    let findings = diff(&old, &new, &[], &[], &ContractSpec::default(), &ContractSpec::default());
    assert!(findings.iter().any(|f| f.severity == Severity::Breaking && f.category == "storage"));
}

#[test]
fn signature_changes_are_info() {
    let old_spec = ContractSpec {
        functions: vec![FunctionSpec {
            name: "transfer".to_string(),
            inputs: vec![ParamInfo { name: "to".to_string(), ty: "Address".to_string() }],
            outputs: vec![],
        }],
    };
    let new_spec = ContractSpec {
        functions: vec![FunctionSpec {
            name: "transfer".to_string(),
            inputs: vec![ParamInfo { name: "to".to_string(), ty: "i128".to_string() }],
            outputs: vec![],
        }],
    };
    let findings = diff(&[], &[], &[], &[], &old_spec, &new_spec);
    assert!(findings.iter().any(|f| f.severity == Severity::Info && f.category == "signature"));
}

#[test]
fn no_changes_yields_empty_findings() {
    let old_s = vec![make_storage_key("K", StorageKeyKind::Struct, vec![("x", "u32")])];
    let new_s = vec![make_storage_key("K", StorageKeyKind::Struct, vec![("x", "u32")])];
    let old_a = vec![auth("f", true, false)];
    let new_a = vec![auth("f", true, false)];
    let spec = ContractSpec::default();
    let findings = diff(&old_s, &new_s, &old_a, &new_a, &spec, &spec);
    assert!(findings.is_empty());
}

// ---------------------------------------------------------------------------
// Exact findings
// ---------------------------------------------------------------------------

#[test]
fn removed_key_finding_quotes_the_key() {
    let old = vec![make_storage_key("Balance", StorageKeyKind::Struct, vec![("amount", "i128")])];
    let findings = diff(&old, &[], &[], &[], &ContractSpec::default(), &ContractSpec::default());
    assert_eq!(findings.len(), 1);
    assert_eq!(findings[0].severity, Severity::Breaking);
    assert_eq!(findings[0].category, "storage");
    assert_eq!(findings[0].message, "Storage key 'Balance' was removed");
    assert_eq!(findings[0].old_value, Some(format!("{:?}", old[0])));
    assert_eq!(
        findings[0].old_value.as_deref(),
        Some("StorageKey { name: \"Balance\", kind: Struct, fields: [FieldInfo { name: \"amount\", ty: \"i128\" }] }")
    );
    assert_eq!(findings[0].new_value, None);
}

#[test]
fn added_key_finding_quotes_the_key() {
    let new = vec![make_storage_key("Odd\"Name", StorageKeyKind::Enum, vec![("A", "()"), ("B", "u32")])];
    let findings = diff(&[], &new, &[], &[], &ContractSpec::default(), &ContractSpec::default());
    assert_eq!(findings.len(), 1);
    assert_eq!(findings[0].severity, Severity::Warning);
    assert_eq!(findings[0].message, "Storage key 'Odd\"Name' was added");
    assert_eq!(findings[0].old_value, None);
    assert_eq!(findings[0].new_value, Some(format!("{:?}", new[0])));
}

#[test]
fn field_type_change_lists_fields() {
    let old = vec![make_storage_key("Balance", StorageKeyKind::Struct, vec![("amount", "i128"), ("owner", "Address")])];
    let new = vec![make_storage_key("Balance", StorageKeyKind::Struct, vec![("amount", "u32"), ("owner", "Address")])];
    let findings = diff(&old, &new, &[], &[], &ContractSpec::default(), &ContractSpec::default());
    assert_eq!(findings.len(), 1);
    assert_eq!(findings[0].severity, Severity::Breaking);
    assert_eq!(findings[0].message, "Storage key 'Balance' has field type changes");
    assert_eq!(findings[0].old_value.as_deref(), Some("amount: i128, owner: Address"));
    assert_eq!(findings[0].new_value.as_deref(), Some("amount: u32, owner: Address"));
}

#[test]
fn renamed_field_is_info() {
    let old = vec![make_storage_key("Balance", StorageKeyKind::Struct, vec![("amount", "i128")])];
    let new = vec![make_storage_key("Balance", StorageKeyKind::Struct, vec![("value", "i128")])];
    let findings = diff(&old, &new, &[], &[], &ContractSpec::default(), &ContractSpec::default());
    assert_eq!(findings.len(), 1);
    assert_eq!(findings[0].severity, Severity::Info);
    assert_eq!(findings[0].message, "Storage key 'Balance' fields changed (names/layout)");
}

#[test]
fn same_field_text_from_different_fields_is_not_reported() {
    let old = vec![make_storage_key("K", StorageKeyKind::Struct, vec![("a: b", "c")])];
    let new = vec![make_storage_key("K", StorageKeyKind::Struct, vec![("a", "b: c")])];
    let findings = diff(&old, &new, &[], &[], &ContractSpec::default(), &ContractSpec::default());
    assert!(findings.is_empty());
}

#[test]
fn kind_change_message() {
    let old = vec![StorageKey { name: "DataKey".to_string(), kind: StorageKeyKind::Enum, fields: vec![] }];
    let new = vec![StorageKey { name: "DataKey".to_string(), kind: StorageKeyKind::Struct, fields: vec![] }];
    let findings = diff(&old, &new, &[], &[], &ContractSpec::default(), &ContractSpec::default());
    assert_eq!(findings.len(), 1);
    assert_eq!(findings[0].message, "Storage key 'DataKey' changed from Enum to Struct");
    assert_eq!(findings[0].old_value.as_deref(), Some("Enum"));
    assert_eq!(findings[0].new_value.as_deref(), Some("Struct"));
}

#[test]
fn last_entry_of_a_name_stands_for_it() {
    let old = vec![
        make_storage_key("K", StorageKeyKind::Struct, vec![("x", "u64")]),
        make_storage_key("K", StorageKeyKind::Struct, vec![("x", "u32")]),
    ];
    let new = vec![make_storage_key("K", StorageKeyKind::Struct, vec![("x", "u32")])];
    let findings = diff(&old, &new, &[], &[], &ContractSpec::default(), &ContractSpec::default());
    assert!(findings.is_empty());
}

#[test]
fn auth_findings_messages() {
    let old = vec![auth("a", true, false), auth("b", true, false), auth("c", false, true), auth("gone", false, false)];
    let new = vec![auth("a", false, false), auth("b", false, true), auth("c", false, false), auth("fresh", true, false)];
    let findings = diff(&[], &[], &old, &new, &ContractSpec::default(), &ContractSpec::default());
    let messages: Vec<&str> = findings.iter().map(|f| f.message.as_str()).collect();
    assert_eq!(
        messages,
        vec![
            "Function 'a' dropped require_auth()",
            "Function 'b' changed from require_auth() to require_auth_for_args()",
            "Function 'c' dropped require_auth_for_args()",
            "Function 'gone' was removed",
            "Function 'fresh' was added",
        ]
    );
    assert_eq!(findings[0].new_value.as_deref(), Some("(none)"));
    assert_eq!(findings[1].severity, Severity::Warning);
    assert_eq!(findings[3].severity, Severity::Info);
    assert_eq!(findings[3].old_value, Some(format!("{:?}", old[3])));
    assert_eq!(findings[4].new_value, Some(format!("{:?}", new[3])));
}

#[test]
fn signature_findings_messages() {
    let f = |name: &str, ty: &str| FunctionSpec {
        name: name.to_string(),
        inputs: vec![ParamInfo { name: "x".to_string(), ty: ty.to_string() }],
        outputs: vec![ParamInfo { name: String::new(), ty: "Void".to_string() }],
    };
    let old_spec = ContractSpec { functions: vec![f("keep", "u32"), f("change", "u32"), f("gone", "u32")] };
    let new_spec = ContractSpec { functions: vec![f("keep", "u32"), f("change", "i32"), f("fresh", "u32")] };
    let findings = diff(&[], &[], &[], &[], &old_spec, &new_spec);
    assert_eq!(findings.len(), 3);
    assert_eq!(findings[0].message, "Function 'change' signature changed");
    assert_eq!(
        findings[0].old_value,
        Some(format!("({:?}) -> ({:?})", old_spec.functions[1].inputs, old_spec.functions[1].outputs))
    );
    assert_eq!(findings[1].message, "Function 'gone' was removed from spec");
    assert_eq!(findings[2].message, "Function 'fresh' was added to spec");
    assert!(findings.iter().all(|f| f.severity == Severity::Info && f.category == "signature"));
}

#[test]
fn same_version_has_no_findings() {
    let s = vec![
        make_storage_key("A", StorageKeyKind::Enum, vec![("X", "()")]),
        make_storage_key("A", StorageKeyKind::Struct, vec![]),
    ];
    let a = vec![auth("f", true, true), auth("g", false, false)];
    let spec = ContractSpec {
        functions: vec![FunctionSpec { name: "f".to_string(), inputs: vec![], outputs: vec![] }],
    };
    assert!(diff(&s, &s, &a, &a, &spec, &spec).is_empty());
}

#[test]
fn moved_and_retyped_field_is_breaking() {
    let old = vec![make_storage_key("P", StorageKeyKind::Struct, vec![("a", "i128")])];
    let new = vec![make_storage_key("P", StorageKeyKind::Struct, vec![("x", "u32"), ("a", "u32")])];
    let findings = diff(&old, &new, &[], &[], &ContractSpec::default(), &ContractSpec::default());
    assert_eq!(findings.len(), 1);
    assert_eq!(findings[0].severity, Severity::Breaking);
    assert_eq!(findings[0].message, "Storage key 'P' has field type changes");
    assert_eq!(findings[0].old_value.as_deref(), Some("a: i128"));
    assert_eq!(findings[0].new_value.as_deref(), Some("x: u32, a: u32"));
}

#[test]
fn reordered_fields_keeping_types_are_info() {
    let old = vec![make_storage_key("P", StorageKeyKind::Struct, vec![("a", "i128"), ("b", "u32")])];
    let new = vec![make_storage_key("P", StorageKeyKind::Struct, vec![("b", "u32"), ("a", "i128")])];
    let findings = diff(&old, &new, &[], &[], &ContractSpec::default(), &ContractSpec::default());
    assert_eq!(findings.len(), 1);
    assert_eq!(findings[0].severity, Severity::Info);
}

#[test]
fn removed_and_added_names_are_reported_once() {
    let old = vec![
        make_storage_key("Gone", StorageKeyKind::Struct, vec![("a", "u32")]),
        make_storage_key("Gone", StorageKeyKind::Struct, vec![("a", "i128")]),
    ];
    let new = vec![
        make_storage_key("Fresh", StorageKeyKind::Enum, vec![]),
        make_storage_key("Fresh", StorageKeyKind::Enum, vec![]),
    ];
    let old_auth = vec![auth("f", true, false), auth("f", true, false)];
    let new_auth = vec![auth("g", false, false), auth("g", false, false)];
    let findings = diff(&old, &new, &old_auth, &new_auth, &ContractSpec::default(), &ContractSpec::default());
    let count = |m: &str| findings.iter().filter(|f| f.message == m).count();
    assert_eq!(count("Storage key 'Gone' was removed"), 1);
    assert_eq!(count("Storage key 'Fresh' was added"), 1);
    assert_eq!(count("Function 'f' was removed"), 1);
    assert_eq!(count("Function 'g' was added"), 1);
    assert_eq!(findings.len(), 4);
}

#[test]
fn storage_names_are_reported_in_visiting_order() {
    let old = vec![
        make_storage_key("B", StorageKeyKind::Struct, vec![("x", "u32")]),
        make_storage_key("A", StorageKeyKind::Enum, vec![]),
        make_storage_key("Same", StorageKeyKind::Struct, vec![("v", "u64")]),
    ];
    let new = vec![
        make_storage_key("C", StorageKeyKind::Struct, vec![]),
        make_storage_key("Same", StorageKeyKind::Struct, vec![("v", "u64")]),
        make_storage_key("A", StorageKeyKind::Struct, vec![("y", "i32")]),
    ];
    let findings = diff(&old, &new, &[], &[], &ContractSpec::default(), &ContractSpec::default());
    let messages: Vec<&str> = findings.iter().map(|f| f.message.as_str()).collect();
    assert_eq!(
        messages,
        vec![
            "Storage key 'B' was removed",
            "Storage key 'A' changed from Enum to Struct",
            "Storage key 'A' fields changed (names/layout)",
            "Storage key 'C' was added",
        ]
    );
    assert_eq!(findings[0].new_value, None);
    assert_eq!(findings[2].severity, Severity::Info);
    assert_eq!(findings[2].old_value.as_deref(), Some(""));
    assert_eq!(findings[2].new_value.as_deref(), Some("y: i32"));
    assert_eq!(findings[3].old_value, None);
}

#[test]
fn strengthened_auth_is_not_reported() {
    let old = vec![auth("a", false, true), auth("b", false, false)];
    let new = vec![auth("a", true, false), auth("b", true, true)];
    let findings = diff(&[], &[], &old, &new, &ContractSpec::default(), &ContractSpec::default());
    assert!(findings.is_empty());
}
