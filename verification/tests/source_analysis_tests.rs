use soroban_drift::auth_extractor::extract_auth;
use soroban_drift::rust_parser::{format_type, parse_crate, ParseError};
use soroban_drift::storage_extractor::{
    extract_storage_schema, extract_storage_writes, StorageAccess, StorageExtractError,
};
use soroban_drift::syntax::{SourceText, TypeRepr};
use soroban_drift::types::StorageKeyKind;

fn source(content: &str) -> Vec<SourceText> {
    vec![SourceText { path: "lib.rs".to_string(), content: content.to_string() }]
}

#[test]
fn detect_require_auth() {
    let content = r#"
pub fn transfer(env: Env, from: Address, to: Address, amount: i128) {
    from.require_auth();
}
"#;
    let funcs = extract_auth(&source(content)).unwrap();
    assert_eq!(funcs.len(), 1);
    assert!(funcs[0].has_require_auth);
    assert!(!funcs[0].has_require_auth_for_args);
}

#[test]
fn detect_require_auth_for_args() {
    let content = r#"
pub fn transfer(env: Env, from: Address, to: Address, amount: i128) {
    from.require_auth_for_args((&amount,));
}
"#;
    let funcs = extract_auth(&source(content)).unwrap();
    assert_eq!(funcs.len(), 1);
    assert!(!funcs[0].has_require_auth);
    assert!(funcs[0].has_require_auth_for_args);
}

#[test]
fn no_auth_call() {
    let content = r#"
pub fn read_balance(env: Env) -> i128 {
    env.storage().instance().get(&DataKey::Balance).unwrap_or(0)
}
"#;
    let funcs = extract_auth(&source(content)).unwrap();
    assert_eq!(funcs.len(), 1);
    assert!(!funcs[0].has_require_auth);
    assert!(!funcs[0].has_require_auth_for_args);
}

#[test]
fn skip_private_functions() {
    let content = r#"
fn internal(env: Env) {
    from.require_auth();
}
"#;
    let funcs = extract_auth(&source(content)).unwrap();
    assert_eq!(funcs.len(), 0);
}

#[test]
fn auth_in_if_branch() {
    let content = r#"
pub fn admin_op(env: Env, admin: Address) {
    if admin != Address::random(&env) {
        admin.require_auth();
    }
}
"#;
    let funcs = extract_auth(&source(content)).unwrap();
    assert_eq!(funcs.len(), 1);
    assert!(funcs[0].has_require_auth);
}

#[test]
fn auth_in_else_match_and_let() {
    let content = r#"
pub struct C;
impl C {
    pub fn a(x: u32) {
        if x == 0 { } else if x == 1 { } else { admin.require_auth(); }
    }
    pub fn b(x: u32) {
        match x { 0 => {}, _ => { admin.require_auth_for_args((x,)); } }
    }
    pub fn c(x: u32) {
        let _y = { admin.require_auth() };
    }
    fn hidden() { admin.require_auth(); }
    pub fn d() {
        helper(admin.require_auth());
    }
}
"#;
    let funcs = extract_auth(&source(content)).unwrap();
    let got: Vec<(&str, bool, bool)> = funcs
        .iter()
        .map(|f| (f.function_name.as_str(), f.has_require_auth, f.has_require_auth_for_args))
        .collect();
    assert_eq!(
        got,
        vec![("a", true, false), ("b", false, true), ("c", true, false), ("d", false, false)]
    );
}

#[test]
fn syntax_error_is_reported_with_path() {
    let sources = vec![
        SourceText { path: "good.rs".to_string(), content: "pub fn f() {}".to_string() },
        SourceText { path: "bad.rs".to_string(), content: "pub fn (".to_string() },
    ];
    match parse_crate(&sources) {
        Err(ParseError::Syntax { path, line, message }) => {
            assert_eq!(path, "bad.rs");
            assert_eq!(line, 0);
            assert!(!message.is_empty());
        }
        other => panic!("unexpected {:?}", other),
    }
    assert!(extract_auth(&sources).is_err());
    match extract_storage_schema(&sources) {
        Err(StorageExtractError::Parse { path, .. }) => assert_eq!(path, "bad.rs"),
        other => panic!("unexpected {:?}", other),
    }
}

#[test]
fn parse_struct_contracttype() {
    let content = r#"
#[contracttype]
pub struct Balance {
    pub amount: i128,
    pub owner: Address,
}
"#;
    let ast = parse_crate(&source(content)).unwrap();
    assert_eq!(ast.storage_keys.len(), 1);
    assert_eq!(ast.storage_keys[0].name, "Balance");
    assert_eq!(ast.storage_keys[0].kind, StorageKeyKind::Struct);
    assert_eq!(ast.storage_keys[0].fields.len(), 2);
}

#[test]
fn parse_enum_contracttype() {
    let content = r#"
#[contracttype]
pub enum DataKey {
    Admin,
    Balance(Address),
}
"#;
    let ast = parse_crate(&source(content)).unwrap();
    assert_eq!(ast.storage_keys.len(), 1);
    assert_eq!(ast.storage_keys[0].name, "DataKey");
    assert_eq!(ast.storage_keys[0].kind, StorageKeyKind::Enum);
    assert_eq!(ast.storage_keys[0].fields.len(), 2);
}

#[test]
fn parse_require_auth() {
    let content = r#"
pub fn transfer(env: Env, from: Address, to: Address, amount: i128) {
    from.require_auth();
}
"#;
    let ast = parse_crate(&source(content)).unwrap();
    assert_eq!(ast.functions.len(), 1);
    assert!(ast.functions[0].has_require_auth);
    assert!(!ast.functions[0].has_require_auth_for_args);
}

#[test]
fn parse_require_auth_for_args() {
    let content = r#"
pub fn transfer(env: Env, from: Address, to: Address, amount: i128) {
    from.require_auth_for_args((&amount,));
}
"#;
    let ast = parse_crate(&source(content)).unwrap();
    assert_eq!(ast.functions.len(), 1);
    assert!(!ast.functions[0].has_require_auth);
    assert!(ast.functions[0].has_require_auth_for_args);
}

#[test]
fn private_function_not_analyzed() {
    let content = r#"
fn internal_helper(env: Env) {
    env.storage().instance().set(&"key", &"val");
}
"#;
    let ast = parse_crate(&source(content)).unwrap();
    assert_eq!(ast.functions.len(), 0);
}

#[test]
fn skip_non_contracttype() {
    let content = r#"
pub struct NotContractType {
    pub x: u32,
}
"#;
    let ast = parse_crate(&source(content)).unwrap();
    assert_eq!(ast.storage_keys.len(), 0);
}

#[test]
fn field_types_as_text() {
    let content = r#"
#[soroban_sdk::contracttype]
pub struct K {
    pub a: Vec<Address>,
    pub b: soroban_sdk::Map<u32, Option<i128>>,
    pub c: &'a mut Bytes,
    pub d: Cow<'a, str>,
}
#[contracttype]
pub enum E {
    Unit,
    Pair(u32, Address),
    Named { x: i64, y: &'static str },
}
#[derive(Clone)]
#[contracttype]
pub struct T(pub u32, [u8; 4]);
"#;
    let ast = parse_crate(&source(content)).unwrap();
    assert_eq!(ast.storage_keys.len(), 3);
    let k = &ast.storage_keys[0];
    let fields: Vec<(&str, &str)> = k.fields.iter().map(|f| (f.name.as_str(), f.ty.as_str())).collect();
    assert_eq!(
        fields,
        vec![
            ("a", "Vec<Address>"),
            ("b", "soroban_sdk::Map<u32, Option<i128>>"),
            ("c", "&mut Bytes"),
            ("d", "Cow<a, str>"),
        ]
    );
    let e = &ast.storage_keys[1];
    let fields: Vec<(&str, &str)> = e.fields.iter().map(|f| (f.name.as_str(), f.ty.as_str())).collect();
    assert_eq!(fields, vec![("Unit", "()"), ("Pair", "u32, Address"), ("Named", "i64, &str")]);
    let t = &ast.storage_keys[2];
    assert_eq!(t.fields[0].name, "");
    assert_eq!(t.fields[0].ty, "u32");
    assert!(t.fields[1].ty.starts_with("Type::Array"));
}

#[test]
fn format_type_on_given_tree() {
    let ty = TypeRepr::Reference { mutable: false, elem: Box::new(TypeRepr::Other("[u8]".to_string())) };
    assert_eq!(format_type(&ty), "&[u8]");
}

#[test]
fn impl_methods_and_other_items() {
    let ast = parse_crate(&source("struct A; pub fn f() {} impl A { pub fn g(&self) {} fn h() {} const X: u32 = 1; } use x::y;")).unwrap();
    let names: Vec<&str> = ast.functions.iter().map(|f| f.function_name.as_str()).collect();
    assert_eq!(names, vec!["f", "g"]);
    assert!(ast.storage_keys.is_empty());
}

#[test]
fn detect_persistent_storage_write() {
    let content = r#"
pub fn set_data(env: Env) {
    env.storage().persistent().set(&DataKey::Admin, &"value");
}
"#;
    let writes = extract_storage_writes(&source(content)).unwrap();
    assert_eq!(writes.len(), 1);
    assert_eq!(writes[0].access, StorageAccess::Persistent);
}

#[test]
fn detect_instance_storage_write() {
    let content = r#"
pub fn set_data(env: Env) {
    env.storage().instance().set(&DataKey::Admin, &"value");
}
"#;
    let writes = extract_storage_writes(&source(content)).unwrap();
    assert_eq!(writes.len(), 1);
    assert_eq!(writes[0].access, StorageAccess::Instance);
}

#[test]
fn detect_temporary_storage_write() {
    let content = r#"
pub fn set_data(env: Env) {
    env.storage().temporary().set(&key, &val);
}
"#;
    let writes = extract_storage_writes(&source(content)).unwrap();
    assert_eq!(writes.len(), 1);
    assert_eq!(writes[0].access, StorageAccess::Temporary);
}

#[test]
fn storage_write_key_text_and_places() {
    let content = r#"
fn private(env: Env) {
    env.storage().persistent().set(&DataKey::Balance(to), &balance);
}
impl C {
    fn m(env: Env, x: u32) {
        match x {
            0 => env.storage().instance().set(&A, &1),
            _ => { let _v = env.storage().temporary().set(&B, &2); }
        }
        env.storage().persistent().get(&C);
        env.storage().other().set(&D, &3);
        env.storage().persistent().set();
    }
}
"#;
    let writes = extract_storage_writes(&source(content)).unwrap();
    let got: Vec<(&str, StorageAccess)> = writes.iter().map(|w| (w.key_expr.as_str(), w.access)).collect();
    assert_eq!(
        got,
        vec![
            ("& DataKey :: Balance (to)", StorageAccess::Persistent),
            ("& A", StorageAccess::Instance),
            ("& B", StorageAccess::Temporary),
        ]
    );
}

#[test]
fn extract_schema_from_crate() {
    let content = r#"
#[contracttype]
pub struct Balance {
    pub amount: i128,
}
"#;
    let keys = extract_storage_schema(&source(content)).unwrap();
    assert_eq!(keys.len(), 1);
    assert_eq!(keys[0].name, "Balance");
}

#[test]
fn schema_spans_files_in_order() {
    let sources = vec![
        SourceText { path: "a.rs".to_string(), content: "#[contracttype] enum B { X }".to_string() },
        SourceText { path: "b.rs".to_string(), content: "#[contracttype] struct A { y: u8 }".to_string() },
    ];
    let keys = extract_storage_schema(&sources).unwrap();
    let names: Vec<&str> = keys.iter().map(|k| k.name.as_str()).collect();
    assert_eq!(names, vec!["B", "A"]);
}

#[test]
fn analyses_succeed_exactly_when_every_source_parses() {
    let good = vec![
        SourceText { path: "a.rs".to_string(), content: "pub fn f() {}".to_string() },
        SourceText { path: "b.rs".to_string(), content: "#[contracttype] struct K { x: u8 }".to_string() },
    ];
    assert!(parse_crate(&good).is_ok());
    assert!(extract_auth(&good).is_ok());
    assert!(extract_storage_schema(&good).is_ok());
    assert!(extract_storage_writes(&good).is_ok());
    let bad = vec![
        SourceText { path: "a.rs".to_string(), content: "fn (".to_string() },
        SourceText { path: "b.rs".to_string(), content: "fn )".to_string() },
    ];
    match extract_storage_writes(&bad) {
        Err(StorageExtractError::Parse { path, .. }) => assert_eq!(path, "a.rs"),
        other => panic!("unexpected {:?}", other),
    }
}
