use soroban_drift::diff_engine::diff;
use soroban_drift::report::exit_code;
use soroban_drift::rust_parser::parse_crate;
use soroban_drift::syntax::SourceText;
use soroban_drift::types::{ContractSpec, DriftReport, Severity};

const BREAKING_OLD: &str = r#"#![no_std]
use soroban_sdk::{contract, contracttype, contractimpl, Address, Env, symbol_short};

#[contracttype]
pub struct Balance {
    pub amount: i128,
    pub owner: Address,
}

#[contracttype]
pub enum DataKey {
    Admin,
    Balance(Address),
}

#[contract]
pub struct TokenContract;

#[contractimpl]
impl TokenContract {
    pub fn init(env: Env, admin: Address) {
        env.storage().instance().set(&DataKey::Admin, &admin);
    }

    pub fn transfer(env: Env, from: Address, to: Address, amount: i128) {
        from.require_auth();
        let balance = Balance { amount, owner: to.clone() };
        env.storage().persistent().set(&DataKey::Balance(to), &balance);
    }

    pub fn admin_op(env: Env, admin: Address) {
        admin.require_auth();
        env.storage().instance().set(&DataKey::Admin, &admin);
    }

    pub fn balance(env: Env, addr: Address) -> i128 {
        env.storage()
            .persistent()
            .get::<_, Balance>(&DataKey::Balance(addr))
            .map(|b| b.amount)
            .unwrap_or(0)
    }
}
"#;

const BREAKING_NEW: &str = r#"#![no_std]
use soroban_sdk::{contract, contracttype, contractimpl, Address, Env, symbol_short};

// BREAKING CHANGE: field `amount` changed from `i128` to `u32`
#[contracttype]
pub struct Balance {
    pub amount: u32,
    pub owner: Address,
}

#[contracttype]
pub enum DataKey {
    Admin,
    Balance(Address),
}

#[contract]
pub struct TokenContract;

#[contractimpl]
impl TokenContract {
    pub fn init(env: Env, admin: Address) {
        env.storage().instance().set(&DataKey::Admin, &admin);
    }

    // BREAKING CHANGE: dropped require_auth() call
    pub fn transfer(env: Env, from: Address, to: Address, amount: i128) {
        let balance = Balance { amount: amount as u32, owner: to.clone() };
        env.storage().persistent().set(&DataKey::Balance(to), &balance);
    }

    pub fn admin_op(env: Env, admin: Address) {
        admin.require_auth_for_args((&admin,));
    }

    pub fn balance(env: Env, addr: Address) -> i128 {
        env.storage()
            .persistent()
            .get::<_, Balance>(&DataKey::Balance(addr))
            .map(|b| b.amount as i128)
            .unwrap_or(0)
    }
}
"#;

fn crate_sources(content: &str) -> Vec<SourceText> {
    vec![SourceText { path: "src/lib.rs".to_string(), content: content.to_string() }]
}

/// Test that the breaking-upgrade old version parses without errors.
#[test]
fn breaking_upgrade_old_parses() {
    let ast = parse_crate(&crate_sources(BREAKING_OLD)).unwrap();
    assert_eq!(ast.storage_keys.len(), 2, "breaking-upgrade old should have 2 storage keys");
    assert_eq!(ast.functions.len(), 4, "breaking-upgrade old should have 4 public functions");
}

/// Test that the breaking-upgrade new version parses without errors.
#[test]
fn breaking_upgrade_new_parses() {
    let ast = parse_crate(&crate_sources(BREAKING_NEW)).unwrap();
    assert_eq!(ast.storage_keys.len(), 2, "breaking-upgrade new should have 2 storage keys");
    assert_eq!(ast.functions.len(), 4, "breaking-upgrade new should have 4 public functions");
}

/// Full diff: breaking-upgrade should have breaking changes.
#[test]
fn breaking_upgrade_has_breaking_changes() {
    let old_ast = parse_crate(&crate_sources(BREAKING_OLD)).unwrap();
    let new_ast = parse_crate(&crate_sources(BREAKING_NEW)).unwrap();
    let findings = diff(
        &old_ast.storage_keys,
        &new_ast.storage_keys,
        &old_ast.functions,
        &new_ast.functions,
        &ContractSpec::default(),
        &ContractSpec::default(),
    );
    let breaking: Vec<_> = findings.iter().filter(|f| f.severity == Severity::Breaking).collect();
    assert_eq!(
        breaking.len(),
        2,
        "breaking-upgrade should have 2 breaking changes (storage field type + dropped auth)"
    );
}

/// The report that the README shows for the breaking-upgrade example.
#[test]
fn breaking_upgrade_readme_report() {
    let old_ast = parse_crate(&crate_sources(BREAKING_OLD)).unwrap();
    let new_ast = parse_crate(&crate_sources(BREAKING_NEW)).unwrap();
    let findings = diff(
        &old_ast.storage_keys,
        &new_ast.storage_keys,
        &old_ast.functions,
        &new_ast.functions,
        &ContractSpec::default(),
        &ContractSpec::default(),
    );
    let report = DriftReport::new(
        "examples/breaking-upgrade/old".to_string(),
        "examples/breaking-upgrade/new".to_string(),
        findings,
    );
    assert!(report.has_breaking_changes);
    let mut out = String::new();
    soroban_drift::report::write_markdown(&report, &mut out);
    let expected = "# Soroban Drift Report\n\n- **Old version**: `examples/breaking-upgrade/old`\n- **New version**: `examples/breaking-upgrade/new`\n- **Status**: BREAKING CHANGES DETECTED\n\n## Breaking Changes\n\n- **storage**\n  - Storage key 'Balance' has field type changes\n  - Old: `amount: i128, owner: Address`\n  - New: `amount: u32, owner: Address`\n\n- **auth**\n  - Function 'transfer' dropped require_auth()\n  - Old: `require_auth`\n  - New: `(none)`\n\n## Warnings\n\n- **auth**\n  - Function 'admin_op' changed from require_auth() to require_auth_for_args()\n  - Old: `require_auth`\n  - New: `require_auth_for_args`\n\n";
    assert_eq!(out, expected);
    assert_eq!(exit_code(&report, "breaking"), 1);
    assert_eq!(exit_code(&report, "none"), 0);
}
