use soroban_drift::report::{exit_code, write_markdown};
use soroban_drift::types::{DriftFinding, DriftReport, Severity};

fn make_report(findings: Vec<DriftFinding>) -> DriftReport {
    DriftReport {
        old_path: "old".to_string(),
        new_path: "new".to_string(),
        has_breaking_changes: findings.iter().any(|f| f.severity == Severity::Breaking),
        findings,
    }
}

fn finding(severity: Severity, category: &str, message: &str, old: Option<&str>, new: Option<&str>) -> DriftFinding {
    DriftFinding {
        severity,
        category: category.to_string(),
        message: message.to_string(),
        old_value: old.map(|s| s.to_string()),
        new_value: new.map(|s| s.to_string()),
    }
}

#[test]
fn markdown_output() {
    let report = make_report(vec![DriftFinding {
        severity: Severity::Warning,
        category: "auth".to_string(),
        message: "auth weakened".to_string(),
        old_value: Some("require_auth".to_string()),
        new_value: Some("require_auth_for_args".to_string()),
    }]);
    let mut buf = String::new();
    write_markdown(&report, &mut buf);
    let output = buf;
    assert!(output.contains("Warnings"));
    assert!(output.contains("auth weakened"));
}

#[test]
fn exit_code_breaking() {
    let r = make_report(vec![DriftFinding {
        severity: Severity::Breaking,
        category: "s".to_string(),
        message: "".to_string(),
        old_value: None,
        new_value: None,
    }]);
    assert_eq!(exit_code(&r, "breaking"), 1);
    assert_eq!(exit_code(&r, "warning"), 1);
    assert_eq!(exit_code(&r, "none"), 0);
}

#[test]
fn exit_code_warning() {
    let r = make_report(vec![DriftFinding {
        severity: Severity::Warning,
        category: "s".to_string(),
        message: "".to_string(),
        old_value: None,
        new_value: None,
    }]);
    assert_eq!(exit_code(&r, "breaking"), 0);
    assert_eq!(exit_code(&r, "warning"), 1);
    assert_eq!(exit_code(&r, "none"), 0);
}

#[test]
fn exit_code_no_findings() {
    let r = make_report(vec![]);
    assert_eq!(exit_code(&r, "breaking"), 0);
    assert_eq!(exit_code(&r, "warning"), 0);
    assert_eq!(exit_code(&r, "none"), 0);
}

#[test]
fn exit_code_unknown_level_is_zero() {
    let r = make_report(vec![finding(Severity::Breaking, "s", "", None, None)]);
    assert_eq!(exit_code(&r, "Breaking"), 0);
    assert_eq!(exit_code(&r, ""), 0);
}

#[test]
fn markdown_full_layout() {
    let report = make_report(vec![
        finding(Severity::Info, "signature", "sig", None, None),
        finding(Severity::Breaking, "storage", "gone", Some("A"), None),
        finding(Severity::Warning, "auth", "weak", Some("x"), Some("y")),
        finding(Severity::Breaking, "auth", "dropped", None, Some("(none)")),
    ]);
    let mut buf = String::from("prefix\n");
    write_markdown(&report, &mut buf);
    let expected = "prefix\n# Soroban Drift Report\n\n- **Old version**: `old`\n- **New version**: `new`\n- **Status**: BREAKING CHANGES DETECTED\n\n## Breaking Changes\n\n- **storage**\n  - gone\n  - Old: `A`\n\n- **auth**\n  - dropped\n  - New: `(none)`\n\n## Warnings\n\n- **auth**\n  - weak\n  - Old: `x`\n  - New: `y`\n\n## Info\n\n- **signature**\n  - sig\n\n";
    assert_eq!(buf, expected);
}

#[test]
fn markdown_no_findings() {
    let report = make_report(vec![]);
    let mut buf = String::new();
    write_markdown(&report, &mut buf);
    assert_eq!(
        buf,
        "# Soroban Drift Report\n\n- **Old version**: `old`\n- **New version**: `new`\n- **Status**: No breaking changes\n\nNo drift findings.\n"
    );
}

#[test]
fn report_new_marks_breaking() {
    let r = DriftReport::new("a".to_string(), "b".to_string(), vec![finding(Severity::Warning, "s", "m", None, None)]);
    assert!(!r.has_breaking_changes);
    let r = DriftReport::new(
        "a".to_string(),
        "b".to_string(),
        vec![finding(Severity::Info, "s", "m", None, None), finding(Severity::Breaking, "s", "m", None, None)],
    );
    assert!(r.has_breaking_changes);
    assert_eq!(r.old_path, "a");
    assert_eq!(r.findings.len(), 2);
}
