use pg_migration_lint::parser::ir::SourceSpan;
use pg_migration_lint::rules::finding::{cap_for_down_migration, dedup_findings, Finding};
use pg_migration_lint::rules::ids::{RuleId, Severity};

fn make_finding(rule_id: RuleId, dedup_key: Option<&str>, line: usize) -> Finding {
    let mut f = Finding::new(
        rule_id,
        rule_id.default_severity(),
        "test".to_string(),
        "test.sql",
        &SourceSpan::at(line, line),
    );
    if let Some(key) = dedup_key {
        f = f.with_dedup_key(key.to_string());
    }
    f
}

#[test]
fn dedup_same_rule_same_table_keeps_first() {
    let mut findings = vec![
        make_finding(RuleId::Pgm302, Some("public.orders"), 2),
        make_finding(RuleId::Pgm302, Some("public.orders"), 5),
    ];
    dedup_findings(&mut findings);
    assert_eq!(findings.len(), 1);
    assert_eq!(findings[0].start_line, 2);
}

#[test]
fn dedup_same_rule_different_tables_keeps_both() {
    let mut findings = vec![
        make_finding(RuleId::Pgm302, Some("public.orders"), 2),
        make_finding(RuleId::Pgm302, Some("public.products"), 5),
    ];
    dedup_findings(&mut findings);
    assert_eq!(findings.len(), 2);
}

#[test]
fn dedup_different_rules_same_table_keeps_both() {
    let mut findings = vec![
        make_finding(RuleId::Pgm301, Some("public.orders"), 2),
        make_finding(RuleId::Pgm302, Some("public.orders"), 5),
    ];
    dedup_findings(&mut findings);
    assert_eq!(findings.len(), 2);
}

#[test]
fn dedup_no_key_always_kept() {
    let mut findings = vec![
        make_finding(RuleId::Pgm001, None, 1),
        make_finding(RuleId::Pgm001, None, 3),
    ];
    dedup_findings(&mut findings);
    assert_eq!(findings.len(), 2);
}

#[test]
fn dedup_after_suppression_promotes_second() {
    let mut findings = vec![make_finding(RuleId::Pgm302, Some("public.orders"), 5)];
    dedup_findings(&mut findings);
    assert_eq!(findings.len(), 1);
    assert_eq!(findings[0].start_line, 5);
}

#[test]
fn dedup_twice_keeps_what_once_keeps() {
    let mut findings = vec![
        make_finding(RuleId::Pgm302, Some("a"), 1),
        make_finding(RuleId::Pgm302, Some("b"), 2),
        make_finding(RuleId::Pgm302, Some("a"), 3),
        make_finding(RuleId::Pgm302, None, 4),
    ];
    dedup_findings(&mut findings);
    let once: Vec<usize> = findings.iter().map(|f| f.start_line).collect();
    dedup_findings(&mut findings);
    let twice: Vec<usize> = findings.iter().map(|f| f.start_line).collect();
    assert_eq!(once, vec![1, 2, 4]);
    assert_eq!(once, twice);
}

#[test]
fn test_cap_for_down_migration() {
    let mut findings = vec![
        Finding::new(RuleId::Pgm001, Severity::Critical, "test".to_string(), "test.sql", &SourceSpan::at(1, 1)),
        Finding::new(RuleId::Pgm502, Severity::Major, "test".to_string(), "test.sql", &SourceSpan::at(2, 2)),
    ];
    cap_for_down_migration(&mut findings);
    assert_eq!(findings[0].severity, Severity::Info);
    assert_eq!(findings[1].severity, Severity::Info);
}

#[test]
fn cap_keeps_everything_but_severity_and_is_idempotent() {
    let mut findings = vec![
        Finding::new(RuleId::Pgm001, Severity::Critical, "m1".to_string(), "a.sql", &SourceSpan::at(3, 4)),
    ];
    cap_for_down_migration(&mut findings);
    cap_for_down_migration(&mut findings);
    assert_eq!(findings.len(), 1);
    assert_eq!(findings[0].severity, Severity::Info);
    assert_eq!(findings[0].message, "m1");
    assert_eq!(findings[0].file, "a.sql");
    assert_eq!((findings[0].start_line, findings[0].end_line), (3, 4));
    assert_eq!(findings[0].rule_id, RuleId::Pgm001);
}
