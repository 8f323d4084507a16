use pg_migration_lint::catalog::{Catalog, TableState};
use pg_migration_lint::parser::ir::{AlterTable, AlterTableAction, IrNode, Located, QualifiedName, SourceSpan, TypeName};
use pg_migration_lint::rules::context::LintContext;
use pg_migration_lint::rules::finding::Finding;
use pg_migration_lint::rules::ids::{RuleId, Severity};

fn located(node: IrNode) -> Located<IrNode> {
    Located { node, span: SourceSpan::at(1, 1) }
}

fn ctx<'a>(before: &'a Catalog, after: &'a Catalog, file: &'a str, created: &'a Vec<String>) -> LintContext<'a> {
    LintContext {
        catalog_before: before,
        catalog_after: after,
        tables_created_in_change: created,
        run_in_transaction: true,
        is_down: false,
        file,
    }
}

fn alter_type(table: &str, col: &str, new_type: TypeName, old_type: Option<TypeName>) -> Located<IrNode> {
    located(IrNode::AlterTable(AlterTable {
        name: QualifiedName::unqualified(table),
        actions: vec![AlterTableAction::AlterColumnType { column_name: col.to_string(), new_type, old_type }],
    }))
}

fn users_with_varchar_50() -> Catalog {
    let mut users = TableState::new("users").column("name", "varchar", false).pk(vec!["name".to_string()]);
    users.columns[0].data_type = TypeName::with_modifiers("varchar", vec![50]);
    Catalog::new().with_table(users)
}

#[test]
fn pgm007_test_varchar_widening_no_finding() {
    let before = users_with_varchar_50();
    let after = before.clone();
    let created = Vec::new();
    let c = ctx(&before, &after, "migrations/002.sql", &created);
    let findings = RuleId::Pgm007.check(&[alter_type("users", "name", TypeName::with_modifiers("varchar", vec![100]), None)], &c);
    assert!(findings.is_empty());
}

#[test]
fn pgm009_test_varchar_widening_no_finding() {
    let before = users_with_varchar_50();
    let after = before.clone();
    let created = Vec::new();
    let c = ctx(&before, &after, "migrations/002.sql", &created);
    let findings = RuleId::Pgm009.check(&[alter_type("users", "name", TypeName::with_modifiers("varchar", vec![100]), None)], &c);
    assert!(findings.is_empty());
}

#[test]
fn test_varchar_widening_with_old_type_directive_in_ir() {
    let before = Catalog::new().with_table(TableState::new("users").column("name", "varchar", false).pk(vec!["name".to_string()]));
    let after = before.clone();
    let created = Vec::new();
    let c = ctx(&before, &after, "migrations/002.sql", &created);
    let findings = RuleId::Pgm007.check(
        &[alter_type("users", "name", TypeName::with_modifiers("varchar", vec![100]), Some(TypeName::with_modifiers("varchar", vec![50])))],
        &c,
    );
    assert!(findings.is_empty(), "Widening varchar should be safe even when old_type is provided");
}

#[test]
fn test_alter_column_type_column_not_in_catalog() {
    let before = Catalog::new().with_table(TableState::new("users").column("id", "integer", false).pk(vec!["id".to_string()]));
    let after = before.clone();
    let created = Vec::new();
    let c = ctx(&before, &after, "migrations/002.sql", &created);
    let findings = RuleId::Pgm007.check(&[alter_type("users", "nonexistent", TypeName::simple("text"), None)], &c);
    assert_eq!(findings.len(), 1);
    assert_eq!(findings[0].severity, Severity::Critical);
}

fn rewrite_message(t: &str, c: &str, old: &str, new: &str) -> String {
    format!(
        "Changing column type on existing table '{t}' ('{c}': {old} \u{2192} {new}) rewrites the entire table under an ACCESS EXCLUSIVE lock. For large tables, this causes extended downtime. Consider creating a new column, backfilling, and swapping instead."
    )
}

fn int_to_bigint() -> Vec<Finding> {
    int_to_bigint_by(RuleId::Pgm007)
}

fn int_to_bigint_by(rule: RuleId) -> Vec<Finding> {
    let before = Catalog::new().with_table(TableState::new("orders").column("amount", "integer", false).pk(vec!["amount".to_string()]));
    let after = before.clone();
    let created = Vec::new();
    let c = ctx(&before, &after, "migrations/002.sql", &created);
    rule.check(&[alter_type("orders", "amount", TypeName::simple("bigint"), None)], &c)
}

fn timestamp_to_timestamptz() -> Vec<Finding> {
    timestamp_to_timestamptz_by(RuleId::Pgm007)
}

fn timestamp_to_timestamptz_by(rule: RuleId) -> Vec<Finding> {
    let before = Catalog::new().with_table(TableState::new("events").column("created_at", "timestamp", true));
    let after = before.clone();
    let created = Vec::new();
    let c = ctx(&before, &after, "migrations/002.sql", &created);
    rule.check(&[alter_type("events", "created_at", TypeName::simple("timestamptz"), None)], &c)
}

fn assert_rewrite(findings: &[Finding], severity: Severity, message: String) {
    assert_rewrite_by(RuleId::Pgm007, findings, severity, message)
}

fn assert_rewrite_by(rule: RuleId, findings: &[Finding], severity: Severity, message: String) {
    assert_eq!(findings.len(), 1);
    assert_eq!(findings[0].rule_id, rule);
    assert_eq!(findings[0].severity, severity);
    assert_eq!(findings[0].message, message);
    assert_eq!(findings[0].file, "migrations/002.sql");
    assert_eq!((findings[0].start_line, findings[0].end_line), (1, 1));
}

#[test]
fn pgm007_test_int_to_bigint_fires_critical() {
    assert_rewrite(&int_to_bigint(), Severity::Critical, rewrite_message("orders", "amount", "integer", "bigint"));
}

#[test]
fn pgm009_test_int_to_bigint_fires_critical() {
    assert_rewrite(&int_to_bigint(), Severity::Critical, rewrite_message("orders", "amount", "integer", "bigint"));
}

#[test]
fn pgm007_test_timestamp_to_timestamptz_fires_info() {
    assert_rewrite(&timestamp_to_timestamptz(), Severity::Info, rewrite_message("events", "created_at", "timestamp", "timestamptz"));
}

#[test]
fn pgm009_test_timestamp_to_timestamptz_fires_info() {
    assert_rewrite_by(RuleId::Pgm009, &timestamp_to_timestamptz_by(RuleId::Pgm009), Severity::Info, rewrite_message("events", "created_at", "timestamp", "timestamptz"));
}

#[test]
fn pgm007_test_new_table_no_finding() {
    let before = Catalog::new();
    let after = Catalog::new().with_table(TableState::new("orders").column("amount", "bigint", false));
    let created = vec!["orders".to_string()];
    let c = ctx(&before, &after, "migrations/001.sql", &created);
    let findings = RuleId::Pgm007.check(&[alter_type("orders", "amount", TypeName::simple("bigint"), None)], &c);
    assert!(findings.is_empty());
}

#[test]
fn pgm009_test_new_table_no_finding() {
    let before = Catalog::new();
    let after = Catalog::new().with_table(TableState::new("orders").column("amount", "bigint", false));
    let created = vec!["orders".to_string()];
    let c = ctx(&before, &after, "migrations/001.sql", &created);
    let findings = RuleId::Pgm009.check(&[alter_type("orders", "amount", TypeName::simple("bigint"), None)], &c);
    assert!(findings.is_empty());
}

fn bits_8() -> Catalog {
    let mut t = TableState::new("flags").column("mask", "bit", false);
    t.columns[0].data_type = TypeName::with_modifiers("bit", vec![8]);
    Catalog::new().with_table(t)
}

#[test]
fn bit_widening_is_a_rewrite_for_pgm007_only() {
    let before = bits_8();
    let after = before.clone();
    let created = Vec::new();
    let c = ctx(&before, &after, "migrations/002.sql", &created);
    let stmt = alter_type("flags", "mask", TypeName::with_modifiers("bit", vec![16]), None);
    assert!(RuleId::Pgm009.check(&[stmt.clone()], &c).is_empty());
    let findings = RuleId::Pgm007.check(&[stmt], &c);
    assert_eq!(findings.len(), 1);
    assert_eq!(findings[0].severity, Severity::Critical);
}

#[test]
fn pgm009_reports_a_rewrite_at_its_default_severity() {
    let findings = int_to_bigint_by(RuleId::Pgm009);
    assert_rewrite_by(RuleId::Pgm009, &findings, Severity::Info, rewrite_message("orders", "amount", "integer", "bigint"));
}
