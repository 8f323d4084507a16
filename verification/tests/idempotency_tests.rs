use pg_migration_lint::catalog::Catalog;
use pg_migration_lint::parser::ir::{DropIndex, DropTable, IrNode, Located, QualifiedName, SourceSpan};
use pg_migration_lint::rules::context::LintContext;
use pg_migration_lint::rules::ids::{RuleId, Severity};

fn located(node: IrNode) -> Located<IrNode> {
    Located { node, span: SourceSpan::at(1, 1) }
}

fn ctx<'a>(before: &'a Catalog, after: &'a Catalog, file: &'a str, created: &'a Vec<String>) -> LintContext<'a> {
    LintContext {
        catalog_before: before,
        catalog_after: after,
        tables_created_in_change: created,
        run_in_transaction: true,
        is_down: false,
        file,
    }
}

fn drop_table(name: &str, if_exists: bool) -> IrNode {
    IrNode::DropTable(DropTable { name: QualifiedName::unqualified(name), if_exists, cascade: false })
}

fn drop_index(name: &str, if_exists: bool) -> IrNode {
    IrNode::DropIndex(DropIndex { index_name: name.to_string(), concurrent: false, if_exists })
}

#[test]
fn pgm008_test_drop_table_with_if_exists_no_finding() {
    let before = Catalog::new();
    let after = Catalog::new();
    let created = Vec::new();
    let c = ctx(&before, &after, "migrations/003.sql", &created);
    let findings = RuleId::Pgm401.check(&[located(drop_table("orders", true))], &c);
    assert!(findings.is_empty());
}

#[test]
fn pgm008_test_drop_index_with_if_exists_no_finding() {
    let before = Catalog::new();
    let after = Catalog::new();
    let created = Vec::new();
    let c = ctx(&before, &after, "migrations/003.sql", &created);
    let findings = RuleId::Pgm401.check(&[located(drop_index("idx_orders_status", true))], &c);
    assert!(findings.is_empty());
}

#[test]
fn pgm401_test_drop_table_without_if_exists_fires() {
    let before = Catalog::new();
    let after = Catalog::new();
    let created = Vec::new();
    let c = ctx(&before, &after, "migrations/003.sql", &created);
    let findings = RuleId::Pgm401.check(&[located(drop_table("orders", false))], &c);
    assert_eq!(findings.len(), 1);
    assert_eq!(findings[0].rule_id, RuleId::Pgm401);
    assert_eq!(findings[0].severity, Severity::Minor);
    assert_eq!(findings[0].message, "DROP TABLE 'orders': add IF EXISTS for idempotent migrations.");
    assert_eq!(findings[0].file, "migrations/003.sql");
    assert_eq!(findings[0].start_line, 1);
}

#[test]
fn pgm401_test_drop_index_without_if_exists_fires() {
    let before = Catalog::new();
    let after = Catalog::new();
    let created = Vec::new();
    let c = ctx(&before, &after, "migrations/003.sql", &created);
    let findings = RuleId::Pgm401.check(&[located(drop_index("idx_orders_status", false))], &c);
    assert_eq!(findings.len(), 1);
    assert_eq!(findings[0].message, "DROP INDEX 'idx_orders_status': add IF EXISTS for idempotent migrations.");
}

#[test]
fn drop_schema_qualified_table_uses_display_name() {
    let before = Catalog::new();
    let after = Catalog::new();
    let created = Vec::new();
    let c = ctx(&before, &after, "m.sql", &created);
    let node = IrNode::DropTable(DropTable {
        name: QualifiedName::qualified("billing", "orders"),
        if_exists: false,
        cascade: false,
    });
    let findings = RuleId::Pgm401.check(&[located(node)], &c);
    assert_eq!(findings.len(), 1);
    assert_eq!(findings[0].message, "DROP TABLE 'billing.orders': add IF EXISTS for idempotent migrations.");
}

#[test]
fn pgm008_test_drop_table_without_if_exists_fires() {
    let before = Catalog::new();
    let after = Catalog::new();
    let created = Vec::new();
    let c = ctx(&before, &after, "migrations/003.sql", &created);
    let findings = RuleId::Pgm401.check(&[located(drop_table("orders", false))], &c);
    assert_eq!(findings.len(), 1);
    assert_eq!(findings[0].rule_id, RuleId::Pgm401);
    assert_eq!(findings[0].severity, Severity::Minor);
    assert_eq!(findings[0].message, "DROP TABLE 'orders': add IF EXISTS for idempotent migrations.");
    assert_eq!(findings[0].file, "migrations/003.sql");
}

#[test]
fn pgm008_test_drop_index_without_if_exists_fires() {
    let before = Catalog::new();
    let after = Catalog::new();
    let created = Vec::new();
    let c = ctx(&before, &after, "migrations/003.sql", &created);
    let findings = RuleId::Pgm401.check(&[located(drop_index("idx_orders_status", false))], &c);
    assert_eq!(findings.len(), 1);
    assert_eq!(findings[0].rule_id, RuleId::Pgm401);
    assert_eq!(findings[0].severity, Severity::Minor);
    assert_eq!(findings[0].message, "DROP INDEX 'idx_orders_status': add IF EXISTS for idempotent migrations.");
    assert_eq!(findings[0].file, "migrations/003.sql");
}

#[test]
fn pgm401_test_drop_table_with_if_exists_no_finding() {
    let before = Catalog::new();
    let after = Catalog::new();
    let created = Vec::new();
    let c = ctx(&before, &after, "migrations/003.sql", &created);
    assert!(RuleId::Pgm401.check(&[located(drop_table("orders", true))], &c).is_empty());
}

#[test]
fn pgm401_test_drop_index_with_if_exists_no_finding() {
    let before = Catalog::new();
    let after = Catalog::new();
    let created = Vec::new();
    let c = ctx(&before, &after, "migrations/003.sql", &created);
    assert!(RuleId::Pgm401.check(&[located(drop_index("idx_orders_status", true))], &c).is_empty());
}
