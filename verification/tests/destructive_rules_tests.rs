use pg_migration_lint::catalog::{Catalog, ConstraintState, TableState};
use pg_migration_lint::parser::ir::{
    DeleteFrom, DropSchema, DropTable, InsertInto, IrNode, Located, QualifiedName, SourceSpan, TruncateTable, UpdateTable,
};
use pg_migration_lint::rules::context::LintContext;
use pg_migration_lint::rules::finding::Finding;
use pg_migration_lint::rules::ids::{RuleId, Severity};

fn located(node: IrNode) -> Located<IrNode> {
    Located { node, span: SourceSpan::at(1, 1) }
}

fn check(rule: RuleId, before: &Catalog, after: &Catalog, file: &str, node: IrNode) -> Vec<Finding> {
    let created = Vec::new();
    let c = LintContext {
        catalog_before: before,
        catalog_after: after,
        tables_created_in_change: &created,
        run_in_transaction: true,
        is_down: false,
        file,
    };
    rule.check(&[located(node)], &c)
}

fn assert_one(findings: &[Finding], rule: RuleId, severity: Severity, message: &str, file: &str) {
    assert_eq!(findings.len(), 1, "{:?}", findings);
    assert_eq!(findings[0].rule_id, rule);
    assert_eq!(findings[0].severity, severity);
    assert_eq!(findings[0].message, message);
    assert_eq!(findings[0].file, file);
    assert_eq!((findings[0].start_line, findings[0].end_line), (1, 1));
}

fn strings(v: &[&str]) -> Vec<String> {
    v.iter().map(|s| s.to_string()).collect()
}

fn with_id(name: &str, t: &str) -> TableState {
    TableState::new(name).column("id", t, false).pk(strings(&["id"]))
}

fn referencing_customers(name: &str, fk: &str) -> TableState {
    with_id(name, "integer").column("customer_id", "integer", true).constraint(ConstraintState::ForeignKey {
        name: Some(fk.to_string()),
        columns: strings(&["customer_id"]),
        ref_table: "customers".to_string(),
        ref_table_display: "customers".to_string(),
        ref_columns: strings(&["id"]),
    })
}

fn customers_with_dependents() -> Catalog {
    Catalog::new()
        .with_table(with_id("customers", "integer"))
        .with_table(referencing_customers("orders", "fk_orders_customer"))
        .with_table(referencing_customers("addresses", "fk_addresses_customer"))
}

fn drop_table(name: &str, cascade: bool) -> IrNode {
    IrNode::DropTable(DropTable { name: QualifiedName::unqualified(name), if_exists: false, cascade })
}

fn truncate(name: &str, cascade: bool) -> IrNode {
    IrNode::TruncateTable(TruncateTable { name: QualifiedName::unqualified(name), cascade })
}

// PGM201

#[test]
fn test_drop_existing_table_fires() {
    let before = Catalog::new().with_table(with_id("orders", "integer"));
    let findings = check(RuleId::Pgm201, &before, &Catalog::new(), "migrations/003.sql", drop_table("orders", false));
    assert_one(
        &findings,
        RuleId::Pgm201,
        Severity::Minor,
        "DROP TABLE 'orders' removes an existing table. This is irreversible and all data will be lost.",
        "migrations/003.sql",
    );
}

// PGM202

#[test]
fn test_drop_cascade_existing_fires() {
    let before = Catalog::new().with_table(with_id("customers", "integer"));
    let findings = check(RuleId::Pgm202, &before, &Catalog::new(), "migrations/010.sql", drop_table("customers", true));
    assert_one(
        &findings,
        RuleId::Pgm202,
        Severity::Major,
        "DROP TABLE CASCADE on 'customers' will silently drop dependent objects. Views, triggers, and rules referencing this table are not tracked by the catalog and may also be affected.",
        "migrations/010.sql",
    );
}

#[test]
fn test_drop_cascade_with_fk_deps_lists_them() {
    let before = customers_with_dependents();
    let findings = check(RuleId::Pgm202, &before, &Catalog::new(), "migrations/010.sql", drop_table("customers", true));
    assert_one(
        &findings,
        RuleId::Pgm202,
        Severity::Major,
        "DROP TABLE CASCADE on 'customers' will silently drop dependent objects. Known FK dependencies from: addresses, orders.",
        "migrations/010.sql",
    );
}

// PGM203

const TRUNCATE_AUDIT: &str =
    "TRUNCATE TABLE 'audit_trail' removes all rows from an existing table. This is irreversible and does not fire ON DELETE triggers.";

fn audit_trail() -> Catalog {
    Catalog::new().with_table(TableState::new("audit_trail").column("id", "bigint", false).column("action", "text", false).pk(strings(&["id"])))
}

#[test]
fn test_truncate_existing_table_fires() {
    let before = audit_trail();
    let findings = check(RuleId::Pgm203, &before, &before.clone(), "migrations/005.sql", truncate("audit_trail", false));
    assert_one(&findings, RuleId::Pgm203, Severity::Minor, TRUNCATE_AUDIT, "migrations/005.sql");
}

#[test]
fn test_truncate_cascade_existing_also_fires() {
    let before = audit_trail();
    let findings = check(RuleId::Pgm203, &before, &before.clone(), "migrations/006.sql", truncate("audit_trail", true));
    assert_one(&findings, RuleId::Pgm203, Severity::Minor, TRUNCATE_AUDIT, "migrations/006.sql");
}

// PGM204

#[test]
fn test_truncate_cascade_existing_fires() {
    let before = Catalog::new().with_table(with_id("customers", "integer"));
    let findings = check(RuleId::Pgm204, &before, &before.clone(), "migrations/010.sql", truncate("customers", true));
    assert_one(
        &findings,
        RuleId::Pgm204,
        Severity::Major,
        "TRUNCATE TABLE 'customers' CASCADE silently extends to all tables with foreign key references to 'customers', and recursively to their dependents. Verify the full cascade chain is intentionally truncated.",
        "migrations/010.sql",
    );
}

#[test]
fn test_truncate_cascade_with_fk_deps_lists_them() {
    let before = customers_with_dependents();
    let findings = check(RuleId::Pgm204, &before, &before.clone(), "migrations/010.sql", truncate("customers", true));
    assert_one(
        &findings,
        RuleId::Pgm204,
        Severity::Major,
        "TRUNCATE TABLE 'customers' CASCADE silently extends to all tables with foreign key references to 'customers', and recursively to their dependents. Known FK dependencies from: addresses, orders.",
        "migrations/010.sql",
    );
}

// PGM205

fn drop_schema_cascade(name: &str) -> IrNode {
    IrNode::DropSchema(DropSchema { schema_name: name.to_string(), if_exists: false, cascade: true })
}

#[test]
fn test_drop_schema_cascade_fires() {
    let findings = check(RuleId::Pgm205, &Catalog::new(), &Catalog::new(), "migrations/016.sql", drop_schema_cascade("myschema"));
    assert_one(
        &findings,
        RuleId::Pgm205,
        Severity::Critical,
        "DROP SCHEMA 'myschema' CASCADE drops every object in the schema \u{2014} tables, views, sequences, functions, and types. This is irreversible.",
        "migrations/016.sql",
    );
}

#[test]
fn test_drop_schema_cascade_with_known_tables_lists_them() {
    let before = Catalog::new().with_table(with_id("myschema.orders", "bigint")).with_table(with_id("myschema.customers", "bigint"));
    let findings = check(RuleId::Pgm205, &before, &Catalog::new(), "migrations/016.sql", drop_schema_cascade("myschema"));
    assert_one(
        &findings,
        RuleId::Pgm205,
        Severity::Critical,
        "DROP SCHEMA 'myschema' CASCADE drops every object in the schema \u{2014} tables, views, sequences, functions, and types. This is irreversible. Known affected tables: myschema.customers, myschema.orders.",
        "migrations/016.sql",
    );
}

// PGM301-303

#[test]
fn test_insert_existing_table_fires() {
    let before = Catalog::new().with_table(TableState::new("config").column("key", "text", false).column("value", "text", true).pk(strings(&["key"])));
    let node = IrNode::InsertInto(InsertInto { table_name: QualifiedName::unqualified("config") });
    let findings = check(RuleId::Pgm301, &before, &before.clone(), "migrations/005.sql", node);
    assert_one(
        &findings,
        RuleId::Pgm301,
        Severity::Info,
        "INSERT INTO existing table 'config' in a migration. Ensure this is intentional seed data and that row volume is bounded.",
        "migrations/005.sql",
    );
}

#[test]
fn test_update_existing_table_fires() {
    let before = Catalog::new().with_table(with_id("orders", "bigint").column("status", "text", true));
    let node = IrNode::UpdateTable(UpdateTable { table_name: QualifiedName::unqualified("orders") });
    let findings = check(RuleId::Pgm302, &before, &before.clone(), "migrations/005.sql", node);
    assert_one(
        &findings,
        RuleId::Pgm302,
        Severity::Minor,
        "UPDATE on existing table 'orders' in a migration. Unbatched updates hold row locks for the full statement duration. Verify row volume and consider batched execution.",
        "migrations/005.sql",
    );
}

#[test]
fn test_delete_existing_table_fires() {
    let before = Catalog::new().with_table(with_id("audit_log", "bigint").column("created_at", "timestamptz", false));
    let node = IrNode::DeleteFrom(DeleteFrom { table_name: QualifiedName::unqualified("audit_log") });
    let findings = check(RuleId::Pgm303, &before, &before.clone(), "migrations/005.sql", node);
    assert_one(
        &findings,
        RuleId::Pgm303,
        Severity::Minor,
        "DELETE FROM existing table 'audit_log' in a migration. Unbatched deletes hold row locks and generate significant WAL. Verify row volume and consider batched execution.",
        "migrations/005.sql",
    );
}

// Cases where the rules stay silent, and more cases where they fire.

fn check_all(rule: RuleId, before: &Catalog, after: &Catalog, created: &[&str], file: &str, nodes: Vec<IrNode>) -> Vec<Finding> {
    let created = strings(created);
    let c = LintContext {
        catalog_before: before,
        catalog_after: after,
        tables_created_in_change: &created,
        run_in_transaction: true,
        is_down: false,
        file,
    };
    let stmts: Vec<Located<IrNode>> = nodes.into_iter().map(located).collect();
    rule.check(&stmts, &c)
}

fn drop_table_if_exists(name: &str, cascade: bool) -> IrNode {
    IrNode::DropTable(DropTable { name: QualifiedName::unqualified(name), if_exists: true, cascade })
}

#[test]
fn test_drop_table_created_in_same_change_no_finding() {
    let findings = check_all(RuleId::Pgm201, &Catalog::new(), &Catalog::new(), &["orders"], "migrations/001.sql", vec![drop_table("orders", false)]);
    assert!(findings.is_empty());
}

#[test]
fn test_drop_nonexistent_table_no_finding() {
    let findings = check(RuleId::Pgm201, &Catalog::new(), &Catalog::new(), "migrations/002.sql", drop_table("orders", false));
    assert!(findings.is_empty());
}

#[test]
fn test_drop_cascade_new_table_no_finding() {
    let findings = check_all(RuleId::Pgm202, &Catalog::new(), &Catalog::new(), &["customers"], "migrations/001.sql", vec![drop_table("customers", true)]);
    assert!(findings.is_empty());
}

#[test]
fn test_drop_no_cascade_no_finding() {
    let before = Catalog::new().with_table(with_id("customers", "integer"));
    let findings = check(RuleId::Pgm202, &before, &Catalog::new(), "migrations/010.sql", drop_table("customers", false));
    assert!(findings.is_empty());
}

#[test]
fn test_drop_cascade_nonexistent_no_finding() {
    let findings = check(RuleId::Pgm202, &Catalog::new(), &Catalog::new(), "migrations/010.sql", drop_table_if_exists("customers", true));
    assert!(findings.is_empty());
}

#[test]
fn test_truncate_table_created_in_same_change_no_finding() {
    let findings = check_all(RuleId::Pgm203, &Catalog::new(), &Catalog::new(), &["audit_trail"], "migrations/001.sql", vec![truncate("audit_trail", false)]);
    assert!(findings.is_empty());
}

#[test]
fn test_truncate_nonexistent_table_no_finding() {
    let findings = check(RuleId::Pgm203, &Catalog::new(), &Catalog::new(), "migrations/002.sql", truncate("audit_trail", false));
    assert!(findings.is_empty());
}

#[test]
fn test_truncate_without_cascade_no_finding() {
    let before = Catalog::new().with_table(with_id("customers", "integer"));
    let findings = check(RuleId::Pgm204, &before, &before.clone(), "migrations/010.sql", truncate("customers", false));
    assert!(findings.is_empty());
}

#[test]
fn test_truncate_cascade_new_table_no_finding() {
    let findings = check_all(RuleId::Pgm204, &Catalog::new(), &Catalog::new(), &["customers"], "migrations/001.sql", vec![truncate("customers", true)]);
    assert!(findings.is_empty());
}

#[test]
fn test_truncate_cascade_nonexistent_no_finding() {
    let findings = check(RuleId::Pgm204, &Catalog::new(), &Catalog::new(), "migrations/010.sql", truncate("customers", true));
    assert!(findings.is_empty());
}

#[test]
fn test_drop_schema_cascade_empty_catalog_still_fires() {
    let findings = check(RuleId::Pgm205, &Catalog::new(), &Catalog::new(), "migrations/016.sql", drop_schema_cascade("emptyschema"));
    assert_eq!(findings.len(), 1, "Should fire even with empty catalog");
    assert!(findings[0].message.contains("emptyschema"));
}

#[test]
fn test_drop_schema_cascade_prefix_no_false_match() {
    let before = Catalog::new().with_table(with_id("myschema.orders", "bigint")).with_table(with_id("myschema_extra.users", "bigint"));
    let findings = check(RuleId::Pgm205, &before, &Catalog::new(), "migrations/016.sql", drop_schema_cascade("myschema"));
    assert_eq!(findings.len(), 1);
    assert!(findings[0].message.contains("myschema.orders"), "Should list myschema.orders");
    assert!(!findings[0].message.contains("myschema_extra"), "Should NOT match myschema_extra prefix");
}

#[test]
fn test_drop_schema_cascade_multiple_findings() {
    let findings = check_all(
        RuleId::Pgm205,
        &Catalog::new(),
        &Catalog::new(),
        &[],
        "migrations/016.sql",
        vec![drop_schema_cascade("schema_a"), drop_schema_cascade("schema_b")],
    );
    assert_eq!(findings.len(), 2);
    assert!(findings[0].message.contains("schema_a"));
    assert!(findings[1].message.contains("schema_b"));
}

#[test]
fn test_drop_schema_no_cascade_no_finding() {
    let before = Catalog::new().with_table(with_id("myschema.orders", "bigint"));
    let node = IrNode::DropSchema(DropSchema { schema_name: "myschema".to_string(), if_exists: false, cascade: false });
    let findings = check(RuleId::Pgm205, &before, &Catalog::new(), "migrations/016.sql", node);
    assert!(findings.is_empty(), "DROP SCHEMA without CASCADE should not fire");
}

fn insert(name: &str) -> IrNode {
    IrNode::InsertInto(InsertInto { table_name: QualifiedName::unqualified(name) })
}

fn update(name: &str) -> IrNode {
    IrNode::UpdateTable(UpdateTable { table_name: QualifiedName::unqualified(name) })
}

fn delete(name: &str) -> IrNode {
    IrNode::DeleteFrom(DeleteFrom { table_name: QualifiedName::unqualified(name) })
}

#[test]
fn test_insert_new_table_no_finding() {
    let after = Catalog::new().with_table(TableState::new("config").column("key", "text", false));
    let findings = check_all(RuleId::Pgm301, &Catalog::new(), &after, &["config"], "migrations/001.sql", vec![insert("config")]);
    assert!(findings.is_empty());
}

#[test]
fn test_insert_nonexistent_table_no_finding() {
    assert!(check(RuleId::Pgm301, &Catalog::new(), &Catalog::new(), "migrations/002.sql", insert("config")).is_empty());
}

#[test]
fn test_update_new_table_no_finding() {
    let after = Catalog::new().with_table(TableState::new("orders").column("id", "bigint", false));
    let findings = check_all(RuleId::Pgm302, &Catalog::new(), &after, &["orders"], "migrations/001.sql", vec![update("orders")]);
    assert!(findings.is_empty());
}

#[test]
fn test_two_updates_same_table_emit_two_findings_with_dedup_key() {
    let before = Catalog::new().with_table(with_id("orders", "bigint").column("status", "text", true));
    let findings = check_all(RuleId::Pgm302, &before, &before.clone(), &[], "migrations/005.sql", vec![update("orders"), update("orders")]);
    assert_eq!(findings.len(), 2);
    assert_eq!(findings[0].dedup_key.as_deref(), Some("orders"));
    assert_eq!(findings[1].dedup_key.as_deref(), Some("orders"));
}

#[test]
fn test_update_nonexistent_table_no_finding() {
    assert!(check(RuleId::Pgm302, &Catalog::new(), &Catalog::new(), "migrations/002.sql", update("orders")).is_empty());
}

#[test]
fn test_delete_new_table_no_finding() {
    let after = Catalog::new().with_table(TableState::new("audit_log").column("id", "bigint", false));
    let findings = check_all(RuleId::Pgm303, &Catalog::new(), &after, &["audit_log"], "migrations/001.sql", vec![delete("audit_log")]);
    assert!(findings.is_empty());
}

#[test]
fn test_delete_nonexistent_table_no_finding() {
    assert!(check(RuleId::Pgm303, &Catalog::new(), &Catalog::new(), "migrations/002.sql", delete("audit_log")).is_empty());
}

#[test]
fn dml_findings_carry_the_table_key_as_dedup_key() {
    let before = Catalog::new().with_table(with_id("myschema.orders", "bigint"));
    let q = || QualifiedName::qualified("myschema", "orders");
    let ins = check(RuleId::Pgm301, &before, &before.clone(), "m.sql", IrNode::InsertInto(InsertInto { table_name: q() }));
    let del = check(RuleId::Pgm303, &before, &before.clone(), "m.sql", IrNode::DeleteFrom(DeleteFrom { table_name: q() }));
    let drop = check(
        RuleId::Pgm201,
        &before,
        &Catalog::new(),
        "m.sql",
        IrNode::DropTable(DropTable { name: q(), if_exists: false, cascade: false }),
    );
    assert_eq!(ins[0].dedup_key.as_deref(), Some("myschema.orders"));
    assert_eq!(del[0].dedup_key.as_deref(), Some("myschema.orders"));
    assert_eq!(drop[0].dedup_key, None);
}
