use pg_migration_lint::catalog::{Catalog, TableState};
use pg_migration_lint::parser::ir::{
    AlterTable, AlterTableAction, ColumnDef, CreateTable, DefaultExpr, IrNode, Located, QualifiedName, SourceSpan,
    TablePersistence, TypeName,
};
use pg_migration_lint::rules::context::LintContext;
use pg_migration_lint::rules::ids::{RuleId, Severity};

fn located(node: IrNode) -> Located<IrNode> {
    Located { node, span: SourceSpan::at(1, 1) }
}

fn ctx<'a>(before: &'a Catalog, after: &'a Catalog, created: &'a Vec<String>) -> LintContext<'a> {
    LintContext {
        catalog_before: before,
        catalog_after: after,
        tables_created_in_change: created,
        run_in_transaction: true,
        is_down: false,
        file: "migrations/002.sql",
    }
}

fn column(name: &str, ty: &str, default: Option<DefaultExpr>) -> ColumnDef {
    ColumnDef {
        name: name.to_string(),
        data_type: TypeName::simple(ty),
        nullable: true,
        default_expr: default,
        is_inline_pk: false,
        is_serial: false,
    }
}

fn call(name: &str, args: &[&str]) -> DefaultExpr {
    DefaultExpr::FunctionCall { name: name.to_string(), args: args.iter().map(|a| a.to_string()).collect() }
}

fn add_column(table: &str, col: ColumnDef) -> Located<IrNode> {
    located(IrNode::AlterTable(AlterTable { name: QualifiedName::unqualified(table), actions: vec![AlterTableAction::AddColumn(col)] }))
}

fn set_default(table: &str, col: &str, d: DefaultExpr) -> Located<IrNode> {
    located(IrNode::AlterTable(AlterTable {
        name: QualifiedName::unqualified(table),
        actions: vec![AlterTableAction::SetDefault { column_name: col.to_string(), default_expr: d }],
    }))
}

fn orders() -> Catalog {
    Catalog::new().with_table(TableState::new("orders").column("id", "int", false))
}

#[test]
fn test_now_default_no_finding() {
    let before = orders();
    let after = before.clone();
    let created = Vec::new();
    let findings = RuleId::Pgm006.check(&[add_column("orders", column("created_at", "timestamptz", Some(call("now", &[]))))], &ctx(&before, &after, &created));
    assert!(findings.is_empty(), "now() is STABLE, should not trigger PGM006");
}

#[test]
fn test_clock_timestamp_fires_warning() {
    let before = orders();
    let after = before.clone();
    let created = Vec::new();
    let findings = RuleId::Pgm006.check(
        &[add_column("orders", column("created_at", "timestamptz", Some(call("clock_timestamp", &[]))))],
        &ctx(&before, &after, &created),
    );
    assert_eq!(findings.len(), 1, "clock_timestamp is volatile");
    assert_eq!(findings[0].severity, Severity::Minor);
}

#[test]
fn test_create_table_with_volatile_default_no_finding() {
    let before = Catalog::new();
    let after = before.clone();
    let created = Vec::new();
    let stmt = located(IrNode::CreateTable(CreateTable {
        name: QualifiedName::unqualified("tokens"),
        columns: vec![column("id", "timestamptz", Some(call("gen_random_uuid", &[])))],
        constraints: vec![],
        persistence: TablePersistence::Permanent,
        if_not_exists: false,
        partition_by: None,
        partition_of: None,
    }));
    let findings = RuleId::Pgm006.check(&[stmt], &ctx(&before, &after, &created));
    assert!(findings.is_empty(), "CREATE TABLE should not trigger PGM006");
}

#[test]
fn test_add_column_on_new_in_same_changeset_table_no_finding() {
    let before = Catalog::new();
    let after = before.clone();
    let created = vec!["orders".to_string()];
    let findings = RuleId::Pgm006.check(&[add_column("orders", column("created_at", "timestamptz", Some(call("now", &[]))))], &ctx(&before, &after, &created));
    assert!(findings.is_empty());
}

#[test]
fn test_literal_default_no_finding() {
    let before = Catalog::new();
    let after = before.clone();
    let created = Vec::new();
    let findings = RuleId::Pgm006.check(
        &[add_column("orders", column("status", "text", Some(DefaultExpr::Literal("active".to_string()))))],
        &ctx(&before, &after, &created),
    );
    assert!(findings.is_empty());
}

#[test]
fn test_unknown_function_fires_info() {
    let before = Catalog::new();
    let after = before.clone();
    let created = Vec::new();
    let findings = RuleId::Pgm006.check(&[add_column("orders", column("computed", "timestamptz", Some(call("my_custom_func", &[]))))], &ctx(&before, &after, &created));
    assert_eq!(findings.len(), 1);
    assert_eq!(findings[0].severity, Severity::Info);
    assert_eq!(
        findings[0].message,
        "Column 'computed' on 'orders' uses function 'my_custom_func()' as default. If this function is volatile (the default for user-defined functions), it forces a full table rewrite under an ACCESS EXCLUSIVE lock instead of a cheap catalog-only change. Verify the function's volatility classification."
    );
}

#[test]
fn test_nextval_fires_warning() {
    let before = Catalog::new();
    let after = before.clone();
    let created = Vec::new();
    let findings = RuleId::Pgm006.check(&[add_column("orders", column("id", "timestamptz", Some(call("nextval", &["orders_id_seq"]))))], &ctx(&before, &after, &created));
    assert_eq!(findings.len(), 1);
    assert_eq!(findings[0].rule_id, RuleId::Pgm006);
    assert_eq!(findings[0].severity, Severity::Minor);
    assert_eq!(
        findings[0].message,
        "Column 'id' on 'orders' uses a sequence default (serial/bigserial). This is standard usage \u{2014} suppress if intentional. Note: on ADD COLUMN to an existing table, this is volatile and forces a table rewrite."
    );
}

#[test]
fn test_no_default_no_finding() {
    let before = Catalog::new();
    let after = before.clone();
    let created = Vec::new();
    let findings = RuleId::Pgm006.check(&[add_column("orders", column("note", "text", None))], &ctx(&before, &after, &created));
    assert!(findings.is_empty());
}

#[test]
fn test_mixed_case_stable_no_finding() {
    let before = orders();
    let after = before.clone();
    let created = Vec::new();
    let findings = RuleId::Pgm006.check(&[add_column("orders", column("created_at", "timestamptz", Some(call("NOW", &[]))))], &ctx(&before, &after, &created));
    assert!(findings.is_empty(), "NOW (uppercase) is STABLE, should not trigger PGM006");
}

#[test]
fn test_mixed_case_volatile_fires_warning() {
    let before = orders();
    let after = before.clone();
    let created = Vec::new();
    let findings = RuleId::Pgm006.check(&[add_column("orders", column("token", "timestamptz", Some(call("Gen_Random_Uuid", &[]))))], &ctx(&before, &after, &created));
    assert_eq!(findings.len(), 1, "Gen_Random_Uuid (mixed case) is volatile");
    assert_eq!(findings[0].severity, Severity::Minor);
}

#[test]
fn test_txid_current_is_stable_no_finding() {
    let before = orders();
    let after = before.clone();
    let created = Vec::new();
    let findings = RuleId::Pgm006.check(&[add_column("orders", column("txid", "timestamptz", Some(call("txid_current", &[]))))], &ctx(&before, &after, &created));
    assert!(findings.is_empty(), "txid_current() is STABLE, should not trigger PGM006");
}

#[test]
fn test_set_default_volatile_fires_info() {
    let before = Catalog::new().with_table(TableState::new("orders").column("id", "int", false).column("token", "uuid", true));
    let after = before.clone();
    let created = Vec::new();
    let findings = RuleId::Pgm006.check(&[set_default("orders", "token", call("gen_random_uuid", &[]))], &ctx(&before, &after, &created));
    assert_eq!(findings.len(), 1, "volatile SET DEFAULT should fire");
    assert_eq!(findings[0].severity, Severity::Info);
    assert!(findings[0].message.contains("NOT backfilled"));
}

#[test]
fn test_set_default_stable_no_finding() {
    let before = Catalog::new().with_table(TableState::new("orders").column("id", "int", false).column("created_at", "timestamptz", true));
    let after = before.clone();
    let created = Vec::new();
    let findings = RuleId::Pgm006.check(&[set_default("orders", "created_at", call("now", &[]))], &ctx(&before, &after, &created));
    assert!(findings.is_empty());
}

#[test]
fn test_set_default_literal_no_finding() {
    let before = Catalog::new().with_table(TableState::new("orders").column("id", "int", false).column("status", "text", true));
    let after = before.clone();
    let created = Vec::new();
    let findings = RuleId::Pgm006.check(&[set_default("orders", "status", DefaultExpr::Literal("active".to_string()))], &ctx(&before, &after, &created));
    assert!(findings.is_empty(), "Literal SET DEFAULT should not fire");
}

#[test]
fn test_set_default_nextval_fires_info() {
    let before = Catalog::new().with_table(TableState::new("orders").column("id", "int", false).column("seq_col", "int", true));
    let after = before.clone();
    let created = Vec::new();
    let findings = RuleId::Pgm006.check(&[set_default("orders", "seq_col", call("nextval", &["orders_seq_col_seq"]))], &ctx(&before, &after, &created));
    assert_eq!(findings.len(), 1, "nextval SET DEFAULT should fire");
    assert_eq!(findings[0].severity, Severity::Info);
    assert!(findings[0].message.contains("serial/bigserial"));
    assert!(findings[0].message.contains("NOT backfilled"));
}

#[test]
fn test_set_default_unknown_function_fires_info() {
    let before = Catalog::new().with_table(TableState::new("orders").column("id", "int", false).column("computed", "text", true));
    let after = before.clone();
    let created = Vec::new();
    let findings = RuleId::Pgm006.check(&[set_default("orders", "computed", call("my_custom_func", &[]))], &ctx(&before, &after, &created));
    assert_eq!(findings.len(), 1, "unknown function SET DEFAULT should fire");
    assert_eq!(findings[0].severity, Severity::Info);
    assert!(findings[0].message.contains("NOT backfilled"));
}

#[test]
fn test_set_default_on_new_table_no_finding() {
    let before = Catalog::new();
    let after = before.clone();
    let created = vec!["orders".to_string()];
    let findings = RuleId::Pgm006.check(&[set_default("orders", "token", call("gen_random_uuid", &[]))], &ctx(&before, &after, &created));
    assert!(findings.is_empty(), "SET DEFAULT on table created in same changeset should not fire");
}
