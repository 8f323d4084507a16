use pg_migration_lint::catalog::{Catalog, TableState};
use pg_migration_lint::parser::ir::PartitionStrategy;
use pg_migration_lint::rules::context::LintContext;

fn ctx<'a>(before: &'a Catalog, after: &'a Catalog, created: &'a Vec<String>) -> LintContext<'a> {
    LintContext {
        catalog_before: before,
        catalog_after: after,
        tables_created_in_change: created,
        run_in_transaction: true,
        is_down: false,
        file: "migrations/test.sql",
    }
}

#[test]
fn test_parent_display_name_resolves_tracked_parent() {
    let before = Catalog::new()
        .with_table(
            TableState::new("measurements")
                .column("id", "bigint", false)
                .with_display_name("Measurements")
                .partitioned_by(PartitionStrategy::Range, vec!["id".to_string()]),
        )
        .with_table(TableState::new("measurements_2024").column("id", "bigint", false).partition_of("measurements"));
    let after = before.clone();
    let created = Vec::new();
    let c = ctx(&before, &after, &created);
    assert_eq!(c.parent_display_name("measurements_2024"), Some("Measurements".to_string()));
}

#[test]
fn test_parent_display_name_falls_back_to_key_when_parent_untracked() {
    let before = Catalog::new()
        .with_table(TableState::new("measurements_2024").column("id", "bigint", false).partition_of("ghost_parent"));
    let after = before.clone();
    let created = Vec::new();
    let c = ctx(&before, &after, &created);
    assert_eq!(c.parent_display_name("measurements_2024"), Some("ghost_parent".to_string()));
}

#[test]
fn test_parent_display_name_none_for_standalone_table() {
    let before = Catalog::new().with_table(TableState::new("measurements").column("id", "bigint", false));
    let after = before.clone();
    let created = Vec::new();
    let c = ctx(&before, &after, &created);
    assert_eq!(c.parent_display_name("measurements"), None);
}

#[test]
fn test_parent_display_name_none_when_table_missing() {
    let before = Catalog::new();
    let after = Catalog::new();
    let created = Vec::new();
    let c = ctx(&before, &after, &created);
    assert_eq!(c.parent_display_name("nonexistent"), None);
}

#[test]
fn existing_table_excludes_tables_created_in_the_change() {
    let before = Catalog::new()
        .with_table(TableState::new("orders").column("id", "int", false))
        .with_table(TableState::new("users").column("id", "int", false));
    let after = before.clone();
    let created = vec!["users".to_string()];
    let c = ctx(&before, &after, &created);
    assert!(c.is_existing_table("orders"));
    assert!(!c.is_existing_table("users"));
    assert!(!c.is_existing_table("missing"));
}
