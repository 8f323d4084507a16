use pg_migration_lint::parser::ir::QualifiedName;
use std::collections::HashSet;

#[test]
fn test_unqualified_catalog_key() {
    let name = QualifiedName::unqualified("orders");
    assert_eq!(name.catalog_key(), "orders");
}

#[test]
fn test_qualified_catalog_key() {
    let name = QualifiedName::qualified("myschema", "orders");
    assert_eq!(name.catalog_key(), "myschema.orders");
}

#[test]
fn test_set_default_schema_on_unqualified() {
    let mut name = QualifiedName::unqualified("orders");
    name.set_default_schema("public");
    assert_eq!(name.schema(), Some(&"public".to_string()));
    assert_eq!(name.catalog_key(), "public.orders");
}

#[test]
fn test_set_default_schema_noop_on_qualified() {
    let mut name = QualifiedName::qualified("myschema", "orders");
    name.set_default_schema("public");
    assert_eq!(name.schema(), Some(&"myschema".to_string()));
    assert_eq!(name.catalog_key(), "myschema.orders");
}

#[test]
fn test_different_schemas_are_distinct() {
    let a = QualifiedName::qualified("public", "orders");
    let b = QualifiedName::qualified("audit", "orders");
    assert_ne!(a, b);
    assert_ne!(a.catalog_key(), b.catalog_key());
}

#[test]
fn test_equality_ignores_catalog_key_cache() {
    let a = QualifiedName::qualified("public", "orders");
    let b = QualifiedName::qualified("public", "orders");
    assert_eq!(a, b);
}

#[test]
fn test_display_unqualified() {
    let name = QualifiedName::unqualified("orders");
    assert_eq!(name.to_full_string(), "orders");
}

#[test]
fn test_display_qualified() {
    let name = QualifiedName::qualified("myschema", "orders");
    assert_eq!(name.to_full_string(), "myschema.orders");
}

#[test]
fn test_display_after_set_default_schema() {
    let mut name = QualifiedName::unqualified("orders");
    name.set_default_schema("public");
    assert_eq!(name.to_full_string(), "public.orders");
}

#[test]
fn test_display_name_unqualified() {
    let name = QualifiedName::unqualified("orders");
    assert_eq!(name.display_name(), "orders");
}

#[test]
fn test_display_name_qualified() {
    let name = QualifiedName::qualified("myschema", "orders");
    assert_eq!(name.display_name(), "myschema.orders");
}

#[test]
fn test_display_name_after_set_default_schema() {
    let mut name = QualifiedName::unqualified("orders");
    name.set_default_schema("public");
    assert_eq!(name.display_name(), "orders");
    assert_eq!(name.to_full_string(), "public.orders");
}

#[test]
fn test_hash_consistency() {
    let a = QualifiedName::qualified("public", "orders");
    let b = QualifiedName::qualified("public", "orders");
    let mut set = HashSet::new();
    set.insert(a);
    assert!(set.contains(&b));
}

#[test]
fn hash_ignores_the_origin_of_the_schema() {
    let mut a = QualifiedName::unqualified("orders");
    a.set_default_schema("public");
    let b = QualifiedName::qualified("public", "orders");
    let mut set = HashSet::new();
    set.insert(a);
    assert!(set.contains(&b));
}

#[test]
fn same_name_ignores_the_origin_of_the_schema() {
    let mut a = QualifiedName::unqualified("orders");
    a.set_default_schema("public");
    let b = QualifiedName::qualified("public", "orders");
    assert!(a.same_name(&b));
    assert_eq!(a.display_name(), "orders");
    assert_eq!(b.display_name(), "public.orders");
}

#[test]
fn set_default_schema_twice_keeps_the_first() {
    let mut a = QualifiedName::unqualified("orders");
    a.set_default_schema("public");
    a.set_default_schema("audit");
    assert_eq!(a.catalog_key(), "public.orders");
}
