use pg_migration_lint::parser::convert::{relation_persistence, relation_to_qualified_name};
use pg_migration_lint::parser::ir::{IrNode, TablePersistence};
use pg_migration_lint::parser::source::{byte_offset_to_line, extract_first_identifier, extract_table_hint_from_raw, slice_or_empty, unparseable_source};

#[test]
fn test_byte_offset_to_line_first_line() {
    assert_eq!(byte_offset_to_line("hello\nworld", 0), 1);
    assert_eq!(byte_offset_to_line("hello\nworld", 3), 1);
}

#[test]
fn test_byte_offset_to_line_second_line() {
    assert_eq!(byte_offset_to_line("hello\nworld", 6), 2);
    assert_eq!(byte_offset_to_line("hello\nworld", 10), 2);
}

#[test]
fn test_byte_offset_to_line_at_newline() {
    assert_eq!(byte_offset_to_line("hello\nworld", 5), 1);
}

#[test]
fn test_byte_offset_to_line_multi_line() {
    let source = "line1\nline2\nline3\nline4";
    assert_eq!(byte_offset_to_line(source, 0), 1);
    assert_eq!(byte_offset_to_line(source, 6), 2);
    assert_eq!(byte_offset_to_line(source, 12), 3);
    assert_eq!(byte_offset_to_line(source, 18), 4);
}

#[test]
fn test_byte_offset_to_line_beyond_end() {
    assert_eq!(byte_offset_to_line("hello", 999), 1);
}

#[test]
fn byte_offset_to_line_counts_bytes_not_chars() {
    // 'é' takes two bytes: the newline is byte 2, so byte 3 is on line 2.
    assert_eq!(byte_offset_to_line("é\nx", 2), 1);
    assert_eq!(byte_offset_to_line("é\nx", 3), 2);
}

#[test]
fn test_extract_table_hint_alter() {
    let hint = extract_table_hint_from_raw("ALTER TABLE orders ADD COLUMN x int;");
    assert_eq!(hint.as_deref(), Some("orders"));
}

#[test]
fn test_extract_table_hint_create() {
    let hint = extract_table_hint_from_raw("CREATE TABLE IF NOT EXISTS orders (id int);");
    assert_eq!(hint.as_deref(), Some("orders"));
}

#[test]
fn test_extract_table_hint_alter_lowercase() {
    let hint = extract_table_hint_from_raw("alter table orders add column x int;");
    assert_eq!(hint.as_deref(), Some("orders"));
}

#[test]
fn test_extract_table_hint_create_if_exists() {
    let hint = extract_table_hint_from_raw("CREATE TABLE IF EXISTS orders (id int);");
    assert_eq!(hint.as_deref(), Some("orders"));
}

#[test]
fn test_extract_table_hint_alter_only() {
    let hint = extract_table_hint_from_raw("ALTER TABLE ONLY orders ADD COLUMN x int;");
    assert_eq!(hint.as_deref(), Some("orders"));
}

#[test]
fn test_extract_table_hint_schema_qualified() {
    let hint = extract_table_hint_from_raw("ALTER TABLE public.orders ADD COLUMN x int;");
    assert_eq!(hint.as_deref(), Some("public.orders"));
}

#[test]
fn test_extract_table_hint_none() {
    let hint = extract_table_hint_from_raw("DO $$ BEGIN END $$;");
    assert!(hint.is_none());
}

#[test]
fn test_extract_table_hint_no_match() {
    let hint = extract_table_hint_from_raw("SELECT 1;");
    assert!(hint.is_none());
}

#[test]
fn test_extract_table_hint_empty() {
    let hint = extract_table_hint_from_raw("");
    assert!(hint.is_none());
}

#[test]
fn table_hint_strips_quotes_and_prefers_alter() {
    assert_eq!(extract_table_hint_from_raw("CREATE TABLE a (x int); ALTER TABLE \"b\" ADD y int").as_deref(), Some("b"));
    assert_eq!(extract_first_identifier("   \t(x)"), None);
    assert_eq!(extract_first_identifier("  only  t1 rest"), Some("t1".to_string()));
}

#[test]
fn test_relation_to_qualified_name_none() {
    let name = relation_to_qualified_name(None);
    assert_eq!(name.name(), "unknown");
}

#[test]
fn test_relation_persistence_none() {
    assert_eq!(relation_persistence(None), TablePersistence::Permanent);
}

#[test]
fn slices_only_between_character_boundaries() {
    assert_eq!(slice_or_empty("abc", 1, 3), "bc");
    assert_eq!(slice_or_empty("é", 1, 2), "");
    assert_eq!(slice_or_empty("abc", 2, 1), "");
    assert_eq!(slice_or_empty("abc", 0, 9), "");
}

#[test]
fn unparseable_source_spans_all_lines() {
    let nodes = unparseable_source("ALTER TABLE t FOO;\nBAR\n");
    assert_eq!(nodes.len(), 1);
    assert_eq!(nodes[0].span.start_line, 1);
    assert_eq!(nodes[0].span.end_line, 2);
    assert_eq!(nodes[0].span.end_offset, 23);
    match &nodes[0].node {
        IrNode::Unparseable { raw_sql, table_hint } => {
            assert_eq!(raw_sql, "ALTER TABLE t FOO;\nBAR\n");
            assert_eq!(table_hint.as_deref(), Some("t"));
        }
        other => panic!("expected Unparseable, got {other:?}"),
    }
    assert_eq!(unparseable_source("").len(), 1);
    assert_eq!(unparseable_source("")[0].span.end_line, 1);
}

#[test]
fn keywords_are_skipped_only_as_whole_words() {
    assert_eq!(extract_first_identifier(" only_orders (id int);"), Some("only_orders".to_string()));
    assert_eq!(extract_first_identifier("ONLY orders"), Some("orders".to_string()));
    assert_eq!(extract_first_identifier("if_exists_log (id int)"), Some("if_exists_log".to_string()));
    assert_eq!(extract_first_identifier("IF EXISTS\tt2"), Some("t2".to_string()));
    assert_eq!(extract_first_identifier("if not exists t3 (a int)"), Some("t3".to_string()));
    assert_eq!(extract_first_identifier("ONLY"), None);
}
