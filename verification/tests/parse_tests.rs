//! Conversion of parse trees to the IR. Each test gives the SQL text and the
//! tree libpg_query produces for it.
use pg_migration_lint::parser::ir::{
    AlterTableAction, DefaultExpr, IndexColumn, IrNode, Located, PartitionStrategy, QualifiedName, TableConstraint, TablePersistence,
};
use pg_migration_lint::parser::source::ir_from_parse;
use pg_migration_lint::parser::syntax::{
    AlterTableCmd, AlterTableStmt, AlterTableType, ColumnDefNode, ConstValue, ConstrType, Constraint, CreateStmt,
    DropBehavior, DropStmt, IndexStmt, Node, NodeKind, ObjectType, OnCommit, PartStrategy, PartitionSpec, RangeVar, RawStmt,
    RenameStmt, TypeNameNode,
};

fn node(kind: NodeKind) -> Node {
    Node { node: Some(kind), deparsed: String::new() }
}

fn expr(kind: NodeKind, text: &str) -> Node {
    Node { node: Some(kind), deparsed: text.to_string() }
}

fn string(s: &str) -> Node {
    node(NodeKind::String(s.to_string()))
}

fn strings(v: &[&str]) -> Vec<Node> {
    v.iter().map(|s| string(s)).collect()
}

fn int_const(i: i32) -> Node {
    expr(NodeKind::AConst(Some(ConstValue::Ival(i))), &i.to_string())
}

fn str_const(s: &str) -> Node {
    expr(NodeKind::AConst(Some(ConstValue::Sval(s.to_string()))), &format!("'{s}'"))
}

fn rv(schema: &str, name: &str) -> RangeVar {
    RangeVar { schemaname: schema.to_string(), relname: name.to_string(), inh: true, relpersistence: "p".to_string() }
}

fn ty(names: &[&str], mods: &[i32]) -> TypeNameNode {
    TypeNameNode { names: strings(names), typmods: mods.iter().map(|m| int_const(*m)).collect() }
}

fn int4() -> TypeNameNode {
    ty(&["pg_catalog", "int4"], &[])
}

fn text() -> TypeNameNode {
    ty(&["text"], &[])
}

fn constraint(contype: ConstrType) -> Constraint {
    Constraint {
        contype,
        conname: String::new(),
        raw_expr: None,
        keys: vec![],
        fk_attrs: vec![],
        pk_attrs: vec![],
        pktable: None,
        indexname: String::new(),
        skip_validation: false,
    }
}

fn default_of(e: Node) -> Constraint {
    Constraint { raw_expr: Some(Box::new(e)), ..constraint(ConstrType::Default) }
}

fn references(table: &str, cols: &[&str]) -> Constraint {
    Constraint { pktable: Some(rv("", table)), pk_attrs: strings(cols), ..constraint(ConstrType::Foreign) }
}

fn column(name: &str, t: TypeNameNode, cons: Vec<Constraint>) -> Node {
    node(NodeKind::ColumnDef(ColumnDefNode {
        colname: name.to_string(),
        column_type: Some(t),
        constraints: cons.into_iter().map(|c| node(NodeKind::Constraint(c))).collect(),
    }))
}

fn create_table(rel: RangeVar, elts: Vec<Node>) -> NodeKind {
    NodeKind::CreateStmt(CreateStmt {
        relation: Some(rel),
        table_elts: elts,
        inh_relations: vec![],
        has_partbound: false,
        partspec: None,
        oncommit: OnCommit::Other,
        if_not_exists: false,
    })
}

fn cmd(subtype: AlterTableType, name: &str, def: Option<Node>) -> Node {
    node(NodeKind::AlterTableCmd(AlterTableCmd { subtype, name: name.to_string(), def: def.map(Box::new) }))
}

fn alter_table(rel: RangeVar, cmds: Vec<Node>) -> NodeKind {
    NodeKind::AlterTableStmt(AlterTableStmt { relation: Some(rel), cmds, objtype: ObjectType::Table })
}

fn index_elem(name: &str) -> Node {
    node(NodeKind::IndexElem { name: name.to_string(), expr: None })
}

fn create_index(name: &str, rel: RangeVar, params: Vec<Node>, unique: bool, concurrent: bool) -> NodeKind {
    NodeKind::IndexStmt(IndexStmt {
        idxname: name.to_string(),
        relation: Some(rel),
        index_params: params,
        where_clause: None,
        unique,
        concurrent,
        if_not_exists: false,
    })
}

fn drop(remove_type: ObjectType, objects: Vec<Node>, cascade: bool, missing_ok: bool, concurrent: bool) -> NodeKind {
    NodeKind::DropStmt(DropStmt {
        objects,
        remove_type,
        behavior: if cascade { DropBehavior::Cascade } else { DropBehavior::Restrict },
        missing_ok,
        concurrent,
    })
}

fn name_list(parts: &[&str]) -> Node {
    node(NodeKind::List(strings(parts)))
}

/// The statements of `sql` as libpg_query locates them: each starts after the
/// previous `;` and runs up to its own `;` (the last, with no `;` after it,
/// to the end of the source).
fn raw_statements(sql: &str, kinds: Vec<NodeKind>) -> Vec<RawStmt> {
    let mut out = Vec::new();
    let mut start = 0usize;
    for kind in kinds {
        let len = match sql[start..].find(';') {
            Some(i) => i,
            None => 0,
        };
        out.push(RawStmt { stmt: Some(node(kind)), stmt_location: start, stmt_len: len });
        start = start + len + 1;
    }
    out
}

fn parse_sql(sql: &str, kinds: Vec<NodeKind>) -> Vec<Located<IrNode>> {
    let stmts = raw_statements(sql, kinds);
    ir_from_parse(sql, Some(&stmts))
}

#[test]
fn test_parse_create_table() {
    let sql = "CREATE TABLE orders (id integer PRIMARY KEY, status text NOT NULL);";
    let nodes = parse_sql(
        sql,
        vec![create_table(
            rv("", "orders"),
            vec![
                column("id", int4(), vec![constraint(ConstrType::Primary)]),
                column("status", text(), vec![constraint(ConstrType::NotNull)]),
            ],
        )],
    );
    assert_eq!(nodes.len(), 1);
    match &nodes[0].node {
        IrNode::CreateTable(ct) => {
            assert_eq!(ct.name, QualifiedName::unqualified("orders"));
            assert_eq!(ct.columns.len(), 2);
            assert_eq!(ct.columns[0].name, "id");
            assert_eq!(ct.columns[0].data_type.name, "int4");
            assert!(ct.columns[0].is_inline_pk);
            assert!(!ct.columns[0].nullable);
            assert_eq!(ct.columns[1].name, "status");
            assert_eq!(ct.columns[1].data_type.name, "text");
            assert!(!ct.columns[1].nullable);
            assert!(!ct.if_not_exists);
        }
        other => panic!("Expected CreateTable, got: {:?}", other),
    }
}

#[test]
fn test_parse_create_table_with_schema() {
    let sql = "CREATE TABLE myschema.orders (id int);";
    let nodes = parse_sql(sql, vec![create_table(rv("myschema", "orders"), vec![column("id", int4(), vec![])])]);
    assert_eq!(nodes.len(), 1);
    match &nodes[0].node {
        IrNode::CreateTable(ct) => assert_eq!(ct.name, QualifiedName::qualified("myschema", "orders")),
        other => panic!("Expected CreateTable, got: {:?}", other),
    }
}

fn single_column_table(t: TypeNameNode, cons: Vec<Constraint>) -> Vec<NodeKind> {
    vec![create_table(rv("", "t"), vec![column("id", t, cons)])]
}

#[test]
fn test_parse_serial_type() {
    let nodes = parse_sql("CREATE TABLE t (id serial);", single_column_table(ty(&["serial"], &[]), vec![]));
    match &nodes[0].node {
        IrNode::CreateTable(ct) => {
            assert_eq!(ct.columns[0].data_type.name, "int4");
            assert!(matches!(ct.columns[0].default_expr, Some(DefaultExpr::FunctionCall { ref name, .. }) if name == "nextval"));
        }
        other => panic!("Expected CreateTable, got: {:?}", other),
    }
}

#[test]
fn test_parse_bigserial_type() {
    let nodes = parse_sql("CREATE TABLE t (id bigserial);", single_column_table(ty(&["bigserial"], &[]), vec![]));
    match &nodes[0].node {
        IrNode::CreateTable(ct) => {
            assert_eq!(ct.columns[0].data_type.name, "int8");
            assert!(ct.columns[0].default_expr.is_some());
        }
        other => panic!("Expected CreateTable, got: {:?}", other),
    }
}

#[test]
fn test_parse_smallserial_type() {
    let nodes = parse_sql("CREATE TABLE t (id smallserial);", single_column_table(ty(&["smallserial"], &[]), vec![]));
    match &nodes[0].node {
        IrNode::CreateTable(ct) => {
            assert_eq!(ct.columns[0].data_type.name, "int2");
            assert!(matches!(ct.columns[0].default_expr, Some(DefaultExpr::FunctionCall { ref name, .. }) if name == "nextval"));
        }
        other => panic!("Expected CreateTable, got: {:?}", other),
    }
}

#[test]
fn test_parse_varchar_with_modifier() {
    let nodes = parse_sql("CREATE TABLE t (name varchar(100));", single_column_table(ty(&["pg_catalog", "varchar"], &[100]), vec![]));
    match &nodes[0].node {
        IrNode::CreateTable(ct) => {
            assert_eq!(ct.columns[0].data_type.name, "varchar");
            assert_eq!(ct.columns[0].data_type.modifiers, vec![100]);
        }
        other => panic!("Expected CreateTable, got: {:?}", other),
    }
}

#[test]
fn test_parse_numeric_with_modifiers() {
    let nodes = parse_sql("CREATE TABLE t (price numeric(10,2));", single_column_table(ty(&["pg_catalog", "numeric"], &[10, 2]), vec![]));
    match &nodes[0].node {
        IrNode::CreateTable(ct) => {
            assert_eq!(ct.columns[0].data_type.name, "numeric");
            assert_eq!(ct.columns[0].data_type.modifiers, vec![10, 2]);
        }
        other => panic!("Expected CreateTable, got: {:?}", other),
    }
}

#[test]
fn test_parse_type_canonicalization() {
    for sql in &["CREATE TABLE t (col int);", "CREATE TABLE t (col integer);", "CREATE TABLE t (col int4);"] {
        let nodes = parse_sql(sql, single_column_table(int4(), vec![]));
        match &nodes[0].node {
            IrNode::CreateTable(ct) => assert_eq!(ct.columns[0].data_type.name, "int4", "Failed for: {}", sql),
            other => panic!("Expected CreateTable for {}, got: {:?}", sql, other),
        }
    }
}

#[test]
fn test_parse_default_literal() {
    let nodes = parse_sql("CREATE TABLE t (col int DEFAULT 0);", single_column_table(int4(), vec![default_of(int_const(0))]));
    match &nodes[0].node {
        IrNode::CreateTable(ct) => assert_eq!(ct.columns[0].default_expr, Some(DefaultExpr::Literal("0".to_string()))),
        other => panic!("Expected CreateTable, got: {:?}", other),
    }
}

#[test]
fn test_parse_default_function_call() {
    let now = expr(NodeKind::FuncCall { funcname: strings(&["now"]), args: vec![] }, "now()");
    let nodes = parse_sql(
        "CREATE TABLE t (col timestamp DEFAULT now());",
        single_column_table(ty(&["pg_catalog", "timestamp"], &[]), vec![default_of(now)]),
    );
    match &nodes[0].node {
        IrNode::CreateTable(ct) => match &ct.columns[0].default_expr {
            Some(DefaultExpr::FunctionCall { name, .. }) => assert_eq!(name, "now"),
            other => panic!("Expected FunctionCall default, got: {:?}", other),
        },
        other => panic!("Expected CreateTable, got: {:?}", other),
    }
}

#[test]
fn test_parse_default_string_literal() {
    let nodes = parse_sql("CREATE TABLE t (col text DEFAULT 'active');", single_column_table(text(), vec![default_of(str_const("active"))]));
    match &nodes[0].node {
        IrNode::CreateTable(ct) => assert_eq!(ct.columns[0].default_expr, Some(DefaultExpr::Literal("active".to_string()))),
        other => panic!("Expected CreateTable, got: {:?}", other),
    }
}

#[test]
fn test_parse_table_level_primary_key() {
    let sql = "CREATE TABLE t (id int, name text, PRIMARY KEY (id));";
    let pk = Constraint { keys: strings(&["id"]), ..constraint(ConstrType::Primary) };
    let nodes = parse_sql(
        sql,
        vec![create_table(rv("", "t"), vec![column("id", int4(), vec![]), column("name", text(), vec![]), node(NodeKind::Constraint(pk))])],
    );
    match &nodes[0].node {
        IrNode::CreateTable(ct) => {
            assert!(ct.constraints.iter().any(|c| matches!(c, TableConstraint::PrimaryKey { columns, .. } if columns == &["id"])));
        }
        other => panic!("Expected CreateTable, got: {:?}", other),
    }
}

#[test]
fn test_parse_inline_primary_key() {
    let nodes = parse_sql("CREATE TABLE t (id int PRIMARY KEY);", single_column_table(int4(), vec![constraint(ConstrType::Primary)]));
    match &nodes[0].node {
        IrNode::CreateTable(ct) => {
            assert!(ct.columns[0].is_inline_pk);
            assert!(ct.constraints.iter().any(|c| matches!(c, TableConstraint::PrimaryKey { columns, .. } if columns == &["id"])));
        }
        other => panic!("Expected CreateTable, got: {:?}", other),
    }
}

fn assert_fk_to_customers(ct_constraints: &[TableConstraint]) {
    assert!(
        ct_constraints.iter().any(|c| matches!(
            c,
            TableConstraint::ForeignKey { columns, ref_table, ref_columns, .. }
                if columns == &["customer_id"] && ref_table == &QualifiedName::unqualified("customers") && ref_columns == &["id"]
        )),
        "Expected ForeignKey constraint, got: {:?}",
        ct_constraints
    );
}

#[test]
fn test_parse_table_level_foreign_key() {
    let sql = "CREATE TABLE orders (customer_id int, FOREIGN KEY (customer_id) REFERENCES customers(id));";
    let fk = Constraint { fk_attrs: strings(&["customer_id"]), ..references("customers", &["id"]) };
    let nodes = parse_sql(sql, vec![create_table(rv("", "orders"), vec![column("customer_id", int4(), vec![]), node(NodeKind::Constraint(fk))])]);
    match &nodes[0].node {
        IrNode::CreateTable(ct) => assert_fk_to_customers(&ct.constraints),
        other => panic!("Expected CreateTable, got: {:?}", other),
    }
}

#[test]
fn test_parse_inline_foreign_key() {
    let sql = "CREATE TABLE orders (customer_id int REFERENCES customers(id));";
    let nodes = parse_sql(sql, vec![create_table(rv("", "orders"), vec![column("customer_id", int4(), vec![references("customers", &["id"])])])]);
    match &nodes[0].node {
        IrNode::CreateTable(ct) => assert_fk_to_customers(&ct.constraints),
        other => panic!("Expected CreateTable, got: {:?}", other),
    }
}

#[test]
fn test_parse_unique_constraint() {
    let sql = "CREATE TABLE t (email text, UNIQUE (email));";
    let uq = Constraint { keys: strings(&["email"]), ..constraint(ConstrType::Unique) };
    let nodes = parse_sql(sql, vec![create_table(rv("", "t"), vec![column("email", text(), vec![]), node(NodeKind::Constraint(uq))])]);
    match &nodes[0].node {
        IrNode::CreateTable(ct) => {
            assert!(ct.constraints.iter().any(|c| matches!(c, TableConstraint::Unique { columns, .. } if columns == &["email"])));
        }
        other => panic!("Expected CreateTable, got: {:?}", other),
    }
}

#[test]
fn test_parse_alter_table_add_column() {
    let sql = "ALTER TABLE orders ADD COLUMN status text NOT NULL DEFAULT 'pending';";
    let col = column("status", text(), vec![constraint(ConstrType::NotNull), default_of(str_const("pending"))]);
    let nodes = parse_sql(sql, vec![alter_table(rv("", "orders"), vec![cmd(AlterTableType::AddColumn, "", Some(col))])]);
    match &nodes[0].node {
        IrNode::AlterTable(at) => {
            assert_eq!(at.name, QualifiedName::unqualified("orders"));
            assert_eq!(at.actions.len(), 1);
            match &at.actions[0] {
                AlterTableAction::AddColumn(col) => {
                    assert_eq!(col.name, "status");
                    assert_eq!(col.data_type.name, "text");
                    assert!(!col.nullable);
                    assert_eq!(col.default_expr, Some(DefaultExpr::Literal("pending".to_string())));
                }
                other => panic!("Expected AddColumn, got: {:?}", other),
            }
        }
        other => panic!("Expected AlterTable, got: {:?}", other),
    }
}

#[test]
fn test_parse_alter_table_drop_column() {
    let nodes = parse_sql("ALTER TABLE orders DROP COLUMN old_field;", vec![alter_table(rv("", "orders"), vec![cmd(AlterTableType::DropColumn, "old_field", None)])]);
    match &nodes[0].node {
        IrNode::AlterTable(at) => {
            assert_eq!(at.actions.len(), 1);
            match &at.actions[0] {
                AlterTableAction::DropColumn { name } => assert_eq!(name, "old_field"),
                other => panic!("Expected DropColumn, got: {:?}", other),
            }
        }
        other => panic!("Expected AlterTable, got: {:?}", other),
    }
}

#[test]
fn test_parse_alter_table_add_constraint() {
    let sql = "ALTER TABLE orders ADD CONSTRAINT fk_customer FOREIGN KEY (customer_id) REFERENCES customers(id);";
    let fk = Constraint { conname: "fk_customer".to_string(), fk_attrs: strings(&["customer_id"]), ..references("customers", &["id"]) };
    let nodes = parse_sql(sql, vec![alter_table(rv("", "orders"), vec![cmd(AlterTableType::AddConstraint, "", Some(node(NodeKind::Constraint(fk))))])]);
    match &nodes[0].node {
        IrNode::AlterTable(at) => {
            assert_eq!(at.actions.len(), 1);
            match &at.actions[0] {
                AlterTableAction::AddConstraint(TableConstraint::ForeignKey { name, columns, ref_table, ref_columns, .. }) => {
                    assert_eq!(name.as_deref(), Some("fk_customer"));
                    assert_eq!(columns, &["customer_id"]);
                    assert_eq!(ref_table, &QualifiedName::unqualified("customers"));
                    assert_eq!(ref_columns, &["id"]);
                }
                other => panic!("Expected AddConstraint(ForeignKey), got: {:?}", other),
            }
        }
        other => panic!("Expected AlterTable, got: {:?}", other),
    }
}

#[test]
fn test_parse_alter_table_alter_column_type() {
    let def = column("", ty(&["pg_catalog", "varchar"], &[100]), vec![]);
    let nodes = parse_sql(
        "ALTER TABLE orders ALTER COLUMN status TYPE varchar(100);",
        vec![alter_table(rv("", "orders"), vec![cmd(AlterTableType::AlterColumnType, "status", Some(def))])],
    );
    match &nodes[0].node {
        IrNode::AlterTable(at) => {
            assert_eq!(at.actions.len(), 1);
            match &at.actions[0] {
                AlterTableAction::AlterColumnType { column_name, new_type, old_type } => {
                    assert_eq!(column_name, "status");
                    assert_eq!(new_type.name, "varchar");
                    assert_eq!(new_type.modifiers, vec![100]);
                    assert!(old_type.is_none());
                }
                other => panic!("Expected AlterColumnType, got: {:?}", other),
            }
        }
        other => panic!("Expected AlterTable, got: {:?}", other),
    }
}

#[test]
fn test_parse_alter_table_set_not_null() {
    let nodes = parse_sql(
        "ALTER TABLE orders ALTER COLUMN price SET NOT NULL;",
        vec![alter_table(rv("", "orders"), vec![cmd(AlterTableType::SetNotNull, "price", None)])],
    );
    match &nodes[0].node {
        IrNode::AlterTable(at) => {
            assert_eq!(at.actions.len(), 1);
            match &at.actions[0] {
                AlterTableAction::SetNotNull { column_name } => assert_eq!(column_name, "price"),
                other => panic!("Expected SetNotNull, got: {:?}", other),
            }
        }
        other => panic!("Expected AlterTable, got: {:?}", other),
    }
}

#[test]
fn test_parse_create_index() {
    let nodes = parse_sql("CREATE INDEX idx_status ON orders (status);", vec![create_index("idx_status", rv("", "orders"), vec![index_elem("status")], false, false)]);
    match &nodes[0].node {
        IrNode::CreateIndex(ci) => {
            assert_eq!(ci.index_name, Some("idx_status".to_string()));
            assert_eq!(ci.table_name, QualifiedName::unqualified("orders"));
            assert_eq!(ci.columns.len(), 1);
            assert_eq!(ci.columns[0], IndexColumn::Column("status".to_string()));
            assert!(!ci.unique);
            assert!(!ci.concurrent);
            assert!(!ci.if_not_exists);
            assert!(ci.where_clause.is_none());
        }
        other => panic!("Expected CreateIndex, got: {:?}", other),
    }
}

#[test]
fn test_parse_create_index_concurrently() {
    let nodes = parse_sql(
        "CREATE INDEX CONCURRENTLY idx_status ON orders (status);",
        vec![create_index("idx_status", rv("", "orders"), vec![index_elem("status")], false, true)],
    );
    match &nodes[0].node {
        IrNode::CreateIndex(ci) => {
            assert!(ci.concurrent);
            assert!(!ci.unique);
        }
        other => panic!("Expected CreateIndex, got: {:?}", other),
    }
}

#[test]
fn test_parse_create_unique_index() {
    let nodes = parse_sql("CREATE UNIQUE INDEX idx_email ON users (email);", vec![create_index("idx_email", rv("", "users"), vec![index_elem("email")], true, false)]);
    match &nodes[0].node {
        IrNode::CreateIndex(ci) => {
            assert!(ci.unique);
            assert!(!ci.concurrent);
        }
        other => panic!("Expected CreateIndex, got: {:?}", other),
    }
}

#[test]
fn test_parse_create_composite_index() {
    let nodes = parse_sql(
        "CREATE INDEX idx_composite ON orders (customer_id, status);",
        vec![create_index("idx_composite", rv("", "orders"), vec![index_elem("customer_id"), index_elem("status")], false, false)],
    );
    match &nodes[0].node {
        IrNode::CreateIndex(ci) => {
            assert_eq!(ci.columns.len(), 2);
            assert_eq!(ci.columns[0], IndexColumn::Column("customer_id".to_string()));
            assert_eq!(ci.columns[1], IndexColumn::Column("status".to_string()));
        }
        other => panic!("Expected CreateIndex, got: {:?}", other),
    }
}

#[test]
fn test_parse_drop_index() {
    let nodes = parse_sql("DROP INDEX idx_status;", vec![drop(ObjectType::Index, vec![name_list(&["idx_status"])], false, false, false)]);
    match &nodes[0].node {
        IrNode::DropIndex(di) => {
            assert_eq!(di.index_name, "idx_status");
            assert!(!di.concurrent);
        }
        other => panic!("Expected DropIndex, got: {:?}", other),
    }
}

#[test]
fn test_parse_drop_index_concurrently() {
    let nodes = parse_sql("DROP INDEX CONCURRENTLY idx_status;", vec![drop(ObjectType::Index, vec![name_list(&["idx_status"])], false, false, true)]);
    match &nodes[0].node {
        IrNode::DropIndex(di) => {
            assert_eq!(di.index_name, "idx_status");
            assert!(di.concurrent);
        }
        other => panic!("Expected DropIndex, got: {:?}", other),
    }
}

#[test]
fn test_parse_drop_table() {
    let nodes = parse_sql("DROP TABLE orders;", vec![drop(ObjectType::Table, vec![name_list(&["orders"])], false, false, false)]);
    match &nodes[0].node {
        IrNode::DropTable(dt) => {
            assert_eq!(dt.name, QualifiedName::unqualified("orders"));
            assert!(!dt.cascade, "Plain DROP TABLE should not have cascade");
        }
        other => panic!("Expected DropTable, got: {:?}", other),
    }
}

#[test]
fn test_parse_drop_table_with_schema() {
    let nodes = parse_sql("DROP TABLE myschema.orders;", vec![drop(ObjectType::Table, vec![name_list(&["myschema", "orders"])], false, false, false)]);
    match &nodes[0].node {
        IrNode::DropTable(dt) => {
            assert_eq!(dt.name, QualifiedName::qualified("myschema", "orders"));
            assert!(!dt.cascade);
        }
        other => panic!("Expected DropTable, got: {:?}", other),
    }
}

#[test]
fn test_parse_drop_table_cascade() {
    let nodes = parse_sql("DROP TABLE orders CASCADE;", vec![drop(ObjectType::Table, vec![name_list(&["orders"])], true, false, false)]);
    match &nodes[0].node {
        IrNode::DropTable(dt) => {
            assert_eq!(dt.name, QualifiedName::unqualified("orders"));
            assert!(dt.cascade, "DROP TABLE CASCADE should have cascade=true");
            assert!(!dt.if_exists);
        }
        other => panic!("Expected DropTable, got: {:?}", other),
    }
}

#[test]
fn test_parse_drop_table_if_exists_cascade() {
    let nodes = parse_sql("DROP TABLE IF EXISTS orders CASCADE;", vec![drop(ObjectType::Table, vec![name_list(&["orders"])], true, true, false)]);
    match &nodes[0].node {
        IrNode::DropTable(dt) => {
            assert_eq!(dt.name, QualifiedName::unqualified("orders"));
            assert!(dt.cascade);
            assert!(dt.if_exists);
        }
        other => panic!("Expected DropTable, got: {:?}", other),
    }
}

fn drop_schema_nodes(sql: &str, names: &[&str], cascade: bool, if_exists: bool) -> Vec<Located<IrNode>> {
    parse_sql(sql, vec![drop(ObjectType::Schema, strings(names), cascade, if_exists, false)])
}

#[test]
fn test_parse_drop_schema_cascade() {
    let nodes = drop_schema_nodes("DROP SCHEMA myschema CASCADE;", &["myschema"], true, false);
    assert_eq!(nodes.len(), 1);
    match &nodes[0].node {
        IrNode::DropSchema(ds) => {
            assert_eq!(ds.schema_name, "myschema");
            assert!(ds.cascade);
            assert!(!ds.if_exists);
        }
        other => panic!("Expected DropSchema, got: {:?}", other),
    }
}

#[test]
fn test_parse_drop_schema_if_exists_no_cascade() {
    let nodes = drop_schema_nodes("DROP SCHEMA IF EXISTS myschema;", &["myschema"], false, true);
    assert_eq!(nodes.len(), 1);
    match &nodes[0].node {
        IrNode::DropSchema(ds) => {
            assert_eq!(ds.schema_name, "myschema");
            assert!(!ds.cascade);
            assert!(ds.if_exists);
        }
        other => panic!("Expected DropSchema, got: {:?}", other),
    }
}

#[test]
fn test_parse_drop_schema_if_exists_cascade() {
    let nodes = drop_schema_nodes("DROP SCHEMA IF EXISTS myschema CASCADE;", &["myschema"], true, true);
    assert_eq!(nodes.len(), 1);
    match &nodes[0].node {
        IrNode::DropSchema(ds) => {
            assert_eq!(ds.schema_name, "myschema");
            assert!(ds.cascade);
            assert!(ds.if_exists);
        }
        other => panic!("Expected DropSchema, got: {:?}", other),
    }
}

#[test]
fn test_parse_drop_schema_plain() {
    let nodes = drop_schema_nodes("DROP SCHEMA myschema;", &["myschema"], false, false);
    assert_eq!(nodes.len(), 1);
    match &nodes[0].node {
        IrNode::DropSchema(ds) => {
            assert_eq!(ds.schema_name, "myschema");
            assert!(!ds.cascade);
            assert!(!ds.if_exists);
        }
        other => panic!("Expected DropSchema, got: {:?}", other),
    }
}

#[test]
fn test_parse_drop_schema_multiple_schemas() {
    let nodes = drop_schema_nodes("DROP SCHEMA foo, bar CASCADE;", &["foo", "bar"], true, false);
    assert_eq!(nodes.len(), 2);
    match &nodes[0].node {
        IrNode::DropSchema(ds) => {
            assert_eq!(ds.schema_name, "foo");
            assert!(ds.cascade);
        }
        other => panic!("Expected DropSchema, got: {:?}", other),
    }
    match &nodes[1].node {
        IrNode::DropSchema(ds) => {
            assert_eq!(ds.schema_name, "bar");
            assert!(ds.cascade);
        }
        other => panic!("Expected DropSchema, got: {:?}", other),
    }
}

#[test]
fn test_parse_drop_schema_restrict() {
    let nodes = drop_schema_nodes("DROP SCHEMA myschema RESTRICT;", &["myschema"], false, false);
    assert_eq!(nodes.len(), 1);
    match &nodes[0].node {
        IrNode::DropSchema(ds) => {
            assert_eq!(ds.schema_name, "myschema");
            assert!(!ds.cascade, "RESTRICT should map to cascade=false");
            assert!(!ds.if_exists);
        }
        other => panic!("Expected DropSchema, got: {:?}", other),
    }
}

#[test]
fn test_parse_do_block_as_unparseable() {
    let nodes = parse_sql("DO $$ BEGIN RAISE NOTICE 'hello'; END $$;", vec![NodeKind::DoStmt]);
    match &nodes[0].node {
        IrNode::Unparseable { .. } => {}
        other => panic!("Expected Unparseable for DO block, got: {:?}", other),
    }
}

#[test]
fn test_parse_grant_as_ignored() {
    let nodes = parse_sql("GRANT SELECT ON orders TO readonly;", vec![NodeKind::Other]);
    match &nodes[0].node {
        IrNode::Ignored { .. } => {}
        other => panic!("Expected Ignored for GRANT, got: {:?}", other),
    }
}

#[test]
fn test_parse_comment_on_as_ignored() {
    let nodes = parse_sql("COMMENT ON TABLE orders IS 'Order table';", vec![NodeKind::Other]);
    match &nodes[0].node {
        IrNode::Ignored { raw_sql } => assert_eq!(raw_sql, "COMMENT ON TABLE orders IS 'Order table'"),
        other => panic!("Expected Ignored for COMMENT ON, got: {:?}", other),
    }
}

#[test]
fn test_parse_multi_statement() {
    let sql = "CREATE TABLE foo (id int);\nCREATE INDEX idx ON foo (id);\nALTER TABLE foo ADD COLUMN name text;";
    let nodes = parse_sql(
        sql,
        vec![
            create_table(rv("", "foo"), vec![column("id", int4(), vec![])]),
            create_index("idx", rv("", "foo"), vec![index_elem("id")], false, false),
            alter_table(rv("", "foo"), vec![cmd(AlterTableType::AddColumn, "", Some(column("name", text(), vec![])))]),
        ],
    );
    assert_eq!(nodes.len(), 3);
    assert!(matches!(nodes[0].node, IrNode::CreateTable(_)));
    assert!(matches!(nodes[1].node, IrNode::CreateIndex(_)));
    assert!(matches!(nodes[2].node, IrNode::AlterTable(_)));
    assert_eq!(nodes[0].span.start_line, 1);
    assert_eq!(nodes[1].span.start_line, 2);
    assert_eq!(nodes[2].span.start_line, 3);
}

#[test]
fn test_parse_invalid_sql() {
    let nodes = ir_from_parse("THIS IS NOT VALID SQL AT ALL;", None);
    assert_eq!(nodes.len(), 1);
    assert!(matches!(nodes[0].node, IrNode::Unparseable { .. }));
}

#[test]
fn test_source_span_single_statement() {
    let nodes = parse_sql("CREATE TABLE foo (id int);", vec![create_table(rv("", "foo"), vec![column("id", int4(), vec![])])]);
    assert_eq!(nodes[0].span.start_line, 1);
    assert_eq!(nodes[0].span.end_line, 1);
    assert_eq!(nodes[0].span.start_offset, 0);
}

#[test]
fn test_source_span_multi_line_statement() {
    let sql = "CREATE TABLE foo (\n  id int,\n  name text\n);";
    let nodes = parse_sql(sql, vec![create_table(rv("", "foo"), vec![column("id", int4(), vec![]), column("name", text(), vec![])])]);
    assert_eq!(nodes[0].span.start_line, 1);
    assert_eq!(nodes[0].span.end_line, 4);
}

// Nullability, CHECK, serial and boolean defaults

fn colref(name: &str) -> Node {
    expr(NodeKind::ColumnRef { fields: strings(&[name]) }, name)
}

fn op(l: Node, r: Node, text: &str) -> Node {
    expr(NodeKind::AExpr { lexpr: Some(Box::new(l)), rexpr: Some(Box::new(r)) }, text)
}

fn bool_const(b: bool) -> Node {
    expr(NodeKind::AConst(Some(ConstValue::Boolval(b))), if b { "true" } else { "false" })
}

fn add_constraint(table: &str, c: Constraint) -> NodeKind {
    alter_table(rv("", table), vec![cmd(AlterTableType::AddConstraint, "", Some(node(NodeKind::Constraint(c))))])
}

fn first_action(nodes: &[Located<IrNode>]) -> &AlterTableAction {
    match &nodes[0].node {
        IrNode::AlterTable(at) => &at.actions[0],
        other => panic!("Expected AlterTable, got: {:?}", other),
    }
}

#[test]
fn test_nullable_column_default() {
    let nodes = parse_sql("CREATE TABLE t (name text);", vec![create_table(rv("", "t"), vec![column("name", text(), vec![])])]);
    match &nodes[0].node {
        IrNode::CreateTable(ct) => assert!(ct.columns[0].nullable, "Column without NOT NULL should be nullable"),
        other => panic!("Expected CreateTable, got: {:?}", other),
    }
}

#[test]
fn test_not_null_column() {
    let nodes = parse_sql(
        "CREATE TABLE t (name text NOT NULL);",
        vec![create_table(rv("", "t"), vec![column("name", text(), vec![constraint(ConstrType::NotNull)])])],
    );
    match &nodes[0].node {
        IrNode::CreateTable(ct) => assert!(!ct.columns[0].nullable, "Column with NOT NULL should not be nullable"),
        other => panic!("Expected CreateTable, got: {:?}", other),
    }
}

#[test]
fn test_primary_key_implies_not_null() {
    let nodes = parse_sql("CREATE TABLE t (id int PRIMARY KEY);", single_column_table(int4(), vec![constraint(ConstrType::Primary)]));
    match &nodes[0].node {
        IrNode::CreateTable(ct) => assert!(!ct.columns[0].nullable, "PRIMARY KEY column should not be nullable"),
        other => panic!("Expected CreateTable, got: {:?}", other),
    }
}

#[test]
fn test_parse_check_constraint() {
    let check = Constraint { raw_expr: Some(Box::new(op(colref("col"), int_const(0), "col > 0"))), ..constraint(ConstrType::Check) };
    let nodes = parse_sql(
        "CREATE TABLE t (col int, CHECK (col > 0));",
        vec![create_table(rv("", "t"), vec![column("col", int4(), vec![]), node(NodeKind::Constraint(check))])],
    );
    match &nodes[0].node {
        IrNode::CreateTable(ct) => {
            assert!(
                ct.constraints.iter().any(|c| matches!(c, TableConstraint::Check { .. })),
                "Expected CHECK constraint, got: {:?}",
                ct.constraints
            );
        }
        other => panic!("Expected CreateTable, got: {:?}", other),
    }
}

#[test]
fn test_parse_alter_add_column_serial() {
    let nodes = parse_sql(
        "ALTER TABLE t ADD COLUMN seq_id serial;",
        vec![alter_table(rv("", "t"), vec![cmd(AlterTableType::AddColumn, "", Some(column("seq_id", ty(&["serial"], &[]), vec![])))])],
    );
    match first_action(&nodes) {
        AlterTableAction::AddColumn(col) => {
            assert_eq!(col.data_type.name, "int4");
            assert!(matches!(col.default_expr, Some(DefaultExpr::FunctionCall { ref name, .. }) if name == "nextval"));
        }
        other => panic!("Expected AddColumn, got: {:?}", other),
    }
}

#[test]
fn test_parse_boolean_default() {
    let nodes = parse_sql(
        "CREATE TABLE t (active bool DEFAULT TRUE);",
        vec![create_table(rv("", "t"), vec![column("active", ty(&["pg_catalog", "bool"], &[]), vec![default_of(bool_const(true))])])],
    );
    match &nodes[0].node {
        IrNode::CreateTable(ct) => match &ct.columns[0].default_expr {
            Some(DefaultExpr::Literal(v)) => assert_eq!(v, "true"),
            other => panic!("Expected Literal default, got: {:?}", other),
        },
        other => panic!("Expected CreateTable, got: {:?}", other),
    }
}

fn add_pk_id() -> Vec<NodeKind> {
    vec![add_constraint("t", Constraint { keys: strings(&["id"]), ..constraint(ConstrType::Primary) })]
}

#[test]
fn test_parse_alter_table_add_primary_key() {
    let nodes = parse_sql("ALTER TABLE t ADD PRIMARY KEY (id);", add_pk_id());
    match first_action(&nodes) {
        AlterTableAction::AddConstraint(TableConstraint::PrimaryKey { columns, using_index }) => {
            assert_eq!(columns, &["id"]);
            assert_eq!(*using_index, None);
        }
        other => panic!("Expected AddConstraint PrimaryKey, got: {:?}", other),
    }
}

#[test]
fn test_parse_add_pk_using_index() {
    let pk = Constraint { indexname: "idx_foo".to_string(), ..constraint(ConstrType::Primary) };
    let nodes = parse_sql("ALTER TABLE t ADD PRIMARY KEY USING INDEX idx_foo;", vec![add_constraint("t", pk)]);
    match first_action(&nodes) {
        AlterTableAction::AddConstraint(TableConstraint::PrimaryKey { columns, using_index }) => {
            assert!(columns.is_empty(), "columns should be empty with USING INDEX");
            assert_eq!(using_index.as_deref(), Some("idx_foo"));
        }
        other => panic!("Expected AddConstraint PrimaryKey, got: {:?}", other),
    }
}

#[test]
fn test_parse_add_unique_using_index() {
    let uq = Constraint { conname: "uq_email".to_string(), indexname: "idx_email".to_string(), ..constraint(ConstrType::Unique) };
    let nodes = parse_sql("ALTER TABLE t ADD CONSTRAINT uq_email UNIQUE USING INDEX idx_email;", vec![add_constraint("t", uq)]);
    match first_action(&nodes) {
        AlterTableAction::AddConstraint(TableConstraint::Unique { name, columns, using_index }) => {
            assert_eq!(name.as_deref(), Some("uq_email"));
            assert!(columns.is_empty(), "columns should be empty with USING INDEX");
            assert_eq!(using_index.as_deref(), Some("idx_email"));
        }
        other => panic!("Expected AddConstraint Unique, got: {:?}", other),
    }
}

#[test]
fn test_parse_add_pk_without_using_index() {
    let nodes = parse_sql("ALTER TABLE t ADD PRIMARY KEY (id);", add_pk_id());
    match first_action(&nodes) {
        AlterTableAction::AddConstraint(TableConstraint::PrimaryKey { columns, using_index }) => {
            assert_eq!(columns, &["id"]);
            assert_eq!(*using_index, None);
        }
        other => panic!("Expected AddConstraint PrimaryKey, got: {:?}", other),
    }
}

#[test]
fn test_parse_inline_pk_no_using_index() {
    let nodes = parse_sql("CREATE TABLE t (id int PRIMARY KEY);", single_column_table(int4(), vec![constraint(ConstrType::Primary)]));
    match &nodes[0].node {
        IrNode::CreateTable(ct) => {
            let pk = ct
                .constraints
                .iter()
                .find(|c| matches!(c, TableConstraint::PrimaryKey { .. }))
                .expect("should have PK constraint");
            match pk {
                TableConstraint::PrimaryKey { columns, using_index } => {
                    assert_eq!(columns, &["id"]);
                    assert_eq!(*using_index, None);
                }
                _ => unreachable!(),
            }
        }
        other => panic!("Expected CreateTable, got: {:?}", other),
    }
}

#[test]
fn test_parse_inline_unique_no_using_index() {
    let nodes = parse_sql(
        "CREATE TABLE t (email text UNIQUE);",
        vec![create_table(rv("", "t"), vec![column("email", text(), vec![constraint(ConstrType::Unique)])])],
    );
    match &nodes[0].node {
        IrNode::CreateTable(ct) => {
            let uq = ct
                .constraints
                .iter()
                .find(|c| matches!(c, TableConstraint::Unique { .. }))
                .expect("should have UNIQUE constraint");
            match uq {
                TableConstraint::Unique { using_index, .. } => assert_eq!(*using_index, None),
                _ => unreachable!(),
            }
        }
        other => panic!("Expected CreateTable, got: {:?}", other),
    }
}

fn fk_customer(not_valid: bool) -> Vec<NodeKind> {
    let fk = Constraint {
        conname: "fk_customer".to_string(),
        fk_attrs: strings(&["customer_id"]),
        skip_validation: not_valid,
        ..references("customers", &["id"])
    };
    vec![add_constraint("orders", fk)]
}

#[test]
fn test_parse_add_fk_not_valid() {
    let sql = "ALTER TABLE orders ADD CONSTRAINT fk_customer FOREIGN KEY (customer_id) REFERENCES customers(id) NOT VALID;";
    let nodes = parse_sql(sql, fk_customer(true));
    assert_eq!(nodes.len(), 1);
    match &nodes[0].node {
        IrNode::AlterTable(at) => {
            assert_eq!(at.actions.len(), 1);
            match &at.actions[0] {
                AlterTableAction::AddConstraint(TableConstraint::ForeignKey { name, columns, ref_table, ref_columns, not_valid }) => {
                    assert_eq!(name.as_deref(), Some("fk_customer"));
                    assert_eq!(columns, &["customer_id"]);
                    assert_eq!(ref_table, &QualifiedName::unqualified("customers"));
                    assert_eq!(ref_columns, &["id"]);
                    assert!(*not_valid, "Expected not_valid to be true");
                }
                other => panic!("Expected AddConstraint ForeignKey, got: {:?}", other),
            }
        }
        other => panic!("Expected AlterTable, got: {:?}", other),
    }
}

#[test]
fn test_parse_add_fk_without_not_valid() {
    let sql = "ALTER TABLE orders ADD CONSTRAINT fk_customer FOREIGN KEY (customer_id) REFERENCES customers(id);";
    let nodes = parse_sql(sql, fk_customer(false));
    assert_eq!(nodes.len(), 1);
    match &nodes[0].node {
        IrNode::AlterTable(at) => {
            assert_eq!(at.actions.len(), 1);
            match &at.actions[0] {
                AlterTableAction::AddConstraint(TableConstraint::ForeignKey { not_valid, .. }) => {
                    assert!(!*not_valid, "Expected not_valid to be false")
                }
                other => panic!("Expected AddConstraint ForeignKey, got: {:?}", other),
            }
        }
        other => panic!("Expected AlterTable, got: {:?}", other),
    }
}

fn chk_amount(not_valid: bool) -> Vec<NodeKind> {
    let check = Constraint {
        conname: "chk_amount".to_string(),
        raw_expr: Some(Box::new(op(colref("amount"), int_const(0), "amount > 0"))),
        skip_validation: not_valid,
        ..constraint(ConstrType::Check)
    };
    vec![add_constraint("orders", check)]
}

#[test]
fn test_parse_add_check_not_valid() {
    let nodes = parse_sql("ALTER TABLE orders ADD CONSTRAINT chk_amount CHECK (amount > 0) NOT VALID;", chk_amount(true));
    assert_eq!(nodes.len(), 1);
    match &nodes[0].node {
        IrNode::AlterTable(at) => {
            assert_eq!(at.actions.len(), 1);
            match &at.actions[0] {
                AlterTableAction::AddConstraint(TableConstraint::Check { name, not_valid, .. }) => {
                    assert_eq!(name.as_deref(), Some("chk_amount"));
                    assert!(*not_valid, "Expected not_valid to be true");
                }
                other => panic!("Expected AddConstraint Check, got: {:?}", other),
            }
        }
        other => panic!("Expected AlterTable, got: {:?}", other),
    }
}

#[test]
fn test_parse_add_check_without_not_valid() {
    let nodes = parse_sql("ALTER TABLE orders ADD CONSTRAINT chk_amount CHECK (amount > 0);", chk_amount(false));
    assert_eq!(nodes.len(), 1);
    match &nodes[0].node {
        IrNode::AlterTable(at) => {
            assert_eq!(at.actions.len(), 1);
            match &at.actions[0] {
                AlterTableAction::AddConstraint(TableConstraint::Check { not_valid, .. }) => {
                    assert!(!*not_valid, "Expected not_valid to be false")
                }
                other => panic!("Expected AddConstraint Check, got: {:?}", other),
            }
        }
        other => panic!("Expected AlterTable, got: {:?}", other),
    }
}

// RENAME, persistence, IF NOT EXISTS, TRUNCATE, multi-target DROP

fn rename(rename_type: ObjectType, rel: RangeVar, subname: &str, newname: &str) -> NodeKind {
    NodeKind::RenameStmt(RenameStmt {
        rename_type,
        relation: Some(rel),
        subname: subname.to_string(),
        newname: newname.to_string(),
    })
}

fn persistent(name: &str, persistence: &str) -> RangeVar {
    RangeVar { relpersistence: persistence.to_string(), ..rv("", name) }
}

fn range_var_node(schema: &str, name: &str) -> Node {
    node(NodeKind::RangeVar(rv(schema, name)))
}

fn truncate(rels: Vec<Node>, cascade: bool) -> NodeKind {
    NodeKind::TruncateStmt { relations: rels, behavior: if cascade { DropBehavior::Cascade } else { DropBehavior::Restrict } }
}

#[test]
fn test_parse_rename_table() {
    let nodes = parse_sql("ALTER TABLE orders RENAME TO orders_v2;", vec![rename(ObjectType::Table, rv("", "orders"), "", "orders_v2")]);
    assert_eq!(nodes.len(), 1);
    match &nodes[0].node {
        IrNode::RenameTable { name, new_name } => {
            assert_eq!(name.name(), "orders");
            assert_eq!(new_name, "orders_v2");
        }
        other => panic!("Expected RenameTable, got: {:?}", other),
    }
}

#[test]
fn test_parse_rename_column() {
    let nodes = parse_sql(
        "ALTER TABLE orders RENAME COLUMN status TO order_status;",
        vec![rename(ObjectType::Column, rv("", "orders"), "status", "order_status")],
    );
    assert_eq!(nodes.len(), 1);
    match &nodes[0].node {
        IrNode::RenameColumn { table, old_name, new_name } => {
            assert_eq!(table.name(), "orders");
            assert_eq!(old_name, "status");
            assert_eq!(new_name, "order_status");
        }
        other => panic!("Expected RenameColumn, got: {:?}", other),
    }
}

#[test]
fn test_parse_rename_index_ignored() {
    let nodes = parse_sql("ALTER INDEX idx_foo RENAME TO idx_bar;", vec![rename(ObjectType::Index, rv("", "idx_foo"), "", "idx_bar")]);
    assert_eq!(nodes.len(), 1);
    match &nodes[0].node {
        IrNode::Ignored { .. } => {}
        other => panic!("Expected Ignored for ALTER INDEX RENAME, got: {:?}", other),
    }
}

#[test]
fn test_parse_drop_index_schema_qualified() {
    let nodes = parse_sql(
        "DROP INDEX myschema.idx_status;",
        vec![drop(ObjectType::Index, vec![name_list(&["myschema", "idx_status"])], false, false, false)],
    );
    match &nodes[0].node {
        IrNode::DropIndex(di) => {
            assert_eq!(di.index_name, "idx_status");
            assert!(!di.concurrent);
        }
        other => panic!("Expected DropIndex, got: {:?}", other),
    }
}

#[test]
fn test_parse_create_temp_table() {
    let nodes = parse_sql(
        "CREATE TEMP TABLE scratch (id int);",
        vec![create_table(persistent("scratch", "t"), vec![column("id", int4(), vec![])])],
    );
    match &nodes[0].node {
        IrNode::CreateTable(ct) => {
            assert_eq!(ct.name.name(), "scratch");
            assert_eq!(ct.persistence, TablePersistence::Temporary, "TEMP table should have Temporary persistence");
            assert_eq!(ct.columns.len(), 1);
        }
        other => panic!("Expected CreateTable, got: {:?}", other),
    }
}

#[test]
fn test_parse_create_temporary_table() {
    let nodes = parse_sql(
        "CREATE TEMPORARY TABLE scratch (id int);",
        vec![create_table(persistent("scratch", "t"), vec![column("id", int4(), vec![])])],
    );
    match &nodes[0].node {
        IrNode::CreateTable(ct) => {
            assert_eq!(ct.persistence, TablePersistence::Temporary, "TEMPORARY table should have Temporary persistence")
        }
        other => panic!("Expected CreateTable, got: {:?}", other),
    }
}

#[test]
fn test_regular_table_not_temporary() {
    let nodes = parse_sql("CREATE TABLE regular (id int);", vec![create_table(rv("", "regular"), vec![column("id", int4(), vec![])])]);
    match &nodes[0].node {
        IrNode::CreateTable(ct) => {
            assert_eq!(ct.persistence, TablePersistence::Permanent, "Regular table should have Permanent persistence")
        }
        other => panic!("Expected CreateTable, got: {:?}", other),
    }
}

#[test]
fn test_parse_create_unlogged_table() {
    let nodes = parse_sql(
        "CREATE UNLOGGED TABLE scratch (id int, payload text);",
        vec![create_table(persistent("scratch", "u"), vec![column("id", int4(), vec![]), column("payload", text(), vec![])])],
    );
    match &nodes[0].node {
        IrNode::CreateTable(ct) => {
            assert_eq!(ct.name.name(), "scratch");
            assert_eq!(ct.persistence, TablePersistence::Unlogged, "UNLOGGED table should have Unlogged persistence");
            assert_eq!(ct.columns.len(), 2);
        }
        other => panic!("Expected CreateTable, got: {:?}", other),
    }
}

#[test]
fn test_parse_create_table_if_not_exists() {
    let stmt = match create_table(rv("", "orders"), vec![column("id", int4(), vec![])]) {
        NodeKind::CreateStmt(c) => NodeKind::CreateStmt(CreateStmt { if_not_exists: true, ..c }),
        _ => unreachable!(),
    };
    let nodes = parse_sql("CREATE TABLE IF NOT EXISTS orders (id int);", vec![stmt]);
    match &nodes[0].node {
        IrNode::CreateTable(ct) => {
            assert_eq!(ct.name, QualifiedName::unqualified("orders"));
            assert!(ct.if_not_exists);
        }
        other => panic!("Expected CreateTable, got: {:?}", other),
    }
}

#[test]
fn test_parse_create_index_if_not_exists() {
    let stmt = match create_index("idx_status", rv("", "orders"), vec![index_elem("status")], false, false) {
        NodeKind::IndexStmt(i) => NodeKind::IndexStmt(IndexStmt { if_not_exists: true, ..i }),
        _ => unreachable!(),
    };
    let nodes = parse_sql("CREATE INDEX IF NOT EXISTS idx_status ON orders (status);", vec![stmt]);
    match &nodes[0].node {
        IrNode::CreateIndex(ci) => {
            assert_eq!(ci.index_name, Some("idx_status".to_string()));
            assert!(ci.if_not_exists);
        }
        other => panic!("Expected CreateIndex, got: {:?}", other),
    }
}

#[test]
fn test_parse_truncate_table() {
    let nodes = parse_sql("TRUNCATE TABLE foo;", vec![truncate(vec![range_var_node("", "foo")], false)]);
    assert_eq!(nodes.len(), 1);
    match &nodes[0].node {
        IrNode::TruncateTable(tt) => {
            assert_eq!(tt.name, QualifiedName::unqualified("foo"));
            assert!(!tt.cascade);
        }
        other => panic!("Expected TruncateTable, got: {:?}", other),
    }
}

#[test]
fn test_parse_truncate_table_cascade() {
    let nodes = parse_sql("TRUNCATE TABLE foo CASCADE;", vec![truncate(vec![range_var_node("", "foo")], true)]);
    assert_eq!(nodes.len(), 1);
    match &nodes[0].node {
        IrNode::TruncateTable(tt) => {
            assert_eq!(tt.name, QualifiedName::unqualified("foo"));
            assert!(tt.cascade);
        }
        other => panic!("Expected TruncateTable, got: {:?}", other),
    }
}

#[test]
fn test_parse_truncate_multi_table() {
    let rels = vec![range_var_node("", "t1"), range_var_node("", "t2"), range_var_node("", "t3")];
    let nodes = parse_sql("TRUNCATE TABLE t1, t2, t3 CASCADE;", vec![truncate(rels, true)]);
    assert_eq!(nodes.len(), 3);
    let names: Vec<&str> = nodes
        .iter()
        .map(|n| match &n.node {
            IrNode::TruncateTable(tt) => {
                assert!(tt.cascade);
                tt.name.name().as_str()
            }
            other => panic!("Expected TruncateTable, got: {:?}", other),
        })
        .collect();
    assert_eq!(names, vec!["t1", "t2", "t3"]);
}

#[test]
fn test_parse_drop_table_multi() {
    let nodes = parse_sql(
        "DROP TABLE t1, t2;",
        vec![drop(ObjectType::Table, vec![name_list(&["t1"]), name_list(&["t2"])], false, false, false)],
    );
    assert_eq!(nodes.len(), 2);
    match &nodes[0].node {
        IrNode::DropTable(dt) => assert_eq!(dt.name, QualifiedName::unqualified("t1")),
        other => panic!("Expected DropTable, got: {:?}", other),
    }
    match &nodes[1].node {
        IrNode::DropTable(dt) => assert_eq!(dt.name, QualifiedName::unqualified("t2")),
        other => panic!("Expected DropTable, got: {:?}", other),
    }
}

#[test]
fn test_parse_drop_index_multi() {
    let nodes = parse_sql(
        "DROP INDEX idx1, idx2;",
        vec![drop(ObjectType::Index, vec![name_list(&["idx1"]), name_list(&["idx2"])], false, false, false)],
    );
    assert_eq!(nodes.len(), 2);
    match &nodes[0].node {
        IrNode::DropIndex(di) => assert_eq!(di.index_name, "idx1"),
        other => panic!("Expected DropIndex, got: {:?}", other),
    }
    match &nodes[1].node {
        IrNode::DropIndex(di) => assert_eq!(di.index_name, "idx2"),
        other => panic!("Expected DropIndex, got: {:?}", other),
    }
}

fn assert_single_ignored(nodes: &[Located<IrNode>], what: &str) {
    assert_eq!(nodes.len(), 1);
    match &nodes[0].node {
        IrNode::Ignored { .. } => {}
        other => panic!("Expected Ignored for {}, got: {:?}", what, other),
    }
}

#[test]
fn test_parse_drop_view_ignored() {
    let nodes = parse_sql("DROP VIEW my_view;", vec![drop(ObjectType::Other, vec![name_list(&["my_view"])], false, false, false)]);
    assert_single_ignored(&nodes, "DROP VIEW");
}

#[test]
fn test_parse_drop_sequence_ignored() {
    let nodes = parse_sql("DROP SEQUENCE my_seq;", vec![drop(ObjectType::Other, vec![name_list(&["my_seq"])], false, false, false)]);
    assert_single_ignored(&nodes, "DROP SEQUENCE");
}

#[test]
fn test_parse_drop_type_ignored() {
    let nodes = parse_sql("DROP TYPE my_type;", vec![drop(ObjectType::Other, vec![name_list(&["my_type"])], false, false, false)]);
    assert_single_ignored(&nodes, "DROP TYPE");
}

#[test]
fn test_parse_truncate_schema_qualified() {
    let nodes = parse_sql("TRUNCATE TABLE myschema.foo;", vec![truncate(vec![range_var_node("myschema", "foo")], false)]);
    assert_eq!(nodes.len(), 1);
    match &nodes[0].node {
        IrNode::TruncateTable(tt) => {
            assert_eq!(tt.name, QualifiedName::qualified("myschema", "foo"));
            assert!(!tt.cascade);
        }
        other => panic!("Expected TruncateTable, got: {:?}", other),
    }
}

// Single- and multi-target DROP and TRUNCATE forms

fn first_drop_table(nodes: &[Located<IrNode>]) -> (QualifiedName, bool, bool) {
    assert_eq!(nodes.len(), 1);
    match &nodes[0].node {
        IrNode::DropTable(dt) => (dt.name.clone(), dt.cascade, dt.if_exists),
        other => panic!("Expected DropTable, got: {:?}", other),
    }
}

fn first_drop_index(nodes: &[Located<IrNode>]) -> (String, bool, bool) {
    assert_eq!(nodes.len(), 1);
    match &nodes[0].node {
        IrNode::DropIndex(di) => (di.index_name.clone(), di.concurrent, di.if_exists),
        other => panic!("Expected DropIndex, got: {:?}", other),
    }
}

#[test]
fn test_parse_drop_table_single_no_cascade_no_if_exists() {
    let nodes = parse_sql("DROP TABLE foo;", vec![drop(ObjectType::Table, vec![name_list(&["foo"])], false, false, false)]);
    let (name, cascade, if_exists) = first_drop_table(&nodes);
    assert_eq!(name, QualifiedName::unqualified("foo"));
    assert!(!cascade);
    assert!(!if_exists);
}

#[test]
fn test_parse_drop_table_if_exists() {
    let nodes = parse_sql("DROP TABLE IF EXISTS foo;", vec![drop(ObjectType::Table, vec![name_list(&["foo"])], false, true, false)]);
    let (name, cascade, if_exists) = first_drop_table(&nodes);
    assert_eq!(name, QualifiedName::unqualified("foo"));
    assert!(!cascade);
    assert!(if_exists);
}

#[test]
fn test_parse_drop_table_cascade_without_if_exists() {
    let nodes = parse_sql("DROP TABLE foo CASCADE;", vec![drop(ObjectType::Table, vec![name_list(&["foo"])], true, false, false)]);
    let (name, cascade, if_exists) = first_drop_table(&nodes);
    assert_eq!(name, QualifiedName::unqualified("foo"));
    assert!(cascade);
    assert!(!if_exists);
}

#[test]
fn test_parse_drop_index_single() {
    let nodes = parse_sql("DROP INDEX foo;", vec![drop(ObjectType::Index, vec![name_list(&["foo"])], false, false, false)]);
    let (name, concurrent, if_exists) = first_drop_index(&nodes);
    assert_eq!(name, "foo");
    assert!(!concurrent);
    assert!(!if_exists);
}

#[test]
fn test_parse_drop_index_if_exists() {
    let nodes = parse_sql("DROP INDEX IF EXISTS foo;", vec![drop(ObjectType::Index, vec![name_list(&["foo"])], false, true, false)]);
    let (name, concurrent, if_exists) = first_drop_index(&nodes);
    assert_eq!(name, "foo");
    assert!(!concurrent);
    assert!(if_exists);
}

#[test]
fn test_parse_drop_index_concurrently_if_exists() {
    let nodes = parse_sql(
        "DROP INDEX CONCURRENTLY IF EXISTS foo;",
        vec![drop(ObjectType::Index, vec![name_list(&["foo"])], false, true, true)],
    );
    let (name, concurrent, if_exists) = first_drop_index(&nodes);
    assert_eq!(name, "foo");
    assert!(concurrent);
    assert!(if_exists);
}

#[test]
fn test_parse_drop_table_schema_qualified() {
    let nodes = parse_sql(
        "DROP TABLE myschema.foo;",
        vec![drop(ObjectType::Table, vec![name_list(&["myschema", "foo"])], false, false, false)],
    );
    let (name, cascade, if_exists) = first_drop_table(&nodes);
    assert_eq!(name, QualifiedName::qualified("myschema", "foo"));
    assert!(!cascade);
    assert!(!if_exists);
}

#[test]
fn test_parse_drop_index_schema_qualified_with_flags() {
    let nodes = parse_sql(
        "DROP INDEX CONCURRENTLY IF EXISTS myschema.idx_foo;",
        vec![drop(ObjectType::Index, vec![name_list(&["myschema", "idx_foo"])], false, true, true)],
    );
    let (name, concurrent, if_exists) = first_drop_index(&nodes);
    assert_eq!(name, "idx_foo");
    assert!(concurrent);
    assert!(if_exists);
}

#[test]
fn test_parse_drop_table_three_part_name() {
    let nodes = parse_sql(
        "DROP TABLE mycat.myschema.foo;",
        vec![drop(ObjectType::Table, vec![name_list(&["mycat", "myschema", "foo"])], false, false, false)],
    );
    let (name, cascade, if_exists) = first_drop_table(&nodes);
    assert_eq!(name, QualifiedName::qualified("myschema", "foo"));
    assert!(!cascade);
    assert!(!if_exists);
}

#[test]
fn test_parse_drop_table_multi_mixed_qualified() {
    let nodes = parse_sql(
        "DROP TABLE foo, myschema.bar;",
        vec![drop(ObjectType::Table, vec![name_list(&["foo"]), name_list(&["myschema", "bar"])], false, false, false)],
    );
    assert_eq!(nodes.len(), 2);
    match &nodes[0].node {
        IrNode::DropTable(dt) => assert_eq!(dt.name, QualifiedName::unqualified("foo")),
        other => panic!("Expected DropTable for foo, got: {:?}", other),
    }
    match &nodes[1].node {
        IrNode::DropTable(dt) => assert_eq!(dt.name, QualifiedName::qualified("myschema", "bar")),
        other => panic!("Expected DropTable for bar, got: {:?}", other),
    }
}

#[test]
fn test_parse_drop_table_multi_cascade_if_exists() {
    let nodes = parse_sql(
        "DROP TABLE IF EXISTS t1, t2 CASCADE;",
        vec![drop(ObjectType::Table, vec![name_list(&["t1"]), name_list(&["t2"])], true, true, false)],
    );
    assert_eq!(nodes.len(), 2);
    for (i, expected_name) in ["t1", "t2"].iter().enumerate() {
        match &nodes[i].node {
            IrNode::DropTable(dt) => {
                assert_eq!(dt.name, QualifiedName::unqualified(expected_name));
                assert!(dt.cascade, "Expected cascade for {}", expected_name);
                assert!(dt.if_exists, "Expected if_exists for {}", expected_name);
            }
            other => panic!("Expected DropTable for {}, got: {:?}", expected_name, other),
        }
    }
}

#[test]
fn test_parse_drop_index_multi_schema_qualified() {
    let nodes = parse_sql(
        "DROP INDEX myschema.idx1, myschema.idx2;",
        vec![drop(ObjectType::Index, vec![name_list(&["myschema", "idx1"]), name_list(&["myschema", "idx2"])], false, false, false)],
    );
    assert_eq!(nodes.len(), 2);
    match &nodes[0].node {
        IrNode::DropIndex(di) => assert_eq!(di.index_name, "idx1"),
        other => panic!("Expected DropIndex for idx1, got: {:?}", other),
    }
    match &nodes[1].node {
        IrNode::DropIndex(di) => assert_eq!(di.index_name, "idx2"),
        other => panic!("Expected DropIndex for idx2, got: {:?}", other),
    }
}

#[test]
fn test_parse_truncate_bare() {
    let nodes = parse_sql("TRUNCATE foo;", vec![truncate(vec![range_var_node("", "foo")], false)]);
    assert_eq!(nodes.len(), 1);
    match &nodes[0].node {
        IrNode::TruncateTable(tt) => {
            assert_eq!(tt.name, QualifiedName::unqualified("foo"));
            assert!(!tt.cascade);
        }
        other => panic!("Expected TruncateTable, got: {:?}", other),
    }
}

#[test]
fn test_parse_truncate_multi_schema_qualified() {
    let nodes = parse_sql(
        "TRUNCATE TABLE myschema.t1, public.t2 CASCADE;",
        vec![truncate(vec![range_var_node("myschema", "t1"), range_var_node("public", "t2")], true)],
    );
    assert_eq!(nodes.len(), 2);
    match &nodes[0].node {
        IrNode::TruncateTable(tt) => {
            assert_eq!(tt.name, QualifiedName::qualified("myschema", "t1"));
            assert!(tt.cascade);
        }
        other => panic!("Expected TruncateTable, got: {:?}", other),
    }
    match &nodes[1].node {
        IrNode::TruncateTable(tt) => {
            assert_eq!(tt.name, QualifiedName::qualified("public", "t2"));
            assert!(tt.cascade);
        }
        other => panic!("Expected TruncateTable, got: {:?}", other),
    }
}

// Statements the IR ignores, DML, other ALTER TABLE subcommands, defaults

fn assert_ignored(sql: &str, kind: NodeKind) {
    let nodes = parse_sql(sql, vec![kind]);
    assert_eq!(nodes.len(), 1);
    assert!(matches!(nodes[0].node, IrNode::Ignored { .. }), "Expected Ignored, got: {:?}", nodes[0].node);
}

#[test]
fn test_parse_create_view_ignored() {
    assert_ignored("CREATE VIEW v AS SELECT 1;", NodeKind::Other);
}

#[test]
fn test_parse_create_function_ignored() {
    assert_ignored("CREATE FUNCTION add(a int, b int) RETURNS int AS 'SELECT a + b' LANGUAGE sql;", NodeKind::Other);
}

#[test]
fn test_parse_create_sequence_ignored() {
    assert_ignored("CREATE SEQUENCE order_seq START 1;", NodeKind::Other);
}

#[test]
fn test_parse_create_extension_ignored() {
    assert_ignored("CREATE EXTENSION IF NOT EXISTS pgcrypto;", NodeKind::Other);
}

#[test]
fn test_parse_create_type_ignored() {
    assert_ignored("CREATE TYPE mood AS ENUM ('sad', 'ok', 'happy');", NodeKind::Other);
}

#[test]
fn test_parse_insert() {
    let nodes = parse_sql("INSERT INTO foo (id) VALUES (1);", vec![NodeKind::InsertStmt { relation: Some(rv("", "foo")) }]);
    assert_eq!(nodes.len(), 1);
    match &nodes[0].node {
        IrNode::InsertInto(ii) => assert_eq!(ii.table_name.name(), "foo"),
        other => panic!("Expected InsertInto, got: {:?}", other),
    }
}

#[test]
fn test_parse_insert_schema_qualified() {
    let nodes = parse_sql(
        "INSERT INTO myschema.foo (id) VALUES (1);",
        vec![NodeKind::InsertStmt { relation: Some(rv("myschema", "foo")) }],
    );
    assert_eq!(nodes.len(), 1);
    match &nodes[0].node {
        IrNode::InsertInto(ii) => assert_eq!(ii.table_name, QualifiedName::qualified("myschema", "foo")),
        other => panic!("Expected InsertInto, got: {:?}", other),
    }
}

#[test]
fn test_parse_update() {
    let nodes = parse_sql("UPDATE foo SET bar = 1 WHERE id = 2;", vec![NodeKind::UpdateStmt { relation: Some(rv("", "foo")) }]);
    assert_eq!(nodes.len(), 1);
    match &nodes[0].node {
        IrNode::UpdateTable(ut) => assert_eq!(ut.table_name.name(), "foo"),
        other => panic!("Expected UpdateTable, got: {:?}", other),
    }
}

#[test]
fn test_parse_delete() {
    let nodes = parse_sql("DELETE FROM foo WHERE id = 1;", vec![NodeKind::DeleteStmt { relation: Some(rv("", "foo")) }]);
    assert_eq!(nodes.len(), 1);
    match &nodes[0].node {
        IrNode::DeleteFrom(df) => assert_eq!(df.table_name.name(), "foo"),
        other => panic!("Expected DeleteFrom, got: {:?}", other),
    }
}

#[test]
fn test_parse_select_ignored() {
    assert_ignored("SELECT * FROM foo;", NodeKind::Other);
}

#[test]
fn test_parse_set_ignored() {
    assert_ignored("SET search_path TO myschema;", NodeKind::Other);
}

#[test]
fn test_parse_revoke_ignored() {
    assert_ignored("REVOKE SELECT ON orders FROM readonly;", NodeKind::Other);
}

#[test]
fn test_parse_create_trigger_ignored() {
    assert_ignored("CREATE TRIGGER trg BEFORE INSERT ON foo FOR EACH ROW EXECUTE FUNCTION bar();", NodeKind::Other);
}

#[test]
fn test_parse_alter_table_enable_trigger_as_other() {
    let nodes = parse_sql(
        "ALTER TABLE foo ENABLE TRIGGER ALL;",
        vec![alter_table(rv("", "foo"), vec![cmd(AlterTableType::Other("AtEnableTrigAll".to_string()), "", None)])],
    );
    assert_eq!(nodes.len(), 1);
    match &nodes[0].node {
        IrNode::AlterTable(at) => {
            assert_eq!(at.name.name(), "foo");
            assert_eq!(at.actions.len(), 1);
            assert!(matches!(at.actions[0], AlterTableAction::Other { .. }));
        }
        other => panic!("Expected AlterTable, got: {:?}", other),
    }
}

#[test]
fn test_parse_alter_table_owner_as_other() {
    let nodes = parse_sql(
        "ALTER TABLE foo OWNER TO new_owner;",
        vec![alter_table(rv("", "foo"), vec![cmd(AlterTableType::Other("AtChangeOwner".to_string()), "", None)])],
    );
    assert_eq!(nodes.len(), 1);
    match &nodes[0].node {
        IrNode::AlterTable(at) => {
            assert_eq!(at.actions.len(), 1);
            assert!(matches!(at.actions[0], AlterTableAction::Other { .. }));
        }
        IrNode::Ignored { .. } => {}
        other => panic!("Expected AlterTable or Ignored, got: {:?}", other),
    }
}

#[test]
fn test_parse_alter_table_drop_not_null() {
    let nodes = parse_sql(
        "ALTER TABLE foo ALTER COLUMN bar DROP NOT NULL;",
        vec![alter_table(rv("", "foo"), vec![cmd(AlterTableType::DropNotNull, "bar", None)])],
    );
    assert_eq!(nodes.len(), 1);
    match &nodes[0].node {
        IrNode::AlterTable(at) => {
            assert_eq!(at.actions.len(), 1);
            match &at.actions[0] {
                AlterTableAction::DropNotNull { column_name } => assert_eq!(column_name, "bar"),
                other => panic!("Expected DropNotNull action, got: {:?}", other),
            }
        }
        other => panic!("Expected AlterTable, got: {:?}", other),
    }
}

fn constraint_cmd(sql: &str, subtype: AlterTableType) -> Vec<Located<IrNode>> {
    parse_sql(sql, vec![alter_table(rv("", "orders"), vec![cmd(subtype, "fk_customer", None)])])
}

#[test]
fn test_parse_alter_table_drop_constraint() {
    let nodes = constraint_cmd("ALTER TABLE orders DROP CONSTRAINT fk_customer;", AlterTableType::DropConstraint);
    assert_eq!(nodes.len(), 1);
    match &nodes[0].node {
        IrNode::AlterTable(at) => {
            assert_eq!(at.name.name(), "orders");
            assert_eq!(at.actions.len(), 1);
            match &at.actions[0] {
                AlterTableAction::DropConstraint { constraint_name } => assert_eq!(constraint_name, "fk_customer"),
                other => panic!("Expected DropConstraint action, got: {:?}", other),
            }
        }
        other => panic!("Expected AlterTable, got: {:?}", other),
    }
}

#[test]
fn test_parse_alter_table_validate_constraint() {
    let nodes = constraint_cmd("ALTER TABLE orders VALIDATE CONSTRAINT fk_customer;", AlterTableType::ValidateConstraint);
    assert_eq!(nodes.len(), 1);
    match &nodes[0].node {
        IrNode::AlterTable(at) => {
            assert_eq!(at.name.name(), "orders");
            assert_eq!(at.actions.len(), 1);
            match &at.actions[0] {
                AlterTableAction::ValidateConstraint { constraint_name } => assert_eq!(constraint_name, "fk_customer"),
                other => panic!("Expected ValidateConstraint action, got: {:?}", other),
            }
        }
        other => panic!("Expected AlterTable, got: {:?}", other),
    }
}

#[test]
fn test_parse_alter_table_drop_constraint_if_exists() {
    let nodes = constraint_cmd("ALTER TABLE orders DROP CONSTRAINT IF EXISTS fk_customer;", AlterTableType::DropConstraint);
    assert_eq!(nodes.len(), 1);
    match &nodes[0].node {
        IrNode::AlterTable(at) => {
            assert_eq!(at.name.name(), "orders");
            assert_eq!(at.actions.len(), 1);
            match &at.actions[0] {
                AlterTableAction::DropConstraint { constraint_name } => assert_eq!(constraint_name, "fk_customer"),
                other => panic!("Expected DropConstraint action, got: {:?}", other),
            }
        }
        other => panic!("Expected AlterTable, got: {:?}", other),
    }
}

fn default_of_column(sql: &str, t: TypeNameNode, e: Node) -> Option<DefaultExpr> {
    let nodes = parse_sql(sql, vec![create_table(rv("", "t"), vec![column("c", t, vec![default_of(e)])])]);
    match &nodes[0].node {
        IrNode::CreateTable(ct) => ct.columns[0].default_expr.clone(),
        other => panic!("Expected CreateTable, got: {:?}", other),
    }
}

#[test]
fn test_parse_default_float_literal() {
    let e = expr(NodeKind::AConst(Some(ConstValue::Fval("9.99".to_string()))), "9.99");
    let d = default_of_column("CREATE TABLE t (price numeric DEFAULT 9.99);", ty(&["pg_catalog", "numeric"], &[]), e);
    assert!(d.is_some());
    assert_eq!(d, Some(DefaultExpr::Literal("9.99".to_string())));
}

#[test]
fn test_parse_default_null() {
    let e = expr(NodeKind::AConst(None), "NULL");
    let d = default_of_column("CREATE TABLE t (name text DEFAULT NULL);", text(), e);
    assert!(d.is_some());
    assert_eq!(d, Some(DefaultExpr::Literal("NULL".to_string())));
}

#[test]
fn test_parse_default_typecast() {
    let e = expr(
        NodeKind::TypeCast { arg: Some(Box::new(str_const("2024-01-01"))) },
        "'2024-01-01'::timestamp with time zone",
    );
    let d = default_of_column(
        "CREATE TABLE t (ts timestamptz DEFAULT '2024-01-01'::timestamptz);",
        ty(&["pg_catalog", "timestamptz"], &[]),
        e,
    );
    assert!(matches!(d, Some(DefaultExpr::Other(_))));
}

#[test]
fn test_parse_default_expression() {
    let e = op(int_const(1), int_const(2), "1 + 2");
    let d = default_of_column("CREATE TABLE t (computed int DEFAULT 1 + 2);", int4(), e);
    assert!(d.is_some());
    assert_eq!(d, Some(DefaultExpr::Other("1 + 2".to_string())));
}

#[test]
fn test_parse_create_index_without_name() {
    let nodes = parse_sql("CREATE INDEX ON foo (bar);", vec![create_index("", rv("", "foo"), vec![index_elem("bar")], false, false)]);
    match &nodes[0].node {
        IrNode::CreateIndex(ci) => {
            assert!(ci.index_name.is_none());
            assert_eq!(ci.table_name.name(), "foo");
        }
        other => panic!("Expected CreateIndex, got: {:?}", other),
    }
}

#[test]
fn test_parse_rename_schema_ignored() {
    let nodes = parse_sql(
        "ALTER SEQUENCE my_seq RENAME TO new_seq;",
        vec![rename(ObjectType::Other, rv("", "my_seq"), "", "new_seq")],
    );
    assert_eq!(nodes.len(), 1);
    assert!(
        matches!(nodes[0].node, IrNode::Ignored { .. }),
        "Expected Ignored for ALTER SEQUENCE RENAME, got: {:?}",
        nodes[0].node
    );
}

#[test]
fn test_parse_drop_index_if_exists_coverage() {
    let nodes = parse_sql("DROP INDEX IF EXISTS idx_foo;", vec![drop(ObjectType::Index, vec![name_list(&["idx_foo"])], false, true, false)]);
    match &nodes[0].node {
        IrNode::DropIndex(di) => {
            assert_eq!(di.index_name, "idx_foo");
            assert!(di.if_exists);
        }
        other => panic!("Expected DropIndex, got: {:?}", other),
    }
}

fn add_column_with(table: &str, col: Node) -> Vec<NodeKind> {
    vec![alter_table(rv("", table), vec![cmd(AlterTableType::AddColumn, "", Some(col))])]
}

#[test]
fn test_parse_alter_table_add_column_with_inline_fk() {
    let nodes = parse_sql(
        "ALTER TABLE orders ADD COLUMN customer_id int REFERENCES customers(id);",
        add_column_with("orders", column("customer_id", int4(), vec![references("customers", &["id"])])),
    );
    match &nodes[0].node {
        IrNode::AlterTable(at) => {
            assert!(at.actions.len() >= 2, "Expected at least 2 actions (AddColumn + FK), got {}", at.actions.len());
            assert!(matches!(at.actions[0], AlterTableAction::AddColumn(_)));
            assert!(matches!(at.actions[1], AlterTableAction::AddConstraint(TableConstraint::ForeignKey { .. })));
        }
        other => panic!("Expected AlterTable, got: {:?}", other),
    }
}

#[test]
fn test_parse_alter_table_add_column_with_inline_unique() {
    let nodes = parse_sql(
        "ALTER TABLE t ADD COLUMN email text UNIQUE;",
        add_column_with("t", column("email", text(), vec![constraint(ConstrType::Unique)])),
    );
    match &nodes[0].node {
        IrNode::AlterTable(at) => {
            assert!(at.actions.len() >= 2);
            assert!(matches!(at.actions[0], AlterTableAction::AddColumn(_)));
            assert!(matches!(at.actions[1], AlterTableAction::AddConstraint(TableConstraint::Unique { .. })));
        }
        other => panic!("Expected AlterTable, got: {:?}", other),
    }
}

#[test]
fn test_parse_alter_table_add_column_with_inline_check() {
    let check = Constraint { raw_expr: Some(Box::new(op(colref("age"), int_const(0), "age > 0"))), ..constraint(ConstrType::Check) };
    let nodes = parse_sql("ALTER TABLE t ADD COLUMN age int CHECK (age > 0);", add_column_with("t", column("age", int4(), vec![check])));
    match &nodes[0].node {
        IrNode::AlterTable(at) => {
            assert!(at.actions.len() >= 2);
            assert!(matches!(at.actions[0], AlterTableAction::AddColumn(_)));
            assert!(matches!(at.actions[1], AlterTableAction::AddConstraint(TableConstraint::Check { .. })));
        }
        other => panic!("Expected AlterTable, got: {:?}", other),
    }
}

#[test]
fn test_parse_create_table_with_named_check() {
    let check = Constraint {
        conname: "chk_col".to_string(),
        raw_expr: Some(Box::new(op(colref("col"), int_const(0), "col > 0"))),
        ..constraint(ConstrType::Check)
    };
    let nodes = parse_sql(
        "CREATE TABLE t (col int, CONSTRAINT chk_col CHECK (col > 0));",
        vec![create_table(rv("", "t"), vec![column("col", int4(), vec![]), node(NodeKind::Constraint(check))])],
    );
    match &nodes[0].node {
        IrNode::CreateTable(ct) => {
            let check = ct.constraints.iter().find(|c| matches!(c, TableConstraint::Check { .. }));
            assert!(check.is_some());
            match check.unwrap() {
                TableConstraint::Check { name, expression, .. } => {
                    assert_eq!(name.as_deref(), Some("chk_col"));
                    assert_eq!(expression, "col > 0");
                }
                _ => unreachable!(),
            }
        }
        other => panic!("Expected CreateTable, got: {:?}", other),
    }
}

#[test]
fn test_parse_drop_function_ignored() {
    let nodes = parse_sql("DROP FUNCTION my_func(int);", vec![drop(ObjectType::Other, vec![node(NodeKind::Other)], false, false, false)]);
    assert_single_ignored(&nodes, "DROP FUNCTION");
}

#[test]
fn test_parse_create_schema_ignored() {
    assert_ignored("CREATE SCHEMA myschema;", NodeKind::Other);
}

#[test]
fn test_parse_alter_sequence_ignored() {
    assert_ignored("ALTER SEQUENCE order_seq RESTART WITH 1000;", NodeKind::Other);
}

fn cluster(rel: RangeVar, index: &str) -> NodeKind {
    NodeKind::ClusterStmt { relation: Some(rel), indexname: index.to_string() }
}

#[test]
fn test_parse_cluster_with_index() {
    let nodes = parse_sql("CLUSTER customers USING idx_customers_email;", vec![cluster(rv("", "customers"), "idx_customers_email")]);
    assert_eq!(nodes.len(), 1);
    match &nodes[0].node {
        IrNode::Cluster(c) => {
            assert_eq!(c.table, QualifiedName::unqualified("customers"));
            assert_eq!(c.index.as_deref(), Some("idx_customers_email"));
        }
        other => panic!("Expected Cluster, got: {:?}", other),
    }
}

#[test]
fn test_parse_cluster_without_index() {
    let nodes = parse_sql("CLUSTER events;", vec![cluster(rv("", "events"), "")]);
    assert_eq!(nodes.len(), 1);
    match &nodes[0].node {
        IrNode::Cluster(c) => {
            assert_eq!(c.table, QualifiedName::unqualified("events"));
            assert!(c.index.is_none());
        }
        other => panic!("Expected Cluster, got: {:?}", other),
    }
}

#[test]
fn test_parse_cluster_schema_qualified() {
    let nodes = parse_sql("CLUSTER myschema.orders USING idx_orders_id;", vec![cluster(rv("myschema", "orders"), "idx_orders_id")]);
    assert_eq!(nodes.len(), 1);
    match &nodes[0].node {
        IrNode::Cluster(c) => {
            assert_eq!(c.table.schema().map(|s| s.as_str()), Some("myschema"));
            assert_eq!(c.table.name(), "orders");
            assert_eq!(c.index.as_deref(), Some("idx_orders_id"));
        }
        other => panic!("Expected Cluster, got: {:?}", other),
    }
}

// Expression and partial indexes; the columns an expression refers to

fn func(name: &str, args: Vec<Node>, text: &str) -> Node {
    expr(NodeKind::FuncCall { funcname: strings(&[name]), args }, text)
}

fn cast(arg: Node, text: &str) -> Node {
    expr(NodeKind::TypeCast { arg: Some(Box::new(arg)) }, text)
}

fn expr_elem(e: Node) -> Node {
    node(NodeKind::IndexElem { name: String::new(), expr: Some(Box::new(e)) })
}

fn index_with_where(name: &str, table: &str, params: Vec<Node>, unique: bool, wc: Node) -> NodeKind {
    match create_index(name, rv("", table), params, unique, false) {
        NodeKind::IndexStmt(i) => NodeKind::IndexStmt(IndexStmt { where_clause: Some(Box::new(wc)), ..i }),
        _ => unreachable!(),
    }
}

fn lower_email() -> Node {
    func("lower", vec![colref("email")], "lower(email)")
}

#[test]
fn test_parse_expression_index() {
    let nodes = parse_sql(
        "CREATE INDEX idx_email_lower ON users (LOWER(email));",
        vec![create_index("idx_email_lower", rv("", "users"), vec![expr_elem(lower_email())], false, false)],
    );
    match &nodes[0].node {
        IrNode::CreateIndex(ci) => {
            assert_eq!(ci.columns.len(), 1);
            assert!(
                matches!(
                    &ci.columns[0],
                    IndexColumn::Expression { text, referenced_columns }
                    if text == "lower(email)" && referenced_columns == &["email".to_string()]
                ),
                "Expected Expression {{ text: lower(email), referenced_columns: [email] }}, got: {:?}",
                ci.columns[0]
            );
            assert!(ci.where_clause.is_none());
        }
        other => panic!("Expected CreateIndex, got: {:?}", other),
    }
}

#[test]
fn test_parse_mixed_column_expression_index() {
    let nodes = parse_sql(
        "CREATE INDEX idx_tenant_email ON users (tenant_id, LOWER(email));",
        vec![create_index("idx_tenant_email", rv("", "users"), vec![index_elem("tenant_id"), expr_elem(lower_email())], false, false)],
    );
    match &nodes[0].node {
        IrNode::CreateIndex(ci) => {
            assert_eq!(ci.columns.len(), 2);
            assert_eq!(ci.columns[0], IndexColumn::Column("tenant_id".to_string()));
            assert!(
                matches!(
                    &ci.columns[1],
                    IndexColumn::Expression { text, referenced_columns }
                    if text == "lower(email)" && referenced_columns == &["email".to_string()]
                ),
                "Expected Expression {{ text: lower(email), referenced_columns: [email] }}, got: {:?}",
                ci.columns[1]
            );
        }
        other => panic!("Expected CreateIndex, got: {:?}", other),
    }
}

#[test]
fn test_parse_partial_index_where_clause() {
    let wc = op(colref("active"), bool_const(true), "active = true");
    let nodes = parse_sql(
        "CREATE INDEX idx_status ON orders (status) WHERE active = true;",
        vec![index_with_where("idx_status", "orders", vec![index_elem("status")], false, wc)],
    );
    match &nodes[0].node {
        IrNode::CreateIndex(ci) => {
            assert_eq!(ci.columns.len(), 1);
            assert_eq!(ci.columns[0], IndexColumn::Column("status".to_string()));
            assert!(ci.where_clause.is_some(), "Should have a WHERE clause");
            let wc = ci.where_clause.as_deref().unwrap();
            assert!(wc.contains("active") && wc.contains("true"), "WHERE clause should contain 'active' and 'true', got: {}", wc);
        }
        other => panic!("Expected CreateIndex, got: {:?}", other),
    }
}

#[test]
fn test_parse_partial_unique_index() {
    let wc = expr(NodeKind::NullTest { arg: Some(Box::new(colref("deleted_at"))) }, "deleted_at IS NULL");
    let nodes = parse_sql(
        "CREATE UNIQUE INDEX idx_email ON users (email) WHERE deleted_at IS NULL;",
        vec![index_with_where("idx_email", "users", vec![index_elem("email")], true, wc)],
    );
    match &nodes[0].node {
        IrNode::CreateIndex(ci) => {
            assert!(ci.unique);
            assert_eq!(ci.columns.len(), 1);
            assert_eq!(ci.columns[0], IndexColumn::Column("email".to_string()));
            assert!(ci.where_clause.is_some(), "Should have a WHERE clause");
            let wc = ci.where_clause.as_deref().unwrap();
            assert!(
                wc.contains("deleted_at") && wc.contains("IS NULL"),
                "WHERE clause should contain 'deleted_at' and 'IS NULL', got: {}",
                wc
            );
        }
        other => panic!("Expected CreateIndex, got: {:?}", other),
    }
}

/// The columns that the (sole, expression) column of
/// `CREATE INDEX idx ON t (<text>)` refers to, `e` being the tree of `<text>`.
fn expr_index_refs(text: &str, e: Node) -> Vec<String> {
    let sql = format!("CREATE INDEX idx ON t ({});", text);
    let nodes = parse_sql(&sql, vec![create_index("idx", rv("", "t"), vec![expr_elem(e)], false, false)]);
    match &nodes[0].node {
        IrNode::CreateIndex(ci) => match &ci.columns[0] {
            IndexColumn::Expression { referenced_columns, .. } => referenced_columns.clone(),
            IndexColumn::Column(name) => panic!("Expected Expression, got Column({name})"),
        },
        other => panic!("Expected CreateIndex, got: {:?}", other),
    }
}

fn coalesce(args: Vec<Node>) -> Node {
    expr(NodeKind::CoalesceExpr { args }, "COALESCE(..)")
}

fn case_when(cond: Node, result: Node) -> Node {
    node(NodeKind::CaseWhen { expr: Some(Box::new(cond)), result: Some(Box::new(result)) })
}

fn case(arg: Option<Node>, whens: Vec<Node>, default: Node) -> Node {
    expr(NodeKind::CaseExpr { arg: arg.map(Box::new), args: whens, defresult: Some(Box::new(default)) }, "CASE .. END")
}

#[test]
fn test_extract_refs_lower_email() {
    assert_eq!(expr_index_refs("LOWER(email)", lower_email()), vec!["email"]);
}

#[test]
fn test_extract_refs_typecast() {
    assert_eq!(expr_index_refs("(email::text)", cast(colref("email"), "(email)::text")), vec!["email"]);
}

#[test]
fn test_extract_refs_coalesce() {
    let refs = expr_index_refs("COALESCE(a, b)", coalesce(vec![colref("a"), colref("b")]));
    assert_eq!(refs, vec!["a", "b"]);
}

#[test]
fn test_extract_refs_arithmetic() {
    assert_eq!(expr_index_refs("(a + 1)", op(colref("a"), int_const(1), "a + 1")), vec!["a"]);
}

#[test]
fn test_extract_refs_constants_only() {
    assert_eq!(expr_index_refs("(1 + 2)", op(int_const(1), int_const(2), "1 + 2")), Vec::<String>::new());
}

#[test]
fn test_extract_refs_nested_func_typecast() {
    let e = func("lower", vec![cast(colref("email"), "(email)::text")], "lower((email)::text)");
    assert_eq!(expr_index_refs("LOWER(email::text)", e), vec!["email"]);
}

#[test]
fn test_extract_refs_multi_arg_func() {
    let e = coalesce(vec![colref("first_name"), colref("last_name"), str_const("unknown")]);
    let refs = expr_index_refs("COALESCE(first_name, last_name, 'unknown')", e);
    assert_eq!(refs, vec!["first_name", "last_name"]);
}

#[test]
fn test_extract_refs_bool_expr() {
    let e = expr(
        NodeKind::BoolExpr { args: vec![op(colref("a"), int_const(0), "a > 0"), op(colref("b"), int_const(0), "b > 0")] },
        "a > 0 AND b > 0",
    );
    let refs = expr_index_refs("(a > 0 AND b > 0)", e);
    assert_eq!(refs, vec!["a", "b"]);
}

#[test]
fn test_extract_refs_case_with_default() {
    let e = case(None, vec![case_when(op(colref("status"), str_const("active"), "status = 'active'"), colref("priority"))], int_const(0));
    let refs = expr_index_refs("(CASE WHEN status = 'active' THEN priority ELSE 0 END)", e);
    assert_eq!(refs, vec!["priority", "status"]);
}

#[test]
fn test_extract_refs_case_simple_form() {
    let e = case(Some(colref("status")), vec![case_when(str_const("a"), colref("priority"))], colref("rank"));
    let refs = expr_index_refs("(CASE status WHEN 'a' THEN priority ELSE rank END)", e);
    assert_eq!(refs, vec!["priority", "rank", "status"]);
}

#[test]
fn test_extract_refs_null_test_in_case() {
    let test = expr(NodeKind::NullTest { arg: Some(Box::new(colref("email"))) }, "email IS NOT NULL");
    let e = case(None, vec![case_when(test, colref("email"))], str_const("none"));
    let refs = expr_index_refs("(CASE WHEN email IS NOT NULL THEN email ELSE 'none' END)", e);
    assert_eq!(refs, vec!["email"]);
}

#[test]
fn test_extract_refs_greatest() {
    let e = expr(NodeKind::MinMaxExpr { args: vec![colref("a"), colref("b")] }, "GREATEST(a, b)");
    let refs = expr_index_refs("GREATEST(a, b)", e);
    assert_eq!(refs, vec!["a", "b"]);
}

#[test]
fn test_extract_refs_least() {
    let e = expr(NodeKind::MinMaxExpr { args: vec![colref("x"), colref("y"), colref("z")] }, "LEAST(x, y, z)");
    let refs = expr_index_refs("LEAST(x, y, z)", e);
    assert_eq!(refs, vec!["x", "y", "z"]);
}

#[test]
fn test_extract_refs_dedup() {
    let refs = expr_index_refs("(a + a)", op(colref("a"), colref("a"), "a + a"));
    assert_eq!(refs, vec!["a"]);
}

#[test]
fn extract_refs_sorts_and_dedups_across_branches() {
    let e = coalesce(vec![colref("zeta"), op(colref("alpha"), colref("zeta"), "alpha + zeta"), colref("alpha")]);
    assert_eq!(expr_index_refs("COALESCE(zeta, alpha + zeta, alpha)", e), vec!["alpha", "zeta"]);
}

// Partitioning, ONLY indexes, ALTER INDEX

fn part_elem(name: &str) -> Node {
    node(NodeKind::PartitionElem { name: name.to_string(), expr: None })
}

fn partitioned_table(name: &str, cols: Vec<Node>, strategy: PartStrategy, keys: Vec<Node>) -> NodeKind {
    match create_table(rv("", name), cols) {
        NodeKind::CreateStmt(c) => {
            NodeKind::CreateStmt(CreateStmt { partspec: Some(PartitionSpec { strategy, part_params: keys }), ..c })
        }
        _ => unreachable!(),
    }
}

fn partition_by_of(nodes: &[Located<IrNode>]) -> (PartitionStrategy, Vec<String>) {
    assert_eq!(nodes.len(), 1);
    match &nodes[0].node {
        IrNode::CreateTable(ct) => {
            let pb = ct.partition_by.as_ref().expect("partition_by should be set");
            assert!(ct.partition_of.is_none());
            (pb.strategy, pb.columns.clone())
        }
        other => panic!("Expected CreateTable, got {:?}", other),
    }
}

#[test]
fn test_partition_by_range() {
    let nodes = parse_sql(
        "CREATE TABLE measurements (id int, ts timestamptz) PARTITION BY RANGE (ts);",
        vec![partitioned_table(
            "measurements",
            vec![column("id", int4(), vec![]), column("ts", ty(&["pg_catalog", "timestamptz"], &[]), vec![])],
            PartStrategy::Range,
            vec![part_elem("ts")],
        )],
    );
    let (strategy, columns) = partition_by_of(&nodes);
    assert_eq!(strategy, PartitionStrategy::Range);
    assert_eq!(columns, vec!["ts".to_string()]);
}

#[test]
fn test_partition_by_list() {
    let nodes = parse_sql(
        "CREATE TABLE sales (region text, amount int) PARTITION BY LIST (region);",
        vec![partitioned_table(
            "sales",
            vec![column("region", text(), vec![]), column("amount", int4(), vec![])],
            PartStrategy::List,
            vec![part_elem("region")],
        )],
    );
    let (strategy, columns) = partition_by_of(&nodes);
    assert_eq!(strategy, PartitionStrategy::List);
    assert_eq!(columns, vec!["region".to_string()]);
}

#[test]
fn test_partition_by_hash() {
    let nodes = parse_sql(
        "CREATE TABLE data (id int) PARTITION BY HASH (id);",
        vec![partitioned_table("data", vec![column("id", int4(), vec![])], PartStrategy::Hash, vec![part_elem("id")])],
    );
    let (strategy, columns) = partition_by_of(&nodes);
    assert_eq!(strategy, PartitionStrategy::Hash);
    assert_eq!(columns, vec!["id".to_string()]);
}

#[test]
fn test_partition_of() {
    let stmt = match create_table(rv("", "measurements_2024"), vec![]) {
        NodeKind::CreateStmt(c) => NodeKind::CreateStmt(CreateStmt {
            inh_relations: vec![range_var_node("", "measurements")],
            has_partbound: true,
            ..c
        }),
        _ => unreachable!(),
    };
    let nodes = parse_sql(
        "CREATE TABLE measurements_2024 PARTITION OF measurements FOR VALUES FROM ('2024-01-01') TO ('2025-01-01');",
        vec![stmt],
    );
    assert_eq!(nodes.len(), 1);
    match &nodes[0].node {
        IrNode::CreateTable(ct) => {
            assert!(ct.partition_by.is_none());
            let parent = ct.partition_of.as_ref().expect("partition_of should be set");
            assert_eq!(parent.name(), "measurements");
            assert!(parent.schema().is_none());
        }
        other => panic!("Expected CreateTable, got {:?}", other),
    }
}

fn partition_cmd(subtype: AlterTableType, child: &str, concurrent: bool) -> Node {
    let pc = node(NodeKind::PartitionCmd { name: Some(rv("", child)), concurrent });
    cmd(subtype, "", Some(pc))
}

#[test]
fn test_attach_partition() {
    let nodes = parse_sql(
        "ALTER TABLE measurements ATTACH PARTITION measurements_2024 FOR VALUES FROM ('2024-01-01') TO ('2025-01-01');",
        vec![alter_table(rv("", "measurements"), vec![partition_cmd(AlterTableType::AttachPartition, "measurements_2024", false)])],
    );
    assert_eq!(nodes.len(), 1);
    match &nodes[0].node {
        IrNode::AlterTable(at) => {
            assert_eq!(at.name.name(), "measurements");
            assert_eq!(at.actions.len(), 1);
            match &at.actions[0] {
                AlterTableAction::AttachPartition { child } => assert_eq!(child.name(), "measurements_2024"),
                other => panic!("Expected AttachPartition, got {:?}", other),
            }
        }
        other => panic!("Expected AlterTable, got {:?}", other),
    }
}

fn detach(sql: &str, concurrent: bool) -> (String, bool) {
    let nodes = parse_sql(
        sql,
        vec![alter_table(rv("", "measurements"), vec![partition_cmd(AlterTableType::DetachPartition, "measurements_2024", concurrent)])],
    );
    assert_eq!(nodes.len(), 1);
    match &nodes[0].node {
        IrNode::AlterTable(at) => {
            assert_eq!(at.actions.len(), 1);
            match &at.actions[0] {
                AlterTableAction::DetachPartition { child, concurrent } => (child.name().clone(), *concurrent),
                other => panic!("Expected DetachPartition, got {:?}", other),
            }
        }
        other => panic!("Expected AlterTable, got {:?}", other),
    }
}

#[test]
fn test_detach_partition() {
    let (child, concurrent) = detach("ALTER TABLE measurements DETACH PARTITION measurements_2024;", false);
    assert_eq!(child, "measurements_2024");
    assert!(!concurrent);
}

#[test]
fn test_detach_partition_concurrently() {
    let (child, concurrent) = detach("ALTER TABLE measurements DETACH PARTITION measurements_2024 CONCURRENTLY;", true);
    assert_eq!(child, "measurements_2024");
    assert!(concurrent);
}

#[test]
fn test_create_index_only() {
    let only = RangeVar { inh: false, ..rv("", "measurements") };
    let nodes = parse_sql("CREATE INDEX idx_ts ON ONLY measurements (ts);", vec![create_index("idx_ts", only, vec![index_elem("ts")], false, false)]);
    assert_eq!(nodes.len(), 1);
    match &nodes[0].node {
        IrNode::CreateIndex(ci) => {
            assert!(ci.only, "ONLY should be true");
            assert_eq!(ci.table_name.name(), "measurements");
        }
        other => panic!("Expected CreateIndex, got {:?}", other),
    }
}

#[test]
fn test_create_index_normal_not_only() {
    let nodes = parse_sql("CREATE INDEX idx_foo ON foo (bar);", vec![create_index("idx_foo", rv("", "foo"), vec![index_elem("bar")], false, false)]);
    assert_eq!(nodes.len(), 1);
    match &nodes[0].node {
        IrNode::CreateIndex(ci) => assert!(!ci.only, "ONLY should be false for normal index"),
        other => panic!("Expected CreateIndex, got {:?}", other),
    }
}

#[test]
fn test_partition_by_expression() {
    let key = func("extract", vec![str_const("year"), colref("ts")], "EXTRACT(year FROM ts)");
    let nodes = parse_sql(
        "CREATE TABLE events (id int, ts timestamptz) PARTITION BY RANGE (EXTRACT(YEAR FROM ts));",
        vec![partitioned_table(
            "events",
            vec![column("id", int4(), vec![]), column("ts", ty(&["pg_catalog", "timestamptz"], &[]), vec![])],
            PartStrategy::Range,
            vec![node(NodeKind::PartitionElem { name: String::new(), expr: Some(Box::new(key)) })],
        )],
    );
    let (strategy, columns) = partition_by_of(&nodes);
    assert_eq!(strategy, PartitionStrategy::Range);
    assert_eq!(columns.len(), 1);
    assert!(
        columns[0].contains("EXTRACT") || columns[0].contains("extract") || columns[0].contains("date_part"),
        "Expression partition key should contain function text, got: {}",
        columns[0]
    );
}

fn alter_index(rel: RangeVar, cmds: Vec<Node>) -> NodeKind {
    NodeKind::AlterTableStmt(AlterTableStmt { relation: Some(rel), cmds, objtype: ObjectType::Index })
}

#[test]
fn test_alter_index_attach_partition() {
    let nodes = parse_sql(
        "ALTER INDEX idx_parent ATTACH PARTITION idx_child;",
        vec![alter_index(rv("", "idx_parent"), vec![partition_cmd(AlterTableType::AttachPartition, "idx_child", false)])],
    );
    assert_eq!(nodes.len(), 1);
    match &nodes[0].node {
        IrNode::AlterIndexAttachPartition { parent_index_name, child_index_name } => {
            assert_eq!(parent_index_name, "idx_parent");
            assert_eq!(child_index_name.name(), "idx_child");
            assert!(child_index_name.schema().is_none());
        }
        other => panic!("Expected AlterIndexAttachPartition, got {:?}", other),
    }
}

#[test]
fn test_alter_index_attach_partition_schema_qualified() {
    let pc = node(NodeKind::PartitionCmd { name: Some(rv("myschema", "idx_child")), concurrent: false });
    let nodes = parse_sql(
        "ALTER INDEX myschema.idx_parent ATTACH PARTITION myschema.idx_child;",
        vec![alter_index(rv("myschema", "idx_parent"), vec![cmd(AlterTableType::AttachPartition, "", Some(pc))])],
    );
    assert_eq!(nodes.len(), 1);
    match &nodes[0].node {
        IrNode::AlterIndexAttachPartition { parent_index_name, child_index_name } => {
            assert_eq!(parent_index_name, "idx_parent");
            assert_eq!(child_index_name.name(), "idx_child");
            assert_eq!(child_index_name.schema().map(|s| s.as_str()), Some("myschema"));
        }
        other => panic!("Expected AlterIndexAttachPartition, got {:?}", other),
    }
}

#[test]
fn test_alter_index_set_ignored() {
    let nodes = parse_sql(
        "ALTER INDEX idx_foo SET (fillfactor = 70);",
        vec![alter_index(rv("", "idx_foo"), vec![cmd(AlterTableType::Other("AtSetRelOptions".to_string()), "", None)])],
    );
    assert_eq!(nodes.len(), 1);
    assert!(matches!(&nodes[0].node, IrNode::Ignored { .. }), "ALTER INDEX SET should map to Ignored, got: {:?}", nodes[0].node);
}
