//! Conversion of the PostgreSQL parse tree into the IR: type
//! canonicalization, constraint normalization and the mapping of each
//! statement kind to the IR node(s) the rules read.
use vstd::prelude::*;
use vstd::string::*;
use crate::parser::ir::{index_columns_view, CreateIndex, CreateIndexView, IndexColumn, IndexColumnView, Cluster, DeleteFrom, DropIndex, DropSchema, DropTable, InsertInto, TruncateTable, UpdateTable, ir_nodes_view, actions_view, AlterTable, AlterTableAction, AlterTableActionView, TriggerDisableScope, TriggerScopeView, columns_view, CreateTable, CreateTableView, IrNode, IrNodeView, PartitionBy, PartitionByView, PartitionStrategy, constraints_view, opt_default_view, opt_string_view, ColumnDef, ColumnDefView, DefaultExpr, DefaultExprView, QualifiedName, QualifiedNameView, TableConstraint, TableConstraintView, TablePersistence, TypeName, TypeNameView};
use crate::parser::syntax::{DropBehavior, DropStmt, IndexStmt, ObjectType, RenameStmt, AlterTableCmd, AlterTableStmt, AlterTableType, CreateStmt, OnCommit, PartStrategy, PartitionSpec, ColumnDefNode, ConstValue, ConstrType, Constraint, Node, NodeKind, RangeVar, TypeNameNode};
use crate::text::{append_decimal, ascii_lowercase, is_ascii_text, lemma_ascii_lowercase_idempotent, concat2, lemma_lex_lt_total, lemma_lex_lt_transitive, lemma_sort_strings, lex_lt, sort_strings, sorted_strings, spec_sort_strings, spec_decimal, std_to_lowercase, str_eq, strictly_sorted_strings, strings_view, to_lowercase};

verus! {

// ---------------------------------------------------------------------------
// Names and strings
// ---------------------------------------------------------------------------

/// The qualified name of a table reference.
pub open spec fn spec_range_var_name(r: RangeVar) -> QualifiedNameView {
    if r.schemaname@.len() == 0 {
        QualifiedNameView { schema: None, name: r.relname@, schema_is_default: false }
    } else {
        QualifiedNameView { schema: Some(r.schemaname@), name: r.relname@, schema_is_default: false }
    }
}

/// The qualified name of an optional table reference; `unknown` when absent.
pub open spec fn spec_relation_name(rel: Option<RangeVar>) -> QualifiedNameView {
    match rel {
        Some(r) => spec_range_var_name(r),
        None => QualifiedNameView { schema: None, name: "unknown"@, schema_is_default: false },
    }
}

/// Convert a table reference to a `QualifiedName` (`unknown` when absent).
pub fn relation_to_qualified_name(rel: Option<&RangeVar>) -> (q: QualifiedName)
    ensures
        q@ == spec_relation_name(match rel {
            Some(r) => Some(*r),
            None => None,
        }),
{
    match rel {
        Some(r) => {
            if r.schemaname.as_str().is_empty() {
                QualifiedName::unqualified(r.relname.as_str())
            } else {
                QualifiedName::qualified(r.schemaname.as_str(), r.relname.as_str())
            }
        },
        None => {
            let q = QualifiedName::unqualified("unknown");
            q
        },
    }
}

/// The persistence a table reference declares: `u` unlogged, `t`
/// temporary, anything else (or no reference) permanent.
pub open spec fn spec_persistence(rel: Option<RangeVar>) -> TablePersistence {
    match rel {
        Some(r) => if r.relpersistence@ == "u"@ {
            TablePersistence::Unlogged
        } else if r.relpersistence@ == "t"@ {
            TablePersistence::Temporary
        } else {
            TablePersistence::Permanent
        },
        None => TablePersistence::Permanent,
    }
}

/// Map a table reference's persistence marker to a `TablePersistence`.
pub fn relation_persistence(rel: Option<&RangeVar>) -> (p: TablePersistence)
    ensures
        p == spec_persistence(match rel {
            Some(r) => Some(*r),
            None => None,
        }),
{
    match rel {
        Some(r) => {
            if str_eq(r.relpersistence.as_str(), "u") {
                TablePersistence::Unlogged
            } else if str_eq(r.relpersistence.as_str(), "t") {
                TablePersistence::Temporary
            } else {
                TablePersistence::Permanent
            }
        },
        None => TablePersistence::Permanent,
    }
}

/// A name that pg_query leaves empty when absent.
pub open spec fn spec_optional_name(n: Seq<char>) -> Option<Seq<char>> {
    if n.len() == 0 {
        None
    } else {
        Some(n)
    }
}

/// `None` for an empty name, the name otherwise.
pub fn optional_name(name: &str) -> (r: Option<String>)
    ensures
        opt_string_view(r) == spec_optional_name(name@),
{
    if name.is_empty() {
        None
    } else {
        Some(String::from_str(name))
    }
}

/// The string a node holds, if it is a `String` node.
pub open spec fn string_of(n: Node) -> Option<Seq<char>> {
    match n.node {
        Some(NodeKind::String(s)) => Some(s@),
        _ => None,
    }
}

/// The strings held by the `String` nodes of a list, in order.
pub open spec fn spec_string_list(nodes: Seq<Node>) -> Seq<Seq<char>>
    decreases nodes.len(),
{
    if nodes.len() == 0 {
        Seq::empty()
    } else {
        let rest = spec_string_list(nodes.drop_last());
        match string_of(nodes.last()) {
            Some(s) => rest.push(s),
            None => rest,
        }
    }
}

/// Extract the string values of a node list (column names of keys,
/// `fk_attrs`, `pk_attrs`).
pub fn extract_string_list(nodes: &Vec<Node>) -> (r: Vec<String>)
    ensures
        strings_view(r@) == spec_string_list(nodes@),
{
    let mut r: Vec<String> = Vec::new();
    let mut i: usize = 0;
    proof {
        assert(strings_view(r@) =~= spec_string_list(nodes@.take(0)));
    }
    while i < nodes.len()
        invariant
            i <= nodes@.len(),
            strings_view(r@) == spec_string_list(nodes@.take(i as int)),
        decreases nodes.len() - i,
    {
        proof {
            assert(nodes@.take(i + 1).drop_last() =~= nodes@.take(i as int));
        }
        if let Some(NodeKind::String(s)) = &nodes[i].node {
            r.push(s.clone());
            proof {
                assert(strings_view(r@) =~= spec_string_list(nodes@.take(i as int)).push(s@));
            }
        }
        i = i + 1;
    }
    proof {
        assert(nodes@.take(nodes@.len() as int) =~= nodes@);
    }
    r
}

/// The last string held by a `String` node of a list.
pub open spec fn spec_last_string(nodes: Seq<Node>) -> Option<Seq<char>>
    decreases nodes.len(),
{
    if nodes.len() == 0 {
        None
    } else {
        match string_of(nodes.last()) {
            Some(s) => Some(s),
            None => spec_last_string(nodes.drop_last()),
        }
    }
}

fn last_string(nodes: &Vec<Node>) -> (r: Option<String>)
    ensures
        opt_string_view(r) == spec_last_string(nodes@),
{
    let mut i: usize = nodes.len();
    proof {
        assert(nodes@.take(nodes@.len() as int) =~= nodes@);
    }
    while i > 0
        invariant
            i <= nodes@.len(),
            spec_last_string(nodes@) == spec_last_string(nodes@.take(i as int)),
        decreases i,
    {
        proof {
            assert(nodes@.take(i as int).drop_last() =~= nodes@.take(i - 1));
        }
        if let Some(NodeKind::String(s)) = &nodes[i - 1].node {
            return Some(s.clone());
        }
        i = i - 1;
    }
    proof {
        assert(nodes@.take(nodes@.len() as int) =~= nodes@);
    }
    None
}

// ---------------------------------------------------------------------------
// Type names
// ---------------------------------------------------------------------------

/// The integer modifiers of a type (`varchar(100)` -> `[100]`,
/// `numeric(10,2)` -> `[10, 2]`), from `Integer` and integer constant nodes.
pub open spec fn spec_type_modifiers(nodes: Seq<Node>) -> Seq<i64>
    decreases nodes.len(),
{
    if nodes.len() == 0 {
        Seq::empty()
    } else {
        let rest = spec_type_modifiers(nodes.drop_last());
        match nodes.last().node {
            Some(NodeKind::Integer(i)) => rest.push(i as i64),
            Some(NodeKind::AConst(Some(ConstValue::Ival(i)))) => rest.push(i as i64),
            _ => rest,
        }
    }
}

/// Extract the integer modifiers of a type.
pub fn extract_type_modifiers(typmods: &Vec<Node>) -> (r: Vec<i64>)
    ensures
        r@ == spec_type_modifiers(typmods@),
{
    let mut r: Vec<i64> = Vec::new();
    let mut i: usize = 0;
    while i < typmods.len()
        invariant
            i <= typmods@.len(),
            r@ == spec_type_modifiers(typmods@.take(i as int)),
        decreases typmods.len() - i,
    {
        proof {
            assert(typmods@.take(i + 1).drop_last() =~= typmods@.take(i as int));
        }
        match &typmods[i].node {
            Some(NodeKind::Integer(v)) => r.push(*v as i64),
            Some(NodeKind::AConst(Some(ConstValue::Ival(v)))) => r.push(*v as i64),
            _ => {},
        }
        i = i + 1;
    }
    proof {
        assert(typmods@.take(typmods@.len() as int) =~= typmods@);
    }
    r
}

/// The canonical spelling of a type: the last name of the type, lowercased.
pub open spec fn spec_canonical_type(tn: TypeNameNode) -> Seq<char> {
    std_to_lowercase(
        match spec_last_string(tn.names@) {
            Some(s) => s,
            None => "unknown"@,
        },
    )
}

/// Whether a canonical type spelling is one of the serial pseudo-types.
pub open spec fn spec_is_serial(c: Seq<char>) -> bool {
    c == "smallserial"@ || c == "serial"@ || c == "bigserial"@
}

/// The integer type a serial pseudo-type stands for; other types unchanged.
pub open spec fn spec_serial_mapped(c: Seq<char>) -> Seq<char> {
    if c == "smallserial"@ {
        "int2"@
    } else if c == "serial"@ {
        "int4"@
    } else if c == "bigserial"@ {
        "int8"@
    } else {
        c
    }
}

/// The IR type of a column type, and whether it was declared serial.
pub open spec fn spec_type_name(tn: Option<TypeNameNode>) -> (TypeNameView, bool) {
    match tn {
        None => (TypeNameView { name: std_to_lowercase("unknown"@), modifiers: Seq::empty() }, false),
        Some(t) => {
            let c = spec_canonical_type(t);
            (
                TypeNameView {
                    name: std_to_lowercase(spec_serial_mapped(c)),
                    modifiers: spec_type_modifiers(t.typmods@),
                },
                spec_is_serial(c),
            )
        },
    }
}

/// The type's last name as written (`unknown` when it has none).
pub open spec fn spec_written_type(tn: Option<TypeNameNode>) -> Seq<char> {
    match tn {
        None => "unknown"@,
        Some(t) => match spec_last_string(t.names@) {
            Some(s) => s,
            None => "unknown"@,
        },
    }
}

/// The type names a serial column may map to are ASCII, and lowercase.
proof fn lemma_literal_names_ascii()
    ensures
        is_ascii_text("unknown"@) && ascii_lowercase("unknown"@) == "unknown"@,
        is_ascii_text("int2"@) && ascii_lowercase("int2"@) == "int2"@,
        is_ascii_text("int4"@) && ascii_lowercase("int4"@) == "int4"@,
        is_ascii_text("int8"@) && ascii_lowercase("int8"@) == "int8"@,
        !spec_is_serial("unknown"@) && spec_serial_mapped("unknown"@) == "unknown"@,
{
    reveal_strlit("smallserial");
    reveal_strlit("serial");
    reveal_strlit("bigserial");
    reveal_strlit("unknown");
    assert("unknown"@.len() == 7 && "smallserial"@.len() == 11 && "serial"@.len() == 6 && "bigserial"@.len() == 9);
    reveal_strlit("int2");
    reveal_strlit("int4");
    reveal_strlit("int8");
    assert(ascii_lowercase("unknown"@) =~= "unknown"@);
    assert(ascii_lowercase("int2"@) =~= "int2"@);
    assert(ascii_lowercase("int4"@) =~= "int4"@);
    assert(ascii_lowercase("int8"@) =~= "int8"@);
}

/// Extract the canonical IR type of a column type and whether it was one of
/// `smallserial`, `serial`, `bigserial` (which pg_query does not expand; they
/// map to `int2`, `int4`, `int8`).
pub fn extract_type_name(tn: Option<&TypeNameNode>) -> (r: (TypeName, bool))
    ensures
        (r.0@, r.1) == spec_type_name(match tn {
            Some(t) => Some(*t),
            None => None,
        }),
        ({
            let w = spec_written_type(match tn {
                Some(t) => Some(*t),
                None => None,
            });
            is_ascii_text(w) ==> r.0.name@ == spec_serial_mapped(ascii_lowercase(w)) && r.1 == spec_is_serial(
                ascii_lowercase(w),
            )
        }),
{
    let t = match tn {
        Some(t) => t,
        None => {
            let ty = TypeName::simple("unknown");
            assert(ty.modifiers@ =~= Seq::<i64>::empty());
            proof {
                reveal_strlit("unknown");
                lemma_literal_names_ascii();
                lemma_ascii_lowercase_idempotent("unknown"@);
            }
            return (ty, false);
        },
    };
    let canonical = match last_string(&t.names) {
        Some(s) => to_lowercase(s.as_str()),
        None => to_lowercase("unknown"),
    };
    let c = canonical.as_str();
    let is_serial = str_eq(c, "smallserial") || str_eq(c, "serial") || str_eq(c, "bigserial");
    let modifiers = extract_type_modifiers(&t.typmods);
    let mapped: &str = if str_eq(c, "smallserial") {
        "int2"
    } else if str_eq(c, "serial") {
        "int4"
    } else if str_eq(c, "bigserial") {
        "int8"
    } else {
        c
    };
    proof {
        lemma_literal_names_ascii();
        let w = match spec_last_string(t.names@) { Some(x) => x, None => "unknown"@ };
        if is_ascii_text(w) {
            lemma_ascii_lowercase_idempotent(w);
            assert(canonical@ == ascii_lowercase(w));
            assert(is_ascii_text(mapped@));
            lemma_ascii_lowercase_idempotent(mapped@);
        }
    }
    let ty = if modifiers.len() == 0 {
        let ty = TypeName::simple(mapped);
        assert(ty.modifiers@ =~= modifiers@);
        ty
    } else {
        TypeName::with_modifiers(mapped, modifiers)
    };
    (ty, is_serial)
}

// ---------------------------------------------------------------------------
// Default expressions
// ---------------------------------------------------------------------------

/// The IR default of a default expression: constants become literals,
/// function calls keep their (last) name and deparsed arguments, anything
/// else is kept as its deparsed text.
pub open spec fn spec_default_expr(n: Node) -> DefaultExprView {
    match n.node {
        Some(NodeKind::AConst(v)) => DefaultExprView::Literal(
            match v {
                Some(ConstValue::Ival(i)) => spec_decimal(i as int),
                Some(ConstValue::Sval(s)) => s@,
                Some(ConstValue::Boolval(b)) => if b {
                    "true"@
                } else {
                    "false"@
                },
                Some(ConstValue::Fval(f)) => f@,
                Some(ConstValue::Bsval(s)) => s@,
                None => "NULL"@,
            },
        ),
        Some(NodeKind::FuncCall { funcname, args }) => DefaultExprView::FunctionCall {
            name: match spec_last_string(funcname@) {
                Some(s) => s,
                None => "unknown"@,
            },
            args: deparsed_list(args@),
        },
        Some(_) => DefaultExprView::Other(n.deparsed@),
        None => DefaultExprView::Other("NULL"@),
    }
}

/// The deparsed texts of a list of nodes.
pub open spec fn deparsed_list(nodes: Seq<Node>) -> Seq<Seq<char>> {
    nodes.map_values(|n: Node| n.deparsed@)
}

fn deparse_all(nodes: &Vec<Node>) -> (r: Vec<String>)
    ensures
        strings_view(r@) == deparsed_list(nodes@),
{
    let mut r: Vec<String> = Vec::new();
    let mut i: usize = 0;
    while i < nodes.len()
        invariant
            i <= nodes@.len(),
            r@.len() == i,
            forall|k: int| 0 <= k < i ==> #[trigger] r@[k]@ == nodes@[k].deparsed@,
        decreases nodes.len() - i,
    {
        r.push(nodes[i].deparsed.clone());
        i = i + 1;
    }
    proof {
        assert(strings_view(r@) =~= deparsed_list(nodes@));
    }
    r
}

fn decimal_string(i: i32) -> (r: String)
    ensures
        r@ == spec_decimal(i as int),
{
    let mut r = String::new();
    append_decimal(&mut r, i as i64);
    proof {
        assert(r@ =~= spec_decimal(i as int));
    }
    r
}

/// Convert a default expression to an IR `DefaultExpr`.
pub fn convert_default_expr(node: &Node) -> (d: DefaultExpr)
    ensures
        d@ == spec_default_expr(*node),
{
    match &node.node {
        Some(NodeKind::AConst(v)) => {
            let lit = match v {
                Some(ConstValue::Ival(i)) => decimal_string(*i),
                Some(ConstValue::Sval(s)) => s.clone(),
                Some(ConstValue::Boolval(b)) => if *b {
                    String::from_str("true")
                } else {
                    String::from_str("false")
                },
                Some(ConstValue::Fval(f)) => f.clone(),
                Some(ConstValue::Bsval(s)) => s.clone(),
                None => String::from_str("NULL"),
            };
            DefaultExpr::Literal(lit)
        },
        Some(NodeKind::FuncCall { funcname, args }) => {
            let name = match last_string(funcname) {
                Some(s) => s,
                None => String::from_str("unknown"),
            };
            DefaultExpr::FunctionCall { name, args: deparse_all(args) }
        },
        Some(_) => DefaultExpr::Other(node.deparsed.clone()),
        None => DefaultExpr::Other(String::from_str("NULL")),
    }
}

// ---------------------------------------------------------------------------
// Constraints
// ---------------------------------------------------------------------------

/// The column list of a key constraint; an empty list falls back to the
/// column the constraint is attached to, when there is one.
pub open spec fn with_context_column(cols: Seq<Seq<char>>, context_column: Option<Seq<char>>) -> Seq<Seq<char>> {
    if cols.len() == 0 {
        match context_column {
            Some(c) => seq![c],
            None => cols,
        }
    } else {
        cols
    }
}

/// The deparsed text of an optional expression, empty when absent.
pub open spec fn opt_deparsed(e: Option<Box<Node>>) -> Seq<char> {
    match e {
        Some(n) => n.deparsed@,
        None => Seq::empty(),
    }
}

/// The IR constraint of a table-level constraint node (`None` for the
/// kinds the IR does not model, such as `NOT NULL` or `DEFAULT`).
pub open spec fn spec_table_constraint(con: Constraint, context_column: Option<Seq<char>>) -> Option<TableConstraintView> {
    let name = spec_optional_name(con.conname@);
    match con.contype {
        ConstrType::Primary => Some(TableConstraintView::PrimaryKey {
            columns: with_context_column(spec_string_list(con.keys@), context_column),
            using_index: spec_optional_name(con.indexname@),
        }),
        ConstrType::Foreign => Some(TableConstraintView::ForeignKey {
            name,
            columns: with_context_column(spec_string_list(con.fk_attrs@), context_column),
            ref_table: spec_relation_name(con.pktable),
            ref_columns: spec_string_list(con.pk_attrs@),
            not_valid: con.skip_validation,
        }),
        ConstrType::Unique => Some(TableConstraintView::Unique {
            name,
            columns: with_context_column(spec_string_list(con.keys@), context_column),
            using_index: spec_optional_name(con.indexname@),
        }),
        ConstrType::Check => Some(TableConstraintView::Check {
            name,
            expression: opt_deparsed(con.raw_expr),
            not_valid: con.skip_validation,
        }),
        ConstrType::Exclusion => Some(TableConstraintView::Exclude { name }),
        _ => None,
    }
}

pub open spec fn opt_constraint_view(o: Option<TableConstraint>) -> Option<TableConstraintView> {
    match o {
        Some(c) => Some(c@),
        None => None,
    }
}

fn key_columns(nodes: &Vec<Node>, context_column: Option<&str>) -> (r: Vec<String>)
    ensures
        strings_view(r@) == with_context_column(spec_string_list(nodes@), match context_column {
            Some(c) => Some(c@),
            None => None,
        }),
{
    let mut columns = extract_string_list(nodes);
    if columns.len() == 0 {
        if let Some(c) = context_column {
            columns.push(String::from_str(c));
            proof {
                assert(strings_view(columns@) =~= seq![c@]);
            }
        }
    }
    columns
}

fn deparsed_or_empty(e: &Option<Box<Node>>) -> (r: String)
    ensures
        r@ == opt_deparsed(*e),
{
    match e {
        Some(n) => n.deparsed.clone(),
        None => {
            let r = String::new();
            assert(r@ =~= Seq::<char>::empty());
            r
        },
    }
}

/// Convert a constraint node into an IR `TableConstraint`. `context_column`
/// names the column an inline constraint is attached to; a key constraint
/// with no column list of its own then applies to that column.
pub fn convert_table_constraint(con: &Constraint, context_column: Option<&str>) -> (r: Option<TableConstraint>)
    ensures
        opt_constraint_view(r) == spec_table_constraint(*con, match context_column {
            Some(c) => Some(c@),
            None => None,
        }),
{
    let name = optional_name(con.conname.as_str());
    match con.contype {
        ConstrType::Primary => Some(TableConstraint::PrimaryKey {
            columns: key_columns(&con.keys, context_column),
            using_index: optional_name(con.indexname.as_str()),
        }),
        ConstrType::Foreign => Some(TableConstraint::ForeignKey {
            name,
            columns: key_columns(&con.fk_attrs, context_column),
            ref_table: relation_to_qualified_name(con.pktable.as_ref()),
            ref_columns: extract_string_list(&con.pk_attrs),
            not_valid: con.skip_validation,
        }),
        ConstrType::Unique => Some(TableConstraint::Unique {
            name,
            columns: key_columns(&con.keys, context_column),
            using_index: optional_name(con.indexname.as_str()),
        }),
        ConstrType::Check => Some(TableConstraint::Check {
            name,
            expression: deparsed_or_empty(&con.raw_expr),
            not_valid: con.skip_validation,
        }),
        ConstrType::Exclusion => Some(TableConstraint::Exclude { name }),
        _ => None,
    }
}

// ---------------------------------------------------------------------------
// Column definitions
// ---------------------------------------------------------------------------

/// What the column constraints of a column definition have set so far.
pub struct ColumnState {
    pub nullable: bool,
    pub default_expr: Option<DefaultExprView>,
    pub is_inline_pk: bool,
    pub constraints: Seq<TableConstraintView>,
}

/// The effect of one column constraint on column `col`: `NOT NULL` and
/// `PRIMARY KEY` make it non-nullable, `DEFAULT` sets its default, and
/// `PRIMARY KEY`, `REFERENCES`, `UNIQUE` and `CHECK` are promoted to
/// table-level constraints on the column.
pub open spec fn column_step(col: Seq<char>, n: Node, st: ColumnState) -> ColumnState {
    match n.node {
        Some(NodeKind::Constraint(con)) => match con.contype {
            ConstrType::NotNull => ColumnState { nullable: false, ..st },
            ConstrType::Default => match con.raw_expr {
                Some(e) => ColumnState { default_expr: Some(spec_default_expr(*e)), ..st },
                None => st,
            },
            ConstrType::Primary => ColumnState {
                nullable: false,
                is_inline_pk: true,
                constraints: st.constraints.push(
                    TableConstraintView::PrimaryKey { columns: seq![col], using_index: None },
                ),
                ..st
            },
            ConstrType::Foreign => ColumnState {
                constraints: st.constraints.push(
                    TableConstraintView::ForeignKey {
                        name: spec_optional_name(con.conname@),
                        columns: seq![col],
                        ref_table: spec_relation_name(con.pktable),
                        ref_columns: spec_string_list(con.pk_attrs@),
                        not_valid: con.skip_validation,
                    },
                ),
                ..st
            },
            ConstrType::Unique => ColumnState {
                constraints: st.constraints.push(
                    TableConstraintView::Unique {
                        name: spec_optional_name(con.conname@),
                        columns: seq![col],
                        using_index: None,
                    },
                ),
                ..st
            },
            ConstrType::Check => ColumnState {
                constraints: st.constraints.push(
                    TableConstraintView::Check {
                        name: spec_optional_name(con.conname@),
                        expression: opt_deparsed(con.raw_expr),
                        not_valid: con.skip_validation,
                    },
                ),
                ..st
            },
            _ => st,
        },
        _ => st,
    }
}

/// The column constraints `cs` applied in order to `st`.
pub open spec fn column_fold(col: Seq<char>, cs: Seq<Node>, st: ColumnState) -> ColumnState
    decreases cs.len(),
{
    if cs.len() == 0 {
        st
    } else {
        column_step(col, cs.last(), column_fold(col, cs.drop_last(), st))
    }
}

/// The state of a column before its constraints: nullable, no inline key,
/// and a `nextval()` default for a serial column.
pub open spec fn column_start(is_serial: bool) -> ColumnState {
    ColumnState {
        nullable: true,
        default_expr: if is_serial {
            Some(DefaultExprView::FunctionCall { name: "nextval"@, args: Seq::empty() })
        } else {
            None
        },
        is_inline_pk: false,
        constraints: Seq::empty(),
    }
}

/// The IR column of a column definition, with the constraints its inline
/// `PRIMARY KEY`, `REFERENCES`, `UNIQUE` and `CHECK` clauses promote.
pub open spec fn spec_column_def(col: ColumnDefNode) -> (ColumnDefView, Seq<TableConstraintView>) {
    let (ty, is_serial) = spec_type_name(col.column_type);
    let st = column_fold(col.colname@, col.constraints@, column_start(is_serial));
    (
        ColumnDefView {
            name: col.colname@,
            data_type: ty,
            nullable: st.nullable,
            default_expr: st.default_expr,
            is_inline_pk: st.is_inline_pk,
            is_serial,
        },
        st.constraints,
    )
}

proof fn lemma_constraints_view_push(v: Seq<TableConstraint>, c: TableConstraint)
    ensures
        constraints_view(v.push(c)) == constraints_view(v).push(c@),
{
    assert(constraints_view(v.push(c)) =~= constraints_view(v).push(c@));
}

/// Convert a column definition into an IR column plus the table-level
/// constraints its inline clauses promote.
pub fn convert_column_def(col: &ColumnDefNode) -> (r: (ColumnDef, Vec<TableConstraint>))
    ensures
        (r.0@, constraints_view(r.1@)) == spec_column_def(*col),
{
    let (ty, is_serial) = extract_type_name(col.column_type.as_ref());
    let mut nullable = true;
    let mut default_expr: Option<DefaultExpr> = None;
    let mut is_inline_pk = false;
    let mut constraints: Vec<TableConstraint> = Vec::new();
    if is_serial {
        let args: Vec<String> = Vec::new();
        default_expr = Some(DefaultExpr::FunctionCall { name: String::from_str("nextval"), args });
        proof {
            assert(strings_view(args@) =~= Seq::<Seq<char>>::empty());
        }
    }
    let ghost start = column_start(is_serial);
    proof {
        assert(constraints_view(constraints@) =~= Seq::<TableConstraintView>::empty());
    }
    let mut i: usize = 0;
    while i < col.constraints.len()
        invariant
            i <= col.constraints@.len(),
            ({
                let st = column_fold(col.colname@, col.constraints@.take(i as int), start);
                &&& st.nullable == nullable
                &&& st.default_expr == opt_default_view(default_expr)
                &&& st.is_inline_pk == is_inline_pk
                &&& st.constraints == constraints_view(constraints@)
            }),
        decreases col.constraints.len() - i,
    {
        proof {
            assert(col.constraints@.take(i + 1).drop_last() =~= col.constraints@.take(i as int));
        }
        if let Some(NodeKind::Constraint(con)) = &col.constraints[i].node {
            match con.contype {
                ConstrType::NotNull => {
                    nullable = false;
                },
                ConstrType::Default => {
                    if let Some(e) = &con.raw_expr {
                        default_expr = Some(convert_default_expr(e));
                    }
                },
                ConstrType::Primary => {
                    is_inline_pk = true;
                    nullable = false;
                    let mut cols: Vec<String> = Vec::new();
                    cols.push(col.colname.clone());
                    let c = TableConstraint::PrimaryKey { columns: cols, using_index: None };
                    proof {
                        assert(strings_view(cols@) =~= seq![col.colname@]);
                        lemma_constraints_view_push(constraints@, c);
                    }
                    constraints.push(c);
                },
                ConstrType::Foreign => {
                    let mut cols: Vec<String> = Vec::new();
                    cols.push(col.colname.clone());
                    let c = TableConstraint::ForeignKey {
                        name: optional_name(con.conname.as_str()),
                        columns: cols,
                        ref_table: relation_to_qualified_name(con.pktable.as_ref()),
                        ref_columns: extract_string_list(&con.pk_attrs),
                        not_valid: con.skip_validation,
                    };
                    proof {
                        assert(strings_view(cols@) =~= seq![col.colname@]);
                        lemma_constraints_view_push(constraints@, c);
                    }
                    constraints.push(c);
                },
                ConstrType::Unique => {
                    let mut cols: Vec<String> = Vec::new();
                    cols.push(col.colname.clone());
                    let c = TableConstraint::Unique {
                        name: optional_name(con.conname.as_str()),
                        columns: cols,
                        using_index: None,
                    };
                    proof {
                        assert(strings_view(cols@) =~= seq![col.colname@]);
                        lemma_constraints_view_push(constraints@, c);
                    }
                    constraints.push(c);
                },
                ConstrType::Check => {
                    let c = TableConstraint::Check {
                        name: optional_name(con.conname.as_str()),
                        expression: deparsed_or_empty(&con.raw_expr),
                        not_valid: con.skip_validation,
                    };
                    proof {
                        lemma_constraints_view_push(constraints@, c);
                    }
                    constraints.push(c);
                },
                _ => {},
            }
        }
        i = i + 1;
    }
    proof {
        assert(col.constraints@.take(col.constraints@.len() as int) =~= col.constraints@);
    }
    let column = ColumnDef {
        name: col.colname.clone(),
        data_type: ty,
        nullable,
        default_expr,
        is_inline_pk,
        is_serial,
    };
    (column, constraints)
}


// ---------------------------------------------------------------------------
// CREATE TABLE
// ---------------------------------------------------------------------------

/// The columns and constraints of the elements of a `CREATE TABLE`, in
/// order: each column definition adds its column and the constraints its
/// inline clauses promote; each table constraint the IR models adds itself.
pub open spec fn spec_table_elts(elts: Seq<Node>) -> (Seq<ColumnDefView>, Seq<TableConstraintView>)
    decreases elts.len(),
{
    if elts.len() == 0 {
        (Seq::empty(), Seq::empty())
    } else {
        let (cols, cons) = spec_table_elts(elts.drop_last());
        match elts.last().node {
            Some(NodeKind::ColumnDef(col)) => {
                let (c, inline) = spec_column_def(col);
                (cols.push(c), cons + inline)
            },
            Some(NodeKind::Constraint(con)) => match spec_table_constraint(con, None) {
                Some(tc) => (cols, cons.push(tc)),
                None => (cols, cons),
            },
            _ => (cols, cons),
        }
    }
}

/// The partition key columns of `PARTITION BY`: a named column by its
/// name, an expression key by its deparsed text.
pub open spec fn spec_part_columns(params: Seq<Node>) -> Seq<Seq<char>>
    decreases params.len(),
{
    if params.len() == 0 {
        Seq::empty()
    } else {
        let rest = spec_part_columns(params.drop_last());
        match params.last().node {
            Some(NodeKind::PartitionElem { name, expr }) => if name@.len() > 0 {
                rest.push(name@)
            } else {
                match expr {
                    Some(e) => rest.push(e.deparsed@),
                    None => rest,
                }
            },
            _ => rest,
        }
    }
}

/// `PARTITION BY`, when the strategy is one the IR names.
pub open spec fn spec_partition_by(partspec: Option<PartitionSpec>) -> Option<PartitionByView> {
    match partspec {
        None => None,
        Some(ps) => match ps.strategy {
            PartStrategy::Range => Some(PartitionByView { strategy: PartitionStrategy::Range, columns: spec_part_columns(ps.part_params@) }),
            PartStrategy::List => Some(PartitionByView { strategy: PartitionStrategy::List, columns: spec_part_columns(ps.part_params@) }),
            PartStrategy::Hash => Some(PartitionByView { strategy: PartitionStrategy::Hash, columns: spec_part_columns(ps.part_params@) }),
            PartStrategy::Undefined => None,
        },
    }
}

/// `PARTITION OF parent`: the first inherited relation, when the statement
/// has a partition bound and that relation is a table reference.
pub open spec fn spec_partition_of(create: CreateStmt) -> Option<QualifiedNameView> {
    if create.has_partbound && create.inh_relations@.len() > 0 {
        match create.inh_relations@[0].node {
            Some(NodeKind::RangeVar(rv)) => Some(spec_range_var_name(rv)),
            _ => None,
        }
    } else {
        None
    }
}

/// The IR of a `CREATE TABLE`. `ON COMMIT DROP` and `ON COMMIT DELETE ROWS`
/// make a table temporary whatever its declared persistence.
pub open spec fn spec_create_table(create: CreateStmt) -> CreateTableView {
    let (cols, cons) = spec_table_elts(create.table_elts@);
    CreateTableView {
        name: spec_relation_name(create.relation),
        columns: cols,
        constraints: cons,
        persistence: if create.oncommit == OnCommit::Drop || create.oncommit == OnCommit::DeleteRows {
            TablePersistence::Temporary
        } else {
            spec_persistence(create.relation)
        },
        if_not_exists: create.if_not_exists,
        partition_by: spec_partition_by(create.partspec),
        partition_of: spec_partition_of(create),
    }
}

proof fn lemma_constraints_view_add(a: Seq<TableConstraint>, b: Seq<TableConstraint>)
    ensures
        constraints_view(a + b) == constraints_view(a) + constraints_view(b),
{
    assert(constraints_view(a + b) =~= constraints_view(a) + constraints_view(b));
}

proof fn lemma_columns_view_push(v: Seq<ColumnDef>, c: ColumnDef)
    ensures
        columns_view(v.push(c)) == columns_view(v).push(c@),
{
    assert(columns_view(v.push(c)) =~= columns_view(v).push(c@));
}

fn part_columns(params: &Vec<Node>) -> (r: Vec<String>)
    ensures
        strings_view(r@) == spec_part_columns(params@),
{
    let mut r: Vec<String> = Vec::new();
    let mut i: usize = 0;
    proof {
        assert(strings_view(r@) =~= spec_part_columns(params@.take(0)));
    }
    while i < params.len()
        invariant
            i <= params@.len(),
            strings_view(r@) == spec_part_columns(params@.take(i as int)),
        decreases params.len() - i,
    {
        proof {
            assert(params@.take(i + 1).drop_last() =~= params@.take(i as int));
        }
        let ghost before = r@;
        if let Some(NodeKind::PartitionElem { name, expr }) = &params[i].node {
            if !name.as_str().is_empty() {
                r.push(name.clone());
            } else if let Some(e) = expr {
                r.push(e.deparsed.clone());
            }
        }
        proof {
            assert(strings_view(before.push(r@.last())) =~= strings_view(before).push(r@.last()@));
        }
        i = i + 1;
    }
    proof {
        assert(params@.take(params@.len() as int) =~= params@);
    }
    r
}

fn convert_partition_by(partspec: &Option<PartitionSpec>) -> (r: Option<PartitionBy>)
    ensures
        match r {
            Some(pb) => spec_partition_by(*partspec) == Some(PartitionByView { strategy: pb.strategy, columns: strings_view(pb.columns@) }),
            None => spec_partition_by(*partspec).is_none(),
        },
{
    match partspec {
        None => None,
        Some(ps) => {
            let strategy = match ps.strategy {
                PartStrategy::Range => PartitionStrategy::Range,
                PartStrategy::List => PartitionStrategy::List,
                PartStrategy::Hash => PartitionStrategy::Hash,
                PartStrategy::Undefined => {
                    return None;
                },
            };
            Some(PartitionBy { strategy, columns: part_columns(&ps.part_params) })
        },
    }
}

fn convert_partition_of(create: &CreateStmt) -> (r: Option<QualifiedName>)
    ensures
        match r {
            Some(q) => spec_partition_of(*create) == Some(q@),
            None => spec_partition_of(*create).is_none(),
        },
{
    if create.has_partbound && create.inh_relations.len() > 0 {
        match &create.inh_relations[0].node {
            Some(NodeKind::RangeVar(rv)) => Some(relation_to_qualified_name(Some(rv))),
            _ => None,
        }
    } else {
        None
    }
}

/// Convert a `CREATE TABLE` statement.
pub fn convert_create_table(create: &CreateStmt) -> (r: IrNode)
    ensures
        r@ == IrNodeView::CreateTable(spec_create_table(*create)),
{
    let name = relation_to_qualified_name(create.relation.as_ref());
    let persistence = if create.oncommit == OnCommit::Drop || create.oncommit == OnCommit::DeleteRows {
        TablePersistence::Temporary
    } else {
        relation_persistence(create.relation.as_ref())
    };
    let mut columns: Vec<ColumnDef> = Vec::new();
    let mut constraints: Vec<TableConstraint> = Vec::new();
    let mut i: usize = 0;
    proof {
        assert(columns_view(columns@) =~= Seq::<ColumnDefView>::empty());
        assert(constraints_view(constraints@) =~= Seq::<TableConstraintView>::empty());
    }
    while i < create.table_elts.len()
        invariant
            i <= create.table_elts@.len(),
            spec_table_elts(create.table_elts@.take(i as int)) == (columns_view(columns@), constraints_view(constraints@)),
        decreases create.table_elts.len() - i,
    {
        proof {
            assert(create.table_elts@.take(i + 1).drop_last() =~= create.table_elts@.take(i as int));
        }
        match &create.table_elts[i].node {
            Some(NodeKind::ColumnDef(col)) => {
                let (c, mut inline) = convert_column_def(col);
                proof {
                    lemma_columns_view_push(columns@, c);
                    lemma_constraints_view_add(constraints@, inline@);
                }
                columns.push(c);
                constraints.append(&mut inline);
            },
            Some(NodeKind::Constraint(con)) => {
                if let Some(tc) = convert_table_constraint(con, None) {
                    proof {
                        lemma_constraints_view_push(constraints@, tc);
                    }
                    constraints.push(tc);
                }
            },
            _ => {},
        }
        i = i + 1;
    }
    proof {
        assert(create.table_elts@.take(create.table_elts@.len() as int) =~= create.table_elts@);
    }
    IrNode::CreateTable(CreateTable {
        name,
        columns,
        constraints,
        persistence,
        if_not_exists: create.if_not_exists,
        partition_by: convert_partition_by(&create.partspec),
        partition_of: convert_partition_of(create),
    })
}

// ---------------------------------------------------------------------------
// ALTER TABLE
// ---------------------------------------------------------------------------

/// A single `Other` action.
pub open spec fn other_action(description: Seq<char>) -> Seq<AlterTableActionView> {
    seq![AlterTableActionView::Other { description }]
}

/// The table a `PARTITION` subcommand names, if it names one.
pub open spec fn partition_cmd_child(def: Option<Box<Node>>) -> Option<(QualifiedNameView, bool)> {
    match def {
        Some(d) => match d.node {
            Some(NodeKind::PartitionCmd { name: Some(rv), concurrent }) => Some((spec_range_var_name(rv), concurrent)),
            _ => None,
        },
        None => None,
    }
}

/// The IR actions of one `ALTER TABLE` subcommand. `ADD COLUMN` yields the
/// column and then one `AddConstraint` per constraint its inline clauses
/// promote; subcommands the IR does not model become `Other`.
pub open spec fn spec_alter_table_cmd(cmd: AlterTableCmd) -> Seq<AlterTableActionView> {
    let def_kind = match cmd.def {
        Some(d) => d.node,
        None => None,
    };
    match cmd.subtype {
        AlterTableType::AddColumn => match def_kind {
            Some(NodeKind::ColumnDef(col)) => {
                let (c, inline) = spec_column_def(col);
                seq![AlterTableActionView::AddColumn(c)] + inline.map_values(
                    |tc: TableConstraintView| AlterTableActionView::AddConstraint(tc),
                )
            },
            _ => other_action("ADD COLUMN (unparseable definition)"@),
        },
        AlterTableType::DropColumn => seq![AlterTableActionView::DropColumn { name: cmd.name@ }],
        AlterTableType::AddConstraint => match def_kind {
            Some(NodeKind::Constraint(con)) => match spec_table_constraint(con, None) {
                Some(tc) => seq![AlterTableActionView::AddConstraint(tc)],
                None => other_action("ADD CONSTRAINT (unknown type)"@),
            },
            _ => other_action("ADD CONSTRAINT (unparseable)"@),
        },
        AlterTableType::AlterColumnType => seq![
            AlterTableActionView::AlterColumnType {
                column_name: cmd.name@,
                new_type: match def_kind {
                    Some(NodeKind::ColumnDef(col)) => spec_type_name(col.column_type).0,
                    _ => TypeNameView { name: std_to_lowercase("unknown"@), modifiers: Seq::empty() },
                },
                old_type: None,
            },
        ],
        AlterTableType::SetNotNull => seq![AlterTableActionView::SetNotNull { column_name: cmd.name@ }],
        AlterTableType::DropNotNull => seq![AlterTableActionView::DropNotNull { column_name: cmd.name@ }],
        AlterTableType::DropConstraint => seq![AlterTableActionView::DropConstraint { constraint_name: cmd.name@ }],
        AlterTableType::ValidateConstraint => seq![
            AlterTableActionView::ValidateConstraint { constraint_name: cmd.name@ },
        ],
        AlterTableType::AttachPartition => match partition_cmd_child(cmd.def) {
            Some((child, _)) => seq![AlterTableActionView::AttachPartition { child }],
            None => other_action("ATTACH PARTITION (unparseable)"@),
        },
        AlterTableType::DetachPartition => match partition_cmd_child(cmd.def) {
            Some((child, concurrent)) => seq![AlterTableActionView::DetachPartition { child, concurrent }],
            None => other_action("DETACH PARTITION (unparseable)"@),
        },
        AlterTableType::DisableTrig => seq![
            AlterTableActionView::DisableTrigger {
                scope: if cmd.name@.len() == 0 {
                    TriggerScopeView::All
                } else {
                    TriggerScopeView::Named(cmd.name@)
                },
            },
        ],
        AlterTableType::DisableTrigAll => seq![AlterTableActionView::DisableTrigger { scope: TriggerScopeView::All }],
        AlterTableType::DisableTrigUser => seq![AlterTableActionView::DisableTrigger { scope: TriggerScopeView::User }],
        AlterTableType::Other(n) => other_action(n@),
    }
}

fn other(description: String) -> (r: Vec<AlterTableAction>)
    ensures
        actions_view(r@) == other_action(description@),
{
    let mut r = Vec::new();
    r.push(AlterTableAction::Other { description });
    proof {
        assert(actions_view(r@) =~= other_action(description@));
    }
    r
}

fn one_action(a: AlterTableAction) -> (r: Vec<AlterTableAction>)
    ensures
        actions_view(r@) == seq![a@],
{
    let mut r = Vec::new();
    r.push(a);
    proof {
        assert(actions_view(r@) =~= seq![a@]);
    }
    r
}

fn partition_child(def: &Option<Box<Node>>) -> (r: Option<(QualifiedName, bool)>)
    ensures
        match r {
            Some((q, c)) => partition_cmd_child(*def) == Some((q@, c)),
            None => partition_cmd_child(*def).is_none(),
        },
{
    match def {
        Some(d) => match &d.node {
            Some(NodeKind::PartitionCmd { name: Some(rv), concurrent }) => Some((relation_to_qualified_name(Some(rv)), *concurrent)),
            _ => None,
        },
        None => None,
    }
}

/// Convert one `ALTER TABLE` subcommand into IR actions.
pub fn convert_alter_table_cmd(cmd: &AlterTableCmd) -> (r: Vec<AlterTableAction>)
    ensures
        actions_view(r@) == spec_alter_table_cmd(*cmd),
{
    let def_kind: Option<&NodeKind> = match &cmd.def {
        Some(d) => d.node.as_ref(),
        None => None,
    };
    match &cmd.subtype {
        AlterTableType::AddColumn => match def_kind {
            Some(NodeKind::ColumnDef(col)) => {
                let (c, inline) = convert_column_def(col);
                let mut r: Vec<AlterTableAction> = Vec::new();
                r.push(AlterTableAction::AddColumn(c));
                let ghost cv = constraints_view(inline@);
                let ghost mut k: int = 0;
                let mut rest = inline;
                proof {
                    assert(constraints_view(rest@) =~= cv.subrange(0, cv.len() as int));
                    assert(actions_view(r@) =~= seq![AlterTableActionView::AddColumn(c@)] + cv.take(0).map_values(
                        |tc: TableConstraintView| AlterTableActionView::AddConstraint(tc),
                    ));
                }
                while rest.len() > 0
                    invariant
                        0 <= k <= cv.len(),
                        rest@.len() == cv.len() - k,
                        constraints_view(rest@) == cv.subrange(k, cv.len() as int),
                        actions_view(r@) == seq![AlterTableActionView::AddColumn(c@)] + cv.take(k).map_values(
                            |tc: TableConstraintView| AlterTableActionView::AddConstraint(tc),
                        ),
                    decreases rest.len(),
                {
                    let ghost before = rest@;
                    let tc = rest.remove(0);
                    proof {
                        assert(constraints_view(before)[0] == cv.subrange(k, cv.len() as int)[0]);
                        assert(tc@ == cv[k]);
                        assert forall|j: int| 0 <= j < rest@.len() implies #[trigger] constraints_view(rest@)[j] == cv.subrange(k + 1, cv.len() as int)[j] by {
                            assert(rest@[j] == before[j + 1]);
                            assert(constraints_view(before)[j + 1] == cv.subrange(k, cv.len() as int)[j + 1]);
                        }
                        assert(constraints_view(rest@) =~= cv.subrange(k + 1, cv.len() as int));
                    }
                    let a = AlterTableAction::AddConstraint(tc);
                    proof {
                        assert(cv.take(k + 1) =~= cv.take(k).push(cv[k]));
                        assert(actions_view(r@.push(a)) =~= actions_view(r@).push(a@));
                        assert(seq![AlterTableActionView::AddColumn(c@)] + cv.take(k + 1).map_values(
                            |tc: TableConstraintView| AlterTableActionView::AddConstraint(tc),
                        ) =~= (seq![AlterTableActionView::AddColumn(c@)] + cv.take(k).map_values(
                            |tc: TableConstraintView| AlterTableActionView::AddConstraint(tc),
                        )).push(a@));
                        k = k + 1;
                    }
                    r.push(a);
                }
                proof {
                    assert(cv.take(cv.len() as int) =~= cv);
                }
                r
            },
            _ => other(String::from_str("ADD COLUMN (unparseable definition)")),
        },
        AlterTableType::DropColumn => one_action(AlterTableAction::DropColumn { name: cmd.name.clone() }),
        AlterTableType::AddConstraint => match def_kind {
            Some(NodeKind::Constraint(con)) => match convert_table_constraint(con, None) {
                Some(tc) => one_action(AlterTableAction::AddConstraint(tc)),
                None => other(String::from_str("ADD CONSTRAINT (unknown type)")),
            },
            _ => other(String::from_str("ADD CONSTRAINT (unparseable)")),
        },
        AlterTableType::AlterColumnType => {
            let new_type = match def_kind {
                Some(NodeKind::ColumnDef(col)) => extract_type_name(col.column_type.as_ref()).0,
                _ => {
                    let t = TypeName::simple("unknown");
                    assert(t.modifiers@ =~= Seq::<i64>::empty());
                    t
                },
            };
            one_action(AlterTableAction::AlterColumnType { column_name: cmd.name.clone(), new_type, old_type: None })
        },
        AlterTableType::SetNotNull => one_action(AlterTableAction::SetNotNull { column_name: cmd.name.clone() }),
        AlterTableType::DropNotNull => one_action(AlterTableAction::DropNotNull { column_name: cmd.name.clone() }),
        AlterTableType::DropConstraint => one_action(
            AlterTableAction::DropConstraint { constraint_name: cmd.name.clone() },
        ),
        AlterTableType::ValidateConstraint => one_action(
            AlterTableAction::ValidateConstraint { constraint_name: cmd.name.clone() },
        ),
        AlterTableType::AttachPartition => match partition_child(&cmd.def) {
            Some((child, _)) => one_action(AlterTableAction::AttachPartition { child }),
            None => other(String::from_str("ATTACH PARTITION (unparseable)")),
        },
        AlterTableType::DetachPartition => match partition_child(&cmd.def) {
            Some((child, concurrent)) => one_action(AlterTableAction::DetachPartition { child, concurrent }),
            None => other(String::from_str("DETACH PARTITION (unparseable)")),
        },
        AlterTableType::DisableTrig => {
            let scope = if cmd.name.as_str().is_empty() {
                TriggerDisableScope::All
            } else {
                TriggerDisableScope::Named(cmd.name.clone())
            };
            one_action(AlterTableAction::DisableTrigger { scope })
        },
        AlterTableType::DisableTrigAll => one_action(AlterTableAction::DisableTrigger { scope: TriggerDisableScope::All }),
        AlterTableType::DisableTrigUser => one_action(AlterTableAction::DisableTrigger { scope: TriggerDisableScope::User }),
        AlterTableType::Other(n) => other(n.clone()),
    }
}

/// The actions of the subcommands of an `ALTER TABLE`, in order.
pub open spec fn spec_alter_cmds(cmds: Seq<Node>) -> Seq<AlterTableActionView>
    decreases cmds.len(),
{
    if cmds.len() == 0 {
        Seq::empty()
    } else {
        spec_alter_cmds(cmds.drop_last()) + match cmds.last().node {
            Some(NodeKind::AlterTableCmd(cmd)) => spec_alter_table_cmd(cmd),
            _ => Seq::empty(),
        }
    }
}

/// The IR of an `ALTER TABLE`; a statement with no action the IR models
/// (all subcommands unreadable) is `Ignored`.
pub open spec fn spec_alter_table(alter: AlterTableStmt, raw_sql: Seq<char>) -> IrNodeView {
    let actions = spec_alter_cmds(alter.cmds@);
    if actions.len() == 0 {
        IrNodeView::Ignored { raw_sql }
    } else {
        IrNodeView::AlterTable { name: spec_relation_name(alter.relation), actions }
    }
}

proof fn lemma_actions_view_add(a: Seq<AlterTableAction>, b: Seq<AlterTableAction>)
    ensures
        actions_view(a + b) == actions_view(a) + actions_view(b),
{
    assert(actions_view(a + b) =~= actions_view(a) + actions_view(b));
}

/// Convert an `ALTER TABLE` statement.
pub fn convert_alter_table(alter: &AlterTableStmt, raw_sql: &str) -> (r: IrNode)
    ensures
        r@ == spec_alter_table(*alter, raw_sql@),
{
    let name = relation_to_qualified_name(alter.relation.as_ref());
    let mut actions: Vec<AlterTableAction> = Vec::new();
    let mut i: usize = 0;
    proof {
        assert(actions_view(actions@) =~= Seq::<AlterTableActionView>::empty());
    }
    while i < alter.cmds.len()
        invariant
            i <= alter.cmds@.len(),
            actions_view(actions@) == spec_alter_cmds(alter.cmds@.take(i as int)),
        decreases alter.cmds.len() - i,
    {
        proof {
            assert(alter.cmds@.take(i + 1).drop_last() =~= alter.cmds@.take(i as int));
        }
        match &alter.cmds[i].node {
            Some(NodeKind::AlterTableCmd(cmd)) => {
                let mut more = convert_alter_table_cmd(cmd);
                proof {
                    lemma_actions_view_add(actions@, more@);
                }
                actions.append(&mut more);
            },
            _ => {
                proof {
                    assert(spec_alter_cmds(alter.cmds@.take(i + 1)) =~= spec_alter_cmds(alter.cmds@.take(i as int)));
                }
            },
        }
        i = i + 1;
    }
    proof {
        assert(alter.cmds@.take(alter.cmds@.len() as int) =~= alter.cmds@);
    }
    if actions.len() == 0 {
        IrNode::Ignored { raw_sql: String::from_str(raw_sql) }
    } else {
        IrNode::AlterTable(AlterTable { name, actions })
    }
}

// ---------------------------------------------------------------------------
// ALTER INDEX
// ---------------------------------------------------------------------------

/// The child index of an `ATTACH PARTITION` subcommand node.
pub open spec fn attach_child(n: Node) -> Option<QualifiedNameView> {
    match n.node {
        Some(NodeKind::AlterTableCmd(cmd)) => if cmd.subtype is AttachPartition {
            match partition_cmd_child(cmd.def) {
                Some((child, _)) => Some(child),
                None => None,
            }
        } else {
            None
        },
        _ => None,
    }
}

/// The child index of the first `ATTACH PARTITION` among the subcommands.
pub open spec fn first_attach_child(cmds: Seq<Node>) -> Option<QualifiedNameView>
    decreases cmds.len(),
{
    if cmds.len() == 0 {
        None
    } else {
        match attach_child(cmds[0]) {
            Some(c) => Some(c),
            None => first_attach_child(cmds.drop_first()),
        }
    }
}

/// The IR of an `ALTER INDEX` (parsed as `ALTER TABLE` on an index): only
/// `ATTACH PARTITION` is modelled; everything else is `Ignored`.
pub open spec fn spec_alter_index(alter: AlterTableStmt, raw_sql: Seq<char>) -> Seq<IrNodeView> {
    match alter.relation {
        None => seq![IrNodeView::Ignored { raw_sql }],
        Some(rel) => match first_attach_child(alter.cmds@) {
            Some(child) => seq![IrNodeView::AlterIndexAttachPartition { parent_index_name: rel.relname@, child_index_name: child }],
            None => seq![IrNodeView::Ignored { raw_sql }],
        },
    }
}

fn single(n: IrNode) -> (r: Vec<IrNode>)
    ensures
        ir_nodes_view(r@) == seq![n@],
{
    let mut r = Vec::new();
    r.push(n);
    proof {
        assert(ir_nodes_view(r@) =~= seq![n@]);
    }
    r
}

fn ignored(raw_sql: &str) -> (r: IrNode)
    ensures
        r@ == (IrNodeView::Ignored { raw_sql: raw_sql@ }),
{
    IrNode::Ignored { raw_sql: String::from_str(raw_sql) }
}

/// Convert an `ALTER INDEX` statement.
pub fn convert_alter_index(alter: &AlterTableStmt, raw_sql: &str) -> (r: Vec<IrNode>)
    ensures
        ir_nodes_view(r@) == spec_alter_index(*alter, raw_sql@),
{
    let parent_name = match &alter.relation {
        Some(rel) => rel.relname.clone(),
        None => {
            return single(ignored(raw_sql));
        },
    };
    let mut i: usize = 0;
    proof {
        assert(alter.cmds@.skip(0) =~= alter.cmds@);
    }
    while i < alter.cmds.len()
        invariant
            i <= alter.cmds@.len(),
            first_attach_child(alter.cmds@) == first_attach_child(alter.cmds@.skip(i as int)),
            match alter.relation {
                Some(rel) => parent_name@ == rel.relname@,
                None => false,
            },
        decreases alter.cmds.len() - i,
    {
        proof {
            assert(alter.cmds@.skip(i as int)[0] == alter.cmds@[i as int]);
            assert(alter.cmds@.skip(i as int).drop_first() =~= alter.cmds@.skip(i + 1));
        }
        if let Some(NodeKind::AlterTableCmd(cmd)) = &alter.cmds[i].node {
            if let AlterTableType::AttachPartition = &cmd.subtype {
                if let Some((child, _)) = partition_child(&cmd.def) {
                    proof {
                        assert(attach_child(alter.cmds@[i as int]) == Some(child@));
                        assert(alter.cmds@.skip(i as int).len() > 0);
                    }
                    return single(IrNode::AlterIndexAttachPartition { parent_index_name: parent_name, child_index_name: child });
                }
            }
        }
        i = i + 1;
    }
    single(ignored(raw_sql))
}

// ---------------------------------------------------------------------------
// RENAME
// ---------------------------------------------------------------------------

/// The IR of a `RENAME`: of a table, of a column, or `Ignored`.
pub open spec fn spec_rename(rename: RenameStmt, raw_sql: Seq<char>) -> IrNodeView {
    match rename.rename_type {
        ObjectType::Table => IrNodeView::RenameTable { name: spec_relation_name(rename.relation), new_name: rename.newname@ },
        ObjectType::Column => IrNodeView::RenameColumn {
            table: spec_relation_name(rename.relation),
            old_name: rename.subname@,
            new_name: rename.newname@,
        },
        _ => IrNodeView::Ignored { raw_sql },
    }
}

/// Convert a `RENAME` statement.
pub fn convert_rename_stmt(rename: &RenameStmt, raw_sql: &str) -> (r: IrNode)
    ensures
        r@ == spec_rename(*rename, raw_sql@),
{
    match rename.rename_type {
        ObjectType::Table => IrNode::RenameTable {
            name: relation_to_qualified_name(rename.relation.as_ref()),
            new_name: rename.newname.clone(),
        },
        ObjectType::Column => IrNode::RenameColumn {
            table: relation_to_qualified_name(rename.relation.as_ref()),
            old_name: rename.subname.clone(),
            new_name: rename.newname.clone(),
        },
        _ => ignored(raw_sql),
    }
}

// ---------------------------------------------------------------------------
// Column references of expressions
// ---------------------------------------------------------------------------

/// The column names an expression refers to, in tree order, with repeats:
/// the last field of each column reference, gathered through function
/// calls, casts, operators, boolean and `CASE` expressions, `COALESCE`,
/// `IS NULL` tests and `GREATEST`/`LEAST`. Constants and other nodes refer
/// to no column.
pub open spec fn spec_column_refs(n: Node) -> Seq<Seq<char>>
    decreases n,
{
    match n.node {
        Some(NodeKind::ColumnRef { fields }) => if fields@.len() > 0 {
            match string_of(fields@.last()) {
                Some(s) => seq![s],
                None => Seq::empty(),
            }
        } else {
            Seq::empty()
        },
        Some(NodeKind::FuncCall { args, .. }) => spec_column_refs_list(args@),
        Some(NodeKind::TypeCast { arg }) => spec_column_refs_opt(arg),
        Some(NodeKind::AExpr { lexpr, rexpr }) => spec_column_refs_opt(lexpr) + spec_column_refs_opt(rexpr),
        Some(NodeKind::BoolExpr { args }) => spec_column_refs_list(args@),
        Some(NodeKind::CaseExpr { arg, args, defresult }) => spec_column_refs_opt(arg) + spec_column_refs_list(args@)
            + spec_column_refs_opt(defresult),
        Some(NodeKind::CaseWhen { expr, result }) => spec_column_refs_opt(expr) + spec_column_refs_opt(result),
        Some(NodeKind::CoalesceExpr { args }) => spec_column_refs_list(args@),
        Some(NodeKind::NullTest { arg }) => spec_column_refs_opt(arg),
        Some(NodeKind::MinMaxExpr { args }) => spec_column_refs_list(args@),
        _ => Seq::empty(),
    }
}

/// The column references of an optional expression.
pub open spec fn spec_column_refs_opt(o: Option<Box<Node>>) -> Seq<Seq<char>>
    decreases o,
{
    match o {
        Some(b) => spec_column_refs(*b),
        None => Seq::empty(),
    }
}

/// The column references of a list of expressions, in order.
pub open spec fn spec_column_refs_list(ns: Seq<Node>) -> Seq<Seq<char>>
    decreases ns,
{
    if ns.len() == 0 {
        Seq::empty()
    } else {
        spec_column_refs_list(ns.subrange(0, ns.len() - 1)) + spec_column_refs(ns[ns.len() - 1])
    }
}

/// `s` without consecutive repeats (the first of each run stays).
pub open spec fn spec_dedup_adjacent(s: Seq<Seq<char>>) -> Seq<Seq<char>>
    decreases s.len(),
{
    if s.len() <= 1 {
        s
    } else {
        let rest = spec_dedup_adjacent(s.drop_last());
        if s.last() == s[s.len() - 2] {
            rest
        } else {
            rest.push(s.last())
        }
    }
}

/// The distinct column names an expression refers to, sorted.
pub open spec fn spec_extract_column_refs(n: Node) -> Seq<Seq<char>> {
    spec_dedup_adjacent(spec_sort_strings(spec_column_refs(n)))
}

/// Dropping repeats from a sorted sequence leaves it strictly sorted, with
/// the same strings and the same last one.
proof fn lemma_dedup_adjacent_sorted(s: Seq<Seq<char>>)
    requires
        sorted_strings(s),
    ensures
        strictly_sorted_strings(spec_dedup_adjacent(s)),
        forall|y: Seq<char>| #[trigger] spec_dedup_adjacent(s).contains(y) <==> s.contains(y),
        s.len() > 0 ==> spec_dedup_adjacent(s).len() > 0 && spec_dedup_adjacent(s).last() == s.last(),
    decreases s.len(),
{
    let d = spec_dedup_adjacent(s);
    if s.len() <= 1 {
        if s.len() == 1 {
            assert forall|y: Seq<char>| #[trigger] d.contains(y) <==> s.contains(y) by {}
        }
    } else {
        let p = s.drop_last();
        assert forall|i: int, j: int| 0 <= i < j < p.len() implies !lex_lt(#[trigger] p[j], #[trigger] p[i]) by {
            assert(p[i] == s[i] && p[j] == s[j]);
        }
        lemma_dedup_adjacent_sorted(p);
        let rest = spec_dedup_adjacent(p);
        assert(p.last() == s[s.len() - 2]);
        assert forall|y: Seq<char>| #[trigger] s.contains(y) <==> (p.contains(y) || y == s.last()) by {
            if s.contains(y) {
                let k = choose|k: int| 0 <= k < s.len() && s[k] == y;
                if k < s.len() - 1 {
                    assert(p[k] == y);
                }
            }
            if p.contains(y) {
                let k = choose|k: int| 0 <= k < p.len() && p[k] == y;
                assert(s[k] == y);
            }
            if y == s.last() {
                assert(s[s.len() - 1] == y);
            }
        }
        if s.last() != s[s.len() - 2] {
            let l = s.last();
            let m = s[s.len() - 2];
            assert(!lex_lt(s[s.len() - 1], s[s.len() - 2]));
            lemma_lex_lt_total(m, l);
            assert(lex_lt(m, l));
            assert(d == rest.push(l));
            assert forall|i: int, j: int| 0 <= i < j < d.len() implies lex_lt(#[trigger] d[i], #[trigger] d[j]) by {
                if j == d.len() - 1 {
                    if i == rest.len() - 1 {
                        assert(d[i] == m);
                    } else {
                        assert(lex_lt(rest[i], rest[rest.len() - 1]));
                        lemma_lex_lt_transitive(rest[i], m, l);
                    }
                } else {
                    assert(d[i] == rest[i] && d[j] == rest[j]);
                }
            }
            assert forall|y: Seq<char>| #[trigger] d.contains(y) <==> s.contains(y) by {
                if rest.contains(y) {
                    let k = choose|k: int| 0 <= k < rest.len() && rest[k] == y;
                    assert(d[k] == y);
                }
                if y == l {
                    assert(d[d.len() - 1] == l);
                }
                if d.contains(y) {
                    let k = choose|k: int| 0 <= k < d.len() && d[k] == y;
                    if k < rest.len() {
                        assert(rest[k] == y);
                    }
                }
            }
        } else {
            assert forall|y: Seq<char>| #[trigger] d.contains(y) <==> s.contains(y) by {
                if y == s.last() {
                    assert(p.contains(p.last()));
                }
            }
        }
    }
}

/// The columns of an index expression: each column the expression mentions,
/// once, in ascending order; and no other.
pub proof fn lemma_column_refs_sorted_distinct(n: Node)
    ensures
        strictly_sorted_strings(spec_extract_column_refs(n)),
        forall|c: Seq<char>| #[trigger] spec_extract_column_refs(n).contains(c) <==> spec_column_refs(n).contains(c),
{
    lemma_sort_strings(spec_column_refs(n));
    lemma_dedup_adjacent_sorted(spec_sort_strings(spec_column_refs(n)));
}

proof fn lemma_strings_view_push(v: Seq<String>, s: String)
    ensures
        strings_view(v.push(s)) == strings_view(v).push(s@),
{
    assert(strings_view(v.push(s)) =~= strings_view(v).push(s@));
}

fn walk_opt(o: &Option<Box<Node>>, refs: &mut Vec<String>)
    ensures
        strings_view(final(refs)@) == strings_view(old(refs)@) + spec_column_refs_opt(*o),
    decreases o,
{
    match o {
        Some(b) => walk_node_for_column_refs(b, refs),
        None => {
            assert(strings_view(refs@) + spec_column_refs_opt(*o) =~= strings_view(refs@));
        },
    }
}

fn walk_list(ns: &Vec<Node>, refs: &mut Vec<String>)
    ensures
        strings_view(final(refs)@) == strings_view(old(refs)@) + spec_column_refs_list(ns@),
    decreases ns,
{
    let ghost start = strings_view(refs@);
    let mut i: usize = 0;
    proof {
        assert(ns@.subrange(0, 0) =~= Seq::<Node>::empty());
        assert(start + spec_column_refs_list(ns@.subrange(0, 0)) =~= start);
    }
    while i < ns.len()
        invariant
            i <= ns@.len(),
            strings_view(refs@) == start + spec_column_refs_list(ns@.subrange(0, i as int)),
        decreases ns.len() - i,
    {
        let ghost before = strings_view(refs@);
        proof {
            assert(ns@.subrange(0, i + 1).subrange(0, i as int) =~= ns@.subrange(0, i as int));
            assert(decreases_to!(ns => ns@[i as int]));
        }
        walk_node_for_column_refs(&ns[i], refs);
        proof {
            assert(spec_column_refs_list(ns@.subrange(0, i + 1)) == spec_column_refs_list(ns@.subrange(0, i as int))
                + spec_column_refs(ns@[i as int]));
            assert(strings_view(refs@) =~= start + spec_column_refs_list(ns@.subrange(0, i + 1)));
        }
        i = i + 1;
    }
    proof {
        assert(ns@.subrange(0, ns@.len() as int) =~= ns@);
    }
}

/// Append to `refs` the column references of an expression, in tree order.
pub fn walk_node_for_column_refs(node: &Node, refs: &mut Vec<String>)
    ensures
        strings_view(final(refs)@) == strings_view(old(refs)@) + spec_column_refs(*node),
    decreases node,
{
    let ghost start = strings_view(refs@);
    match &node.node {
        Some(NodeKind::ColumnRef { fields }) => {
            if fields.len() > 0 {
                if let Some(NodeKind::String(s)) = &fields[fields.len() - 1].node {
                    proof {
                        lemma_strings_view_push(refs@, *s);
                    }
                    refs.push(s.clone());
                    return;
                }
            }
            assert(start + spec_column_refs(*node) =~= start);
        },
        Some(NodeKind::FuncCall { args, .. }) => walk_list(args, refs),
        Some(NodeKind::TypeCast { arg }) => walk_opt(arg, refs),
        Some(NodeKind::AExpr { lexpr, rexpr }) => {
            walk_opt(lexpr, refs);
            walk_opt(rexpr, refs);
            assert(strings_view(refs@) =~= start + spec_column_refs(*node));
        },
        Some(NodeKind::BoolExpr { args }) => walk_list(args, refs),
        Some(NodeKind::CaseExpr { arg, args, defresult }) => {
            walk_opt(arg, refs);
            walk_list(args, refs);
            walk_opt(defresult, refs);
            assert(strings_view(refs@) =~= start + spec_column_refs(*node));
        },
        Some(NodeKind::CaseWhen { expr, result }) => {
            walk_opt(expr, refs);
            walk_opt(result, refs);
            assert(strings_view(refs@) =~= start + spec_column_refs(*node));
        },
        Some(NodeKind::CoalesceExpr { args }) => walk_list(args, refs),
        Some(NodeKind::NullTest { arg }) => walk_opt(arg, refs),
        Some(NodeKind::MinMaxExpr { args }) => walk_list(args, refs),
        _ => {
            assert(start + spec_column_refs(*node) =~= start);
        },
    }
}

fn dedup_adjacent(v: &Vec<String>) -> (r: Vec<String>)
    ensures
        strings_view(r@) == spec_dedup_adjacent(strings_view(v@)),
{
    let mut r: Vec<String> = Vec::new();
    let ghost sv = strings_view(v@);
    let mut i: usize = 0;
    proof {
        assert(strings_view(r@) =~= spec_dedup_adjacent(sv.take(0)));
    }
    while i < v.len()
        invariant
            i <= v@.len(),
            sv == strings_view(v@),
            strings_view(r@) == spec_dedup_adjacent(sv.take(i as int)),
        decreases v.len() - i,
    {
        proof {
            assert(sv.take(i + 1).drop_last() =~= sv.take(i as int));
        }
        if i == 0 || !str_eq(v[i].as_str(), v[i - 1].as_str()) {
            proof {
                lemma_strings_view_push(r@, v@[i as int]);
                if i == 0 {
                    assert(sv.take(1) =~= seq![sv[0]]);
                    assert(strings_view(r@) =~= Seq::<Seq<char>>::empty());
                }
            }
            r.push(v[i].clone());
        }
        i = i + 1;
    }
    proof {
        assert(sv.take(sv.len() as int) =~= sv);
    }
    r
}

/// The distinct column names an expression refers to, sorted (used to
/// track expression index columns through `DROP` and `RENAME`).
pub fn extract_column_refs(node: &Node) -> (r: Vec<String>)
    ensures
        strings_view(r@) == spec_extract_column_refs(*node),
        strictly_sorted_strings(strings_view(r@)),
        forall|c: Seq<char>| #[trigger] strings_view(r@).contains(c) <==> spec_column_refs(*node).contains(c),
{
    proof {
        lemma_column_refs_sorted_distinct(*node);
    }
    let mut refs: Vec<String> = Vec::new();
    proof {
        assert(strings_view(refs@) =~= Seq::<Seq<char>>::empty());
    }
    walk_node_for_column_refs(node, &mut refs);
    proof {
        assert(strings_view(refs@) =~= spec_column_refs(*node));
    }
    let sorted = sort_strings(refs);
    dedup_adjacent(&sorted)
}

// ---------------------------------------------------------------------------
// CREATE INDEX
// ---------------------------------------------------------------------------

/// The columns of an index: a named column by name, an expression by its
/// deparsed text and the columns it refers to.
pub open spec fn spec_index_columns(params: Seq<Node>) -> Seq<IndexColumnView>
    decreases params.len(),
{
    if params.len() == 0 {
        Seq::empty()
    } else {
        let rest = spec_index_columns(params.drop_last());
        match params.last().node {
            Some(NodeKind::IndexElem { name, expr }) => if name@.len() > 0 {
                rest.push(IndexColumnView::Column(name@))
            } else {
                match expr {
                    Some(e) => rest.push(IndexColumnView::Expression {
                        text: e.deparsed@,
                        referenced_columns: spec_extract_column_refs(*e),
                    }),
                    None => rest,
                }
            },
            _ => rest,
        }
    }
}

/// The IR of a `CREATE INDEX`. `ONLY` (no inheritance) marks an index on a
/// partitioned parent alone.
pub open spec fn spec_create_index(idx: IndexStmt) -> CreateIndexView {
    CreateIndexView {
        index_name: spec_optional_name(idx.idxname@),
        table_name: spec_relation_name(idx.relation),
        columns: spec_index_columns(idx.index_params@),
        unique: idx.unique,
        concurrent: idx.concurrent,
        if_not_exists: idx.if_not_exists,
        where_clause: match idx.where_clause {
            Some(w) => Some(w.deparsed@),
            None => None,
        },
        only: match idx.relation {
            Some(r) => !r.inh,
            None => false,
        },
    }
}

/// Convert a `CREATE INDEX` statement.
pub fn convert_create_index(idx: &IndexStmt) -> (r: IrNode)
    ensures
        r@ == IrNodeView::CreateIndex(spec_create_index(*idx)),
{
    let mut columns: Vec<IndexColumn> = Vec::new();
    let mut i: usize = 0;
    proof {
        assert(index_columns_view(columns@) =~= spec_index_columns(idx.index_params@.take(0)));
    }
    while i < idx.index_params.len()
        invariant
            i <= idx.index_params@.len(),
            index_columns_view(columns@) == spec_index_columns(idx.index_params@.take(i as int)),
        decreases idx.index_params.len() - i,
    {
        proof {
            assert(idx.index_params@.take(i + 1).drop_last() =~= idx.index_params@.take(i as int));
        }
        let ghost before = columns@;
        if let Some(NodeKind::IndexElem { name, expr }) = &idx.index_params[i].node {
            if !name.as_str().is_empty() {
                columns.push(IndexColumn::Column(name.clone()));
            } else if let Some(e) = expr {
                columns.push(IndexColumn::Expression { text: e.deparsed.clone(), referenced_columns: extract_column_refs(e) });
            }
        }
        proof {
            assert(index_columns_view(before.push(columns@.last())) =~= index_columns_view(before).push(columns@.last()@));
        }
        i = i + 1;
    }
    proof {
        assert(idx.index_params@.take(idx.index_params@.len() as int) =~= idx.index_params@);
    }
    let where_clause = match &idx.where_clause {
        Some(w) => Some(w.deparsed.clone()),
        None => None,
    };
    let only = match &idx.relation {
        Some(r) => !r.inh,
        None => false,
    };
    IrNode::CreateIndex(CreateIndex {
        index_name: optional_name(idx.idxname.as_str()),
        table_name: relation_to_qualified_name(idx.relation.as_ref()),
        columns,
        unique: idx.unique,
        concurrent: idx.concurrent,
        if_not_exists: idx.if_not_exists,
        where_clause,
        only,
    })
}

// ---------------------------------------------------------------------------
// DROP
// ---------------------------------------------------------------------------

/// The object names of `DROP INDEX`: the last string of each name list.
pub open spec fn spec_drop_names(objects: Seq<Node>) -> Seq<Seq<char>>
    decreases objects.len(),
{
    if objects.len() == 0 {
        Seq::empty()
    } else {
        let rest = spec_drop_names(objects.drop_last());
        match objects.last().node {
            Some(NodeKind::List(items)) => match spec_last_string(items@) {
                Some(n) => rest.push(n),
                None => rest,
            },
            _ => rest,
        }
    }
}

/// The schema names of `DROP SCHEMA`: the bare strings of the object list.
pub open spec fn spec_schema_names(objects: Seq<Node>) -> Seq<Seq<char>> {
    spec_string_list(objects)
}

/// The qualified name a `DROP TABLE` name list spells: one string is an
/// unqualified name; with more, the last two are schema and name.
pub open spec fn spec_list_qualified_name(strings: Seq<Seq<char>>) -> Option<QualifiedNameView> {
    if strings.len() == 0 {
        None
    } else if strings.len() == 1 {
        Some(QualifiedNameView { schema: None, name: strings[0], schema_is_default: false })
    } else {
        Some(QualifiedNameView { schema: Some(strings[strings.len() - 2]), name: strings.last(), schema_is_default: false })
    }
}

/// The qualified names of `DROP TABLE`, one per name list.
pub open spec fn spec_drop_qualified_names(objects: Seq<Node>) -> Seq<QualifiedNameView>
    decreases objects.len(),
{
    if objects.len() == 0 {
        Seq::empty()
    } else {
        let rest = spec_drop_qualified_names(objects.drop_last());
        match objects.last().node {
            Some(NodeKind::List(items)) => match spec_list_qualified_name(spec_string_list(items@)) {
                Some(q) => rest.push(q),
                None => rest,
            },
            _ => rest,
        }
    }
}

/// The IR of a `DROP`: one node per dropped index, table or schema; any
/// other object kind, or a statement naming nothing, is `Ignored`.
pub open spec fn spec_drop_stmt(drop: DropStmt, raw_sql: Seq<char>) -> Seq<IrNodeView> {
    let cascade = drop.behavior == DropBehavior::Cascade;
    match drop.remove_type {
        ObjectType::Index => {
            let names = spec_drop_names(drop.objects@);
            if names.len() == 0 {
                seq![IrNodeView::Ignored { raw_sql }]
            } else {
                names.map_values(|n: Seq<char>| IrNodeView::DropIndex { index_name: n, concurrent: drop.concurrent, if_exists: drop.missing_ok })
            }
        },
        ObjectType::Table => {
            let names = spec_drop_qualified_names(drop.objects@);
            if names.len() == 0 {
                seq![IrNodeView::Ignored { raw_sql }]
            } else {
                names.map_values(|q: QualifiedNameView| IrNodeView::DropTable { name: q, if_exists: drop.missing_ok, cascade })
            }
        },
        ObjectType::Schema => {
            let names = spec_schema_names(drop.objects@);
            if names.len() == 0 {
                seq![IrNodeView::Ignored { raw_sql }]
            } else {
                names.map_values(|n: Seq<char>| IrNodeView::DropSchema { schema_name: n, if_exists: drop.missing_ok, cascade })
            }
        },
        _ => seq![IrNodeView::Ignored { raw_sql }],
    }
}

/// Extract the object names of `DROP INDEX` (the last string of each name list).
pub fn extract_all_names_from_drop_objects(objects: &Vec<Node>) -> (r: Vec<String>)
    ensures
        strings_view(r@) == spec_drop_names(objects@),
{
    let mut r: Vec<String> = Vec::new();
    let mut i: usize = 0;
    proof {
        assert(strings_view(r@) =~= spec_drop_names(objects@.take(0)));
    }
    while i < objects.len()
        invariant
            i <= objects@.len(),
            strings_view(r@) == spec_drop_names(objects@.take(i as int)),
        decreases objects.len() - i,
    {
        proof {
            assert(objects@.take(i + 1).drop_last() =~= objects@.take(i as int));
        }
        if let Some(NodeKind::List(items)) = &objects[i].node {
            if let Some(n) = last_string(items) {
                proof {
                    lemma_strings_view_push(r@, n);
                }
                r.push(n);
            }
        }
        i = i + 1;
    }
    proof {
        assert(objects@.take(objects@.len() as int) =~= objects@);
    }
    r
}

/// Extract the schema names of `DROP SCHEMA` (bare string objects).
pub fn extract_schema_names_from_drop_objects(objects: &Vec<Node>) -> (r: Vec<String>)
    ensures
        strings_view(r@) == spec_schema_names(objects@),
{
    extract_string_list(objects)
}

pub open spec fn qualified_names_view(s: Seq<QualifiedName>) -> Seq<QualifiedNameView> {
    s.map_values(|q: QualifiedName| q@)
}

/// Extract the qualified names of `DROP TABLE`, one per name list.
pub fn extract_all_qualified_names_from_drop_objects(objects: &Vec<Node>) -> (r: Vec<QualifiedName>)
    ensures
        qualified_names_view(r@) == spec_drop_qualified_names(objects@),
{
    let mut r: Vec<QualifiedName> = Vec::new();
    let mut i: usize = 0;
    proof {
        assert(qualified_names_view(r@) =~= spec_drop_qualified_names(objects@.take(0)));
    }
    while i < objects.len()
        invariant
            i <= objects@.len(),
            qualified_names_view(r@) == spec_drop_qualified_names(objects@.take(i as int)),
        decreases objects.len() - i,
    {
        proof {
            assert(objects@.take(i + 1).drop_last() =~= objects@.take(i as int));
        }
        let ghost before = r@;
        if let Some(NodeKind::List(items)) = &objects[i].node {
            let strings = extract_string_list(items);
            let n = strings.len();
            if n == 1 {
                r.push(QualifiedName::unqualified(strings[0].as_str()));
            } else if n >= 2 {
                r.push(QualifiedName::qualified(strings[n - 2].as_str(), strings[n - 1].as_str()));
            }
            proof {
                assert(strings_view(strings@).len() == n);
                if n >= 1 {
                    assert(strings_view(strings@)[n - 1] == strings@[n - 1]@);
                }
                if n >= 2 {
                    assert(strings_view(strings@)[n - 2] == strings@[n - 2]@);
                }
            }
        }
        proof {
            assert(qualified_names_view(before.push(r@.last())) =~= qualified_names_view(before).push(r@.last()@));
        }
        i = i + 1;
    }
    proof {
        assert(objects@.take(objects@.len() as int) =~= objects@);
    }
    r
}

/// Convert a `DROP` statement into one IR node per dropped object.
pub fn convert_drop_stmt(drop: &DropStmt, raw_sql: &str) -> (r: Vec<IrNode>)
    ensures
        ir_nodes_view(r@) == spec_drop_stmt(*drop, raw_sql@),
{
    let cascade = drop.behavior == DropBehavior::Cascade;
    match drop.remove_type {
        ObjectType::Index => {
            let names = extract_all_names_from_drop_objects(&drop.objects);
            if names.len() == 0 {
                return single(ignored(raw_sql));
            }
            let ghost nv = strings_view(names@);
            let mut r: Vec<IrNode> = Vec::new();
            let mut i: usize = 0;
            while i < names.len()
                invariant
                    i <= names@.len(),
                    nv == strings_view(names@),
                    r@.len() == i,
                    forall|k: int| 0 <= k < i ==> #[trigger] ir_nodes_view(r@)[k] == (IrNodeView::DropIndex { index_name: nv[k], concurrent: drop.concurrent, if_exists: drop.missing_ok }),
                decreases names.len() - i,
            {
                let ghost before = r@;
                r.push(IrNode::DropIndex(DropIndex { index_name: names[i].clone(), concurrent: drop.concurrent, if_exists: drop.missing_ok }));
                proof {
                    assert forall|k: int| 0 <= k < i + 1 implies #[trigger] ir_nodes_view(r@)[k] == (IrNodeView::DropIndex { index_name: nv[k], concurrent: drop.concurrent, if_exists: drop.missing_ok }) by {
                        if k < i {
                            assert(r@[k] == before[k]);
                            assert(ir_nodes_view(before)[k] == before[k]@);
                        }
                    }
                }
                i = i + 1;
            }
            proof {
                assert(ir_nodes_view(r@) =~= spec_drop_stmt(*drop, raw_sql@));
            }
            r
        },
        ObjectType::Table => {
            let names = extract_all_qualified_names_from_drop_objects(&drop.objects);
            if names.len() == 0 {
                return single(ignored(raw_sql));
            }
            let ghost nv = qualified_names_view(names@);
            let mut r: Vec<IrNode> = Vec::new();
            let mut i: usize = 0;
            while i < names.len()
                invariant
                    i <= names@.len(),
                    nv == qualified_names_view(names@),
                    cascade == (drop.behavior == DropBehavior::Cascade),
                    r@.len() == i,
                    forall|k: int| 0 <= k < i ==> #[trigger] ir_nodes_view(r@)[k] == (IrNodeView::DropTable { name: nv[k], if_exists: drop.missing_ok, cascade }),
                decreases names.len() - i,
            {
                let ghost before = r@;
                r.push(IrNode::DropTable(DropTable { name: names[i].clone(), if_exists: drop.missing_ok, cascade }));
                proof {
                    assert forall|k: int| 0 <= k < i + 1 implies #[trigger] ir_nodes_view(r@)[k] == (IrNodeView::DropTable { name: nv[k], if_exists: drop.missing_ok, cascade }) by {
                        if k < i {
                            assert(r@[k] == before[k]);
                            assert(ir_nodes_view(before)[k] == before[k]@);
                        }
                    }
                }
                i = i + 1;
            }
            proof {
                assert(ir_nodes_view(r@) =~= spec_drop_stmt(*drop, raw_sql@));
            }
            r
        },
        ObjectType::Schema => {
            let names = extract_schema_names_from_drop_objects(&drop.objects);
            if names.len() == 0 {
                return single(ignored(raw_sql));
            }
            let ghost nv = strings_view(names@);
            let mut r: Vec<IrNode> = Vec::new();
            let mut i: usize = 0;
            while i < names.len()
                invariant
                    i <= names@.len(),
                    nv == strings_view(names@),
                    cascade == (drop.behavior == DropBehavior::Cascade),
                    r@.len() == i,
                    forall|k: int| 0 <= k < i ==> #[trigger] ir_nodes_view(r@)[k] == (IrNodeView::DropSchema { schema_name: nv[k], if_exists: drop.missing_ok, cascade }),
                decreases names.len() - i,
            {
                let ghost before = r@;
                r.push(IrNode::DropSchema(DropSchema { schema_name: names[i].clone(), if_exists: drop.missing_ok, cascade }));
                proof {
                    assert forall|k: int| 0 <= k < i + 1 implies #[trigger] ir_nodes_view(r@)[k] == (IrNodeView::DropSchema { schema_name: nv[k], if_exists: drop.missing_ok, cascade }) by {
                        if k < i {
                            assert(r@[k] == before[k]);
                            assert(ir_nodes_view(before)[k] == before[k]@);
                        }
                    }
                }
                i = i + 1;
            }
            proof {
                assert(ir_nodes_view(r@) =~= spec_drop_stmt(*drop, raw_sql@));
            }
            r
        },
        _ => single(ignored(raw_sql)),
    }
}

// ---------------------------------------------------------------------------
// TRUNCATE, DML, CLUSTER
// ---------------------------------------------------------------------------

/// The tables a `TRUNCATE` names, in order.
pub open spec fn spec_truncate_names(relations: Seq<Node>) -> Seq<QualifiedNameView>
    decreases relations.len(),
{
    if relations.len() == 0 {
        Seq::empty()
    } else {
        let rest = spec_truncate_names(relations.drop_last());
        match relations.last().node {
            Some(NodeKind::RangeVar(rv)) => rest.push(spec_range_var_name(rv)),
            _ => rest,
        }
    }
}

/// The IR of a `TRUNCATE`: one node per table, all sharing its `CASCADE`.
pub open spec fn spec_truncate(relations: Seq<Node>, behavior: DropBehavior) -> Seq<IrNodeView> {
    spec_truncate_names(relations).map_values(
        |q: QualifiedNameView| IrNodeView::TruncateTable { name: q, cascade: behavior == DropBehavior::Cascade },
    )
}

/// Convert a `TRUNCATE` into one IR node per table.
pub fn convert_truncate_stmt(relations: &Vec<Node>, behavior: DropBehavior) -> (r: Vec<IrNode>)
    ensures
        ir_nodes_view(r@) == spec_truncate(relations@, behavior),
{
    let cascade = behavior == DropBehavior::Cascade;
    let mut r: Vec<IrNode> = Vec::new();
    let mut i: usize = 0;
    proof {
        assert(ir_nodes_view(r@) =~= spec_truncate(relations@.take(0), behavior));
    }
    while i < relations.len()
        invariant
            i <= relations@.len(),
            cascade == (behavior == DropBehavior::Cascade),
            ir_nodes_view(r@) == spec_truncate(relations@.take(i as int), behavior),
        decreases relations.len() - i,
    {
        proof {
            assert(relations@.take(i + 1).drop_last() =~= relations@.take(i as int));
        }
        let ghost before = r@;
        if let Some(NodeKind::RangeVar(rv)) = &relations[i].node {
            r.push(IrNode::TruncateTable(TruncateTable { name: relation_to_qualified_name(Some(rv)), cascade }));
            proof {
                assert(ir_nodes_view(r@) =~= ir_nodes_view(before).push(r@.last()@));
                assert(spec_truncate(relations@.take(i + 1), behavior) =~= spec_truncate(relations@.take(i as int), behavior).push(r@.last()@));
            }
        } else {
            proof {
                assert(spec_truncate(relations@.take(i + 1), behavior) =~= spec_truncate(relations@.take(i as int), behavior));
            }
        }
        i = i + 1;
    }
    proof {
        assert(relations@.take(relations@.len() as int) =~= relations@);
    }
    r
}

/// Convert an `INSERT`.
pub fn convert_insert_stmt(relation: Option<&RangeVar>) -> (r: IrNode)
    ensures
        r@ == (IrNodeView::InsertInto { table_name: spec_relation_name(match relation {
            Some(x) => Some(*x),
            None => None,
        }) }),
{
    IrNode::InsertInto(InsertInto { table_name: relation_to_qualified_name(relation) })
}

/// Convert an `UPDATE`.
pub fn convert_update_stmt(relation: Option<&RangeVar>) -> (r: IrNode)
    ensures
        r@ == (IrNodeView::UpdateTable { table_name: spec_relation_name(match relation {
            Some(x) => Some(*x),
            None => None,
        }) }),
{
    IrNode::UpdateTable(UpdateTable { table_name: relation_to_qualified_name(relation) })
}

/// Convert a `DELETE`.
pub fn convert_delete_stmt(relation: Option<&RangeVar>) -> (r: IrNode)
    ensures
        r@ == (IrNodeView::DeleteFrom { table_name: spec_relation_name(match relation {
            Some(x) => Some(*x),
            None => None,
        }) }),
{
    IrNode::DeleteFrom(DeleteFrom { table_name: relation_to_qualified_name(relation) })
}

/// Convert a `CLUSTER` (an empty index name means none was given).
pub fn convert_cluster_stmt(relation: Option<&RangeVar>, indexname: &str) -> (r: IrNode)
    ensures
        r@ == (IrNodeView::Cluster {
            table: spec_relation_name(match relation {
                Some(x) => Some(*x),
                None => None,
            }),
            index: spec_optional_name(indexname@),
        }),
{
    IrNode::Cluster(Cluster { table: relation_to_qualified_name(relation), index: optional_name(indexname) })
}

// ---------------------------------------------------------------------------
// Statements
// ---------------------------------------------------------------------------

/// The IR nodes of one statement. Most statements give one node; `DROP`
/// and `TRUNCATE` give one per target. `DO` blocks are opaque
/// (`Unparseable`); statements the IR does not model are `Ignored`.
pub open spec fn spec_convert_node(n: NodeKind, raw_sql: Seq<char>) -> Seq<IrNodeView> {
    match n {
        NodeKind::CreateStmt(c) => seq![IrNodeView::CreateTable(spec_create_table(c))],
        NodeKind::AlterTableStmt(a) => if a.objtype == ObjectType::Index {
            spec_alter_index(a, raw_sql)
        } else {
            seq![spec_alter_table(a, raw_sql)]
        },
        NodeKind::IndexStmt(i) => seq![IrNodeView::CreateIndex(spec_create_index(i))],
        NodeKind::DropStmt(d) => spec_drop_stmt(d, raw_sql),
        NodeKind::RenameStmt(r) => seq![spec_rename(r, raw_sql)],
        NodeKind::TruncateStmt { relations, behavior } => spec_truncate(relations@, behavior),
        NodeKind::InsertStmt { relation } => seq![IrNodeView::InsertInto { table_name: spec_relation_name(relation) }],
        NodeKind::UpdateStmt { relation } => seq![IrNodeView::UpdateTable { table_name: spec_relation_name(relation) }],
        NodeKind::DeleteStmt { relation } => seq![IrNodeView::DeleteFrom { table_name: spec_relation_name(relation) }],
        NodeKind::ClusterStmt { relation, indexname } => seq![
            IrNodeView::Cluster { table: spec_relation_name(relation), index: spec_optional_name(indexname@) },
        ],
        NodeKind::DoStmt => seq![IrNodeView::Unparseable { raw_sql, table_hint: None }],
        _ => seq![IrNodeView::Ignored { raw_sql }],
    }
}

/// Convert one parsed statement into IR nodes.
pub fn convert_node(node: &NodeKind, raw_sql: &str) -> (r: Vec<IrNode>)
    ensures
        ir_nodes_view(r@) == spec_convert_node(*node, raw_sql@),
{
    match node {
        NodeKind::CreateStmt(c) => single(convert_create_table(c)),
        NodeKind::AlterTableStmt(a) => if a.objtype == ObjectType::Index {
            convert_alter_index(a, raw_sql)
        } else {
            single(convert_alter_table(a, raw_sql))
        },
        NodeKind::IndexStmt(i) => single(convert_create_index(i)),
        NodeKind::DropStmt(d) => convert_drop_stmt(d, raw_sql),
        NodeKind::RenameStmt(r) => single(convert_rename_stmt(r, raw_sql)),
        NodeKind::TruncateStmt { relations, behavior } => convert_truncate_stmt(relations, *behavior),
        NodeKind::InsertStmt { relation } => single(convert_insert_stmt(relation.as_ref())),
        NodeKind::UpdateStmt { relation } => single(convert_update_stmt(relation.as_ref())),
        NodeKind::DeleteStmt { relation } => single(convert_delete_stmt(relation.as_ref())),
        NodeKind::ClusterStmt { relation, indexname } => single(convert_cluster_stmt(relation.as_ref(), indexname.as_str())),
        NodeKind::DoStmt => single(IrNode::Unparseable { raw_sql: String::from_str(raw_sql), table_hint: None }),
        _ => single(ignored(raw_sql)),
    }
}

} // verus!
