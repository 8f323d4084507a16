//! Intermediate representation (IR) of the SQL statements a migration holds.
//!
//! The IR keeps only what the rules need, not the full PostgreSQL syntax tree.
use vstd::prelude::*;
use vstd::string::*;
use crate::text::{append_decimal, ascii_lowercase, is_ascii_text, to_lowercase, spec_decimal, std_to_lowercase, strings_view};

verus! {

/// The logical content of a [`QualifiedName`]: its schema (if any), its
/// name, and whether the schema was filled in by normalization.
pub struct QualifiedNameView {
    pub schema: Option<Seq<char>>,
    pub name: Seq<char>,
    pub schema_is_default: bool,
}

impl QualifiedNameView {
    /// The catalog lookup key: `schema.name` when a schema is known, `name` otherwise.
    pub open spec fn key(self) -> Seq<char> {
        match self.schema {
            Some(s) => s + seq!['.'] + self.name,
            None => self.name,
        }
    }

    /// The name with `d` as its schema if it had none, marked as a default.
    pub open spec fn with_default_schema(self, d: Seq<char>) -> QualifiedNameView {
        if self.schema.is_none() {
            QualifiedNameView { schema: Some(d), name: self.name, schema_is_default: true }
        } else {
            self
        }
    }

    /// The user-facing spelling: just `name` when the schema was synthesized,
    /// otherwise the catalog key.
    pub open spec fn display(self) -> Seq<char> {
        if self.schema_is_default {
            self.name
        } else {
            self.key()
        }
    }
}

/// Schema-qualified name. The catalog key is kept in step with the schema and
/// name by the type's invariant.
#[derive(Debug)]
pub struct QualifiedName {
    schema: Option<String>,
    name: String,
    catalog_key: String,
    schema_is_default: bool,
}

pub open spec fn opt_string_view(o: Option<String>) -> Option<Seq<char>> {
    match o {
        Some(s) => Some(s@),
        None => None,
    }
}

/// Normalizing a name to a default schema does not change how it is shown
/// to the user, and a name normalized once keeps its schema: a second
/// default changes nothing.
pub proof fn lemma_default_schema_laws(q: QualifiedNameView, d1: Seq<char>, d2: Seq<char>)
    ensures
        q.with_default_schema(d1).display() == q.display(),
        q.with_default_schema(d1).with_default_schema(d2) == q.with_default_schema(d1),
        q.schema.is_none() ==> q.with_default_schema(d1).key() == d1 + seq!['.'] + q.name,
{
}

impl View for QualifiedName {
    type V = QualifiedNameView;

    closed spec fn view(&self) -> QualifiedNameView {
        QualifiedNameView {
            schema: opt_string_view(self.schema),
            name: self.name@,
            schema_is_default: self.schema_is_default,
        }
    }
}

impl QualifiedName {
    #[verifier::type_invariant]
    closed spec fn key_cached(self) -> bool {
        &&& self.catalog_key@ == self@.key()
        &&& self.schema_is_default ==> self.schema.is_some()
    }

    /// A name with no schema.
    pub fn unqualified(name: &str) -> (q: QualifiedName)
        ensures
            q@.schema.is_none(),
            q@.name == name@,
            !q@.schema_is_default,
    {
        QualifiedName {
            schema: None,
            name: String::from_str(name),
            catalog_key: String::from_str(name),
            schema_is_default: false,
        }
    }

    /// A name with an explicit schema.
    pub fn qualified(schema: &str, name: &str) -> (q: QualifiedName)
        ensures
            q@.schema == Some(schema@),
            q@.name == name@,
            !q@.schema_is_default,
    {
        let mut key = String::from_str(schema);
        key.append(".");
        key.append(name);
        proof {
            reveal_strlit(".");
        }
        let s = String::from_str(schema);
        let n = String::from_str(name);
        assert(key@ =~= s@ + seq!['.'] + n@);
        QualifiedName { schema: Some(s), name: n, catalog_key: key, schema_is_default: false }
    }

    /// The schema, if one is known.
    pub fn schema(&self) -> (r: Option<&String>)
        ensures
            match r {
                Some(s) => self@.schema == Some(s@),
                None => self@.schema.is_none(),
            },
    {
        match &self.schema {
            Some(s) => Some(s),
            None => None,
        }
    }

    /// The unqualified object name.
    pub fn name(&self) -> (r: &String)
        ensures
            r@ == self@.name,
    {
        &self.name
    }

    /// The key used for catalog lookup: `schema.name` when qualified, `name` when not.
    pub fn catalog_key(&self) -> (r: &str)
        ensures
            r@ == self@.key(),
    {
        proof {
            use_type_invariant(self);
        }
        self.catalog_key.as_str()
    }

    /// Assign `default` as the schema of an unqualified name; a qualified name
    /// is left as it is.
    pub fn set_default_schema(&mut self, default: &str)
        ensures
            final(self)@ == old(self)@.with_default_schema(default@),
    {
        proof {
            use_type_invariant(&*self);
        }
        if self.schema.is_none() {
            let mut key = String::from_str(default);
            key.append(".");
            key.append(self.name.as_str());
            proof {
                reveal_strlit(".");
            }
            let s = String::from_str(default);
            let n = self.name.clone();
            assert(key@ =~= s@ + seq!['.'] + n@);
            *self = QualifiedName { schema: Some(s), name: n, catalog_key: key, schema_is_default: true };
        }
    }

    /// The user-facing name: just `name` when the schema was filled in by
    /// normalization, `schema.name` when the user wrote the schema.
    pub fn display_name(&self) -> (r: String)
        ensures
            r@ == self@.display(),
    {
        proof {
            use_type_invariant(self);
        }
        if self.schema_is_default {
            self.name.clone()
        } else {
            self.catalog_key.clone()
        }
    }

    /// The full `schema.name` spelling (or `name` when unqualified), whatever
    /// the origin of the schema.
    pub fn to_full_string(&self) -> (r: String)
        ensures
            r@ == self@.key(),
    {
        proof {
            use_type_invariant(self);
        }
        self.catalog_key.clone()
    }

    /// Whether two names denote the same object: same schema and same name.
    pub fn same_name(&self, other: &QualifiedName) -> (r: bool)
        ensures
            r == (self@.schema == other@.schema && self@.name == other@.name),
    {
        let same_schema = match (&self.schema, &other.schema) {
            (Some(a), Some(b)) => *a == *b,
            (None, None) => true,
            _ => false,
        };
        same_schema && self.name == other.name
    }

    /// An independent copy of this name.
    pub fn duplicate(&self) -> (r: QualifiedName)
        ensures
            r@ == self@,
    {
        proof {
            use_type_invariant(self);
        }
        let schema = match &self.schema {
            Some(s) => Some(s.clone()),
            None => None,
        };
        QualifiedName {
            schema,
            name: self.name.clone(),
            catalog_key: self.catalog_key.clone(),
            schema_is_default: self.schema_is_default,
        }
    }
}

impl Clone for QualifiedName {
    fn clone(&self) -> (r: Self)
        ensures
            r@ == self@,
    {
        self.duplicate()
    }
}

impl PartialEq for QualifiedName {
    fn eq(&self, other: &Self) -> (r: bool) {
        self.same_name(other)
    }
}

impl vstd::std_specs::cmp::PartialEqSpecImpl for QualifiedName {
    open spec fn obeys_eq_spec() -> bool {
        true
    }

    open spec fn eq_spec(&self, other: &QualifiedName) -> bool {
        self@.schema == other@.schema && self@.name == other@.name
    }
}

impl Eq for QualifiedName {}

impl std::hash::Hash for QualifiedName {
    /// std's `Hash::hash` of the pair (schema, name): the schema and the name
    /// only, as `==` compares them. Nothing is claimed of the hasher's state.
    #[verifier::external_body]
    fn hash<H: std::hash::Hasher>(&self, state: &mut H) {
        (&self.schema, &self.name).hash(state)
    }
}

/// A column type: the canonical base name (lowercased) and its modifiers,
/// e.g. `varchar(100)` has modifiers `[100]`, `numeric(10,2)` has `[10, 2]`.
#[derive(Debug, Clone, PartialEq)]
pub struct TypeName {
    pub name: String,
    pub modifiers: Vec<i64>,
}

/// The modifiers of a type joined by commas, e.g. `10,2`.
pub open spec fn spec_join_modifiers(m: Seq<i64>) -> Seq<char>
    decreases m.len(),
{
    if m.len() == 0 {
        Seq::empty()
    } else if m.len() == 1 {
        spec_decimal(m[0] as int)
    } else {
        spec_join_modifiers(m.drop_last()) + seq![','] + spec_decimal(m.last() as int)
    }
}

/// How a type is written: `name` or `name(m1,m2,...)`.
pub open spec fn spec_type_display(name: Seq<char>, m: Seq<i64>) -> Seq<char> {
    if m.len() == 0 {
        name
    } else {
        name + seq!['('] + spec_join_modifiers(m) + seq![')']
    }
}

impl TypeName {
    /// A type with no modifiers; the name is lowercased.
    pub fn simple(name: &str) -> (t: TypeName)
        ensures
            t.name@ == std_to_lowercase(name@),
            is_ascii_text(name@) ==> t.name@ == ascii_lowercase(name@),
            t.modifiers@.len() == 0,
    {
        TypeName { name: to_lowercase(name), modifiers: Vec::new() }
    }

    /// A type with the given modifiers; the name is lowercased.
    pub fn with_modifiers(name: &str, modifiers: Vec<i64>) -> (t: TypeName)
        ensures
            t.name@ == std_to_lowercase(name@),
            is_ascii_text(name@) ==> t.name@ == ascii_lowercase(name@),
            t.modifiers@ == modifiers@,
    {
        TypeName { name: to_lowercase(name), modifiers }
    }

    /// How the type is written in messages: `name` or `name(m1,m2,...)`.
    pub fn display_type(&self) -> (r: String)
        ensures
            r@ == spec_type_display(self.name@, self.modifiers@),
    {
        let mut r = self.name.clone();
        if self.modifiers.len() == 0 {
            return r;
        }
        r.append("(");
        proof {
            reveal_strlit("(");
        }
        let mut i: usize = 0;
        while i < self.modifiers.len()
            invariant
                0 < self.modifiers.len(),
                i <= self.modifiers.len(),
                i == 0 ==> r@ == self.name@ + seq!['('],
                i > 0 ==> r@ == self.name@ + seq!['('] + spec_join_modifiers(
                    self.modifiers@.subrange(0, i as int),
                ),
            decreases self.modifiers.len() - i,
        {
            proof {
                reveal_strlit("(");
                reveal_strlit(",");
            }
            let ghost before = r@;
            if i > 0 {
                r.append(",");
            }
            append_decimal(&mut r, self.modifiers[i]);
            proof {
                let sub = self.modifiers@.subrange(0, i + 1);
                assert(sub.drop_last() =~= self.modifiers@.subrange(0, i as int));
                if i == 0 {
                    assert(spec_join_modifiers(sub) == spec_decimal(self.modifiers@[0] as int));
                }
            }
            i = i + 1;
        }
        r.append(")");
        proof {
            reveal_strlit(")");
            assert(self.modifiers@.subrange(0, self.modifiers@.len() as int) =~= self.modifiers@);
        }
        r
    }
}

/// A column default.
#[derive(Debug, Clone, PartialEq)]
pub enum DefaultExpr {
    /// A constant literal: `0`, `'active'`, `TRUE`, ...
    Literal(String),
    /// A function call: `now()`, `gen_random_uuid()`, ...
    FunctionCall { name: String, args: Vec<String> },
    /// An expression that is neither; kept as text.
    Other(String),
}

/// A column as declared in `CREATE TABLE` or `ADD COLUMN`.
#[derive(Debug, Clone, PartialEq)]
pub struct ColumnDef {
    pub name: String,
    pub data_type: TypeName,
    /// `true` unless the column is `NOT NULL` (or an inline primary key).
    pub nullable: bool,
    pub default_expr: Option<DefaultExpr>,
    /// The column carries an inline `PRIMARY KEY`.
    pub is_inline_pk: bool,
    /// The column was declared `smallserial`, `serial` or `bigserial`.
    pub is_serial: bool,
}

/// A table-level constraint (inline column constraints are promoted to these).
#[derive(Debug, Clone, PartialEq)]
pub enum TableConstraint {
    PrimaryKey { columns: Vec<String>, using_index: Option<String> },
    ForeignKey {
        name: Option<String>,
        columns: Vec<String>,
        ref_table: QualifiedName,
        ref_columns: Vec<String>,
        not_valid: bool,
    },
    Unique { name: Option<String>, columns: Vec<String>, using_index: Option<String> },
    Check { name: Option<String>, expression: String, not_valid: bool },
    Exclude { name: Option<String> },
}

/// How a partitioned table splits its rows.
#[derive(Debug, Clone, Copy, PartialEq, Eq)]
pub enum PartitionStrategy {
    Range,
    List,
    Hash,
}

/// `PARTITION BY strategy (columns)`.
#[derive(Debug, Clone, PartialEq)]
pub struct PartitionBy {
    pub strategy: PartitionStrategy,
    pub columns: Vec<String>,
}

/// Whether a table is logged, unlogged or temporary.
#[derive(Debug, Clone, Copy, PartialEq, Eq)]
pub enum TablePersistence {
    Permanent,
    Unlogged,
    Temporary,
}

/// Which triggers `DISABLE TRIGGER` turns off.
#[derive(Debug, Clone, PartialEq)]
pub enum TriggerDisableScope {
    All,
    User,
    Named(String),
}

/// One element of an index: a plain column or an expression.
#[derive(Debug, Clone, PartialEq)]
pub enum IndexColumn {
    Column(String),
    Expression { text: String, referenced_columns: Vec<String> },
}

#[derive(Debug, Clone, PartialEq)]
pub struct CreateTable {
    pub name: QualifiedName,
    pub columns: Vec<ColumnDef>,
    pub constraints: Vec<TableConstraint>,
    pub persistence: TablePersistence,
    pub if_not_exists: bool,
    pub partition_by: Option<PartitionBy>,
    pub partition_of: Option<QualifiedName>,
}

#[derive(Debug, Clone, PartialEq)]
pub struct AlterTable {
    pub name: QualifiedName,
    pub actions: Vec<AlterTableAction>,
}

#[derive(Debug, Clone, PartialEq)]
pub enum AlterTableAction {
    AddColumn(ColumnDef),
    DropColumn { name: String },
    AddConstraint(TableConstraint),
    /// `old_type` is never known from the SQL itself; rules look it up in the catalog.
    AlterColumnType { column_name: String, new_type: TypeName, old_type: Option<TypeName> },
    SetNotNull { column_name: String },
    /// `ALTER COLUMN ... DROP NOT NULL`.
    DropNotNull { column_name: String },
    SetDefault { column_name: String, default_expr: DefaultExpr },
    /// `DROP CONSTRAINT [IF EXISTS] name`.
    DropConstraint { constraint_name: String },
    /// `VALIDATE CONSTRAINT name`.
    ValidateConstraint { constraint_name: String },
    AttachPartition { child: QualifiedName },
    DetachPartition { child: QualifiedName, concurrent: bool },
    DisableTrigger { scope: TriggerDisableScope },
    /// Any other action, kept as a description.
    Other { description: String },
}

#[derive(Debug, Clone, PartialEq)]
pub struct CreateIndex {
    pub index_name: Option<String>,
    pub table_name: QualifiedName,
    pub columns: Vec<IndexColumn>,
    pub unique: bool,
    pub concurrent: bool,
    pub if_not_exists: bool,
    pub where_clause: Option<String>,
    /// `CREATE INDEX ... ON ONLY parent`.
    pub only: bool,
}

#[derive(Debug, Clone, PartialEq)]
pub struct DropIndex {
    pub index_name: String,
    pub concurrent: bool,
    pub if_exists: bool,
}

#[derive(Debug, Clone, PartialEq)]
pub struct DropTable {
    pub name: QualifiedName,
    pub if_exists: bool,
    pub cascade: bool,
}

#[derive(Debug, Clone, PartialEq)]
pub struct DropSchema {
    pub schema_name: String,
    pub if_exists: bool,
    pub cascade: bool,
}

#[derive(Debug, Clone, PartialEq)]
pub struct TruncateTable {
    pub name: QualifiedName,
    pub cascade: bool,
}

#[derive(Debug, Clone, PartialEq)]
pub struct InsertInto {
    pub table_name: QualifiedName,
}

#[derive(Debug, Clone, PartialEq)]
pub struct UpdateTable {
    pub table_name: QualifiedName,
}

#[derive(Debug, Clone, PartialEq)]
pub struct DeleteFrom {
    pub table_name: QualifiedName,
}

#[derive(Debug, Clone, PartialEq)]
pub struct Cluster {
    pub table: QualifiedName,
    pub index: Option<String>,
}

/// A parsed statement mapped to the operation it performs.
#[derive(Debug, Clone, PartialEq)]
pub enum IrNode {
    CreateTable(CreateTable),
    AlterTable(AlterTable),
    CreateIndex(CreateIndex),
    DropIndex(DropIndex),
    DropTable(DropTable),
    DropSchema(DropSchema),
    RenameTable { name: QualifiedName, new_name: String },
    RenameColumn { table: QualifiedName, old_name: String, new_name: String },
    TruncateTable(TruncateTable),
    InsertInto(InsertInto),
    UpdateTable(UpdateTable),
    DeleteFrom(DeleteFrom),
    Cluster(Cluster),
    AlterIndexAttachPartition { parent_index_name: String, child_index_name: QualifiedName },
    /// Parsed SQL with no IR mapping (GRANT, COMMENT ON, ...).
    Ignored { raw_sql: String },
    /// SQL that failed to parse or is opaque (DO blocks); `table_hint` names
    /// the table it most likely touches.
    Unparseable { raw_sql: String, table_hint: Option<String> },
}

// ---------------------------------------------------------------------------
// Views: the IR as mathematical values
// ---------------------------------------------------------------------------

pub struct TypeNameView {
    pub name: Seq<char>,
    pub modifiers: Seq<i64>,
}

impl View for TypeName {
    type V = TypeNameView;

    open spec fn view(&self) -> TypeNameView {
        TypeNameView { name: self.name@, modifiers: self.modifiers@ }
    }
}

pub enum DefaultExprView {
    Literal(Seq<char>),
    FunctionCall { name: Seq<char>, args: Seq<Seq<char>> },
    Other(Seq<char>),
}

impl View for DefaultExpr {
    type V = DefaultExprView;

    open spec fn view(&self) -> DefaultExprView {
        match self {
            DefaultExpr::Literal(s) => DefaultExprView::Literal(s@),
            DefaultExpr::FunctionCall { name, args } => DefaultExprView::FunctionCall {
                name: name@,
                args: strings_view(args@),
            },
            DefaultExpr::Other(s) => DefaultExprView::Other(s@),
        }
    }
}

pub open spec fn opt_default_view(o: Option<DefaultExpr>) -> Option<DefaultExprView> {
    match o {
        Some(d) => Some(d@),
        None => None,
    }
}

pub struct ColumnDefView {
    pub name: Seq<char>,
    pub data_type: TypeNameView,
    pub nullable: bool,
    pub default_expr: Option<DefaultExprView>,
    pub is_inline_pk: bool,
    pub is_serial: bool,
}

impl View for ColumnDef {
    type V = ColumnDefView;

    open spec fn view(&self) -> ColumnDefView {
        ColumnDefView {
            name: self.name@,
            data_type: self.data_type@,
            nullable: self.nullable,
            default_expr: opt_default_view(self.default_expr),
            is_inline_pk: self.is_inline_pk,
            is_serial: self.is_serial,
        }
    }
}

pub enum TableConstraintView {
    PrimaryKey { columns: Seq<Seq<char>>, using_index: Option<Seq<char>> },
    ForeignKey {
        name: Option<Seq<char>>,
        columns: Seq<Seq<char>>,
        ref_table: QualifiedNameView,
        ref_columns: Seq<Seq<char>>,
        not_valid: bool,
    },
    Unique { name: Option<Seq<char>>, columns: Seq<Seq<char>>, using_index: Option<Seq<char>> },
    Check { name: Option<Seq<char>>, expression: Seq<char>, not_valid: bool },
    Exclude { name: Option<Seq<char>> },
}

impl View for TableConstraint {
    type V = TableConstraintView;

    open spec fn view(&self) -> TableConstraintView {
        match self {
            TableConstraint::PrimaryKey { columns, using_index } => TableConstraintView::PrimaryKey {
                columns: strings_view(columns@),
                using_index: opt_string_view(*using_index),
            },
            TableConstraint::ForeignKey { name, columns, ref_table, ref_columns, not_valid } =>
                TableConstraintView::ForeignKey {
                name: opt_string_view(*name),
                columns: strings_view(columns@),
                ref_table: ref_table@,
                ref_columns: strings_view(ref_columns@),
                not_valid: *not_valid,
            },
            TableConstraint::Unique { name, columns, using_index } => TableConstraintView::Unique {
                name: opt_string_view(*name),
                columns: strings_view(columns@),
                using_index: opt_string_view(*using_index),
            },
            TableConstraint::Check { name, expression, not_valid } => TableConstraintView::Check {
                name: opt_string_view(*name),
                expression: expression@,
                not_valid: *not_valid,
            },
            TableConstraint::Exclude { name } => TableConstraintView::Exclude { name: opt_string_view(*name) },
        }
    }
}

pub struct PartitionByView {
    pub strategy: PartitionStrategy,
    pub columns: Seq<Seq<char>>,
}

pub enum IndexColumnView {
    Column(Seq<char>),
    Expression { text: Seq<char>, referenced_columns: Seq<Seq<char>> },
}

impl View for IndexColumn {
    type V = IndexColumnView;

    open spec fn view(&self) -> IndexColumnView {
        match self {
            IndexColumn::Column(c) => IndexColumnView::Column(c@),
            IndexColumn::Expression { text, referenced_columns } => IndexColumnView::Expression {
                text: text@,
                referenced_columns: strings_view(referenced_columns@),
            },
        }
    }
}

pub enum TriggerScopeView {
    All,
    User,
    Named(Seq<char>),
}

pub enum AlterTableActionView {
    AddColumn(ColumnDefView),
    DropColumn { name: Seq<char> },
    AddConstraint(TableConstraintView),
    AlterColumnType { column_name: Seq<char>, new_type: TypeNameView, old_type: Option<TypeNameView> },
    SetNotNull { column_name: Seq<char> },
    DropNotNull { column_name: Seq<char> },
    SetDefault { column_name: Seq<char>, default_expr: DefaultExprView },
    DropConstraint { constraint_name: Seq<char> },
    ValidateConstraint { constraint_name: Seq<char> },
    AttachPartition { child: QualifiedNameView },
    DetachPartition { child: QualifiedNameView, concurrent: bool },
    DisableTrigger { scope: TriggerScopeView },
    Other { description: Seq<char> },
}

impl View for AlterTableAction {
    type V = AlterTableActionView;

    open spec fn view(&self) -> AlterTableActionView {
        match self {
            AlterTableAction::AddColumn(c) => AlterTableActionView::AddColumn(c@),
            AlterTableAction::DropColumn { name } => AlterTableActionView::DropColumn { name: name@ },
            AlterTableAction::AddConstraint(c) => AlterTableActionView::AddConstraint(c@),
            AlterTableAction::AlterColumnType { column_name, new_type, old_type } =>
                AlterTableActionView::AlterColumnType {
                column_name: column_name@,
                new_type: new_type@,
                old_type: match old_type {
                    Some(t) => Some(t@),
                    None => None,
                },
            },
            AlterTableAction::SetNotNull { column_name } => AlterTableActionView::SetNotNull {
                column_name: column_name@,
            },
            AlterTableAction::DropNotNull { column_name } => AlterTableActionView::DropNotNull {
                column_name: column_name@,
            },
            AlterTableAction::DropConstraint { constraint_name } => AlterTableActionView::DropConstraint {
                constraint_name: constraint_name@,
            },
            AlterTableAction::ValidateConstraint { constraint_name } => AlterTableActionView::ValidateConstraint {
                constraint_name: constraint_name@,
            },
            AlterTableAction::SetDefault { column_name, default_expr } => AlterTableActionView::SetDefault {
                column_name: column_name@,
                default_expr: default_expr@,
            },
            AlterTableAction::AttachPartition { child } => AlterTableActionView::AttachPartition { child: child@ },
            AlterTableAction::DetachPartition { child, concurrent } => AlterTableActionView::DetachPartition {
                child: child@,
                concurrent: *concurrent,
            },
            AlterTableAction::DisableTrigger { scope } => AlterTableActionView::DisableTrigger {
                scope: match scope {
                    TriggerDisableScope::All => TriggerScopeView::All,
                    TriggerDisableScope::User => TriggerScopeView::User,
                    TriggerDisableScope::Named(n) => TriggerScopeView::Named(n@),
                },
            },
            AlterTableAction::Other { description } => AlterTableActionView::Other { description: description@ },
        }
    }
}

pub struct CreateTableView {
    pub name: QualifiedNameView,
    pub columns: Seq<ColumnDefView>,
    pub constraints: Seq<TableConstraintView>,
    pub persistence: TablePersistence,
    pub if_not_exists: bool,
    pub partition_by: Option<PartitionByView>,
    pub partition_of: Option<QualifiedNameView>,
}

pub struct CreateIndexView {
    pub index_name: Option<Seq<char>>,
    pub table_name: QualifiedNameView,
    pub columns: Seq<IndexColumnView>,
    pub unique: bool,
    pub concurrent: bool,
    pub if_not_exists: bool,
    pub where_clause: Option<Seq<char>>,
    pub only: bool,
}

pub enum IrNodeView {
    CreateTable(CreateTableView),
    AlterTable { name: QualifiedNameView, actions: Seq<AlterTableActionView> },
    CreateIndex(CreateIndexView),
    DropIndex { index_name: Seq<char>, concurrent: bool, if_exists: bool },
    DropTable { name: QualifiedNameView, if_exists: bool, cascade: bool },
    DropSchema { schema_name: Seq<char>, if_exists: bool, cascade: bool },
    RenameTable { name: QualifiedNameView, new_name: Seq<char> },
    RenameColumn { table: QualifiedNameView, old_name: Seq<char>, new_name: Seq<char> },
    TruncateTable { name: QualifiedNameView, cascade: bool },
    InsertInto { table_name: QualifiedNameView },
    UpdateTable { table_name: QualifiedNameView },
    DeleteFrom { table_name: QualifiedNameView },
    Cluster { table: QualifiedNameView, index: Option<Seq<char>> },
    AlterIndexAttachPartition { parent_index_name: Seq<char>, child_index_name: QualifiedNameView },
    Ignored { raw_sql: Seq<char> },
    Unparseable { raw_sql: Seq<char>, table_hint: Option<Seq<char>> },
}

pub open spec fn columns_view(s: Seq<ColumnDef>) -> Seq<ColumnDefView> {
    s.map_values(|c: ColumnDef| c@)
}

pub open spec fn constraints_view(s: Seq<TableConstraint>) -> Seq<TableConstraintView> {
    s.map_values(|c: TableConstraint| c@)
}

pub open spec fn actions_view(s: Seq<AlterTableAction>) -> Seq<AlterTableActionView> {
    s.map_values(|a: AlterTableAction| a@)
}

pub open spec fn index_columns_view(s: Seq<IndexColumn>) -> Seq<IndexColumnView> {
    s.map_values(|c: IndexColumn| c@)
}

impl View for IrNode {
    type V = IrNodeView;

    open spec fn view(&self) -> IrNodeView {
        match self {
            IrNode::CreateTable(ct) => IrNodeView::CreateTable(CreateTableView {
                name: ct.name@,
                columns: columns_view(ct.columns@),
                constraints: constraints_view(ct.constraints@),
                persistence: ct.persistence,
                if_not_exists: ct.if_not_exists,
                partition_by: match ct.partition_by {
                    Some(pb) => Some(PartitionByView { strategy: pb.strategy, columns: strings_view(pb.columns@) }),
                    None => None,
                },
                partition_of: match ct.partition_of {
                    Some(q) => Some(q@),
                    None => None,
                },
            }),
            IrNode::AlterTable(at) => IrNodeView::AlterTable { name: at.name@, actions: actions_view(at.actions@) },
            IrNode::CreateIndex(ci) => IrNodeView::CreateIndex(CreateIndexView {
                index_name: opt_string_view(ci.index_name),
                table_name: ci.table_name@,
                columns: index_columns_view(ci.columns@),
                unique: ci.unique,
                concurrent: ci.concurrent,
                if_not_exists: ci.if_not_exists,
                where_clause: opt_string_view(ci.where_clause),
                only: ci.only,
            }),
            IrNode::DropIndex(di) => IrNodeView::DropIndex {
                index_name: di.index_name@,
                concurrent: di.concurrent,
                if_exists: di.if_exists,
            },
            IrNode::DropTable(dt) => IrNodeView::DropTable { name: dt.name@, if_exists: dt.if_exists, cascade: dt.cascade },
            IrNode::DropSchema(ds) => IrNodeView::DropSchema {
                schema_name: ds.schema_name@,
                if_exists: ds.if_exists,
                cascade: ds.cascade,
            },
            IrNode::RenameTable { name, new_name } => IrNodeView::RenameTable { name: name@, new_name: new_name@ },
            IrNode::RenameColumn { table, old_name, new_name } => IrNodeView::RenameColumn {
                table: table@,
                old_name: old_name@,
                new_name: new_name@,
            },
            IrNode::TruncateTable(tt) => IrNodeView::TruncateTable { name: tt.name@, cascade: tt.cascade },
            IrNode::InsertInto(ii) => IrNodeView::InsertInto { table_name: ii.table_name@ },
            IrNode::UpdateTable(ut) => IrNodeView::UpdateTable { table_name: ut.table_name@ },
            IrNode::DeleteFrom(df) => IrNodeView::DeleteFrom { table_name: df.table_name@ },
            IrNode::Cluster(c) => IrNodeView::Cluster { table: c.table@, index: opt_string_view(c.index) },
            IrNode::AlterIndexAttachPartition { parent_index_name, child_index_name } =>
                IrNodeView::AlterIndexAttachPartition {
                parent_index_name: parent_index_name@,
                child_index_name: child_index_name@,
            },
            IrNode::Ignored { raw_sql } => IrNodeView::Ignored { raw_sql: raw_sql@ },
            IrNode::Unparseable { raw_sql, table_hint } => IrNodeView::Unparseable {
                raw_sql: raw_sql@,
                table_hint: opt_string_view(*table_hint),
            },
        }
    }
}

pub open spec fn ir_nodes_view(s: Seq<IrNode>) -> Seq<IrNodeView> {
    s.map_values(|n: IrNode| n@)
}

/// Where a statement stands in its source file.
#[derive(Debug, Clone, Copy, PartialEq, Eq)]
pub struct SourceSpan {
    /// 1-based.
    pub start_line: usize,
    /// 1-based, inclusive.
    pub end_line: usize,
    /// Byte offset from the start of the file.
    pub start_offset: usize,
    pub end_offset: usize,
}

impl SourceSpan {
    /// A span covering lines `start_line..=end_line`, with no byte offsets.
    pub fn at(start_line: usize, end_line: usize) -> (s: SourceSpan)
        ensures
            s.start_line == start_line,
            s.end_line == end_line,
            s.start_offset == 0,
            s.end_offset == 0,
    {
        SourceSpan { start_line, end_line, start_offset: 0, end_offset: 0 }
    }
}

/// A statement together with its source location.
#[derive(Debug, Clone)]
pub struct Located<T> {
    pub node: T,
    pub span: SourceSpan,
}

} // verus!
