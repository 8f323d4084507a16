//! The PostgreSQL parse tree, as libpg_query reports it, restricted to what
//! the conversion to the IR reads.
//!
//! Each node keeps, beside its content, the SQL text that pg_query's deparser
//! prints for it: the IR keeps expressions (CHECK bodies, index expressions,
//! partition keys, function arguments) as that text.
use vstd::prelude::*;

verus! {

/// A parse tree node: its content (absent for an empty node) and its
/// deparsed SQL text.
#[derive(Debug)]
pub struct Node {
    pub node: Option<NodeKind>,
    pub deparsed: String,
}

/// A table reference: `schema.name`, with `inh == false` for `ONLY name`.
#[derive(Debug, Clone)]
pub struct RangeVar {
    pub schemaname: String,
    pub relname: String,
    pub inh: bool,
    /// `"p"` permanent, `"u"` unlogged, `"t"` temporary.
    pub relpersistence: String,
}

/// The value of a constant.
#[derive(Debug, Clone)]
pub enum ConstValue {
    Ival(i32),
    Sval(String),
    Boolval(bool),
    Fval(String),
    Bsval(String),
}

/// The kinds of constraint the conversion tells apart.
#[derive(Debug, Clone, Copy, PartialEq, Eq, Structural)]
pub enum ConstrType {
    NotNull,
    Default,
    Primary,
    Foreign,
    Unique,
    Check,
    Exclusion,
    /// Any other kind (NULL, IDENTITY, GENERATED, deferrability, ...).
    Other,
}

#[derive(Debug)]
pub struct Constraint {
    pub contype: ConstrType,
    pub conname: String,
    pub raw_expr: Option<Box<Node>>,
    pub keys: Vec<Node>,
    pub fk_attrs: Vec<Node>,
    pub pk_attrs: Vec<Node>,
    pub pktable: Option<RangeVar>,
    pub indexname: String,
    pub skip_validation: bool,
}

#[derive(Debug)]
pub struct TypeNameNode {
    pub names: Vec<Node>,
    pub typmods: Vec<Node>,
}

#[derive(Debug)]
pub struct ColumnDefNode {
    pub colname: String,
    pub column_type: Option<TypeNameNode>,
    pub constraints: Vec<Node>,
}

/// The `ALTER TABLE` subcommands the conversion tells apart.
#[derive(Debug, Clone, PartialEq, Eq)]
pub enum AlterTableType {
    AddColumn,
    DropColumn,
    AddConstraint,
    AlterColumnType,
    SetNotNull,
    DropNotNull,
    DropConstraint,
    ValidateConstraint,
    AttachPartition,
    DetachPartition,
    DisableTrig,
    DisableTrigAll,
    DisableTrigUser,
    /// Any other subcommand, by its name in pg_query (`AtEnableTrig`,
    /// `AtColumnDefault`, ...).
    Other(String),
}

#[derive(Debug)]
pub struct AlterTableCmd {
    pub subtype: AlterTableType,
    pub name: String,
    pub def: Option<Box<Node>>,
}

/// The object kinds of `ALTER`, `DROP` and `RENAME` statements that the
/// conversion tells apart.
#[derive(Debug, Clone, Copy, PartialEq, Eq, Structural)]
pub enum ObjectType {
    Table,
    Index,
    Column,
    Schema,
    Other,
}

/// `CASCADE` or not.
#[derive(Debug, Clone, Copy, PartialEq, Eq, Structural)]
pub enum DropBehavior {
    Restrict,
    Cascade,
}

/// `ON COMMIT` of a temporary table.
#[derive(Debug, Clone, Copy, PartialEq, Eq, Structural)]
pub enum OnCommit {
    Drop,
    DeleteRows,
    Other,
}

/// The strategy of `PARTITION BY`; `Undefined` for a value pg_query does not name.
#[derive(Debug, Clone, Copy, PartialEq, Eq, Structural)]
pub enum PartStrategy {
    Range,
    List,
    Hash,
    Undefined,
}

#[derive(Debug)]
pub struct PartitionSpec {
    pub strategy: PartStrategy,
    pub part_params: Vec<Node>,
}

#[derive(Debug)]
pub struct CreateStmt {
    pub relation: Option<RangeVar>,
    pub table_elts: Vec<Node>,
    pub inh_relations: Vec<Node>,
    /// The statement has a partition bound (`PARTITION OF ... FOR VALUES ...`).
    pub has_partbound: bool,
    pub partspec: Option<PartitionSpec>,
    pub oncommit: OnCommit,
    pub if_not_exists: bool,
}

#[derive(Debug)]
pub struct AlterTableStmt {
    pub relation: Option<RangeVar>,
    pub cmds: Vec<Node>,
    pub objtype: ObjectType,
}

#[derive(Debug)]
pub struct IndexStmt {
    pub idxname: String,
    pub relation: Option<RangeVar>,
    pub index_params: Vec<Node>,
    pub where_clause: Option<Box<Node>>,
    pub unique: bool,
    pub concurrent: bool,
    pub if_not_exists: bool,
}

#[derive(Debug)]
pub struct DropStmt {
    pub objects: Vec<Node>,
    pub remove_type: ObjectType,
    pub behavior: DropBehavior,
    pub missing_ok: bool,
    pub concurrent: bool,
}

#[derive(Debug, Clone)]
pub struct RenameStmt {
    pub rename_type: ObjectType,
    pub relation: Option<RangeVar>,
    pub subname: String,
    pub newname: String,
}

/// The node kinds the conversion reads; everything else is `Other`.
#[derive(Debug)]
pub enum NodeKind {
    String(String),
    Integer(i32),
    AConst(Option<ConstValue>),
    List(Vec<Node>),
    RangeVar(RangeVar),
    ColumnDef(ColumnDefNode),
    Constraint(Constraint),
    ColumnRef { fields: Vec<Node> },
    FuncCall { funcname: Vec<Node>, args: Vec<Node> },
    TypeCast { arg: Option<Box<Node>> },
    AExpr { lexpr: Option<Box<Node>>, rexpr: Option<Box<Node>> },
    BoolExpr { args: Vec<Node> },
    CaseExpr { arg: Option<Box<Node>>, args: Vec<Node>, defresult: Option<Box<Node>> },
    CaseWhen { expr: Option<Box<Node>>, result: Option<Box<Node>> },
    CoalesceExpr { args: Vec<Node> },
    NullTest { arg: Option<Box<Node>> },
    MinMaxExpr { args: Vec<Node> },
    PartitionElem { name: String, expr: Option<Box<Node>> },
    PartitionCmd { name: Option<RangeVar>, concurrent: bool },
    IndexElem { name: String, expr: Option<Box<Node>> },
    AlterTableCmd(AlterTableCmd),
    CreateStmt(CreateStmt),
    AlterTableStmt(AlterTableStmt),
    IndexStmt(IndexStmt),
    DropStmt(DropStmt),
    RenameStmt(RenameStmt),
    TruncateStmt { relations: Vec<Node>, behavior: DropBehavior },
    InsertStmt { relation: Option<RangeVar> },
    UpdateStmt { relation: Option<RangeVar> },
    DeleteStmt { relation: Option<RangeVar> },
    ClusterStmt { relation: Option<RangeVar>, indexname: String },
    DoStmt,
    Other,
}

/// One statement of a parsed source: its tree and where it stands, in bytes.
/// A `stmt_len` of 0 means "to the end of the source".
#[derive(Debug)]
pub struct RawStmt {
    pub stmt: Option<Node>,
    pub stmt_location: usize,
    pub stmt_len: usize,
}

} // verus!
