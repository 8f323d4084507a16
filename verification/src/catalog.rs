//! The schema catalog: what the migrations replayed so far have created.
//!
//! Tables are kept in a `Vec` in creation order and found by their catalog
//! key (`schema.name` or `name`); the first table with a key wins.
use vstd::prelude::*;
use vstd::string::*;
use crate::parser::ir::{PartitionBy, PartitionStrategy, TypeName};
use crate::text::str_eq;

verus! {

/// A column as the catalog knows it.
#[derive(Debug, Clone)]
pub struct ColumnState {
    pub name: String,
    pub data_type: TypeName,
    pub nullable: bool,
    pub has_default: bool,
}

/// An index element: a plain column or an expression over columns.
#[derive(Debug, Clone)]
pub enum IndexEntry {
    Column(String),
    Expression { text: String, referenced_columns: Vec<String> },
}

/// An index as the catalog knows it.
#[derive(Debug, Clone)]
pub struct IndexState {
    pub name: String,
    pub entries: Vec<IndexEntry>,
    pub unique: bool,
    /// Created with `ON ONLY` on a partitioned parent.
    pub only: bool,
    /// `btree`, `gin`, `gist`, ...
    pub access_method: String,
}

/// A constraint as the catalog knows it.
#[derive(Debug, Clone)]
pub enum ConstraintState {
    PrimaryKey { columns: Vec<String> },
    ForeignKey {
        name: Option<String>,
        columns: Vec<String>,
        /// Catalog key of the referenced table.
        ref_table: String,
        /// User-facing name of the referenced table.
        ref_table_display: String,
        ref_columns: Vec<String>,
    },
    Unique { name: Option<String>, columns: Vec<String> },
    /// `columns` are the columns the check expression refers to.
    Check { name: Option<String>, columns: Vec<String> },
    Exclude { name: Option<String> },
}

/// A table as the catalog knows it.
#[derive(Debug, Clone)]
pub struct TableState {
    /// Catalog key (`schema.name` or `name`).
    pub name: String,
    /// User-facing name.
    pub display_name: String,
    pub columns: Vec<ColumnState>,
    pub indexes: Vec<IndexState>,
    pub constraints: Vec<ConstraintState>,
    pub has_primary_key: bool,
    pub is_partitioned: bool,
    pub partition_by: Option<PartitionBy>,
    /// Catalog key of the partitioned parent, for a partition child.
    pub parent_table: Option<String>,
}

/// The whole schema.
#[derive(Debug, Clone)]
pub struct Catalog {
    pub tables: Vec<TableState>,
}

/// Whether some string in `v` has the characters `k`.
pub open spec fn seq_has_string(v: Seq<String>, k: Seq<char>) -> bool {
    exists|i: int| 0 <= i < v.len() && #[trigger] v[i]@ == k
}

/// Index of the first table whose key is `key`, or `-1`.
pub open spec fn first_table_index(tables: Seq<TableState>, key: Seq<char>) -> int
    decreases tables.len(),
{
    if tables.len() == 0 {
        -1
    } else {
        let rest = first_table_index(tables.drop_last(), key);
        if rest >= 0 {
            rest
        } else if tables.last().name@ == key {
            tables.len() - 1
        } else {
            -1
        }
    }
}

/// Index of the first index named `name` among `indexes`, or `-1`.
pub open spec fn first_index_index(indexes: Seq<IndexState>, name: Seq<char>) -> int
    decreases indexes.len(),
{
    if indexes.len() == 0 {
        -1
    } else {
        let rest = first_index_index(indexes.drop_last(), name);
        if rest >= 0 {
            rest
        } else if indexes.last().name@ == name {
            indexes.len() - 1
        } else {
            -1
        }
    }
}

/// Index of the first table holding an index named `name`, or `-1`.
pub open spec fn first_table_with_index(tables: Seq<TableState>, name: Seq<char>) -> int
    decreases tables.len(),
{
    if tables.len() == 0 {
        -1
    } else {
        let rest = first_table_with_index(tables.drop_last(), name);
        if rest >= 0 {
            rest
        } else if first_index_index(tables.last().indexes@, name) >= 0 {
            tables.len() - 1
        } else {
            -1
        }
    }
}

pub proof fn lemma_first_table_index_range(tables: Seq<TableState>, key: Seq<char>)
    ensures
        -1 <= first_table_index(tables, key) < tables.len(),
        first_table_index(tables, key) >= 0 ==> tables[first_table_index(tables, key)].name@
            == key,
        first_table_index(tables, key) < 0 ==> forall|i: int|
            0 <= i < tables.len() ==> tables[i].name@ != key,
        first_table_index(tables, key) >= 0 ==> forall|i: int|
            0 <= i < first_table_index(tables, key) ==> tables[i].name@ != key,
    decreases tables.len(),
{
    if tables.len() > 0 {
        lemma_first_table_index_range(tables.drop_last(), key);
        assert forall|i: int| 0 <= i < tables.len() - 1 implies #[trigger] tables[i] == tables.drop_last()[i] by {}
    }
}

pub proof fn lemma_first_index_index_range(indexes: Seq<IndexState>, name: Seq<char>)
    ensures
        -1 <= first_index_index(indexes, name) < indexes.len(),
        first_index_index(indexes, name) >= 0 ==> indexes[first_index_index(indexes, name)].name@
            == name,
        first_index_index(indexes, name) < 0 ==> forall|i: int|
            0 <= i < indexes.len() ==> indexes[i].name@ != name,
        first_index_index(indexes, name) >= 0 ==> forall|i: int|
            0 <= i < first_index_index(indexes, name) ==> indexes[i].name@ != name,
    decreases indexes.len(),
{
    if indexes.len() > 0 {
        lemma_first_index_index_range(indexes.drop_last(), name);
        assert forall|i: int| 0 <= i < indexes.len() - 1 implies #[trigger] indexes[i] == indexes.drop_last()[i] by {}
    }
}

pub proof fn lemma_first_table_with_index_range(tables: Seq<TableState>, name: Seq<char>)
    ensures
        -1 <= first_table_with_index(tables, name) < tables.len(),
        first_table_with_index(tables, name) >= 0 ==> first_index_index(
            tables[first_table_with_index(tables, name)].indexes@,
            name,
        ) >= 0,
        first_table_with_index(tables, name) < 0 ==> forall|i: int|
            0 <= i < tables.len() ==> first_index_index(#[trigger] tables[i].indexes@, name) < 0,
        first_table_with_index(tables, name) >= 0 ==> forall|i: int|
            0 <= i < first_table_with_index(tables, name) ==> first_index_index(
                #[trigger] tables[i].indexes@,
                name,
            ) < 0,
    decreases tables.len(),
{
    if tables.len() > 0 {
        lemma_first_table_with_index_range(tables.drop_last(), name);
        assert forall|i: int| 0 <= i < tables.len() - 1 implies #[trigger] tables[i] == tables.drop_last()[i] by {}
    }
}

/// The first index named `name` in the first table that has one.
pub open spec fn spec_find_index(tables: Seq<TableState>, name: Seq<char>) -> Option<IndexState> {
    let t = first_table_with_index(tables, name);
    if t >= 0 {
        Some(tables[t].indexes@[first_index_index(tables[t].indexes@, name)])
    } else {
        None
    }
}

impl Catalog {
    /// The table with key `key`, if any.
    pub open spec fn spec_get_table(self, key: Seq<char>) -> Option<TableState> {
        let i = first_table_index(self.tables@, key);
        if i >= 0 {
            Some(self.tables@[i])
        } else {
            None
        }
    }

    pub open spec fn spec_has_table(self, key: Seq<char>) -> bool {
        first_table_index(self.tables@, key) >= 0
    }

    /// An empty catalog.
    pub fn new() -> (c: Catalog)
        ensures
            c.tables@.len() == 0,
    {
        Catalog { tables: Vec::new() }
    }

    /// This catalog with `table` added after the existing tables.
    pub fn with_table(self, table: TableState) -> (c: Catalog)
        ensures
            c.tables@ == self.tables@.push(table),
    {
        let mut c = self;
        c.tables.push(table);
        c
    }

    fn find_table(&self, key: &str) -> (r: Option<usize>)
        ensures
            match r {
                Some(i) => i as int == first_table_index(self.tables@, key@) && i
                    < self.tables@.len(),
                None => first_table_index(self.tables@, key@) < 0,
            },
    {
        let mut i: usize = 0;
        proof {
            lemma_first_table_index_range(self.tables@, key@);
        }
        while i < self.tables.len()
            invariant
                i <= self.tables.len(),
                forall|j: int| 0 <= j < i ==> self.tables@[j].name@ != key@,
                -1 <= first_table_index(self.tables@, key@) < self.tables@.len(),
                first_table_index(self.tables@, key@) >= 0 ==> self.tables@[first_table_index(
                    self.tables@,
                    key@,
                )].name@ == key@,
                first_table_index(self.tables@, key@) < 0 ==> forall|j: int|
                    0 <= j < self.tables@.len() ==> self.tables@[j].name@ != key@,
                first_table_index(self.tables@, key@) >= 0 ==> forall|j: int|
                    0 <= j < first_table_index(self.tables@, key@) ==> self.tables@[j].name@
                        != key@,
            decreases self.tables.len() - i,
        {
            if str_eq(self.tables[i].name.as_str(), key) {
                return Some(i);
            }
            i = i + 1;
        }
        None
    }

    /// The table with key `key`, if any.
    pub fn get_table(&self, key: &str) -> (r: Option<&TableState>)
        ensures
            match r {
                Some(t) => self.spec_get_table(key@) == Some(*t),
                None => self.spec_get_table(key@).is_none(),
            },
    {
        match self.find_table(key) {
            Some(i) => Some(&self.tables[i]),
            None => None,
        }
    }

    /// Whether a table with key `key` exists.
    pub fn has_table(&self, key: &str) -> (r: bool)
        ensures
            r == self.spec_has_table(key@),
    {
        self.find_table(key).is_some()
    }

    /// The first index named `name`, searching the tables in order.
    pub fn get_index(&self, name: &str) -> (r: Option<&IndexState>)
        ensures
            match r {
                Some(ix) => spec_find_index(self.tables@, name@) == Some(*ix),
                None => spec_find_index(self.tables@, name@).is_none(),
            },
    {
        match self.find_table_with_index(name) {
            Some(i) => {
                let t = &self.tables[i];
                match t.find_index(name) {
                    Some(k) => Some(&t.indexes[k]),
                    None => None,
                }
            },
            None => None,
        }
    }

    /// The key of the table that owns the index named `name`.
    pub fn table_for_index(&self, name: &str) -> (r: Option<&String>)
        ensures
            match r {
                Some(k) => first_table_with_index(self.tables@, name@) >= 0 && k@
                    == self.tables@[first_table_with_index(self.tables@, name@)].name@,
                None => first_table_with_index(self.tables@, name@) < 0,
            },
    {
        match self.find_table_with_index(name) {
            Some(i) => Some(&self.tables[i].name),
            None => None,
        }
    }

    fn find_table_with_index(&self, name: &str) -> (r: Option<usize>)
        ensures
            match r {
                Some(i) => i as int == first_table_with_index(self.tables@, name@) && i
                    < self.tables@.len() && first_index_index(self.tables@[i as int].indexes@, name@)
                    >= 0,
                None => first_table_with_index(self.tables@, name@) < 0,
            },
    {
        proof {
            lemma_first_table_with_index_range(self.tables@, name@);
        }
        let mut i: usize = 0;
        while i < self.tables.len()
            invariant
                i <= self.tables.len(),
                forall|j: int|
                    0 <= j < i ==> first_index_index(#[trigger] self.tables@[j].indexes@, name@)
                        < 0,
                -1 <= first_table_with_index(self.tables@, name@) < self.tables@.len(),
                first_table_with_index(self.tables@, name@) >= 0 ==> first_index_index(
                    self.tables@[first_table_with_index(self.tables@, name@)].indexes@,
                    name@,
                ) >= 0,
                first_table_with_index(self.tables@, name@) < 0 ==> forall|j: int|
                    0 <= j < self.tables@.len() ==> first_index_index(
                        #[trigger] self.tables@[j].indexes@,
                        name@,
                    ) < 0,
                first_table_with_index(self.tables@, name@) >= 0 ==> forall|j: int|
                    0 <= j < first_table_with_index(self.tables@, name@) ==> first_index_index(
                        #[trigger] self.tables@[j].indexes@,
                        name@,
                    ) < 0,
            decreases self.tables.len() - i,
        {
            if self.tables[i].find_index(name).is_some() {
                assert(first_index_index(self.tables@[i as int].indexes@, name@) >= 0);
                return Some(i);
            }
            i = i + 1;
        }
        None
    }
}

/// Whether `v` holds a string with the characters of `k`.
pub fn vec_has_string(v: &Vec<String>, k: &str) -> (r: bool)
    ensures
        r == seq_has_string(v@, k@),
{
    let mut i: usize = 0;
    while i < v.len()
        invariant
            i <= v.len(),
            forall|j: int| 0 <= j < i ==> v@[j]@ != k@,
        decreases v.len() - i,
    {
        if str_eq(v[i].as_str(), k) {
            return true;
        }
        i = i + 1;
    }
    false
}

/// Whether an index entry mentions column `col` (as the column itself, or
/// among the columns an expression refers to).
pub open spec fn entry_involves(e: IndexEntry, col: Seq<char>) -> bool {
    match e {
        IndexEntry::Column(c) => c@ == col,
        IndexEntry::Expression { referenced_columns, .. } => seq_has_string(
            referenced_columns@,
            col,
        ),
    }
}

pub open spec fn index_involves(ix: IndexState, col: Seq<char>) -> bool {
    exists|i: int| 0 <= i < ix.entries@.len() && entry_involves(#[trigger] ix.entries@[i], col)
}

/// The columns a constraint is declared over (none for `EXCLUDE`).
pub open spec fn constraint_columns(c: ConstraintState) -> Seq<String> {
    match c {
        ConstraintState::PrimaryKey { columns } => columns@,
        ConstraintState::ForeignKey { columns, .. } => columns@,
        ConstraintState::Unique { columns, .. } => columns@,
        ConstraintState::Check { columns, .. } => columns@,
        ConstraintState::Exclude { .. } => Seq::empty(),
    }
}

pub open spec fn constraint_involves(c: ConstraintState, col: Seq<char>) -> bool {
    seq_has_string(constraint_columns(c), col)
}

/// Index of the first column named `name`, or `-1`.
pub open spec fn first_column_index(cols: Seq<ColumnState>, name: Seq<char>) -> int
    decreases cols.len(),
{
    if cols.len() == 0 {
        -1
    } else {
        let rest = first_column_index(cols.drop_last(), name);
        if rest >= 0 {
            rest
        } else if cols.last().name@ == name {
            cols.len() - 1
        } else {
            -1
        }
    }
}

pub proof fn lemma_first_column_index_range(cols: Seq<ColumnState>, name: Seq<char>)
    ensures
        -1 <= first_column_index(cols, name) < cols.len(),
        first_column_index(cols, name) >= 0 ==> cols[first_column_index(cols, name)].name@
            == name,
        first_column_index(cols, name) < 0 ==> forall|i: int|
            0 <= i < cols.len() ==> cols[i].name@ != name,
        first_column_index(cols, name) >= 0 ==> forall|i: int|
            0 <= i < first_column_index(cols, name) ==> cols[i].name@ != name,
    decreases cols.len(),
{
    if cols.len() > 0 {
        lemma_first_column_index_range(cols.drop_last(), name);
        assert forall|i: int| 0 <= i < cols.len() - 1 implies #[trigger] cols[i] == cols.drop_last()[i] by {}
    }
}

impl TableState {
    /// The column named `name`, if any.
    pub open spec fn spec_get_column(self, name: Seq<char>) -> Option<ColumnState> {
        let i = first_column_index(self.columns@, name);
        if i >= 0 {
            Some(self.columns@[i])
        } else {
            None
        }
    }

    /// The constraints that involve column `col`, in declaration order.
    pub open spec fn spec_constraints_involving(self, col: Seq<char>) -> Seq<ConstraintState> {
        self.constraints@.filter(|c: ConstraintState| constraint_involves(c, col))
    }

    /// The indexes that involve column `col`, in declaration order.
    pub open spec fn spec_indexes_involving(self, col: Seq<char>) -> Seq<IndexState> {
        self.indexes@.filter(|ix: IndexState| index_involves(ix, col))
    }

    /// A table with the given key and no columns, indexes or constraints; its
    /// display name is its key.
    pub fn new(name: &str) -> (t: TableState)
        ensures
            t.name@ == name@,
            t.display_name@ == name@,
            t.columns@.len() == 0,
            t.indexes@.len() == 0,
            t.constraints@.len() == 0,
            !t.has_primary_key,
            !t.is_partitioned,
            t.partition_by.is_none(),
            t.parent_table.is_none(),
    {
        TableState {
            name: String::from_str(name),
            display_name: String::from_str(name),
            columns: Vec::new(),
            indexes: Vec::new(),
            constraints: Vec::new(),
            has_primary_key: false,
            is_partitioned: false,
            partition_by: None,
            parent_table: None,
        }
    }

    /// This table with a column added at the end. The type name is taken as
    /// written; the column has no default.
    pub fn column(self, name: &str, type_text: &str, nullable: bool) -> (t: TableState)
        ensures
            t.columns@.len() == self.columns@.len() + 1,
            t.columns@.drop_last() == self.columns@,
            t.columns@.last().name@ == name@,
            t.columns@.last().data_type.name@ == type_text@,
            t.columns@.last().data_type.modifiers@.len() == 0,
            t.columns@.last().nullable == nullable,
            !t.columns@.last().has_default,
            t.name == self.name,
            t.display_name == self.display_name,
            t.indexes == self.indexes,
            t.constraints == self.constraints,
            t.has_primary_key == self.has_primary_key,
            t.is_partitioned == self.is_partitioned,
            t.partition_by == self.partition_by,
            t.parent_table == self.parent_table,
    {
        let mut t = self;
        t.columns.push(
            ColumnState {
                name: String::from_str(name),
                data_type: TypeName { name: String::from_str(type_text), modifiers: Vec::new() },
                nullable,
                has_default: false,
            },
        );
        proof {
            assert(t.columns@.drop_last() =~= self.columns@);
        }
        t
    }

    /// This table with a primary key over `columns`.
    pub fn pk(self, columns: Vec<String>) -> (t: TableState)
        ensures
            t.constraints@ == self.constraints@.push(ConstraintState::PrimaryKey { columns }),
            t.has_primary_key,
            t.name == self.name,
            t.display_name == self.display_name,
            t.columns == self.columns,
            t.indexes == self.indexes,
            t.is_partitioned == self.is_partitioned,
            t.partition_by == self.partition_by,
            t.parent_table == self.parent_table,
    {
        let mut t = self;
        t.constraints.push(ConstraintState::PrimaryKey { columns });
        t.has_primary_key = true;
        t
    }

    /// This table with another constraint.
    pub fn constraint(self, c: ConstraintState) -> (t: TableState)
        ensures
            t.constraints@ == self.constraints@.push(c),
            t.name == self.name,
            t.display_name == self.display_name,
            t.columns == self.columns,
            t.indexes == self.indexes,
            t.has_primary_key == self.has_primary_key,
            t.is_partitioned == self.is_partitioned,
            t.partition_by == self.partition_by,
            t.parent_table == self.parent_table,
    {
        let mut t = self;
        t.constraints.push(c);
        t
    }

    /// This table with another index.
    pub fn index(self, ix: IndexState) -> (t: TableState)
        ensures
            t.indexes@ == self.indexes@.push(ix),
            t.name == self.name,
            t.display_name == self.display_name,
            t.columns == self.columns,
            t.constraints == self.constraints,
            t.has_primary_key == self.has_primary_key,
            t.is_partitioned == self.is_partitioned,
            t.partition_by == self.partition_by,
            t.parent_table == self.parent_table,
    {
        let mut t = self;
        t.indexes.push(ix);
        t
    }

    /// This table, partitioned by `strategy` over `columns`.
    pub fn partitioned_by(self, strategy: PartitionStrategy, columns: Vec<String>) -> (t:
        TableState)
        ensures
            t.is_partitioned,
            t.partition_by == Some(PartitionBy { strategy, columns }),
            t.name == self.name,
            t.display_name == self.display_name,
            t.columns == self.columns,
            t.indexes == self.indexes,
            t.constraints == self.constraints,
            t.has_primary_key == self.has_primary_key,
            t.parent_table == self.parent_table,
    {
        let mut t = self;
        t.is_partitioned = true;
        t.partition_by = Some(PartitionBy { strategy, columns });
        t
    }

    /// This table, as a partition of the table with key `parent`.
    pub fn partition_of(self, parent: &str) -> (t: TableState)
        ensures
            t.parent_table.is_some() && t.parent_table.unwrap()@ == parent@,
            t.name == self.name,
            t.display_name == self.display_name,
            t.columns == self.columns,
            t.indexes == self.indexes,
            t.constraints == self.constraints,
            t.has_primary_key == self.has_primary_key,
            t.is_partitioned == self.is_partitioned,
            t.partition_by == self.partition_by,
    {
        let mut t = self;
        t.parent_table = Some(String::from_str(parent));
        t
    }

    /// This table with another user-facing name.
    pub fn with_display_name(self, display: &str) -> (t: TableState)
        ensures
            t.display_name@ == display@,
            t.name == self.name,
            t.columns == self.columns,
            t.indexes == self.indexes,
            t.constraints == self.constraints,
            t.has_primary_key == self.has_primary_key,
            t.is_partitioned == self.is_partitioned,
            t.partition_by == self.partition_by,
            t.parent_table == self.parent_table,
    {
        let mut t = self;
        t.display_name = String::from_str(display);
        t
    }

    /// The column named `name`, if any.
    pub fn get_column(&self, name: &str) -> (r: Option<&ColumnState>)
        ensures
            match r {
                Some(c) => self.spec_get_column(name@) == Some(*c),
                None => self.spec_get_column(name@).is_none(),
            },
    {
        proof {
            lemma_first_column_index_range(self.columns@, name@);
        }
        let mut i: usize = 0;
        while i < self.columns.len()
            invariant
                i <= self.columns.len(),
                forall|j: int| 0 <= j < i ==> self.columns@[j].name@ != name@,
                -1 <= first_column_index(self.columns@, name@) < self.columns@.len(),
                first_column_index(self.columns@, name@) >= 0 ==> self.columns@[first_column_index(
                    self.columns@,
                    name@,
                )].name@ == name@,
                first_column_index(self.columns@, name@) < 0 ==> forall|j: int|
                    0 <= j < self.columns@.len() ==> self.columns@[j].name@ != name@,
                first_column_index(self.columns@, name@) >= 0 ==> forall|j: int|
                    0 <= j < first_column_index(self.columns@, name@) ==> self.columns@[j].name@
                        != name@,
            decreases self.columns.len() - i,
        {
            if str_eq(self.columns[i].name.as_str(), name) {
                return Some(&self.columns[i]);
            }
            i = i + 1;
        }
        None
    }

    fn find_index(&self, name: &str) -> (r: Option<usize>)
        ensures
            match r {
                Some(i) => i as int == first_index_index(self.indexes@, name@) && i
                    < self.indexes@.len(),
                None => first_index_index(self.indexes@, name@) < 0,
            },
    {
        proof {
            lemma_first_index_index_range(self.indexes@, name@);
        }
        let mut i: usize = 0;
        while i < self.indexes.len()
            invariant
                i <= self.indexes.len(),
                forall|j: int| 0 <= j < i ==> self.indexes@[j].name@ != name@,
                -1 <= first_index_index(self.indexes@, name@) < self.indexes@.len(),
                first_index_index(self.indexes@, name@) >= 0 ==> self.indexes@[first_index_index(
                    self.indexes@,
                    name@,
                )].name@ == name@,
                first_index_index(self.indexes@, name@) < 0 ==> forall|j: int|
                    0 <= j < self.indexes@.len() ==> self.indexes@[j].name@ != name@,
                first_index_index(self.indexes@, name@) >= 0 ==> forall|j: int|
                    0 <= j < first_index_index(self.indexes@, name@) ==> self.indexes@[j].name@
                        != name@,
            decreases self.indexes.len() - i,
        {
            if str_eq(self.indexes[i].name.as_str(), name) {
                return Some(i);
            }
            i = i + 1;
        }
        None
    }

    /// The constraints that involve column `col`, in declaration order.
    pub fn constraints_involving_column(&self, col: &str) -> (r: Vec<&ConstraintState>)
        ensures
            r@.len() == self.spec_constraints_involving(col@).len(),
            forall|i: int|
                0 <= i < r@.len() ==> *r@[i] == self.spec_constraints_involving(col@)[i],
    {
        let ghost pred = |c: ConstraintState| constraint_involves(c, col@);
        let mut r: Vec<&ConstraintState> = Vec::new();
        let mut i: usize = 0;
        while i < self.constraints.len()
            invariant
                i <= self.constraints.len(),
                pred == (|c: ConstraintState| constraint_involves(c, col@)),
                r@.len() == self.constraints@.take(i as int).filter(pred).len(),
                forall|j: int|
                    0 <= j < r@.len() ==> *r@[j] == self.constraints@.take(i as int).filter(
                        pred,
                    )[j],
            decreases self.constraints.len() - i,
        {
            proof {
                assert(self.constraints@.take(i + 1).drop_last() =~= self.constraints@.take(
                    i as int,
                ));
                reveal_with_fuel(Seq::filter, 1);
            }
            let c = &self.constraints[i];
            let cols: Option<&Vec<String>> = match c {
                ConstraintState::PrimaryKey { columns } => Some(columns),
                ConstraintState::ForeignKey { columns, .. } => Some(columns),
                ConstraintState::Unique { columns, .. } => Some(columns),
                ConstraintState::Check { columns, .. } => Some(columns),
                ConstraintState::Exclude { .. } => None,
            };
            let involved = match cols {
                Some(cs) => vec_has_string(cs, col),
                None => false,
            };
            if involved {
                r.push(c);
            }
            i = i + 1;
        }
        proof {
            assert(self.constraints@.take(self.constraints@.len() as int) =~= self.constraints@);
        }
        r
    }

    /// The indexes that involve column `col`, in declaration order.
    pub fn indexes_involving_column(&self, col: &str) -> (r: Vec<&IndexState>)
        ensures
            r@.len() == self.spec_indexes_involving(col@).len(),
            forall|i: int| 0 <= i < r@.len() ==> *r@[i] == self.spec_indexes_involving(col@)[i],
    {
        let ghost pred = |ix: IndexState| index_involves(ix, col@);
        let mut r: Vec<&IndexState> = Vec::new();
        let mut i: usize = 0;
        while i < self.indexes.len()
            invariant
                i <= self.indexes.len(),
                pred == (|ix: IndexState| index_involves(ix, col@)),
                r@.len() == self.indexes@.take(i as int).filter(pred).len(),
                forall|j: int|
                    0 <= j < r@.len() ==> *r@[j] == self.indexes@.take(i as int).filter(pred)[j],
            decreases self.indexes.len() - i,
        {
            proof {
                assert(self.indexes@.take(i + 1).drop_last() =~= self.indexes@.take(i as int));
                reveal_with_fuel(Seq::filter, 1);
            }
            let ix = &self.indexes[i];
            if ix.involves_column(col) {
                r.push(ix);
            }
            i = i + 1;
        }
        proof {
            assert(self.indexes@.take(self.indexes@.len() as int) =~= self.indexes@);
        }
        r
    }

    /// Whether some CHECK constraint refers to every column in `columns`.
    pub fn has_check_referencing_columns(&self, columns: &Vec<String>) -> (r: bool)
        ensures
            r == exists|i: int|
                0 <= i < self.constraints@.len() && check_covers(
                    #[trigger] self.constraints@[i],
                    columns@,
                ),
    {
        let mut i: usize = 0;
        while i < self.constraints.len()
            invariant
                i <= self.constraints.len(),
                forall|j: int| 0 <= j < i ==> !check_covers(#[trigger] self.constraints@[j], columns@),
            decreases self.constraints.len() - i,
        {
            if let ConstraintState::Check { columns: check_cols, .. } = &self.constraints[i] {
                if all_in(columns, check_cols) {
                    return true;
                }
            }
            i = i + 1;
        }
        false
    }

    /// Whether the table has any CHECK constraint.
    pub fn has_any_check(&self) -> (r: bool)
        ensures
            r == exists|i: int|
                0 <= i < self.constraints@.len() && (#[trigger] self.constraints@[i] is Check),
    {
        let mut i: usize = 0;
        while i < self.constraints.len()
            invariant
                i <= self.constraints.len(),
                forall|j: int| 0 <= j < i ==> !(#[trigger] self.constraints@[j] is Check),
            decreases self.constraints.len() - i,
        {
            if let ConstraintState::Check { .. } = &self.constraints[i] {
                return true;
            }
            i = i + 1;
        }
        false
    }
}

/// A CHECK constraint over (at least) every column in `cols`.
pub open spec fn check_covers(c: ConstraintState, cols: Seq<String>) -> bool {
    match c {
        ConstraintState::Check { columns, .. } => forall|k: int|
            0 <= k < cols.len() ==> seq_has_string(columns@, #[trigger] cols[k]@),
        _ => false,
    }
}

/// Whether every string of `needles` occurs in `hay`.
pub fn all_in(needles: &Vec<String>, hay: &Vec<String>) -> (r: bool)
    ensures
        r == forall|k: int| 0 <= k < needles@.len() ==> seq_has_string(hay@, #[trigger] needles@[k]@),
{
    let mut i: usize = 0;
    while i < needles.len()
        invariant
            i <= needles.len(),
            forall|k: int| 0 <= k < i ==> seq_has_string(hay@, #[trigger] needles@[k]@),
        decreases needles.len() - i,
    {
        if !vec_has_string(hay, needles[i].as_str()) {
            return false;
        }
        i = i + 1;
    }
    true
}

impl IndexState {
    /// A btree index with the given plain columns.
    pub fn new(name: &str, columns: Vec<String>, unique: bool) -> (ix: IndexState)
        ensures
            ix.name@ == name@,
            ix.entries@.len() == columns@.len(),
            forall|i: int|
                0 <= i < columns@.len() ==> ix.entries@[i] == IndexEntry::Column(
                    #[trigger] columns@[i],
                ),
            ix.unique == unique,
            !ix.only,
            ix.access_method@ == "btree"@,
    {
        let mut entries: Vec<IndexEntry> = Vec::new();
        let mut cols = columns;
        let ghost orig = cols@;
        let mut i: usize = 0;
        let n = cols.len();
        while i < n
            invariant
                n == orig.len(),
                i <= n,
                cols@ == orig,
                entries@.len() == i,
                forall|j: int| 0 <= j < i ==> entries@[j] == IndexEntry::Column(#[trigger] orig[j]),
            decreases n - i,
        {
            entries.push(IndexEntry::Column(cols[i].clone()));
            i = i + 1;
        }
        IndexState {
            name: String::from_str(name),
            entries,
            unique,
            only: false,
            access_method: String::from_str("btree"),
        }
    }

    /// Whether the index is a btree.
    pub open spec fn spec_is_btree(self) -> bool {
        self.access_method@ == "btree"@
    }

    pub fn is_btree(&self) -> (r: bool)
        ensures
            r == self.spec_is_btree(),
    {
        str_eq(self.access_method.as_str(), "btree")
    }

    /// The plain columns of the index (expression elements are skipped), in order.
    pub open spec fn spec_column_names(self) -> Seq<Seq<char>> {
        entry_column_names(self.entries@)
    }

    /// Whether the index mentions column `col`.
    pub fn involves_column(&self, col: &str) -> (r: bool)
        ensures
            r == index_involves(*self, col@),
    {
        let mut i: usize = 0;
        while i < self.entries.len()
            invariant
                i <= self.entries.len(),
                forall|j: int| 0 <= j < i ==> !entry_involves(#[trigger] self.entries@[j], col@),
            decreases self.entries.len() - i,
        {
            let hit = match &self.entries[i] {
                IndexEntry::Column(c) => str_eq(c.as_str(), col),
                IndexEntry::Expression { referenced_columns, .. } => vec_has_string(
                    referenced_columns,
                    col,
                ),
            };
            if hit {
                return true;
            }
            i = i + 1;
        }
        false
    }
}

/// The plain columns among index entries, in order.
pub open spec fn entry_column_names(entries: Seq<IndexEntry>) -> Seq<Seq<char>>
    decreases entries.len(),
{
    if entries.len() == 0 {
        Seq::empty()
    } else {
        let rest = entry_column_names(entries.drop_last());
        match entries.last() {
            IndexEntry::Column(c) => rest.push(c@),
            _ => rest,
        }
    }
}

} // verus!
