//! What a rule can see while it checks one migration unit.
use vstd::prelude::*;
use crate::catalog::{seq_has_string, spec_find_index, vec_has_string, Catalog, IndexState};
use crate::parser::ir::QualifiedName;

verus! {

/// Which tables a rule treats as "existing".
#[derive(Debug, Clone, Copy, PartialEq, Eq, Structural)]
pub enum TableScope {
    /// In `catalog_before` and not created in the current change set:
    /// brand-new tables are exempt (locking and performance rules).
    ExcludeCreatedInChange,
    /// In `catalog_before`, whether or not the change set created it earlier
    /// (side-effect and integrity rules).
    AnyPreExisting,
}

/// Context available to rules while they lint one migration unit.
pub struct LintContext<'a> {
    /// The catalog before the unit was applied.
    pub catalog_before: &'a Catalog,
    /// The catalog after the unit was applied.
    pub catalog_after: &'a Catalog,
    /// Keys of the tables created so far in the changed files.
    pub tables_created_in_change: &'a Vec<String>,
    /// Whether the unit runs inside a transaction.
    pub run_in_transaction: bool,
    /// Whether the unit is a down (rollback) migration.
    pub is_down: bool,
    /// The file being linted.
    pub file: &'a str,
}

/// Whether a table with `key` existed before this unit and was not created
/// in the current change set.
pub open spec fn spec_is_existing(ctx: LintContext, key: Seq<char>) -> bool {
    ctx.catalog_before.spec_has_table(key) && !seq_has_string(ctx.tables_created_in_change@, key)
}

/// Whether a table with `key` falls under `scope`.
pub open spec fn spec_matches_scope(ctx: LintContext, key: Seq<char>, scope: TableScope) -> bool {
    match scope {
        TableScope::ExcludeCreatedInChange => spec_is_existing(ctx, key),
        TableScope::AnyPreExisting => ctx.catalog_before.spec_has_table(key),
    }
}

/// Both scopes need the table in the catalog before the change;
/// `ExcludeCreatedInChange` also needs it not created in the change, so it
/// is the narrower of the two.
pub proof fn lemma_scope_inclusion(ctx: LintContext, key: Seq<char>)
    ensures
        spec_matches_scope(ctx, key, TableScope::ExcludeCreatedInChange) ==> spec_matches_scope(
            ctx,
            key,
            TableScope::AnyPreExisting,
        ),
        spec_matches_scope(ctx, key, TableScope::AnyPreExisting) == ctx.catalog_before.spec_has_table(key),
{
}

/// Whether a parent (looked up by `parent_key` in `catalog_after`) lets its
/// partition child skip primary-key rules: it has a primary key, or it is
/// not tracked at all.
pub open spec fn spec_parent_covers(ctx: LintContext, parent_key: Seq<char>) -> bool {
    match ctx.catalog_after.spec_get_table(parent_key) {
        Some(p) => p.has_primary_key,
        None => true,
    }
}

/// The exemption rule of [`LintContext::partition_child_inherits_pk`].
pub open spec fn spec_child_inherits_pk(
    ctx: LintContext,
    ir_parent: Option<Seq<char>>,
    table_key: Seq<char>,
) -> bool {
    match ir_parent {
        Some(pk) => spec_parent_covers(ctx, pk),
        None => match ctx.catalog_after.spec_get_table(table_key) {
            Some(t) => match t.parent_table {
                Some(pk) => spec_parent_covers(ctx, pk@),
                None => false,
            },
            None => false,
        },
    }
}

impl<'a> LintContext<'a> {
    /// Whether the table existed before this change set and was not created in it.
    pub fn is_existing_table(&self, table_key: &str) -> (r: bool)
        ensures
            r == spec_is_existing(*self, table_key@),
    {
        self.catalog_before.has_table(table_key) && !vec_has_string(
            self.tables_created_in_change,
            table_key,
        )
    }

    /// Whether the table falls under `scope`.
    pub fn table_matches_scope(&self, table_key: &str, scope: TableScope) -> (r: bool)
        ensures
            r == spec_matches_scope(*self, table_key@, scope),
    {
        match scope {
            TableScope::ExcludeCreatedInChange => self.is_existing_table(table_key),
            TableScope::AnyPreExisting => self.catalog_before.has_table(table_key),
        }
    }

    fn parent_covers(&self, parent_key: &str) -> (r: bool)
        ensures
            r == spec_parent_covers(*self, parent_key@),
    {
        match self.catalog_after.get_table(parent_key) {
            Some(parent) => parent.has_primary_key,
            None => true,
        }
    }

    /// Whether a partition child should be exempt from primary-key rules
    /// because its parent has a primary key, or the parent is not in the
    /// catalog. The parent comes from `CREATE TABLE ... PARTITION OF` when
    /// given, else from the catalog's record of `ATTACH PARTITION`.
    pub fn partition_child_inherits_pk(
        &self,
        ir_partition_of: Option<&QualifiedName>,
        table_key: &str,
    ) -> (r: bool)
        ensures
            r == spec_child_inherits_pk(
                *self,
                match ir_partition_of {
                    Some(q) => Some(q@.key()),
                    None => None,
                },
                table_key@,
            ),
    {
        if let Some(parent_name) = ir_partition_of {
            return self.parent_covers(parent_name.catalog_key());
        }
        match self.catalog_after.get_table(table_key) {
            Some(table) => match &table.parent_table {
                Some(parent_key) => self.parent_covers(parent_key.as_str()),
                None => false,
            },
            None => false,
        }
    }

    /// The display name of the partitioned parent of `table_key`, looked up in
    /// `catalog_before`; the parent's key when the parent is not tracked;
    /// `None` when `table_key` is not a known partition child.
    pub fn parent_display_name(&self, table_key: &str) -> (r: Option<String>)
        ensures
            r.is_some() == (self.catalog_before.spec_get_table(table_key@).is_some()
                && self.catalog_before.spec_get_table(table_key@).unwrap().parent_table.is_some()),
            r.is_some() ==> ({
                let pk = self.catalog_before.spec_get_table(table_key@).unwrap().parent_table.unwrap()@;
                r.unwrap()@ == match self.catalog_before.spec_get_table(pk) {
                    Some(p) => p.display_name@,
                    None => pk,
                }
            }),
    {
        let table = match self.catalog_before.get_table(table_key) {
            Some(t) => t,
            None => return None,
        };
        let parent_key = match &table.parent_table {
            Some(k) => k,
            None => return None,
        };
        match self.catalog_before.get_table(parent_key.as_str()) {
            Some(p) => Some(p.display_name.clone()),
            None => Some(parent_key.clone()),
        }
    }

    /// The index named `name`, from `catalog_before` when it is there, else
    /// from `catalog_after` (an index created in this same unit).
    pub fn get_index(&self, name: &str) -> (r: Option<&IndexState>)
        ensures
            match r {
                Some(ix) => spec_ctx_find_index(*self, name@) == Some(*ix),
                None => spec_ctx_find_index(*self, name@).is_none(),
            },
    {
        match self.catalog_before.get_index(name) {
            Some(ix) => Some(ix),
            None => self.catalog_after.get_index(name),
        }
    }
}

/// The index named `name` as [`LintContext::get_index`] finds it.
pub open spec fn spec_ctx_find_index(ctx: LintContext, name: Seq<char>) -> Option<IndexState> {
    match spec_find_index(ctx.catalog_before.tables@, name) {
        Some(ix) => Some(ix),
        None => spec_find_index(ctx.catalog_after.tables@, name),
    }
}

} // verus!
