//! Rules about what a `DROP COLUMN` on a pre-existing table breaks: the rule
//! looks at the dropped column and the table as the catalog had it before
//! the change.
use vstd::prelude::*;
use crate::catalog::TableState;
use crate::parser::ir::{AlterTable, AlterTableAction, IrNode, Located};
use crate::rules::alter_table_check::{check_alter_actions, spec_check_alter_actions};
use crate::rules::context::{LintContext, TableScope};
use crate::rules::finding::{findings_view, Finding, FindingView};

verus! {

/// What a drop-column check gives for the dropped column, the statement's
/// `ALTER TABLE`, the table before the change and the statement.
pub type DropColumnSpec = spec_fn(Seq<char>, AlterTable, TableState, Located<IrNode>) -> Seq<FindingView>;

/// The findings for one action: the check's, for a `DROP COLUMN` on a table
/// the catalog had before the change; none otherwise.
pub open spec fn drop_column_action_findings(
    check: DropColumnSpec,
    ctx: LintContext,
    at: AlterTable,
    a: AlterTableAction,
    stmt: Located<IrNode>,
) -> Seq<FindingView> {
    match a {
        AlterTableAction::DropColumn { name } => match ctx.catalog_before.spec_get_table(at.name@.key()) {
            Some(table) => check(name@, at, table, stmt),
            None => Seq::empty(),
        },
        _ => Seq::empty(),
    }
}

/// The findings for a list of statements: those of the `DROP COLUMN`
/// actions on tables that existed before the change, in order.
pub open spec fn spec_check_drop_column_constraints(
    check: DropColumnSpec,
    ctx: LintContext,
    stmts: Seq<Located<IrNode>>,
) -> Seq<FindingView> {
    spec_check_alter_actions(
        TableScope::AnyPreExisting,
        |at: AlterTable, a: AlterTableAction, s: Located<IrNode>| drop_column_action_findings(check, ctx, at, a, s),
        ctx,
        stmts,
    )
}

/// Run `check` on every `DROP COLUMN` of a table that existed before the
/// change, with the table as the catalog had it; `check_spec` says what
/// `check` computes.
pub fn check_drop_column_constraints<F>(
    statements: &[Located<IrNode>],
    ctx: &LintContext,
    check: F,
    Ghost(check_spec): Ghost<DropColumnSpec>,
) -> (r: Vec<Finding>) where
    F: Fn(&str, &AlterTable, &TableState, &Located<IrNode>, &LintContext) -> Vec<Finding>,

    requires
        forall|n: &str, at: AlterTable, t: TableState, s: Located<IrNode>|
            #[trigger] call_requires(check, (n, &at, &t, &s, ctx)),
        forall|n: &str, at: AlterTable, t: TableState, s: Located<IrNode>, out: Vec<Finding>|
            #[trigger] call_ensures(check, (n, &at, &t, &s, ctx), out) ==> findings_view(out@) == check_spec(
                n@,
                at,
                t,
                s,
            ),
    ensures
        findings_view(r@) == spec_check_drop_column_constraints(check_spec, *ctx, statements@),
{
    let chk = &check;
    let gs: Ghost<DropColumnSpec> = Ghost(check_spec);
    let on_action = move |at: &AlterTable, action: &AlterTableAction, stmt: &Located<IrNode>, c: &LintContext| -> (out: Vec<
        Finding,
    >)
        requires
            c == ctx,
            forall|n: &str, at: AlterTable, t: TableState, s: Located<IrNode>|
                #[trigger] call_requires(chk, (n, &at, &t, &s, ctx)),
            forall|n: &str, at: AlterTable, t: TableState, s: Located<IrNode>, out: Vec<Finding>|
                #[trigger] call_ensures(chk, (n, &at, &t, &s, ctx), out) ==> findings_view(out@) == gs@(
                    n@,
                    at,
                    t,
                    s,
                ),
        ensures
            findings_view(out@) == drop_column_action_findings(gs@, *c, *at, *action, *stmt),
    {
        let empty: Vec<Finding> = Vec::new();
        proof {
            assert(findings_view(empty@) =~= Seq::<FindingView>::empty());
        }
        match action {
            AlterTableAction::DropColumn { name } => match c.catalog_before.get_table(at.name.catalog_key()) {
                Some(table) => chk(name.as_str(), at, table, stmt, c),
                None => empty,
            },
            _ => empty,
        }
    };
    check_alter_actions(
        statements,
        ctx,
        TableScope::AnyPreExisting,
        on_action,
        Ghost(|at: AlterTable, a: AlterTableAction, s: Located<IrNode>| drop_column_action_findings(check_spec, *ctx, at, a, s)),
    )
}

} // verus!
