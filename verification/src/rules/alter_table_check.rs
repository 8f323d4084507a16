//! Rules that look at the actions of `ALTER TABLE` statements on tables in a
//! given scope: the rule says what one action gives; the check walks the
//! statements and their actions.
use vstd::prelude::*;
use crate::parser::ir::{AlterTable, AlterTableAction, IrNode, Located};
use crate::rules::context::{spec_matches_scope, LintContext, TableScope};
use crate::rules::finding::{findings_view, lemma_findings_view_add, Finding, FindingView};

verus! {

/// What an action check gives for one action of `at` in statement `stmt`,
/// in the lint context at hand.
pub type ActionSpec = spec_fn(AlterTable, AlterTableAction, Located<IrNode>) -> Seq<FindingView>;

/// The findings for the actions `acts` of `at`, action by action.
pub open spec fn alter_action_findings(
    check: ActionSpec,
    ctx: LintContext,
    at: AlterTable,
    stmt: Located<IrNode>,
    acts: Seq<AlterTableAction>,
) -> Seq<FindingView>
    decreases acts.len(),
{
    if acts.len() == 0 {
        Seq::empty()
    } else {
        alter_action_findings(check, ctx, at, stmt, acts.drop_last()) + check(at, acts.last(), stmt)
    }
}

/// The findings for one statement: those of its actions, when it is an
/// `ALTER TABLE` of a table in `scope`.
pub open spec fn alter_stmt_findings(
    scope: TableScope,
    check: ActionSpec,
    ctx: LintContext,
    stmt: Located<IrNode>,
) -> Seq<FindingView> {
    match stmt.node {
        IrNode::AlterTable(at) => if spec_matches_scope(ctx, at.name@.key(), scope) {
            alter_action_findings(check, ctx, at, stmt, at.actions@)
        } else {
            Seq::empty()
        },
        _ => Seq::empty(),
    }
}

/// The findings for a list of statements, statement by statement.
pub open spec fn spec_check_alter_actions(
    scope: TableScope,
    check: ActionSpec,
    ctx: LintContext,
    stmts: Seq<Located<IrNode>>,
) -> Seq<FindingView>
    decreases stmts.len(),
{
    if stmts.len() == 0 {
        Seq::empty()
    } else {
        spec_check_alter_actions(scope, check, ctx, stmts.drop_last()) + alter_stmt_findings(
            scope,
            check,
            ctx,
            stmts.last(),
        )
    }
}

/// Run `check_action` on every action of every `ALTER TABLE` whose table is
/// in `scope`, in order, and gather what it reports; `action_spec` says
/// what `check_action` computes.
pub fn check_alter_actions<F>(
    statements: &[Located<IrNode>],
    ctx: &LintContext,
    scope: TableScope,
    check_action: F,
    Ghost(action_spec): Ghost<ActionSpec>,
) -> (r: Vec<Finding>) where
    F: Fn(&AlterTable, &AlterTableAction, &Located<IrNode>, &LintContext) -> Vec<Finding>,

    requires
        forall|at: AlterTable, a: AlterTableAction, s: Located<IrNode>|
            #[trigger] call_requires(check_action, (&at, &a, &s, ctx)),
        forall|at: AlterTable, a: AlterTableAction, s: Located<IrNode>, out: Vec<Finding>|
            #[trigger] call_ensures(check_action, (&at, &a, &s, ctx), out) ==> findings_view(out@) == action_spec(at, a, s),
    ensures
        findings_view(r@) == spec_check_alter_actions(scope, action_spec, *ctx, statements@),
{
    let mut r: Vec<Finding> = Vec::new();
    let mut i: usize = 0;
    proof {
        assert(findings_view(r@) =~= Seq::<FindingView>::empty());
    }
    while i < statements.len()
        invariant
            i <= statements.len(),
            forall|at: AlterTable, a: AlterTableAction, s: Located<IrNode>|
                #[trigger] call_requires(check_action, (&at, &a, &s, ctx)),
            forall|at: AlterTable, a: AlterTableAction, s: Located<IrNode>, out: Vec<Finding>|
                #[trigger] call_ensures(check_action, (&at, &a, &s, ctx), out) ==> findings_view(out@)
                    == action_spec(at, a, s),
            findings_view(r@) == spec_check_alter_actions(scope, action_spec, *ctx, statements@.take(i as int)),
        decreases statements.len() - i,
    {
        let stmt = &statements[i];
        let ghost before = r@;
        proof {
            assert(statements@.take(i + 1).drop_last() =~= statements@.take(i as int));
        }
        if let IrNode::AlterTable(at) = &stmt.node {
            if ctx.table_matches_scope(at.name.catalog_key(), scope) {
                let mut k: usize = 0;
                proof {
                    assert(at.actions@.take(0) =~= Seq::<AlterTableAction>::empty());
                    assert(findings_view(r@) =~= findings_view(before) + alter_action_findings(action_spec, *ctx, *at, *stmt, at.actions@.take(0)));
                }
                while k < at.actions.len()
                    invariant
                        k <= at.actions.len(),
                        forall|at: AlterTable, a: AlterTableAction, s: Located<IrNode>|
                            #[trigger] call_requires(check_action, (&at, &a, &s, ctx)),
                        forall|at: AlterTable, a: AlterTableAction, s: Located<IrNode>, out: Vec<Finding>|
                            #[trigger] call_ensures(check_action, (&at, &a, &s, ctx), out) ==> findings_view(out@)
                                == action_spec(at, a, s),
                        findings_view(r@) == findings_view(before) + alter_action_findings(
                            action_spec,
                            *ctx,
                            *at,
                            *stmt,
                            at.actions@.take(k as int),
                        ),
                    decreases at.actions.len() - k,
                {
                    let mut part = check_action(at, &at.actions[k], stmt, ctx);
                    proof {
                        assert(at.actions@.take(k + 1).drop_last() =~= at.actions@.take(k as int));
                        lemma_findings_view_add(r@, part@);
                    }
                    r.append(&mut part);
                    k = k + 1;
                }
                proof {
                    assert(at.actions@.take(at.actions@.len() as int) =~= at.actions@);
                }
            } else {
                proof {
                    assert(findings_view(r@) =~= findings_view(before) + Seq::<FindingView>::empty());
                }
            }
        } else {
            proof {
                assert(findings_view(r@) =~= findings_view(before) + Seq::<FindingView>::empty());
            }
        }
        i = i + 1;
    }
    proof {
        assert(statements@.take(statements@.len() as int) =~= statements@);
    }
    r
}

} // verus!
