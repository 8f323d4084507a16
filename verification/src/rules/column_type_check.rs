//! Rules that flag columns by their type: in `CREATE TABLE`, in
//! `ALTER TABLE ... ADD COLUMN` and in `ALTER COLUMN ... TYPE`.
use vstd::prelude::*;
use crate::parser::ir::{AlterTableAction, ColumnDef, IrNode, Located, QualifiedName, QualifiedNameView, SourceSpan, TypeName};
use crate::rules::context::LintContext;
use crate::rules::finding::{findings_view, lemma_findings_view_add, spec_finding, Finding, FindingView};
use crate::rules::ids::{RuleId, Severity};

verus! {

/// Whether a type is flagged.
pub type TypePredicate = spec_fn(TypeName) -> bool;

/// The message for a flagged column: its name, its table and its type.
pub type ColumnMessage = spec_fn(Seq<char>, QualifiedNameView, TypeName) -> Seq<char>;

/// The finding for column `c` of table `t` with type `tn`, if the type is
/// flagged.
pub open spec fn flagged_column(
    rule: RuleId,
    severity: Severity,
    ctx: LintContext,
    pred: TypePredicate,
    msg: ColumnMessage,
    t: QualifiedNameView,
    c: Seq<char>,
    tn: TypeName,
    span: SourceSpan,
) -> Seq<FindingView> {
    if pred(tn) {
        seq![spec_finding(rule, severity, msg(c, t, tn), ctx.file@, span)]
    } else {
        Seq::empty()
    }
}

/// The findings for the columns of `CREATE TABLE t`, column by column.
pub open spec fn flagged_columns(
    rule: RuleId,
    severity: Severity,
    ctx: LintContext,
    pred: TypePredicate,
    msg: ColumnMessage,
    t: QualifiedNameView,
    cols: Seq<ColumnDef>,
    span: SourceSpan,
) -> Seq<FindingView>
    decreases cols.len(),
{
    if cols.len() == 0 {
        Seq::empty()
    } else {
        flagged_columns(rule, severity, ctx, pred, msg, t, cols.drop_last(), span) + flagged_column(
            rule,
            severity,
            ctx,
            pred,
            msg,
            t,
            cols.last().name@,
            cols.last().data_type,
            span,
        )
    }
}

/// The finding for one action of `ALTER TABLE t`: an added column or a
/// column's new type, if flagged.
pub open spec fn flagged_action(
    rule: RuleId,
    severity: Severity,
    ctx: LintContext,
    pred: TypePredicate,
    msg: ColumnMessage,
    t: QualifiedNameView,
    a: AlterTableAction,
    span: SourceSpan,
) -> Seq<FindingView> {
    match a {
        AlterTableAction::AddColumn(col) => flagged_column(rule, severity, ctx, pred, msg, t, col.name@, col.data_type, span),
        AlterTableAction::AlterColumnType { column_name, new_type, .. } => flagged_column(
            rule,
            severity,
            ctx,
            pred,
            msg,
            t,
            column_name@,
            new_type,
            span,
        ),
        _ => Seq::empty(),
    }
}

/// The findings for the actions of `ALTER TABLE t`, action by action.
pub open spec fn flagged_actions(
    rule: RuleId,
    severity: Severity,
    ctx: LintContext,
    pred: TypePredicate,
    msg: ColumnMessage,
    t: QualifiedNameView,
    acts: Seq<AlterTableAction>,
    span: SourceSpan,
) -> Seq<FindingView>
    decreases acts.len(),
{
    if acts.len() == 0 {
        Seq::empty()
    } else {
        flagged_actions(rule, severity, ctx, pred, msg, t, acts.drop_last(), span) + flagged_action(
            rule,
            severity,
            ctx,
            pred,
            msg,
            t,
            acts.last(),
            span,
        )
    }
}

/// The findings for one statement.
pub open spec fn column_types_stmt(
    rule: RuleId,
    severity: Severity,
    ctx: LintContext,
    pred: TypePredicate,
    msg: ColumnMessage,
    stmt: Located<IrNode>,
) -> Seq<FindingView> {
    match stmt.node {
        IrNode::CreateTable(ct) => flagged_columns(rule, severity, ctx, pred, msg, ct.name@, ct.columns@, stmt.span),
        IrNode::AlterTable(at) => flagged_actions(rule, severity, ctx, pred, msg, at.name@, at.actions@, stmt.span),
        _ => Seq::empty(),
    }
}

/// The findings for a list of statements, statement by statement.
pub open spec fn spec_check_column_types(
    rule: RuleId,
    severity: Severity,
    ctx: LintContext,
    pred: TypePredicate,
    msg: ColumnMessage,
    stmts: Seq<Located<IrNode>>,
) -> Seq<FindingView>
    decreases stmts.len(),
{
    if stmts.len() == 0 {
        Seq::empty()
    } else {
        spec_check_column_types(rule, severity, ctx, pred, msg, stmts.drop_last()) + column_types_stmt(
            rule,
            severity,
            ctx,
            pred,
            msg,
            stmts.last(),
        )
    }
}

/// The finding for one column, if `predicate` flags its type.
fn check_one<P, M>(
    rule: RuleId,
    severity: Severity,
    ctx: &LintContext,
    predicate: &P,
    message_fn: &M,
    Ghost(pred): Ghost<TypePredicate>,
    Ghost(msg): Ghost<ColumnMessage>,
    t: &QualifiedName,
    c: &str,
    tn: &TypeName,
    span: &SourceSpan,
) -> (r: Vec<Finding>) where P: Fn(&TypeName) -> bool, M: Fn(&str, &QualifiedName, &TypeName) -> String
    requires
        forall|x: TypeName| #[trigger] call_requires(*predicate, (&x,)),
        forall|x: TypeName, b: bool| #[trigger] call_ensures(*predicate, (&x,), b) ==> b == pred(x),
        forall|c: &str, q: QualifiedName, x: TypeName| #[trigger] call_requires(*message_fn, (c, &q, &x)),
        forall|c: &str, q: QualifiedName, x: TypeName, m: String|
            #[trigger] call_ensures(*message_fn, (c, &q, &x), m) ==> m@ == msg(c@, q@, x),
    ensures
        findings_view(r@) == flagged_column(rule, severity, *ctx, pred, msg, t@, c@, *tn, *span),
{
    let mut r: Vec<Finding> = Vec::new();
    if predicate(tn) {
        r.push(Finding::new(rule, severity, message_fn(c, t, tn), ctx.file, span));
    }
    proof {
        assert(findings_view(r@) =~= flagged_column(rule, severity, *ctx, pred, msg, t@, c@, *tn, *span));
    }
    r
}

/// Flag every column whose type `predicate` flags: the columns of
/// `CREATE TABLE`, the columns `ALTER TABLE` adds and the new types it gives
/// columns, each with the message `message_fn` writes for it. `pred` and
/// `msg` say what the two compute.
pub fn check_column_types<P, M>(
    statements: &[Located<IrNode>],
    ctx: &LintContext,
    rule_id: RuleId,
    severity: Severity,
    predicate: P,
    message_fn: M,
    Ghost(pred): Ghost<TypePredicate>,
    Ghost(msg): Ghost<ColumnMessage>,
) -> (r: Vec<Finding>) where P: Fn(&TypeName) -> bool, M: Fn(&str, &QualifiedName, &TypeName) -> String
    requires
        forall|x: TypeName| #[trigger] call_requires(predicate, (&x,)),
        forall|x: TypeName, b: bool| #[trigger] call_ensures(predicate, (&x,), b) ==> b == pred(x),
        forall|c: &str, q: QualifiedName, x: TypeName| #[trigger] call_requires(message_fn, (c, &q, &x)),
        forall|c: &str, q: QualifiedName, x: TypeName, m: String|
            #[trigger] call_ensures(message_fn, (c, &q, &x), m) ==> m@ == msg(c@, q@, x),
    ensures
        findings_view(r@) == spec_check_column_types(rule_id, severity, *ctx, pred, msg, statements@),
{
    let mut r: Vec<Finding> = Vec::new();
    let mut i: usize = 0;
    proof {
        assert(findings_view(r@) =~= Seq::<FindingView>::empty());
    }
    while i < statements.len()
        invariant
            i <= statements.len(),
            forall|x: TypeName| #[trigger] call_requires(predicate, (&x,)),
            forall|x: TypeName, b: bool| #[trigger] call_ensures(predicate, (&x,), b) ==> b == pred(x),
            forall|c: &str, q: QualifiedName, x: TypeName| #[trigger] call_requires(message_fn, (c, &q, &x)),
            forall|c: &str, q: QualifiedName, x: TypeName, m: String|
                #[trigger] call_ensures(message_fn, (c, &q, &x), m) ==> m@ == msg(c@, q@, x),
            findings_view(r@) == spec_check_column_types(rule_id, severity, *ctx, pred, msg, statements@.take(i as int)),
        decreases statements.len() - i,
    {
        let stmt = &statements[i];
        let ghost before = r@;
        proof {
            assert(statements@.take(i + 1).drop_last() =~= statements@.take(i as int));
        }
        match &stmt.node {
            IrNode::CreateTable(ct) => {
                let mut k: usize = 0;
                proof {
                    assert(ct.columns@.take(0) =~= Seq::<ColumnDef>::empty());
                    assert(findings_view(r@) =~= findings_view(before) + flagged_columns(rule_id, severity, *ctx, pred, msg, ct.name@, ct.columns@.take(0), stmt.span));
                }
                while k < ct.columns.len()
                    invariant
                        k <= ct.columns.len(),
                        forall|x: TypeName| #[trigger] call_requires(predicate, (&x,)),
                        forall|x: TypeName, b: bool| #[trigger] call_ensures(predicate, (&x,), b) ==> b == pred(x),
                        forall|c: &str, q: QualifiedName, x: TypeName| #[trigger] call_requires(message_fn, (c, &q, &x)),
                        forall|c: &str, q: QualifiedName, x: TypeName, m: String|
                            #[trigger] call_ensures(message_fn, (c, &q, &x), m) ==> m@ == msg(c@, q@, x),
                        findings_view(r@) == findings_view(before) + flagged_columns(
                            rule_id,
                            severity,
                            *ctx,
                            pred,
                            msg,
                            ct.name@,
                            ct.columns@.take(k as int),
                            stmt.span,
                        ),
                    decreases ct.columns.len() - k,
                {
                    let col = &ct.columns[k];
                    let mut part = check_one(
                        rule_id,
                        severity,
                        ctx,
                        &predicate,
                        &message_fn,
                        Ghost(pred),
                        Ghost(msg),
                        &ct.name,
                        col.name.as_str(),
                        &col.data_type,
                        &stmt.span,
                    );
                    proof {
                        assert(ct.columns@.take(k + 1).drop_last() =~= ct.columns@.take(k as int));
                        lemma_findings_view_add(r@, part@);
                    }
                    r.append(&mut part);
                    k = k + 1;
                }
                proof {
                    assert(ct.columns@.take(ct.columns@.len() as int) =~= ct.columns@);
                }
            },
            IrNode::AlterTable(at) => {
                let mut k: usize = 0;
                proof {
                    assert(at.actions@.take(0) =~= Seq::<AlterTableAction>::empty());
                    assert(findings_view(r@) =~= findings_view(before) + flagged_actions(rule_id, severity, *ctx, pred, msg, at.name@, at.actions@.take(0), stmt.span));
                }
                while k < at.actions.len()
                    invariant
                        k <= at.actions.len(),
                        forall|x: TypeName| #[trigger] call_requires(predicate, (&x,)),
                        forall|x: TypeName, b: bool| #[trigger] call_ensures(predicate, (&x,), b) ==> b == pred(x),
                        forall|c: &str, q: QualifiedName, x: TypeName| #[trigger] call_requires(message_fn, (c, &q, &x)),
                        forall|c: &str, q: QualifiedName, x: TypeName, m: String|
                            #[trigger] call_ensures(message_fn, (c, &q, &x), m) ==> m@ == msg(c@, q@, x),
                        findings_view(r@) == findings_view(before) + flagged_actions(
                            rule_id,
                            severity,
                            *ctx,
                            pred,
                            msg,
                            at.name@,
                            at.actions@.take(k as int),
                            stmt.span,
                        ),
                    decreases at.actions.len() - k,
                {
                    let mut part = match &at.actions[k] {
                        AlterTableAction::AddColumn(col) => check_one(
                            rule_id,
                            severity,
                            ctx,
                            &predicate,
                            &message_fn,
                            Ghost(pred),
                            Ghost(msg),
                            &at.name,
                            col.name.as_str(),
                            &col.data_type,
                            &stmt.span,
                        ),
                        AlterTableAction::AlterColumnType { column_name, new_type, .. } => check_one(
                            rule_id,
                            severity,
                            ctx,
                            &predicate,
                            &message_fn,
                            Ghost(pred),
                            Ghost(msg),
                            &at.name,
                            column_name.as_str(),
                            new_type,
                            &stmt.span,
                        ),
                        _ => {
                            let e: Vec<Finding> = Vec::new();
                            proof {
                                assert(findings_view(e@) =~= Seq::<FindingView>::empty());
                            }
                            e
                        },
                    };
                    proof {
                        assert(at.actions@.take(k + 1).drop_last() =~= at.actions@.take(k as int));
                        lemma_findings_view_add(r@, part@);
                    }
                    r.append(&mut part);
                    k = k + 1;
                }
                proof {
                    assert(at.actions@.take(at.actions@.len() as int) =~= at.actions@);
                }
            },
            _ => {
                proof {
                    assert(findings_view(r@) =~= findings_view(before) + Seq::<FindingView>::empty());
                }
            },
        }
        i = i + 1;
    }
    proof {
        assert(statements@.take(statements@.len() as int) =~= statements@);
    }
    r
}

} // verus!
