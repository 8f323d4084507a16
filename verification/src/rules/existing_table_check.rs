//! Rules that flag a statement touching a table that existed before the
//! change: the rule says which table a statement touches and with what
//! message; the check keeps the statements whose table pre-exists.
use vstd::prelude::*;
use crate::parser::ir::{IrNode, Located, QualifiedName, QualifiedNameView, SourceSpan};
use crate::rules::checks::fv;
use crate::rules::context::{spec_is_existing, LintContext};
use crate::rules::finding::{findings_view, lemma_findings_view_add, Finding, FindingView};
use crate::rules::ids::RuleId;

verus! {

/// What an extraction gives back, as plain values.
pub open spec fn target_view(t: Option<(QualifiedName, String)>) -> Option<(QualifiedNameView, Seq<char>)> {
    match t {
        Some((q, m)) => Some((q@, m@)),
        None => None,
    }
}

/// Whether the findings of `rule` carry the table's catalog key as their
/// dedup key, so that several statements of one kind on one table
/// (`INSERT`, `UPDATE`, `DELETE`) can be collapsed into one report.
pub open spec fn dedups_by_table(rule: RuleId) -> bool {
    rule == RuleId::Pgm301 || rule == RuleId::Pgm302 || rule == RuleId::Pgm303
}

/// The finding of `rule` with `msg` on the table `name` at `span`: at the
/// rule's default severity, with the table's catalog key as dedup key when
/// the rule dedups by table.
pub open spec fn existing_finding(
    rule: RuleId,
    ctx: LintContext,
    name: QualifiedNameView,
    msg: Seq<char>,
    span: SourceSpan,
) -> FindingView {
    let f = fv(rule, ctx, msg, span);
    if dedups_by_table(rule) {
        FindingView { dedup_key: Some(name.key()), ..f }
    } else {
        f
    }
}

/// The finding for one statement: one, when `extract` names a table for it
/// and that table existed before the change.
pub open spec fn existing_table_findings(
    rule: RuleId,
    ctx: LintContext,
    extract: spec_fn(IrNode) -> Option<(QualifiedNameView, Seq<char>)>,
    stmt: Located<IrNode>,
) -> Seq<FindingView> {
    match extract(stmt.node) {
        Some((name, msg)) => if spec_is_existing(ctx, name.key()) {
            seq![existing_finding(rule, ctx, name, msg, stmt.span)]
        } else {
            Seq::empty()
        },
        None => Seq::empty(),
    }
}

/// The findings for a list of statements, statement by statement.
pub open spec fn spec_existing_table_check(
    rule: RuleId,
    ctx: LintContext,
    extract: spec_fn(IrNode) -> Option<(QualifiedNameView, Seq<char>)>,
    stmts: Seq<Located<IrNode>>,
) -> Seq<FindingView>
    decreases stmts.len(),
{
    if stmts.len() == 0 {
        Seq::empty()
    } else {
        spec_existing_table_check(rule, ctx, extract, stmts.drop_last()) + existing_table_findings(
            rule,
            ctx,
            extract,
            stmts.last(),
        )
    }
}

/// The finding of `rule` with `message` on `table_name` at `span`.
pub fn existing_finding_of(
    rule: RuleId,
    ctx: &LintContext,
    table_name: &QualifiedName,
    message: String,
    span: &SourceSpan,
) -> (f: Finding)
    ensures
        f@ == existing_finding(rule, *ctx, table_name@, message@, *span),
{
    let f = Finding::new(rule, rule.default_severity(), message, ctx.file, span);
    if rule == RuleId::Pgm301 || rule == RuleId::Pgm302 || rule == RuleId::Pgm303 {
        f.with_dedup_key(String::from_str(table_name.catalog_key()))
    } else {
        f
    }
}

/// Flag each statement for which `extract` names a table that existed
/// before the change, with the message `extract` gives; `extract_spec`
/// says what `extract` computes.
pub fn check_existing_table<F>(
    statements: &[Located<IrNode>],
    ctx: &LintContext,
    rule: RuleId,
    extract: F,
    Ghost(extract_spec): Ghost<spec_fn(IrNode) -> Option<(QualifiedNameView, Seq<char>)>>,
) -> (r: Vec<Finding>) where F: Fn(&IrNode) -> Option<(QualifiedName, String)>
    requires
        forall|n: IrNode| #[trigger] call_requires(extract, (&n,)),
        forall|n: IrNode, out: Option<(QualifiedName, String)>|
            #[trigger] call_ensures(extract, (&n,), out) ==> target_view(out) == extract_spec(n),
    ensures
        findings_view(r@) == spec_existing_table_check(rule, *ctx, extract_spec, statements@),
{
    let mut r: Vec<Finding> = Vec::new();
    let mut i: usize = 0;
    proof {
        assert(findings_view(r@) =~= Seq::<FindingView>::empty());
    }
    while i < statements.len()
        invariant
            i <= statements.len(),
            forall|n: IrNode| #[trigger] call_requires(extract, (&n,)),
            forall|n: IrNode, out: Option<(QualifiedName, String)>|
                #[trigger] call_ensures(extract, (&n,), out) ==> target_view(out) == extract_spec(n),
            findings_view(r@) == spec_existing_table_check(rule, *ctx, extract_spec, statements@.take(i as int)),
        decreases statements.len() - i,
    {
        let stmt = &statements[i];
        let target = extract(&stmt.node);
        let ghost before = r@;
        if let Some((table_name, message)) = target {
            if ctx.is_existing_table(table_name.catalog_key()) {
                let finding = existing_finding_of(rule, ctx, &table_name, message, &stmt.span);
                r.push(finding);
                proof {
                    assert(findings_view(r@) =~= findings_view(before) + seq![r@.last()@]);
                }
            }
        }
        proof {
            assert(statements@.take(i + 1).drop_last() =~= statements@.take(i as int));
            assert(findings_view(r@) =~= findings_view(before) + existing_table_findings(rule, *ctx, extract_spec, statements@[i as int]));
        }
        i = i + 1;
    }
    proof {
        assert(statements@.take(statements@.len() as int) =~= statements@);
    }
    r
}

} // verus!
