//! The rules: what each reports for a list of statements, as a specification
//! per statement, and the checks that compute it.
use vstd::prelude::*;
use vstd::string::*;
use crate::catalog::{check_covers, constraint_involves, seq_has_string, first_index_index, first_table_with_index, lemma_first_table_with_index_range, spec_find_index, vec_has_string, ConstraintState, IndexEntry, IndexState, TableState, entry_column_names};
use crate::rules::cast::{is_safe_cast, is_safe_cast_with_bit, spec_cast_safety, spec_cast_safety_with_bit, CastSafety};
use crate::rules::context::spec_ctx_find_index;
use crate::parser::ir::{opt_string_view, spec_type_display};
use crate::parser::ir::{DefaultExpr, AlterTable, AlterTableAction, ColumnDef, IrNode, Located, QualifiedName, QualifiedNameView, SourceSpan, TableConstraint, TriggerDisableScope, TypeName};
use crate::text::{append_decimal, concat2, ends_with, sort_strings, spec_sort_strings, spec_starts_with, starts_with, str_eq, eq_ignore_ascii_case, join_strings, spec_decimal, spec_ends_with, spec_eq_ignore_ascii_case, spec_join, std_to_lowercase, strings_view};
use crate::rules::context::{spec_is_existing, spec_matches_scope, LintContext, TableScope};
use crate::rules::finding::{findings_view, lemma_findings_view_add, lemma_findings_view_push, spec_finding, Finding, FindingView};
use crate::rules::ids::{spec_default_severity, RuleId, Severity};
use crate::rules::alter_table_check::{alter_action_findings, check_alter_actions, spec_check_alter_actions};
use crate::rules::drop_column_check::{check_drop_column_constraints, drop_column_action_findings, spec_check_drop_column_constraints};
use crate::rules::column_type_check::{check_column_types, flagged_actions, flagged_columns, spec_check_column_types};
use crate::rules::existing_table_check::{check_existing_table, existing_finding_of, existing_table_findings, spec_existing_table_check, target_view};
use crate::rules::messages;
use crate::rules::volatility::{is_nextval, lookup, spec_lookup, FnVolatility};

verus! {

/// A finding of `rule` at its default severity.
pub open spec fn fv(rule: RuleId, ctx: LintContext, msg: Seq<char>, span: SourceSpan) -> FindingView {
    spec_finding(rule, spec_default_severity(rule), msg, ctx.file@, span)
}

/// What `rule` reports for a list of statements: the findings for each
/// statement, in statement order.
pub open spec fn spec_check(rule: RuleId, ctx: LintContext, stmts: Seq<Located<IrNode>>) -> Seq<FindingView>
    decreases stmts.len(),
{
    if stmts.len() == 0 {
        Seq::empty()
    } else {
        spec_check(rule, ctx, stmts.drop_last()) + stmt_findings(rule, ctx, stmts.last())
    }
}

/// The table scope an ALTER TABLE rule applies to, if it is one.
pub open spec fn alter_scope(rule: RuleId) -> Option<TableScope> {
    match rule {
        RuleId::Pgm004 | RuleId::Pgm005 | RuleId::Pgm007 | RuleId::Pgm009 | RuleId::Pgm013
        | RuleId::Pgm015 | RuleId::Pgm016 | RuleId::Pgm017 | RuleId::Pgm019 => Some(
            TableScope::ExcludeCreatedInChange,
        ),
        RuleId::Pgm010 | RuleId::Pgm011 | RuleId::Pgm012 => Some(TableScope::AnyPreExisting),
        _ => None,
    }
}

/// What `rule` reports for one statement.
pub open spec fn stmt_findings(rule: RuleId, ctx: LintContext, stmt: Located<IrNode>) -> Seq<FindingView> {
    match rule {
        RuleId::Pgm001 => s_pgm001(ctx, stmt),
        RuleId::Pgm003 => s_pgm003(ctx, stmt),
        RuleId::Pgm018 => s_pgm018(ctx, stmt),
        RuleId::Pgm201 | RuleId::Pgm203 | RuleId::Pgm301 | RuleId::Pgm302 | RuleId::Pgm303 => s_existing_table(rule, ctx, stmt),
        RuleId::Pgm401 => s_pgm401(ctx, stmt),
        RuleId::Pgm002 => s_pgm002(ctx, stmt),
        RuleId::Pgm202 | RuleId::Pgm204 | RuleId::Pgm205 => s_cascade(rule, ctx, stmt),
        RuleId::Pgm006 => match stmt.node {
            IrNode::AlterTable(at) => if seq_has_string(ctx.tables_created_in_change@, at.name@.key()) {
                Seq::empty()
            } else {
                actions_findings(rule, ctx, at, at.actions@, stmt.span)
            },
            _ => Seq::empty(),
        },
        RuleId::Pgm020 => match stmt.node {
            IrNode::AlterTable(at) => actions_findings(rule, ctx, at, at.actions@, stmt.span),
            _ => Seq::empty(),
        },
        RuleId::Pgm101 | RuleId::Pgm102 | RuleId::Pgm103 | RuleId::Pgm104 | RuleId::Pgm105 => match stmt.node {
            IrNode::CreateTable(ct) => columns_findings(rule, ctx, ct.name@, ct.columns@, stmt.span),
            IrNode::AlterTable(at) => actions_findings(rule, ctx, at, at.actions@, stmt.span),
            _ => Seq::empty(),
        },
        _ => match alter_scope(rule) {
            Some(scope) => match stmt.node {
                IrNode::AlterTable(at) => if spec_matches_scope(ctx, at.name@.key(), scope) {
                    actions_findings(rule, ctx, at, at.actions@, stmt.span)
                } else {
                    Seq::empty()
                },
                _ => Seq::empty(),
            },
            None => Seq::empty(),
        },
    }
}

/// What an ALTER TABLE rule reports for a list of actions of `at`.
pub open spec fn actions_findings(
    rule: RuleId,
    ctx: LintContext,
    at: AlterTable,
    acts: Seq<AlterTableAction>,
    span: SourceSpan,
) -> Seq<FindingView>
    decreases acts.len(),
{
    if acts.len() == 0 {
        Seq::empty()
    } else {
        actions_findings(rule, ctx, at, acts.drop_last(), span) + action_findings(
            rule,
            ctx,
            at,
            acts.last(),
            span,
        )
    }
}

/// What a drop-column rule reports for dropping column `col` of table
/// `table` (displayed as `t`): the unique constraints and unique indexes
/// (PGM010), the primary key (PGM011) or the foreign keys (PGM012) that
/// involve the column.
pub open spec fn drop_column_rule_findings(
    rule: RuleId,
    ctx: LintContext,
    col: Seq<char>,
    t: Seq<char>,
    table: TableState,
    span: SourceSpan,
) -> Seq<FindingView> {
    if rule == RuleId::Pgm010 {
        unique_constraint_findings(ctx, t, col, table.spec_constraints_involving(col), span)
            + unique_index_findings(ctx, t, col, table.spec_indexes_involving(col), span)
    } else {
        drop_constraint_findings(rule, ctx, t, col, table.spec_constraints_involving(col), span)
    }
}

/// What an ALTER TABLE rule reports for one action of `at`.
pub open spec fn action_findings(
    rule: RuleId,
    ctx: LintContext,
    at: AlterTable,
    a: AlterTableAction,
    span: SourceSpan,
) -> Seq<FindingView> {
    let t = at.name@.display();
    match rule {
        RuleId::Pgm004 => match a {
            AlterTableAction::DetachPartition { concurrent, .. } => if !concurrent {
                seq![fv(rule, ctx, messages::m_pgm004(t), span)]
            } else {
                Seq::empty()
            },
            _ => Seq::empty(),
        },
        RuleId::Pgm013 => match a {
            AlterTableAction::SetNotNull { column_name } => seq![
                fv(rule, ctx, messages::m_pgm013(column_name@, t), span),
            ],
            _ => Seq::empty(),
        },
        RuleId::Pgm015 => match a {
            AlterTableAction::AddConstraint(TableConstraint::Check { not_valid, .. }) => if !not_valid {
                seq![fv(rule, ctx, messages::m_pgm015(t), span)]
            } else {
                Seq::empty()
            },
            _ => Seq::empty(),
        },
        RuleId::Pgm019 => match a {
            AlterTableAction::AddConstraint(TableConstraint::Exclude { .. }) => seq![
                fv(rule, ctx, messages::m_pgm019(t), span),
            ],
            _ => Seq::empty(),
        },
        RuleId::Pgm005 => match a {
            AlterTableAction::AttachPartition { child } => s_pgm005(ctx, at, child@, span),
            _ => Seq::empty(),
        },
        RuleId::Pgm007 | RuleId::Pgm009 => match a {
            AlterTableAction::AlterColumnType { column_name, new_type, old_type } => s_type_change(
                rule,
                ctx,
                at,
                column_name@,
                new_type,
                old_type,
                span,
            ),
            _ => Seq::empty(),
        },
        RuleId::Pgm010 | RuleId::Pgm011 | RuleId::Pgm012 => match a {
            AlterTableAction::DropColumn { name } => match ctx.catalog_before.spec_get_table(at.name@.key()) {
                Some(table) => drop_column_rule_findings(rule, ctx, name@, t, table, span),
                None => Seq::empty(),
            },
            _ => Seq::empty(),
        },
        RuleId::Pgm016 | RuleId::Pgm017 => match a {
            AlterTableAction::AddConstraint(TableConstraint::PrimaryKey { columns, using_index }) => if rule == RuleId::Pgm016 {
                s_key_constraint(rule, ctx, at, strings_view(columns@), opt_string_view(using_index), span)
            } else {
                Seq::empty()
            },
            AlterTableAction::AddConstraint(TableConstraint::Unique { columns, using_index, .. }) => if rule == RuleId::Pgm017 {
                s_key_constraint(rule, ctx, at, strings_view(columns@), opt_string_view(using_index), span)
            } else {
                Seq::empty()
            },
            _ => Seq::empty(),
        },
        RuleId::Pgm020 => match a {
            AlterTableAction::DisableTrigger { scope } => {
                let sev = if spec_is_existing(ctx, at.name@.key()) {
                    spec_default_severity(rule)
                } else {
                    Severity::Info
                };
                let (label, detail) = match scope {
                    TriggerDisableScope::Named(n) => (messages::m_quoted(n@), messages::m_pgm020_detail_named()),
                    TriggerDisableScope::All => ("ALL"@, messages::m_pgm020_detail_all()),
                    TriggerDisableScope::User => ("USER"@, messages::m_pgm020_detail_user()),
                };
                seq![spec_finding(rule, sev, messages::m_pgm020(label, t, detail), ctx.file@, span)]
            },
            _ => Seq::empty(),
        },
        RuleId::Pgm101 | RuleId::Pgm102 | RuleId::Pgm103 | RuleId::Pgm104 => match a {
            AlterTableAction::AddColumn(col) => column_type_findings(rule, ctx, at.name@, col.name@, col.data_type, span),
            AlterTableAction::AlterColumnType { column_name, new_type, .. } => column_type_findings(rule, ctx, at.name@, column_name@, new_type, span),
            _ => Seq::empty(),
        },
        RuleId::Pgm105 => match a {
            AlterTableAction::AddColumn(col) => column_type_findings(rule, ctx, at.name@, col.name@, col.data_type, span)
                .take(if col.is_serial { 1 } else { 0 }),
            _ => Seq::empty(),
        },
        RuleId::Pgm006 => match a {
            AlterTableAction::AddColumn(col) => match col.default_expr {
                Some(DefaultExpr::FunctionCall { name, .. }) => s_pgm006_add(ctx, at, col.name@, name@, span),
                _ => Seq::empty(),
            },
            AlterTableAction::SetDefault { column_name, default_expr } => match default_expr {
                DefaultExpr::FunctionCall { name, .. } => s_pgm006_set(ctx, at, column_name@, name@, span),
                _ => Seq::empty(),
            },
            _ => Seq::empty(),
        },
        _ => Seq::empty(),
    }
}

/// PGM006 for `ADD COLUMN col ... DEFAULT f(...)` on `at`: nothing for a
/// stable or immutable function; a minor finding for a volatile one (with
/// a serial-specific message for `nextval`); an informational one for a
/// function whose volatility is not known.
pub open spec fn s_pgm006_add(ctx: LintContext, at: AlterTable, col: Seq<char>, f: Seq<char>, span: SourceSpan) -> Seq<FindingView> {
    match spec_lookup(f) {
        Some(FnVolatility::Volatile) => seq![spec_finding(RuleId::Pgm006, Severity::Minor, if spec_eq_ignore_ascii_case(f, "nextval"@) {
            messages::m_pgm006_add_nextval(col, at.name@.display())
        } else {
            messages::m_pgm006_add_volatile(col, at.name@.display(), f)
        }, ctx.file@, span)],
        None => seq![spec_finding(RuleId::Pgm006, Severity::Info, messages::m_pgm006_add_unknown(col, at.name@.key(), f), ctx.file@, span)],
        _ => Seq::empty(),
    }
}

/// PGM006 for `ALTER COLUMN col SET DEFAULT f(...)` on `at`: informational
/// findings only (no rewrite happens, existing rows are not backfilled).
pub open spec fn s_pgm006_set(ctx: LintContext, at: AlterTable, col: Seq<char>, f: Seq<char>, span: SourceSpan) -> Seq<FindingView> {
    match spec_lookup(f) {
        Some(FnVolatility::Volatile) => seq![spec_finding(RuleId::Pgm006, Severity::Info, if spec_eq_ignore_ascii_case(f, "nextval"@) {
            messages::m_pgm006_set_nextval(col, at.name@.display())
        } else {
            messages::m_pgm006_set_volatile(f, col, at.name@.display())
        }, ctx.file@, span)],
        None => seq![spec_finding(RuleId::Pgm006, Severity::Info, messages::m_pgm006_set_unknown(f, col, at.name@.display()), ctx.file@, span)],
        _ => Seq::empty(),
    }
}


/// PGM005 for `ALTER TABLE at ATTACH PARTITION child`.
pub open spec fn s_pgm005(ctx: LintContext, at: AlterTable, child: QualifiedNameView, span: SourceSpan) -> Seq<FindingView> {
    let ck = child.key();
    if !ctx.catalog_before.spec_has_table(ck) || seq_has_string(ctx.tables_created_in_change@, ck) {
        Seq::empty()
    } else {
        let table = ctx.catalog_before.spec_get_table(ck).unwrap();
        let has_any_check = exists|i: int| 0 <= i < table.constraints@.len() && (#[trigger] table.constraints@[i] is Check);
        let suppressed = match ctx.catalog_before.spec_get_table(at.name@.key()) {
            Some(parent) => match parent.partition_by {
                Some(pb) => exists|i: int| 0 <= i < table.constraints@.len() && check_covers(#[trigger] table.constraints@[i], pb.columns@),
                None => has_any_check,
            },
            None => has_any_check,
        };
        if suppressed {
            Seq::empty()
        } else {
            seq![fv(RuleId::Pgm005, ctx, messages::m_pgm005(child.display(), at.name@.display()), span)]
        }
    }
}

/// The type a column had before `ALTER COLUMN TYPE`: the one the statement
/// records, else the one in `catalog_before`.
pub open spec fn resolved_old_type(ctx: LintContext, at: AlterTable, col: Seq<char>, old_type: Option<TypeName>) -> Option<TypeName> {
    match old_type {
        Some(t) => Some(t),
        None => match ctx.catalog_before.spec_get_table(at.name@.key()) {
            Some(table) => match table.spec_get_column(col) {
                Some(c) => Some(c.data_type),
                None => None,
            },
            None => None,
        },
    }
}

/// How a type-change rule classifies a change: PGM009 lets `bit(n)` widen,
/// PGM007 does not.
pub open spec fn rule_cast_safety(rule: RuleId, o: Seq<char>, om: Seq<i64>, n: Seq<char>, nm: Seq<i64>) -> CastSafety {
    if rule == RuleId::Pgm009 {
        spec_cast_safety_with_bit(o, om, n, nm)
    } else {
        spec_cast_safety(o, om, n, nm)
    }
}

/// PGM007 and PGM009 for `ALTER COLUMN col TYPE new_type`: nothing for a
/// safe change, an `Info` finding for a conditionally safe one, a finding at
/// the rule's default severity otherwise (also when the old type is unknown).
pub open spec fn s_type_change(rule: RuleId, ctx: LintContext, at: AlterTable, col: Seq<char>, new_type: TypeName, old_type: Option<TypeName>, span: SourceSpan) -> Seq<FindingView> {
    let old = resolved_old_type(ctx, at, col, old_type);
    let safety = match old {
        Some(o) => rule_cast_safety(rule, std_to_lowercase(o.name@), o.modifiers@, std_to_lowercase(new_type.name@), new_type.modifiers@),
        None => CastSafety::Unsafe,
    };
    let old_display = match old {
        Some(o) => spec_type_display(o.name@, o.modifiers@),
        None => "unknown"@,
    };
    let msg = messages::m_pgm007(at.name@.display(), col, old_display, spec_type_display(new_type.name@, new_type.modifiers@));
    match safety {
        CastSafety::Safe => Seq::empty(),
        CastSafety::Info => seq![spec_finding(rule, Severity::Info, msg, ctx.file@, span)],
        CastSafety::Unsafe => seq![fv(rule, ctx, msg, span)],
    }
}

/// How a unique constraint is named in PGM010 messages.
pub open spec fn unique_description(name: Option<String>, columns: Seq<String>) -> Seq<char> {
    match name {
        Some(n) => messages::m_quoted(n@),
        None => messages::m_unique_cols(spec_join(strings_view(columns), ", "@)),
    }
}

/// PGM010 for the unique constraints among `cs`.
pub open spec fn unique_constraint_findings(ctx: LintContext, t: Seq<char>, col: Seq<char>, cs: Seq<ConstraintState>, span: SourceSpan) -> Seq<FindingView>
    decreases cs.len(),
{
    if cs.len() == 0 {
        Seq::empty()
    } else {
        unique_constraint_findings(ctx, t, col, cs.drop_last(), span) + match cs.last() {
            ConstraintState::Unique { name, columns } => seq![fv(RuleId::Pgm010, ctx, messages::m_pgm010(col, t, unique_description(name, columns@)), span)],
            _ => Seq::empty(),
        }
    }
}

/// PGM010 for the unique indexes among `ixs` (primary-key indexes, named
/// `*_pkey`, are left to PGM011).
pub open spec fn unique_index_findings(ctx: LintContext, t: Seq<char>, col: Seq<char>, ixs: Seq<IndexState>, span: SourceSpan) -> Seq<FindingView>
    decreases ixs.len(),
{
    if ixs.len() == 0 {
        Seq::empty()
    } else {
        let ix = ixs.last();
        unique_index_findings(ctx, t, col, ixs.drop_last(), span) + if ix.unique && !spec_ends_with(ix.name@, "_pkey"@) {
            seq![fv(RuleId::Pgm010, ctx, messages::m_pgm010(col, t, messages::m_quoted(ix.name@)), span)]
        } else {
            Seq::empty()
        }
    }
}

/// How a foreign key is named in PGM012 messages.
pub open spec fn fk_description(name: Option<String>, columns: Seq<String>, ref_display: Seq<char>) -> Seq<char> {
    match name {
        Some(n) => messages::m_fk_named(n@, ref_display),
        None => messages::m_fk_unnamed(spec_join(strings_view(columns), ", "@), ref_display),
    }
}

/// PGM011 (primary keys) and PGM012 (foreign keys) for the constraints `cs`.
pub open spec fn drop_constraint_findings(rule: RuleId, ctx: LintContext, t: Seq<char>, col: Seq<char>, cs: Seq<ConstraintState>, span: SourceSpan) -> Seq<FindingView>
    decreases cs.len(),
{
    if cs.len() == 0 {
        Seq::empty()
    } else {
        drop_constraint_findings(rule, ctx, t, col, cs.drop_last(), span) + match (rule, cs.last()) {
            (RuleId::Pgm011, ConstraintState::PrimaryKey { .. }) => seq![fv(rule, ctx, messages::m_pgm011(col, t), span)],
            (RuleId::Pgm012, ConstraintState::ForeignKey { name, columns, ref_table_display, .. }) => seq![fv(rule, ctx, messages::m_pgm012(col, t, fk_description(name, columns@, ref_table_display@)), span)],
            _ => Seq::empty(),
        }
    }
}

/// The columns of `names` that `table` has and that are nullable, in order.
pub open spec fn nullable_columns(table: TableState, names: Seq<Seq<char>>) -> Seq<Seq<char>>
    decreases names.len(),
{
    if names.len() == 0 {
        Seq::empty()
    } else {
        let rest = nullable_columns(table, names.drop_last());
        match table.spec_get_column(names.last()) {
            Some(c) => if c.nullable { rest.push(names.last()) } else { rest },
            None => rest,
        }
    }
}

/// PGM016 (`ADD PRIMARY KEY`) and PGM017 (`ADD UNIQUE`) on `at`.
pub open spec fn s_key_constraint(rule: RuleId, ctx: LintContext, at: AlterTable, columns: Seq<Seq<char>>, using_index: Option<Seq<char>>, span: SourceSpan) -> Seq<FindingView> {
    let t = at.name@.display();
    let pk = rule == RuleId::Pgm016;
    match ctx.catalog_before.spec_get_table(at.name@.key()) {
        None => Seq::empty(),
        Some(table) => match using_index {
            Some(i) => match spec_ctx_find_index(ctx, i) {
                None => seq![fv(rule, ctx, if pk { messages::m_pgm016_missing(i, t) } else { messages::m_pgm017_missing(i, t) }, span)],
                Some(ix) => if !ix.unique {
                    seq![fv(rule, ctx, if pk { messages::m_pgm016_not_unique(i, t) } else { messages::m_pgm017_not_unique(i, t) }, span)]
                } else if !ix.spec_is_btree() {
                    seq![fv(rule, ctx, if pk { messages::m_pgm016_not_btree(i, t, ix.access_method@) } else { messages::m_pgm017_not_btree(i, t, ix.access_method@) }, span)]
                } else if pk && nullable_columns(table, ix.spec_column_names()).len() > 0 {
                    seq![fv(rule, ctx, messages::m_pgm016_nullable(i, t, spec_join(nullable_columns(table, ix.spec_column_names()), ", "@)), span)]
                } else {
                    Seq::empty()
                },
            },
            None => seq![fv(rule, ctx, if pk { messages::m_pgm016_no_index(t, spec_join(columns, ", "@)) } else { messages::m_pgm017_no_index(t, spec_join(columns, ", "@)) }, span)],
        },
    }
}

/// Whether a column type rule flags a type.
pub open spec fn type_flagged(rule: RuleId, tn: TypeName) -> bool {
    match rule {
        RuleId::Pgm101 => spec_eq_ignore_ascii_case(tn.name@, "timestamp"@),
        RuleId::Pgm102 => (spec_eq_ignore_ascii_case(tn.name@, "timestamp"@)
            || spec_eq_ignore_ascii_case(tn.name@, "timestamptz"@)) && tn.modifiers@ == seq![0i64],
        RuleId::Pgm103 => spec_eq_ignore_ascii_case(tn.name@, "bpchar"@),
        RuleId::Pgm104 => spec_eq_ignore_ascii_case(tn.name@, "money"@),
        _ => false,
    }
}

/// The message of a column rule for column `c` of table `t` with type `tn`.
pub open spec fn column_message(rule: RuleId, c: Seq<char>, t: QualifiedNameView, tn: TypeName) -> Seq<char> {
    match rule {
        RuleId::Pgm101 => messages::m_pgm101(c, t.display()),
        RuleId::Pgm102 => messages::m_pgm102(c, t.display(), tn.name@),
        RuleId::Pgm103 => messages::m_pgm103(
            c,
            t.display(),
            if tn.modifiers@.len() > 0 {
                messages::m_char_n(spec_decimal(tn.modifiers@[0] as int))
            } else {
                "char"@
            },
        ),
        RuleId::Pgm104 => messages::m_pgm104(c, t.display()),
        _ => messages::m_pgm105(c, t.display()),
    }
}

/// What a column rule reports for one column (a serial column for PGM105,
/// a flagged type for PGM101-104).
pub open spec fn column_type_findings(
    rule: RuleId,
    ctx: LintContext,
    t: QualifiedNameView,
    c: Seq<char>,
    tn: TypeName,
    span: SourceSpan,
) -> Seq<FindingView> {
    if rule == RuleId::Pgm105 || type_flagged(rule, tn) {
        seq![fv(rule, ctx, column_message(rule, c, t, tn), span)]
    } else {
        Seq::empty()
    }
}

/// What a column rule reports for the columns of `CREATE TABLE t`.
pub open spec fn columns_findings(
    rule: RuleId,
    ctx: LintContext,
    t: QualifiedNameView,
    cols: Seq<ColumnDef>,
    span: SourceSpan,
) -> Seq<FindingView>
    decreases cols.len(),
{
    if cols.len() == 0 {
        Seq::empty()
    } else {
        let c = cols.last();
        columns_findings(rule, ctx, t, cols.drop_last(), span) + if rule == RuleId::Pgm105 {
            if c.is_serial {
                seq![fv(rule, ctx, messages::m_pgm105(c.name@, t.display()), span)]
            } else {
                Seq::empty()
            }
        } else {
            column_type_findings(rule, ctx, t, c.name@, c.data_type, span)
        }
    }
}

pub open spec fn s_pgm002(ctx: LintContext, stmt: Located<IrNode>) -> Seq<FindingView> {
    match stmt.node {
        IrNode::DropIndex(di) => {
            let ti = first_table_with_index(ctx.catalog_before.tables@, di.index_name@);
            if di.concurrent || ti < 0 {
                Seq::empty()
            } else {
                let tn = ctx.catalog_before.tables@[ti].name@;
                if seq_has_string(ctx.tables_created_in_change@, tn) {
                    Seq::empty()
                } else {
                    let table = ctx.catalog_before.spec_get_table(tn);
                    let display = match table {
                        Some(t) => t.display_name@,
                        None => tn,
                    };
                    let partitioned = match table {
                        Some(t) => t.is_partitioned,
                        None => false,
                    };
                    let only = match spec_find_index(ctx.catalog_before.tables@, di.index_name@) {
                        Some(ix) => ix.only,
                        None => false,
                    };
                    if partitioned && only {
                        Seq::empty()
                    } else if partitioned {
                        seq![fv(RuleId::Pgm002, ctx, messages::m_pgm002_partitioned(di.index_name@, display), stmt.span)]
                    } else {
                        seq![fv(RuleId::Pgm002, ctx, messages::m_pgm002_plain(di.index_name@, display), stmt.span)]
                    }
                }
            }
        },
        _ => Seq::empty(),
    }
}

pub open spec fn s_pgm001(ctx: LintContext, stmt: Located<IrNode>) -> Seq<FindingView> {
    match stmt.node {
        IrNode::CreateIndex(ci) => {
            let key = ci.table_name@.key();
            if !ci.concurrent && spec_is_existing(ctx, key) && !ci.only {
                let partitioned = match ctx.catalog_before.spec_get_table(key) {
                    Some(t) => t.is_partitioned,
                    None => false,
                };
                let msg = if partitioned {
                    messages::m_pgm001_partitioned(ci.table_name@.display())
                } else {
                    messages::m_pgm001_plain(ci.table_name@.display())
                };
                seq![fv(RuleId::Pgm001, ctx, msg, stmt.span)]
            } else {
                Seq::empty()
            }
        },
        _ => Seq::empty(),
    }
}

pub open spec fn s_pgm003(ctx: LintContext, stmt: Located<IrNode>) -> Seq<FindingView> {
    let concurrent = match stmt.node {
        IrNode::CreateIndex(ci) => ci.concurrent,
        IrNode::DropIndex(di) => di.concurrent,
        _ => false,
    };
    if ctx.run_in_transaction && concurrent {
        seq![fv(RuleId::Pgm003, ctx, messages::m_pgm003(), stmt.span)]
    } else {
        Seq::empty()
    }
}

pub open spec fn s_pgm018(ctx: LintContext, stmt: Located<IrNode>) -> Seq<FindingView> {
    match stmt.node {
        IrNode::Cluster(c) => if spec_is_existing(ctx, c.table@.key()) {
            let msg = match c.index {
                Some(i) => messages::m_pgm018_using(c.table@.display(), i@),
                None => messages::m_pgm018_plain(c.table@.display()),
            };
            seq![fv(RuleId::Pgm018, ctx, msg, stmt.span)]
        } else {
            Seq::empty()
        },
        _ => Seq::empty(),
    }
}

/// The table an existing-table rule (`DROP TABLE`, `TRUNCATE`, `INSERT`,
/// `UPDATE`, `DELETE` on an existing table) looks at in a statement, and the
/// message it reports for it.
pub open spec fn existing_target(rule: RuleId, n: IrNode) -> Option<(QualifiedNameView, Seq<char>)> {
    match (rule, n) {
        (RuleId::Pgm201, IrNode::DropTable(dt)) => Some((dt.name@, messages::m_pgm201(dt.name@.display()))),
        (RuleId::Pgm203, IrNode::TruncateTable(tt)) => Some((tt.name@, messages::m_pgm203(tt.name@.display()))),
        (RuleId::Pgm301, IrNode::InsertInto(ii)) => Some((ii.table_name@, messages::m_pgm301(ii.table_name@.display()))),
        (RuleId::Pgm302, IrNode::UpdateTable(ut)) => Some((ut.table_name@, messages::m_pgm302(ut.table_name@.display()))),
        (RuleId::Pgm303, IrNode::DeleteFrom(df)) => Some((df.table_name@, messages::m_pgm303(df.table_name@.display()))),
        _ => None,
    }
}

pub open spec fn s_existing_table(rule: RuleId, ctx: LintContext, stmt: Located<IrNode>) -> Seq<FindingView> {
    existing_table_findings(rule, ctx, |n: IrNode| existing_target(rule, n), stmt)
}

/// Whether constraint `c` is a foreign key that references table `key`.
pub open spec fn fk_refers_to(c: ConstraintState, key: Seq<char>) -> bool {
    match c {
        ConstraintState::ForeignKey { ref_table, .. } => ref_table@ == key,
        _ => false,
    }
}

/// Whether `t` has a foreign key that references table `key`.
pub open spec fn has_fk_to(t: TableState, key: Seq<char>) -> bool {
    exists|i: int| 0 <= i < t.constraints@.len() && fk_refers_to(#[trigger] t.constraints@[i], key)
}

/// The display names of the tables, other than `key` itself, with a foreign
/// key that references `key`, in catalog order.
pub open spec fn fk_dependents(tables: Seq<TableState>, key: Seq<char>) -> Seq<Seq<char>>
    decreases tables.len(),
{
    if tables.len() == 0 {
        Seq::empty()
    } else {
        let rest = fk_dependents(tables.drop_last(), key);
        let t = tables.last();
        if t.name@ != key && has_fk_to(t, key) {
            rest.push(t.display_name@)
        } else {
            rest
        }
    }
}

/// The display names of the tables whose key starts with `prefix`, in
/// catalog order.
pub open spec fn tables_with_prefix(tables: Seq<TableState>, prefix: Seq<char>) -> Seq<Seq<char>>
    decreases tables.len(),
{
    if tables.len() == 0 {
        Seq::empty()
    } else {
        let rest = tables_with_prefix(tables.drop_last(), prefix);
        let t = tables.last();
        if spec_starts_with(t.name@, prefix) {
            rest.push(t.display_name@)
        } else {
            rest
        }
    }
}

/// PGM202 (`DROP TABLE ... CASCADE` on an existing table), PGM204
/// (`TRUNCATE ... CASCADE` on an existing table) and PGM205
/// (`DROP SCHEMA ... CASCADE`). The known dependents are listed sorted.
pub open spec fn s_cascade(rule: RuleId, ctx: LintContext, stmt: Located<IrNode>) -> Seq<FindingView> {
    let tables = ctx.catalog_before.tables@;
    match (rule, stmt.node) {
        (RuleId::Pgm202, IrNode::DropTable(dt)) => if dt.cascade && spec_is_existing(ctx, dt.name@.key()) {
            let deps = spec_sort_strings(fk_dependents(tables, dt.name@.key()));
            let t = dt.name@.display();
            seq![fv(rule, ctx, if deps.len() == 0 {
                messages::m_pgm202_plain(t)
            } else {
                messages::m_pgm202_deps(t, spec_join(deps, ", "@))
            }, stmt.span)]
        } else {
            Seq::empty()
        },
        (RuleId::Pgm204, IrNode::TruncateTable(tt)) => if tt.cascade && spec_is_existing(ctx, tt.name@.key()) {
            let deps = spec_sort_strings(fk_dependents(tables, tt.name@.key()));
            let t = tt.name@.display();
            seq![fv(rule, ctx, if deps.len() == 0 {
                messages::m_pgm204_plain(t)
            } else {
                messages::m_pgm204_deps(t, spec_join(deps, ", "@))
            }, stmt.span)]
        } else {
            Seq::empty()
        },
        (RuleId::Pgm205, IrNode::DropSchema(ds)) => if ds.cascade {
            let affected = spec_sort_strings(tables_with_prefix(tables, ds.schema_name@ + "."@));
            let s = ds.schema_name@;
            seq![fv(rule, ctx, if affected.len() == 0 {
                messages::m_pgm205_plain(s)
            } else {
                messages::m_pgm205_deps(s, spec_join(affected, ", "@))
            }, stmt.span)]
        } else {
            Seq::empty()
        },
        _ => Seq::empty(),
    }
}

pub open spec fn s_pgm401(ctx: LintContext, stmt: Located<IrNode>) -> Seq<FindingView> {
    match stmt.node {
        IrNode::DropTable(dt) => if !dt.if_exists {
            seq![fv(RuleId::Pgm401, ctx, messages::m_pgm401_table(dt.name@.display()), stmt.span)]
        } else {
            Seq::empty()
        },
        IrNode::DropIndex(di) => if !di.if_exists {
            seq![fv(RuleId::Pgm401, ctx, messages::m_pgm401_index(di.index_name@), stmt.span)]
        } else {
            Seq::empty()
        },
        _ => Seq::empty(),
    }
}

/// A one-finding vector for `rule` at its default severity.
fn one(rule: RuleId, msg: String, ctx: &LintContext, span: &SourceSpan) -> (r: Vec<Finding>)
    ensures
        findings_view(r@) == seq![fv(rule, *ctx, msg@, *span)],
{
    let f = Finding::new(rule, rule.default_severity(), msg, ctx.file, span);
    let mut r = Vec::new();
    r.push(f);
    proof {
        assert(findings_view(r@) =~= seq![fv(rule, *ctx, msg@, *span)]);
    }
    r
}

fn none() -> (r: Vec<Finding>)
    ensures
        findings_view(r@) == Seq::<FindingView>::empty(),
{
    let r = Vec::new();
    proof {
        assert(findings_view(r@) =~= Seq::<FindingView>::empty());
    }
    r
}

fn pgm001_stmt(ctx: &LintContext, stmt: &Located<IrNode>) -> (r: Vec<Finding>)
    ensures
        findings_view(r@) == s_pgm001(*ctx, *stmt),
{
    if let IrNode::CreateIndex(ci) = &stmt.node {
        let key = ci.table_name.catalog_key();
        if !ci.concurrent && ctx.is_existing_table(key) && !ci.only {
            let partitioned = match ctx.catalog_before.get_table(key) {
                Some(t) => t.is_partitioned,
                None => false,
            };
            let display = ci.table_name.display_name();
            let msg = if partitioned {
                messages::msg_pgm001_partitioned(display.as_str())
            } else {
                messages::msg_pgm001_plain(display.as_str())
            };
            return one(RuleId::Pgm001, msg, ctx, &stmt.span);
        }
    }
    none()
}

fn pgm003_stmt(ctx: &LintContext, stmt: &Located<IrNode>) -> (r: Vec<Finding>)
    ensures
        findings_view(r@) == s_pgm003(*ctx, *stmt),
{
    let concurrent = match &stmt.node {
        IrNode::CreateIndex(ci) => ci.concurrent,
        IrNode::DropIndex(di) => di.concurrent,
        _ => false,
    };
    if ctx.run_in_transaction && concurrent {
        one(RuleId::Pgm003, messages::msg_pgm003(), ctx, &stmt.span)
    } else {
        none()
    }
}

fn pgm018_stmt(ctx: &LintContext, stmt: &Located<IrNode>) -> (r: Vec<Finding>)
    ensures
        findings_view(r@) == s_pgm018(*ctx, *stmt),
{
    if let IrNode::Cluster(c) = &stmt.node {
        if ctx.is_existing_table(c.table.catalog_key()) {
            let display = c.table.display_name();
            let msg = match &c.index {
                Some(i) => messages::msg_pgm018_using(display.as_str(), i.as_str()),
                None => messages::msg_pgm018_plain(display.as_str()),
            };
            return one(RuleId::Pgm018, msg, ctx, &stmt.span);
        }
    }
    none()
}

fn existing_table_stmt(rule: RuleId, ctx: &LintContext, stmt: &Located<IrNode>) -> (r: Vec<Finding>)
    ensures
        findings_view(r@) == s_existing_table(rule, *ctx, *stmt),
{
    match existing_target_of(rule, &stmt.node) {
        Some((name, msg)) => if ctx.is_existing_table(name.catalog_key()) {
            let f = existing_finding_of(rule, ctx, &name, msg, &stmt.span);
            let mut r = Vec::new();
            r.push(f);
            proof {
                assert(findings_view(r@) =~= s_existing_table(rule, *ctx, *stmt));
            }
            r
        } else {
            none()
        },
        None => none(),
    }
}

/// The table an existing-table rule looks at in `n`, with its message.
fn existing_target_of(rule: RuleId, n: &IrNode) -> (r: Option<(QualifiedName, String)>)
    ensures
        target_view(r) == existing_target(rule, *n),
{
    let name = match (rule, n) {
        (RuleId::Pgm201, IrNode::DropTable(dt)) => &dt.name,
        (RuleId::Pgm203, IrNode::TruncateTable(tt)) => &tt.name,
        (RuleId::Pgm301, IrNode::InsertInto(ii)) => &ii.table_name,
        (RuleId::Pgm302, IrNode::UpdateTable(ut)) => &ut.table_name,
        (RuleId::Pgm303, IrNode::DeleteFrom(df)) => &df.table_name,
        _ => {
            return None;
        },
    };
    let d = name.display_name();
    let msg = match rule {
        RuleId::Pgm201 => messages::msg_pgm201(d.as_str()),
        RuleId::Pgm203 => messages::msg_pgm203(d.as_str()),
        RuleId::Pgm301 => messages::msg_pgm301(d.as_str()),
        RuleId::Pgm302 => messages::msg_pgm302(d.as_str()),
        _ => messages::msg_pgm303(d.as_str()),
    };
    Some((name.duplicate(), msg))
}

fn has_fk_to_exec(t: &TableState, key: &str) -> (r: bool)
    ensures
        r == has_fk_to(*t, key@),
{
    let mut i: usize = 0;
    while i < t.constraints.len()
        invariant
            i <= t.constraints@.len(),
            forall|k: int| 0 <= k < i ==> !fk_refers_to(#[trigger] t.constraints@[k], key@),
        decreases t.constraints.len() - i,
    {
        if let ConstraintState::ForeignKey { ref_table, .. } = &t.constraints[i] {
            if str_eq(ref_table.as_str(), key) {
                assert(fk_refers_to(t.constraints@[i as int], key@));
                return true;
            }
        }
        i = i + 1;
    }
    false
}

fn fk_dependents_of(tables: &Vec<TableState>, key: &str) -> (r: Vec<String>)
    ensures
        strings_view(r@) == fk_dependents(tables@, key@),
{
    let mut r: Vec<String> = Vec::new();
    let mut i: usize = 0;
    proof {
        assert(strings_view(r@) =~= fk_dependents(tables@.take(0), key@));
    }
    while i < tables.len()
        invariant
            i <= tables@.len(),
            strings_view(r@) == fk_dependents(tables@.take(i as int), key@),
        decreases tables.len() - i,
    {
        proof {
            assert(tables@.take(i + 1).drop_last() =~= tables@.take(i as int));
        }
        let t = &tables[i];
        if !str_eq(t.name.as_str(), key) && has_fk_to_exec(t, key) {
            r.push(t.display_name.clone());
            proof {
                assert(strings_view(r@) =~= fk_dependents(tables@.take(i as int), key@).push(t.display_name@));
            }
        }
        i = i + 1;
    }
    proof {
        assert(tables@.take(tables@.len() as int) =~= tables@);
    }
    r
}

fn tables_with_prefix_of(tables: &Vec<TableState>, prefix: &str) -> (r: Vec<String>)
    ensures
        strings_view(r@) == tables_with_prefix(tables@, prefix@),
{
    let mut r: Vec<String> = Vec::new();
    let mut i: usize = 0;
    proof {
        assert(strings_view(r@) =~= tables_with_prefix(tables@.take(0), prefix@));
    }
    while i < tables.len()
        invariant
            i <= tables@.len(),
            strings_view(r@) == tables_with_prefix(tables@.take(i as int), prefix@),
        decreases tables.len() - i,
    {
        proof {
            assert(tables@.take(i + 1).drop_last() =~= tables@.take(i as int));
        }
        let t = &tables[i];
        if starts_with(t.name.as_str(), prefix) {
            r.push(t.display_name.clone());
            proof {
                assert(strings_view(r@) =~= tables_with_prefix(tables@.take(i as int), prefix@).push(t.display_name@));
            }
        }
        i = i + 1;
    }
    proof {
        assert(tables@.take(tables@.len() as int) =~= tables@);
    }
    r
}

fn cascade_stmt(rule: RuleId, ctx: &LintContext, stmt: &Located<IrNode>) -> (r: Vec<Finding>)
    ensures
        findings_view(r@) == s_cascade(rule, *ctx, *stmt),
{
    let tables = &ctx.catalog_before.tables;
    match (rule, &stmt.node) {
        (RuleId::Pgm202, IrNode::DropTable(dt)) => {
            let key = dt.name.catalog_key();
            if dt.cascade && ctx.is_existing_table(key) {
                let deps = sort_strings(fk_dependents_of(tables, key));
                let t = dt.name.display_name();
                let msg = if deps.len() == 0 {
                    messages::msg_pgm202_plain(t.as_str())
                } else {
                    let d = join_strings(&deps, ", ");
                    messages::msg_pgm202_deps(t.as_str(), d.as_str())
                };
                one(rule, msg, ctx, &stmt.span)
            } else {
                none()
            }
        },
        (RuleId::Pgm204, IrNode::TruncateTable(tt)) => {
            let key = tt.name.catalog_key();
            if tt.cascade && ctx.is_existing_table(key) {
                let deps = sort_strings(fk_dependents_of(tables, key));
                let t = tt.name.display_name();
                let msg = if deps.len() == 0 {
                    messages::msg_pgm204_plain(t.as_str())
                } else {
                    let d = join_strings(&deps, ", ");
                    messages::msg_pgm204_deps(t.as_str(), d.as_str())
                };
                one(rule, msg, ctx, &stmt.span)
            } else {
                none()
            }
        },
        (RuleId::Pgm205, IrNode::DropSchema(ds)) => {
            if ds.cascade {
                let prefix = concat2(ds.schema_name.as_str(), ".");
                let affected = sort_strings(tables_with_prefix_of(tables, prefix.as_str()));
                let msg = if affected.len() == 0 {
                    messages::msg_pgm205_plain(ds.schema_name.as_str())
                } else {
                    let d = join_strings(&affected, ", ");
                    messages::msg_pgm205_deps(ds.schema_name.as_str(), d.as_str())
                };
                one(rule, msg, ctx, &stmt.span)
            } else {
                none()
            }
        },
        _ => none(),
    }
}

fn pgm401_stmt(ctx: &LintContext, stmt: &Located<IrNode>) -> (r: Vec<Finding>)
    ensures
        findings_view(r@) == s_pgm401(*ctx, *stmt),
{
    match &stmt.node {
        IrNode::DropTable(dt) => if !dt.if_exists {
            let d = dt.name.display_name();
            one(RuleId::Pgm401, messages::msg_pgm401_table(d.as_str()), ctx, &stmt.span)
        } else {
            none()
        },
        IrNode::DropIndex(di) => if !di.if_exists {
            one(RuleId::Pgm401, messages::msg_pgm401_index(di.index_name.as_str()), ctx, &stmt.span)
        } else {
            none()
        },
        _ => none(),
    }
}

fn pgm002_stmt(ctx: &LintContext, stmt: &Located<IrNode>) -> (r: Vec<Finding>)
    ensures
        findings_view(r@) == s_pgm002(*ctx, *stmt),
{
    if let IrNode::DropIndex(di) = &stmt.node {
        if di.concurrent {
            return none();
        }
        let tn = match ctx.catalog_before.table_for_index(di.index_name.as_str()) {
            Some(k) => k,
            None => return none(),
        };
        if vec_has_string(ctx.tables_created_in_change, tn.as_str()) {
            return none();
        }
        let table = ctx.catalog_before.get_table(tn.as_str());
        let display = match table {
            Some(t) => t.display_name.as_str(),
            None => tn.as_str(),
        };
        let partitioned = match table {
            Some(t) => t.is_partitioned,
            None => false,
        };
        let only = match ctx.catalog_before.get_index(di.index_name.as_str()) {
            Some(ix) => ix.only,
            None => false,
        };
        if partitioned && only {
            return none();
        }
        let msg = if partitioned {
            messages::msg_pgm002_partitioned(di.index_name.as_str(), display)
        } else {
            messages::msg_pgm002_plain(di.index_name.as_str(), display)
        };
        return one(RuleId::Pgm002, msg, ctx, &stmt.span);
    }
    none()
}

/// Whether a column type rule flags `tn`.
fn flags_type(rule: RuleId, tn: &TypeName) -> (r: bool)
    ensures
        r == type_flagged(rule, *tn),
{
    let n = tn.name.as_str();
    match rule {
        RuleId::Pgm101 => eq_ignore_ascii_case(n, "timestamp"),
        RuleId::Pgm102 => {
            let ts = eq_ignore_ascii_case(n, "timestamp") || eq_ignore_ascii_case(n, "timestamptz");
            let zero = tn.modifiers.len() == 1 && tn.modifiers[0] == 0;
            proof {
                if zero {
                    assert(tn.modifiers@ =~= seq![0i64]);
                }
            }
            ts && zero
        },
        RuleId::Pgm103 => eq_ignore_ascii_case(n, "bpchar"),
        RuleId::Pgm104 => eq_ignore_ascii_case(n, "money"),
        _ => false,
    }
}

fn column_message_of(rule: RuleId, c: &str, t: &QualifiedName, tn: &TypeName) -> (r: String)
    ensures
        r@ == column_message(rule, c@, t@, *tn),
{
    let d = t.display_name();
    match rule {
        RuleId::Pgm101 => messages::msg_pgm101(c, d.as_str()),
        RuleId::Pgm102 => messages::msg_pgm102(c, d.as_str(), tn.name.as_str()),
        RuleId::Pgm103 => {
            let disp = if tn.modifiers.len() > 0 {
                let mut n = String::new();
                append_decimal(&mut n, tn.modifiers[0]);
                proof {
                    assert(n@ =~= spec_decimal(tn.modifiers@[0] as int));
                }
                messages::msg_char_n(n.as_str())
            } else {
                String::from_str("char")
            };
            messages::msg_pgm103(c, d.as_str(), disp.as_str())
        },
        RuleId::Pgm104 => messages::msg_pgm104(c, d.as_str()),
        _ => messages::msg_pgm105(c, d.as_str()),
    }
}

fn column_type_check(rule: RuleId, ctx: &LintContext, t: &QualifiedName, c: &str, tn: &TypeName, span: &SourceSpan) -> (r: Vec<Finding>)
    ensures
        findings_view(r@) == column_type_findings(rule, *ctx, t@, c@, *tn, *span),
{
    if rule == RuleId::Pgm105 || flags_type(rule, tn) {
        one(rule, column_message_of(rule, c, t, tn), ctx, span)
    } else {
        none()
    }
}

fn columns_check(rule: RuleId, ctx: &LintContext, t: &QualifiedName, cols: &Vec<ColumnDef>, span: &SourceSpan) -> (r: Vec<Finding>)
    ensures
        findings_view(r@) == columns_findings(rule, *ctx, t@, cols@, *span),
{
    let mut r: Vec<Finding> = Vec::new();
    let mut i: usize = 0;
    proof {
        assert(findings_view(r@) =~= Seq::<FindingView>::empty());
    }
    while i < cols.len()
        invariant
            i <= cols.len(),
            findings_view(r@) == columns_findings(rule, *ctx, t@, cols@.take(i as int), *span),
        decreases cols.len() - i,
    {
        let c = &cols[i];
        let mut part = if rule == RuleId::Pgm105 {
            if c.is_serial {
                let d = t.display_name();
                one(rule, messages::msg_pgm105(c.name.as_str(), d.as_str()), ctx, span)
            } else {
                none()
            }
        } else {
            column_type_check(rule, ctx, t, c.name.as_str(), &c.data_type, span)
        };
        proof {
            assert(cols@.take(i + 1).drop_last() =~= cols@.take(i as int));
            lemma_findings_view_add(r@, part@);
        }
        r.append(&mut part);
        i = i + 1;
    }
    proof {
        assert(cols@.take(cols@.len() as int) =~= cols@);
    }
    r
}

fn pgm020_action(ctx: &LintContext, at: &AlterTable, a: &AlterTableAction, span: &SourceSpan) -> (r: Vec<Finding>)
    ensures
        findings_view(r@) == action_findings(RuleId::Pgm020, *ctx, *at, *a, *span),
{
    if let AlterTableAction::DisableTrigger { scope } = a {
        let sev = if ctx.is_existing_table(at.name.catalog_key()) {
            RuleId::Pgm020.default_severity()
        } else {
            Severity::Info
        };
        let t = at.name.display_name();
        let msg = match scope {
            TriggerDisableScope::Named(n) => {
                let label = messages::msg_quoted(n.as_str());
                messages::msg_pgm020(label.as_str(), t.as_str(), messages::detail_named())
            },
            TriggerDisableScope::All => messages::msg_pgm020("ALL", t.as_str(), messages::detail_all()),
            TriggerDisableScope::User => messages::msg_pgm020("USER", t.as_str(), messages::detail_user()),
        };
        let f = Finding::new(RuleId::Pgm020, sev, msg, ctx.file, span);
        let mut r = Vec::new();
        r.push(f);
        proof {
            assert(findings_view(r@) =~= action_findings(RuleId::Pgm020, *ctx, *at, *a, *span));
        }
        r
    } else {
        none()
    }
}


fn pgm005_action(ctx: &LintContext, at: &AlterTable, child: &QualifiedName, span: &SourceSpan) -> (r: Vec<Finding>)
    ensures
        findings_view(r@) == s_pgm005(*ctx, *at, child@, *span),
{
    let ck = child.catalog_key();
    if !ctx.catalog_before.has_table(ck) || vec_has_string(ctx.tables_created_in_change, ck) {
        return none();
    }
    let table = match ctx.catalog_before.get_table(ck) {
        Some(t) => t,
        None => return none(),
    };
    let suppressed = match ctx.catalog_before.get_table(at.name.catalog_key()) {
        Some(parent) => match &parent.partition_by {
            Some(pb) => table.has_check_referencing_columns(&pb.columns),
            None => table.has_any_check(),
        },
        None => table.has_any_check(),
    };
    if suppressed {
        none()
    } else {
        let c = child.display_name();
        let t = at.name.display_name();
        one(RuleId::Pgm005, messages::msg_pgm005(c.as_str(), t.as_str()), ctx, span)
    }
}

fn type_change_action(
    rule: RuleId,
    ctx: &LintContext,
    at: &AlterTable,
    col: &String,
    new_type: &TypeName,
    old_type: &Option<TypeName>,
    span: &SourceSpan,
) -> (r: Vec<Finding>)
    ensures
        findings_view(r@) == s_type_change(rule, *ctx, *at, col@, *new_type, *old_type, *span),
{
    let old: Option<&TypeName> = match old_type {
        Some(t) => Some(t),
        None => match ctx.catalog_before.get_table(at.name.catalog_key()) {
            Some(table) => match table.get_column(col.as_str()) {
                Some(c) => Some(&c.data_type),
                None => None,
            },
            None => None,
        },
    };
    let safety = match old {
        Some(o) => if rule == RuleId::Pgm009 {
            is_safe_cast_with_bit(o, new_type)
        } else {
            is_safe_cast(o, new_type)
        },
        None => CastSafety::Unsafe,
    };
    let severity = match safety {
        CastSafety::Safe => return none(),
        CastSafety::Info => Severity::Info,
        CastSafety::Unsafe => rule.default_severity(),
    };
    let old_display = match old {
        Some(o) => o.display_type(),
        None => String::from_str("unknown"),
    };
    let t = at.name.display_name();
    let n = new_type.display_type();
    let msg = messages::msg_pgm007(t.as_str(), col.as_str(), old_display.as_str(), n.as_str());
    let f = Finding::new(rule, severity, msg, ctx.file, span);
    let mut r = Vec::new();
    r.push(f);
    proof {
        assert(findings_view(r@) =~= s_type_change(rule, *ctx, *at, col@, *new_type, *old_type, *span));
    }
    r
}

fn unique_description_of(name: &Option<String>, columns: &Vec<String>) -> (r: String)
    ensures
        r@ == unique_description(*name, columns@),
{
    match name {
        Some(n) => messages::msg_quoted(n.as_str()),
        None => {
            let cols = join_strings(columns, ", ");
            messages::msg_unique_cols(cols.as_str())
        },
    }
}

fn fk_description_of(name: &Option<String>, columns: &Vec<String>, ref_display: &String) -> (r: String)
    ensures
        r@ == fk_description(*name, columns@, ref_display@),
{
    match name {
        Some(n) => messages::msg_fk_named(n.as_str(), ref_display.as_str()),
        None => {
            let cols = join_strings(columns, ", ");
            messages::msg_fk_unnamed(cols.as_str(), ref_display.as_str())
        },
    }
}

fn drop_column_action(rule: RuleId, ctx: &LintContext, at: &AlterTable, col: &String, span: &SourceSpan) -> (r: Vec<Finding>)
    requires
        rule == RuleId::Pgm010 || rule == RuleId::Pgm011 || rule == RuleId::Pgm012,
    ensures
        findings_view(r@) == match ctx.catalog_before.spec_get_table(at.name@.key()) {
            Some(table) => drop_column_rule_findings(rule, *ctx, col@, at.name@.display(), table, *span),
            None => Seq::<FindingView>::empty(),
        },
{
    match ctx.catalog_before.get_table(at.name.catalog_key()) {
        Some(table) => drop_column_rule(rule, ctx, at, table, col.as_str(), span),
        None => none(),
    }
}

/// What a drop-column rule reports for dropping `col` of `table`.
fn drop_column_rule(
    rule: RuleId,
    ctx: &LintContext,
    at: &AlterTable,
    table: &TableState,
    col: &str,
    span: &SourceSpan,
) -> (r: Vec<Finding>)
    requires
        rule == RuleId::Pgm010 || rule == RuleId::Pgm011 || rule == RuleId::Pgm012,
    ensures
        findings_view(r@) == drop_column_rule_findings(rule, *ctx, col@, at.name@.display(), *table, *span),
{
    let t = at.name.display_name();
    let cs = table.constraints_involving_column(col);
    let ghost spec_cs = table.spec_constraints_involving(col@);
    let mut r: Vec<Finding> = Vec::new();
    let mut i: usize = 0;
    proof {
        assert(findings_view(r@) =~= Seq::<FindingView>::empty());
    }
    while i < cs.len()
        invariant
            rule == RuleId::Pgm010 || rule == RuleId::Pgm011 || rule == RuleId::Pgm012,
            i <= cs.len(),
            cs@.len() == spec_cs.len(),
            forall|j: int| 0 <= j < cs@.len() ==> *cs@[j] == spec_cs[j],
            rule == RuleId::Pgm010 ==> findings_view(r@) == unique_constraint_findings(*ctx, t@, col@, spec_cs.take(i as int), *span),
            rule != RuleId::Pgm010 ==> findings_view(r@) == drop_constraint_findings(rule, *ctx, t@, col@, spec_cs.take(i as int), *span),
        decreases cs.len() - i,
    {
        let c = cs[i];
        proof {
            assert(spec_cs.take(i + 1).drop_last() =~= spec_cs.take(i as int));
            assert(spec_cs.take(i + 1).last() == *c);
        }
        let mut part = match (rule, c) {
            (RuleId::Pgm010, ConstraintState::Unique { name, columns }) => {
                let d = unique_description_of(name, columns);
                one(rule, messages::msg_pgm010(col, t.as_str(), d.as_str()), ctx, span)
            },
            (RuleId::Pgm011, ConstraintState::PrimaryKey { .. }) => one(rule, messages::msg_pgm011(col, t.as_str()), ctx, span),
            (RuleId::Pgm012, ConstraintState::ForeignKey { name, columns, ref_table_display, .. }) => {
                let d = fk_description_of(name, columns, ref_table_display);
                one(rule, messages::msg_pgm012(col, t.as_str(), d.as_str()), ctx, span)
            },
            _ => none(),
        };
        proof {
            lemma_findings_view_add(r@, part@);
        }
        r.append(&mut part);
        i = i + 1;
    }
    proof {
        assert(spec_cs.take(spec_cs.len() as int) =~= spec_cs);
    }
    if rule != RuleId::Pgm010 {
        return r;
    }
    let ixs = table.indexes_involving_column(col);
    let ghost spec_ixs = table.spec_indexes_involving(col@);
    let ghost base = findings_view(r@);
    let mut k: usize = 0;
    while k < ixs.len()
        invariant
            rule == RuleId::Pgm010,
            k <= ixs.len(),
            ixs@.len() == spec_ixs.len(),
            forall|j: int| 0 <= j < ixs@.len() ==> *ixs@[j] == spec_ixs[j],
            findings_view(r@) == base + unique_index_findings(*ctx, t@, col@, spec_ixs.take(k as int), *span),
        decreases ixs.len() - k,
    {
        let ix = ixs[k];
        proof {
            assert(spec_ixs.take(k + 1).drop_last() =~= spec_ixs.take(k as int));
            assert(spec_ixs.take(k + 1).last() == *ix);
        }
        let mut part = if ix.unique && !ends_with(ix.name.as_str(), "_pkey") {
            let d = messages::msg_quoted(ix.name.as_str());
            one(rule, messages::msg_pgm010(col, t.as_str(), d.as_str()), ctx, span)
        } else {
            none()
        };
        proof {
            lemma_findings_view_add(r@, part@);
            assert(base + unique_index_findings(*ctx, t@, col@, spec_ixs.take(k + 1), *span) =~= base + unique_index_findings(*ctx, t@, col@, spec_ixs.take(k as int), *span) + findings_view(part@));
        }
        r.append(&mut part);
        k = k + 1;
    }
    proof {
        assert(spec_ixs.take(spec_ixs.len() as int) =~= spec_ixs);
    }
    r
}

fn nullable_columns_of(table: &TableState, ix: &IndexState) -> (r: Vec<String>)
    ensures
        strings_view(r@) == nullable_columns(*table, ix.spec_column_names()),
{
    let mut r: Vec<String> = Vec::new();
    let mut i: usize = 0;
    proof {
        assert(strings_view(r@) =~= Seq::<Seq<char>>::empty());
    }
    while i < ix.entries.len()
        invariant
            i <= ix.entries.len(),
            strings_view(r@) == nullable_columns(*table, entry_column_names(ix.entries@.take(i as int))),
        decreases ix.entries.len() - i,
    {
        proof {
            assert(ix.entries@.take(i + 1).drop_last() =~= ix.entries@.take(i as int));
        }
        if let IndexEntry::Column(c) = &ix.entries[i] {
            let ghost names_before = entry_column_names(ix.entries@.take(i as int));
            proof {
                assert(entry_column_names(ix.entries@.take(i + 1)) == names_before.push(c@));
                assert(names_before.push(c@).drop_last() =~= names_before);
            }
            match table.get_column(c.as_str()) {
                Some(col) => if col.nullable {
                    let cc = c.clone();
                    proof {
                        assert(strings_view(r@.push(cc)) =~= strings_view(r@).push(c@));
                    }
                    r.push(cc);
                },
                None => {},
            }
        }
        i = i + 1;
    }
    proof {
        assert(ix.entries@.take(ix.entries@.len() as int) =~= ix.entries@);
    }
    r
}

fn key_constraint_action(
    rule: RuleId,
    ctx: &LintContext,
    at: &AlterTable,
    columns: &Vec<String>,
    using_index: &Option<String>,
    span: &SourceSpan,
) -> (r: Vec<Finding>)
    requires
        rule == RuleId::Pgm016 || rule == RuleId::Pgm017,
    ensures
        findings_view(r@) == s_key_constraint(rule, *ctx, *at, strings_view(columns@), opt_string_view(*using_index), *span),
{
    let pk = rule == RuleId::Pgm016;
    let table = match ctx.catalog_before.get_table(at.name.catalog_key()) {
        Some(t) => t,
        None => return none(),
    };
    let t = at.name.display_name();
    let ts = t.as_str();
    match using_index {
        Some(i) => {
            let is = i.as_str();
            match ctx.get_index(is) {
                None => one(rule, if pk { messages::msg_pgm016_missing(is, ts) } else { messages::msg_pgm017_missing(is, ts) }, ctx, span),
                Some(ix) => if !ix.unique {
                    one(rule, if pk { messages::msg_pgm016_not_unique(is, ts) } else { messages::msg_pgm017_not_unique(is, ts) }, ctx, span)
                } else if !ix.is_btree() {
                    let m = ix.access_method.as_str();
                    one(rule, if pk { messages::msg_pgm016_not_btree(is, ts, m) } else { messages::msg_pgm017_not_btree(is, ts, m) }, ctx, span)
                } else if pk {
                    let nullable = nullable_columns_of(table, ix);
                    if nullable.len() > 0 {
                        let cols = join_strings(&nullable, ", ");
                        one(rule, messages::msg_pgm016_nullable(is, ts, cols.as_str()), ctx, span)
                    } else {
                        none()
                    }
                } else {
                    none()
                },
            }
        },
        None => {
            let cols = join_strings(columns, ", ");
            one(rule, if pk { messages::msg_pgm016_no_index(ts, cols.as_str()) } else { messages::msg_pgm017_no_index(ts, cols.as_str()) }, ctx, span)
        },
    }
}

fn action_check(
    rule: RuleId,
    ctx: &LintContext,
    at: &AlterTable,
    a: &AlterTableAction,
    span: &SourceSpan,
) -> (r: Vec<Finding>)
    ensures
        findings_view(r@) == action_findings(rule, *ctx, *at, *a, *span),
{
    let t = at.name.display_name();
    match rule {
        RuleId::Pgm004 => match a {
            AlterTableAction::DetachPartition { concurrent, .. } => if !*concurrent {
                one(rule, messages::msg_pgm004(t.as_str()), ctx, span)
            } else {
                none()
            },
            _ => none(),
        },
        RuleId::Pgm013 => match a {
            AlterTableAction::SetNotNull { column_name } => one(
                rule,
                messages::msg_pgm013(column_name.as_str(), t.as_str()),
                ctx,
                span,
            ),
            _ => none(),
        },
        RuleId::Pgm015 => match a {
            AlterTableAction::AddConstraint(TableConstraint::Check { not_valid, .. }) => if !*not_valid {
                one(rule, messages::msg_pgm015(t.as_str()), ctx, span)
            } else {
                none()
            },
            _ => none(),
        },
        RuleId::Pgm019 => match a {
            AlterTableAction::AddConstraint(TableConstraint::Exclude { .. }) => one(
                rule,
                messages::msg_pgm019(t.as_str()),
                ctx,
                span,
            ),
            _ => none(),
        },
        RuleId::Pgm020 => pgm020_action(ctx, at, a, span),
        RuleId::Pgm005 => match a {
            AlterTableAction::AttachPartition { child } => pgm005_action(ctx, at, child, span),
            _ => none(),
        },
        RuleId::Pgm007 | RuleId::Pgm009 => match a {
            AlterTableAction::AlterColumnType { column_name, new_type, old_type } => type_change_action(rule, ctx, at, column_name, new_type, old_type, span),
            _ => none(),
        },
        RuleId::Pgm010 | RuleId::Pgm011 | RuleId::Pgm012 => match a {
            AlterTableAction::DropColumn { name } => drop_column_action(rule, ctx, at, name, span),
            _ => none(),
        },
        RuleId::Pgm016 | RuleId::Pgm017 => match a {
            AlterTableAction::AddConstraint(TableConstraint::PrimaryKey { columns, using_index }) => if rule == RuleId::Pgm016 {
                key_constraint_action(rule, ctx, at, columns, using_index, span)
            } else {
                none()
            },
            AlterTableAction::AddConstraint(TableConstraint::Unique { columns, using_index, .. }) => if rule == RuleId::Pgm017 {
                key_constraint_action(rule, ctx, at, columns, using_index, span)
            } else {
                none()
            },
            _ => none(),
        },
        RuleId::Pgm101 | RuleId::Pgm102 | RuleId::Pgm103 | RuleId::Pgm104 => match a {
            AlterTableAction::AddColumn(col) => column_type_check(rule, ctx, &at.name, col.name.as_str(), &col.data_type, span),
            AlterTableAction::AlterColumnType { column_name, new_type, .. } => column_type_check(rule, ctx, &at.name, column_name.as_str(), new_type, span),
            _ => none(),
        },
        RuleId::Pgm105 => match a {
            AlterTableAction::AddColumn(col) => if col.is_serial {
                let r = column_type_check(rule, ctx, &at.name, col.name.as_str(), &col.data_type, span);
                proof {
                    assert(column_type_findings(rule, *ctx, at.name@, col.name@, col.data_type, *span).take(1) =~= column_type_findings(rule, *ctx, at.name@, col.name@, col.data_type, *span));
                }
                r
            } else {
                let r = none();
                proof {
                    assert(column_type_findings(rule, *ctx, at.name@, col.name@, col.data_type, *span).take(0) =~= Seq::<FindingView>::empty());
                }
                r
            },
            _ => none(),
        },
        RuleId::Pgm006 => match a {
            AlterTableAction::AddColumn(col) => match &col.default_expr {
                Some(DefaultExpr::FunctionCall { name, .. }) => pgm006_add(ctx, at, col.name.as_str(), name.as_str(), span),
                _ => none(),
            },
            AlterTableAction::SetDefault { column_name, default_expr } => match default_expr {
                DefaultExpr::FunctionCall { name, .. } => pgm006_set(ctx, at, column_name.as_str(), name.as_str(), span),
                _ => none(),
            },
            _ => none(),
        },
        _ => none(),
    }
}

fn one_at(sev: Severity, msg: String, ctx: &LintContext, span: &SourceSpan) -> (r: Vec<Finding>)
    ensures
        findings_view(r@) == seq![spec_finding(RuleId::Pgm006, sev, msg@, ctx.file@, *span)],
{
    let f = Finding::new(RuleId::Pgm006, sev, msg, ctx.file, span);
    let mut r = Vec::new();
    r.push(f);
    proof {
        assert(findings_view(r@) =~= seq![spec_finding(RuleId::Pgm006, sev, msg@, ctx.file@, *span)]);
    }
    r
}

fn pgm006_add(ctx: &LintContext, at: &AlterTable, col: &str, f: &str, span: &SourceSpan) -> (r: Vec<Finding>)
    ensures
        findings_view(r@) == s_pgm006_add(*ctx, *at, col@, f@, *span),
{
    match lookup(f) {
        Some(FnVolatility::Volatile) => {
            let t = at.name.display_name();
            let msg = if is_nextval(f) {
                messages::msg_pgm006_add_nextval(col, t.as_str())
            } else {
                messages::msg_pgm006_add_volatile(col, t.as_str(), f)
            };
            one_at(Severity::Minor, msg, ctx, span)
        },
        None => {
            let t = at.name.to_full_string();
            one_at(Severity::Info, messages::msg_pgm006_add_unknown(col, t.as_str(), f), ctx, span)
        },
        _ => none(),
    }
}

fn pgm006_set(ctx: &LintContext, at: &AlterTable, col: &str, f: &str, span: &SourceSpan) -> (r: Vec<Finding>)
    ensures
        findings_view(r@) == s_pgm006_set(*ctx, *at, col@, f@, *span),
{
    let t = at.name.display_name();
    match lookup(f) {
        Some(FnVolatility::Volatile) => {
            let msg = if is_nextval(f) {
                messages::msg_pgm006_set_nextval(col, t.as_str())
            } else {
                messages::msg_pgm006_set_volatile(f, col, t.as_str())
            };
            one_at(Severity::Info, msg, ctx, span)
        },
        None => one_at(Severity::Info, messages::msg_pgm006_set_unknown(f, col, t.as_str()), ctx, span),
        _ => none(),
    }
}

/// Run an ALTER TABLE rule over every action of `at`.
fn actions_check(rule: RuleId, ctx: &LintContext, at: &AlterTable, span: &SourceSpan) -> (r: Vec<Finding>)
    ensures
        findings_view(r@) == actions_findings(rule, *ctx, *at, at.actions@, *span),
{
    let mut r: Vec<Finding> = Vec::new();
    let mut i: usize = 0;
    proof {
        assert(findings_view(r@) =~= Seq::<FindingView>::empty());
    }
    while i < at.actions.len()
        invariant
            i <= at.actions.len(),
            findings_view(r@) == actions_findings(rule, *ctx, *at, at.actions@.take(i as int), *span),
        decreases at.actions.len() - i,
    {
        let mut part = action_check(rule, ctx, at, &at.actions[i], span);
        proof {
            assert(at.actions@.take(i + 1).drop_last() =~= at.actions@.take(i as int));
            lemma_findings_view_add(r@, part@);
        }
        r.append(&mut part);
        i = i + 1;
    }
    proof {
        assert(at.actions@.take(at.actions@.len() as int) =~= at.actions@);
    }
    r
}

fn alter_stmt(rule: RuleId, scope: TableScope, ctx: &LintContext, stmt: &Located<IrNode>) -> (r: Vec<Finding>)
    requires
        alter_scope(rule) == Some(scope),
    ensures
        findings_view(r@) == stmt_findings(rule, *ctx, *stmt),
{
    match &stmt.node {
        IrNode::AlterTable(at) => if ctx.table_matches_scope(at.name.catalog_key(), scope) {
            actions_check(rule, ctx, at, &stmt.span)
        } else {
            none()
        },
        _ => none(),
    }
}

/// The scope of an ALTER TABLE rule.
fn scope_of(rule: RuleId) -> (r: Option<TableScope>)
    ensures
        r == alter_scope(rule),
{
    match rule {
        RuleId::Pgm004 | RuleId::Pgm005 | RuleId::Pgm007 | RuleId::Pgm009 | RuleId::Pgm013
        | RuleId::Pgm015 | RuleId::Pgm016 | RuleId::Pgm017 | RuleId::Pgm019 => Some(
            TableScope::ExcludeCreatedInChange,
        ),
        RuleId::Pgm010 | RuleId::Pgm011 | RuleId::Pgm012 => Some(TableScope::AnyPreExisting),
        _ => None,
    }
}

/// What `rule` reports for one statement.
pub fn check_statement(rule: RuleId, ctx: &LintContext, stmt: &Located<IrNode>) -> (r: Vec<Finding>)
    ensures
        findings_view(r@) == stmt_findings(rule, *ctx, *stmt),
{
    match rule {
        RuleId::Pgm001 => pgm001_stmt(ctx, stmt),
        RuleId::Pgm003 => pgm003_stmt(ctx, stmt),
        RuleId::Pgm018 => pgm018_stmt(ctx, stmt),
        RuleId::Pgm201 | RuleId::Pgm203 | RuleId::Pgm301 | RuleId::Pgm302 | RuleId::Pgm303 => existing_table_stmt(rule, ctx, stmt),
        RuleId::Pgm401 => pgm401_stmt(ctx, stmt),
        RuleId::Pgm002 => pgm002_stmt(ctx, stmt),
        RuleId::Pgm202 | RuleId::Pgm204 | RuleId::Pgm205 => cascade_stmt(rule, ctx, stmt),
        RuleId::Pgm006 => match &stmt.node {
            IrNode::AlterTable(at) => if vec_has_string(ctx.tables_created_in_change, at.name.catalog_key()) {
                none()
            } else {
                actions_check(rule, ctx, at, &stmt.span)
            },
            _ => none(),
        },
        RuleId::Pgm020 => match &stmt.node {
            IrNode::AlterTable(at) => actions_check(rule, ctx, at, &stmt.span),
            _ => none(),
        },
        RuleId::Pgm101 | RuleId::Pgm102 | RuleId::Pgm103 | RuleId::Pgm104 | RuleId::Pgm105 => match &stmt.node {
            IrNode::CreateTable(ct) => columns_check(rule, ctx, &ct.name, &ct.columns, &stmt.span),
            IrNode::AlterTable(at) => actions_check(rule, ctx, at, &stmt.span),
            _ => none(),
        },
        _ => match scope_of(rule) {
            Some(scope) => alter_stmt(rule, scope, ctx, stmt),
            None => none(),
        },
    }
}

/// Run `rule` statement by statement.
fn check_each(rule: RuleId, statements: &[Located<IrNode>], ctx: &LintContext) -> (r: Vec<Finding>)
    ensures
        findings_view(r@) == spec_check(rule, *ctx, statements@),
{
    let mut r: Vec<Finding> = Vec::new();
    let mut i: usize = 0;
    proof {
        assert(findings_view(r@) =~= Seq::<FindingView>::empty());
    }
    while i < statements.len()
        invariant
            i <= statements.len(),
            findings_view(r@) == spec_check(rule, *ctx, statements@.take(i as int)),
        decreases statements.len() - i,
    {
        let mut part = check_statement(rule, ctx, &statements[i]);
        proof {
            assert(statements@.take(i + 1).drop_last() =~= statements@.take(i as int));
            lemma_findings_view_add(r@, part@);
        }
        r.append(&mut part);
        i = i + 1;
    }
    proof {
        assert(statements@.take(statements@.len() as int) =~= statements@);
    }
    r
}

/// The existing-table rules are those of `check_existing_table`, with
/// `existing_target` as the extraction.
proof fn lemma_existing_table_rules(rule: RuleId, ctx: LintContext, stmts: Seq<Located<IrNode>>)
    requires
        rule == RuleId::Pgm201 || rule == RuleId::Pgm203 || rule == RuleId::Pgm301 || rule == RuleId::Pgm302
            || rule == RuleId::Pgm303,
    ensures
        spec_existing_table_check(rule, ctx, |n: IrNode| existing_target(rule, n), stmts) == spec_check(rule, ctx, stmts),
    decreases stmts.len(),
{
    if stmts.len() > 0 {
        lemma_existing_table_rules(rule, ctx, stmts.drop_last());
    }
}

/// Over the actions of one statement, an ALTER TABLE rule reports what
/// `check_alter_actions` gathers with the rule's own action check.
proof fn lemma_actions_as_alter(rule: RuleId, ctx: LintContext, at: AlterTable, stmt: Located<IrNode>, acts: Seq<AlterTableAction>)
    ensures
        actions_findings(rule, ctx, at, acts, stmt.span) == alter_action_findings(
            |at2: AlterTable, a: AlterTableAction, s: Located<IrNode>| action_findings(rule, ctx, at2, a, s.span),
            ctx,
            at,
            stmt,
            acts,
        ),
    decreases acts.len(),
{
    if acts.len() > 0 {
        lemma_actions_as_alter(rule, ctx, at, stmt, acts.drop_last());
    }
}

/// The ALTER TABLE rules are those of `check_alter_actions`, in their
/// scope, with `action_findings` as the action check.
proof fn lemma_alter_rules(rule: RuleId, scope: TableScope, ctx: LintContext, stmts: Seq<Located<IrNode>>)
    requires
        alter_scope(rule) == Some(scope),
    ensures
        spec_check_alter_actions(
            scope,
            |at: AlterTable, a: AlterTableAction, s: Located<IrNode>| action_findings(rule, ctx, at, a, s.span),
            ctx,
            stmts,
        ) == spec_check(rule, ctx, stmts),
    decreases stmts.len(),
{
    if stmts.len() > 0 {
        lemma_alter_rules(rule, scope, ctx, stmts.drop_last());
        match stmts.last().node {
            IrNode::AlterTable(at) => lemma_actions_as_alter(rule, ctx, at, stmts.last(), at.actions@),
            _ => {},
        }
    }
}

/// The drop-column rules are those of `check_drop_column_constraints`, with
/// `drop_column_rule_findings` as the check.
proof fn lemma_drop_column_rules(rule: RuleId, ctx: LintContext, stmts: Seq<Located<IrNode>>)
    requires
        rule == RuleId::Pgm010 || rule == RuleId::Pgm011 || rule == RuleId::Pgm012,
    ensures
        spec_check_drop_column_constraints(
            |n: Seq<char>, at: AlterTable, t: TableState, s: Located<IrNode>|
                drop_column_rule_findings(rule, ctx, n, at.name@.display(), t, s.span),
            ctx,
            stmts,
        ) == spec_check(rule, ctx, stmts),
{
    let g = |n: Seq<char>, at: AlterTable, t: TableState, s: Located<IrNode>|
        drop_column_rule_findings(rule, ctx, n, at.name@.display(), t, s.span);
    let f1 = |at: AlterTable, a: AlterTableAction, s: Located<IrNode>| drop_column_action_findings(g, ctx, at, a, s);
    let f2 = |at: AlterTable, a: AlterTableAction, s: Located<IrNode>| action_findings(rule, ctx, at, a, s.span);
    assert(f1 =~= f2);
    lemma_alter_rules(rule, TableScope::AnyPreExisting, ctx, stmts);
}

/// For a type rule, the columns of `CREATE TABLE` give what
/// `check_column_types` gives with the rule's predicate and message.
proof fn lemma_type_rule_columns(rule: RuleId, ctx: LintContext, t: QualifiedNameView, cols: Seq<ColumnDef>, span: SourceSpan)
    requires
        rule == RuleId::Pgm101 || rule == RuleId::Pgm102 || rule == RuleId::Pgm103 || rule == RuleId::Pgm104,
    ensures
        columns_findings(rule, ctx, t, cols, span) == flagged_columns(
            rule,
            spec_default_severity(rule),
            ctx,
            |tn: TypeName| type_flagged(rule, tn),
            |c: Seq<char>, q: QualifiedNameView, tn: TypeName| column_message(rule, c, q, tn),
            t,
            cols,
            span,
        ),
    decreases cols.len(),
{
    if cols.len() > 0 {
        lemma_type_rule_columns(rule, ctx, t, cols.drop_last(), span);
    }
}

/// For a type rule, the actions of `ALTER TABLE` give what
/// `check_column_types` gives with the rule's predicate and message.
proof fn lemma_type_rule_actions(rule: RuleId, ctx: LintContext, at: AlterTable, acts: Seq<AlterTableAction>, span: SourceSpan)
    requires
        rule == RuleId::Pgm101 || rule == RuleId::Pgm102 || rule == RuleId::Pgm103 || rule == RuleId::Pgm104,
    ensures
        actions_findings(rule, ctx, at, acts, span) == flagged_actions(
            rule,
            spec_default_severity(rule),
            ctx,
            |tn: TypeName| type_flagged(rule, tn),
            |c: Seq<char>, q: QualifiedNameView, tn: TypeName| column_message(rule, c, q, tn),
            at.name@,
            acts,
            span,
        ),
    decreases acts.len(),
{
    if acts.len() > 0 {
        lemma_type_rule_actions(rule, ctx, at, acts.drop_last(), span);
    }
}

/// The type rules PGM101-104 are those of `check_column_types`.
proof fn lemma_type_rules(rule: RuleId, ctx: LintContext, stmts: Seq<Located<IrNode>>)
    requires
        rule == RuleId::Pgm101 || rule == RuleId::Pgm102 || rule == RuleId::Pgm103 || rule == RuleId::Pgm104,
    ensures
        spec_check_column_types(
            rule,
            spec_default_severity(rule),
            ctx,
            |tn: TypeName| type_flagged(rule, tn),
            |c: Seq<char>, q: QualifiedNameView, tn: TypeName| column_message(rule, c, q, tn),
            stmts,
        ) == spec_check(rule, ctx, stmts),
    decreases stmts.len(),
{
    if stmts.len() > 0 {
        lemma_type_rules(rule, ctx, stmts.drop_last());
        let s = stmts.last();
        match s.node {
            IrNode::CreateTable(ct) => lemma_type_rule_columns(rule, ctx, ct.name@, ct.columns@, s.span),
            IrNode::AlterTable(at) => lemma_type_rule_actions(rule, ctx, at, at.actions@, s.span),
            _ => {},
        }
    }
}

impl RuleId {
    /// Run this rule over the statements of one migration unit. The findings
    /// come statement by statement, in order.
    pub fn check(&self, statements: &[Located<IrNode>], ctx: &LintContext) -> (r: Vec<Finding>)
        ensures
            findings_view(r@) == spec_check(*self, *ctx, statements@),
    {
        let rule = *self;
        match rule {
            RuleId::Pgm201 | RuleId::Pgm203 | RuleId::Pgm301 | RuleId::Pgm302 | RuleId::Pgm303 => {
                let extract = |n: &IrNode| -> (t: Option<(QualifiedName, String)>)
                    ensures
                        target_view(t) == existing_target(rule, *n),
                {
                    existing_target_of(rule, n)
                };
                let r = check_existing_table(statements, ctx, rule, extract, Ghost(|n: IrNode| existing_target(rule, n)));
                proof {
                    lemma_existing_table_rules(rule, *ctx, statements@);
                }
                r
            },
            RuleId::Pgm004 | RuleId::Pgm005 | RuleId::Pgm007 | RuleId::Pgm009 | RuleId::Pgm013 | RuleId::Pgm015
            | RuleId::Pgm016 | RuleId::Pgm017 | RuleId::Pgm019 => {
                let on_action = move |at: &AlterTable, a: &AlterTableAction, stmt: &Located<IrNode>, c: &LintContext| -> (out: Vec<Finding>)
                    ensures
                        findings_view(out@) == action_findings(rule, *c, *at, *a, stmt.span),
                {
                    action_check(rule, c, at, a, &stmt.span)
                };
                let r = check_alter_actions(
                    statements,
                    ctx,
                    TableScope::ExcludeCreatedInChange,
                    on_action,
                    Ghost(|at: AlterTable, a: AlterTableAction, s: Located<IrNode>| action_findings(rule, *ctx, at, a, s.span)),
                );
                proof {
                    lemma_alter_rules(rule, TableScope::ExcludeCreatedInChange, *ctx, statements@);
                }
                r
            },
            RuleId::Pgm010 | RuleId::Pgm011 | RuleId::Pgm012 => {
                let on_drop = move |name: &str, at: &AlterTable, table: &TableState, stmt: &Located<IrNode>, c: &LintContext| -> (out: Vec<Finding>)
                    requires
                        rule == RuleId::Pgm010 || rule == RuleId::Pgm011 || rule == RuleId::Pgm012,
                    ensures
                        findings_view(out@) == drop_column_rule_findings(rule, *c, name@, at.name@.display(), *table, stmt.span),
                {
                    drop_column_rule(rule, c, at, table, name, &stmt.span)
                };
                let r = check_drop_column_constraints(
                    statements,
                    ctx,
                    on_drop,
                    Ghost(
                        |n: Seq<char>, at: AlterTable, t: TableState, s: Located<IrNode>|
                            drop_column_rule_findings(rule, *ctx, n, at.name@.display(), t, s.span),
                    ),
                );
                proof {
                    lemma_drop_column_rules(rule, *ctx, statements@);
                }
                r
            },
            RuleId::Pgm101 | RuleId::Pgm102 | RuleId::Pgm103 | RuleId::Pgm104 => {
                let predicate = move |tn: &TypeName| -> (b: bool)
                    ensures
                        b == type_flagged(rule, *tn),
                {
                    flags_type(rule, tn)
                };
                let message_fn = move |c: &str, t: &QualifiedName, tn: &TypeName| -> (m: String)
                    ensures
                        m@ == column_message(rule, c@, t@, *tn),
                {
                    column_message_of(rule, c, t, tn)
                };
                let r = check_column_types(
                    statements,
                    ctx,
                    rule,
                    rule.default_severity(),
                    predicate,
                    message_fn,
                    Ghost(|tn: TypeName| type_flagged(rule, tn)),
                    Ghost(|c: Seq<char>, q: QualifiedNameView, tn: TypeName| column_message(rule, c, q, tn)),
                );
                proof {
                    lemma_type_rules(rule, *ctx, statements@);
                }
                r
            },
            _ => check_each(rule, statements, ctx),
        }
    }
}

/// The table a statement acts on, by catalog key, for the statements that
/// name their table.
pub open spec fn statement_table(n: IrNode) -> Option<Seq<char>> {
    match n {
        IrNode::AlterTable(at) => Some(at.name@.key()),
        IrNode::CreateIndex(ci) => Some(ci.table_name@.key()),
        IrNode::DropTable(dt) => Some(dt.name@.key()),
        IrNode::TruncateTable(tt) => Some(tt.name@.key()),
        IrNode::InsertInto(ii) => Some(ii.table_name@.key()),
        IrNode::UpdateTable(ut) => Some(ut.table_name@.key()),
        IrNode::DeleteFrom(df) => Some(df.table_name@.key()),
        IrNode::Cluster(c) => Some(c.table@.key()),
        _ => None,
    }
}

/// The rules that leave alone the tables created in the change being
/// linted: the locking, rewrite and data rules.
pub open spec fn exempts_new_tables(rule: RuleId) -> bool {
    match rule {
        RuleId::Pgm001 | RuleId::Pgm004 | RuleId::Pgm005 | RuleId::Pgm006 | RuleId::Pgm007 | RuleId::Pgm009
        | RuleId::Pgm013 | RuleId::Pgm015 | RuleId::Pgm016 | RuleId::Pgm017 | RuleId::Pgm018 | RuleId::Pgm019
        | RuleId::Pgm201 | RuleId::Pgm202 | RuleId::Pgm203 | RuleId::Pgm204 | RuleId::Pgm301 | RuleId::Pgm302
        | RuleId::Pgm303 => true,
        _ => false,
    }
}

/// Brand-new tables are exempt: a statement on a table created earlier in
/// the same change gives no finding under these rules.
pub proof fn lemma_new_tables_exempt(rule: RuleId, ctx: LintContext, stmt: Located<IrNode>, key: Seq<char>)
    requires
        exempts_new_tables(rule),
        statement_table(stmt.node) == Some(key),
        seq_has_string(ctx.tables_created_in_change@, key),
    ensures
        stmt_findings(rule, ctx, stmt) == Seq::<FindingView>::empty(),
{
}

/// Whether table `t` holds an index named `name`.
pub open spec fn holds_index(t: TableState, name: Seq<char>) -> bool {
    exists|j: int| 0 <= j < t.indexes@.len() && #[trigger] t.indexes@[j].name@ == name
}

proof fn lemma_holder_of_first(tables: Seq<TableState>, name: Seq<char>)
    ensures
        first_table_with_index(tables, name) >= 0 ==> holds_index(tables[first_table_with_index(tables, name)], name),
        first_table_with_index(tables, name) < 0 ==> forall|i: int| 0 <= i < tables.len() ==> !holds_index(#[trigger] tables[i], name),
        -1 <= first_table_with_index(tables, name) < tables.len(),
{
    lemma_first_table_with_index_range(tables, name);
    let ti = first_table_with_index(tables, name);
    if ti >= 0 {
        let ixs = tables[ti].indexes@;
        crate::catalog::lemma_first_index_index_range(ixs, name);
        let j = first_index_index(ixs, name);
        assert(ixs[j].name@ == name);
    } else {
        assert forall|i: int| 0 <= i < tables.len() implies !holds_index(#[trigger] tables[i], name) by {
            crate::catalog::lemma_first_index_index_range(tables[i].indexes@, name);
        }
    }
}

/// PGM002 leaves new tables alone: dropping an index that, in the catalog
/// before the unit, belongs to a table created earlier in the same change
/// gives no finding. (Index names are unique in a schema; the statement
/// covers every table that holds an index of that name.)
pub proof fn lemma_drop_index_of_new_table_exempt(ctx: LintContext, stmt: Located<IrNode>)
    requires
        stmt.node is DropIndex,
        forall|i: int|
            0 <= i < ctx.catalog_before.tables@.len() && holds_index(
                #[trigger] ctx.catalog_before.tables@[i],
                stmt.node->DropIndex_0.index_name@,
            ) ==> seq_has_string(ctx.tables_created_in_change@, ctx.catalog_before.tables@[i].name@),
    ensures
        stmt_findings(RuleId::Pgm002, ctx, stmt) == Seq::<FindingView>::empty(),
{
    lemma_holder_of_first(ctx.catalog_before.tables@, stmt.node->DropIndex_0.index_name@);
}

/// PGM002 says nothing of `DROP INDEX CONCURRENTLY`, nor of an index that
/// no table in the catalog before the unit holds.
pub proof fn lemma_drop_index_quiet_cases(ctx: LintContext, stmt: Located<IrNode>)
    requires
        stmt.node is DropIndex,
        stmt.node->DropIndex_0.concurrent || forall|i: int|
            0 <= i < ctx.catalog_before.tables@.len() ==> !holds_index(
                #[trigger] ctx.catalog_before.tables@[i],
                stmt.node->DropIndex_0.index_name@,
            ),
    ensures
        stmt_findings(RuleId::Pgm002, ctx, stmt) == Seq::<FindingView>::empty(),
{
    let name = stmt.node->DropIndex_0.index_name@;
    let tables = ctx.catalog_before.tables@;
    lemma_holder_of_first(tables, name);
    if !stmt.node->DropIndex_0.concurrent {
        let ti = first_table_with_index(tables, name);
        if ti >= 0 {
            assert(!holds_index(tables[ti], name));
        }
    }
}

/// PGM002 fires on a plain `DROP INDEX` of an index of a pre-existing table:
/// when the drop is not concurrent, some table holds the index, and no
/// table holding it was created in the change or is partitioned (nor is
/// any table of the same key), the result is exactly one finding of
/// PGM002, at its default severity, for this statement's file and lines.
pub proof fn lemma_drop_index_of_existing_table_fires(ctx: LintContext, stmt: Located<IrNode>)
    requires
        stmt.node is DropIndex,
        !stmt.node->DropIndex_0.concurrent,
        exists|i: int|
            0 <= i < ctx.catalog_before.tables@.len() && holds_index(
                #[trigger] ctx.catalog_before.tables@[i],
                stmt.node->DropIndex_0.index_name@,
            ),
        forall|i: int|
            0 <= i < ctx.catalog_before.tables@.len() && holds_index(
                #[trigger] ctx.catalog_before.tables@[i],
                stmt.node->DropIndex_0.index_name@,
            ) ==> !seq_has_string(ctx.tables_created_in_change@, ctx.catalog_before.tables@[i].name@),
        forall|i: int, j: int|
            0 <= i < ctx.catalog_before.tables@.len() && 0 <= j < ctx.catalog_before.tables@.len() && holds_index(
                #[trigger] ctx.catalog_before.tables@[i],
                stmt.node->DropIndex_0.index_name@,
            ) && #[trigger] ctx.catalog_before.tables@[j].name@ == ctx.catalog_before.tables@[i].name@
                ==> !ctx.catalog_before.tables@[j].is_partitioned,
    ensures
        stmt_findings(RuleId::Pgm002, ctx, stmt).len() == 1,
        stmt_findings(RuleId::Pgm002, ctx, stmt)[0].rule_id == RuleId::Pgm002,
        stmt_findings(RuleId::Pgm002, ctx, stmt)[0].severity == spec_default_severity(RuleId::Pgm002),
        stmt_findings(RuleId::Pgm002, ctx, stmt)[0].file == ctx.file@,
        stmt_findings(RuleId::Pgm002, ctx, stmt)[0].start_line == stmt.span.start_line,
        stmt_findings(RuleId::Pgm002, ctx, stmt)[0].end_line == stmt.span.end_line,
{
    let name = stmt.node->DropIndex_0.index_name@;
    let tables = ctx.catalog_before.tables@;
    lemma_holder_of_first(tables, name);
    let ti = first_table_with_index(tables, name);
    let tn = tables[ti].name@;
    crate::catalog::lemma_first_table_index_range(tables, tn);
    let k = crate::catalog::first_table_index(tables, tn);
    assert(tables[k].name@ == tables[ti].name@);
}

/// Whether `fs` is exactly one finding of `rule` at `severity` for the
/// statement at `span` of the context's file.
pub open spec fn is_one_finding(fs: Seq<FindingView>, rule: RuleId, severity: Severity, ctx: LintContext, span: SourceSpan) -> bool {
    &&& fs.len() == 1
    &&& fs[0].rule_id == rule
    &&& fs[0].severity == severity
    &&& fs[0].file == ctx.file@
    &&& fs[0].start_line == span.start_line
    &&& fs[0].end_line == span.end_line
}

/// Whether the table `key` existed before the unit and was not created in
/// the change.
pub open spec fn pre_existing(ctx: LintContext, key: Seq<char>) -> bool {
    ctx.catalog_before.spec_has_table(key) && !seq_has_string(ctx.tables_created_in_change@, key)
}

/// Whether `n` builds or drops an index `CONCURRENTLY`.
pub open spec fn concurrent_index_op(n: IrNode) -> bool {
    match n {
        IrNode::CreateIndex(ci) => ci.concurrent,
        IrNode::DropIndex(di) => di.concurrent,
        _ => false,
    }
}

/// Whether `n` drops a table or an index without `IF EXISTS`.
pub open spec fn drop_without_if_exists(n: IrNode) -> bool {
    match n {
        IrNode::DropTable(dt) => !dt.if_exists,
        IrNode::DropIndex(di) => !di.if_exists,
        _ => false,
    }
}

/// The index rules. PGM001 flags a `CREATE INDEX` without `CONCURRENTLY`
/// (and not `ON ONLY`) on a pre-existing table, and nothing else; PGM003
/// flags a concurrent index build or drop in a unit that runs in a
/// transaction, and nothing else.
pub proof fn lemma_index_rule_guards(ctx: LintContext, stmt: Located<IrNode>)
    ensures
        (stmt.node matches IrNode::CreateIndex(ci) && !ci.concurrent && !ci.only && pre_existing(ctx, ci.table_name@.key()))
            ==> is_one_finding(stmt_findings(RuleId::Pgm001, ctx, stmt), RuleId::Pgm001, spec_default_severity(RuleId::Pgm001), ctx, stmt.span),
        !(stmt.node matches IrNode::CreateIndex(ci) && !ci.concurrent && !ci.only && pre_existing(ctx, ci.table_name@.key()))
            ==> stmt_findings(RuleId::Pgm001, ctx, stmt) == Seq::<FindingView>::empty(),
        (ctx.run_in_transaction && concurrent_index_op(stmt.node))
            ==> is_one_finding(stmt_findings(RuleId::Pgm003, ctx, stmt), RuleId::Pgm003, spec_default_severity(RuleId::Pgm003), ctx, stmt.span),
        !(ctx.run_in_transaction && concurrent_index_op(stmt.node))
            ==> stmt_findings(RuleId::Pgm003, ctx, stmt) == Seq::<FindingView>::empty(),
{
}

/// The destructive and idempotency rules, by what the statement asks for:
/// PGM018 flags `CLUSTER` of a pre-existing table; PGM202 and PGM204 flag
/// `DROP TABLE ... CASCADE` and `TRUNCATE ... CASCADE` of a pre-existing
/// table; PGM205 flags every `DROP SCHEMA ... CASCADE`; PGM401 flags a
/// `DROP TABLE` or `DROP INDEX` without `IF EXISTS`. Each gives exactly one
/// finding there and none anywhere else.
pub proof fn lemma_statement_rule_guards(ctx: LintContext, stmt: Located<IrNode>)
    ensures
        (stmt.node matches IrNode::Cluster(c) && pre_existing(ctx, c.table@.key()))
            ==> is_one_finding(stmt_findings(RuleId::Pgm018, ctx, stmt), RuleId::Pgm018, spec_default_severity(RuleId::Pgm018), ctx, stmt.span),
        !(stmt.node matches IrNode::Cluster(c) && pre_existing(ctx, c.table@.key()))
            ==> stmt_findings(RuleId::Pgm018, ctx, stmt) == Seq::<FindingView>::empty(),
        (stmt.node matches IrNode::DropTable(dt) && dt.cascade && pre_existing(ctx, dt.name@.key()))
            ==> is_one_finding(stmt_findings(RuleId::Pgm202, ctx, stmt), RuleId::Pgm202, spec_default_severity(RuleId::Pgm202), ctx, stmt.span),
        !(stmt.node matches IrNode::DropTable(dt) && dt.cascade && pre_existing(ctx, dt.name@.key()))
            ==> stmt_findings(RuleId::Pgm202, ctx, stmt) == Seq::<FindingView>::empty(),
        (stmt.node matches IrNode::TruncateTable(tt) && tt.cascade && pre_existing(ctx, tt.name@.key()))
            ==> is_one_finding(stmt_findings(RuleId::Pgm204, ctx, stmt), RuleId::Pgm204, spec_default_severity(RuleId::Pgm204), ctx, stmt.span),
        !(stmt.node matches IrNode::TruncateTable(tt) && tt.cascade && pre_existing(ctx, tt.name@.key()))
            ==> stmt_findings(RuleId::Pgm204, ctx, stmt) == Seq::<FindingView>::empty(),
        (stmt.node matches IrNode::DropSchema(ds) && ds.cascade)
            ==> is_one_finding(stmt_findings(RuleId::Pgm205, ctx, stmt), RuleId::Pgm205, spec_default_severity(RuleId::Pgm205), ctx, stmt.span),
        !(stmt.node matches IrNode::DropSchema(ds) && ds.cascade)
            ==> stmt_findings(RuleId::Pgm205, ctx, stmt) == Seq::<FindingView>::empty(),
        drop_without_if_exists(stmt.node)
            ==> is_one_finding(stmt_findings(RuleId::Pgm401, ctx, stmt), RuleId::Pgm401, spec_default_severity(RuleId::Pgm401), ctx, stmt.span),
        !drop_without_if_exists(stmt.node)
            ==> stmt_findings(RuleId::Pgm401, ctx, stmt) == Seq::<FindingView>::empty(),
{
}

/// The existing-table rules: PGM201 (`DROP TABLE`), PGM203 (`TRUNCATE`),
/// PGM301 (`INSERT`), PGM302 (`UPDATE`) and PGM303 (`DELETE`) give one
/// finding for their statement on a pre-existing table and none otherwise;
/// the data-changing ones carry the table's key as dedup key, the others
/// none.
pub proof fn lemma_existing_table_rule_guards(rule: RuleId, ctx: LintContext, stmt: Located<IrNode>, key: Seq<char>)
    requires
        rule == RuleId::Pgm201 || rule == RuleId::Pgm203 || rule == RuleId::Pgm301 || rule == RuleId::Pgm302
            || rule == RuleId::Pgm303,
        statement_table(stmt.node) == Some(key),
        match (rule, stmt.node) {
            (RuleId::Pgm201, IrNode::DropTable(_)) => true,
            (RuleId::Pgm203, IrNode::TruncateTable(_)) => true,
            (RuleId::Pgm301, IrNode::InsertInto(_)) => true,
            (RuleId::Pgm302, IrNode::UpdateTable(_)) => true,
            (RuleId::Pgm303, IrNode::DeleteFrom(_)) => true,
            _ => false,
        },
    ensures
        pre_existing(ctx, key) ==> is_one_finding(stmt_findings(rule, ctx, stmt), rule, spec_default_severity(rule), ctx, stmt.span),
        pre_existing(ctx, key) ==> stmt_findings(rule, ctx, stmt)[0].dedup_key == (if rule == RuleId::Pgm201 || rule == RuleId::Pgm203 {
            None
        } else {
            Some(key)
        }),
        !pre_existing(ctx, key) ==> stmt_findings(rule, ctx, stmt) == Seq::<FindingView>::empty(),
{
}

/// Whether `stmt` is an `ALTER TABLE` with the single action `a`.
pub open spec fn single_alter(stmt: Located<IrNode>, a: AlterTableAction) -> bool {
    stmt.node matches IrNode::AlterTable(at) && at.actions@ == seq![a]
}

/// The table an `ALTER TABLE` statement alters.
pub open spec fn altered_key(stmt: Located<IrNode>) -> Seq<char> {
    match stmt.node {
        IrNode::AlterTable(at) => at.name@.key(),
        _ => Seq::empty(),
    }
}

proof fn lemma_single_action(rule: RuleId, ctx: LintContext, stmt: Located<IrNode>, a: AlterTableAction)
    requires
        single_alter(stmt, a),
    ensures
        ({
            let at = stmt.node->AlterTable_0;
            actions_findings(rule, ctx, at, at.actions@, stmt.span) == action_findings(rule, ctx, at, a, stmt.span)
        }),
{
    let at = stmt.node->AlterTable_0;
    assert(at.actions@.drop_last() =~= Seq::<AlterTableAction>::empty());
    assert(actions_findings(rule, ctx, at, Seq::<AlterTableAction>::empty(), stmt.span) == Seq::<FindingView>::empty());
    assert(Seq::<FindingView>::empty() + action_findings(rule, ctx, at, a, stmt.span) =~= action_findings(rule, ctx, at, a, stmt.span));
}

/// The `ALTER TABLE` rules on a statement with one action. On a
/// pre-existing table: PGM004 flags `DETACH PARTITION` without
/// `CONCURRENTLY`, PGM013 flags `SET NOT NULL`, PGM015 flags `ADD CHECK`
/// without `NOT VALID`, PGM019 flags `ADD EXCLUDE`, each with one finding at
/// its default severity. None of them reports anything on a table that did
/// not exist before the change or was created in it, and none reports
/// `DETACH PARTITION CONCURRENTLY` or `ADD CHECK ... NOT VALID`.
pub proof fn lemma_alter_rule_guards(ctx: LintContext, stmt: Located<IrNode>, a: AlterTableAction)
    requires
        single_alter(stmt, a),
    ensures
        pre_existing(ctx, altered_key(stmt)) && (a matches AlterTableAction::DetachPartition { concurrent, .. } && !concurrent)
            ==> is_one_finding(stmt_findings(RuleId::Pgm004, ctx, stmt), RuleId::Pgm004, spec_default_severity(RuleId::Pgm004), ctx, stmt.span),
        (a matches AlterTableAction::DetachPartition { concurrent, .. } && concurrent)
            ==> stmt_findings(RuleId::Pgm004, ctx, stmt) == Seq::<FindingView>::empty(),
        pre_existing(ctx, altered_key(stmt)) && a is SetNotNull
            ==> is_one_finding(stmt_findings(RuleId::Pgm013, ctx, stmt), RuleId::Pgm013, spec_default_severity(RuleId::Pgm013), ctx, stmt.span),
        pre_existing(ctx, altered_key(stmt)) && (a matches AlterTableAction::AddConstraint(TableConstraint::Check { not_valid, .. }) && !not_valid)
            ==> is_one_finding(stmt_findings(RuleId::Pgm015, ctx, stmt), RuleId::Pgm015, spec_default_severity(RuleId::Pgm015), ctx, stmt.span),
        (a matches AlterTableAction::AddConstraint(TableConstraint::Check { not_valid, .. }) && not_valid)
            ==> stmt_findings(RuleId::Pgm015, ctx, stmt) == Seq::<FindingView>::empty(),
        pre_existing(ctx, altered_key(stmt)) && (a matches AlterTableAction::AddConstraint(TableConstraint::Exclude { .. }))
            ==> is_one_finding(stmt_findings(RuleId::Pgm019, ctx, stmt), RuleId::Pgm019, spec_default_severity(RuleId::Pgm019), ctx, stmt.span),
        !pre_existing(ctx, altered_key(stmt)) ==> stmt_findings(RuleId::Pgm004, ctx, stmt) == Seq::<FindingView>::empty()
            && stmt_findings(RuleId::Pgm013, ctx, stmt) == Seq::<FindingView>::empty()
            && stmt_findings(RuleId::Pgm015, ctx, stmt) == Seq::<FindingView>::empty()
            && stmt_findings(RuleId::Pgm019, ctx, stmt) == Seq::<FindingView>::empty(),
{
    lemma_single_action(RuleId::Pgm004, ctx, stmt, a);
    lemma_single_action(RuleId::Pgm013, ctx, stmt, a);
    lemma_single_action(RuleId::Pgm015, ctx, stmt, a);
    lemma_single_action(RuleId::Pgm019, ctx, stmt, a);
}

/// The column-type rules on an `ALTER COLUMN ... TYPE` of a pre-existing
/// table whose old type the statement records: PGM007 and PGM009 report
/// nothing for a change their classification calls safe, one `Info`
/// finding for a conditionally safe one, and one finding at the rule's
/// default severity for a rewrite. PGM007 never lets `bit(n)` widen;
/// PGM009 does. On a table that is not pre-existing they report nothing.
pub proof fn lemma_type_change_guards(rule: RuleId, ctx: LintContext, stmt: Located<IrNode>, col: String, new_type: TypeName, old: TypeName)
    requires
        rule == RuleId::Pgm007 || rule == RuleId::Pgm009,
        single_alter(stmt, AlterTableAction::AlterColumnType { column_name: col, new_type, old_type: Some(old) }),
    ensures
        ({
            let safety = rule_cast_safety(rule, std_to_lowercase(old.name@), old.modifiers@, std_to_lowercase(new_type.name@), new_type.modifiers@);
            let fs = stmt_findings(rule, ctx, stmt);
            &&& pre_existing(ctx, altered_key(stmt)) && safety == CastSafety::Safe ==> fs == Seq::<FindingView>::empty()
            &&& pre_existing(ctx, altered_key(stmt)) && safety == CastSafety::Info ==> is_one_finding(fs, rule, Severity::Info, ctx, stmt.span)
            &&& pre_existing(ctx, altered_key(stmt)) && safety == CastSafety::Unsafe ==> is_one_finding(fs, rule, spec_default_severity(rule), ctx, stmt.span)
            &&& !pre_existing(ctx, altered_key(stmt)) ==> fs == Seq::<FindingView>::empty()
        }),
        rule == RuleId::Pgm009 ==> rule_cast_safety(rule, "bit"@, seq![8i64], "bit"@, seq![16i64]) == CastSafety::Safe,
        rule == RuleId::Pgm007 ==> rule_cast_safety(rule, "bit"@, seq![8i64], "bit"@, seq![16i64]) == CastSafety::Unsafe,
{
    lemma_single_action(rule, ctx, stmt, AlterTableAction::AlterColumnType { column_name: col, new_type, old_type: Some(old) });
    reveal_strlit("bit");
    reveal_strlit("varchar");
    reveal_strlit("character varying");
    reveal_strlit("numeric");
    reveal_strlit("decimal");
    reveal_strlit("varbit");
    reveal_strlit("bit varying");
    reveal_strlit("timestamp");
    reveal_strlit("timestamp without time zone");
    reveal_strlit("text");
    assert("bit"@.len() == 3);
}

/// Whether constraint `c` is the kind that dropping one of its columns
/// silently removes under `rule`: a primary key for PGM011, a foreign key
/// for PGM012, a unique constraint for PGM010.
pub open spec fn removed_kind(rule: RuleId, c: ConstraintState) -> bool {
    match (rule, c) {
        (RuleId::Pgm010, ConstraintState::Unique { .. }) => true,
        (RuleId::Pgm011, ConstraintState::PrimaryKey { .. }) => true,
        (RuleId::Pgm012, ConstraintState::ForeignKey { .. }) => true,
        _ => false,
    }
}

proof fn lemma_constraint_findings_nonempty(rule: RuleId, ctx: LintContext, t: Seq<char>, col: Seq<char>, cs: Seq<ConstraintState>, span: SourceSpan)
    requires
        rule == RuleId::Pgm010 || rule == RuleId::Pgm011 || rule == RuleId::Pgm012,
    ensures
        (if rule == RuleId::Pgm010 {
            unique_constraint_findings(ctx, t, col, cs, span)
        } else {
            drop_constraint_findings(rule, ctx, t, col, cs, span)
        }).len() > 0 <==> exists|i: int| 0 <= i < cs.len() && removed_kind(rule, #[trigger] cs[i]),
    decreases cs.len(),
{
    if cs.len() > 0 {
        lemma_constraint_findings_nonempty(rule, ctx, t, col, cs.drop_last(), span);
        if exists|i: int| 0 <= i < cs.drop_last().len() && removed_kind(rule, #[trigger] cs.drop_last()[i]) {
            let i = choose|i: int| 0 <= i < cs.drop_last().len() && removed_kind(rule, #[trigger] cs.drop_last()[i]);
            assert(cs[i] == cs.drop_last()[i]);
        }
        if exists|i: int| 0 <= i < cs.len() && removed_kind(rule, #[trigger] cs[i]) {
            let i = choose|i: int| 0 <= i < cs.len() && removed_kind(rule, #[trigger] cs[i]);
            if i < cs.len() - 1 {
                assert(cs.drop_last()[i] == cs[i]);
            }
        }
    }
}

proof fn lemma_filter_has_kind(rule: RuleId, table: TableState, col: Seq<char>)
    ensures
        (exists|i: int| 0 <= i < table.spec_constraints_involving(col).len() && removed_kind(rule, #[trigger] table.spec_constraints_involving(col)[i]))
            <==> (exists|j: int| 0 <= j < table.constraints@.len() && removed_kind(rule, #[trigger] table.constraints@[j]) && constraint_involves(table.constraints@[j], col)),
{
    let pred = |c: ConstraintState| constraint_involves(c, col);
    let f = table.spec_constraints_involving(col);
    assert(f == table.constraints@.filter(pred));
    if exists|i: int| 0 <= i < f.len() && removed_kind(rule, #[trigger] f[i]) {
        let i = choose|i: int| 0 <= i < f.len() && removed_kind(rule, #[trigger] f[i]);
        assert(f.contains(f[i]));
    }
    if exists|i: int| 0 <= i < f.len() && removed_kind(rule, #[trigger] f[i]) {
        let i = choose|i: int| 0 <= i < f.len() && removed_kind(rule, #[trigger] f[i]);
        table.constraints@.lemma_filter_pred(pred, i);
        assert(f.contains(f[i]));
        table.constraints@.lemma_filter_contains_rev(pred, f[i]);
        let j = choose|j: int| 0 <= j < table.constraints@.len() && table.constraints@[j] == f[i];
        assert(removed_kind(rule, table.constraints@[j]));
    }
    if exists|j: int| 0 <= j < table.constraints@.len() && removed_kind(rule, #[trigger] table.constraints@[j]) && constraint_involves(table.constraints@[j], col) {
        let j = choose|j: int| 0 <= j < table.constraints@.len() && removed_kind(rule, #[trigger] table.constraints@[j]) && constraint_involves(table.constraints@[j], col);
        table.constraints@.lemma_filter_contains(pred, j);
        let i = choose|i: int| 0 <= i < f.len() && f[i] == table.constraints@[j];
        assert(removed_kind(rule, f[i]));
    }
}

/// The drop-column rules on a statement whose one action drops column
/// `col`: nothing when the table is not in the catalog before the unit.
/// Otherwise PGM011 reports exactly when one of the table's primary-key
/// constraints covers the column, PGM012 exactly when one of its foreign
/// keys does, and PGM010 at least when one of its unique constraints does.
pub proof fn lemma_drop_column_rule_guards(rule: RuleId, ctx: LintContext, stmt: Located<IrNode>, col: String)
    requires
        rule == RuleId::Pgm010 || rule == RuleId::Pgm011 || rule == RuleId::Pgm012,
        single_alter(stmt, AlterTableAction::DropColumn { name: col }),
    ensures
        !ctx.catalog_before.spec_has_table(altered_key(stmt)) ==> stmt_findings(rule, ctx, stmt) == Seq::<FindingView>::empty(),
        ({
            let table = ctx.catalog_before.spec_get_table(altered_key(stmt))->Some_0;
            let covered = exists|j: int|
                0 <= j < table.constraints@.len() && removed_kind(rule, #[trigger] table.constraints@[j])
                    && constraint_involves(table.constraints@[j], col@);
            &&& ctx.catalog_before.spec_has_table(altered_key(stmt)) && rule != RuleId::Pgm010
                ==> (stmt_findings(rule, ctx, stmt).len() > 0 <==> covered)
            &&& ctx.catalog_before.spec_has_table(altered_key(stmt)) && rule == RuleId::Pgm010 && covered
                ==> stmt_findings(rule, ctx, stmt).len() > 0
        }),
{
    let a = AlterTableAction::DropColumn { name: col };
    lemma_single_action(rule, ctx, stmt, a);
    let at = stmt.node->AlterTable_0;
    if ctx.catalog_before.spec_has_table(at.name@.key()) {
        let table = ctx.catalog_before.spec_get_table(at.name@.key())->Some_0;
        let t = at.name@.display();
        let cs = table.spec_constraints_involving(col@);
        lemma_constraint_findings_nonempty(rule, ctx, t, col@, cs, stmt.span);
        lemma_filter_has_kind(rule, table, col@);
        if rule == RuleId::Pgm010 {
            let u = unique_constraint_findings(ctx, t, col@, cs, stmt.span);
            let x = unique_index_findings(ctx, t, col@, table.spec_indexes_involving(col@), stmt.span);
            assert((u + x).len() == u.len() + x.len());
        }
    }
}

/// PGM016 (`ADD PRIMARY KEY`) and PGM017 (`ADD UNIQUE`) on a statement with
/// that one action: without `USING INDEX`, on a pre-existing table, one
/// finding at the rule's default severity; with `USING INDEX` of an index
/// the catalogs do not know, one finding too; on a table that is not
/// pre-existing, nothing.
pub proof fn lemma_key_constraint_guards(rule: RuleId, ctx: LintContext, stmt: Located<IrNode>, c: TableConstraint)
    requires
        rule == RuleId::Pgm016 && c is PrimaryKey || rule == RuleId::Pgm017 && c is Unique,
        single_alter(stmt, AlterTableAction::AddConstraint(c)),
    ensures
        ({
            let using = match c {
                TableConstraint::PrimaryKey { using_index, .. } => using_index,
                TableConstraint::Unique { using_index, .. } => using_index,
                _ => None,
            };
            &&& pre_existing(ctx, altered_key(stmt)) && using is None
                ==> is_one_finding(stmt_findings(rule, ctx, stmt), rule, spec_default_severity(rule), ctx, stmt.span)
            &&& pre_existing(ctx, altered_key(stmt)) && using is Some && spec_ctx_find_index(ctx, using->Some_0@) is None
                ==> is_one_finding(stmt_findings(rule, ctx, stmt), rule, spec_default_severity(rule), ctx, stmt.span)
            &&& !pre_existing(ctx, altered_key(stmt)) ==> stmt_findings(rule, ctx, stmt) == Seq::<FindingView>::empty()
        }),
{
    lemma_single_action(rule, ctx, stmt, AlterTableAction::AddConstraint(c));
}

/// PGM020: `DISABLE TRIGGER` always gives one finding; at the rule's
/// default severity on a pre-existing table, at `Info` otherwise.
pub proof fn lemma_disable_trigger_guards(ctx: LintContext, stmt: Located<IrNode>, scope: TriggerDisableScope)
    requires
        single_alter(stmt, AlterTableAction::DisableTrigger { scope }),
    ensures
        pre_existing(ctx, altered_key(stmt)) ==> is_one_finding(
            stmt_findings(RuleId::Pgm020, ctx, stmt),
            RuleId::Pgm020,
            spec_default_severity(RuleId::Pgm020),
            ctx,
            stmt.span,
        ),
        !pre_existing(ctx, altered_key(stmt)) ==> is_one_finding(
            stmt_findings(RuleId::Pgm020, ctx, stmt),
            RuleId::Pgm020,
            Severity::Info,
            ctx,
            stmt.span,
        ),
{
    lemma_single_action(RuleId::Pgm020, ctx, stmt, AlterTableAction::DisableTrigger { scope });
}

/// The column type rules PGM101-104 on `CREATE TABLE`: findings exactly
/// when some column has a type the rule flags, each of the rule at its
/// default severity.
pub proof fn lemma_create_table_type_rules(rule: RuleId, ctx: LintContext, t: QualifiedNameView, cols: Seq<ColumnDef>, span: SourceSpan)
    requires
        rule == RuleId::Pgm101 || rule == RuleId::Pgm102 || rule == RuleId::Pgm103 || rule == RuleId::Pgm104,
    ensures
        columns_findings(rule, ctx, t, cols, span).len() > 0 <==> exists|i: int|
            0 <= i < cols.len() && type_flagged(rule, #[trigger] cols[i].data_type),
        forall|k: int|
            0 <= k < columns_findings(rule, ctx, t, cols, span).len() ==> (#[trigger] columns_findings(rule, ctx, t, cols, span)[k]).rule_id
                == rule && columns_findings(rule, ctx, t, cols, span)[k].severity == spec_default_severity(rule),
    decreases cols.len(),
{
    if cols.len() > 0 {
        lemma_create_table_type_rules(rule, ctx, t, cols.drop_last(), span);
        if exists|i: int| 0 <= i < cols.drop_last().len() && type_flagged(rule, #[trigger] cols.drop_last()[i].data_type) {
            let i = choose|i: int| 0 <= i < cols.drop_last().len() && type_flagged(rule, #[trigger] cols.drop_last()[i].data_type);
            assert(cols[i] == cols.drop_last()[i]);
        }
        if exists|i: int| 0 <= i < cols.len() && type_flagged(rule, #[trigger] cols[i].data_type) {
            let i = choose|i: int| 0 <= i < cols.len() && type_flagged(rule, #[trigger] cols[i].data_type);
            if i < cols.len() - 1 {
                assert(cols.drop_last()[i] == cols[i]);
            }
        }
        let prev = columns_findings(rule, ctx, t, cols.drop_last(), span);
        let last = column_type_findings(rule, ctx, t, cols.last().name@, cols.last().data_type, span);
        assert forall|k: int| 0 <= k < (prev + last).len() implies (#[trigger] (prev + last)[k]).rule_id == rule
            && (prev + last)[k].severity == spec_default_severity(rule) by {
            if k < prev.len() {
                assert((prev + last)[k] == prev[k]);
            }
        }
    }
}

/// PGM005 on `ATTACH PARTITION child` as the one action of a statement on a
/// pre-existing parent: nothing when the child is not pre-existing; one
/// finding at the rule's default severity when the child is pre-existing and
/// has no `CHECK` constraint at all (nothing can prove the partition bound).
pub proof fn lemma_attach_partition_guards(ctx: LintContext, stmt: Located<IrNode>, child: QualifiedName)
    requires
        single_alter(stmt, AlterTableAction::AttachPartition { child }),
    ensures
        !pre_existing(ctx, child@.key()) ==> stmt_findings(RuleId::Pgm005, ctx, stmt) == Seq::<FindingView>::empty(),
        !pre_existing(ctx, altered_key(stmt)) ==> stmt_findings(RuleId::Pgm005, ctx, stmt) == Seq::<FindingView>::empty(),
        ({
            let table = ctx.catalog_before.spec_get_table(child@.key())->Some_0;
            pre_existing(ctx, altered_key(stmt)) && pre_existing(ctx, child@.key()) && (forall|i: int|
                0 <= i < table.constraints@.len() ==> !(#[trigger] table.constraints@[i] is Check))
                ==> is_one_finding(stmt_findings(RuleId::Pgm005, ctx, stmt), RuleId::Pgm005, spec_default_severity(RuleId::Pgm005), ctx, stmt.span)
        }),
{
    lemma_single_action(RuleId::Pgm005, ctx, stmt, AlterTableAction::AttachPartition { child });
    let table = ctx.catalog_before.spec_get_table(child@.key())->Some_0;
    if forall|i: int| 0 <= i < table.constraints@.len() ==> !(#[trigger] table.constraints@[i] is Check) {
        assert forall|i: int| 0 <= i < table.constraints@.len() implies !check_covers(#[trigger] table.constraints@[i], Seq::<String>::empty()) by {}
    }
}

/// PGM006 on `ADD COLUMN ... DEFAULT f(...)` as the one action of a
/// statement: nothing on a table created in the change, nothing for a
/// function known to be stable or immutable, one `Minor` finding for a
/// volatile one and one `Info` finding for an unknown one (on any other
/// table).
pub proof fn lemma_volatile_default_guards(ctx: LintContext, stmt: Located<IrNode>, col: ColumnDef, f: String, args: Vec<String>)
    requires
        single_alter(stmt, AlterTableAction::AddColumn(col)),
        col.default_expr == Some(DefaultExpr::FunctionCall { name: f, args }),
    ensures
        seq_has_string(ctx.tables_created_in_change@, altered_key(stmt)) ==> stmt_findings(RuleId::Pgm006, ctx, stmt)
            == Seq::<FindingView>::empty(),
        !seq_has_string(ctx.tables_created_in_change@, altered_key(stmt)) ==> {
            let fs = stmt_findings(RuleId::Pgm006, ctx, stmt);
            &&& spec_lookup(f@) == Some(FnVolatility::Stable) || spec_lookup(f@) == Some(FnVolatility::Immutable)
                ==> fs == Seq::<FindingView>::empty()
            &&& spec_lookup(f@) == Some(FnVolatility::Volatile) ==> is_one_finding(fs, RuleId::Pgm006, Severity::Minor, ctx, stmt.span)
            &&& spec_lookup(f@) is None ==> is_one_finding(fs, RuleId::Pgm006, Severity::Info, ctx, stmt.span)
        },
{
    lemma_single_action(RuleId::Pgm006, ctx, stmt, AlterTableAction::AddColumn(col));
}

/// A rule looks at one statement at a time: the findings for two lists of
/// statements run together are those for the first followed by those for
/// the second.
pub proof fn lemma_check_concat(rule: RuleId, ctx: LintContext, a: Seq<Located<IrNode>>, b: Seq<Located<IrNode>>)
    ensures
        spec_check(rule, ctx, a + b) == spec_check(rule, ctx, a) + spec_check(rule, ctx, b),
    decreases b.len(),
{
    if b.len() == 0 {
        assert(a + b =~= a);
        assert(spec_check(rule, ctx, a) + spec_check(rule, ctx, b) =~= spec_check(rule, ctx, a));
    } else {
        lemma_check_concat(rule, ctx, a, b.drop_last());
        assert((a + b).drop_last() =~= a + b.drop_last());
        assert((a + b).last() == b.last());
        assert(spec_check(rule, ctx, a + b) =~= spec_check(rule, ctx, a) + spec_check(rule, ctx, b));
    }
}

/// A statement that a rule does not look at gives no finding, wherever it
/// stands: inserting `Ignored` statements changes nothing.
pub proof fn lemma_ignored_statement_silent(rule: RuleId, ctx: LintContext, stmt: Located<IrNode>)
    requires
        stmt.node is Ignored,
    ensures
        stmt_findings(rule, ctx, stmt) == Seq::<FindingView>::empty(),
{
}

/// Two lint contexts that agree on everything a rule can read: the same
/// catalogs, the same keys of created tables, the same transaction and
/// direction flags and the same file.
pub open spec fn same_context(c1: LintContext, c2: LintContext) -> bool {
    &&& *c1.catalog_before == *c2.catalog_before
    &&& *c1.catalog_after == *c2.catalog_after
    &&& strings_view(c1.tables_created_in_change@) == strings_view(c2.tables_created_in_change@)
    &&& c1.run_in_transaction == c2.run_in_transaction
    &&& c1.is_down == c2.is_down
    &&& c1.file@ == c2.file@
}

proof fn lemma_same_created(c1: LintContext, c2: LintContext)
    requires
        same_context(c1, c2),
    ensures
        forall|k: Seq<char>| seq_has_string(c1.tables_created_in_change@, k) == seq_has_string(c2.tables_created_in_change@, k),
{
    let v1 = c1.tables_created_in_change@;
    let v2 = c2.tables_created_in_change@;
    assert(v1.len() == strings_view(v1).len());
    assert(v2.len() == strings_view(v2).len());
    assert forall|k: Seq<char>| seq_has_string(v1, k) == seq_has_string(v2, k) by {
        if seq_has_string(v1, k) {
            let j = choose|j: int| 0 <= j < v1.len() && #[trigger] v1[j]@ == k;
            assert(strings_view(v1)[j] == v1[j]@);
            assert(strings_view(v2)[j] == v2[j]@);
            assert(v2[j]@ == k);
        }
        if seq_has_string(v2, k) {
            let j = choose|j: int| 0 <= j < v2.len() && #[trigger] v2[j]@ == k;
            assert(strings_view(v1)[j] == v1[j]@);
            assert(strings_view(v2)[j] == v2[j]@);
            assert(v1[j]@ == k);
        }
    }
}

proof fn lemma_same_unique_findings(c1: LintContext, c2: LintContext, t: Seq<char>, col: Seq<char>, cs: Seq<ConstraintState>, ixs: Seq<IndexState>, span: SourceSpan)
    requires
        same_context(c1, c2),
    ensures
        unique_constraint_findings(c1, t, col, cs, span) == unique_constraint_findings(c2, t, col, cs, span),
        unique_index_findings(c1, t, col, ixs, span) == unique_index_findings(c2, t, col, ixs, span),
    decreases cs.len() + ixs.len(),
{
    if cs.len() > 0 {
        lemma_same_unique_findings(c1, c2, t, col, cs.drop_last(), ixs, span);
    }
    if ixs.len() > 0 {
        lemma_same_unique_findings(c1, c2, t, col, cs, ixs.drop_last(), span);
    }
}

proof fn lemma_same_drop_constraint_findings(rule: RuleId, c1: LintContext, c2: LintContext, t: Seq<char>, col: Seq<char>, cs: Seq<ConstraintState>, span: SourceSpan)
    requires
        same_context(c1, c2),
    ensures
        drop_constraint_findings(rule, c1, t, col, cs, span) == drop_constraint_findings(rule, c2, t, col, cs, span),
    decreases cs.len(),
{
    if cs.len() > 0 {
        lemma_same_drop_constraint_findings(rule, c1, c2, t, col, cs.drop_last(), span);
    }
}

proof fn lemma_same_columns_findings(rule: RuleId, c1: LintContext, c2: LintContext, t: QualifiedNameView, cols: Seq<ColumnDef>, span: SourceSpan)
    requires
        same_context(c1, c2),
    ensures
        columns_findings(rule, c1, t, cols, span) == columns_findings(rule, c2, t, cols, span),
    decreases cols.len(),
{
    if cols.len() > 0 {
        lemma_same_columns_findings(rule, c1, c2, t, cols.drop_last(), span);
    }
}

proof fn lemma_same_action_findings(rule: RuleId, c1: LintContext, c2: LintContext, at: AlterTable, a: AlterTableAction, span: SourceSpan)
    requires
        same_context(c1, c2),
    ensures
        action_findings(rule, c1, at, a, span) == action_findings(rule, c2, at, a, span),
{
    lemma_same_created(c1, c2);
    match a {
        AlterTableAction::DropColumn { name } => {
            match c1.catalog_before.spec_get_table(at.name@.key()) {
                Some(table) => {
                    let col = name@;
                    lemma_same_unique_findings(c1, c2, at.name@.display(), col, table.spec_constraints_involving(col), table.spec_indexes_involving(col), span);
                    lemma_same_drop_constraint_findings(rule, c1, c2, at.name@.display(), col, table.spec_constraints_involving(col), span);
                },
                None => {},
            }
        },
        _ => {},
    }
}

proof fn lemma_same_actions_findings(rule: RuleId, c1: LintContext, c2: LintContext, at: AlterTable, acts: Seq<AlterTableAction>, span: SourceSpan)
    requires
        same_context(c1, c2),
    ensures
        actions_findings(rule, c1, at, acts, span) == actions_findings(rule, c2, at, acts, span),
    decreases acts.len(),
{
    if acts.len() > 0 {
        lemma_same_actions_findings(rule, c1, c2, at, acts.drop_last(), span);
        lemma_same_action_findings(rule, c1, c2, at, acts.last(), span);
    }
}

proof fn lemma_same_stmt_findings(rule: RuleId, c1: LintContext, c2: LintContext, stmt: Located<IrNode>)
    requires
        same_context(c1, c2),
    ensures
        stmt_findings(rule, c1, stmt) == stmt_findings(rule, c2, stmt),
{
    lemma_same_created(c1, c2);
    match stmt.node {
        IrNode::AlterTable(at) => lemma_same_actions_findings(rule, c1, c2, at, at.actions@, stmt.span),
        IrNode::CreateTable(ct) => lemma_same_columns_findings(rule, c1, c2, ct.name@, ct.columns@, stmt.span),
        _ => {},
    }
}

/// A rule reads its context only through the catalogs, the keys of the
/// created tables, the flags and the file: two contexts that agree on these
/// get the same findings.
pub proof fn lemma_check_same_context(rule: RuleId, c1: LintContext, c2: LintContext, stmts: Seq<Located<IrNode>>)
    requires
        same_context(c1, c2),
    ensures
        spec_check(rule, c1, stmts) == spec_check(rule, c2, stmts),
    decreases stmts.len(),
{
    if stmts.len() > 0 {
        lemma_check_same_context(rule, c1, c2, stmts.drop_last());
        lemma_same_stmt_findings(rule, c1, c2, stmts.last());
    }
}

} // verus!
