//! Linting a sequence of migration units, in order.
//!
//! The pipeline keeps the catalog as the units so far left it, and the
//! tables created by the units of the change being linted. Applying a unit's
//! statements to the catalog is the catalog's replay, which the caller runs;
//! the pipeline is handed its result.
use vstd::prelude::*;
use crate::catalog::{vec_has_string, Catalog};
use crate::parser::ir::{IrNode, Located};
use crate::rules::checks::{lemma_check_same_context, same_context, spec_check};
use crate::rules::context::LintContext;
use crate::rules::finding::{cap_for_down_migration, findings_view, lemma_findings_view_add, spec_cap, Finding, FindingView};
use crate::rules::ids::RuleId;
use crate::text::strings_view;

verus! {

/// One migration file (or one direction of it): its statements and how it runs.
pub struct MigrationUnit {
    pub id: String,
    pub statements: Vec<Located<IrNode>>,
    pub source_file: String,
    /// The line of the source file the statements start at.
    pub source_line_offset: usize,
    pub run_in_transaction: bool,
    pub is_down: bool,
}

/// The keys of the tables created so far, once the `CREATE TABLE`
/// statements of `stmts` are counted: each key once, in order of first
/// creation. A `CREATE TABLE IF NOT EXISTS` of a table the catalog already
/// had (`before`) creates nothing.
pub open spec fn created_after(created: Seq<Seq<char>>, before: Catalog, stmts: Seq<Located<IrNode>>) -> Seq<Seq<char>>
    decreases stmts.len(),
{
    if stmts.len() == 0 {
        created
    } else {
        let prev = created_after(created, before, stmts.drop_last());
        match stmts.last().node {
            IrNode::CreateTable(ct) => {
                let key = ct.name@.key();
                if !(ct.if_not_exists && before.spec_has_table(key)) && !prev.contains(key) {
                    prev.push(key)
                } else {
                    prev
                }
            },
            _ => prev,
        }
    }
}

/// What the rules report for a unit: each rule's findings, rule by rule.
pub open spec fn rules_findings(rules: Seq<RuleId>, ctx: LintContext, stmts: Seq<Located<IrNode>>) -> Seq<FindingView>
    decreases rules.len(),
{
    if rules.len() == 0 {
        Seq::empty()
    } else {
        rules_findings(rules.drop_last(), ctx, stmts) + spec_check(rules.last(), ctx, stmts)
    }
}

/// The lint context of a unit: the catalogs before and after it, the tables
/// created so far in the change, and how the unit runs.
pub open spec fn is_unit_context(
    ctx: LintContext,
    before: Catalog,
    after: Catalog,
    created: Seq<Seq<char>>,
    unit: MigrationUnit,
) -> bool {
    &&& *ctx.catalog_before == before
    &&& *ctx.catalog_after == after
    &&& strings_view(ctx.tables_created_in_change@) == created
    &&& ctx.run_in_transaction == unit.run_in_transaction
    &&& ctx.is_down == unit.is_down
    &&& ctx.file@ == unit.source_file@
}

/// The findings of a unit: the rules', capped to `Info` for a down migration.
pub open spec fn unit_findings(rules: Seq<RuleId>, ctx: LintContext, unit: MigrationUnit) -> Seq<FindingView> {
    let found = rules_findings(rules, ctx, unit.statements@);
    if unit.is_down {
        spec_cap(found)
    } else {
        found
    }
}

/// Linting only adds to the tables created in the change: every key already
/// there stays, and a key appears at most once if it did before.
pub proof fn lemma_created_after_grows(created: Seq<Seq<char>>, before: Catalog, stmts: Seq<Located<IrNode>>)
    ensures
        forall|k: Seq<char>| created.contains(k) ==> #[trigger] created_after(created, before, stmts).contains(k),
        created.no_duplicates() ==> created_after(created, before, stmts).no_duplicates(),
    decreases stmts.len(),
{
    if stmts.len() > 0 {
        lemma_created_after_grows(created, before, stmts.drop_last());
        let prev = created_after(created, before, stmts.drop_last());
        assert forall|k: Seq<char>| prev.contains(k) implies #[trigger] prev.push(k).contains(k) by {
            let j = choose|j: int| 0 <= j < prev.len() && prev[j] == k;
            assert(prev.push(k)[j] == k);
        }
        assert forall|k: Seq<char>, x: Seq<char>| prev.contains(k) implies #[trigger] prev.push(x).contains(k) by {
            let j = choose|j: int| 0 <= j < prev.len() && prev[j] == k;
            assert(prev.push(x)[j] == k);
        }
    }
}

/// A `CREATE TABLE` of a key not yet counted is counted, unless it is an
/// `IF NOT EXISTS` of a table the catalog already had.
pub proof fn lemma_created_table_counted(created: Seq<Seq<char>>, before: Catalog, stmts: Seq<Located<IrNode>>, i: int)
    requires
        0 <= i < stmts.len(),
        stmts[i].node is CreateTable,
    ensures
        ({
            let ct = stmts[i].node->CreateTable_0;
            !(ct.if_not_exists && before.spec_has_table(ct.name@.key())) ==> created_after(created, before, stmts).contains(
                ct.name@.key(),
            )
        }),
    decreases stmts.len(),
{
    let ct = stmts[i].node->CreateTable_0;
    let key = ct.name@.key();
    if i == stmts.len() - 1 {
        let prev = created_after(created, before, stmts.drop_last());
        if !(ct.if_not_exists && before.spec_has_table(key)) && !prev.contains(key) {
            assert(prev.push(key)[prev.len() as int] == key);
        }
    } else {
        lemma_created_table_counted(created, before, stmts.drop_last(), i);
        assert(stmts.drop_last()[i] == stmts[i]);
        lemma_created_after_grows(created_after(created, before, stmts.drop_last()), before, seq![stmts.last()]);
        assert(created_after(created_after(created, before, stmts.drop_last()), before, seq![stmts.last()]) == created_after(
            created,
            before,
            stmts,
        )) by {
            let x = created_after(created, before, stmts.drop_last());
            assert(seq![stmts.last()].drop_last() =~= Seq::<Located<IrNode>>::empty());
            assert(created_after(x, before, Seq::<Located<IrNode>>::empty()) == x);
        }
    }
}

/// Whether statement `s` genuinely creates the table `key`: a `CREATE TABLE`
/// of that key that is not an `IF NOT EXISTS` of a table `before` had.
pub open spec fn creates_table(before: Catalog, s: Located<IrNode>, key: Seq<char>) -> bool {
    match s.node {
        IrNode::CreateTable(ct) => ct.name@.key() == key && !(ct.if_not_exists && before.spec_has_table(key)),
        _ => false,
    }
}

/// The tables created in the change after a unit are exactly those created
/// before it together with those its statements genuinely create.
pub proof fn lemma_created_after_union(created: Seq<Seq<char>>, before: Catalog, stmts: Seq<Located<IrNode>>)
    ensures
        forall|k: Seq<char>|
            #[trigger] created_after(created, before, stmts).contains(k) <==> (created.contains(k) || exists|i: int|
                0 <= i < stmts.len() && creates_table(before, stmts[i], k)),
    decreases stmts.len(),
{
    if stmts.len() > 0 {
        let init = stmts.drop_last();
        lemma_created_after_union(created, before, init);
        let prev = created_after(created, before, init);
        assert forall|k: Seq<char>|
            #[trigger] created_after(created, before, stmts).contains(k) <==> (created.contains(k) || exists|i: int|
                0 <= i < stmts.len() && creates_table(before, stmts[i], k)) by {
            let cur = created_after(created, before, stmts);
            if cur.contains(k) {
                if !prev.contains(k) {
                    let j = choose|j: int| 0 <= j < cur.len() && cur[j] == k;
                    match stmts.last().node {
                        IrNode::CreateTable(ct) => {
                            assert(creates_table(before, stmts[stmts.len() - 1], k));
                        },
                        _ => {},
                    }
                } else {
                    if !created.contains(k) {
                        let i = choose|i: int| 0 <= i < init.len() && creates_table(before, init[i], k);
                        assert(stmts[i] == init[i]);
                    }
                }
            }
            if created.contains(k) || exists|i: int| 0 <= i < stmts.len() && creates_table(before, stmts[i], k) {
                if created.contains(k) || exists|i: int| 0 <= i < init.len() && creates_table(before, init[i], k) {
                    assert(prev.contains(k));
                    lemma_created_after_grows(created, before, stmts);
                    let j = choose|j: int| 0 <= j < prev.len() && prev[j] == k;
                    match stmts.last().node {
                        IrNode::CreateTable(ct) => {
                            let key = ct.name@.key();
                            if !(ct.if_not_exists && before.spec_has_table(key)) && !prev.contains(key) {
                                assert(prev.push(key)[j] == k);
                            }
                        },
                        _ => {},
                    }
                } else {
                    let i = choose|i: int| 0 <= i < stmts.len() && creates_table(before, stmts[i], k);
                    if i < init.len() {
                        assert(init[i] == stmts[i]);
                    }
                    assert(i == stmts.len() - 1);
                    lemma_created_table_counted(created, before, stmts, i);
                }
            }
        }
    }
}

/// Down migrations are informational: every finding of a down unit has
/// severity `Info`.
pub proof fn lemma_down_unit_findings_info(rules: Seq<RuleId>, ctx: LintContext, unit: MigrationUnit)
    requires
        unit.is_down,
    ensures
        forall|i: int| 0 <= i < unit_findings(rules, ctx, unit).len() ==> #[trigger] unit_findings(rules, ctx, unit)[i].severity
            == crate::rules::ids::Severity::Info,
{
}

/// Running two lists of rules one after the other reports the findings of
/// the first list followed by those of the second.
pub proof fn lemma_rules_findings_concat(a: Seq<RuleId>, b: Seq<RuleId>, ctx: LintContext, stmts: Seq<Located<IrNode>>)
    ensures
        rules_findings(a + b, ctx, stmts) == rules_findings(a, ctx, stmts) + rules_findings(b, ctx, stmts),
    decreases b.len(),
{
    if b.len() == 0 {
        assert(a + b =~= a);
        assert(rules_findings(a, ctx, stmts) + rules_findings(b, ctx, stmts) =~= rules_findings(a, ctx, stmts));
    } else {
        lemma_rules_findings_concat(a, b.drop_last(), ctx, stmts);
        assert((a + b).drop_last() =~= a + b.drop_last());
        assert((a + b).last() == b.last());
        assert(rules_findings(a + b, ctx, stmts) =~= rules_findings(a, ctx, stmts) + rules_findings(b, ctx, stmts));
    }
}

/// Linting is determined by the state it starts from: two pipelines in the
/// same state (same catalog, same tables created so far) that lint the same
/// unit with the same rules, given the same catalog after the unit, report
/// the same findings. Any two contexts of one unit report alike.
pub proof fn lemma_unit_findings_determined(
    rules: Seq<RuleId>,
    c1: LintContext,
    c2: LintContext,
    before: Catalog,
    after: Catalog,
    created: Seq<Seq<char>>,
    unit: MigrationUnit,
)
    requires
        is_unit_context(c1, before, after, created, unit),
        is_unit_context(c2, before, after, created, unit),
    ensures
        unit_findings(rules, c1, unit) == unit_findings(rules, c2, unit),
{
    lemma_rules_findings_same_context(rules, c1, c2, unit.statements@);
}

proof fn lemma_rules_findings_same_context(rules: Seq<RuleId>, c1: LintContext, c2: LintContext, stmts: Seq<Located<IrNode>>)
    requires
        same_context(c1, c2),
    ensures
        rules_findings(rules, c1, stmts) == rules_findings(rules, c2, stmts),
    decreases rules.len(),
{
    if rules.len() > 0 {
        lemma_rules_findings_same_context(rules.drop_last(), c1, c2, stmts);
        lemma_check_same_context(rules.last(), c1, c2, stmts);
    }
}

pub struct LintPipeline {
    catalog: Catalog,
    tables_created_in_change: Vec<String>,
}

impl LintPipeline {
    /// The catalog as the units so far left it.
    pub closed spec fn spec_catalog(&self) -> Catalog {
        self.catalog
    }

    /// The keys of the tables created by the linted units so far.
    pub closed spec fn created(&self) -> Seq<Seq<char>> {
        strings_view(self.tables_created_in_change@)
    }

    /// A pipeline with an empty catalog and no table created yet.
    pub fn new() -> (p: LintPipeline)
        ensures
            p.spec_catalog().tables@.len() == 0,
            p.created() == Seq::<Seq<char>>::empty(),
    {
        let p = LintPipeline { catalog: Catalog::new(), tables_created_in_change: Vec::new() };
        proof {
            assert(strings_view(p.tables_created_in_change@) =~= Seq::<Seq<char>>::empty());
        }
        p
    }

    /// Move past a unit that is not linted: the catalog becomes `replayed`,
    /// the catalog after that unit.
    pub fn replay(&mut self, replayed: Catalog)
        ensures
            final(self).spec_catalog() == replayed,
            final(self).created() == old(self).created(),
    {
        self.catalog = replayed;
    }

    /// Lint one unit with `rules`, `replayed` being the catalog after the
    /// unit. The catalog becomes `replayed`, the unit's new tables join the
    /// tables created in the change, and the rules run in order in the
    /// context of the unit; a down migration's findings are capped to `Info`.
    pub fn lint(&mut self, unit: &MigrationUnit, rules: &[RuleId], replayed: Catalog) -> (r: Vec<Finding>)
        ensures
            final(self).spec_catalog() == replayed,
            final(self).created() == created_after(old(self).created(), old(self).spec_catalog(), unit.statements@),
            exists|ctx: LintContext|
                is_unit_context(ctx, old(self).spec_catalog(), replayed, final(self).created(), *unit)
                    && findings_view(r@) == unit_findings(rules@, ctx, *unit),
    {
        let ghost after = replayed;
        let ghost cat0 = self.catalog;
        let mut catalog_before = replayed;
        std::mem::swap(&mut catalog_before, &mut self.catalog);
        let ghost created0 = strings_view(self.tables_created_in_change@);
        let mut i: usize = 0;
        proof {
            assert(unit.statements@.take(0) =~= Seq::<Located<IrNode>>::empty());
        }
        while i < unit.statements.len()
            invariant
                i <= unit.statements.len(),
                self.catalog == after,
                catalog_before == cat0,
                strings_view(self.tables_created_in_change@) == created_after(
                    created0,
                    catalog_before,
                    unit.statements@.take(i as int),
                ),
            decreases unit.statements.len() - i,
        {
            proof {
                assert(unit.statements@.take(i + 1).drop_last() =~= unit.statements@.take(i as int));
            }
            let ghost prev = self.tables_created_in_change@;
            if let IrNode::CreateTable(ct) = &unit.statements[i].node {
                let key = ct.name.catalog_key();
                let seen = vec_has_string(&self.tables_created_in_change, key);
                proof {
                    if seen {
                        let j = choose|j: int| 0 <= j < prev.len() && #[trigger] prev[j]@ == key@;
                        assert(strings_view(prev)[j] == key@);
                    } else {
                        assert forall|j: int| 0 <= j < prev.len() implies #[trigger] strings_view(prev)[j] != key@ by {
                            assert(prev[j]@ != key@);
                        }
                    }
                }
                if !(ct.if_not_exists && catalog_before.has_table(key)) && !seen {
                    self.tables_created_in_change.push(String::from_str(key));
                    proof {
                        assert(strings_view(self.tables_created_in_change@) =~= strings_view(prev).push(key@));
                    }
                }
            }
            i = i + 1;
        }
        proof {
            assert(unit.statements@.take(unit.statements@.len() as int) =~= unit.statements@);
        }
        let ctx = LintContext {
            catalog_before: &catalog_before,
            catalog_after: &self.catalog,
            tables_created_in_change: &self.tables_created_in_change,
            run_in_transaction: unit.run_in_transaction,
            is_down: unit.is_down,
            file: unit.source_file.as_str(),
        };
        proof {
            assert(is_unit_context(ctx, catalog_before, self.catalog, strings_view(self.tables_created_in_change@), *unit));
        }
        let mut findings: Vec<Finding> = Vec::new();
        let mut k: usize = 0;
        proof {
            assert(findings_view(findings@) =~= Seq::<FindingView>::empty());
        }
        while k < rules.len()
            invariant
                k <= rules.len(),
                self.catalog == after,
                catalog_before == cat0,
                is_unit_context(ctx, catalog_before, self.catalog, strings_view(self.tables_created_in_change@), *unit),
                findings_view(findings@) == rules_findings(rules@.take(k as int), ctx, unit.statements@),
            decreases rules.len() - k,
        {
            let mut part = rules[k].check(&unit.statements, &ctx);
            proof {
                assert(rules@.take(k + 1).drop_last() =~= rules@.take(k as int));
                lemma_findings_view_add(findings@, part@);
            }
            findings.append(&mut part);
            k = k + 1;
        }
        proof {
            assert(rules@.take(rules@.len() as int) =~= rules@);
        }
        if unit.is_down {
            cap_for_down_migration(&mut findings);
        }
        proof {
            assert(findings_view(findings@) == unit_findings(rules@, ctx, *unit));
            assert(is_unit_context(ctx, cat0, after, strings_view(self.tables_created_in_change@), *unit));
        }
        findings
    }
}

impl Default for LintPipeline {
    /// The same pipeline as [`LintPipeline::new`]: an empty catalog and no
    /// table created yet.
    fn default() -> (p: LintPipeline)
        ensures
            p.spec_catalog().tables@.len() == 0,
            p.created() == Seq::<Seq<char>>::empty(),
    {
        LintPipeline::new()
    }
}

} // verus!
