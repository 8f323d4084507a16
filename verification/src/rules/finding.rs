//! Findings: what a rule reports, and the passes over lists of findings.
use vstd::prelude::*;
use vstd::string::*;
use crate::parser::ir::SourceSpan;
use crate::rules::ids::{RuleId, Severity};
use crate::text::str_eq;

verus! {

/// One problem reported by a rule.
#[derive(Debug, Clone)]
pub struct Finding {
    pub rule_id: RuleId,
    pub severity: Severity,
    pub message: String,
    /// The source file, as given to the lint context.
    pub file: String,
    pub start_line: usize,
    pub end_line: usize,
    /// When set, at most one finding per `(rule_id, dedup_key)` survives
    /// [`dedup_findings`].
    pub dedup_key: Option<String>,
}

/// The logical content of a [`Finding`].
pub struct FindingView {
    pub rule_id: RuleId,
    pub severity: Severity,
    pub message: Seq<char>,
    pub file: Seq<char>,
    pub start_line: usize,
    pub end_line: usize,
    pub dedup_key: Option<Seq<char>>,
}

impl View for Finding {
    type V = FindingView;

    open spec fn view(&self) -> FindingView {
        FindingView {
            rule_id: self.rule_id,
            severity: self.severity,
            message: self.message@,
            file: self.file@,
            start_line: self.start_line,
            end_line: self.end_line,
            dedup_key: match self.dedup_key {
                Some(k) => Some(k@),
                None => None,
            },
        }
    }
}

/// The views of a list of findings.
pub open spec fn findings_view(s: Seq<Finding>) -> Seq<FindingView> {
    s.map_values(|f: Finding| f@)
}

/// The finding that a rule reports with `message` for the statement at `span` of `file`.
pub open spec fn spec_finding(
    rule_id: RuleId,
    severity: Severity,
    message: Seq<char>,
    file: Seq<char>,
    span: SourceSpan,
) -> FindingView {
    FindingView {
        rule_id,
        severity,
        message,
        file,
        start_line: span.start_line,
        end_line: span.end_line,
        dedup_key: None,
    }
}

pub proof fn lemma_findings_view_add(a: Seq<Finding>, b: Seq<Finding>)
    ensures
        findings_view(a + b) == findings_view(a) + findings_view(b),
{
    assert(findings_view(a + b) =~= findings_view(a) + findings_view(b));
}

pub proof fn lemma_findings_view_push(a: Seq<Finding>, f: Finding)
    ensures
        findings_view(a.push(f)) == findings_view(a).push(f@),
{
    assert(findings_view(a.push(f)) =~= findings_view(a).push(f@));
}

impl Finding {
    /// A finding for the statement at `span` of `file`.
    pub fn new(
        rule_id: RuleId,
        severity: Severity,
        message: String,
        file: &str,
        span: &SourceSpan,
    ) -> (f: Finding)
        ensures
            f@ == spec_finding(rule_id, severity, message@, file@, *span),
    {
        Finding {
            rule_id,
            severity,
            message,
            file: String::from_str(file),
            start_line: span.start_line,
            end_line: span.end_line,
            dedup_key: None,
        }
    }

    /// This finding with its dedup key set to `key`.
    pub fn with_dedup_key(self, key: String) -> (f: Finding)
        ensures
            f@ == (FindingView { dedup_key: Some(key@), ..self@ }),
    {
        let mut f = self;
        f.dedup_key = Some(key);
        f
    }
}

/// The findings with every severity set to `Info`, all else unchanged.
pub open spec fn spec_cap(s: Seq<FindingView>) -> Seq<FindingView> {
    s.map_values(|f: FindingView| FindingView { severity: Severity::Info, ..f })
}

/// Set every severity to `Info` (down migrations are informational only).
pub fn cap_for_down_migration(findings: &mut Vec<Finding>)
    ensures
        findings_view(final(findings)@) == spec_cap(findings_view(old(findings)@)),
{
    let mut i: usize = 0;
    while i < findings.len()
        invariant
            findings@.len() == old(findings)@.len(),
            i <= findings.len(),
            forall|j: int|
                0 <= j < i ==> #[trigger] findings@[j]@ == (FindingView {
                    severity: Severity::Info,
                    ..old(findings)@[j]@
                }),
            forall|j: int| i <= j < findings@.len() ==> #[trigger] findings@[j] == old(findings)@[j],
        decreases findings.len() - i,
    {
        let mut f = findings.remove(i);
        f.severity = Severity::Info;
        findings.insert(i, f);
        i = i + 1;
    }
    proof {
        assert(findings_view(findings@) =~= spec_cap(findings_view(old(findings)@)));
    }
}

/// Capping is idempotent: capping capped findings changes nothing.
pub proof fn lemma_cap_idempotent(s: Seq<FindingView>)
    ensures
        spec_cap(spec_cap(s)) == spec_cap(s),
{
    assert(spec_cap(spec_cap(s)) =~= spec_cap(s));
}

/// Capping keeps every finding, in order, with all but its severity
/// unchanged, and leaves no finding above `Info`.
pub proof fn lemma_cap_only_lowers(s: Seq<FindingView>)
    ensures
        spec_cap(s).len() == s.len(),
        forall|i: int| 0 <= i < s.len() ==> (#[trigger] spec_cap(s)[i]).severity == Severity::Info
            && spec_cap(s)[i].rule_id == s[i].rule_id && spec_cap(s)[i].message == s[i].message
            && spec_cap(s)[i].file == s[i].file && spec_cap(s)[i].start_line == s[i].start_line
            && spec_cap(s)[i].end_line == s[i].end_line && spec_cap(s)[i].dedup_key == s[i].dedup_key,
{
}

/// Whether `f` repeats the rule and dedup key of one of `earlier`.
pub open spec fn repeats_key(earlier: Seq<FindingView>, f: FindingView) -> bool {
    f.dedup_key.is_some() && exists|j: int|
        0 <= j < earlier.len() && (#[trigger] earlier[j]).rule_id == f.rule_id && earlier[j].dedup_key
            == f.dedup_key
}

/// The findings that survive deduplication: each finding is kept unless it
/// has a dedup key and an earlier finding has the same rule and key.
pub open spec fn spec_dedup(s: Seq<FindingView>) -> Seq<FindingView>
    decreases s.len(),
{
    if s.len() == 0 {
        s
    } else {
        let rest = spec_dedup(s.drop_last());
        if repeats_key(s.drop_last(), s.last()) {
            rest
        } else {
            rest.push(s.last())
        }
    }
}

/// Whether a later finding repeats a key of `s` exactly when it repeats a key
/// of the findings that survive deduplication of `s`.
proof fn lemma_repeats_key_dedup(s: Seq<FindingView>, f: FindingView)
    ensures
        repeats_key(s, f) == repeats_key(spec_dedup(s), f),
    decreases s.len(),
{
    if s.len() > 0 {
        let p = s.drop_last();
        let x = s.last();
        lemma_repeats_key_dedup(p, f);
        lemma_spec_dedup_subseq(p);
        let d = spec_dedup(s);
        if repeats_key(s, f) {
            let j = choose|j: int| 0 <= j < s.len() && (#[trigger] s[j]).rule_id == f.rule_id && s[j].dedup_key == f.dedup_key;
            if j < p.len() {
                assert(p[j] == s[j]);
                assert(repeats_key(p, f));
                let jj = choose|jj: int| 0 <= jj < spec_dedup(p).len() && (#[trigger] spec_dedup(p)[jj]).rule_id == f.rule_id && spec_dedup(p)[jj].dedup_key == f.dedup_key;
                assert(d[jj] == spec_dedup(p)[jj]);
            } else {
                if repeats_key(p, x) {
                    let k = choose|k: int| 0 <= k < p.len() && (#[trigger] p[k]).rule_id == x.rule_id && p[k].dedup_key == x.dedup_key;
                    assert(repeats_key(p, f));
                    let jj = choose|jj: int| 0 <= jj < spec_dedup(p).len() && (#[trigger] spec_dedup(p)[jj]).rule_id == f.rule_id && spec_dedup(p)[jj].dedup_key == f.dedup_key;
                    assert(d[jj] == spec_dedup(p)[jj]);
                } else {
                    assert(d[d.len() - 1] == x);
                }
            }
        }
        if repeats_key(d, f) {
            let j = choose|j: int| 0 <= j < d.len() && (#[trigger] d[j]).rule_id == f.rule_id && d[j].dedup_key == f.dedup_key;
            if j < spec_dedup(p).len() {
                assert(spec_dedup(p)[j] == d[j]);
                assert(repeats_key(spec_dedup(p), f));
                let k = choose|k: int| 0 <= k < p.len() && (#[trigger] p[k]).rule_id == f.rule_id && p[k].dedup_key == f.dedup_key;
                assert(s[k] == p[k]);
            } else {
                assert(d[j] == x);
                assert(s[s.len() - 1] == x);
            }
        }
    }
}

proof fn lemma_spec_dedup_subseq(s: Seq<FindingView>)
    ensures
        spec_dedup(s).len() <= s.len(),
    decreases s.len(),
{
    if s.len() > 0 {
        lemma_spec_dedup_subseq(s.drop_last());
    }
}

/// Whether some finding of `kept` has rule `id` and dedup key `key`.
fn kept_has_key(kept: &Vec<Finding>, id: RuleId, key: &str) -> (r: bool)
    ensures
        r == exists|j: int|
            0 <= j < kept@.len() && (#[trigger] kept@[j]).rule_id == id && kept@[j]@.dedup_key
                == Some(key@),
{
    let mut i: usize = 0;
    while i < kept.len()
        invariant
            i <= kept.len(),
            forall|j: int|
                0 <= j < i ==> !((#[trigger] kept@[j]).rule_id == id && kept@[j]@.dedup_key
                    == Some(key@)),
        decreases kept.len() - i,
    {
        let hit = match &kept[i].dedup_key {
            Some(k) => kept[i].rule_id == id && str_eq(k.as_str(), key),
            None => false,
        };
        if hit {
            return true;
        }
        i = i + 1;
    }
    false
}

/// Remove findings that repeat the `(rule_id, dedup_key)` of an earlier one.
/// The first occurrence is kept; findings without a key are always kept.
pub fn dedup_findings(findings: &mut Vec<Finding>)
    ensures
        findings_view(final(findings)@) == spec_dedup(findings_view(old(findings)@)),
{
    let mut rest: Vec<Finding> = Vec::new();
    std::mem::swap(&mut rest, findings);
    let ghost all = findings_view(rest@);
    let mut kept: Vec<Finding> = Vec::new();
    let ghost mut i: int = 0;
    while rest.len() > 0
        invariant
            0 <= i <= all.len(),
            findings_view(rest@) == all.subrange(i, all.len() as int),
            rest@.len() == all.len() - i,
            findings_view(kept@) == spec_dedup(all.take(i)),
        decreases rest.len(),
    {
        let ghost before = rest@;
        proof {
            assert(findings_view(before)[0] == all.subrange(i, all.len() as int)[0]);
        }
        let f = rest.remove(0);
        proof {
            assert(f@ == all[i]);
            assert(all.take(i + 1).drop_last() =~= all.take(i));
            assert forall|k: int| 0 <= k < rest@.len() implies #[trigger] findings_view(rest@)[k]
                == all.subrange(i + 1, all.len() as int)[k] by {
                assert(rest@[k] == before[k + 1]);
                assert(findings_view(before)[k + 1] == all.subrange(i, all.len() as int)[k + 1]);
            }
            assert(findings_view(rest@) =~= all.subrange(i + 1, all.len() as int));
            lemma_repeats_key_dedup(all.take(i), all[i]);
        }
        let keep = match &f.dedup_key {
            Some(k) => {
                let dup = kept_has_key(&kept, f.rule_id, k.as_str());
                proof {
                    let kv = findings_view(kept@);
                    if dup {
                        let j = choose|j: int| 0 <= j < kept@.len() && (#[trigger] kept@[j]).rule_id == f.rule_id && kept@[j]@.dedup_key == Some(k@);
                        assert(kv[j] == kept@[j]@);
                        assert(repeats_key(kv, all[i]));
                    } else {
                        assert forall|j: int| 0 <= j < kv.len() implies !((#[trigger] kv[j]).rule_id == all[i].rule_id && kv[j].dedup_key == all[i].dedup_key) by {
                            assert(kv[j] == kept@[j]@);
                        }
                    }
                }
                !dup
            },
            None => true,
        };
        if keep {
            proof {
                lemma_findings_view_push(kept@, f);
            }
            kept.push(f);
        }
        proof {
            i = i + 1;
        }
    }
    proof {
        assert(all.take(all.len() as int) =~= all);
    }
    *findings = kept;
}

/// Deduplication is idempotent: deduplicating twice keeps what once keeps.
pub proof fn lemma_dedup_idempotent(s: Seq<FindingView>)
    ensures
        spec_dedup(spec_dedup(s)) == spec_dedup(s),
    decreases s.len(),
{
    if s.len() > 0 {
        let p = s.drop_last();
        let x = s.last();
        lemma_dedup_idempotent(p);
        if !repeats_key(p, x) {
            let d = spec_dedup(s);
            lemma_repeats_key_dedup(p, x);
            assert(d.drop_last() =~= spec_dedup(p));
            assert(d.last() == x);
        }
    }
}

/// After deduplication no two findings share a rule and a dedup key.
pub proof fn lemma_dedup_keys_distinct(s: Seq<FindingView>)
    ensures
        forall|i: int, j: int|
            0 <= i < j < spec_dedup(s).len() && (#[trigger] spec_dedup(s)[j]).dedup_key.is_some() ==> !(
            (#[trigger] spec_dedup(s)[i]).rule_id == spec_dedup(s)[j].rule_id && spec_dedup(s)[i].dedup_key
                == spec_dedup(s)[j].dedup_key),
    decreases s.len(),
{
    if s.len() > 0 {
        let p = s.drop_last();
        let x = s.last();
        lemma_dedup_keys_distinct(p);
        let dp = spec_dedup(p);
        let d = spec_dedup(s);
        if !repeats_key(p, x) {
            lemma_repeats_key_dedup(p, x);
            assert forall|i: int, j: int|
                0 <= i < j < d.len() && (#[trigger] d[j]).dedup_key.is_some() implies !((#[trigger] d[i]).rule_id
                == d[j].rule_id && d[i].dedup_key == d[j].dedup_key) by {
                if j == d.len() - 1 {
                    assert(d[i] == dp[i]);
                    assert(d[j] == x);
                    if d[i].rule_id == x.rule_id && d[i].dedup_key == x.dedup_key {
                        assert(repeats_key(dp, x));
                    }
                } else {
                    assert(d[i] == dp[i]);
                    assert(d[j] == dp[j]);
                }
            }
        }
    }
}

/// A finding without a dedup key always survives deduplication, and what
/// survives is among the input.
pub proof fn lemma_dedup_keeps_unkeyed(s: Seq<FindingView>)
    ensures
        forall|i: int| 0 <= i < s.len() && (#[trigger] s[i]).dedup_key.is_none() ==> spec_dedup(s).contains(s[i]),
        forall|f: FindingView| #[trigger] spec_dedup(s).contains(f) ==> s.contains(f),
    decreases s.len(),
{
    if s.len() > 0 {
        let p = s.drop_last();
        let x = s.last();
        lemma_dedup_keeps_unkeyed(p);
        let dp = spec_dedup(p);
        let d = spec_dedup(s);
        assert forall|i: int| 0 <= i < s.len() && (#[trigger] s[i]).dedup_key.is_none() implies d.contains(s[i]) by {
            if i < p.len() {
                assert(p[i] == s[i]);
                assert(dp.contains(p[i]));
                let k = choose|k: int| 0 <= k < dp.len() && dp[k] == p[i];
                assert(d[k] == dp[k]);
            } else {
                assert(!repeats_key(p, x));
                assert(d[d.len() - 1] == x);
            }
        }
        assert forall|f: FindingView| #[trigger] d.contains(f) implies s.contains(f) by {
            let k = choose|k: int| 0 <= k < d.len() && d[k] == f;
            if k < dp.len() {
                assert(dp[k] == f);
                assert(dp.contains(f));
                assert(p.contains(f));
                let m = choose|m: int| 0 <= m < p.len() && p[m] == f;
                assert(s[m] == f);
            } else {
                assert(s[s.len() - 1] == f);
            }
        }
    }
}

} // verus!
