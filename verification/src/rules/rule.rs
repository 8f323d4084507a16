//! What every rule offers: its identity, its default severity, its texts,
//! its check over a migration unit, and the findings it makes.
use vstd::prelude::*;
use crate::parser::ir::{IrNode, Located, SourceSpan};
use crate::rules::checks::spec_check;
use crate::rules::context::LintContext;
use crate::rules::explain::spec_explain;
use crate::rules::finding::{findings_view, spec_finding, Finding};
use crate::rules::ids::{spec_default_severity, spec_description, RuleId, Severity};

verus! {

/// A lint rule.
pub trait Rule: Sized {
    /// The identifier this rule stands for.
    spec fn spec_id(&self) -> RuleId;

    /// Stable rule identifier.
    fn id(&self) -> (r: RuleId)
        ensures
            r == self.spec_id(),
    ;

    /// Default severity for this rule.
    fn default_severity(&self) -> (r: Severity)
        ensures
            r == spec_default_severity(self.spec_id()),
    ;

    /// Human-readable short description.
    fn description(&self) -> (r: &'static str)
        ensures
            r@ == spec_description(self.spec_id()),
    ;

    /// Detailed explanation: failure mode, example, fix.
    fn explain(&self) -> (r: &'static str)
        ensures
            r@ == spec_explain(self.spec_id()),
    ;

    /// Run the rule against the statements of one migration unit.
    fn check(&self, statements: &[Located<IrNode>], ctx: &LintContext) -> (r: Vec<Finding>)
        ensures
            findings_view(r@) == spec_check(self.spec_id(), *ctx, statements@),
    ;

    /// A finding of this rule at its default severity.
    fn make_finding(&self, message: String, file: &str, span: &SourceSpan) -> (f: Finding)
        ensures
            f@ == spec_finding(self.spec_id(), spec_default_severity(self.spec_id()), message@, file@, *span),
    {
        Finding::new(self.id(), self.default_severity(), message, file, span)
    }
}

impl Rule for RuleId {
    open spec fn spec_id(&self) -> RuleId {
        *self
    }

    fn id(&self) -> (r: RuleId) {
        *self
    }

    fn default_severity(&self) -> (r: Severity) {
        RuleId::default_severity(self)
    }

    fn description(&self) -> (r: &'static str) {
        RuleId::description(self)
    }

    fn explain(&self) -> (r: &'static str) {
        RuleId::explain(self)
    }

    fn check(&self, statements: &[Located<IrNode>], ctx: &LintContext) -> (r: Vec<Finding>) {
        RuleId::check(self, statements, ctx)
    }
}

} // verus!
