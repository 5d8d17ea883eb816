//! The policy that decides on each record, and the validator that applies it.
//!
//! A policy holds overrides for single dependencies, rules for licenses, and an
//! outcome for whatever no rule names. In each list the first rule that matches
//! decides. An override for the record's dependency settles the record alone.
//! Without one, every license of the record gets the outcome of its rule, or
//! the default where no rule names it: one denied license denies the record,
//! else one ignored license has it ignored, else it is allowed. A record
//! without licenses gets the default.

use vstd::prelude::*;
use crate::dependency::{texts, RetrievedDependency, RetrievedDependencyView};
use crate::text::same;

verus! {

/// What a policy decides.
#[derive(Clone, Copy, Debug, PartialEq, Eq, Structural)]
pub enum Outcome {
    Allow,
    Deny,
    Ignore,
}

/// The outcome for one license identifier.
#[derive(Debug, PartialEq, Eq)]
pub struct LicenseRule {
    pub license: String,
    pub outcome: Outcome,
}

pub struct LicenseRuleView {
    pub license: Seq<char>,
    pub outcome: Outcome,
}

impl View for LicenseRule {
    type V = LicenseRuleView;

    open spec fn view(&self) -> LicenseRuleView {
        LicenseRuleView { license: self.license@, outcome: self.outcome }
    }
}

/// The outcome for one dependency, named by its exact name and version.
#[derive(Debug, PartialEq, Eq)]
pub struct DependencyRule {
    pub name: String,
    pub version: String,
    pub outcome: Outcome,
}

pub struct DependencyRuleView {
    pub name: Seq<char>,
    pub version: Seq<char>,
    pub outcome: Outcome,
}

impl View for DependencyRule {
    type V = DependencyRuleView;

    open spec fn view(&self) -> DependencyRuleView {
        DependencyRuleView { name: self.name@, version: self.version@, outcome: self.outcome }
    }
}

/// The rules of an audit.
#[derive(Debug, PartialEq, Eq)]
pub struct Policy {
    /// Overrides for single dependencies; the first that matches decides.
    pub dependencies: Vec<DependencyRule>,
    /// Rules for license identifiers; the first that matches decides.
    pub licenses: Vec<LicenseRule>,
    /// The outcome for what no rule names.
    pub default_outcome: Outcome,
}

pub struct PolicyView {
    pub dependencies: Seq<DependencyRuleView>,
    pub licenses: Seq<LicenseRuleView>,
    pub default_outcome: Outcome,
}

impl View for Policy {
    type V = PolicyView;

    open spec fn view(&self) -> PolicyView {
        PolicyView {
            dependencies: self.dependencies@.map_values(|rule: DependencyRule| rule@),
            licenses: self.licenses@.map_values(|rule: LicenseRule| rule@),
            default_outcome: self.default_outcome,
        }
    }
}

/// The outcome of the first override for `name` at `version`, if there is one.
pub open spec fn override_for(
    rules: Seq<DependencyRuleView>,
    name: Seq<char>,
    version: Seq<char>,
) -> Option<Outcome>
    decreases rules.len(),
{
    if rules.len() == 0 {
        None
    } else if rules[0].name == name && rules[0].version == version {
        Some(rules[0].outcome)
    } else {
        override_for(rules.drop_first(), name, version)
    }
}

/// The outcome of the first rule for `license`, if there is one.
pub open spec fn rule_for(rules: Seq<LicenseRuleView>, license: Seq<char>) -> Option<Outcome>
    decreases rules.len(),
{
    if rules.len() == 0 {
        None
    } else if rules[0].license == license {
        Some(rules[0].outcome)
    } else {
        rule_for(rules.drop_first(), license)
    }
}

impl PolicyView {
    /// The outcome for one license: that of its rule, else the default.
    pub open spec fn license_outcome(self, license: Seq<char>) -> Outcome {
        match rule_for(self.licenses, license) {
            Some(outcome) => outcome,
            None => self.default_outcome,
        }
    }

    /// Some license of the list has the outcome `outcome`.
    pub open spec fn some_license_is(self, licenses: Seq<Seq<char>>, outcome: Outcome) -> bool {
        exists|i: int| 0 <= i < licenses.len() && self.license_outcome(#[trigger] licenses[i]) == outcome
    }

    /// The outcome for a list of licenses.
    pub open spec fn licenses_outcome(self, licenses: Seq<Seq<char>>) -> Outcome {
        if licenses.len() == 0 {
            self.default_outcome
        } else if self.some_license_is(licenses, Outcome::Deny) {
            Outcome::Deny
        } else if self.some_license_is(licenses, Outcome::Ignore) {
            Outcome::Ignore
        } else {
            Outcome::Allow
        }
    }

    /// The outcome for a record: that of the override for its dependency, else
    /// that of its licenses.
    pub open spec fn verdict(self, record: RetrievedDependencyView) -> Outcome {
        match override_for(self.dependencies, record.name, record.version) {
            Some(outcome) => outcome,
            None => self.licenses_outcome(
                match record.licenses {
                    Some(list) => list,
                    None => Seq::empty(),
                },
            ),
        }
    }

    /// The record after the policy was applied. It is valid if it is allowed and
    /// has no error, ignored if the policy ignores it, and validated in any case.
    /// Nothing else changes.
    pub open spec fn applied(self, record: RetrievedDependencyView) -> RetrievedDependencyView {
        RetrievedDependencyView {
            validated: true,
            is_valid: self.verdict(record) == Outcome::Allow && record.error is None,
            is_ignored: self.verdict(record) == Outcome::Ignore,
            ..record
        }
    }
}

impl Policy {
    /// The outcome of the first override for `name` at `version`.
    pub fn find_override(&self, name: &str, version: &str) -> (r: Option<Outcome>)
        ensures
            r == override_for(self@.dependencies, name@, version@),
    {
        let ghost rules = self@.dependencies;
        let mut i: usize = 0;
        assert(rules.skip(0) =~= rules);
        while i < self.dependencies.len()
            invariant
                i <= self.dependencies.len(),
                rules == self@.dependencies,
                override_for(rules, name@, version@) == override_for(
                    rules.skip(i as int),
                    name@,
                    version@,
                ),
            decreases self.dependencies.len() - i,
        {
            let rule = &self.dependencies[i];
            assert(rules.skip(i as int)[0] == rule@);
            if same(rule.name.as_str(), name) && same(rule.version.as_str(), version) {
                return Some(rule.outcome);
            }
            assert(rules.skip(i as int).drop_first() =~= rules.skip(i + 1));
            i += 1;
        }
        None
    }

    /// The outcome of the first rule for `license`.
    pub fn find_rule(&self, license: &str) -> (r: Option<Outcome>)
        ensures
            r == rule_for(self@.licenses, license@),
    {
        let ghost rules = self@.licenses;
        let mut i: usize = 0;
        assert(rules.skip(0) =~= rules);
        while i < self.licenses.len()
            invariant
                i <= self.licenses.len(),
                rules == self@.licenses,
                rule_for(rules, license@) == rule_for(rules.skip(i as int), license@),
            decreases self.licenses.len() - i,
        {
            let rule = &self.licenses[i];
            assert(rules.skip(i as int)[0] == rule@);
            if same(rule.license.as_str(), license) {
                return Some(rule.outcome);
            }
            assert(rules.skip(i as int).drop_first() =~= rules.skip(i + 1));
            i += 1;
        }
        None
    }

    /// The outcome for one license.
    pub fn license_outcome(&self, license: &str) -> (r: Outcome)
        ensures
            r == self@.license_outcome(license@),
    {
        match self.find_rule(license) {
            Some(outcome) => outcome,
            None => self.default_outcome,
        }
    }

    /// The outcome for a list of licenses.
    pub fn licenses_outcome(&self, licenses: &Vec<String>) -> (r: Outcome)
        ensures
            r == self@.licenses_outcome(texts(licenses@)),
    {
        if licenses.len() == 0 {
            return self.default_outcome;
        }
        let ghost list = texts(licenses@);
        let mut denied = false;
        let mut ignored = false;
        let mut i: usize = 0;
        while i < licenses.len()
            invariant
                i <= licenses.len(),
                list == texts(licenses@),
                denied == self@.some_license_is(list.take(i as int), Outcome::Deny),
                ignored == self@.some_license_is(list.take(i as int), Outcome::Ignore),
            decreases licenses.len() - i,
        {
            let outcome = self.license_outcome(licenses[i].as_str());
            proof {
                lemma_some_license_is_step(self@, list, i as int, Outcome::Deny);
                lemma_some_license_is_step(self@, list, i as int, Outcome::Ignore);
            }
            match outcome {
                Outcome::Deny => {
                    denied = true;
                },
                Outcome::Ignore => {
                    ignored = true;
                },
                Outcome::Allow => {},
            }
            i += 1;
        }
        assert(list.take(i as int) =~= list);
        if denied {
            Outcome::Deny
        } else if ignored {
            Outcome::Ignore
        } else {
            Outcome::Allow
        }
    }

    /// The outcome for a record.
    pub fn verdict(&self, record: &RetrievedDependency) -> (r: Outcome)
        ensures
            r == self@.verdict(record@),
    {
        match self.find_override(record.name.as_str(), record.version.as_str()) {
            Some(outcome) => outcome,
            None => match &record.licenses {
                Some(list) => self.licenses_outcome(list),
                None => {
                    assert(Seq::<Seq<char>>::empty().len() == 0);
                    self.default_outcome
                },
            },
        }
    }

    /// Applies the policy to `record`.
    pub fn validate(&self, record: &mut RetrievedDependency)
        ensures
            final(record)@ == self@.applied(old(record)@),
            final(record).validated,
    {
        validate(record, self);
    }
}

/// Among the first `i + 1` licenses one has the outcome `outcome` exactly if
/// one of the first `i` has it or the next one has.
pub proof fn lemma_some_license_is_step(
    policy: PolicyView,
    licenses: Seq<Seq<char>>,
    i: int,
    outcome: Outcome,
)
    requires
        0 <= i < licenses.len(),
    ensures
        policy.some_license_is(licenses.take(i + 1), outcome) == (policy.some_license_is(
            licenses.take(i),
            outcome,
        ) || policy.license_outcome(licenses[i]) == outcome),
{
    let before = licenses.take(i);
    let after = licenses.take(i + 1);
    if policy.some_license_is(before, outcome) {
        let k = choose|k: int| 0 <= k < before.len() && policy.license_outcome(#[trigger] before[k]) == outcome;
        assert(after[k] == before[k]);
    }
    if policy.license_outcome(licenses[i]) == outcome {
        assert(after[i] == licenses[i]);
    }
    if policy.some_license_is(after, outcome) {
        let k = choose|k: int| 0 <= k < after.len() && policy.license_outcome(#[trigger] after[k]) == outcome;
        if k < i {
            assert(before[k] == after[k]);
        } else {
            assert(after[k] == licenses[i]);
        }
    }
}

/// An override for a record's dependency decides alone: the record's licenses
/// change nothing. One that ignores the dependency leaves it ignored, one that
/// denies it leaves it rejected, and one that allows it leaves it accepted
/// unless the record has an error.
pub proof fn lemma_override_decides(
    policy: PolicyView,
    record: RetrievedDependencyView,
    licenses: Option<Seq<Seq<char>>>,
)
    requires
        override_for(policy.dependencies, record.name, record.version) is Some,
    ensures
        policy.verdict(record) == override_for(
            policy.dependencies,
            record.name,
            record.version,
        ).unwrap(),
        policy.applied(record).is_ignored == (policy.verdict(record) == Outcome::Ignore),
        policy.applied(record).is_valid == (policy.verdict(record) == Outcome::Allow
            && record.error is None),
        policy.applied(RetrievedDependencyView { licenses: licenses, ..record }).is_ignored
            == policy.applied(record).is_ignored,
        policy.applied(RetrievedDependencyView { licenses: licenses, ..record }).is_valid
            == policy.applied(record).is_valid,
{
}

/// Without an override, one license that the policy denies rejects the record,
/// whatever it decides on the others.
pub proof fn lemma_one_denied_license_rejects(
    policy: PolicyView,
    record: RetrievedDependencyView,
    i: int,
)
    requires
        override_for(policy.dependencies, record.name, record.version) is None,
        record.licenses is Some,
        0 <= i < record.licenses.unwrap().len(),
        policy.license_outcome(record.licenses.unwrap()[i]) == Outcome::Deny,
    ensures
        policy.verdict(record) == Outcome::Deny,
        !policy.applied(record).is_valid,
        !policy.applied(record).is_ignored,
{
}

/// Without an override, a record that comes out valid has no error, and the
/// policy allows each of its licenses.
pub proof fn lemma_valid_means_all_allowed(
    policy: PolicyView,
    record: RetrievedDependencyView,
    i: int,
)
    requires
        override_for(policy.dependencies, record.name, record.version) is None,
        policy.applied(record).is_valid,
        record.licenses is Some,
        0 <= i < record.licenses.unwrap().len(),
    ensures
        record.error is None,
        policy.license_outcome(record.licenses.unwrap()[i]) == Outcome::Allow,
{
    let list = record.licenses.unwrap();
    assert(!policy.some_license_is(list, Outcome::Deny));
    assert(!policy.some_license_is(list, Outcome::Ignore));
}

/// Without an override, a record none of whose licenses has a rule gets the
/// default outcome.
pub proof fn lemma_unmatched_gets_default(policy: PolicyView, record: RetrievedDependencyView)
    requires
        override_for(policy.dependencies, record.name, record.version) is None,
        record.licenses matches Some(list) ==> forall|i: int|
            0 <= i < list.len() ==> rule_for(policy.licenses, #[trigger] list[i]) is None,
    ensures
        policy.verdict(record) == policy.default_outcome,
{
    if record.licenses is Some && record.licenses.unwrap().len() > 0 {
        let list = record.licenses.unwrap();
        assert(policy.license_outcome(list[0]) == policy.default_outcome);
        assert forall|i: int| 0 <= i < list.len() implies policy.license_outcome(
            #[trigger] list[i],
        ) == policy.default_outcome by {
            assert(rule_for(policy.licenses, list[i]) is None);
        }
    }
}

/// The policy keeps a record well formed, and a record with an error comes out
/// not valid whatever the policy says.
pub proof fn lemma_applied_is_well_formed(policy: PolicyView, record: RetrievedDependencyView)
    ensures
        policy.applied(record).validated,
        policy.applied(record).error is Some ==> !policy.applied(record).is_valid,
        !(policy.applied(record).is_valid && policy.applied(record).is_ignored),
        record.wf() ==> policy.applied(record).wf(),
{
}

/// Applying the policy a second time changes nothing.
pub proof fn lemma_applied_twice(policy: PolicyView, record: RetrievedDependencyView)
    ensures
        policy.applied(policy.applied(record)) == policy.applied(record),
{
}

/// Applies `policy` to `record`: sets its three flags and nothing else.
pub fn validate(record: &mut RetrievedDependency, policy: &Policy)
    ensures
        final(record)@ == policy@.applied(old(record)@),
        final(record).validated,
        final(record).error is Some ==> !final(record).is_valid,
{
    let outcome = policy.verdict(record);
    let allowed = match outcome {
        Outcome::Allow => true,
        _ => false,
    };
    let ignored = match outcome {
        Outcome::Ignore => true,
        _ => false,
    };
    record.is_valid = allowed && record.error.is_none();
    record.is_ignored = ignored;
    record.validated = true;
}

} // verus!
