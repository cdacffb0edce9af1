//! The rules that a locale file, and the locale keys that the source code
//! uses, should obey, and the collector of what they find.

use crate::locale_file_parser::{index_of_key, keys_distinct, opt_view, LocalizedTexts};
use crate::locale_key_collector::{KeyUsage, LocaleKey};
use vstd::prelude::*;

verus! {

/// One finding: the subject (a locale key, or where a key is used) and an
/// optional message.
pub type Finding = (Seq<char>, Option<Seq<char>>);

/// What a collector holds: each rule's name with its findings, rules in the
/// order of their first finding.
pub type FindingsByRule = Seq<(Seq<char>, Seq<Finding>)>;

/// The collection after `rule` reports `d`: appended to the rule's findings,
/// or, for the rule's first finding, a new last entry.
pub open spec fn report(c: FindingsByRule, rule: Seq<char>, d: Finding) -> FindingsByRule {
    match index_of_key(c, rule) {
        Some(i) => c.update(i, (rule, c[i].1.push(d))),
        None => c.push((rule, seq![d])),
    }
}

/// The collection after `rule` reports each of `ds` in turn.
pub open spec fn report_all(c: FindingsByRule, rule: Seq<char>, ds: Seq<Finding>) -> FindingsByRule
    decreases ds.len(),
{
    if ds.len() == 0 {
        c
    } else {
        report(report_all(c, rule, ds.drop_last()), rule, ds.last())
    }
}

/// Whether some rule has found something.
pub open spec fn has_findings(c: FindingsByRule) -> bool {
    exists|i: int| 0 <= i < c.len() && #[trigger] c[i].1.len() > 0
}

/// The view of a rule's findings.
pub open spec fn findings_view(ds: Seq<(String, Option<String>)>) -> Seq<Finding> {
    ds.map_values(|d: (String, Option<String>)| (d.0@, opt_view(d.1)))
}

/// The errors found by the rules: `RuleName => [(Subject, OptionalMessage)]`.
#[derive(Debug)]
pub struct Diagnostics {
    rules: Vec<(String, Vec<(String, Option<String>)>)>,
}

impl Diagnostics {
    pub closed spec fn view(&self) -> FindingsByRule {
        self.rules@.map_values(|e: (String, Vec<(String, Option<String>)>)| (e.0@, findings_view(e.1@)))
    }

    /// Each rule has one entry.
    pub open spec fn wf(&self) -> bool {
        keys_distinct(self@)
    }

    /// A collector with no finding.
    pub fn new() -> (r: Self)
        ensures
            r.wf(),
            r@ == FindingsByRule::empty(),
    {
        let r = Diagnostics { rules: Vec::new() };
        assert(r@ =~= FindingsByRule::empty());
        r
    }

    /// Records a finding of `rule`.
    pub fn report(&mut self, rule: &str, key: String, error_msg: Option<String>)
        requires
            old(self).wf(),
        ensures
            final(self).wf(),
            final(self)@ == report(old(self)@, rule@, (key@, opt_view(error_msg))),
    {
        let ghost c = self@;
        let ghost d = (key@, opt_view(error_msg));
        let name = String::from_str(rule);
        let mut i: usize = 0;
        while i < self.rules.len()
            invariant
                i <= self.rules.len(),
                self@ == c,
                c == old(self)@,
                name@ == rule@,
                d == (key@, opt_view(error_msg)),
                keys_distinct(c),
                index_of_key(c, rule@) == crate::locale_file_parser::key_index_from(c, rule@, i as int),
            decreases self.rules.len() - i,
        {
            assert(c[i as int].0 == self.rules@[i as int].0@);
            if self.rules[i].0.eq(&name) {
                let mut entry = self.rules.remove(i);
                let ghost old_findings = entry.1@;
                entry.1.push((key, error_msg));
                assert(findings_view(entry.1@) =~= findings_view(old_findings).push(d));
                self.rules.insert(i, entry);
                assert(self@ =~= c.update(i as int, (rule@, c[i as int].1.push(d))));
                assert(index_of_key(c, rule@) == Some(i as int));
                assert(self@ == report(c, rule@, d));
                return;
            }
            i += 1;
        }
        proof {
            crate::locale_file_parser::lemma_key_index_from(c, rule@, 0);
        }
        let mut findings = Vec::new();
        findings.push((key, error_msg));
        assert(findings_view(findings@) =~= seq![d]);
        self.rules.push((name, findings));
        assert(self@ =~= c.push((rule@, seq![d])));
    }

    /// Whether any rule found anything.
    pub fn has_error(&self) -> (r: bool)
        ensures
            r == has_findings(self@),
    {
        let mut i: usize = 0;
        while i < self.rules.len()
            invariant
                i <= self.rules.len(),
                forall|j: int| 0 <= j < i ==> #[trigger] self@[j].1.len() == 0,
            decreases self.rules.len() - i,
        {
            assert(self@[i as int].1.len() == self.rules@[i as int].1@.len());
            if self.rules[i].1.len() != 0 {
                return true;
            }
            i += 1;
        }
        false
    }

    /// The rules' names with their findings.
    pub fn into_entries(self) -> (r: Vec<(String, Vec<(String, Option<String>)>)>)
        ensures
            r@.map_values(|e: (String, Vec<(String, Option<String>)>)| (e.0@, findings_view(e.1@))) == self@,
    {
        self.rules
    }

    /// The rules' names with their findings.
    pub fn entries(&self) -> (r: &[(String, Vec<(String, Option<String>)>)])
        ensures
            r@.map_values(|e: (String, Vec<(String, Option<String>)>)| (e.0@, findings_view(e.1@))) == self@,
    {
        self.rules.as_slice()
    }
}

/// Represents a rule that the locale file should obey.
///
/// Implementations implement [`check()`], and invoke [`report_error()`] when
/// they find an error.
pub trait Rule {
    /// Name of this rule.
    spec fn spec_name() -> Seq<char>;

    /// What this rule finds in a table and in the key usages, in order.
    spec fn findings(texts: Seq<(Seq<char>, Option<Seq<char>>)>, usages: Seq<KeyUsage>) -> Seq<Finding>;

    /// Name of this rule.
    fn name() -> (r: &'static str)
        ensures
            r@ == Self::spec_name(),
    ;

    /// Records an error found by this rule.
    ///
    /// When `error_msg` is `Some`, it will be stored and reported to users as well.
    fn report_error(key: String, error_msg: Option<String>, errors: &mut Diagnostics)
        requires
            old(errors).wf(),
        ensures
            final(errors).wf(),
            final(errors)@ == report(old(errors)@, Self::spec_name(), (key@, opt_view(error_msg))),
    {
        errors.report(Self::name(), key, error_msg)
    }

    /// Begin the check.
    fn check(&self, localized_texts: &LocalizedTexts, locale_keys: &[LocaleKey], errors: &mut Diagnostics)
        requires
            old(errors).wf(),
        ensures
            final(errors).wf(),
            final(errors)@ == report_all(
                old(errors)@,
                Self::spec_name(),
                Self::findings(localized_texts@, crate::locale_key_collector::usages_view(locale_keys@)),
            ),
    ;
}

} // verus!
