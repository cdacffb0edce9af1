//! The checker: runs the registered rules over the locale table and the key
//! usages, and keeps what they find.

use crate::key_and_eng_matches::{key_eng_findings, KeyEngMatches};
use crate::locale_file_parser::{opt_view, parse_locale_file, DataNode, LocaleFileError, LocalizedTexts};
use crate::locale_key_collector::{
    sources_view, usages_of_files, usages_view, CollectError, KeyUsage, LocaleKey, LocaleKeyCollector, MacroInvocation,
};
use crate::missing_translations::{missing_findings, MissingTranslations};
use crate::rules::{findings_view, has_findings, report_all, Diagnostics, Finding, FindingsByRule, Rule};
use crate::use_of_keys_do_not_exist::{unknown_key_findings, UseOfKeysDoNotExist};
use vstd::prelude::*;

verus! {

/// The rules that a checker can run.
#[derive(Debug, Clone, Copy, PartialEq, Eq)]
pub enum RuleKind {
    MissingTranslations,
    KeyEngMatches,
    UseOfKeysDoNotExist,
}

/// The name of a rule.
pub open spec fn rule_name(r: RuleKind) -> Seq<char> {
    match r {
        RuleKind::MissingTranslations => MissingTranslations::spec_name(),
        RuleKind::KeyEngMatches => KeyEngMatches::spec_name(),
        RuleKind::UseOfKeysDoNotExist => UseOfKeysDoNotExist::spec_name(),
    }
}

/// What a rule finds in a table and in the key usages.
pub open spec fn rule_findings(r: RuleKind, es: Seq<(Seq<char>, Option<Seq<char>>)>, us: Seq<KeyUsage>) -> Seq<Finding> {
    match r {
        RuleKind::MissingTranslations => missing_findings(es),
        RuleKind::KeyEngMatches => key_eng_findings(es),
        RuleKind::UseOfKeysDoNotExist => unknown_key_findings(es, us),
    }
}

/// The collection after each rule, in order, has run.
pub open spec fn run_rules(
    c: FindingsByRule,
    rules: Seq<RuleKind>,
    es: Seq<(Seq<char>, Option<Seq<char>>)>,
    us: Seq<KeyUsage>,
) -> FindingsByRule
    decreases rules.len(),
{
    if rules.len() == 0 {
        c
    } else {
        let r = rules.last();
        report_all(run_rules(c, rules.drop_last(), es, us), rule_name(r), rule_findings(r, es, us))
    }
}

/// The number of findings of all rules.
pub open spec fn total_findings(c: FindingsByRule) -> nat
    decreases c.len(),
{
    if c.len() == 0 {
        0
    } else {
        total_findings(c.drop_last()) + c.last().1.len()
    }
}

/// The line that reports one finding.
pub open spec fn finding_line(d: Finding) -> Seq<char> {
    "    "@ + d.0 + match d.1 {
        Some(m) => ": "@ + m,
        None => Seq::empty(),
    } + "\n"@
}

/// The lines that report a rule's findings.
pub open spec fn findings_text(ds: Seq<Finding>) -> Seq<char>
    decreases ds.len(),
{
    if ds.len() == 0 {
        Seq::empty()
    } else {
        findings_text(ds.drop_last()) + finding_line(ds.last())
    }
}

/// Each rule's name on a line, followed by the lines of its findings.
pub open spec fn rules_text(c: FindingsByRule) -> Seq<char>
    decreases c.len(),
{
    if c.len() == 0 {
        Seq::empty()
    } else {
        rules_text(c.drop_last()) + "  "@ + c.last().0 + "\n"@ + findings_text(c.last().1)
    }
}

/// The report for the user.
pub open spec fn report_text(c: FindingsByRule) -> Seq<char> {
    if has_findings(c) {
        "Errors Found:\n"@ + rules_text(c)
    } else {
        "No error found!\n"@
    }
}

impl RuleKind {
    /// Runs this rule.
    pub fn check(&self, localized_texts: &LocalizedTexts, locale_keys: &[LocaleKey], errors: &mut Diagnostics)
        requires
            old(errors).wf(),
        ensures
            final(errors).wf(),
            final(errors)@ == report_all(
                old(errors)@,
                rule_name(*self),
                rule_findings(*self, localized_texts@, usages_view(locale_keys@)),
            ),
    {
        match self {
            RuleKind::MissingTranslations => MissingTranslations.check(localized_texts, locale_keys, errors),
            RuleKind::KeyEngMatches => KeyEngMatches.check(localized_texts, locale_keys, errors),
            RuleKind::UseOfKeysDoNotExist => UseOfKeysDoNotExist.check(localized_texts, locale_keys, errors),
        }
    }
}

/// This type and its methods are the code where we check the locale file.
#[derive(Debug)]
pub struct Checker {
    /// The registered (will be applied) rules
    rules: Vec<RuleKind>,
    /// `RuleName => [(Key, OptionalErrorMessage)]`
    errors: Diagnostics,
}

impl Checker {
    /// The registered rules, in order.
    pub closed spec fn spec_rules(&self) -> Seq<RuleKind> {
        self.rules@
    }

    /// What the rules have found.
    pub closed spec fn spec_errors(&self) -> FindingsByRule {
        self.errors@
    }

    pub closed spec fn wf(&self) -> bool {
        self.errors.wf()
    }

    /// Creates a new checker with 0 rule registered.
    pub fn new() -> (r: Self)
        ensures
            r.wf(),
            r.spec_rules() == Seq::<RuleKind>::empty(),
            r.spec_errors() == FindingsByRule::empty(),
    {
        Self { rules: Vec::new(), errors: Diagnostics::new() }
    }

    /// Register a rule.
    pub fn register_rule(&mut self, rule: RuleKind)
        requires
            old(self).wf(),
        ensures
            final(self).wf(),
            final(self).spec_rules() == old(self).spec_rules().push(rule),
            final(self).spec_errors() == old(self).spec_errors(),
    {
        self.rules.push(rule)
    }

    /// Run the check process: each rule, in order of registration.
    pub fn check(&mut self, localized_texts: &LocalizedTexts, locale_keys: &[LocaleKey])
        requires
            old(self).wf(),
        ensures
            final(self).wf(),
            final(self).spec_rules() == old(self).spec_rules(),
            final(self).spec_errors() == run_rules(
                old(self).spec_errors(),
                old(self).spec_rules(),
                localized_texts@,
                usages_view(locale_keys@),
            ),
    {
        let ghost rules = self.rules@;
        let ghost start = self.errors@;
        let mut i: usize = 0;
        while i < self.rules.len()
            invariant
                i <= self.rules.len(),
                self.rules@ == rules,
                rules == old(self).spec_rules(),
                start == old(self).spec_errors(),
                self.errors.wf(),
                self.errors@ == run_rules(start, rules.take(i as int), localized_texts@, usages_view(locale_keys@)),
            decreases self.rules.len() - i,
        {
            assert(rules.take(i + 1).drop_last() =~= rules.take(i as int));
            assert(rules.take(i + 1).last() == rules[i as int]);
            let rule = self.rules[i];
            rule.check(localized_texts, locale_keys, &mut self.errors);
            i += 1;
        }
        assert(rules.take(i as int) =~= rules);
    }

    /// Return true if there is any error.
    pub fn has_error(&self) -> (r: bool)
        ensures
            r == has_findings(self.spec_errors()),
    {
        self.errors.has_error()
    }

    /// Returns the number of errors found, or `usize::MAX` if there are more.
    pub fn n_errors(&self) -> (r: usize)
        ensures
            r as nat == if total_findings(self.spec_errors()) <= usize::MAX {
                total_findings(self.spec_errors())
            } else {
                usize::MAX as nat
            },
    {
        let entries = self.errors.entries();
        let ghost c = self.errors@;
        let mut n: usize = 0;
        let mut i: usize = 0;
        while i < entries.len()
            invariant
                i <= entries.len(),
                c == self.spec_errors(),
                entries@.map_values(|e: (String, Vec<(String, Option<String>)>)| (e.0@, findings_view(e.1@))) == c,
                n as nat == if total_findings(c.take(i as int)) <= usize::MAX {
                    total_findings(c.take(i as int))
                } else {
                    usize::MAX as nat
                },
            decreases entries.len() - i,
        {
            assert(c.take(i + 1).drop_last() =~= c.take(i as int));
            assert(c[i as int].1.len() == entries@[i as int].1@.len());
            let len = entries[i].1.len();
            if n > usize::MAX - len {
                n = usize::MAX;
            } else {
                n = n + len;
            }
            i += 1;
        }
        assert(c.take(i as int) =~= c);
        n
    }

    /// The errors that are found, in a human-readable way.
    pub fn report_to_user(&self) -> (r: String)
        ensures
            r@ == report_text(self.spec_errors()),
    {
        proof {
            reveal_strlit("    ");
        }
        if !self.has_error() {
            return String::from_str("No error found!\n");
        }
        let mut text = String::from_str("Errors Found:\n");
        let entries = self.errors.entries();
        let ghost c = self.errors@;
        let mut i: usize = 0;
        while i < entries.len()
            invariant
                i <= entries.len(),
                entries@.map_values(|e: (String, Vec<(String, Option<String>)>)| (e.0@, findings_view(e.1@))) == c,
                text@ == "Errors Found:\n"@ + rules_text(c.take(i as int)),
            decreases entries.len() - i,
        {
            assert(c.take(i + 1).drop_last() =~= c.take(i as int));
            let (rule, errors) = &entries[i];
            let ghost ds = findings_view(errors@);
            assert(c[i as int] == (rule@, ds));
            text.append("  ");
            text.append(rule.as_str());
            text.append("\n");
            let ghost head = text@;
            let mut j: usize = 0;
            while j < errors.len()
                invariant
                    j <= errors.len(),
                    ds == findings_view(errors@),
                    text@ == head + findings_text(ds.take(j as int)),
                decreases errors.len() - j,
            {
                assert(ds.take(j + 1).drop_last() =~= ds.take(j as int));
                let (key, opt_error_msg) = &errors[j];
                assert(ds[j as int] == (key@, opt_view(*opt_error_msg)));
                text.append("    ");
                text.append(key.as_str());
                match opt_error_msg {
                    Some(error_msg) => {
                        text.append(": ");
                        text.append(error_msg.as_str());
                    },
                    None => {},
                }
                text.append("\n");
                j += 1;
            }
            assert(ds.take(j as int) =~= ds);
            i += 1;
        }
        assert(c.take(i as int) =~= c);
        text
    }

    /// What the rules have found.
    pub fn errors(&self) -> (r: &Diagnostics)
        ensures
            r@ == self.spec_errors(),
            r.wf() == self.wf(),
    {
        &self.errors
    }
}

/// Why a run stops before any rule is checked.
#[derive(Debug, Clone, Copy, PartialEq, Eq)]
pub enum CheckError {
    /// The locale file is malformed.
    LocaleFile(LocaleFileError),
    /// A translation macro invocation is malformed.
    Collect(CollectError),
}

/// The rules of a run, in order.
pub open spec fn shipped_rules() -> Seq<RuleKind> {
    seq![RuleKind::MissingTranslations, RuleKind::KeyEngMatches, RuleKind::UseOfKeysDoNotExist]
}

/// What a run finds: the table built from the locale file's tree, the keys
/// used in the files, then each rule in turn; or the first fatal error.
pub open spec fn run_outcome(tree: DataNode, files: Seq<(Seq<char>, Seq<MacroInvocation>)>) -> Result<FindingsByRule, CheckError> {
    match parse_locale_file(tree) {
        Err(e) => Err(CheckError::LocaleFile(e)),
        Ok(es) => match usages_of_files(files) {
            Err(e) => Err(CheckError::Collect(e)),
            Ok(us) => Ok(run_rules(FindingsByRule::empty(), shipped_rules(), es, us)),
        },
    }
}

/// Builds the table from the locale file's tree, collects the keys that the
/// files use, and runs every rule; the checker that is returned holds what
/// the rules found.
pub fn check_project(locale_yaml: DataNode, files: &Vec<(String, Vec<MacroInvocation>)>) -> (r: Result<Checker, CheckError>)
    ensures
        r matches Ok(c) ==> c.wf() && run_outcome(locale_yaml, sources_view(files@)) == Ok::<_, CheckError>(c.spec_errors()),
        r matches Err(e) ==> run_outcome(locale_yaml, sources_view(files@)) == Err::<FindingsByRule, _>(e),
{
    let localized_texts = match LocalizedTexts::new(locale_yaml) {
        Ok(t) => t,
        Err(e) => return Err(CheckError::LocaleFile(e)),
    };
    let mut collector = LocaleKeyCollector::new();
    match collector.collect(files) {
        Ok(()) => {},
        Err(e) => return Err(CheckError::Collect(e)),
    }
    assert(collector@ =~= Seq::<KeyUsage>::empty() + collector@);
    let mut checker = Checker::new();
    checker.register_rule(RuleKind::MissingTranslations);
    checker.register_rule(RuleKind::KeyEngMatches);
    checker.register_rule(RuleKind::UseOfKeysDoNotExist);
    assert(checker.spec_rules() =~= shipped_rules());
    checker.check(&localized_texts, collector.locale_keys());
    Ok(checker)
}

/// A run is deterministic: two runs over the same locale tree and the same
/// files end alike, with the same findings in the same order, or with the
/// same error.
pub proof fn lemma_run_idempotent(
    tree: DataNode,
    files: Seq<(String, Vec<MacroInvocation>)>,
    first: Result<FindingsByRule, CheckError>,
    second: Result<FindingsByRule, CheckError>,
)
    requires
        first == run_outcome(tree, sources_view(files)),
        second == run_outcome(tree, sources_view(files)),
    ensures
        first == second,
{
}

} // verus!
