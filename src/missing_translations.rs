//! A rule that checks if there is any key that misses some translations.

use crate::locale_file_parser::{keys_distinct, table_get_index, table_len, LocalizedTexts};
use crate::locale_key_collector::{KeyUsage, LocaleKey};
use crate::rules::{report_all, Diagnostics, Finding, Rule};
use vstd::prelude::*;

verus! {

/// The bit of English.
pub const MISSING_EN: u8 = 0b_0000_0001;

/// A set of missing languages, every language takes 1 bit.
///
/// When a language is missing, its bit is set to 1.
#[derive(Debug, Clone, Copy, PartialEq, Eq)]
pub struct MissingLanguages {
    bits: u8,
}

/// The message that lists the missing languages.
pub open spec fn missing_languages_msg(en: bool) -> Seq<char> {
    "Missing translations for "@ + "["@ + (if en { "English"@ } else { Seq::empty() }) + "]"@
}

impl MissingLanguages {
    /// Whether English is missing.
    pub closed spec fn spec_missing_en(&self) -> bool {
        self.bits & MISSING_EN != 0
    }

    /// Whether no language is missing.
    pub closed spec fn spec_is_empty(&self) -> bool {
        self.bits == 0
    }

    /// No language is missing.
    pub fn empty() -> (r: Self)
        ensures
            r.spec_is_empty(),
            !r.spec_missing_en(),
    {
        assert(0u8 & MISSING_EN == 0) by (bit_vector);
        MissingLanguages { bits: 0 }
    }

    /// Marks English as missing.
    pub fn insert_en(&mut self)
        ensures
            final(self).spec_missing_en(),
            !final(self).spec_is_empty(),
    {
        let b = self.bits;
        assert((b | MISSING_EN) & MISSING_EN != 0) by (bit_vector);
        assert((b | MISSING_EN) != 0) by (bit_vector);
        self.bits = b | MISSING_EN;
    }

    /// Returns true if no language is missing.
    pub fn is_empty(&self) -> (r: bool)
        ensures
            r == self.spec_is_empty(),
    {
        self.bits == 0
    }

    /// Whether English is missing.
    pub fn missing_en(&self) -> (r: bool)
        ensures
            r == self.spec_missing_en(),
    {
        self.bits & MISSING_EN != 0
    }

    /// Returns an error message describing the missing languages.
    pub fn error_msg(&self) -> (r: String)
        ensures
            r@ == missing_languages_msg(self.spec_missing_en()),
    {
        let mut str = String::from_str("Missing translations for ");
        str.append("[");
        if self.missing_en() {
            str.append("English");
        }
        str.append("]");
        str
    }
}

/// The findings of the rule: each key without an English translation, with
/// the message that lists the missing languages, in table order.
pub open spec fn missing_findings(es: Seq<(Seq<char>, Option<Seq<char>>)>) -> Seq<Finding>
    decreases es.len(),
{
    if es.len() == 0 {
        Seq::empty()
    } else {
        let rest = missing_findings(es.drop_last());
        if es.last().1 is None {
            rest.push((es.last().0, Some(missing_languages_msg(true))))
        } else {
            rest
        }
    }
}

/// A rule that checks if there is any key that misses some translations.
#[derive(Debug, Clone, Copy, PartialEq, Eq)]
pub struct MissingTranslations;

impl Rule for MissingTranslations {
    open spec fn spec_name() -> Seq<char> {
        "MissingTranslations"@
    }

    open spec fn findings(texts: Seq<(Seq<char>, Option<Seq<char>>)>, usages: Seq<KeyUsage>) -> Seq<Finding> {
        missing_findings(texts)
    }

    fn name() -> (r: &'static str) {
        "MissingTranslations"
    }

    fn check(&self, localized_texts: &LocalizedTexts, _locale_keys: &[LocaleKey], errors: &mut Diagnostics) {
        let ghost es = localized_texts@;
        let n = table_len(&localized_texts.texts);
        let mut i: usize = 0;
        while i < n
            invariant
                i <= n,
                n == es.len(),
                es == localized_texts@,
                errors.wf(),
                errors@ == report_all(old(errors)@, Self::spec_name(), missing_findings(es.take(i as int))),
            decreases n - i,
        {
            assert(es.take(i + 1).drop_last() =~= es.take(i as int));
            match table_get_index(&localized_texts.texts, i) {
                Some((key, translations)) => {
                    let mut missing_langs = MissingLanguages::empty();
                    if translations.en.is_none() {
                        missing_langs.insert_en();
                    }
                    if !missing_langs.is_empty() {
                        let msg = missing_langs.error_msg();
                        let ghost d: Finding = (key@, Some(msg@));
                        let ghost before = missing_findings(es.take(i as int));
                        Self::report_error(key.clone(), Some(msg), errors);
                        assert(before.push(d).drop_last() =~= before);
                    }
                },
                None => {},
            }
            i += 1;
        }
        assert(es.take(n as int) =~= es);
    }
}

/// How many findings have the subject `k`.
pub open spec fn subject_count(ds: Seq<Finding>, k: Seq<char>) -> nat
    decreases ds.len(),
{
    if ds.len() == 0 {
        0
    } else {
        subject_count(ds.drop_last(), k) + if ds.last().0 == k {
            1nat
        } else {
            0nat
        }
    }
}

/// In a table whose keys are distinct, the rule reports a key exactly once
/// when its English translation is absent, and not at all otherwise.
pub proof fn lemma_missing_reported_once(es: Seq<(Seq<char>, Option<Seq<char>>)>, usages: Seq<KeyUsage>, k: Seq<char>)
    requires
        keys_distinct(es),
    ensures
        subject_count(MissingTranslations::findings(es, usages), k) == if exists|i: int|
            0 <= i < es.len() && #[trigger] es[i] == (k, None::<Seq<char>>) {
            1nat
        } else {
            0nat
        },
    decreases es.len(),
{
    if es.len() > 0 {
        let init = es.drop_last();
        assert(keys_distinct(init));
        lemma_missing_reported_once(init, usages, k);
        let rest = missing_findings(init);
        let last = es.last();
        if last.1 is None {
            assert(rest.push((last.0, Some(missing_languages_msg(true)))).drop_last() =~= rest);
        }
        if last.0 == k {
            assert forall|i: int| 0 <= i < init.len() implies init[i].0 != k by {
                assert(es[i].0 != es[es.len() - 1].0);
            };
            if last.1 is None {
                assert(es[es.len() - 1] == (k, None::<Seq<char>>));
            } else {
                assert(!exists|i: int| 0 <= i < es.len() && #[trigger] es[i] == (k, None::<Seq<char>>)) by {
                    assert forall|i: int| 0 <= i < es.len() implies es[i] != (k, None::<Seq<char>>) by {
                        if i < es.len() - 1 {
                            assert(init[i] == es[i]);
                        }
                    };
                };
            }
        } else {
            if exists|i: int| 0 <= i < es.len() && #[trigger] es[i] == (k, None::<Seq<char>>) {
                let i = choose|i: int| 0 <= i < es.len() && #[trigger] es[i] == (k, None::<Seq<char>>);
                assert(init[i] == es[i]);
            }
            if exists|i: int| 0 <= i < init.len() && #[trigger] init[i] == (k, None::<Seq<char>>) {
                let i = choose|i: int| 0 <= i < init.len() && #[trigger] init[i] == (k, None::<Seq<char>>);
                assert(es[i] == init[i]);
            }
        }
    }
}

} // verus!
