//! A rule that checks if the source code uses any locale keys that do not
//! exist.

use crate::locale_file_parser::{table_contains_key, LocalizedTexts};
use crate::locale_key_collector::{usages_view, KeyUsage, LocaleKey};
use crate::rules::{report_all, Diagnostics, Finding, Rule};
use vstd::prelude::*;

verus! {

/// The character of a decimal digit.
pub open spec fn digit_char(d: int) -> char {
    if d == 0 {
        '0'
    } else if d == 1 {
        '1'
    } else if d == 2 {
        '2'
    } else if d == 3 {
        '3'
    } else if d == 4 {
        '4'
    } else if d == 5 {
        '5'
    } else if d == 6 {
        '6'
    } else if d == 7 {
        '7'
    } else if d == 8 {
        '8'
    } else {
        '9'
    }
}

/// The decimal digits of `n`, without leading zeros.
pub open spec fn decimal(n: nat) -> Seq<char>
    decreases n,
{
    if n < 10 {
        seq![digit_char(n as int)]
    } else {
        decimal(n / 10).push(digit_char((n % 10) as int))
    }
}

/// The text of a decimal digit.
fn digit_str(d: usize) -> (r: &'static str)
    requires
        d < 10,
    ensures
        r@ == seq![digit_char(d as int)],
{
    proof {
        reveal_strlit("0");
        reveal_strlit("1");
        reveal_strlit("2");
        reveal_strlit("3");
        reveal_strlit("4");
        reveal_strlit("5");
        reveal_strlit("6");
        reveal_strlit("7");
        reveal_strlit("8");
        reveal_strlit("9");
    }
    if d == 0 {
        "0"
    } else if d == 1 {
        "1"
    } else if d == 2 {
        "2"
    } else if d == 3 {
        "3"
    } else if d == 4 {
        "4"
    } else if d == 5 {
        "5"
    } else if d == 6 {
        "6"
    } else if d == 7 {
        "7"
    } else if d == 8 {
        "8"
    } else {
        "9"
    }
}

/// The decimal text of `n`.
pub fn to_decimal(n: usize) -> (r: String)
    ensures
        r@ == decimal(n as nat),
    decreases n,
{
    if n < 10 {
        String::from_str(digit_str(n))
    } else {
        let mut s = to_decimal(n / 10);
        s.append(digit_str(n % 10));
        s
    }
}

/// The subject of a use of an unknown key: where it is used, and the key.
pub open spec fn usage_subject(u: KeyUsage) -> Seq<char> {
    "file '"@ + u.file + "' / line '"@ + decimal(u.line as nat) + "' / column '"@ + decimal(u.column as nat)
        + "' / key '"@ + u.key + "'"@
}

/// Whether some entry of the table has the key.
pub open spec fn table_has_key(es: Seq<(Seq<char>, Option<Seq<char>>)>, k: Seq<char>) -> bool {
    exists|i: int| 0 <= i < es.len() && #[trigger] es[i].0 == k
}

/// A finding, without message, for each usage of a key that the table does
/// not have, in the order of the usages.
pub open spec fn unknown_key_findings(es: Seq<(Seq<char>, Option<Seq<char>>)>, us: Seq<KeyUsage>) -> Seq<Finding>
    decreases us.len(),
{
    if us.len() == 0 {
        Seq::empty()
    } else {
        let rest = unknown_key_findings(es, us.drop_last());
        if table_has_key(es, us.last().key) {
            rest
        } else {
            rest.push((usage_subject(us.last()), None))
        }
    }
}

/// The subject of a use of an unknown key.
fn subject_of(locale_key: &LocaleKey) -> (r: String)
    ensures
        r@ == usage_subject(locale_key@),
{
    let mut s = String::from_str("file '");
    s.append(locale_key.file.as_str());
    s.append("' / line '");
    let line = to_decimal(locale_key.line);
    s.append(line.as_str());
    s.append("' / column '");
    let column = to_decimal(locale_key.column);
    s.append(column.as_str());
    s.append("' / key '");
    s.append(locale_key.key.as_str());
    s.append("'");
    s
}

/// Checks if the source code uses any locale keys that do not exist.
#[derive(Debug, Clone, Copy, PartialEq, Eq)]
pub struct UseOfKeysDoNotExist;

impl Rule for UseOfKeysDoNotExist {
    open spec fn spec_name() -> Seq<char> {
        "UseOfKeysDoNotExist"@
    }

    open spec fn findings(texts: Seq<(Seq<char>, Option<Seq<char>>)>, usages: Seq<KeyUsage>) -> Seq<Finding> {
        unknown_key_findings(texts, usages)
    }

    fn name() -> (r: &'static str) {
        "UseOfKeysDoNotExist"
    }

    fn check(&self, localized_texts: &LocalizedTexts, locale_keys: &[LocaleKey], errors: &mut Diagnostics) {
        let ghost es = localized_texts@;
        let ghost us = usages_view(locale_keys@);
        let mut i: usize = 0;
        while i < locale_keys.len()
            invariant
                i <= locale_keys.len(),
                es == localized_texts@,
                us == usages_view(locale_keys@),
                errors.wf(),
                errors@ == report_all(old(errors)@, Self::spec_name(), unknown_key_findings(es, us.take(i as int))),
            decreases locale_keys.len() - i,
        {
            assert(us.take(i + 1).drop_last() =~= us.take(i as int));
            assert(us.take(i + 1).last() == locale_keys@[i as int]@);
            let ghost before = unknown_key_findings(es, us.take(i as int));
            let locale_key = &locale_keys[i];
            if !table_contains_key(&localized_texts.texts, &locale_key.key) {
                let subject = subject_of(locale_key);
                let ghost d: Finding = (subject@, None);
                Self::report_error(subject, None, errors);
                assert(before.push(d).drop_last() =~= before);
            }
            i += 1;
        }
        assert(us.take(locale_keys.len() as int) =~= us);
    }
}

} // verus!
