use indexmap::IndexMap;
use locale_checker::locale_file_parser::{LocalizedTexts, Translations};
use locale_checker::locale_key_collector::LocaleKey;
use locale_checker::rules::{Diagnostics, Rule};
use locale_checker::use_of_keys_do_not_exist::{to_decimal, UseOfKeysDoNotExist};
use std::collections::HashMap;

fn errors_map(errors: Diagnostics) -> HashMap<String, Vec<(String, Option<String>)>> {
    errors.into_entries().into_iter().collect()
}

#[test]
fn test_rule_works() {
    let localized_texts = LocalizedTexts { texts: IndexMap::new() };
    let locale_keys = vec![LocaleKey {
        key: "Restarting".into(),
        file: "foo.rs".into(),
        line: 1,
        column: 1,
    }];
    let mut errors = Diagnostics::new();
    let rule = UseOfKeysDoNotExist;
    rule.check(&localized_texts, &locale_keys, &mut errors);
    let expected_errors = HashMap::from([(
        <UseOfKeysDoNotExist as Rule>::name().into(),
        vec![("file 'foo.rs' / line '1' / column '1' / key 'Restarting'".into(), None)],
    )]);
    assert_eq!(errors_map(errors), expected_errors);

    let localized_texts = LocalizedTexts {
        texts: IndexMap::from([("Restarting".into(), Translations { en: Some("Restarting".into()) })]),
    };
    let locale_keys = vec![LocaleKey {
        key: "Restarting".into(),
        file: "foo.rs".into(),
        line: 1,
        column: 1,
    }];
    let mut errors = Diagnostics::new();
    let rule = UseOfKeysDoNotExist;
    rule.check(&localized_texts, &locale_keys, &mut errors);
    let expected_errors = HashMap::new();
    assert_eq!(errors_map(errors), expected_errors);
}

#[test]
fn a_key_without_translation_still_exists() {
    let localized_texts = LocalizedTexts {
        texts: IndexMap::from([("Known".into(), Translations { en: None })]),
    };
    let locale_keys = vec![
        LocaleKey { key: "Known".into(), file: "a.rs".into(), line: 3, column: 0 },
        LocaleKey { key: "Unknown".into(), file: "src/b.rs".into(), line: 120, column: 45 },
        LocaleKey { key: "Unknown".into(), file: "src/b.rs".into(), line: 121, column: 9 },
    ];
    let mut errors = Diagnostics::new();
    UseOfKeysDoNotExist.check(&localized_texts, &locale_keys, &mut errors);
    assert_eq!(
        errors.into_entries(),
        vec![(
            "UseOfKeysDoNotExist".to_string(),
            vec![
                ("file 'src/b.rs' / line '120' / column '45' / key 'Unknown'".to_string(), None),
                ("file 'src/b.rs' / line '121' / column '9' / key 'Unknown'".to_string(), None),
            ]
        )]
    );
}

#[test]
fn decimal_text() {
    assert_eq!(to_decimal(0), "0");
    assert_eq!(to_decimal(7), "7");
    assert_eq!(to_decimal(10), "10");
    assert_eq!(to_decimal(1234567890), "1234567890");
    assert_eq!(to_decimal(usize::MAX), usize::MAX.to_string());
}
