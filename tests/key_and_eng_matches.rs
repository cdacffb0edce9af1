use indexmap::IndexMap;
use locale_checker::key_and_eng_matches::{key_to_en, KeyEngMatches, LocaleKeyParser, LocaleToken};
use locale_checker::locale_file_parser::{LocalizedTexts, Translations};
use locale_checker::rules::{Diagnostics, Rule};
use std::collections::HashMap;

fn errors_map(errors: Diagnostics) -> HashMap<String, Vec<(String, Option<String>)>> {
    errors.into_entries().into_iter().collect()
}

#[test]
fn no_brace() {
    let mut parser = LocaleKeyParser::new();
    parser.parse("without_any_brace");

    for token in parser.tokens() {
        assert!(matches!(token, LocaleToken::WithoutBrace(_)));
    }
}

#[test]
fn starts_with_brace() {
    let mut parser = LocaleKeyParser::new();
    parser.parse("{brace}topgrade");

    let expected = LocaleKeyParser {
        tokens: vec![LocaleToken::WithinBrace("brace"), LocaleToken::WithoutBrace("topgrade")],
    };

    assert_eq!(parser, expected);
}

#[test]
fn ends_with_brace() {
    let mut parser = LocaleKeyParser::new();
    parser.parse("topgrade{brace}");

    let expected = LocaleKeyParser {
        tokens: vec![LocaleToken::WithoutBrace("topgrade"), LocaleToken::WithinBrace("brace")],
    };

    assert_eq!(parser, expected);
}

#[test]
fn brace_in_the_middle() {
    let mut parser = LocaleKeyParser::new();
    parser.parse("topgrade{brace}topgrade");

    let expected = LocaleKeyParser {
        tokens: vec![
            LocaleToken::WithoutBrace("topgrade"),
            LocaleToken::WithinBrace("brace"),
            LocaleToken::WithoutBrace("topgrade"),
        ],
    };

    assert_eq!(parser, expected);
}

#[test]
fn continuous_braces() {
    let mut parser = LocaleKeyParser::new();
    parser.parse("{brace}{brace}");

    let expected = LocaleKeyParser {
        tokens: vec![LocaleToken::WithinBrace("brace"), LocaleToken::WithinBrace("brace")],
    };

    assert_eq!(parser, expected);
}

#[test]
fn continuous_braces_in_the_middle() {
    let mut parser = LocaleKeyParser::new();
    parser.parse("topgrade{brace}{brace}topgrade");

    let expected = LocaleKeyParser {
        tokens: vec![
            LocaleToken::WithoutBrace("topgrade"),
            LocaleToken::WithinBrace("brace"),
            LocaleToken::WithinBrace("brace"),
            LocaleToken::WithoutBrace("topgrade"),
        ],
    };

    assert_eq!(parser, expected);
}

#[test]
fn single_left_brace() {
    let mut parser = LocaleKeyParser::new();
    parser.parse("{");

    let expected = LocaleKeyParser {
        tokens: vec![LocaleToken::WithoutBrace("{")],
    };

    assert_eq!(parser, expected);
}

#[test]
fn mutliple_left_brace() {
    let mut parser = LocaleKeyParser::new();
    parser.parse("x{x{x{");

    let expected = LocaleKeyParser {
        tokens: vec![LocaleToken::WithoutBrace("x{x{x{")],
    };

    assert_eq!(parser, expected);
}

#[test]
fn a_pair_in_chaos() {
    let mut parser = LocaleKeyParser::new();
    parser.parse("}{x{x}{{x{");

    let expected = LocaleKeyParser {
        tokens: vec![
            LocaleToken::WithoutBrace("}"),
            LocaleToken::WithinBrace("x{x"),
            LocaleToken::WithoutBrace("{{x{"),
        ],
    };

    assert_eq!(parser, expected);
}

#[test]
fn empty_key_has_no_token() {
    let mut parser = LocaleKeyParser::new();
    parser.parse("");
    assert!(parser.tokens().is_empty());
}

#[test]
fn empty_braces_give_an_empty_inside_token() {
    let mut parser = LocaleKeyParser::new();
    parser.parse("a{}b");
    assert_eq!(
        parser.tokens(),
        &[LocaleToken::WithoutBrace("a"), LocaleToken::WithinBrace(""), LocaleToken::WithoutBrace("b")]
    );
}

#[test]
fn lone_right_brace_stays_outside() {
    let mut parser = LocaleKeyParser::new();
    parser.parse("a}b");
    assert_eq!(parser.tokens(), &[LocaleToken::WithoutBrace("a}b")]);
}

#[test]
fn parsing_twice_appends_tokens() {
    let mut parser = LocaleKeyParser::new();
    parser.parse("{a}");
    parser.parse("b");
    assert_eq!(parser.tokens(), &[LocaleToken::WithinBrace("a"), LocaleToken::WithoutBrace("b")]);
}

#[test]
fn non_ascii_text_is_kept_whole() {
    let mut parser = LocaleKeyParser::new();
    parser.parse("é{ü}ß");
    assert_eq!(
        parser.tokens(),
        &[LocaleToken::WithoutBrace("é"), LocaleToken::WithinBrace("ü"), LocaleToken::WithoutBrace("ß")]
    );
    assert_eq!(key_to_en(&parser), "é%{ü}ß");
}

#[test]
fn preprend_percent_works() {
    let mut parser = LocaleKeyParser::new();
    parser.parse("hello, {topgrade}");

    assert_eq!(key_to_en(&parser).as_str(), "hello, %{topgrade}");
}

#[test]
fn preprend_percent_works_without_brace() {
    let mut parser = LocaleKeyParser::new();
    parser.parse("hello, topgrade");

    assert_eq!(key_to_en(&parser).as_str(), "hello, topgrade");
}

#[test]
fn test_rule_works_missing_en_translation() {
    let localized_texts = LocalizedTexts {
        texts: IndexMap::from([("Restarting".into(), Translations { en: None })]),
    };
    let rule = KeyEngMatches;
    let mut errors = Diagnostics::new();
    rule.check(&localized_texts, &[], &mut errors);
    let expected_errors = HashMap::from([(
        <KeyEngMatches as Rule>::name().to_string(),
        vec![("Restarting".to_string(), Some("Missing English translation".into()))],
    )]);
    assert_eq!(errors_map(errors), expected_errors);
}

#[test]
fn test_rule_works_without_arguments() {
    let localized_texts = LocalizedTexts {
        texts: IndexMap::from([("Restarting".into(), Translations { en: Some("buz".into()) })]),
    };
    let rule = KeyEngMatches;
    let mut errors = Diagnostics::new();
    rule.check(&localized_texts, &[], &mut errors);
    let expected_errors = HashMap::from([(
        <KeyEngMatches as Rule>::name().to_string(),
        vec![("Restarting".to_string(), None)],
    )]);
    assert_eq!(errors_map(errors), expected_errors);
}

#[test]
fn test_rule_works_with_arguments() {
    let localized_texts = LocalizedTexts {
        texts: IndexMap::from([(
            "Restarting {app}".into(),
            Translations { en: Some("Restarting {app}".into()) },
        )]),
    };
    let rule = KeyEngMatches;
    let mut errors = Diagnostics::new();
    rule.check(&localized_texts, &[], &mut errors);
    let expected_errors = HashMap::from([(
        <KeyEngMatches as Rule>::name().to_string(),
        vec![("Restarting {app}".to_string(), None)],
    )]);
    assert_eq!(errors_map(errors), expected_errors);
}

#[test]
fn test_rule_works_with_valid_values() {
    let localized_texts = LocalizedTexts {
        texts: IndexMap::from([(
            "Restarting {app}".into(),
            Translations { en: Some("Restarting %{app}".into()) },
        )]),
    };
    let rule = KeyEngMatches;
    let mut errors = Diagnostics::new();
    rule.check(&localized_texts, &[], &mut errors);
    let expected_errors = HashMap::new();
    assert_eq!(errors_map(errors), expected_errors);

    let localized_texts = LocalizedTexts {
        texts: IndexMap::from([("Restarting".into(), Translations { en: Some("Restarting".into()) })]),
    };
    let rule = KeyEngMatches;
    let mut errors = Diagnostics::new();
    rule.check(&localized_texts, &[], &mut errors);
    let expected_errors = HashMap::new();
    assert_eq!(errors_map(errors), expected_errors);
}

#[test]
fn missing_translation_stops_the_rule() {
    let localized_texts = LocalizedTexts {
        texts: IndexMap::from([
            ("A".into(), Translations { en: None }),
            ("B".into(), Translations { en: Some("not B".into()) }),
        ]),
    };
    let mut errors = Diagnostics::new();
    KeyEngMatches.check(&localized_texts, &[], &mut errors);
    assert_eq!(
        errors.into_entries(),
        vec![(
            "KeyEngMatches".to_string(),
            vec![("A".to_string(), Some("Missing English translation".to_string()))]
        )]
    );
}

#[test]
fn mismatches_before_a_missing_translation_are_reported() {
    let localized_texts = LocalizedTexts {
        texts: IndexMap::from([
            ("{x} ok".into(), Translations { en: Some("%{x} ok".into()) }),
            ("B".into(), Translations { en: Some("b".into()) }),
            ("C".into(), Translations { en: None }),
            ("D".into(), Translations { en: None }),
        ]),
    };
    let mut errors = Diagnostics::new();
    KeyEngMatches.check(&localized_texts, &[], &mut errors);
    assert_eq!(
        errors.into_entries(),
        vec![(
            "KeyEngMatches".to_string(),
            vec![
                ("B".to_string(), None),
                ("C".to_string(), Some("Missing English translation".to_string()))
            ]
        )]
    );
}
