use indexmap::IndexMap;
use locale_checker::checker::{check_project, CheckError, Checker, RuleKind};
use locale_checker::locale_file_parser::{DataNode, LocaleFileError, LocalizedTexts, Translations};
use locale_checker::locale_key_collector::{CollectError, FirstToken, LocaleKey, MacroInvocation};
use locale_checker::rules::Diagnostics;

fn text(s: &str) -> DataNode {
    DataNode::String(s.to_string())
}

fn en(s: &str) -> DataNode {
    DataNode::Mapping(vec![(text("en"), text(s))])
}

fn locale_tree() -> DataNode {
    DataNode::Mapping(vec![
        (text("_version"), DataNode::Integer(2)),
        (text("Restarting {app}"), en("Restarting %{app}")),
        (text("Done"), en("Finished")),
        (text("No English"), DataNode::Null),
        (text("Later"), en("wrong")),
    ])
}

fn t_call(key: &str, line: usize, column: usize) -> MacroInvocation {
    MacroInvocation {
        leading_colon: false,
        segments: vec!["t".to_string()],
        first_token: FirstToken::Literal(format!("\"{}\"", key)),
        line,
        column,
    }
}

fn source_files() -> Vec<(String, Vec<MacroInvocation>)> {
    vec![
        ("src/main.rs".to_string(), vec![t_call("Restarting {app}", 3, 8), t_call("Gone", 9, 4)]),
        ("src/lib.rs".to_string(), vec![t_call("Done", 1, 0)]),
    ]
}

#[test]
fn test_n_errors_and_has_error() {
    let mut diagnostics = Diagnostics::new();
    assert!(!diagnostics.has_error());
    diagnostics.report("rule_name2", "locale_key".into(), None);
    assert!(diagnostics.has_error());
    diagnostics.report("rule_name", "locale_key".into(), None);
    assert!(diagnostics.has_error());

    let mut checker = Checker::new();
    assert_eq!(checker.n_errors(), 0);
    assert!(!checker.has_error());
    checker.register_rule(RuleKind::MissingTranslations);
    let localized_texts = LocalizedTexts {
        texts: IndexMap::from([("locale_key".into(), Translations { en: None })]),
    };
    checker.check(&localized_texts, &[]);
    assert_eq!(checker.n_errors(), 1);
    assert!(checker.has_error());
    let localized_texts = LocalizedTexts {
        texts: IndexMap::from([("other_key".into(), Translations { en: None })]),
    };
    checker.check(&localized_texts, &[]);
    assert_eq!(checker.n_errors(), 2);
    assert!(checker.has_error());
}

#[test]
fn report_without_errors() {
    let checker = Checker::new();
    assert_eq!(checker.report_to_user(), "No error found!\n");
}

#[test]
fn report_lists_rules_and_findings() {
    let mut checker = Checker::new();
    checker.register_rule(RuleKind::MissingTranslations);
    checker.register_rule(RuleKind::KeyEngMatches);
    checker.register_rule(RuleKind::UseOfKeysDoNotExist);
    let localized_texts = LocalizedTexts {
        texts: IndexMap::from([
            ("a".into(), Translations { en: Some("b".into()) }),
            ("c".into(), Translations { en: None }),
        ]),
    };
    let keys = vec![LocaleKey { key: "zz".into(), file: "x.rs".into(), line: 2, column: 3 }];
    checker.check(&localized_texts, &keys);
    assert_eq!(
        checker.report_to_user(),
        "Errors Found:\n  MissingTranslations\n    c: Missing translations for [English]\n  KeyEngMatches\n    a\n    c: Missing English translation\n  UseOfKeysDoNotExist\n    file 'x.rs' / line '2' / column '3' / key 'zz'\n"
    );
    assert_eq!(checker.n_errors(), 4);
}

#[test]
fn whole_run_finds_each_rule_in_order() {
    let checker = check_project(locale_tree(), &source_files()).unwrap();
    let entries = checker.errors().entries().to_vec();
    assert_eq!(
        entries,
        vec![
            (
                "MissingTranslations".to_string(),
                vec![("No English".to_string(), Some("Missing translations for [English]".to_string()))]
            ),
            (
                "KeyEngMatches".to_string(),
                vec![
                    ("Done".to_string(), None),
                    ("No English".to_string(), Some("Missing English translation".to_string()))
                ]
            ),
            (
                "UseOfKeysDoNotExist".to_string(),
                vec![("file 'src/main.rs' / line '9' / column '4' / key 'Gone'".to_string(), None)]
            ),
        ]
    );
    assert!(checker.has_error());
}

#[test]
fn running_twice_gives_the_same_findings() {
    let first = check_project(locale_tree(), &source_files()).unwrap();
    let second = check_project(locale_tree(), &source_files()).unwrap();
    assert_eq!(first.errors().entries(), second.errors().entries());
    assert_eq!(first.report_to_user(), second.report_to_user());
}

#[test]
fn clean_project_has_no_error() {
    let tree = DataNode::Mapping(vec![(text("_version"), DataNode::Integer(2)), (text("Hi {n}"), en("Hi %{n}"))]);
    let files = vec![("a.rs".to_string(), vec![t_call("Hi {n}", 1, 0)])];
    let checker = check_project(tree, &files).unwrap();
    assert!(!checker.has_error());
    assert_eq!(checker.n_errors(), 0);
}

#[test]
fn fatal_errors_stop_the_run() {
    let tree = DataNode::Mapping(vec![(text("_version"), DataNode::Integer(3))]);
    assert_eq!(
        check_project(tree, &source_files()).err(),
        Some(CheckError::LocaleFile(LocaleFileError::VersionMismatch))
    );
    let mut files = source_files();
    files[1].1.push(MacroInvocation {
        leading_colon: false,
        segments: vec!["t".to_string()],
        first_token: FirstToken::Missing,
        line: 4,
        column: 0,
    });
    assert_eq!(
        check_project(locale_tree(), &files).err(),
        Some(CheckError::Collect(CollectError::MissingArgument))
    );
}
