use locale_checker::cli_opt::{is_rust_file, Cli};

#[test]
fn rust_files_are_told_by_extension() {
    assert!(is_rust_file("bar.rs"));
    assert!(is_rust_file("baz/qux.rs"));
    assert!(is_rust_file("/abs/dir.d/main.rs"));
    assert!(!is_rust_file("foo"));
    assert!(!is_rust_file("baz/quux"));
    assert!(!is_rust_file("notes.txt"));
    assert!(!is_rust_file("archive.rs.bak"));
    assert!(!is_rust_file(".rs"));
    assert!(!is_rust_file("upper.RS"));
    assert!(!is_rust_file(""));
}

#[test]
fn options_are_kept() {
    let cli = Cli::new("locales/app.yml".to_string(), vec!["src".to_string(), "main.rs".to_string()]);
    assert_eq!(cli.locale_file(), "locales/app.yml");
    assert_eq!(cli.rust_src_paths(), &["src".to_string(), "main.rs".to_string()]);
}
