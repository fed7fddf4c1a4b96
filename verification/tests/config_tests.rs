use ovft_core::config::{decide_source_match, eq_ignore_ascii_case, is_markdown_extension};
use ovft_core::Config;

#[test]
fn test_default_config() {
    let config = Config::default();
    assert!(!config.source_dirs.is_empty());
    assert!(!config.spec_dirs.is_empty());
    assert!(!config.artifact_types.is_empty());
}

#[test]
fn test_config_builder() {
    let config = Config::new()
        .add_source_dir("src")
        .add_spec_dir("requirements")
        .add_artifact_type("custom")
        .verbose(true);

    assert!(config.verbose);
    assert!(config.artifact_types.contains(&"custom".to_string()));
}

#[test]
fn test_source_pattern_matching() {
    let config = Config::default();

    assert!(config.matches_source_pattern("src/main.rs"));
    assert!(config.matches_source_pattern("test.java"));
    assert!(!config.matches_source_pattern("target/debug/main"));
    assert!(!config.matches_source_pattern("README.md"));
}

#[test]
fn test_spec_file_detection() {
    let config = Config::default();

    assert!(config.is_spec_file("requirements.md"));
    assert!(config.is_spec_file("spec.markdown"));
    assert!(!config.is_spec_file("main.rs"));
    assert!(!config.is_spec_file("config.toml"));
}

#[test]
fn test_load_or_default() {
    let config = Config::load_or_default(None);
    assert!(!config.artifact_types.is_empty());
    let loaded = Config::load_or_default(Some(Config::empty().add_artifact_type("arch")));
    assert_eq!(loaded.artifact_types.last(), Some(&"arch".to_string()));
    assert!(loaded.source_dirs.is_empty());
}

#[test]
fn default_and_empty_configurations() {
    let config = Config::default();
    assert_eq!(config.source_dirs, vec!["src"]);
    assert_eq!(config.spec_dirs, vec!["docs"]);
    assert_eq!(
        config.source_patterns,
        vec![
            "*.rs", "*.adl", "*.atl", "*.java", "*.c", "*.cpp", "*.h", "*.hpp", "*.py", "*.js",
            "*.ts", "*.go", "*.rb", "*.php", "*.sh", "*.sql"
        ]
    );
    assert_eq!(
        config.exclude_patterns,
        vec!["target/**", "node_modules/**", ".git/**", "*.tmp", "*.bak"]
    );
    assert_eq!(
        config.artifact_types,
        vec!["feat", "req", "arch", "dsn", "impl", "utest", "itest", "stest", "uman", "oman"]
    );
    assert!(!config.verbose);
    assert_eq!(config.output_dir, Some("target".to_string()));

    let config = Config::empty();
    assert!(config.source_dirs.is_empty());
    assert!(config.spec_dirs.is_empty());
    assert_eq!(config.source_patterns, vec!["*.rs", "*.adl", "*.atl"]);
    assert_eq!(config.exclude_patterns, vec!["target/**", ".git/**"]);
    assert_eq!(config.artifact_types, vec!["feat", "req", "dsn", "impl", "utest", "itest"]);
    assert!(!config.verbose);
    assert_eq!(config.output_dir, Some("target".to_string()));
}

#[test]
fn builders_append_and_set() {
    let config = Config::empty()
        .add_source_dir("a")
        .add_source_dir("b")
        .add_spec_dir("docs/x")
        .add_source_pattern("*.kt")
        .add_exclude_pattern("gen/**")
        .add_artifact_type("arch")
        .output_dir("out")
        .verbose(true)
        .verbose(false);
    assert_eq!(config.source_dirs, vec!["a", "b"]);
    assert_eq!(config.spec_dirs, vec!["docs/x"]);
    assert_eq!(config.source_patterns, vec!["*.rs", "*.adl", "*.atl", "*.kt"]);
    assert_eq!(config.exclude_patterns, vec!["target/**", ".git/**", "gen/**"]);
    assert_eq!(config.artifact_types.last(), Some(&"arch".to_string()));
    assert_eq!(config.output_dir, Some("out".to_string()));
    assert!(!config.verbose);
    let copy = config.clone();
    assert_eq!(copy.source_dirs, config.source_dirs);
    assert_eq!(copy.output_dir, config.output_dir);
}

#[test]
fn exclude_patterns_win_over_source_patterns() {
    let config = Config::empty()
        .add_source_pattern("*.kt")
        .add_exclude_pattern("gen/**")
        .add_exclude_pattern("[broken");
    assert!(config.matches_source_pattern("app/Main.kt"));
    assert!(!config.matches_source_pattern("gen/Main.kt"));
    assert!(!config.matches_source_pattern("app/Main.swift"));
    let mut nothing = Config::empty();
    nothing.source_patterns.clear();
    assert!(!nothing.matches_source_pattern("src/main.rs"));

    assert!(decide_source_match(&vec![Some(false), None], &vec![None, Some(true)]));
    assert!(!decide_source_match(&vec![Some(false), Some(true)], &vec![Some(true)]));
    assert!(!decide_source_match(&vec![], &vec![Some(false), None]));
    assert!(!decide_source_match(&vec![], &vec![]));
    assert!(decide_source_match(&vec![], &vec![Some(true)]));
}

#[test]
fn markdown_extensions_in_any_case() {
    assert!(is_markdown_extension("md"));
    assert!(is_markdown_extension("MD"));
    assert!(is_markdown_extension("Markdown"));
    assert!(!is_markdown_extension("mdx"));
    assert!(!is_markdown_extension("m"));
    assert!(!is_markdown_extension(""));
    assert!(eq_ignore_ascii_case("AbC", "aBc"));
    assert!(!eq_ignore_ascii_case("abc", "abd"));
    assert!(!eq_ignore_ascii_case("Ä", "ä"));
    let config = Config::default();
    assert!(config.is_spec_file("docs/Items.Md"));
    assert!(!config.is_spec_file("docs/md"));
    assert!(!config.is_spec_file(".md"));
}

#[test]
fn only_a_path_with_the_word_behind_a_dot_is_a_document() {
    let config = Config::default();
    for path in [
        "", "md", "markdown", "docs/md", "a.md", "a.MD", "a.b.markdown", "dir.md/file",
        "dir.md/file.txt", "a.md.bak", ".md", "docs/.markdown", "a.mdx", "x.", "..", "a.md/",
        "a.markdown/.", "notes.Md", "README",
    ] {
        let lower = path.to_lowercase();
        if config.is_spec_file(path) {
            assert!(lower.contains(".md") || lower.contains(".markdown"), "{:?}", path);
        }
        if !path.contains('.') {
            assert!(!config.is_spec_file(path), "{:?}", path);
        }
    }
    assert!(config.is_spec_file("a.md"));
    assert!(config.is_spec_file("a.b.markdown"));
    assert!(config.is_spec_file("notes.Md"));
    assert!(!config.is_spec_file("a.md.bak"));
    assert!(!config.is_spec_file("dir.md/file"));
    assert!(!config.is_spec_file("a.mdx"));
    assert!(!config.is_spec_file("x."));
}
