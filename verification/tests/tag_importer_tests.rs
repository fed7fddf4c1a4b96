use ovft_core::tag_importer::{item_from_full_tag, item_from_short_tag};
use ovft_core::{Config, Error, Location, SourceFile, SpecificationItemId, TagImporter};

fn id(artifact_type: &str, name: &str, revision: u32) -> SpecificationItemId {
    SpecificationItemId::new(artifact_type.to_string(), name.to_string(), revision)
}

fn groups(texts: &[Option<&str>]) -> Vec<Option<String>> {
    texts.iter().map(|g| g.map(|s| s.to_string())).collect()
}

#[test]
fn test_parse_full_tag() {
    let importer = TagImporter::new().unwrap();
    let content = "// [impl->dsn~validate-authentication-request~1]";

    let items = importer.parse_line(content, "src/auth.rs", 1).unwrap();
    assert_eq!(items.len(), 1);

    let item = &items[0];
    assert_eq!(item.id.artifact_type, "impl");
    assert_eq!(item.covers.len(), 1);
    assert_eq!(item.covers[0].artifact_type, "dsn");
    assert_eq!(item.covers[0].name, "validate-authentication-request");
    assert_eq!(item.covers[0].revision, 1);
}

#[test]
fn test_parse_tag_with_needs() {
    let importer = TagImporter::new().unwrap();
    let content = "// [dsn->feat~login~1>>impl,test]";

    let items = importer.parse_line(content, "src/auth.rs", 1).unwrap();
    assert_eq!(items.len(), 1);

    let item = &items[0];
    assert_eq!(item.id.artifact_type, "dsn");
    assert_eq!(item.needs, vec!["impl", "test"]);
}

#[test]
fn test_parse_short_tag() {
    let importer = TagImporter::new().unwrap();
    let content = "// [[req~login~1:impl]]";

    let items = importer.parse_line(content, "src/auth.rs", 1).unwrap();
    assert_eq!(items.len(), 1);

    let item = &items[0];
    assert_eq!(item.id.artifact_type, "impl");
    assert_eq!(item.covers.len(), 1);
    assert_eq!(item.covers[0].artifact_type, "req");
}

#[test]
fn tag_importer_test_import_from_file() {
    let importer = TagImporter::new().unwrap();
    let mut content = String::new();
    content.push_str("// Test file with requirements\n");
    content.push_str("// [impl->dsn~authenticate-user~1]\n");
    content.push_str("fn authenticate_user() {}\n");
    content.push_str("// [utest->dsn~authenticate-user~1]\n");
    content.push_str("#[test] fn test_authenticate() {}\n");

    let items = importer.import_from_file(&content, "src/auth.rs").unwrap();
    assert_eq!(items.len(), 2);

    let impl_item = items.iter().find(|i| i.id.artifact_type == "impl").unwrap();
    let test_item = items.iter().find(|i| i.id.artifact_type == "utest").unwrap();

    assert_eq!(impl_item.covers[0].name, "authenticate-user");
    assert_eq!(test_item.covers[0].name, "authenticate-user");
}

#[test]
fn full_tag_at_line_ten_gives_one_synthetic_item() {
    let importer = TagImporter::new().unwrap();
    let mut content = String::new();
    for _ in 0..9 {
        content.push_str("// nothing here\n");
    }
    content.push_str("    // [impl->dsn~auth~1]\n");
    content.push_str("fn auth() {}\n");
    let items = importer.import_from_file(&content, "src/auth.rs").unwrap();

    assert_eq!(items.len(), 1);
    let item = &items[0];
    assert_eq!(item.id.artifact_type, "impl");
    assert_eq!(item.id.revision, 0);
    assert_eq!(item.covers, vec![id("dsn", "auth", 1)]);
    assert_eq!(item.location, Some(Location::new("src/auth.rs".to_string(), 10)));
    assert!(item.needs.is_empty());
    assert!(item.title.is_none());

    let hash = importer.generate_hash("src/auth.rs:10");
    assert_eq!(item.id.name, format!("auth-{}", hash));
    assert!(item.id.name.len() > "auth-".len());
}

#[test]
fn hash_depends_on_the_location_text_alone() {
    let importer = TagImporter::new().unwrap();
    let other = TagImporter::new().unwrap();
    let a = importer.generate_hash("src/auth.rs:10");
    assert_eq!(a, importer.generate_hash("src/auth.rs:10"));
    assert_eq!(a, other.generate_hash("src/auth.rs:10"));
    assert_ne!(a, importer.generate_hash("src/auth.rs:11"));
    assert_ne!(a, importer.generate_hash("src/auth.rt:10"));

    let first = importer.parse_line("[impl->dsn~auth~1]", "src/auth.rs", 10).unwrap();
    let again = importer.parse_line("[impl->dsn~auth~1]", "src/auth.rs", 10).unwrap();
    let moved = importer.parse_line("[impl->dsn~auth~1]", "src/auth.rs", 11).unwrap();
    assert_eq!(first[0].id, again[0].id);
    assert_ne!(first[0].id, moved[0].id);
}

#[test]
fn full_tag_with_own_name_and_revision() {
    let importer = TagImporter::new().unwrap();
    let items = importer
        .parse_line("/* [impl~login-form~3->dsn~auth~12] */", "a.c", 7)
        .unwrap();
    assert_eq!(items.len(), 1);
    assert_eq!(items[0].id, id("impl", "login-form", 3));
    assert_eq!(items[0].covers, vec![id("dsn", "auth", 12)]);
    assert_eq!(items[0].location, Some(Location::new("a.c".to_string(), 7)));
}

#[test]
fn tags_tolerate_white_space() {
    let importer = TagImporter::new().unwrap();
    let items = importer
        .parse_line("[ impl  ->  dsn~auth~1  >>  utest , itest ,, ]", "a.rs", 1)
        .unwrap();
    assert_eq!(items.len(), 1);
    assert_eq!(items[0].needs, vec!["utest", "itest"]);
    let items = importer.parse_line("[[ req~login~2 : utest ]]", "a.rs", 1).unwrap();
    assert_eq!(items.len(), 1);
    assert_eq!(items[0].id.artifact_type, "utest");
    assert_eq!(items[0].id.revision, 0);
    assert_eq!(items[0].covers, vec![id("req", "login", 2)]);
    assert!(items[0].id.name.starts_with("login-"));
}

#[test]
fn several_tags_on_one_line_full_tags_first() {
    let importer = TagImporter::new().unwrap();
    let items = importer
        .parse_line(
            "[[req~a~1:utest]] [impl->dsn~b~1] text [impl->dsn~c~2] [[req~d~1:itest]]",
            "a.rs",
            3,
        )
        .unwrap();
    let covered: Vec<String> = items.iter().map(|i| i.covers[0].to_string()).collect();
    assert_eq!(covered, vec!["dsn~b~1", "dsn~c~2", "req~a~1", "req~d~1"]);
    assert!(importer.parse_line("no tag [here]", "a.rs", 1).unwrap().is_empty());
    assert!(importer.parse_line("", "a.rs", 1).unwrap().is_empty());
}

#[test]
fn a_tag_never_spans_lines() {
    let importer = TagImporter::new().unwrap();
    let items = importer
        .import_from_file("[impl->\ndsn~auth~1]\r\n[impl->dsn~b~1]\r\n", "a.rs")
        .unwrap();
    assert_eq!(items.len(), 1);
    assert_eq!(items[0].covers, vec![id("dsn", "b", 1)]);
    assert_eq!(items[0].location, Some(Location::new("a.rs".to_string(), 3)));
    assert!(importer.import_from_file("", "a.rs").unwrap().is_empty());
}

#[test]
fn revision_that_does_not_fit_stops_the_import() {
    let importer = TagImporter::new().unwrap();
    match importer.parse_line("[impl->dsn~auth~4294967296]", "src/a.rs", 4) {
        Err(Error::Parse { message, location }) => {
            assert_eq!(message, "Invalid revision number: 4294967296");
            assert_eq!(location, "src/a.rs:4");
        }
        other => panic!("{:?}", other),
    }
    match importer.parse_line("[impl~x~99999999999->dsn~auth~1]", "src/a.rs", 4) {
        Err(Error::Parse { message, location }) => {
            assert_eq!(message, "Invalid revision number: 99999999999");
            assert_eq!(location, "src/a.rs:4");
        }
        other => panic!("{:?}", other),
    }
    match importer.parse_line("[[dsn~auth~4294967296:impl]]", "src/a.rs", 5) {
        Err(Error::Parse { message, location }) => {
            assert_eq!(message, "Invalid revision number: 4294967296");
            assert_eq!(location, "src/a.rs:5");
        }
        other => panic!("{:?}", other),
    }
    let text = "[impl->dsn~ok~1]\n[impl->dsn~bad~4294967296]\n[impl->dsn~ok~2]\n";
    assert!(importer.import_from_file(text, "src/a.rs").is_err());
    assert_eq!(
        importer
            .parse_line("[impl->dsn~auth~4294967295]", "a.rs", 1)
            .unwrap()[0]
            .covers[0]
            .revision,
        4294967295
    );
}

#[test]
fn items_from_capture_groups() {
    let location = Location::new("src/a.rs".to_string(), 2);
    let full = groups(&[
        Some("[impl->dsn~auth~1>>utest]"),
        Some("impl"),
        None,
        None,
        Some("dsn"),
        Some("auth"),
        Some("1"),
        Some("utest, itest"),
    ]);
    let item = item_from_full_tag(&full, &location, 42).unwrap().unwrap();
    assert_eq!(item.id, id("impl", "auth-42", 0));
    assert_eq!(item.covers, vec![id("dsn", "auth", 1)]);
    assert_eq!(item.needs, vec!["utest", "itest"]);
    assert_eq!(item.location, Some(Location::new("src/a.rs".to_string(), 2)));

    let named = groups(&[
        Some("x"),
        Some("impl"),
        Some("form"),
        Some("5"),
        Some("dsn"),
        Some("auth"),
        Some("1"),
        None,
    ]);
    let item = item_from_full_tag(&named, &location, 42).unwrap().unwrap();
    assert_eq!(item.id, id("impl", "form", 5));
    assert!(item.needs.is_empty());

    let lacking = groups(&[Some("x"), Some("impl"), None, None, Some("dsn"), None, Some("1")]);
    assert!(item_from_full_tag(&lacking, &location, 42).unwrap().is_none());
    assert!(item_from_full_tag(&Vec::new(), &location, 42).unwrap().is_none());

    let unreadable = groups(&[
        Some("x"),
        Some("impl"),
        Some("form"),
        Some("five"),
        Some("dsn"),
        Some("auth"),
        Some("one"),
    ]);
    match item_from_full_tag(&unreadable, &location, 42) {
        Err(Error::Parse { message, location }) => {
            assert_eq!(message, "Invalid revision number: one");
            assert_eq!(location, "src/a.rs:2");
        }
        other => panic!("{:?}", other),
    }

    let short = groups(&[Some("x"), Some("req"), Some("login"), Some("3"), Some("utest")]);
    let item = item_from_short_tag(&short, &location, 0).unwrap().unwrap();
    assert_eq!(item.id, id("utest", "login-0", 0));
    assert_eq!(item.covers, vec![id("req", "login", 3)]);
    let short = groups(&[Some("x"), Some("req"), Some("login"), Some("3")]);
    assert!(item_from_short_tag(&short, &location, 0).unwrap().is_none());
}

#[test]
fn needs_list_is_trimmed_and_empty_entries_dropped() {
    let importer = TagImporter::new().unwrap();
    assert_eq!(importer.parse_needs_list("impl,test"), vec!["impl", "test"]);
    assert_eq!(importer.parse_needs_list("  impl ,, \t test ,"), vec!["impl", "test"]);
    assert_eq!(importer.parse_needs_list("a b"), vec!["a b"]);
    assert!(importer.parse_needs_list("").is_empty());
    assert!(importer.parse_needs_list(" , ,").is_empty());
}

#[test]
fn files_are_imported_in_order() {
    let importer = TagImporter::with_config(Config::empty()).unwrap();
    let files = vec![
        SourceFile { path: "b.rs".to_string(), content: "[impl->dsn~b~1]\n".to_string() },
        SourceFile { path: "a.rs".to_string(), content: "\n[impl->dsn~a~1]".to_string() },
    ];
    let items = importer.import_from_directory(&files).unwrap();
    assert_eq!(items.len(), 2);
    assert_eq!(items[0].location, Some(Location::new("b.rs".to_string(), 1)));
    assert_eq!(items[1].location, Some(Location::new("a.rs".to_string(), 2)));
    assert!(importer.import_from_directory(&Vec::new()).unwrap().is_empty());
    assert!(importer.should_scan_file("src/main.rs"));
    assert!(!importer.should_scan_file("src/main.java"));
    assert!(!importer.should_scan_file(".git/hooks/x.rs"));
}
