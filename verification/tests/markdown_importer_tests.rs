use ovft_core::markdown_importer::{
    apply_line_to, assemble_items, extract_heading_text, finish_draft, is_heading,
    reference_from, status_from_word, title_from_heading, Draft, Keyword, MarkdownLine, Section,
};
use ovft_core::{
    Config, Error, ItemStatus, Location, MarkdownImporter, SourceFile, SpecificationItem,
    SpecificationItemId,
};

fn id(artifact_type: &str, name: &str, revision: u32) -> SpecificationItemId {
    SpecificationItemId::new(artifact_type.to_string(), name.to_string(), revision)
}

fn parse(content: &str) -> Vec<SpecificationItem> {
    MarkdownImporter::new()
        .unwrap()
        .parse_markdown(content, "docs/items.md")
        .unwrap()
}

#[test]
fn test_parse_simple_requirement() {
    let importer = MarkdownImporter::new().unwrap();
    let content = r#"
# User Authentication
`req~user-authentication~1`

The system shall support user authentication with username and password.

Needs: dsn, impl, utest
Tags: security, login
Status: approved
"#;

    let items = importer.parse_markdown(content, "docs/auth.md").unwrap();
    assert_eq!(items.len(), 1);

    let item = &items[0];
    assert_eq!(item.id.artifact_type, "req");
    assert_eq!(item.id.name, "user-authentication");
    assert_eq!(item.id.revision, 1);
    assert_eq!(item.title, Some("User Authentication".to_string()));
    assert!(item.description.is_some());
    assert_eq!(item.needs, vec!["dsn", "impl", "utest"]);
    assert_eq!(item.tags, vec!["security", "login"]);
    assert_eq!(item.status, ItemStatus::Approved);
}

#[test]
fn test_parse_requirement_with_covers() {
    let importer = MarkdownImporter::new().unwrap();
    let content = r#"
`dsn~authentication-service~1`

The authentication service validates user credentials.

Covers:
- req~user-authentication~1
- req~password-validation~1

Needs: impl, utest
"#;

    let items = importer.parse_markdown(content, "docs/auth.md").unwrap();
    assert_eq!(items.len(), 1);

    let item = &items[0];
    assert_eq!(item.covers.len(), 2);
    assert_eq!(item.covers[0].name, "user-authentication");
    assert_eq!(item.covers[1].name, "password-validation");
}

#[test]
fn test_parse_requirement_with_rationale() {
    let importer = MarkdownImporter::new().unwrap();
    let content = r#"
`req~secure-password~1`

Passwords must be at least 8 characters long.

Rationale:
This requirement ensures basic password security and reduces the risk
of brute force attacks.

Comment:
Consider implementing additional password complexity requirements
in future versions.

Needs: dsn
"#;

    let items = importer.parse_markdown(content, "docs/auth.md").unwrap();
    assert_eq!(items.len(), 1);

    let item = &items[0];
    assert!(item.rationale.is_some());
    assert!(item.comment.is_some());
    assert!(item
        .rationale
        .as_ref()
        .unwrap()
        .contains("password security"));
    assert!(item.comment.as_ref().unwrap().contains("future versions"));
}

#[test]
fn markdown_importer_test_import_from_file() {
    let importer = MarkdownImporter::new().unwrap();
    let mut content = String::new();
    content.push_str("# Requirements Document\n");
    content.push_str("\n");
    content.push_str("## Authentication\n");
    content.push_str("`req~auth~1`\n");
    content.push_str("\n");
    content.push_str("User authentication is required.\n");
    content.push_str("\n");
    content.push_str("Needs: dsn\n");

    let items = importer.import_from_file(&content, "docs/requirements.md").unwrap();
    assert_eq!(items.len(), 1);

    let item = &items[0];
    assert_eq!(item.id.name, "auth");
    assert_eq!(item.title, Some("Authentication".to_string()));
    assert_eq!(item.needs, vec!["dsn"]);
}

#[test]
fn every_attribute_of_an_item_is_read() {
    let items = parse(
        "intro\n\
         ## Login\n\
         The item `req~login~2` is declared here.\n\
         First line.\n\
         \n\
         - a bullet in the description\n\
         Second line.\n\
         **Needs:** dsn , impl\n\
         Covers: feat~auth~1, feat~session~3 and text, nothing, feat~big~99999999999\n\
         Tags: a, b\n\
         tags: c\n\
         Status: DRAFT\n\
         Rationale:\n\
         Because.\n\
         \n\
         + still rationale\n\
         Comment:\n\
         \n\
         Remark one.\n\
         \n\
         Remark two.\n\
         \n\
         Covers:\n\
         - feat~more~1\n\
         * feat~other~2 with words\n\
         - no reference here\n\
         text in covers goes to the description\n\
         Depends:\n\
         + dsn~base~1\n\
         \n\
         - dsn~tool~4\n",
    );
    assert_eq!(items.len(), 1);
    let item = &items[0];
    assert_eq!(item.id, id("req", "login", 2));
    assert_eq!(item.title, Some("Login".to_string()));
    assert_eq!(item.location, Some(Location::new("docs/items.md".to_string(), 3)));
    assert_eq!(
        item.description,
        Some(
            "First line.\n- a bullet in the description\nSecond line.\n\
             text in covers goes to the description"
                .to_string()
        )
    );
    assert_eq!(item.needs, vec!["dsn", "impl"]);
    assert_eq!(item.tags, vec!["a", "b", "c"]);
    assert_eq!(item.status, ItemStatus::Draft);
    assert_eq!(item.rationale, Some("Because.\n\n+ still rationale".to_string()));
    assert_eq!(item.comment, Some("Remark one.\n\nRemark two.".to_string()));
    assert_eq!(
        item.covers,
        vec![
            id("feat", "auth", 1),
            id("feat", "session", 3),
            id("feat", "more", 1),
            id("feat", "other", 2),
        ]
    );
    assert_eq!(item.depends, vec![id("dsn", "base", 1), id("dsn", "tool", 4)]);
}

#[test]
fn a_declaration_ends_the_item_before_it() {
    let items = parse(
        "`req~a~1`\n\
         text of a\n\
         Needs: impl\n\
         ## dsn~b~2 Design of b\n\
         text of b\n\
         `req~c~3` and `req~ignored~4` on one line\n\
         `req~d~4`\n",
    );
    assert_eq!(items.len(), 4);
    assert_eq!(items[0].id, id("req", "a", 1));
    assert_eq!(items[0].description, Some("text of a".to_string()));
    assert_eq!(items[0].needs, vec!["impl"]);
    assert_eq!(items[0].title, None);
    assert_eq!(items[1].id, id("dsn", "b", 2));
    assert_eq!(items[1].title, Some("Design of b".to_string()));
    assert_eq!(items[1].description, Some("text of b".to_string()));
    assert_eq!(items[1].location, Some(Location::new("docs/items.md".to_string(), 4)));
    assert_eq!(items[2].id, id("req", "c", 3));
    assert_eq!(items[2].description, None);
    assert_eq!(items[3].id, id("req", "d", 4));
    assert_eq!(items[3].location, Some(Location::new("docs/items.md".to_string(), 7)));
}

#[test]
fn title_comes_from_the_heading_before_or_the_heading_itself() {
    let items = parse("# Chapter\n## req~a~1\n");
    assert_eq!(items[0].title, Some("Chapter".to_string()));

    let items = parse("## req~a~1\n");
    assert_eq!(items[0].title, Some("req~a~1".to_string()));

    let items = parse("text\n##   The req~a~1 login rule  \n");
    assert_eq!(items[0].title, Some("The  login rule".to_string()));

    let items = parse("text\n## req~a~01 padded\n");
    assert_eq!(items[0].id, id("req", "a", 1));
    assert_eq!(items[0].title, Some("req~a~01 padded".to_string()));

    let items = parse("text\n`req~a~1`\n");
    assert_eq!(items[0].title, None);

    let items = parse("req~a~1 outside a heading and without backticks\n");
    assert!(items.is_empty());
}

#[test]
fn status_words() {
    for (line, status) in [
        ("Status: draft", ItemStatus::Draft),
        ("**Status:** Proposed", ItemStatus::Proposed),
        ("status:approved  ", ItemStatus::Approved),
        ("*Status:* REJECTED", ItemStatus::Rejected),
    ] {
        let items = parse(&format!("`req~a~1`\n{}\n", line));
        assert_eq!(items[0].status, status, "{}", line);
        assert_eq!(items[0].description, None, "{}", line);
    }
    let items = parse("`req~a~1`\nStatus: unknown\n");
    assert_eq!(items[0].status, ItemStatus::Approved);
    assert_eq!(items[0].description, Some("Status: unknown".to_string()));
    let items = parse("`req~a~1`\n Status: draft\n");
    assert_eq!(items[0].status, ItemStatus::Approved);

    assert_eq!(status_from_word(&"draft".to_string()), ItemStatus::Draft);
    assert_eq!(status_from_word(&"proposed".to_string()), ItemStatus::Proposed);
    assert_eq!(status_from_word(&"approved".to_string()), ItemStatus::Approved);
    assert_eq!(status_from_word(&"rejected".to_string()), ItemStatus::Rejected);
    assert_eq!(status_from_word(&"Draft".to_string()), ItemStatus::Approved);
    assert_eq!(status_from_word(&"".to_string()), ItemStatus::Approved);
}

#[test]
fn revision_that_does_not_fit_stops_the_document() {
    let importer = MarkdownImporter::new().unwrap();
    match importer.parse_markdown("ok\n\n`req~a~4294967296`\n", "docs/a.md") {
        Err(Error::Parse { message, location }) => {
            assert_eq!(message, "Invalid revision number: 4294967296");
            assert_eq!(location, "docs/a.md:3");
        }
        other => panic!("{:?}", other),
    }
    assert!(importer
        .parse_markdown("`req~a~1`\n# req~b~99999999999\n", "docs/a.md")
        .is_err());
    assert!(importer.parse_markdown("", "docs/a.md").unwrap().is_empty());
    let files = vec![
        SourceFile { path: "a.md".to_string(), content: "`req~a~1`\n".to_string() },
        SourceFile { path: "b.md".to_string(), content: "`req~b~1`\r\n`req~c~1`".to_string() },
    ];
    let items = importer.import_from_directory(&files).unwrap();
    assert_eq!(items.len(), 3);
    assert_eq!(items[2].location, Some(Location::new("b.md".to_string(), 2)));
    let broken = vec![
        SourceFile { path: "a.md".to_string(), content: "`req~a~1`\n".to_string() },
        SourceFile { path: "b.md".to_string(), content: "`req~b~4294967296`".to_string() },
    ];
    assert!(importer.import_from_directory(&broken).is_err());
}

#[test]
fn headings_and_their_text() {
    assert!(is_heading("# Title"));
    assert!(is_heading("   ### Title"));
    assert!(is_heading("#"));
    assert!(!is_heading("Title # here"));
    assert!(!is_heading(""));
    assert_eq!(extract_heading_text("# Title"), "Title");
    assert_eq!(extract_heading_text("  ###   Two words  "), "Two words");
    assert_eq!(extract_heading_text("#"), "");
    assert_eq!(extract_heading_text("## # inner"), "# inner");
    assert_eq!(
        title_from_heading(&"Login req~a~1 rule".to_string(), &"req~a~1".to_string()),
        "Login  rule"
    );
    assert_eq!(
        title_from_heading(&"req~a~1".to_string(), &"req~a~1".to_string()),
        "req~a~1"
    );
    assert_eq!(
        title_from_heading(&"No identifier".to_string(), &"req~a~1".to_string()),
        "No identifier"
    );
}

#[test]
fn classification_of_lines() {
    let importer = MarkdownImporter::new().unwrap();
    let line = importer.classify_line("  - covers `req~a~1` somehow");
    assert_eq!(line.text, "  - covers `req~a~1` somehow");
    assert!(line.is_bullet);
    assert!(!line.is_blank);
    assert!(!line.is_heading);
    assert!(line.declares_id);
    assert_eq!(
        line.declared_id,
        Some(vec![
            Some("`req~a~1`".to_string()),
            Some("req".to_string()),
            Some("a".to_string()),
            Some("1".to_string()),
        ])
    );
    assert_eq!(line.reference, Some(id("req", "a", 1)));
    assert!(matches!(line.keyword, Keyword::Text));

    let line = importer.classify_line("## dsn~b~2 Title");
    assert!(line.is_heading);
    assert_eq!(line.heading_text, "dsn~b~2 Title");
    assert!(line.heading_declares_id);
    assert!(line.heading_id.is_some());
    assert!(!line.declares_id);
    assert!(line.declared_id.is_none());

    let line = importer.classify_line("   \t");
    assert!(line.is_blank);
    assert!(!line.is_bullet);

    match importer.classify_line("NEEDS: impl, utest").keyword {
        Keyword::Needs(list) => assert_eq!(list, vec!["impl", "utest"]),
        other => panic!("{:?}", other),
    }
    match importer.classify_line("Covers: req~a~1, nothing, req~b~2").keyword {
        Keyword::CoversInline(ids) => assert_eq!(ids, vec![id("req", "a", 1), id("req", "b", 2)]),
        other => panic!("{:?}", other),
    }
    assert!(matches!(importer.classify_line("Covers:").keyword, Keyword::CoversHeader));
    assert!(matches!(importer.classify_line("**Depends:**").keyword, Keyword::DependsHeader));
    assert!(matches!(importer.classify_line("Rationale:").keyword, Keyword::RationaleHeader));
    assert!(matches!(importer.classify_line("comment:").keyword, Keyword::CommentHeader));
    assert!(matches!(importer.classify_line("Needs:").keyword, Keyword::Text));
    match importer.classify_line("Tags: x").keyword {
        Keyword::Tags(list) => assert_eq!(list, vec!["x"]),
        other => panic!("{:?}", other),
    }
    match importer.classify_line("Status: Rejected").keyword {
        Keyword::Status(status) => assert_eq!(status, ItemStatus::Rejected),
        other => panic!("{:?}", other),
    }

    assert_eq!(importer.parse_list(" a , b,,c "), vec!["a", "b", "c"]);
    assert_eq!(
        importer.parse_covers_list("req~a~1 ,x, see dsn~b~2 there"),
        vec![id("req", "a", 1), id("dsn", "b", 2)]
    );
    assert_eq!(importer.extract_item_reference("- req~a~1 and req~b~2"), Some(id("req", "a", 1)));
    assert_eq!(importer.extract_item_reference("- none"), None);
    assert_eq!(importer.extract_item_reference("- req~a~99999999999"), None);
    assert!(importer.is_markdown_file("docs/a.MD"));
    assert!(!importer.is_markdown_file("docs/a.rs"));
    let other = MarkdownImporter::with_config(Config::empty()).unwrap();
    assert!(other.is_markdown_file("a.markdown"));
}

fn plain(text: &str) -> MarkdownLine {
    MarkdownLine {
        text: text.to_string(),
        is_heading: false,
        heading_text: String::new(),
        is_bullet: false,
        is_blank: text.trim().is_empty(),
        declared_id: None,
        declares_id: false,
        heading_id: None,
        heading_declares_id: false,
        keyword: Keyword::Text,
        reference: None,
    }
}

fn groups(texts: &[&str]) -> Option<Vec<Option<String>>> {
    Some(texts.iter().map(|s| Some(s.to_string())).collect())
}

#[test]
fn items_are_assembled_from_classified_lines() {
    let mut declaration = plain("`req~a~1`");
    declaration.declares_id = true;
    declaration.declared_id = groups(&["`req~a~1`", "req", "a", "1"]);
    let mut needs = plain("Needs: impl");
    needs.keyword = Keyword::Needs(vec!["impl".to_string()]);
    let mut heading = plain("# dsn~b~2 Title");
    heading.is_heading = true;
    heading.heading_text = "dsn~b~2 Title".to_string();
    heading.heading_declares_id = true;
    heading.heading_id = groups(&["dsn~b~2", "dsn", "b", "2"]);
    let mut incomplete = plain("`x`");
    incomplete.declared_id = Some(vec![Some("x".to_string()), None]);

    let lines = vec![
        plain("before"),
        declaration,
        plain("text"),
        plain(""),
        needs,
        incomplete,
        heading,
        plain("more"),
    ];
    let items = assemble_items(&lines, "a.md").unwrap();
    assert_eq!(items.len(), 2);
    assert_eq!(items[0].id, id("req", "a", 1));
    assert_eq!(items[0].description, Some("text\n`x`".to_string()));
    assert_eq!(items[0].needs, vec!["impl"]);
    assert_eq!(items[0].location, Some(Location::new("a.md".to_string(), 2)));
    assert_eq!(items[1].id, id("dsn", "b", 2));
    assert_eq!(items[1].title, Some("Title".to_string()));
    assert_eq!(items[1].description, Some("more".to_string()));
    assert_eq!(items[1].location, Some(Location::new("a.md".to_string(), 7)));

    let mut unreadable = plain("`req~a~x`");
    unreadable.declared_id = groups(&["`req~a~x`", "req", "a", "x"]);
    match assemble_items(&vec![unreadable], "a.md") {
        Err(Error::Parse { message, location }) => {
            assert_eq!(message, "Invalid revision number: x");
            assert_eq!(location, "a.md:1");
        }
        other => panic!("{:?}", other),
    }
    assert!(assemble_items(&Vec::new(), "a.md").unwrap().is_empty());
}

#[test]
fn lines_are_applied_to_a_draft() {
    let mut draft = Draft {
        builder: SpecificationItem::builder(id("req", "a", 1)),
        section: Section::Description,
        description: String::new(),
        rationale: String::new(),
        comment: String::new(),
        covers_list: Vec::new(),
        depends_list: Vec::new(),
    };
    draft = apply_line_to(draft, &plain("one"));
    draft = apply_line_to(draft, &plain("  "));
    let mut header = plain("Covers:");
    header.keyword = Keyword::CoversHeader;
    draft = apply_line_to(draft, &header);
    assert_eq!(draft.section, Section::Covers);
    let mut bullet = plain("- req~b~1");
    bullet.is_bullet = true;
    bullet.reference = Some(id("req", "b", 1));
    draft = apply_line_to(draft, &bullet);
    let mut empty_bullet = plain("- nothing");
    empty_bullet.is_bullet = true;
    draft = apply_line_to(draft, &empty_bullet);
    let mut header = plain("Depends:");
    header.keyword = Keyword::DependsHeader;
    draft = apply_line_to(draft, &header);
    bullet.reference = Some(id("req", "c", 1));
    draft = apply_line_to(draft, &bullet);
    let mut header = plain("Rationale:");
    header.keyword = Keyword::RationaleHeader;
    draft = apply_line_to(draft, &header);
    draft = apply_line_to(draft, &plain("why"));
    draft = apply_line_to(draft, &plain(" "));
    draft = apply_line_to(draft, &bullet);
    let mut inline = plain("Covers: req~d~1");
    inline.keyword = Keyword::CoversInline(vec![id("req", "d", 1)]);
    draft = apply_line_to(draft, &inline);
    let mut status = plain("Status: draft");
    status.keyword = Keyword::Status(ItemStatus::Rejected);
    draft = apply_line_to(draft, &status);

    assert_eq!(draft.description, "one\n");
    assert_eq!(draft.rationale, "why\n\n- req~b~1\n");
    assert_eq!(draft.comment, "");
    assert_eq!(draft.covers_list, vec![id("req", "b", 1)]);
    assert_eq!(draft.depends_list, vec![id("req", "c", 1)]);

    let item = finish_draft(draft);
    assert_eq!(item.description, Some("one".to_string()));
    assert_eq!(item.rationale, Some("why\n\n- req~b~1".to_string()));
    assert_eq!(item.comment, None);
    assert_eq!(item.covers, vec![id("req", "d", 1), id("req", "b", 1)]);
    assert_eq!(item.depends, vec![id("req", "c", 1)]);
    assert_eq!(item.status, ItemStatus::Rejected);
}

#[test]
fn identifiers_are_read_from_capture_groups() {
    assert_eq!(reference_from(&groups(&["req~a~1", "req", "a", "1"])), Some(id("req", "a", 1)));
    assert_eq!(reference_from(&groups(&["req~a~x", "req", "a", "x"])), None);
    assert_eq!(reference_from(&groups(&["req~a", "req", "a"])), None);
    assert_eq!(reference_from(&Some(vec![Some("x".to_string()), None, None, None])), None);
    assert_eq!(reference_from(&None), None);
}
