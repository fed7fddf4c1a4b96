use ovft_core::{
    CoverageStatus, DefectType, Error, ItemStatus, LinkStatus, LinkedSpecificationItem, Location,
    SpecificationItem, SpecificationItemId,
};

#[test]
fn test_specification_item_id_parse() {
    let id = SpecificationItemId::parse("req~user-login~1").unwrap();
    assert_eq!(id.artifact_type, "req");
    assert_eq!(id.name, "user-login");
    assert_eq!(id.revision, 1);
}

#[test]
fn test_specification_item_id_display() {
    let id = SpecificationItemId::new("dsn".to_string(), "validate-input".to_string(), 2);
    assert_eq!(id.to_string(), "dsn~validate-input~2");
}

#[test]
fn test_specification_item_builder() {
    let id = SpecificationItemId::new("feat".to_string(), "authentication".to_string(), 1);
    let item = SpecificationItem::builder(id.clone())
        .title("User Authentication".to_string())
        .description("The system shall support user authentication".to_string())
        .needs("req".to_string())
        .tag("security".to_string())
        .build();

    assert_eq!(item.id, id);
    assert_eq!(item.title, Some("User Authentication".to_string()));
    assert_eq!(item.needs, vec!["req"]);
    assert_eq!(item.tags, vec!["security"]);
}

#[test]
fn parse_and_display_round_trip() {
    for (artifact_type, name, revision) in [
        ("req", "user-login", 1u32),
        ("dsn", "a.b_c-d", 0),
        ("utest", "x", 4294967295),
        ("", "", 10),
    ] {
        let id = SpecificationItemId::new(artifact_type.to_string(), name.to_string(), revision);
        let parsed = SpecificationItemId::parse(&id.to_string()).unwrap();
        assert_eq!(parsed, id);
    }
    let odd = SpecificationItemId::new("a~b".to_string(), "c".to_string(), 1);
    assert_eq!(odd.to_string(), "a~b~c~1");
    assert!(SpecificationItemId::parse(&odd.to_string()).is_err());
}

#[test]
fn parse_rejects_what_is_no_identifier() {
    for text in [
        "",
        "req",
        "req~x",
        "req~x~1~2",
        "req~x~",
        "req~x~one",
        "req~x~-1",
        "req~x~1 ",
        "req~x~4294967296",
        "req~x~+",
        "req~x~1.0",
    ] {
        match SpecificationItemId::parse(text) {
            Err(Error::InvalidId(message)) => assert!(message.contains(text)),
            other => panic!("{:?} gave {:?}", text, other),
        }
    }
    assert_eq!(
        SpecificationItemId::parse("req~x~+7").unwrap(),
        SpecificationItemId::new("req".to_string(), "x".to_string(), 7)
    );
    assert_eq!(
        SpecificationItemId::parse("req~x~007").unwrap(),
        SpecificationItemId::new("req".to_string(), "x".to_string(), 7)
    );
    match SpecificationItemId::parse("req~x") {
        Err(Error::InvalidId(message)) => assert_eq!(
            message,
            "Invalid ID format 'req~x'. Expected format: 'type~name~revision'"
        ),
        other => panic!("{:?}", other),
    }
    match SpecificationItemId::parse("req~x~y") {
        Err(Error::InvalidId(message)) => {
            assert_eq!(message, "Invalid revision number 'y' in ID 'req~x~y'")
        }
        other => panic!("{:?}", other),
    }
}

#[test]
fn new_item_has_defaults() {
    let id = SpecificationItemId::new("req".to_string(), "my_first-item".to_string(), 1);
    let item = SpecificationItem::new(id.clone());
    assert_eq!(item.id, id);
    assert_eq!(item.title, None);
    assert_eq!(item.description, None);
    assert_eq!(item.rationale, None);
    assert_eq!(item.comment, None);
    assert_eq!(item.status, ItemStatus::Approved);
    assert_eq!(ItemStatus::default(), ItemStatus::Approved);
    assert!(item.tags.is_empty());
    assert!(item.needs.is_empty());
    assert!(item.covers.is_empty());
    assert!(item.depends.is_empty());
    assert_eq!(item.location, None);
    assert!(item.is_terminating());
    assert_eq!(item.title_or_fallback(), "my first item");
    assert_eq!(item.clone(), item);
}

#[test]
fn builder_accumulates_every_field() {
    let a = SpecificationItemId::new("req".to_string(), "a".to_string(), 1);
    let b = SpecificationItemId::new("req".to_string(), "b".to_string(), 2);
    let c = SpecificationItemId::new("req".to_string(), "c".to_string(), 3);
    let item = SpecificationItem::builder(a.clone())
        .title("T".to_string())
        .description("D".to_string())
        .rationale("R".to_string())
        .comment("C".to_string())
        .status(ItemStatus::Draft)
        .tag("t1".to_string())
        .tags(vec!["t2".to_string(), "t3".to_string()])
        .needs("n1".to_string())
        .needs_multiple(vec!["n2".to_string()])
        .covers(b.clone())
        .covers_multiple(vec![c.clone(), a.clone()])
        .depends(c.clone())
        .location(Location::new("docs/a.md".to_string(), 12))
        .build();
    assert_eq!(item.title, Some("T".to_string()));
    assert_eq!(item.description, Some("D".to_string()));
    assert_eq!(item.rationale, Some("R".to_string()));
    assert_eq!(item.comment, Some("C".to_string()));
    assert_eq!(item.status, ItemStatus::Draft);
    assert_eq!(item.tags, vec!["t1", "t2", "t3"]);
    assert_eq!(item.needs, vec!["n1", "n2"]);
    assert_eq!(item.covers, vec![b, c.clone(), a]);
    assert_eq!(item.depends, vec![c]);
    assert_eq!(item.location, Some(Location::new("docs/a.md".to_string(), 12)));
    assert!(!item.is_terminating());
    assert_eq!(item.title_or_fallback(), "T");
}

#[test]
fn texts_of_states_and_locations() {
    assert_eq!(ItemStatus::Draft.to_string(), "draft");
    assert_eq!(ItemStatus::Proposed.to_string(), "proposed");
    assert_eq!(ItemStatus::Approved.to_string(), "approved");
    assert_eq!(ItemStatus::Rejected.to_string(), "rejected");
    assert_eq!(LinkStatus::Covers.to_string(), "covers");
    assert_eq!(LinkStatus::Predated.to_string(), "predated");
    assert_eq!(LinkStatus::Outdated.to_string(), "outdated");
    assert_eq!(LinkStatus::Ambiguous.to_string(), "ambiguous");
    assert_eq!(LinkStatus::Unwanted.to_string(), "unwanted");
    assert_eq!(LinkStatus::Orphaned.to_string(), "orphaned");
    assert_eq!(LinkStatus::CoveredShallow.to_string(), "covered shallow");
    assert_eq!(LinkStatus::CoveredUnwanted.to_string(), "covered unwanted");
    assert_eq!(LinkStatus::CoveredPredated.to_string(), "covered predated");
    assert_eq!(LinkStatus::CoveredOutdated.to_string(), "covered outdated");
    assert_eq!(LinkStatus::Duplicate.to_string(), "duplicate");
    assert_eq!(CoverageStatus::Covered.to_string(), "covered");
    assert_eq!(CoverageStatus::Uncovered.to_string(), "uncovered");
    assert_eq!(CoverageStatus::Partial.to_string(), "partial");
    assert_eq!(DefectType::UncoveredItem.to_string(), "uncovered");
    assert_eq!(DefectType::OrphanedCoverage.to_string(), "orphaned");
    assert_eq!(DefectType::DuplicateItem.to_string(), "duplicate");
    assert_eq!(DefectType::WrongRevision.to_string(), "wrong-revision");
    assert_eq!(DefectType::CircularDependency.to_string(), "circular-dependency");
    assert_eq!(Location::new("src/lib.rs".to_string(), 10).to_string(), "src/lib.rs:10");
    assert_eq!(Location::new("".to_string(), 0).to_string(), ":0");
}

#[test]
fn linked_item_starts_empty_and_takes_links() {
    let id = SpecificationItemId::new("req".to_string(), "a-b".to_string(), 1);
    let other = SpecificationItemId::new("impl".to_string(), "c".to_string(), 2);
    let mut linked = LinkedSpecificationItem::new(SpecificationItem::new(id.clone()));
    assert_eq!(linked.id(), &id);
    assert_eq!(linked.title(), "a b");
    assert!(!linked.is_covered());
    assert_eq!(linked.coverage_status, CoverageStatus::Uncovered);
    assert!(!linked.is_defect);
    assert!(linked.outgoing_links.is_empty());
    assert!(linked.incoming_links.is_empty());

    linked.add_outgoing_link(other.clone(), LinkStatus::Orphaned);
    linked.add_incoming_link(other.clone(), LinkStatus::CoveredShallow);
    assert_eq!(linked.outgoing_links.len(), 1);
    assert_eq!(linked.outgoing_links[0].source_id, Some(id.clone()));
    assert_eq!(linked.outgoing_links[0].target_id, other);
    assert_eq!(linked.outgoing_links[0].status, LinkStatus::Orphaned);
    assert_eq!(linked.incoming_links.len(), 1);
    assert_eq!(linked.incoming_links[0].source_id, Some(other.clone()));
    assert_eq!(linked.incoming_links[0].target_id, id);
    assert_eq!(linked.incoming_links[0].status, LinkStatus::CoveredShallow);

    linked.coverage_status = CoverageStatus::Covered;
    assert!(linked.is_covered());
}
