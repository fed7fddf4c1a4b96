use ovft_core::{
    CoverageStatus, LinkStatus, LinkedSpecificationItem, Linker, SpecificationItem,
    SpecificationItemId,
};

fn id(artifact_type: &str, name: &str, revision: u32) -> SpecificationItemId {
    SpecificationItemId::new(artifact_type.to_string(), name.to_string(), revision)
}

fn link(items: Vec<SpecificationItem>) -> Vec<LinkedSpecificationItem> {
    Linker::new().link_items(items).unwrap()
}

#[test]
fn test_simple_linking() {
    let linker = Linker::new();

    let feat_id = SpecificationItemId::new("feat".to_string(), "login".to_string(), 1);
    let req_id = SpecificationItemId::new("req".to_string(), "login".to_string(), 1);

    let feat = SpecificationItem::builder(feat_id.clone())
        .needs("req".to_string())
        .build();

    let req = SpecificationItem::builder(req_id.clone())
        .covers(feat_id.clone())
        .build();

    let items = vec![feat, req];
    let linked_items = linker.link_items(items).unwrap();

    assert_eq!(linked_items.len(), 2);

    let feat_linked = linked_items
        .iter()
        .find(|li| li.item.id == feat_id)
        .unwrap();
    assert!(feat_linked.is_covered());

    let req_linked = linked_items.iter().find(|li| li.item.id == req_id).unwrap();
    assert!(req_linked
        .outgoing_links
        .iter()
        .any(|link| link.target_id == feat_id));
}

#[test]
fn covered_feature_and_terminating_requirement() {
    let feat = SpecificationItem::builder(id("feat", "login", 1))
        .needs("req".to_string())
        .build();
    let req = SpecificationItem::builder(id("req", "login", 1))
        .covers(id("feat", "login", 1))
        .build();
    let linked = link(vec![feat, req]);

    assert_eq!(linked[0].item.id, id("feat", "login", 1));
    assert_eq!(linked[0].coverage_status, CoverageStatus::Covered);
    assert!(!linked[0].is_defect);
    assert_eq!(linked[0].incoming_links.len(), 1);
    assert_eq!(linked[0].incoming_links[0].source_id, Some(id("req", "login", 1)));
    assert_eq!(linked[0].incoming_links[0].target_id, id("feat", "login", 1));
    assert_eq!(linked[0].incoming_links[0].status, LinkStatus::CoveredShallow);

    assert_eq!(linked[1].outgoing_links.len(), 1);
    assert_eq!(linked[1].outgoing_links[0].status, LinkStatus::Covers);
    assert_eq!(linked[1].outgoing_links[0].source_id, Some(id("req", "login", 1)));
    assert_eq!(linked[1].outgoing_links[0].target_id, id("feat", "login", 1));
    assert_eq!(linked[1].coverage_status, CoverageStatus::Covered);
    assert!(!linked[1].is_defect);
}

#[test]
fn uncovered_requirement_is_a_defect() {
    let req = SpecificationItem::builder(id("req", "x", 1))
        .needs("impl".to_string())
        .build();
    let linked = link(vec![req]);

    assert_eq!(linked[0].coverage_status, CoverageStatus::Uncovered);
    assert!(linked[0].is_defect);
    assert!(linked[0].outgoing_links.is_empty());
    assert!(linked[0].incoming_links.is_empty());
}

#[test]
fn item_without_needs_is_covered_whatever_covers_it() {
    let leaf = SpecificationItem::builder(id("impl", "leaf", 1)).build();
    let test = SpecificationItem::builder(id("utest", "leaf", 1))
        .covers(id("impl", "leaf", 1))
        .build();
    let alone = link(vec![SpecificationItem::builder(id("impl", "leaf", 1)).build()]);
    let linked = link(vec![leaf, test]);

    assert_eq!(alone[0].coverage_status, CoverageStatus::Covered);
    assert_eq!(linked[0].coverage_status, CoverageStatus::Covered);
    assert_eq!(linked[0].incoming_links.len(), 1);
    assert!(!linked[0].is_defect);
    assert_eq!(linked[1].outgoing_links[0].status, LinkStatus::Unwanted);
    assert!(!linked[1].is_defect);
}

#[test]
fn lower_revision_is_outdated_and_higher_is_predated() {
    let old = id("req", "x", 1);
    let new = id("req", "x", 2);

    let only_new = SpecificationItem::builder(new.clone())
        .needs("impl".to_string())
        .build();
    let refers_old = SpecificationItem::builder(id("impl", "a", 1))
        .covers(old.clone())
        .build();
    let linked = link(vec![only_new, refers_old]);
    assert_eq!(linked[1].outgoing_links[0].status, LinkStatus::Outdated);
    assert!(linked[1].is_defect);
    assert_eq!(linked[0].coverage_status, CoverageStatus::Uncovered);

    let only_old = SpecificationItem::builder(old.clone())
        .needs("impl".to_string())
        .build();
    let refers_new = SpecificationItem::builder(id("impl", "a", 1))
        .covers(new.clone())
        .build();
    let linked = link(vec![only_old, refers_new]);
    assert_eq!(linked[1].outgoing_links[0].status, LinkStatus::Predated);
    assert!(linked[1].is_defect);
}

#[test]
fn missing_name_is_orphaned_and_several_revisions_are_ambiguous() {
    let first = SpecificationItem::builder(id("req", "x", 1)).build();
    let third = SpecificationItem::builder(id("req", "x", 3)).build();
    let covering = SpecificationItem::builder(id("impl", "a", 1))
        .covers(id("req", "x", 2))
        .covers(id("req", "y", 1))
        .build();
    let linked = link(vec![first, third, covering]);

    assert_eq!(linked[2].outgoing_links.len(), 2);
    assert_eq!(linked[2].outgoing_links[0].status, LinkStatus::Ambiguous);
    assert_eq!(linked[2].outgoing_links[1].status, LinkStatus::Orphaned);
    assert!(linked[2].is_defect);
    assert!(linked[0].incoming_links.is_empty());
}

#[test]
fn duplicates_are_defects_with_a_link_to_themselves() {
    let a = SpecificationItem::builder(id("req", "x", 1)).build();
    let b = SpecificationItem::builder(id("req", "x", 1)).build();
    let other = SpecificationItem::builder(id("req", "y", 1)).build();
    let linked = link(vec![a, other, b]);

    for position in [0, 2] {
        assert!(linked[position].is_defect);
        assert_eq!(linked[position].outgoing_links.len(), 1);
        assert_eq!(linked[position].outgoing_links[0].status, LinkStatus::Duplicate);
        assert_eq!(linked[position].outgoing_links[0].target_id, id("req", "x", 1));
        assert_eq!(linked[position].outgoing_links[0].source_id, Some(id("req", "x", 1)));
    }
    assert!(!linked[1].is_defect);
    assert!(linked[1].outgoing_links.is_empty());
}

#[test]
fn some_needs_covered_is_partial() {
    let req = SpecificationItem::builder(id("req", "x", 1))
        .needs("impl".to_string())
        .needs("utest".to_string())
        .build();
    let implementation = SpecificationItem::builder(id("impl", "x", 1))
        .covers(id("req", "x", 1))
        .build();
    let linked = link(vec![req, implementation]);

    assert_eq!(linked[0].coverage_status, CoverageStatus::Partial);
    assert!(linked[0].is_defect);
    assert!(!linked[0].is_covered());
}

#[test]
fn coverage_by_another_type_does_not_count() {
    let req = SpecificationItem::builder(id("req", "x", 1))
        .needs("impl".to_string())
        .build();
    let test = SpecificationItem::builder(id("utest", "x", 1))
        .covers(id("req", "x", 1))
        .build();
    let linked = link(vec![req, test]);

    assert_eq!(linked[0].coverage_status, CoverageStatus::Uncovered);
    assert_eq!(linked[0].incoming_links.len(), 1);
    assert_eq!(linked[1].outgoing_links[0].status, LinkStatus::Covers);
}

#[test]
fn order_of_items_is_kept() {
    let names = ["c", "a", "b"];
    let items: Vec<SpecificationItem> = names
        .iter()
        .map(|name| SpecificationItem::builder(id("req", name, 1)).build())
        .collect();
    let linked = link(items);
    assert_eq!(linked.len(), 3);
    for (position, name) in names.iter().enumerate() {
        assert_eq!(linked[position].item.id.name, *name);
        assert_eq!(linked[position].id().name, *name);
    }
    assert!(link(Vec::new()).is_empty());
}

#[test]
fn link_status_is_decided_against_the_item_set() {
    let linker = Linker::new();
    let items = vec![
        SpecificationItem::builder(id("req", "x", 2))
            .needs("impl".to_string())
            .build(),
        SpecificationItem::builder(id("req", "leaf", 1)).build(),
    ];
    assert_eq!(linker.determine_link_status(&id("req", "x", 2), &items), LinkStatus::Covers);
    assert_eq!(linker.determine_link_status(&id("req", "leaf", 1), &items), LinkStatus::Unwanted);
    assert_eq!(linker.determine_link_status(&id("req", "x", 1), &items), LinkStatus::Outdated);
    assert_eq!(linker.determine_link_status(&id("req", "x", 3), &items), LinkStatus::Predated);
    assert_eq!(linker.determine_link_status(&id("dsn", "x", 2), &items), LinkStatus::Orphaned);
    assert_eq!(
        linker.determine_incoming_link_status(&id("req", "x", 2), &id("impl", "x", 1)),
        LinkStatus::CoveredShallow
    );
}

#[test]
fn a_defect_flag_that_is_set_stays_set() {
    let linker = Linker::new();
    let mut flagged = LinkedSpecificationItem::new(SpecificationItem::new(id("impl", "a", 1)));
    flagged.is_defect = true;
    let plain = LinkedSpecificationItem::new(SpecificationItem::new(id("impl", "b", 1)));
    let mut needy = LinkedSpecificationItem::new(
        SpecificationItem::builder(id("req", "c", 1))
            .needs("impl".to_string())
            .build(),
    );
    needy.coverage_status = CoverageStatus::Covered;
    let mut broken = LinkedSpecificationItem::new(SpecificationItem::new(id("impl", "d", 1)));
    broken.add_outgoing_link(id("req", "gone", 1), LinkStatus::Orphaned);
    let mut unwanted = LinkedSpecificationItem::new(SpecificationItem::new(id("impl", "e", 1)));
    unwanted.add_outgoing_link(id("impl", "b", 1), LinkStatus::Unwanted);
    let mut items = vec![flagged, plain, needy, broken, unwanted];

    linker.analyze_coverage(&mut items);

    assert_eq!(items[0].coverage_status, CoverageStatus::Covered);
    assert!(items[0].outgoing_links.is_empty());
    assert!(items[0].is_defect);
    assert_eq!(items[1].coverage_status, CoverageStatus::Covered);
    assert!(!items[1].is_defect);
    assert_eq!(items[2].coverage_status, CoverageStatus::Uncovered);
    assert!(items[2].is_defect);
    assert_eq!(items[3].coverage_status, CoverageStatus::Covered);
    assert!(items[3].is_defect);
    assert_eq!(items[4].coverage_status, CoverageStatus::Covered);
    assert!(!items[4].is_defect);

    linker.analyze_coverage(&mut items);
    let flags: Vec<bool> = items.iter().map(|item| item.is_defect).collect();
    assert_eq!(flags, vec![true, false, true, true, false]);
}
