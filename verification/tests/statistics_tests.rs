use ovft_core::statistics::{add_need, needed_types};
use ovft_core::{
    Config, Defect, DefectType, SpecificationItem, SpecificationItemId, TraceResult, Tracer,
};

fn id(artifact_type: &str, name: &str, revision: u32) -> SpecificationItemId {
    SpecificationItemId::new(artifact_type.to_string(), name.to_string(), revision)
}

fn trace(items: Vec<SpecificationItem>) -> TraceResult {
    Tracer::new(Config::empty()).unwrap().trace_items(items)
}

fn defect(kind: DefectType, description: &str) -> Defect {
    Defect { defect_type: kind, description: description.to_string(), item_id: None }
}

fn result_with(defects: Vec<Defect>) -> TraceResult {
    TraceResult {
        items: Vec::new(),
        total_items: 0,
        defect_count: defects.len(),
        defects,
        coverage_summary: Vec::new(),
        is_success: false,
    }
}

#[test]
fn items_are_grouped_by_type_in_order() {
    let result = trace(vec![
        SpecificationItem::new(id("req", "a", 1)),
        SpecificationItem::new(id("impl", "b", 1)),
        SpecificationItem::new(id("req", "c", 1)),
        SpecificationItem::new(id("utest", "d", 1)),
        SpecificationItem::new(id("impl", "e", 1)),
    ]);
    let groups = result.items_by_artifact_type();
    let shape: Vec<(String, Vec<String>)> = groups
        .iter()
        .map(|(t, items)| (t.clone(), items.iter().map(|i| i.item.id.name.clone()).collect()))
        .collect();
    assert_eq!(
        shape,
        vec![
            ("req".to_string(), vec!["a".to_string(), "c".to_string()]),
            ("impl".to_string(), vec!["b".to_string(), "e".to_string()]),
            ("utest".to_string(), vec!["d".to_string()]),
        ]
    );
    assert!(trace(Vec::new()).items_by_artifact_type().is_empty());
}

#[test]
fn defects_are_counted_by_kind() {
    let result = result_with(vec![
        defect(DefectType::WrongRevision, "a"),
        defect(DefectType::UncoveredItem, "b"),
        defect(DefectType::WrongRevision, "c"),
        defect(DefectType::DuplicateItem, "d"),
        defect(DefectType::WrongRevision, "e"),
    ]);
    assert_eq!(
        result.defect_statistics(),
        vec![
            (DefectType::WrongRevision, 3),
            (DefectType::UncoveredItem, 1),
            (DefectType::DuplicateItem, 1),
        ]
    );
    assert!(result_with(Vec::new()).defect_statistics().is_empty());
}

#[test]
fn messages_count_needs_by_type_and_other_sorts() {
    let result = trace(vec![
        SpecificationItem::builder(id("req", "a", 1))
            .needs("utest".to_string())
            .needs("impl".to_string())
            .build(),
        SpecificationItem::builder(id("req", "b", 1))
            .needs("impl".to_string())
            .covers(id("feat", "gone", 1))
            .build(),
        SpecificationItem::builder(id("impl", "c", 1))
            .covers(id("feat", "gone", 2))
            .build(),
    ]);
    assert_eq!(result.defect_count, 3);
    assert_eq!(
        result.defect_statistics_messages(),
        vec![
            "2 item(s) need coverage by impl",
            "1 item(s) need coverage by utest",
            "1 item(s) have orphaned coverage",
        ]
    );
    assert_eq!(result.defect_statistics(), vec![(DefectType::UncoveredItem, 3)]);

    let result = result_with(vec![
        defect(DefectType::OrphanedCoverage, "x"),
        defect(DefectType::DuplicateItem, "x"),
        defect(DefectType::DuplicateItem, "needs coverage by impl"),
        defect(DefectType::WrongRevision, "x"),
        defect(DefectType::CircularDependency, "x"),
        defect(DefectType::UncoveredItem, "nothing to count"),
        defect(DefectType::UncoveredItem, "needs coverage by"),
        defect(DefectType::UncoveredItem, "Item a needs coverage by  b , a,,b ; c"),
    ]);
    assert_eq!(
        result.defect_statistics_messages(),
        vec![
            "1 item(s) need coverage by ",
            "1 item(s) need coverage by a",
            "2 item(s) need coverage by b",
            "1 item(s) have orphaned coverage",
            "2 duplicate item(s) found",
            "1 item(s) cover wrong revision",
            "1 circular dependenc(ies) detected",
        ]
    );
    assert!(result_with(Vec::new()).defect_statistics_messages().is_empty());
}

#[test]
fn needed_types_of_a_description() {
    assert_eq!(
        needed_types(&"Item req~a~1 needs coverage by impl, utest".to_string()),
        vec!["impl", "utest"]
    );
    assert_eq!(
        needed_types(&"x has multiple issues: needs coverage by dsn; other".to_string()),
        vec!["dsn"]
    );
    assert_eq!(needed_types(&"needs coverage by ".to_string()), vec![""]);
    assert!(needed_types(&"needs coverage by".to_string()).is_empty());
    assert!(needed_types(&"".to_string()).is_empty());

    let mut needs: Vec<(String, usize)> = Vec::new();
    for key in ["m", "b", "z", "b", "a", "m", "m"] {
        add_need(&mut needs, key.to_string());
    }
    assert_eq!(
        needs,
        vec![
            ("a".to_string(), 1),
            ("b".to_string(), 2),
            ("m".to_string(), 3),
            ("z".to_string(), 1),
        ]
    );
}
