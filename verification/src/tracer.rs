//! The trace: import, linking, and the analysis of the linked items into
//! defects with their descriptions and coverage per artifact type.

use crate::config::{names_markdown_file, Config};
use crate::error::{result_view, Error, ErrorView};
use crate::import::{append_items, SourceFile, SourceFileView};
use crate::linker::{
    all_needs_covered, lemma_type_is_covered_same_links, linked_spec, resolved_items, same_links,
    type_is_covered, Linker,
};
use crate::markdown_importer::{markdown_files_items, markdown_items, MarkdownImporter};
use crate::model::{
    id_text, CoverageStatus, Defect, DefectType, DefectView, IdView, ItemView, LinkStatus,
    LinkView, LinkedItemView, LinkedSpecificationItem, SpecificationItem,
};
use crate::tag_importer::{files_items, text_items, TagImporter};
use crate::text::{join_spec, join_strings};
use vstd::prelude::*;
use vstd::string::StringExecFns;

verus! {

/// The kinds of issue that a description lists for outgoing links, in the
/// order in which it lists them.
#[derive(Debug, Clone, Copy, PartialEq, Eq, Structural)]
pub enum IssueGroup {
    /// Links to items that do not exist.
    Orphaned,
    /// The duplicate link of an item whose identifier occurs twice.
    Duplicate,
    /// Links to another revision than the one that exists, or to a name
    /// that exists in several revisions.
    Revision,
}

/// The group that a link status is reported in, if it is reported at all.
pub open spec fn issue_group(status: LinkStatus) -> Option<IssueGroup> {
    match status {
        LinkStatus::Orphaned => Some(IssueGroup::Orphaned),
        LinkStatus::Duplicate => Some(IssueGroup::Duplicate),
        LinkStatus::Outdated => Some(IssueGroup::Revision),
        LinkStatus::Predated => Some(IssueGroup::Revision),
        LinkStatus::Ambiguous => Some(IssueGroup::Revision),
        _ => None,
    }
}

/// What a description says of one offending outgoing link of the item `id`.
pub open spec fn link_issue(id: IdView, link: LinkView) -> Seq<char> {
    match link.status {
        LinkStatus::Orphaned => "covers non-existing item "@ + id_text(link.target_id),
        LinkStatus::Duplicate => "has duplicate ID "@ + id_text(id),
        LinkStatus::Outdated => "covers outdated revision of "@ + id_text(link.target_id),
        LinkStatus::Predated => "covers newer revision of "@ + id_text(link.target_id),
        LinkStatus::Ambiguous => "has ambiguous reference to "@ + id_text(link.target_id),
        _ => Seq::empty(),
    }
}

/// The issues of one group among `links`, one per offending link, in link order.
pub open spec fn link_issues(id: IdView, links: Seq<LinkView>, group: IssueGroup) -> Seq<
    Seq<char>,
>
    decreases links.len(),
{
    if links.len() == 0 {
        Seq::empty()
    } else {
        let before = link_issues(id, links.drop_last(), group);
        if issue_group(links.last().status) == Some(group) {
            before.push(link_issue(id, links.last()))
        } else {
            before
        }
    }
}

/// The needed artifact types of `item` that are not satisfied within
/// `linked`, in the order in which the item declares them.
pub open spec fn unsatisfied_needs(linked: Seq<LinkedItemView>, item: ItemView, n: int) -> Seq<
    Seq<char>,
>
    decreases n,
{
    if n <= 0 {
        Seq::empty()
    } else {
        let before = unsatisfied_needs(linked, item, n - 1);
        if type_is_covered(linked, item.id, item.needs[n - 1]) {
            before
        } else {
            before.push(item.needs[n - 1])
        }
    }
}

/// The needed artifact types of `item` that are not satisfied within `linked`.
pub open spec fn missing_coverage_types(linked: Seq<LinkedItemView>, item: ItemView) -> Seq<
    Seq<char>,
> {
    unsatisfied_needs(linked, item, item.needs.len() as int)
}

/// The clause on missing coverage: present if the item is not covered and
/// some needed type is unsatisfied; it lists those types.
pub open spec fn needs_issues(linked: Seq<LinkedItemView>, item: LinkedItemView) -> Seq<
    Seq<char>,
> {
    let missing = missing_coverage_types(linked, item.item);
    if item.coverage_status != CoverageStatus::Covered && missing.len() > 0 {
        seq!["needs coverage by "@ + join_spec(missing, ", "@)]
    } else {
        Seq::empty()
    }
}

/// All issues of `item`: orphaned references, then duplicate identifiers,
/// then references to a wrong or ambiguous revision, then missing coverage.
pub open spec fn issues_of(linked: Seq<LinkedItemView>, item: LinkedItemView) -> Seq<Seq<char>> {
    link_issues(item.item.id, item.outgoing_links, IssueGroup::Orphaned) + link_issues(
        item.item.id,
        item.outgoing_links,
        IssueGroup::Duplicate,
    ) + link_issues(item.item.id, item.outgoing_links, IssueGroup::Revision) + needs_issues(
        linked,
        item,
    )
}

/// The sentence that joins the issues of an item.
pub open spec fn issues_sentence(id: IdView, issues: Seq<Seq<char>>) -> Seq<char> {
    if issues.len() == 0 {
        "Item "@ + id_text(id) + " has unspecified defects"@
    } else if issues.len() == 1 {
        "Item "@ + id_text(id) + " "@ + issues[0]
    } else {
        "Item "@ + id_text(id) + " has multiple issues: "@ + join_spec(issues, "; "@)
    }
}

/// The description of what is wrong with `item`, as one of the items `linked`.
pub open spec fn defect_description(linked: Seq<LinkedItemView>, item: LinkedItemView) -> Seq<
    char,
> {
    issues_sentence(item.item.id, issues_of(linked, item))
}

/// Appends to `issues` what is to be said of the links of one group.
fn push_link_issues(
    issues: &mut Vec<String>,
    item: &LinkedSpecificationItem,
    group: IssueGroup,
)
    ensures
        final(issues).deep_view() == old(issues).deep_view() + link_issues(
            item@.item.id,
            item@.outgoing_links,
            group,
        ),
{
    let ghost start = issues.deep_view();
    let ghost id = item@.item.id;
    let ghost links = item@.outgoing_links;
    let mut k: usize = 0;
    assert(links.take(0) =~= Seq::<LinkView>::empty());
    assert(start + link_issues(id, links.take(0), group) =~= start);
    while k < item.outgoing_links.len()
        invariant
            k <= item.outgoing_links.len(),
            id == item@.item.id,
            links == item@.outgoing_links,
            issues.deep_view() == start + link_issues(id, links.take(k as int), group),
        decreases item.outgoing_links.len() - k,
    {
        let link = &item.outgoing_links[k];
        let ghost next = links.take(k + 1);
        assert(next.drop_last() =~= links.take(k as int));
        assert(next.last() == link@);
        let ghost before = issues.deep_view();
        let message: Option<String> = match link.status {
            LinkStatus::Orphaned => {
                if group == IssueGroup::Orphaned {
                    Some(
                        String::from_str("covers non-existing item ").concat(
                            link.target_id.to_string().as_str(),
                        ),
                    )
                } else {
                    None
                }
            },
            LinkStatus::Duplicate => {
                if group == IssueGroup::Duplicate {
                    Some(
                        String::from_str("has duplicate ID ").concat(
                            item.item.id.to_string().as_str(),
                        ),
                    )
                } else {
                    None
                }
            },
            LinkStatus::Outdated => {
                if group == IssueGroup::Revision {
                    Some(
                        String::from_str("covers outdated revision of ").concat(
                            link.target_id.to_string().as_str(),
                        ),
                    )
                } else {
                    None
                }
            },
            LinkStatus::Predated => {
                if group == IssueGroup::Revision {
                    Some(
                        String::from_str("covers newer revision of ").concat(
                            link.target_id.to_string().as_str(),
                        ),
                    )
                } else {
                    None
                }
            },
            LinkStatus::Ambiguous => {
                if group == IssueGroup::Revision {
                    Some(
                        String::from_str("has ambiguous reference to ").concat(
                            link.target_id.to_string().as_str(),
                        ),
                    )
                } else {
                    None
                }
            },
            _ => None,
        };
        match message {
            Some(text) => {
                assert(text@ == link_issue(id, link@));
                issues.push(text);
                assert(issues.deep_view() =~~= before.push(link_issue(id, link@)));
                assert(start + link_issues(id, next, group) =~= before.push(
                    link_issue(id, link@),
                ));
            },
            None => {},
        }
        k += 1;
    }
    assert(links.take(item.outgoing_links.len() as int) =~= links);
}

/// The needed artifact types of `item` that nothing among `linked_items`
/// satisfies, in declaration order.
pub fn find_missing_coverage_types(
    item: &LinkedSpecificationItem,
    linked_items: &Vec<LinkedSpecificationItem>,
) -> (missing: Vec<String>)
    ensures
        missing.deep_view() == missing_coverage_types(linked_items.deep_view(), item@.item),
{
    let ghost linked = linked_items.deep_view();
    let ghost view = item@.item;
    let linker = Linker::new();
    let mut missing: Vec<String> = Vec::new();
    let mut k: usize = 0;
    assert(missing.deep_view() =~= unsatisfied_needs(linked, view, 0));
    while k < item.item.needs.len()
        invariant
            k <= item.item.needs.len(),
            linked == linked_items.deep_view(),
            view == item@.item,
            missing.deep_view() == unsatisfied_needs(linked, view, k as int),
        decreases item.item.needs.len() - k,
    {
        assert(view.needs[k as int] == item.item.needs[k as int]@);
        let ghost before = missing.deep_view();
        if !linker.is_artifact_type_covered_static(&item.item.id, &item.item.needs[k], linked_items) {
            missing.push(item.item.needs[k].clone());
            assert(missing.deep_view() =~~= before.push(view.needs[k as int]));
        }
        k += 1;
    }
    missing
}

/// Describes what is wrong with `item`, one of `linked_items`.
pub fn generate_detailed_defect_description(
    item: &LinkedSpecificationItem,
    linked_items: &Vec<LinkedSpecificationItem>,
) -> (description: String)
    ensures
        description@ == defect_description(linked_items.deep_view(), item@),
{
    let ghost linked = linked_items.deep_view();
    let mut issues: Vec<String> = Vec::new();
    assert(issues.deep_view() =~= Seq::<Seq<char>>::empty());
    push_link_issues(&mut issues, item, IssueGroup::Orphaned);
    push_link_issues(&mut issues, item, IssueGroup::Duplicate);
    push_link_issues(&mut issues, item, IssueGroup::Revision);
    let ghost from_links = issues.deep_view();
    assert(from_links =~= link_issues(item@.item.id, item@.outgoing_links, IssueGroup::Orphaned)
        + link_issues(item@.item.id, item@.outgoing_links, IssueGroup::Duplicate) + link_issues(
        item@.item.id,
        item@.outgoing_links,
        IssueGroup::Revision,
    ));
    if item.coverage_status != CoverageStatus::Covered {
        let missing = find_missing_coverage_types(item, linked_items);
        if missing.len() > 0 {
            let list = join_strings(&missing, ", ");
            let clause = String::from_str("needs coverage by ").concat(list.as_str());
            issues.push(clause);
            assert(issues.deep_view() =~~= from_links + needs_issues(linked, item@));
        }
    }
    assert(issues.deep_view() =~~= from_links + needs_issues(linked, item@));
    assert(issues.deep_view() == issues_of(linked, item@));
    let id_string = item.item.id.to_string();
    let prefix = String::from_str("Item ").concat(id_string.as_str());
    if issues.len() == 0 {
        prefix.concat(" has unspecified defects")
    } else if issues.len() == 1 {
        assert(issues.deep_view()[0] == issues[0]@);
        prefix.concat(" ").concat(issues[0].as_str())
    } else {
        let list = join_strings(&issues, "; ");
        prefix.concat(" has multiple issues: ").concat(list.as_str())
    }
}

/// An item that needs nothing gets no clause on missing coverage.
pub proof fn lemma_no_needs_no_clause(linked: Seq<LinkedItemView>, item: LinkedItemView)
    requires
        item.item.needs.len() == 0,
    ensures
        needs_issues(linked, item) == Seq::<Seq<char>>::empty(),
{
    assert(unsatisfied_needs(linked, item.item, 0) =~= Seq::<Seq<char>>::empty());
}

/// Coverage of the items of one artifact type.
#[derive(Debug, Clone, Copy, PartialEq, Eq)]
pub struct CoverageSummary {
    /// Number of items of the type.
    pub total: usize,
    /// Number of those items that are covered.
    pub covered: usize,
    /// `Covered` if all are covered, `Partial` if some, `Uncovered` if none.
    pub status: CoverageStatus,
}

impl DeepView for CoverageSummary {
    type V = CoverageSummary;

    open spec fn deep_view(&self) -> CoverageSummary {
        *self
    }
}

/// The status of a group of `total` items of which `covered` are covered.
pub open spec fn group_status(total: nat, covered: nat) -> CoverageStatus {
    if covered == total {
        CoverageStatus::Covered
    } else if covered > 0 {
        CoverageStatus::Partial
    } else {
        CoverageStatus::Uncovered
    }
}

/// The artifact types of `linked`, each once, in order of first appearance.
pub open spec fn types_seen(linked: Seq<LinkedItemView>) -> Seq<Seq<char>>
    decreases linked.len(),
{
    if linked.len() == 0 {
        Seq::empty()
    } else {
        let before = types_seen(linked.drop_last());
        if before.contains(linked.last().item.id.artifact_type) {
            before
        } else {
            before.push(linked.last().item.id.artifact_type)
        }
    }
}

/// The number of items of `linked` that have the artifact type `t`.
pub open spec fn count_of_type(linked: Seq<LinkedItemView>, t: Seq<char>) -> nat
    decreases linked.len(),
{
    if linked.len() == 0 {
        0
    } else {
        count_of_type(linked.drop_last(), t) + if linked.last().item.id.artifact_type == t {
            1nat
        } else {
            0nat
        }
    }
}

/// The number of covered items of `linked` that have the artifact type `t`.
pub open spec fn covered_of_type(linked: Seq<LinkedItemView>, t: Seq<char>) -> nat
    decreases linked.len(),
{
    if linked.len() == 0 {
        0
    } else {
        covered_of_type(linked.drop_last(), t) + if linked.last().item.id.artifact_type == t
            && linked.last().coverage_status == CoverageStatus::Covered {
            1nat
        } else {
            0nat
        }
    }
}

/// The summary of the items of `linked` that have the artifact type `t`.
pub open spec fn summary_of_type(linked: Seq<LinkedItemView>, t: Seq<char>) -> CoverageSummary {
    CoverageSummary {
        total: count_of_type(linked, t) as usize,
        covered: covered_of_type(linked, t) as usize,
        status: group_status(count_of_type(linked, t), covered_of_type(linked, t)),
    }
}

/// The summaries of all artifact types of `linked`, keyed by type, in order
/// of first appearance.
pub open spec fn coverage_summary_spec(linked: Seq<LinkedItemView>) -> Seq<
    (Seq<char>, CoverageSummary),
> {
    Seq::new(
        types_seen(linked).len(),
        |e: int| (types_seen(linked)[e], summary_of_type(linked, types_seen(linked)[e])),
    )
}

/// Counts never exceed the number of items, and no more items are covered
/// than there are.
pub proof fn lemma_counts_bounded(linked: Seq<LinkedItemView>, t: Seq<char>)
    ensures
        covered_of_type(linked, t) <= count_of_type(linked, t) <= linked.len(),
    decreases linked.len(),
{
    if linked.len() > 0 {
        lemma_counts_bounded(linked.drop_last(), t);
    }
}

/// No artifact type is listed twice, and every listed type is the type of
/// some item.
pub proof fn lemma_types_seen_distinct(linked: Seq<LinkedItemView>)
    ensures
        types_seen(linked).no_duplicates(),
        forall|i: int|
            0 <= i < linked.len() ==> types_seen(linked).contains(
                (#[trigger] linked[i]).item.id.artifact_type,
            ),
    decreases linked.len(),
{
    if linked.len() > 0 {
        let front = linked.drop_last();
        lemma_types_seen_distinct(front);
        let before = types_seen(front);
        let t = linked.last().item.id.artifact_type;
        let now = types_seen(linked);
        if !before.contains(t) {
            assert(now[before.len() as int] == t);
        }
        assert forall|i: int| 0 <= i < linked.len() implies now.contains(
            (#[trigger] linked[i]).item.id.artifact_type,
        ) by {
            if i < front.len() {
                assert(front[i] == linked[i]);
                let w = choose|w: int|
                    0 <= w < before.len() && before[w] == linked[i].item.id.artifact_type;
                assert(now[w] == before[w]);
            }
        }
    }
}

/// The position of the entry for the artifact type `t` in `summary`.
fn find_type(summary: &Vec<(String, CoverageSummary)>, t: &String) -> (r: Option<usize>)
    ensures
        match r {
            Some(e) => e < summary.len() && summary[e as int].0@ == t@,
            None => forall|m: int| 0 <= m < summary.len() ==> (#[trigger] summary[m]).0@ != t@,
        },
{
    let mut e: usize = 0;
    while e < summary.len()
        invariant
            e <= summary.len(),
            forall|m: int| 0 <= m < e ==> (#[trigger] summary[m]).0@ != t@,
        decreases summary.len() - e,
    {
        if summary[e].0 == *t {
            return Some(e);
        }
        e += 1;
    }
    None
}

/// Computes the coverage summary of every artifact type among `linked_items`.
pub fn summarize_coverage(linked_items: &Vec<LinkedSpecificationItem>) -> (summary: Vec<
    (String, CoverageSummary),
>)
    ensures
        summary.deep_view() == coverage_summary_spec(linked_items.deep_view()),
{
    let ghost linked = linked_items.deep_view();
    let mut summary: Vec<(String, CoverageSummary)> = Vec::new();
    let mut i: usize = 0;
    assert(linked.take(0) =~= Seq::<LinkedItemView>::empty());
    while i < linked_items.len()
        invariant
            i <= linked_items.len(),
            linked == linked_items.deep_view(),
            summary.len() == types_seen(linked.take(i as int)).len(),
            forall|e: int|
                0 <= e < summary.len() ==> (#[trigger] summary[e]).0@ == types_seen(
                    linked.take(i as int),
                )[e] && summary[e].1 == summary_of_type(linked.take(i as int), summary[e].0@),
        decreases linked_items.len() - i,
    {
        let ghost prefix = linked.take(i as int);
        let ghost next = linked.take(i + 1);
        let item = &linked_items[i];
        assert(next.drop_last() =~= prefix);
        assert(next.last() == item@);
        let covered = item.is_covered();
        let ghost t = item@.item.id.artifact_type;
        proof {
            lemma_types_seen_distinct(prefix);
        }
        let position = find_type(&summary, &item.item.id.artifact_type);
        let ghost keys = types_seen(prefix);
        if let Some(e) = position {
            proof {
                lemma_counts_bounded(prefix, t);
                lemma_counts_bounded(next, t);
            }
            let old_entry = summary[e].1;
            let total = old_entry.total + 1;
            let covered_count = if covered {
                old_entry.covered + 1
            } else {
                old_entry.covered
            };
            let status = if covered_count == total {
                CoverageStatus::Covered
            } else if covered_count > 0 {
                CoverageStatus::Partial
            } else {
                CoverageStatus::Uncovered
            };
            assert(keys.contains(t)) by {
                assert(keys[e as int] == t);
            }
            summary[e].1 = CoverageSummary { total, covered: covered_count, status };
            assert forall|m: int| 0 <= m < summary.len() implies (#[trigger] summary[m]).0@
                == types_seen(next)[m] && summary[m].1 == summary_of_type(next, summary[m].0@) by {
                if m != e {
                    assert(keys[m] != keys[e as int]);
                }
            }
        } else {
            assert(!keys.contains(t)) by {
                if keys.contains(t) {
                    let w = choose|w: int| 0 <= w < keys.len() && keys[w] == t;
                    assert(summary[w].0@ == t);
                }
            }
            proof {
                lemma_counts_bounded(prefix, t);
                lemma_counts_bounded(next, t);
                lemma_count_of_unseen_type(prefix, t);
            }
            let covered_count: usize = if covered {
                1
            } else {
                0
            };
            let status = if covered {
                CoverageStatus::Covered
            } else {
                CoverageStatus::Uncovered
            };
            summary.push(
                (
                    item.item.id.artifact_type.clone(),
                    CoverageSummary { total: 1, covered: covered_count, status },
                ),
            );
            assert forall|m: int| 0 <= m < summary.len() implies (#[trigger] summary[m]).0@
                == types_seen(next)[m] && summary[m].1 == summary_of_type(next, summary[m].0@) by {
                if m < keys.len() {
                    assert(keys.contains(keys[m]));
                    assert(keys[m] != t);
                }
            }
        }
        i += 1;
    }
    assert(linked.take(linked_items.len() as int) =~= linked);
    assert(summary.deep_view() =~~= coverage_summary_spec(linked));
    summary
}

/// A type that is not listed has no items.
pub proof fn lemma_count_of_unseen_type(linked: Seq<LinkedItemView>, t: Seq<char>)
    requires
        !types_seen(linked).contains(t),
    ensures
        count_of_type(linked, t) == 0,
        covered_of_type(linked, t) == 0,
{
    lemma_types_seen_distinct(linked);
    lemma_count_zero(linked, t);
}

/// A type that no item has is counted zero times.
proof fn lemma_count_zero(linked: Seq<LinkedItemView>, t: Seq<char>)
    requires
        forall|i: int| 0 <= i < linked.len() ==> (#[trigger] linked[i]).item.id.artifact_type != t,
    ensures
        count_of_type(linked, t) == 0,
        covered_of_type(linked, t) == 0,
    decreases linked.len(),
{
    if linked.len() > 0 {
        let front = linked.drop_last();
        assert forall|i: int| 0 <= i < front.len() implies (#[trigger] front[i]).item.id.artifact_type
            != t by {
            assert(front[i] == linked[i]);
        }
        lemma_count_zero(front, t);
        assert(linked.last() == linked[linked.len() - 1]);
    }
}

/// What a trace yields: the linked items, the defects and the coverage per
/// artifact type.
#[derive(Debug)]
pub struct TraceResult {
    /// All linked items, in input order.
    pub items: Vec<LinkedSpecificationItem>,
    /// Number of items.
    pub total_items: usize,
    /// Number of defective items.
    pub defect_count: usize,
    /// One defect per defective item, in item order.
    pub defects: Vec<Defect>,
    /// Coverage per artifact type; no type is listed twice.
    pub coverage_summary: Vec<(String, CoverageSummary)>,
    /// Whether there is no defect.
    pub is_success: bool,
}

/// A trace result as a mathematical value.
pub struct TraceResultView {
    pub items: Seq<LinkedItemView>,
    pub total_items: nat,
    pub defect_count: nat,
    pub defects: Seq<DefectView>,
    pub coverage_summary: Seq<(Seq<char>, CoverageSummary)>,
    pub is_success: bool,
}

impl DeepView for TraceResult {
    type V = TraceResultView;

    open spec fn deep_view(&self) -> TraceResultView {
        TraceResultView {
            items: self.items.deep_view(),
            total_items: self.total_items as nat,
            defect_count: self.defect_count as nat,
            defects: self.defects.deep_view(),
            coverage_summary: self.coverage_summary.deep_view(),
            is_success: self.is_success,
        }
    }
}

impl View for TraceResult {
    type V = TraceResultView;

    open spec fn view(&self) -> TraceResultView {
        self.deep_view()
    }
}

/// The defect that is reported for a defective item.
pub open spec fn defect_of(linked: Seq<LinkedItemView>, item: LinkedItemView) -> DefectView {
    DefectView {
        defect_type: DefectType::UncoveredItem,
        description: defect_description(linked, item),
        item_id: Some(item.item.id),
    }
}

/// The defects of the first `n` items of `linked`: one per defective item,
/// in item order.
pub open spec fn defects_upto(linked: Seq<LinkedItemView>, n: int) -> Seq<DefectView>
    decreases n,
{
    if n <= 0 {
        Seq::empty()
    } else {
        let before = defects_upto(linked, n - 1);
        if linked[n - 1].is_defect {
            before.push(defect_of(linked, linked[n - 1]))
        } else {
            before
        }
    }
}

/// The defects of `linked`.
pub open spec fn defects_spec(linked: Seq<LinkedItemView>) -> Seq<DefectView> {
    defects_upto(linked, linked.len() as int)
}

/// The result of analysing the linked items `linked`.
pub open spec fn trace_result_spec(linked: Seq<LinkedItemView>) -> TraceResultView {
    TraceResultView {
        items: linked,
        total_items: linked.len(),
        defect_count: defects_spec(linked).len(),
        defects: defects_spec(linked),
        coverage_summary: coverage_summary_spec(linked),
        is_success: defects_spec(linked).len() == 0,
    }
}

/// There are no more defects than items.
pub proof fn lemma_defects_bounded(linked: Seq<LinkedItemView>, n: int)
    requires
        0 <= n <= linked.len(),
    ensures
        defects_upto(linked, n).len() <= n,
    decreases n,
{
    if n > 0 {
        lemma_defects_bounded(linked, n - 1);
    }
}

/// Derives defects and coverage from linked items.
pub fn analyze_trace(linked_items: &Vec<LinkedSpecificationItem>) -> (result: TraceResult)
    ensures
        result@ == trace_result_spec(linked_items.deep_view()),
{
    let ghost linked = linked_items.deep_view();
    let coverage_summary = summarize_coverage(linked_items);
    let mut defects: Vec<Defect> = Vec::new();
    let mut items: Vec<LinkedSpecificationItem> = Vec::new();
    let mut i: usize = 0;
    assert(defects.deep_view() =~= defects_upto(linked, 0));
    while i < linked_items.len()
        invariant
            i <= linked_items.len(),
            linked == linked_items.deep_view(),
            defects.deep_view() == defects_upto(linked, i as int),
            items.len() == i,
            forall|k: int| 0 <= k < i ==> (#[trigger] items[k])@ == linked[k],
        decreases linked_items.len() - i,
    {
        let item = &linked_items[i];
        assert(linked[i as int] == item@);
        if item.is_defect {
            let description = generate_detailed_defect_description(item, linked_items);
            let ghost before = defects.deep_view();
            let defect = Defect {
                defect_type: DefectType::UncoveredItem,
                description,
                item_id: Some(item.item.id.clone()),
            };
            assert(defect@ == defect_of(linked, item@));
            defects.push(defect);
            assert(defects.deep_view() =~~= before.push(defect_of(linked, item@)));
        }
        items.push(item.clone());
        i += 1;
    }
    assert(items.deep_view() =~~= linked);
    proof {
        lemma_defects_bounded(linked, linked.len() as int);
    }
    let is_success = defects.len() == 0;
    TraceResult {
        items,
        total_items: linked_items.len(),
        defect_count: defects.len(),
        defects,
        coverage_summary,
        is_success,
    }
}

impl TraceResult {
    /// Whether the trace found no defect.
    pub fn has_no_defects(&self) -> (r: bool)
        ensures
            r == self@.is_success,
    {
        self.is_success
    }

    /// The summary of the artifact type `artifact_type`, if it is listed.
    pub fn summary_for(&self, artifact_type: &String) -> (r: Option<CoverageSummary>)
        ensures
            match r {
                Some(summary) => exists|e: int|
                    0 <= e < self@.coverage_summary.len() && (#[trigger] self@.coverage_summary[e])
                        == (artifact_type@, summary),
                None => forall|e: int|
                    0 <= e < self@.coverage_summary.len() ==> (
                    #[trigger] self@.coverage_summary[e]).0 != artifact_type@,
            },
    {
        let ghost view = self@.coverage_summary;
        assert forall|e: int| 0 <= e < view.len() implies (#[trigger] view[e]).0
            == self.coverage_summary[e].0@ && view[e].1 == self.coverage_summary[e].1 by {}
        match find_type(&self.coverage_summary, artifact_type) {
            Some(e) => {
                assert(view[e as int] == (artifact_type@, self.coverage_summary[e as int].1));
                Some(self.coverage_summary[e].1)
            },
            None => None,
        }
    }
}

/// Two analyses of the same linked items agree in every count: items,
/// defects and the coverage of each artifact type.
pub proof fn lemma_analysis_is_repeatable(
    linked: Seq<LinkedItemView>,
    first: TraceResultView,
    second: TraceResultView,
)
    requires
        first == trace_result_spec(linked),
        second == trace_result_spec(linked),
    ensures
        first.total_items == second.total_items,
        first.defect_count == second.defect_count,
        first.defects == second.defects,
        first.coverage_summary == second.coverage_summary,
        first.is_success == second.is_success,
{
}

/// Every analysis counts as many defects as it lists, never more than
/// there are items, and succeeds exactly if it lists none.
pub proof fn lemma_defect_count(linked: Seq<LinkedItemView>)
    ensures
        trace_result_spec(linked).defect_count == trace_result_spec(linked).defects.len(),
        trace_result_spec(linked).defect_count <= trace_result_spec(linked).total_items,
        trace_result_spec(linked).is_success <==> trace_result_spec(linked).defect_count == 0,
{
    lemma_defects_bounded(linked, linked.len() as int);
}

/// The result of tracing the item set `items`: linking, then analysis.
pub open spec fn trace_spec(items: Seq<ItemView>) -> TraceResultView {
    trace_result_spec(linked_spec(items))
}

/// The result of tracing what the source files and the specification
/// documents declare together, the tags of the source files first; or the
/// error that stops the import.
pub open spec fn trace_files_spec(sources: Seq<SourceFileView>, documents: Seq<SourceFileView>)
    -> Result<TraceResultView, ErrorView> {
    match files_items(sources) {
        Err(error) => Err(error),
        Ok(tagged) => match markdown_files_items(documents) {
            Err(error) => Err(error),
            Ok(declared) => Ok(trace_spec(tagged + declared)),
        },
    }
}

/// Runs a whole trace: import, linking, analysis.
pub struct Tracer {
    config: Config,
    tag_importer: TagImporter,
    markdown_importer: MarkdownImporter,
}

impl Tracer {
    /// Both importers select files by the configuration of the tracer.
    #[verifier::type_invariant]
    spec fn well_formed(self) -> bool {
        self.tag_importer.config()@ == self.config@ && self.markdown_importer.config()@
            == self.config@
    }

    /// A tracer whose importers select files by `config`.
    /// Fails only if a pattern of an importer does not compile.
    pub fn new(config: Config) -> (r: Result<Self, Error>)
        ensures
            r matches Ok(tracer) ==> tracer.config_spec()@ == config@,
            r is Err ==> r->Err_0 is Regex,
    {
        let tag_importer = TagImporter::with_config(config.clone())?;
        let markdown_importer = MarkdownImporter::with_config(config.clone())?;
        Ok(Self { config, tag_importer, markdown_importer })
    }

    /// The configuration of this tracer.
    pub closed spec fn config_spec(&self) -> Config {
        self.config
    }

    /// The configuration of this tracer.
    pub fn config(&self) -> (config: &Config)
        ensures
            *config == self.config_spec(),
    {
        &self.config
    }

    /// Whether the file at `path` is read as a source file: the tag
    /// importer decides, by this tracer's configuration. Without source
    /// patterns no file is read.
    pub fn should_scan_file(&self, path: &str) -> (r: bool)
        ensures
            r ==> self.config_spec()@.source_patterns.len() > 0,
    {
        proof {
            use_type_invariant(self);
        }
        self.tag_importer.should_scan_file(path)
    }

    /// Whether the file at `path` is read as a specification document:
    /// its extension is `md` or `markdown`, in any case. Only a path that
    /// holds one of the two words directly behind a dot is one.
    pub fn is_markdown_file(&self, path: &str) -> (r: bool)
        ensures
            r ==> names_markdown_file(path@),
    {
        self.markdown_importer.is_markdown_file(path)
    }

    /// Imports the tags of one source file, given by its text and its path.
    pub fn import_source_file(&self, content: &str, path: &str) -> (r: Result<
        Vec<SpecificationItem>,
        Error,
    >)
        ensures
            result_view(r) == text_items(content@, path@),
    {
        self.tag_importer.import_from_file(content, path)
    }

    /// Imports the items of one specification document, given by its text
    /// and its path.
    pub fn import_spec_file(&self, content: &str, path: &str) -> (r: Result<
        Vec<SpecificationItem>,
        Error,
    >)
        ensures
            result_view(r) == markdown_items(content@, path@),
    {
        self.markdown_importer.import_from_file(content, path)
    }

    /// Traces the given files: imports the tags of the source files and
    /// the items of the specification documents, links all items and
    /// analyses the result. An import error stops the trace; defects do not.
    pub fn trace(&self, source_files: &Vec<SourceFile>, spec_files: &Vec<SourceFile>) -> (r:
        Result<TraceResult, Error>)
        ensures
            result_view(r) == trace_files_spec(source_files.deep_view(), spec_files.deep_view()),
    {
        let mut items = match self.tag_importer.import_from_directory(source_files) {
            Ok(items) => items,
            Err(error) => {
                return Err(error);
            },
        };
        let declared = match self.markdown_importer.import_from_directory(spec_files) {
            Ok(items) => items,
            Err(error) => {
                return Err(error);
            },
        };
        append_items(&mut items, declared);
        Ok(self.trace_items(items))
    }

    /// Links `items` and analyses the result.
    pub fn trace_items(&self, items: Vec<SpecificationItem>) -> (result: TraceResult)
        ensures
            result@ == trace_spec(items.deep_view()),
    {
        let linked = Linker::new().link(items);
        analyze_trace(&linked)
    }
}

/// Two traces of the same files end alike: both with the same error, or
/// both with results that agree in every count, in the success flag and
/// in the coverage of each artifact type.
pub proof fn lemma_trace_of_files_is_repeatable(
    sources: Seq<SourceFileView>,
    documents: Seq<SourceFileView>,
    first: Result<TraceResultView, ErrorView>,
    second: Result<TraceResultView, ErrorView>,
)
    requires
        first == trace_files_spec(sources, documents),
        second == trace_files_spec(sources, documents),
    ensures
        first is Err <==> second is Err,
        first is Err ==> first->Err_0 == second->Err_0,
        first is Ok ==> {
            &&& first->Ok_0.total_items == second->Ok_0.total_items
            &&& first->Ok_0.defect_count == second->Ok_0.defect_count
            &&& first->Ok_0.is_success == second->Ok_0.is_success
            &&& first->Ok_0.coverage_summary == second->Ok_0.coverage_summary
            &&& first->Ok_0.defects == second->Ok_0.defects
            &&& first->Ok_0.items == second->Ok_0.items
        },
{
}

/// Two traces of the same items agree in every count: items, defects and
/// the coverage of each artifact type.
pub proof fn lemma_trace_is_repeatable(
    items: Seq<ItemView>,
    first: TraceResultView,
    second: TraceResultView,
)
    requires
        first == trace_spec(items),
        second == trace_spec(items),
    ensures
        first.total_items == second.total_items,
        first.defect_count == second.defect_count,
        first.coverage_summary == second.coverage_summary,
        first.is_success == second.is_success,
        first.items == second.items,
{
}

/// Some needed type is listed as missing exactly if some needed type is
/// not satisfied.
pub proof fn lemma_missing_coverage(linked: Seq<LinkedItemView>, item: ItemView, n: int)
    requires
        0 <= n <= item.needs.len(),
    ensures
        unsatisfied_needs(linked, item, n).len() > 0 <==> exists|k: int|
            0 <= k < n && !type_is_covered(linked, item.id, #[trigger] item.needs[k]),
    decreases n,
{
    if n > 0 {
        lemma_missing_coverage(linked, item, n - 1);
        if exists|k: int|
            0 <= k < n && !type_is_covered(linked, item.id, #[trigger] item.needs[k]) {
            let k = choose|k: int|
                0 <= k < n && !type_is_covered(linked, item.id, #[trigger] item.needs[k]);
            if k < n - 1 {
                assert(unsatisfied_needs(linked, item, n - 1).len() > 0);
            }
        }
    }
}

/// In the result of a trace, an item that needs nothing is covered and
/// its description, if it has one, holds no clause on missing coverage.
pub proof fn lemma_terminating_item(items: Seq<ItemView>, i: int)
    requires
        0 <= i < items.len(),
        items[i].needs.len() == 0,
    ensures
        trace_spec(items).items[i].coverage_status == CoverageStatus::Covered,
        needs_issues(trace_spec(items).items, trace_spec(items).items[i]) == Seq::<
            Seq<char>,
        >::empty(),
{
    let linked = linked_spec(items);
    lemma_no_needs_no_clause(linked, linked[i]);
}

/// In the result of a trace, the description of an item holds the clause
/// on missing coverage exactly if the item is not covered.
pub proof fn lemma_uncovered_item_names_its_needs(items: Seq<ItemView>, i: int)
    requires
        0 <= i < items.len(),
    ensures
        trace_spec(items).items[i].coverage_status != CoverageStatus::Covered <==> needs_issues(
            trace_spec(items).items,
            trace_spec(items).items[i],
        ).len() == 1,
{
    let resolved = resolved_items(items);
    let linked = linked_spec(items);
    let item = items[i];
    assert(linked[i].item == item);
    assert(same_links(linked, resolved));
    assert forall|k: int| 0 <= k < item.needs.len() implies type_is_covered(
        linked,
        item.id,
        #[trigger] item.needs[k],
    ) == type_is_covered(resolved, item.id, item.needs[k]) by {
        lemma_type_is_covered_same_links(linked, resolved, item.id, item.needs[k]);
    }
    lemma_missing_coverage(linked, item, item.needs.len() as int);
    if linked[i].coverage_status != CoverageStatus::Covered {
        assert(!all_needs_covered(resolved, item));
        let k = choose|k: int|
            0 <= k < item.needs.len() && !type_is_covered(
                resolved,
                item.id,
                #[trigger] item.needs[k],
            );
        assert(!type_is_covered(linked, item.id, item.needs[k]));
    } else if item.needs.len() > 0 {
        assert(all_needs_covered(resolved, item));
    }
}

} // verus!
