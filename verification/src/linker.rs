//! Linking: resolves coverage edges between items and derives coverage.
//!
//! The contracts speak of the whole item set as a `Seq<ItemView>`. What the
//! linker returns for the item at position `i` is `linked_item_spec(items, i)`.

use crate::error::Error;
use crate::model::{
    is_broken, CoverageStatus, IdView, ItemView, LinkStatus, LinkView, LinkedItemView,
    LinkedSpecificationItem, SpecificationItem, SpecificationItemId,
};
use vstd::prelude::*;

verus! {

/// Whether some item has exactly the identifier `id`.
pub open spec fn has_id(items: Seq<ItemView>, id: IdView) -> bool {
    exists|i: int| 0 <= i < items.len() && (#[trigger] items[i]).id == id
}

/// Whether the identifier `id` belongs to more than one item.
pub open spec fn is_duplicate_id(items: Seq<ItemView>, id: IdView) -> bool {
    exists|i: int, j: int|
        0 <= i < j < items.len() && (#[trigger] items[i]).id == id && (#[trigger] items[j]).id
            == id
}

/// The position of the first item with the identifier `id`.
pub open spec fn first_index_of(items: Seq<ItemView>, id: IdView) -> int {
    choose|i: int|
        0 <= i < items.len() && (#[trigger] items[i]).id == id && forall|j: int|
            0 <= j < i ==> (#[trigger] items[j]).id != id
}

/// Whether two identifiers agree in artifact type and name.
pub open spec fn shares_name(a: IdView, b: IdView) -> bool {
    a.artifact_type == b.artifact_type && a.name == b.name
}

/// Whether some item has the artifact type and name of `target`.
pub open spec fn has_name(items: Seq<ItemView>, target: IdView) -> bool {
    exists|i: int| 0 <= i < items.len() && shares_name((#[trigger] items[i]).id, target)
}

/// Whether items with the artifact type and name of `target` exist in more
/// than one revision.
pub open spec fn has_several_revisions(items: Seq<ItemView>, target: IdView) -> bool {
    exists|i: int, j: int|
        0 <= i < items.len() && 0 <= j < items.len() && shares_name(
            (#[trigger] items[i]).id,
            target,
        ) && shares_name((#[trigger] items[j]).id, target) && items[i].id.revision
            != items[j].id.revision
}

/// The revision of an item with the artifact type and name of `target`.
/// It is the revision of all of them unless `has_several_revisions` holds.
pub open spec fn known_revision(items: Seq<ItemView>, target: IdView) -> u32 {
    let i = choose|i: int| 0 <= i < items.len() && shares_name((#[trigger] items[i]).id, target);
    items[i].id.revision
}

/// The status of a link that an item declares to `target`.
///
/// Where the exact identifier exists, the first item that has it decides:
/// `Covers` if it asks for coverage, `Unwanted` if it asks for none.
/// Otherwise the items with the same artifact type and name decide: none
/// gives `Orphaned`, several revisions `Ambiguous`, one higher revision
/// `Outdated`, one lower revision `Predated`.
#[verifier::opaque]
pub open spec fn link_status_spec(items: Seq<ItemView>, target: IdView) -> LinkStatus {
    if has_id(items, target) {
        if items[first_index_of(items, target)].needs.len() == 0 {
            LinkStatus::Unwanted
        } else {
            LinkStatus::Covers
        }
    } else if !has_name(items, target) {
        LinkStatus::Orphaned
    } else if has_several_revisions(items, target) {
        LinkStatus::Ambiguous
    } else if known_revision(items, target) > target.revision {
        LinkStatus::Outdated
    } else {
        LinkStatus::Predated
    }
}

/// The link that marks `id` as a duplicate: from the item to itself.
pub open spec fn duplicate_link(id: IdView) -> LinkView {
    LinkView { source_id: Some(id), target_id: id, status: LinkStatus::Duplicate }
}

/// The links that `item` declares by its covers list, one per entry, in order.
pub open spec fn cover_links(items: Seq<ItemView>, item: ItemView) -> Seq<LinkView> {
    Seq::new(
        item.covers.len(),
        |k: int|
            LinkView {
                source_id: Some(item.id),
                target_id: item.covers[k],
                status: link_status_spec(items, item.covers[k]),
            },
    )
}

/// The outgoing links of `item`: the duplicate link first, where its
/// identifier occurs more than once, then one link per covers entry.
pub open spec fn outgoing_links_spec(items: Seq<ItemView>, item: ItemView) -> Seq<LinkView> {
    if is_duplicate_id(items, item.id) {
        seq![duplicate_link(item.id)] + cover_links(items, item)
    } else {
        cover_links(items, item)
    }
}

/// The status of every incoming link. Finer distinctions by revision are
/// left open; all incoming links are classified alike.
pub open spec fn incoming_status() -> LinkStatus {
    LinkStatus::CoveredShallow
}

/// The incoming links of `id` that come from the first `n` items: one for
/// each item whose covers list names `id`, in item order.
pub open spec fn incoming_links_upto(items: Seq<ItemView>, id: IdView, n: int) -> Seq<LinkView>
    decreases n,
{
    if n <= 0 {
        Seq::empty()
    } else {
        let before = incoming_links_upto(items, id, n - 1);
        if items[n - 1].covers.contains(id) {
            before.push(
                LinkView {
                    source_id: Some(items[n - 1].id),
                    target_id: id,
                    status: incoming_status(),
                },
            )
        } else {
            before
        }
    }
}

/// The incoming links of `id`: one per item that covers it.
pub open spec fn incoming_links_spec(items: Seq<ItemView>, id: IdView) -> Seq<LinkView> {
    incoming_links_upto(items, id, items.len() as int)
}

/// A linked item as it stands before its covers list is resolved: it holds
/// the duplicate link, where its identifier occurs more than once, and no
/// other link.
pub open spec fn initial_item(items: Seq<ItemView>, i: int) -> LinkedItemView {
    LinkedItemView {
        item: items[i],
        outgoing_links: if is_duplicate_id(items, items[i].id) {
            seq![duplicate_link(items[i].id)]
        } else {
            Seq::empty()
        },
        incoming_links: Seq::empty(),
        coverage_status: CoverageStatus::Uncovered,
        is_defect: is_duplicate_id(items, items[i].id),
    }
}

/// `linked` with the links added that follow from the item set `items`:
/// outgoing, one per entry of its covers list; incoming, one per item of
/// `items` that covers it.
pub open spec fn with_coverage_links(items: Seq<ItemView>, linked: LinkedItemView)
    -> LinkedItemView {
    LinkedItemView {
        outgoing_links: linked.outgoing_links + cover_links(items, linked.item),
        incoming_links: linked.incoming_links + incoming_links_spec(items, linked.item.id),
        ..linked
    }
}

/// The items with their links resolved, before coverage is analysed.
pub open spec fn resolved_item(items: Seq<ItemView>, i: int) -> LinkedItemView {
    LinkedItemView {
        item: items[i],
        outgoing_links: outgoing_links_spec(items, items[i]),
        incoming_links: incoming_links_spec(items, items[i].id),
        coverage_status: CoverageStatus::Uncovered,
        is_defect: is_duplicate_id(items, items[i].id),
    }
}

/// All items with their links resolved, in input order.
pub open spec fn resolved_items(items: Seq<ItemView>) -> Seq<LinkedItemView> {
    Seq::new(items.len(), |i: int| resolved_item(items, i))
}

/// Whether `links` holds a link to `id` with status `Covers`.
pub open spec fn has_covers_link(links: Seq<LinkView>, id: IdView) -> bool {
    exists|k: int|
        0 <= k < links.len() && (#[trigger] links[k]).target_id == id && links[k].status
            == LinkStatus::Covers
}

/// Whether the need of `id` for coverage by `artifact_type` is satisfied:
/// some item of that type covers `id` and its link to `id` has status `Covers`.
pub open spec fn type_is_covered(
    linked: Seq<LinkedItemView>,
    id: IdView,
    artifact_type: Seq<char>,
) -> bool {
    exists|j: int|
        0 <= j < linked.len() && (#[trigger] linked[j]).item.id.artifact_type == artifact_type
            && linked[j].item.covers.contains(id) && has_covers_link(
            linked[j].outgoing_links,
            id,
        )
}

/// Whether every needed type of `item` is satisfied.
pub open spec fn all_needs_covered(linked: Seq<LinkedItemView>, item: ItemView) -> bool {
    forall|k: int|
        0 <= k < item.needs.len() ==> type_is_covered(linked, item.id, #[trigger] item.needs[k])
}

/// Whether some needed type of `item` is satisfied.
pub open spec fn some_need_covered(linked: Seq<LinkedItemView>, item: ItemView) -> bool {
    exists|k: int|
        0 <= k < item.needs.len() && type_is_covered(linked, item.id, #[trigger] item.needs[k])
}

/// The coverage status of `item`: `Covered` if it needs nothing or all its
/// needs are satisfied, `Partial` if some are, `Uncovered` if none is.
pub open spec fn coverage_status_spec(linked: Seq<LinkedItemView>, item: ItemView)
    -> CoverageStatus {
    if item.needs.len() == 0 || all_needs_covered(linked, item) {
        CoverageStatus::Covered
    } else if some_need_covered(linked, item) {
        CoverageStatus::Partial
    } else {
        CoverageStatus::Uncovered
    }
}

/// Whether one of `links` has a status that makes its item defective.
pub open spec fn has_broken_link(links: Seq<LinkView>) -> bool {
    exists|k: int| 0 <= k < links.len() && is_broken((#[trigger] links[k]).status)
}

/// The linked item at position `i` with its coverage status and defect flag.
/// The flag is set where the item is not covered or one of its outgoing
/// links is orphaned, ambiguous, outdated, predated or a duplicate link.
/// A flag that is set already stays set.
pub open spec fn analyzed_item(linked: Seq<LinkedItemView>, i: int) -> LinkedItemView {
    let status = coverage_status_spec(linked, linked[i].item);
    LinkedItemView {
        coverage_status: status,
        is_defect: linked[i].is_defect || status != CoverageStatus::Covered || has_broken_link(
            linked[i].outgoing_links,
        ),
        ..linked[i]
    }
}

/// All linked items with coverage status and defect flag, in input order.
pub open spec fn analyzed_items(linked: Seq<LinkedItemView>) -> Seq<LinkedItemView> {
    Seq::new(linked.len(), |i: int| analyzed_item(linked, i))
}

/// What linking the item set `items` yields: one linked item per item, in
/// input order.
pub open spec fn linked_spec(items: Seq<ItemView>) -> Seq<LinkedItemView> {
    analyzed_items(resolved_items(items))
}

/// What linking yields for the item at position `i`.
pub open spec fn linked_item_spec(items: Seq<ItemView>, i: int) -> LinkedItemView {
    linked_spec(items)[i]
}

/// Whether `ids` holds `id`.
pub fn contains_id(ids: &Vec<SpecificationItemId>, id: &SpecificationItemId) -> (r: bool)
    ensures
        r == ids.deep_view().contains(id@),
{
    let mut i: usize = 0;
    while i < ids.len()
        invariant
            i <= ids.len(),
            forall|j: int| 0 <= j < i ==> ids.deep_view()[j] != id@,
        decreases ids.len() - i,
    {
        if ids[i] == *id {
            assert(ids.deep_view()[i as int] == id@);
            return true;
        }
        i += 1;
    }
    false
}

/// Whether the identifier of `items[index]` occurs at another position too.
fn occurs_elsewhere(items: &Vec<SpecificationItem>, index: usize) -> (r: bool)
    requires
        index < items.len(),
    ensures
        r == is_duplicate_id(items.deep_view(), items[index as int]@.id),
{
    let ghost views = items.deep_view();
    let ghost id = items[index as int]@.id;
    assert(views[index as int].id == id);
    let mut j: usize = 0;
    while j < items.len()
        invariant
            j <= items.len(),
            index < items.len(),
            views == items.deep_view(),
            id == items[index as int]@.id,
            forall|k: int| 0 <= k < j && k != index ==> (#[trigger] views[k]).id != id,
        decreases items.len() - j,
    {
        if j != index && items[j].id == items[index].id {
            assert(views[j as int].id == id);
            assert(views[index as int].id == id);
            if j < index {
                assert(0 <= j < index < views.len() && views[j as int].id == id
                    && views[index as int].id == id);
            } else {
                assert(0 <= index < j < views.len() && views[index as int].id == id
                    && views[j as int].id == id);
            }
            return true;
        }
        j += 1;
    }
    assert(!is_duplicate_id(views, id)) by {
        if is_duplicate_id(views, id) {
            let (a, b) = choose|a: int, b: int|
                0 <= a < b < views.len() && (#[trigger] views[a]).id == id && (
                #[trigger] views[b]).id == id;
            if a != index {
                assert(views[a].id != id);
            } else {
                assert(views[b].id != id);
            }
        }
    }
    false
}

/// Linking starts from the duplicate links alone; resolving the covers
/// lists on top of that gives the resolved item.
proof fn lemma_resolved_item(items: Seq<ItemView>, k: int)
    requires
        0 <= k < items.len(),
    ensures
        with_coverage_links(items, initial_item(items, k)) == resolved_item(items, k),
{
    let init = initial_item(items, k);
    assert(init.outgoing_links + cover_links(items, items[k]) =~= outgoing_links_spec(
        items,
        items[k],
    ));
    assert(init.incoming_links + incoming_links_spec(items, items[k].id) =~= incoming_links_spec(
        items,
        items[k].id,
    ));
}

/// Resolving the covers lists of all initial items gives the resolved items.
proof fn lemma_resolved_items(items: Seq<ItemView>, linked: Seq<LinkedItemView>)
    requires
        linked.len() == items.len(),
        forall|k: int|
            0 <= k < items.len() ==> (#[trigger] linked[k]) == with_coverage_links(
                items,
                initial_item(items, k),
            ),
    ensures
        linked == resolved_items(items),
{
    assert forall|k: int| 0 <= k < items.len() implies (#[trigger] linked[k]) == resolved_item(
        items,
        k,
    ) by {
        lemma_resolved_item(items, k);
    }
    assert(linked =~= resolved_items(items));
}

/// The first position that holds an identifier is the position that
/// `first_index_of` names.
proof fn lemma_first_index_of(items: Seq<ItemView>, id: IdView, k: int)
    requires
        0 <= k < items.len(),
        items[k].id == id,
        forall|j: int| 0 <= j < k ==> (#[trigger] items[j]).id != id,
    ensures
        has_id(items, id),
        first_index_of(items, id) == k,
{
    let first = first_index_of(items, id);
    if first < k {
        assert(items[first].id != id);
    } else if first > k {
        assert(items[k].id == id);
    }
}

/// An item that shares the artifact type and name of `target` shows that
/// the name is known.
pub proof fn lemma_name_is_known(items: Seq<ItemView>, target: IdView, w: int)
    requires
        0 <= w < items.len(),
        shares_name(items[w].id, target),
    ensures
        has_name(items, target),
{
}

/// Where all items that share the artifact type and name of `target` have
/// the revision of `items[w]`, that revision is the known one.
pub proof fn lemma_single_revision(items: Seq<ItemView>, target: IdView, w: int)
    requires
        0 <= w < items.len(),
        shares_name(items[w].id, target),
        forall|j: int|
            0 <= j < items.len() && shares_name((#[trigger] items[j]).id, target)
                ==> items[j].id.revision == items[w].id.revision,
    ensures
        !has_several_revisions(items, target),
        known_revision(items, target) == items[w].id.revision,
{
    let i = choose|i: int| 0 <= i < items.len() && shares_name((#[trigger] items[i]).id, target);
    assert(shares_name(items[i].id, target));
}

/// The position of the first item with the identifier `id`, if there is one.
fn find_first(items: &Vec<SpecificationItem>, id: &SpecificationItemId) -> (r: Option<usize>)
    ensures
        match r {
            Some(k) => has_id(items.deep_view(), id@) && k == first_index_of(
                items.deep_view(),
                id@,
            ) && k < items.len(),
            None => !has_id(items.deep_view(), id@),
        },
{
    let ghost views = items.deep_view();
    let mut i: usize = 0;
    while i < items.len()
        invariant
            i <= items.len(),
            views == items.deep_view(),
            forall|j: int| 0 <= j < i ==> (#[trigger] views[j]).id != id@,
        decreases items.len() - i,
    {
        assert(views[i as int] == items[i as int]@);
        if items[i].id == *id {
            proof {
                lemma_first_index_of(views, id@, i as int);
            }
            return Some(i);
        }
        i += 1;
    }
    None
}

/// Wraps every item, and gives each item whose identifier occurs more than
/// once the defect flag and a duplicate link to itself.
fn initial_links(items: &Vec<SpecificationItem>) -> (linked: Vec<LinkedSpecificationItem>)
    ensures
        linked.len() == items.len(),
        forall|k: int|
            0 <= k < items.len() ==> (#[trigger] linked[k])@ == initial_item(
                items.deep_view(),
                k,
            ),
{
    let ghost views = items.deep_view();
    let mut linked: Vec<LinkedSpecificationItem> = Vec::new();
    let mut i: usize = 0;
    while i < items.len()
        invariant
            i <= items.len(),
            views == items.deep_view(),
            linked.len() == i,
            forall|k: int| 0 <= k < i ==> (#[trigger] linked[k])@ == initial_item(views, k),
        decreases items.len() - i,
    {
        let mut linked_item = LinkedSpecificationItem::new(items[i].clone());
        assert(views[i as int] == items[i as int]@);
        if occurs_elsewhere(items, i) {
            linked_item.is_defect = true;
            linked_item.add_outgoing_link(items[i].id.clone(), LinkStatus::Duplicate);
            assert(linked_item@.outgoing_links =~= seq![duplicate_link(views[i as int].id)]);
        }
        assert(linked_item@ == initial_item(views, i as int));
        linked.push(linked_item);
        i += 1;
    }
    linked
}

/// Resolves coverage edges between specification items.
pub struct Linker {}

impl Linker {
    /// Creates a linker.
    pub fn new() -> (linker: Self) {
        Self {}
    }

    /// Links the items of a complete set and analyses their coverage.
    /// Returns one linked item per input item, in input order; findings
    /// are recorded in the result and never reported as an error.
    pub fn link_items(&self, items: Vec<SpecificationItem>) -> (r: Result<
        Vec<LinkedSpecificationItem>,
        Error,
    >)
        ensures
            r matches Ok(linked) && linked.deep_view() == linked_spec(items.deep_view()),
    {
        Ok(self.link(items))
    }

    /// Links the items of a complete set and analyses their coverage.
    pub fn link(&self, items: Vec<SpecificationItem>) -> (linked: Vec<LinkedSpecificationItem>)
        ensures
            linked.deep_view() == linked_spec(items.deep_view()),
    {
        let ghost views = items.deep_view();
        let mut linked = initial_links(&items);
        let ghost initial = linked.deep_view();
        let _ = self.process_coverage_links(&mut linked, &items);
        assert forall|k: int| 0 <= k < views.len() implies (#[trigger] linked.deep_view()[k])
            == with_coverage_links(views, initial_item(views, k)) by {
            assert(initial[k] == initial_item(views, k));
            assert(linked[k]@ == with_coverage_links(views, initial[k]));
        }
        proof {
            lemma_resolved_items(views, linked.deep_view());
        }
        self.analyze_coverage(&mut linked);
        linked
    }

    /// Adds to every linked item the links that follow from the item set
    /// `items`: first all outgoing links, then all incoming links.
    fn process_coverage_links(
        &self,
        linked_items: &mut Vec<LinkedSpecificationItem>,
        items: &Vec<SpecificationItem>,
    ) -> (r: Result<(), Error>)
        ensures
            r is Ok,
            final(linked_items).len() == old(linked_items).len(),
            forall|k: int|
                0 <= k < old(linked_items).len() ==> (#[trigger] final(linked_items)[k])@
                    == with_coverage_links(items.deep_view(), old(linked_items)[k]@),
    {
        let ghost index = items.deep_view();
        let ghost before = linked_items.deep_view();
        let n = linked_items.len();
        let mut i: usize = 0;
        while i < n
            invariant
                i <= n,
                linked_items.len() == n,
                before.len() == n,
                index == items.deep_view(),
                forall|k: int|
                    0 <= k < i ==> (#[trigger] linked_items[k])@ == (LinkedItemView {
                        outgoing_links: before[k].outgoing_links + cover_links(
                            index,
                            before[k].item,
                        ),
                        ..before[k]
                    }),
                forall|k: int| i <= k < n ==> (#[trigger] linked_items[k])@ == before[k],
            decreases n - i,
        {
            let covers = crate::model::clone_ids(&linked_items[i].item.covers);
            let ghost all = cover_links(index, before[i as int].item);
            let ghost start = linked_items.deep_view();
            let mut c: usize = 0;
            assert(before[i as int].outgoing_links + all.take(0) =~= before[i as int].outgoing_links);
            while c < covers.len()
                invariant
                    c <= covers.len(),
                    i < n,
                    linked_items.len() == n,
                    start.len() == n,
                    before.len() == n,
                    index == items.deep_view(),
                    covers.deep_view() == before[i as int].item.covers,
                    all == cover_links(index, before[i as int].item),
                    linked_items[i as int]@ == (LinkedItemView {
                        outgoing_links: before[i as int].outgoing_links + all.take(c as int),
                        ..before[i as int]
                    }),
                    forall|k: int|
                        0 <= k < n && k != i ==> (#[trigger] linked_items[k])@ == start[k],
                decreases covers.len() - c,
            {
                let status = self.determine_link_status(&covers[c], items);
                assert(covers.deep_view()[c as int] == covers[c as int]@);
                linked_items[i].add_outgoing_link(covers[c].clone(), status);
                assert(all.take(c + 1) =~= all.take(c as int).push(all[c as int]));
                assert(before[i as int].outgoing_links + all.take(c + 1) =~= (
                before[i as int].outgoing_links + all.take(c as int)).push(all[c as int]));
                c += 1;
            }
            assert(all.take(covers.len() as int) =~= all);
            i += 1;
        }
        let ghost middle = linked_items.deep_view();
        let mut i: usize = 0;
        while i < n
            invariant
                i <= n,
                linked_items.len() == n,
                before.len() == n,
                middle.len() == n,
                index == items.deep_view(),
                forall|k: int|
                    0 <= k < n ==> (#[trigger] middle[k]) == (LinkedItemView {
                        outgoing_links: before[k].outgoing_links + cover_links(
                            index,
                            before[k].item,
                        ),
                        ..before[k]
                    }),
                forall|k: int|
                    0 <= k < i ==> (#[trigger] linked_items[k])@ == with_coverage_links(
                        index,
                        before[k],
                    ),
                forall|k: int| i <= k < n ==> (#[trigger] linked_items[k])@ == middle[k],
            decreases n - i,
        {
            let item_id = linked_items[i].item.id.clone();
            let ghost start = linked_items.deep_view();
            let mut j: usize = 0;
            assert(middle[i as int].incoming_links + incoming_links_upto(index, item_id@, 0)
                =~= middle[i as int].incoming_links);
            while j < items.len()
                invariant
                    j <= items.len(),
                    i < n,
                    linked_items.len() == n,
                    start.len() == n,
                    middle.len() == n,
                    index == items.deep_view(),
                    item_id@ == middle[i as int].item.id,
                    linked_items[i as int]@ == (LinkedItemView {
                        incoming_links: middle[i as int].incoming_links + incoming_links_upto(
                            index,
                            item_id@,
                            j as int,
                        ),
                        ..middle[i as int]
                    }),
                    forall|k: int|
                        0 <= k < n && k != i ==> (#[trigger] linked_items[k])@ == start[k],
                decreases items.len() - j,
            {
                assert(index[j as int] == items[j as int]@);
                if contains_id(&items[j].covers, &item_id) {
                    let status = self.determine_incoming_link_status(&item_id, &items[j].id);
                    linked_items[i].add_incoming_link(items[j].id.clone(), status);
                    assert(middle[i as int].incoming_links + incoming_links_upto(
                        index,
                        item_id@,
                        j + 1,
                    ) =~= (middle[i as int].incoming_links + incoming_links_upto(
                        index,
                        item_id@,
                        j as int,
                    )).push(
                        LinkView {
                            source_id: Some(index[j as int].id),
                            target_id: item_id@,
                            status: incoming_status(),
                        },
                    ));
                }
                j += 1;
            }
            i += 1;
        }
        Ok(())
    }

    /// Classifies a link that an item declares to `covered_id`, against the
    /// item set `items`.
    pub fn determine_link_status(
        &self,
        covered_id: &SpecificationItemId,
        items: &Vec<SpecificationItem>,
    ) -> (status: LinkStatus)
        ensures
            status == link_status_spec(items.deep_view(), covered_id@),
    {
        let ghost views = items.deep_view();
        let ghost target = covered_id@;
        reveal(link_status_spec);
        match find_first(items, covered_id) {
            Some(first) => {
                assert(views[first as int] == items[first as int]@);
                return if items[first].needs.is_empty() {
                    LinkStatus::Unwanted
                } else {
                    LinkStatus::Covers
                };
            },
            None => {},
        }
        let mut known: Option<u32> = None;
        let ghost mut witness: int = 0;
        let mut several = false;
        let mut i: usize = 0;
        while i < items.len()
            invariant
                i <= items.len(),
                views == items.deep_view(),
                target == covered_id@,
                known is None ==> forall|j: int|
                    0 <= j < i ==> !shares_name((#[trigger] views[j]).id, target),
                known is None ==> !several,
                known is Some ==> 0 <= witness < i && shares_name(views[witness].id, target)
                    && views[witness].id.revision == known->0,
                several ==> has_several_revisions(views, target),
                !several && known is Some ==> forall|j: int|
                    0 <= j < i && shares_name((#[trigger] views[j]).id, target)
                        ==> views[j].id.revision == known->0,
            decreases items.len() - i,
        {
            assert(views[i as int] == items[i as int]@);
            if items[i].id.artifact_type == covered_id.artifact_type && items[i].id.name
                == covered_id.name {
                match known {
                    None => {
                        known = Some(items[i].id.revision);
                        proof {
                            witness = i as int;
                        }
                    },
                    Some(revision) => {
                        if items[i].id.revision != revision {
                            several = true;
                            assert(shares_name(views[witness].id, target) && shares_name(
                                views[i as int].id,
                                target,
                            ) && views[witness].id.revision != views[i as int].id.revision);
                        }
                    },
                }
            }
            i += 1;
        }
        match known {
            None => LinkStatus::Orphaned,
            Some(revision) => {
                if several {
                    proof {
                        lemma_name_is_known(views, target, witness);
                    }
                    LinkStatus::Ambiguous
                } else {
                    proof {
                        lemma_name_is_known(views, target, witness);
                        lemma_single_revision(views, target, witness);
                    }
                    if revision > covered_id.revision {
                        LinkStatus::Outdated
                    } else {
                        LinkStatus::Predated
                    }
                }
            },
        }
    }

    /// Classifies the link that `item_id` receives from `covering_id`.
    /// Every incoming link gets the same status.
    pub fn determine_incoming_link_status(
        &self,
        item_id: &SpecificationItemId,
        covering_id: &SpecificationItemId,
    ) -> (status: LinkStatus)
        ensures
            status == incoming_status(),
    {
        LinkStatus::CoveredShallow
    }

    /// Sets the coverage status of every linked item, and its defect flag
    /// where the item is not covered or has a broken link. No flag is cleared.
    pub fn analyze_coverage(&self, linked_items: &mut Vec<LinkedSpecificationItem>)
        ensures
            final(linked_items).deep_view() == analyzed_items(old(linked_items).deep_view()),
    {
        let ghost before = linked_items.deep_view();
        let n = linked_items.len();
        let mut i: usize = 0;
        while i < n
            invariant
                i <= n,
                linked_items.len() == n,
                before.len() == n,
                forall|k: int|
                    0 <= k < i ==> (#[trigger] linked_items[k])@ == analyzed_item(before, k),
                forall|k: int| i <= k < n ==> (#[trigger] linked_items[k])@ == before[k],
            decreases n - i,
        {
            let ghost current = linked_items.deep_view();
            let ghost item = before[i as int].item;
            assert(current[i as int] == before[i as int]);
            let needs = crate::text::clone_strings(&linked_items[i].item.needs);
            let item_id = linked_items[i].item.id.clone();
            let mut all_covered = true;
            let mut any_covered = false;
            let mut k: usize = 0;
            while k < needs.len()
                invariant
                    k <= needs.len(),
                    i < n,
                    linked_items.len() == n,
                    before.len() == n,
                    current == linked_items.deep_view(),
                    same_links(current, before),
                    item == before[i as int].item,
                    needs.deep_view() == item.needs,
                    item_id@ == item.id,
                    all_covered == forall|m: int|
                        0 <= m < k ==> type_is_covered(before, item.id, #[trigger] item.needs[m]),
                    any_covered == exists|m: int|
                        0 <= m < k && type_is_covered(before, item.id, #[trigger] item.needs[m]),
                decreases needs.len() - k,
            {
                assert(needs.deep_view()[k as int] == needs[k as int]@);
                let covered = self.is_artifact_type_covered_static(
                    &item_id,
                    &needs[k],
                    linked_items,
                );
                proof {
                    lemma_type_is_covered_same_links(current, before, item.id, item.needs[k as int]);
                }
                if covered {
                    any_covered = true;
                } else {
                    all_covered = false;
                }
                k += 1;
            }
            let status = if needs.is_empty() || all_covered {
                CoverageStatus::Covered
            } else if any_covered {
                CoverageStatus::Partial
            } else {
                CoverageStatus::Uncovered
            };
            assert(status == coverage_status_spec(before, item));
            let broken = has_broken_links(&linked_items[i].outgoing_links);
            let flagged = linked_items[i].is_defect;
            linked_items[i].coverage_status = status;
            linked_items[i].is_defect = flagged || status != CoverageStatus::Covered || broken;
            i += 1;
        }
        assert(linked_items.deep_view() =~= analyzed_items(before));
    }

    /// Whether some item of type `artifact_type` among `linked_items`
    /// covers `item_id` through a link with status `Covers`.
    pub fn is_artifact_type_covered_static(
        &self,
        item_id: &SpecificationItemId,
        artifact_type: &String,
        linked_items: &Vec<LinkedSpecificationItem>,
    ) -> (r: bool)
        ensures
            r == type_is_covered(linked_items.deep_view(), item_id@, artifact_type@),
    {
        let ghost linked = linked_items.deep_view();
        let mut j: usize = 0;
        while j < linked_items.len()
            invariant
                j <= linked_items.len(),
                linked == linked_items.deep_view(),
                forall|m: int|
                    0 <= m < j ==> !((#[trigger] linked[m]).item.id.artifact_type
                        == artifact_type@ && linked[m].item.covers.contains(item_id@)
                        && has_covers_link(linked[m].outgoing_links, item_id@)),
            decreases linked_items.len() - j,
        {
            assert(linked[j as int] == linked_items[j as int]@);
            if linked_items[j].item.id.artifact_type == *artifact_type && contains_id(
                &linked_items[j].item.covers,
                item_id,
            ) && has_covers_link_to(&linked_items[j].outgoing_links, item_id) {
                return true;
            }
            j += 1;
        }
        false
    }
}

impl Default for Linker {
    fn default() -> (linker: Self) {
        Self::new()
    }
}

/// Whether two lists of linked items agree in items and outgoing links.
pub open spec fn same_links(a: Seq<LinkedItemView>, b: Seq<LinkedItemView>) -> bool {
    a.len() == b.len() && forall|j: int|
        0 <= j < a.len() ==> (#[trigger] a[j]).item == b[j].item && a[j].outgoing_links
            == b[j].outgoing_links
}

/// Whether a need is satisfied depends on items and outgoing links alone.
pub proof fn lemma_type_is_covered_same_links(
    a: Seq<LinkedItemView>,
    b: Seq<LinkedItemView>,
    id: IdView,
    artifact_type: Seq<char>,
)
    requires
        same_links(a, b),
    ensures
        type_is_covered(a, id, artifact_type) == type_is_covered(b, id, artifact_type),
{
    if type_is_covered(a, id, artifact_type) {
        let j = choose|j: int|
            0 <= j < a.len() && (#[trigger] a[j]).item.id.artifact_type == artifact_type
                && a[j].item.covers.contains(id) && has_covers_link(a[j].outgoing_links, id);
        assert(b[j].item == a[j].item);
    }
    if type_is_covered(b, id, artifact_type) {
        let j = choose|j: int|
            0 <= j < b.len() && (#[trigger] b[j]).item.id.artifact_type == artifact_type
                && b[j].item.covers.contains(id) && has_covers_link(b[j].outgoing_links, id);
        assert(a[j].item == b[j].item);
    }
}

/// Whether `links` holds a link to `id` with status `Covers`.
fn has_covers_link_to(links: &Vec<crate::model::Link>, id: &SpecificationItemId) -> (r: bool)
    ensures
        r == has_covers_link(links.deep_view(), id@),
{
    let mut k: usize = 0;
    while k < links.len()
        invariant
            k <= links.len(),
            forall|m: int|
                0 <= m < k ==> !((#[trigger] links.deep_view()[m]).target_id == id@
                    && links.deep_view()[m].status == LinkStatus::Covers),
        decreases links.len() - k,
    {
        assert(links.deep_view()[k as int] == links[k as int]@);
        if links[k].target_id == *id && links[k].status == LinkStatus::Covers {
            return true;
        }
        k += 1;
    }
    false
}

/// Whether one of `links` has a status that makes its item defective.
fn has_broken_links(links: &Vec<crate::model::Link>) -> (r: bool)
    ensures
        r == has_broken_link(links.deep_view()),
{
    let mut k: usize = 0;
    while k < links.len()
        invariant
            k <= links.len(),
            forall|m: int| 0 <= m < k ==> !is_broken((#[trigger] links.deep_view()[m]).status),
        decreases links.len() - k,
    {
        assert(links.deep_view()[k as int] == links[k as int]@);
        let status = links[k].status;
        if status == LinkStatus::Orphaned || status == LinkStatus::Ambiguous || status
            == LinkStatus::Outdated || status == LinkStatus::Predated || status
            == LinkStatus::Duplicate {
            return true;
        }
        k += 1;
    }
    false
}

} // verus!
