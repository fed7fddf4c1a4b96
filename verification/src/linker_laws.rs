//! What holds of every linking result.

use crate::linker::{
    analyzed_item, cover_links, duplicate_link, has_broken_link, has_covers_link, has_id,
    has_name, has_several_revisions, incoming_links_spec, is_duplicate_id, known_revision,
    lemma_name_is_known, lemma_single_revision, link_status_spec, linked_item_spec, linked_spec,
    outgoing_links_spec, resolved_items, shares_name, type_is_covered,
};
use crate::model::{is_broken, CoverageStatus, IdView, ItemView, LinkStatus, LinkedItemView};
use vstd::prelude::*;

verus! {

/// Linking keeps the items and their order: the linked item at position
/// `i` holds the item at position `i`.
pub proof fn lemma_linking_preserves_items(items: Seq<ItemView>, i: int)
    requires
        0 <= i < items.len(),
    ensures
        linked_spec(items).len() == items.len(),
        linked_item_spec(items, i).item == items[i],
        linked_item_spec(items, i).outgoing_links == outgoing_links_spec(items, items[i]),
        linked_item_spec(items, i).incoming_links == incoming_links_spec(items, items[i].id),
{
}

/// An item that needs nothing is covered, whatever covers it or fails to.
pub proof fn lemma_terminating_item_is_covered(items: Seq<ItemView>, i: int)
    requires
        0 <= i < items.len(),
        items[i].needs.len() == 0,
    ensures
        linked_item_spec(items, i).coverage_status == CoverageStatus::Covered,
{
}

/// Whether `existing` belongs to some item and no item has its artifact
/// type and name in another revision.
pub open spec fn is_only_revision(items: Seq<ItemView>, existing: IdView) -> bool {
    has_id(items, existing) && forall|j: int|
        0 <= j < items.len() && shares_name((#[trigger] items[j]).id, existing) ==> items[j].id
            == existing
}

/// A reference to a revision lower than the only existing revision of that
/// artifact type and name is outdated.
pub proof fn lemma_lower_revision_is_outdated(
    items: Seq<ItemView>,
    referenced: IdView,
    existing: IdView,
)
    requires
        shares_name(referenced, existing),
        referenced.revision < existing.revision,
        is_only_revision(items, existing),
    ensures
        link_status_spec(items, referenced) == LinkStatus::Outdated,
{
    lemma_only_revision(items, referenced, existing);
    lemma_status_by_revision(items, referenced);
}

/// A reference to a revision higher than the only existing revision of
/// that artifact type and name is predated.
pub proof fn lemma_higher_revision_is_predated(
    items: Seq<ItemView>,
    referenced: IdView,
    existing: IdView,
)
    requires
        shares_name(referenced, existing),
        referenced.revision > existing.revision,
        is_only_revision(items, existing),
    ensures
        link_status_spec(items, referenced) == LinkStatus::Predated,
{
    lemma_only_revision(items, referenced, existing);
    lemma_status_by_revision(items, referenced);
}

/// Where the exact identifier is absent and its name exists in one
/// revision, that revision decides between outdated and predated.
proof fn lemma_status_by_revision(items: Seq<ItemView>, target: IdView)
    requires
        !has_id(items, target),
        has_name(items, target),
        !has_several_revisions(items, target),
    ensures
        link_status_spec(items, target) == (if known_revision(items, target) > target.revision {
            LinkStatus::Outdated
        } else {
            LinkStatus::Predated
        }),
{
    reveal(link_status_spec);
}

/// Where `existing` is the only identifier of its artifact type and name,
/// a reference to another revision finds no exact match, finds the name,
/// and finds one revision: that of `existing`.
proof fn lemma_only_revision(items: Seq<ItemView>, referenced: IdView, existing: IdView)
    requires
        shares_name(referenced, existing),
        referenced.revision != existing.revision,
        is_only_revision(items, existing),
    ensures
        !has_id(items, referenced),
        has_name(items, referenced),
        !has_several_revisions(items, referenced),
        known_revision(items, referenced) == existing.revision,
{
    let w = choose|i: int| 0 <= i < items.len() && (#[trigger] items[i]).id == existing;
    assert forall|j: int|
        0 <= j < items.len() && shares_name((#[trigger] items[j]).id, referenced)
            implies items[j].id.revision == items[w].id.revision by {
        assert(shares_name(items[j].id, existing));
    }
    assert(shares_name(items[w].id, referenced));
    lemma_name_is_known(items, referenced, w);
    lemma_single_revision(items, referenced, w);
    if has_id(items, referenced) {
        let k = choose|k: int| 0 <= k < items.len() && (#[trigger] items[k]).id == referenced;
        assert(shares_name(items[k].id, existing));
    }
}

/// Two items that share an identifier are both defective, and the first
/// outgoing link of each is the duplicate link to itself.
pub proof fn lemma_duplicates_are_defects(items: Seq<ItemView>, i: int, j: int)
    requires
        0 <= i < items.len(),
        0 <= j < items.len(),
        i != j,
        items[i].id == items[j].id,
    ensures
        linked_item_spec(items, i).is_defect,
        linked_item_spec(items, j).is_defect,
        linked_item_spec(items, i).outgoing_links.len() > 0,
        linked_item_spec(items, j).outgoing_links.len() > 0,
        linked_item_spec(items, i).outgoing_links[0] == duplicate_link(items[i].id),
        linked_item_spec(items, j).outgoing_links[0] == duplicate_link(items[j].id),
{
    let id = items[i].id;
    if i < j {
        assert(0 <= i < j < items.len() && items[i].id == id && items[j].id == id);
    } else {
        assert(0 <= j < i < items.len() && items[j].id == id && items[i].id == id);
    }
    assert(is_duplicate_id(items, id));
    let resolved = resolved_items(items);
    let links = outgoing_links_spec(items, items[i]);
    assert(links[0] == duplicate_link(id));
    assert(is_broken(links[0].status));
    assert(has_broken_link(resolved[i].outgoing_links));
    let links_j = outgoing_links_spec(items, items[j]);
    assert(links_j[0] == duplicate_link(id));
    assert(is_broken(links_j[0].status));
    assert(has_broken_link(resolved[j].outgoing_links));
}

/// Whether some item of type `artifact_type` names `id` in its covers list.
pub open spec fn is_covered_by_type(items: Seq<ItemView>, id: IdView, artifact_type: Seq<char>)
    -> bool {
    exists|j: int|
        0 <= j < items.len() && (#[trigger] items[j]).id.artifact_type == artifact_type
            && items[j].covers.contains(id)
}

/// The outgoing links of an item hold a `Covers` link to `id` exactly if
/// the item names `id` in its covers list and links to `id` have that status.
proof fn lemma_covers_link(items: Seq<ItemView>, item: ItemView, id: IdView)
    ensures
        has_covers_link(outgoing_links_spec(items, item), id) <==> (item.covers.contains(id)
            && link_status_spec(items, id) == LinkStatus::Covers),
{
    let links = outgoing_links_spec(items, item);
    let covers = cover_links(items, item);
    let shift: int = if is_duplicate_id(items, item.id) {
        1
    } else {
        0
    };
    assert forall|c: int| 0 <= c < covers.len() implies #[trigger] links[c + shift]
        == covers[c] by {}
    if has_covers_link(links, id) {
        let k = choose|k: int|
            0 <= k < links.len() && (#[trigger] links[k]).target_id == id && links[k].status
                == LinkStatus::Covers;
        assert(k >= shift);
        assert(links[(k - shift) + shift] == covers[k - shift]);
        assert(item.covers[k - shift] == id);
    }
    if item.covers.contains(id) && link_status_spec(items, id) == LinkStatus::Covers {
        let c = choose|c: int| 0 <= c < item.covers.len() && item.covers[c] == id;
        assert(links[c + shift] == covers[c]);
        assert(links[c + shift].target_id == id);
    }
}

/// After linking, a need of `id` is satisfied exactly if an item of the
/// needed type covers `id` and links to `id` have status `Covers`.
pub proof fn lemma_satisfied_need(items: Seq<ItemView>, id: IdView, artifact_type: Seq<char>)
    ensures
        type_is_covered(resolved_items(items), id, artifact_type) <==> (link_status_spec(
            items,
            id,
        ) == LinkStatus::Covers && is_covered_by_type(items, id, artifact_type)),
{
    let resolved = resolved_items(items);
    assert forall|j: int| 0 <= j < items.len() implies (has_covers_link(
        (#[trigger] resolved[j]).outgoing_links,
        id,
    ) <==> (items[j].covers.contains(id) && link_status_spec(items, id) == LinkStatus::Covers)) by {
        lemma_covers_link(items, items[j], id);
    }
    if type_is_covered(resolved, id, artifact_type) {
        let j = choose|j: int|
            0 <= j < resolved.len() && (#[trigger] resolved[j]).item.id.artifact_type
                == artifact_type && resolved[j].item.covers.contains(id) && has_covers_link(
                resolved[j].outgoing_links,
                id,
            );
        assert(items[j].id.artifact_type == artifact_type && items[j].covers.contains(id));
    }
    if link_status_spec(items, id) == LinkStatus::Covers && is_covered_by_type(
        items,
        id,
        artifact_type,
    ) {
        let j = choose|j: int|
            0 <= j < items.len() && (#[trigger] items[j]).id.artifact_type == artifact_type
                && items[j].covers.contains(id);
        assert(resolved[j].item.id.artifact_type == artifact_type);
    }
}

/// Analysing coverage never clears a defect flag.
pub proof fn lemma_defect_flag_is_kept(linked: Seq<LinkedItemView>, i: int)
    requires
        0 <= i < linked.len(),
        linked[i].is_defect,
    ensures
        analyzed_item(linked, i).is_defect,
{
}

/// After linking, an item is flagged exactly if it is not covered or one
/// of its outgoing links is broken: the flag that a duplicate gets before
/// its links are resolved comes with a duplicate link.
pub proof fn lemma_defect_flag(items: Seq<ItemView>, i: int)
    requires
        0 <= i < items.len(),
    ensures
        linked_item_spec(items, i).is_defect <==> (linked_item_spec(items, i).coverage_status
            != CoverageStatus::Covered || has_broken_link(
            linked_item_spec(items, i).outgoing_links,
        )),
{
    if is_duplicate_id(items, items[i].id) {
        let links = outgoing_links_spec(items, items[i]);
        assert(links[0] == duplicate_link(items[i].id));
        assert(is_broken(links[0].status));
        assert(has_broken_link(resolved_items(items)[i].outgoing_links));
    }
}

} // verus!
