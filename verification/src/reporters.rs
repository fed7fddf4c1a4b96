//! Preparation of a trace result for an HTML report: identifiers that are
//! safe in HTML, descriptions rendered from Markdown, and the order in
//! which a report lists the items. Writing the report is left to the caller.

use crate::config::Config;
use crate::model::{
    id_text, Defect, ItemView, LinkedItemView, LinkedSpecificationItem,
};
use crate::text::{
    is_text_less, lemma_text_less_asymmetric, lemma_text_less_transitive, replace_all,
    replace_spec, string_of, text_less, to_chars,
};
use crate::tracer::{CoverageSummary, TraceResult, TraceResultView};
use vstd::prelude::*;

verus! {

/// The HTML that the `pulldown-cmark` crate renders a Markdown text to,
/// with strikethrough, tables, footnotes and task lists enabled.
pub uninterp spec fn markdown_html(markdown: Seq<char>) -> Seq<char>;

/// Renders Markdown to HTML with `pulldown_cmark::Parser::new_ext` and
/// `pulldown_cmark::html::push_html`, with the four extensions enabled.
/// The output depends on the text alone; it is the named result.
#[verifier::external_body]
fn render_markdown(markdown: &str) -> (html: String)
    ensures
        html@ == markdown_html(markdown@),
{
    let mut options = pulldown_cmark::Options::empty();
    options.insert(pulldown_cmark::Options::ENABLE_STRIKETHROUGH);
    options.insert(pulldown_cmark::Options::ENABLE_TABLES);
    options.insert(pulldown_cmark::Options::ENABLE_FOOTNOTES);
    options.insert(pulldown_cmark::Options::ENABLE_TASKLISTS);
    let mut html = String::new();
    pulldown_cmark::html::push_html(
        &mut html,
        pulldown_cmark::Parser::new_ext(markdown, options),
    );
    html
}

/// `id` with every `~`, `:`, space and `-` replaced by `_`.
pub open spec fn safe_html_id_spec(id: Seq<char>) -> Seq<char> {
    Seq::new(
        id.len(),
        |i: int|
            if id[i] == '~' || id[i] == ':' || id[i] == ' ' || id[i] == '-' {
                '_'
            } else {
                id[i]
            },
    )
}

/// A page with the item anchors made safe: `id="item-` and `href="#item-`
/// written with `_` in place of `-`, then every `~` replaced by `_`.
pub open spec fn fix_html_ids_spec(html: Seq<char>) -> Seq<char> {
    replace_spec(
        replace_spec(
            replace_spec(html, "id=\"item-"@, "id=\"item_"@),
            "href=\"#item-"@,
            "href=\"#item_"@,
        ),
        "~"@,
        "_"@,
    )
}

/// An item as a report shows it: its description rendered to HTML.
pub open spec fn rendered_item(item: LinkedItemView) -> LinkedItemView {
    LinkedItemView {
        item: ItemView {
            description: match item.item.description {
                Some(text) => Some(markdown_html(text)),
                None => None,
            },
            ..item.item
        },
        ..item
    }
}

/// Whether a report lists `a` before `b`: items that are covered by
/// something come first; among items alike in that, the canonical
/// identifier texts decide, in the order of strings.
pub open spec fn listed_before(a: LinkedItemView, b: LinkedItemView) -> bool {
    if (a.incoming_links.len() > 0) != (b.incoming_links.len() > 0) {
        a.incoming_links.len() > 0
    } else {
        text_less(id_text(a.item.id), id_text(b.item.id))
    }
}

/// The position at which `item` enters a sorted list: before the first
/// element that it is listed before, behind all others.
pub open spec fn insert_position(sorted: Seq<LinkedItemView>, item: LinkedItemView) -> int
    decreases sorted.len(),
{
    if sorted.len() == 0 {
        0
    } else if listed_before(item, sorted[0]) {
        0
    } else {
        1 + insert_position(sorted.drop_first(), item)
    }
}

/// The items in report order: sorted by `listed_before`, items that
/// neither precedes the other kept in their input order.
pub open spec fn report_order(items: Seq<LinkedItemView>) -> Seq<LinkedItemView>
    decreases items.len(),
{
    if items.len() == 0 {
        Seq::empty()
    } else {
        let sorted = report_order(items.drop_last());
        sorted.insert(insert_position(sorted, items.last()), items.last())
    }
}

/// The items of a report: each rendered, all in report order.
pub open spec fn report_items(items: Seq<LinkedItemView>) -> Seq<LinkedItemView> {
    report_order(Seq::new(items.len(), |i: int| rendered_item(items[i])))
}

/// Whether a report lists `a` before `b`.
fn is_listed_before(a: &LinkedSpecificationItem, b: &LinkedSpecificationItem) -> (r: bool)
    ensures
        r == listed_before(a@, b@),
{
    let a_covered = a.incoming_links.len() > 0;
    let b_covered = b.incoming_links.len() > 0;
    if a_covered != b_covered {
        a_covered
    } else {
        is_text_less(&a.item.id.to_string(), &b.item.id.to_string())
    }
}

/// Puts `item` into the sorted list `sorted`.
fn insert_in_order(sorted: &mut Vec<LinkedSpecificationItem>, item: LinkedSpecificationItem)
    ensures
        final(sorted).deep_view() == old(sorted).deep_view().insert(
            insert_position(old(sorted).deep_view(), item@),
            item@,
        ),
{
    let ghost before = sorted.deep_view();
    let mut at: usize = 0;
    assert(before.skip(0) =~= before);
    while at < sorted.len() && !is_listed_before(&item, &sorted[at])
        invariant
            at <= sorted.len(),
            before == sorted.deep_view(),
            insert_position(before, item@) == at + insert_position(before.skip(at as int), item@),
        decreases sorted.len() - at,
    {
        assert(before.skip(at as int)[0] == sorted[at as int]@);
        assert(before.skip(at as int).drop_first() =~= before.skip(at + 1));
        at += 1;
    }
    assert(insert_position(before, item@) == at) by {
        if at < sorted.len() {
            assert(before.skip(at as int)[0] == sorted[at as int]@);
        }
    }
    let ghost view = item@;
    sorted.insert(at, item);
    assert(sorted.deep_view() =~~= before.insert(at as int, view));
}

/// Prepares trace results for the HTML report.
pub struct HtmlReporter {}

impl HtmlReporter {
    /// Creates a reporter. The configuration is not consulted.
    pub fn new(_config: &Config) -> (reporter: Self) {
        Self {}
    }

    /// Makes the item anchors of a rendered page safe to link to.
    pub fn fix_html_ids(&self, html: String) -> (fixed: String)
        ensures
            fixed@ == fix_html_ids_spec(html@),
    {
        let ids = replace_all(html.as_str(), "id=\"item-", "id=\"item_");
        let links = replace_all(ids.as_str(), "href=\"#item-", "href=\"#item_");
        replace_all(links.as_str(), "~", "_")
    }

    /// Renders the description of every item to HTML and puts the items
    /// into report order; everything else of the result is kept.
    pub fn process_markdown_content(&self, trace_result: &TraceResult) -> (processed: TraceResult)
        ensures
            processed@ == (TraceResultView {
                items: report_items(trace_result@.items),
                ..trace_result@
            }),
    {
        let ghost items = trace_result@.items;
        let ghost rendered = Seq::new(items.len(), |i: int| rendered_item(items[i]));
        let mut sorted: Vec<LinkedSpecificationItem> = Vec::new();
        let mut i: usize = 0;
        assert(rendered.take(0) =~= Seq::<LinkedItemView>::empty());
        assert(sorted.deep_view() =~= report_order(rendered.take(0)));
        while i < trace_result.items.len()
            invariant
                i <= trace_result.items.len(),
                items == trace_result@.items,
                rendered == Seq::new(items.len(), |i: int| rendered_item(items[i])),
                sorted.deep_view() == report_order(rendered.take(i as int)),
            decreases trace_result.items.len() - i,
        {
            assert(items[i as int] == trace_result.items[i as int]@);
            let mut item = trace_result.items[i].clone();
            let description = match &item.item.description {
                Some(text) => Some(self.markdown_to_html(text.as_str())),
                None => None,
            };
            item.item.description = description;
            assert(item@ == rendered[i as int]);
            assert(rendered.take(i + 1).drop_last() =~= rendered.take(i as int));
            assert(rendered.take(i + 1).last() == rendered[i as int]);
            insert_in_order(&mut sorted, item);
            i += 1;
        }
        assert(rendered.take(trace_result.items.len() as int) =~= rendered);
        TraceResult {
            items: sorted,
            total_items: trace_result.total_items,
            defect_count: trace_result.defect_count,
            defects: clone_defects(&trace_result.defects),
            coverage_summary: clone_summary(&trace_result.coverage_summary),
            is_success: trace_result.is_success,
        }
    }

    /// Renders a Markdown text to HTML.
    pub fn markdown_to_html(&self, markdown: &str) -> (html: String)
        ensures
            html@ == markdown_html(markdown@),
    {
        render_markdown(markdown)
    }

    /// Turns an identifier into one that is safe as an HTML id.
    pub fn safe_html_id(&self, id: &str) -> (safe: String)
        ensures
            safe@ == safe_html_id_spec(id@),
    {
        let chars = to_chars(id);
        let mut out: Vec<char> = Vec::new();
        let mut i: usize = 0;
        while i < chars.len()
            invariant
                i <= chars.len(),
                chars@ == id@,
                out@ == safe_html_id_spec(id@).take(i as int),
            decreases chars.len() - i,
        {
            let c = chars[i];
            if c == '~' || c == ':' || c == ' ' || c == '-' {
                out.push('_');
            } else {
                out.push(c);
            }
            i += 1;
            assert(out@ =~= safe_html_id_spec(id@).take(i as int));
        }
        assert(safe_html_id_spec(id@).take(chars.len() as int) =~= safe_html_id_spec(id@));
        string_of(&out)
    }
}

/// Copies a list of defects.
fn clone_defects(v: &Vec<Defect>) -> (out: Vec<Defect>)
    ensures
        out.deep_view() == v.deep_view(),
{
    let mut out: Vec<Defect> = Vec::new();
    let mut i: usize = 0;
    while i < v.len()
        invariant
            i <= v.len(),
            out.len() == i,
            forall|j: int| 0 <= j < i ==> out[j]@ == v[j]@,
        decreases v.len() - i,
    {
        out.push(v[i].clone());
        i += 1;
    }
    assert(out.deep_view() =~~= v.deep_view());
    out
}

/// Copies a coverage summary.
fn clone_summary(v: &Vec<(String, CoverageSummary)>) -> (out: Vec<(String, CoverageSummary)>)
    ensures
        out.deep_view() == v.deep_view(),
{
    let mut out: Vec<(String, CoverageSummary)> = Vec::new();
    let mut i: usize = 0;
    while i < v.len()
        invariant
            i <= v.len(),
            out.len() == i,
            forall|j: int| 0 <= j < i ==> out[j].0@ == v[j].0@ && out[j].1 == v[j].1,
        decreases v.len() - i,
    {
        out.push((v[i].0.clone(), v[i].1));
        i += 1;
    }
    assert(out.deep_view() =~~= v.deep_view());
    out
}

/// Whether no item of `items` is listed before an item that stands
/// earlier in `items`.
pub open spec fn is_in_report_order(items: Seq<LinkedItemView>) -> bool {
    forall|i: int, j: int|
        0 <= i < j < items.len() ==> !listed_before(#[trigger] items[j], #[trigger] items[i])
}

/// Of two items at most one is listed before the other.
pub proof fn lemma_listed_before_asymmetric(a: LinkedItemView, b: LinkedItemView)
    ensures
        !(listed_before(a, b) && listed_before(b, a)),
{
    lemma_text_less_asymmetric(id_text(a.item.id), id_text(b.item.id));
}

/// Being listed before is transitive.
pub proof fn lemma_listed_before_transitive(
    a: LinkedItemView,
    b: LinkedItemView,
    c: LinkedItemView,
)
    requires
        listed_before(a, b),
        listed_before(b, c),
    ensures
        listed_before(a, c),
{
    if (a.incoming_links.len() > 0) == (b.incoming_links.len() > 0) && (b.incoming_links.len()
        > 0) == (c.incoming_links.len() > 0) {
        lemma_text_less_transitive(id_text(a.item.id), id_text(b.item.id), id_text(c.item.id));
    }
}

/// The item at the insert position is the first that `item` is listed before.
proof fn lemma_insert_position(sorted: Seq<LinkedItemView>, item: LinkedItemView)
    ensures
        0 <= insert_position(sorted, item) <= sorted.len(),
        forall|k: int|
            0 <= k < insert_position(sorted, item) ==> !listed_before(item, #[trigger] sorted[k]),
        insert_position(sorted, item) < sorted.len() ==> listed_before(
            item,
            sorted[insert_position(sorted, item)],
        ),
    decreases sorted.len(),
{
    if sorted.len() > 0 && !listed_before(item, sorted[0]) {
        let rest = sorted.drop_first();
        lemma_insert_position(rest, item);
        assert forall|k: int| 0 <= k < insert_position(sorted, item) implies !listed_before(
            item,
            #[trigger] sorted[k],
        ) by {
            if k > 0 {
                assert(sorted[k] == rest[k - 1]);
            }
        }
        if insert_position(sorted, item) < sorted.len() {
            assert(sorted[insert_position(sorted, item)] == rest[insert_position(rest, item)]);
        }
    }
}

/// Putting an item into a list in report order at its insert position
/// leaves the list in report order.
proof fn lemma_insert_keeps_order(sorted: Seq<LinkedItemView>, item: LinkedItemView)
    requires
        is_in_report_order(sorted),
    ensures
        is_in_report_order(sorted.insert(insert_position(sorted, item), item)),
{
    let at = insert_position(sorted, item);
    let out = sorted.insert(at, item);
    lemma_insert_position(sorted, item);
    assert forall|i: int, j: int| 0 <= i < j < out.len() implies !listed_before(
        #[trigger] out[j],
        #[trigger] out[i],
    ) by {
        if j == at {
            assert(out[i] == sorted[i]);
            lemma_listed_before_asymmetric(item, sorted[i]);
            if listed_before(item, sorted[i]) {
                assert(false);
            }
        } else if i == at {
            assert(out[j] == sorted[j - 1]);
            lemma_listed_before_asymmetric(item, sorted[at]);
            if listed_before(sorted[j - 1], item) {
                lemma_listed_before_transitive(sorted[j - 1], item, sorted[at]);
                if j - 1 > at {
                    assert(!listed_before(sorted[j - 1], sorted[at]));
                }
            }
        } else {
            let a = if i < at {
                i
            } else {
                i - 1
            };
            let b = if j < at {
                j
            } else {
                j - 1
            };
            assert(out[i] == sorted[a]);
            assert(out[j] == sorted[b]);
        }
    }
}

/// A report lists its items in report order.
pub proof fn lemma_report_order_is_sorted(items: Seq<LinkedItemView>)
    ensures
        is_in_report_order(report_order(items)),
    decreases items.len(),
{
    if items.len() > 0 {
        lemma_report_order_is_sorted(items.drop_last());
        lemma_insert_keeps_order(report_order(items.drop_last()), items.last());
    }
}

/// A report lists every item as often as it is given.
pub proof fn lemma_report_order_keeps_items(items: Seq<LinkedItemView>)
    ensures
        report_order(items).to_multiset() == items.to_multiset(),
        report_order(items).len() == items.len(),
    decreases items.len(),
{
    broadcast use vstd::seq_lib::group_to_multiset_ensures;

    if items.len() > 0 {
        let front = items.drop_last();
        let sorted = report_order(front);
        let at = insert_position(sorted, items.last());
        let out = sorted.insert(at, items.last());
        lemma_report_order_keeps_items(front);
        lemma_insert_position(sorted, items.last());
        assert(out.remove(at) =~= sorted);
        assert(out[at] == items.last());
        assert(out.remove(at).to_multiset() =~= out.to_multiset().remove(items.last()));
        assert(out.contains(items.last()));
        assert(out.to_multiset().count(items.last()) > 0);
        assert(out.to_multiset() =~= sorted.to_multiset().insert(items.last()));
        assert(front.push(items.last()) =~= items);
        assert(front.push(items.last()).to_multiset() =~= front.to_multiset().insert(
            items.last(),
        ));
    } else {
        assert(report_order(items) =~= items);
    }
}

} // verus!
