//! Identifiers, specification items and the records that linking produces.

use crate::error::{result_view, Error, ErrorView};
use crate::text::{
    clone_opt_string, clone_strings, decimal_digits, lemma_decimal_digits,
    lemma_split_on_append_plain, lemma_split_on_push_sep, parse_u32, parse_u32_spec, spaced,
    split_chars, split_on, string_of, to_chars, u32_to_chars, with_spaces,
};
use vstd::prelude::*;
use vstd::std_specs::cmp::PartialEqSpecImpl;
use vstd::string::StringExecFns;

verus! {

/// The identity of a specification item: artifact type, name and revision.
#[derive(Debug, Eq, Hash)]
pub struct SpecificationItemId {
    /// Artifact type, such as `feat`, `req`, `dsn`, `impl` or `utest`.
    pub artifact_type: String,
    /// Name of the item within its artifact type.
    pub name: String,
    /// Revision of the item.
    pub revision: u32,
}

/// An identifier as a mathematical value.
pub struct IdView {
    pub artifact_type: Seq<char>,
    pub name: Seq<char>,
    pub revision: u32,
}

impl DeepView for SpecificationItemId {
    type V = IdView;

    open spec fn deep_view(&self) -> IdView {
        IdView { artifact_type: self.artifact_type@, name: self.name@, revision: self.revision }
    }
}

impl View for SpecificationItemId {
    type V = IdView;

    open spec fn view(&self) -> IdView {
        self.deep_view()
    }
}

/// The canonical text of an identifier: `type~name~revision`.
pub open spec fn id_text(id: IdView) -> Seq<char> {
    id.artifact_type + seq!['~'] + id.name + seq!['~'] + decimal_digits(id.revision as nat)
}

/// The identifier that `s` denotes, if it consists of exactly three
/// `~`-separated segments of which the last is a revision number.
pub open spec fn parse_id_spec(s: Seq<char>) -> Option<IdView> {
    let parts = split_on(s, '~');
    if parts.len() == 3 && parse_u32_spec(parts[2]) is Some {
        Some(
            IdView {
                artifact_type: parts[0],
                name: parts[1],
                revision: parse_u32_spec(parts[2])->0,
            },
        )
    } else {
        None
    }
}

/// What is said of a string that is no identifier: that it lacks the form,
/// or, where it has three segments, that the third is no revision.
pub open spec fn invalid_id_message(s: Seq<char>) -> Seq<char> {
    let parts = split_on(s, '~');
    if parts.len() != 3 {
        "Invalid ID format '"@ + s + "'. Expected format: 'type~name~revision'"@
    } else {
        "Invalid revision number '"@ + parts[2] + "' in ID '"@ + s + "'"@
    }
}

/// What parsing `s` as an identifier yields.
pub open spec fn parse_id_result(s: Seq<char>) -> Result<IdView, ErrorView> {
    match parse_id_spec(s) {
        Some(id) => Ok(id),
        None => Err(ErrorView::InvalidId(invalid_id_message(s))),
    }
}

impl Clone for SpecificationItemId {
    fn clone(&self) -> (r: Self)
        ensures
            r@ == self@,
    {
        SpecificationItemId {
            artifact_type: self.artifact_type.clone(),
            name: self.name.clone(),
            revision: self.revision,
        }
    }
}

impl PartialEq for SpecificationItemId {
    fn eq(&self, other: &Self) -> (r: bool) {
        self.artifact_type == other.artifact_type && self.name == other.name && self.revision
            == other.revision
    }
}

impl PartialEqSpecImpl for SpecificationItemId {
    open spec fn obeys_eq_spec() -> bool {
        true
    }

    open spec fn eq_spec(&self, other: &Self) -> bool {
        self@ == other@
    }
}

impl SpecificationItemId {
    /// Creates an identifier from its three parts.
    pub fn new(artifact_type: String, name: String, revision: u32) -> (id: Self)
        ensures
            id@ == (IdView { artifact_type: artifact_type@, name: name@, revision }),
    {
        Self { artifact_type, name, revision }
    }

    /// Parses an identifier written as `type~name~revision`.
    pub fn parse(id_str: &str) -> (r: Result<Self, Error>)
        ensures
            result_view(r) == parse_id_result(id_str@),
    {
        let chars = to_chars(id_str);
        let parts = split_chars(&chars, '~');
        if parts.len() != 3 {
            let message = String::from_str("Invalid ID format '").concat(id_str).concat(
                "'. Expected format: 'type~name~revision'",
            );
            return Err(Error::InvalidId(message));
        }
        assert(parts.deep_view()[0] == parts[0]@);
        assert(parts.deep_view()[1] == parts[1]@);
        assert(parts.deep_view()[2] == parts[2]@);
        match parse_u32(&parts[2]) {
            Some(revision) => {
                let artifact_type = string_of(&parts[0]);
                let name = string_of(&parts[1]);
                Ok(Self::new(artifact_type, name, revision))
            },
            None => {
                let shown = string_of(&parts[2]);
                let message = String::from_str("Invalid revision number '").concat(
                    shown.as_str(),
                ).concat("' in ID '").concat(id_str).concat("'");
                Err(Error::InvalidId(message))
            },
        }
    }

    /// The canonical text of this identifier, `type~name~revision`.
    pub fn to_string(&self) -> (s: String)
        ensures
            s@ == id_text(self@),
    {
        let digits = u32_to_chars(self.revision);
        let shown = string_of(&digits);
        proof {
            reveal_strlit("~");
            assert("~"@ == seq!['~']);
        }
        self.artifact_type.clone().concat("~").concat(self.name.as_str()).concat("~").concat(
            shown.as_str(),
        )
    }
}

/// Writing an identifier and reading it back gives the same identifier,
/// provided that neither its artifact type nor its name holds a `~`.
pub proof fn lemma_parse_display_round_trip(id: IdView)
    requires
        !id.artifact_type.contains('~'),
        !id.name.contains('~'),
    ensures
        parse_id_spec(id_text(id)) == Some(id),
        parse_id_result(id_text(id)) == Ok::<IdView, ErrorView>(id),
{
    let sep = '~';
    let empty = Seq::<char>::empty();
    let digits = decimal_digits(id.revision as nat);
    lemma_decimal_digits(id.revision as nat);
    let a = id.artifact_type;
    let s1 = a.push(sep);
    let s2 = s1 + id.name;
    let s3 = s2.push(sep);
    let s4 = s3 + digits;
    assert(split_on(empty, sep) == seq![empty]);
    lemma_split_on_append_plain(empty, a, sep);
    assert(empty + a == a);
    assert(split_on(a, sep) == seq![a]);
    lemma_split_on_push_sep(a, sep);
    assert(split_on(s1, sep) == seq![a, empty]);
    lemma_split_on_append_plain(s1, id.name, sep);
    assert(empty + id.name == id.name);
    assert(split_on(s2, sep) == seq![a, id.name]);
    lemma_split_on_push_sep(s2, sep);
    assert(split_on(s3, sep) == seq![a, id.name, empty]);
    lemma_split_on_append_plain(s3, digits, sep);
    assert(empty + digits == digits);
    assert(split_on(s4, sep) == seq![a, id.name, digits]);
    assert(id_text(id) == s4);
}

/// Approval state of a specification item.
#[derive(Debug, Clone, Copy, PartialEq, Eq, Structural)]
pub enum ItemStatus {
    Draft,
    Proposed,
    Approved,
    Rejected,
}

impl DeepView for ItemStatus {
    type V = ItemStatus;

    open spec fn deep_view(&self) -> ItemStatus {
        *self
    }
}

impl Default for ItemStatus {
    fn default() -> (r: Self)
        ensures
            r == ItemStatus::Approved,
    {
        ItemStatus::Approved
    }
}

/// The lower-case word for an approval state.
pub open spec fn item_status_text(status: ItemStatus) -> Seq<char> {
    match status {
        ItemStatus::Draft => "draft"@,
        ItemStatus::Proposed => "proposed"@,
        ItemStatus::Approved => "approved"@,
        ItemStatus::Rejected => "rejected"@,
    }
}

impl ItemStatus {
    /// The lower-case word for this state.
    pub fn to_string(&self) -> (s: String)
        ensures
            s@ == item_status_text(*self),
    {
        match self {
            ItemStatus::Draft => String::from_str("draft"),
            ItemStatus::Proposed => String::from_str("proposed"),
            ItemStatus::Approved => String::from_str("approved"),
            ItemStatus::Rejected => String::from_str("rejected"),
        }
    }
}

/// Where an item was declared: a file path and a line, counted from 1.
#[derive(Debug, PartialEq, Eq)]
pub struct Location {
    /// Path of the file that holds the declaration.
    pub path: String,
    /// Line of the declaration.
    pub line: u32,
}

/// A location as a mathematical value.
pub struct LocationView {
    pub path: Seq<char>,
    pub line: u32,
}

impl DeepView for Location {
    type V = LocationView;

    open spec fn deep_view(&self) -> LocationView {
        LocationView { path: self.path@, line: self.line }
    }
}

impl View for Location {
    type V = LocationView;

    open spec fn view(&self) -> LocationView {
        self.deep_view()
    }
}

/// The text of a location: `path:line`.
pub open spec fn location_text(loc: LocationView) -> Seq<char> {
    loc.path + seq![':'] + decimal_digits(loc.line as nat)
}

impl Clone for Location {
    fn clone(&self) -> (r: Self)
        ensures
            r@ == self@,
    {
        Location { path: self.path.clone(), line: self.line }
    }
}

impl Location {
    /// Creates a location from a path and a line.
    pub fn new(path: String, line: u32) -> (loc: Self)
        ensures
            loc@ == (LocationView { path: path@, line }),
    {
        Self { path, line }
    }

    /// The text of this location, `path:line`.
    pub fn to_string(&self) -> (s: String)
        ensures
            s@ == location_text(self@),
    {
        let digits = u32_to_chars(self.line);
        let shown = string_of(&digits);
        proof {
            reveal_strlit(":");
            assert(":"@ == seq![':']);
        }
        self.path.clone().concat(":").concat(shown.as_str())
    }
}

/// Copies a list of identifiers.
pub fn clone_ids(v: &Vec<SpecificationItemId>) -> (out: Vec<SpecificationItemId>)
    ensures
        out.deep_view() == v.deep_view(),
{
    let mut out: Vec<SpecificationItemId> = Vec::new();
    let mut i: usize = 0;
    while i < v.len()
        invariant
            i <= v.len(),
            out.len() == i,
            forall|j: int| 0 <= j < i ==> out[j]@ == v[j]@,
        decreases v.len() - i,
    {
        out.push(v[i].clone());
        i += 1;
    }
    assert(out.deep_view() =~~= v.deep_view());
    out
}

/// A requirement, design, implementation or test, as declared in a source.
#[derive(Debug, PartialEq, Eq)]
pub struct SpecificationItem {
    /// Identity of the item.
    pub id: SpecificationItemId,
    /// Title, if one was given.
    pub title: Option<String>,
    /// Description of the item.
    pub description: Option<String>,
    /// Why the item exists.
    pub rationale: Option<String>,
    /// Free comment.
    pub comment: Option<String>,
    /// Approval state.
    pub status: ItemStatus,
    /// Tags attached to the item.
    pub tags: Vec<String>,
    /// Artifact types by which this item expects to be covered.
    pub needs: Vec<String>,
    /// Identifiers that this item claims to cover.
    pub covers: Vec<SpecificationItemId>,
    /// Identifiers that this item depends on; informational.
    pub depends: Vec<SpecificationItemId>,
    /// Where the item was declared.
    pub location: Option<Location>,
}

/// An item as a mathematical value.
pub struct ItemView {
    pub id: IdView,
    pub title: Option<Seq<char>>,
    pub description: Option<Seq<char>>,
    pub rationale: Option<Seq<char>>,
    pub comment: Option<Seq<char>>,
    pub status: ItemStatus,
    pub tags: Seq<Seq<char>>,
    pub needs: Seq<Seq<char>>,
    pub covers: Seq<IdView>,
    pub depends: Seq<IdView>,
    pub location: Option<LocationView>,
}

impl DeepView for SpecificationItem {
    type V = ItemView;

    open spec fn deep_view(&self) -> ItemView {
        ItemView {
            id: self.id@,
            title: self.title.deep_view(),
            description: self.description.deep_view(),
            rationale: self.rationale.deep_view(),
            comment: self.comment.deep_view(),
            status: self.status,
            tags: self.tags.deep_view(),
            needs: self.needs.deep_view(),
            covers: self.covers.deep_view(),
            depends: self.depends.deep_view(),
            location: self.location.deep_view(),
        }
    }
}

impl View for SpecificationItem {
    type V = ItemView;

    open spec fn view(&self) -> ItemView {
        self.deep_view()
    }
}

/// The item that holds an identifier and nothing else: no texts, approved,
/// empty lists, no location.
pub open spec fn bare_item(id: IdView) -> ItemView {
    ItemView {
        id,
        title: None,
        description: None,
        rationale: None,
        comment: None,
        status: ItemStatus::Approved,
        tags: Seq::empty(),
        needs: Seq::empty(),
        covers: Seq::empty(),
        depends: Seq::empty(),
        location: None,
    }
}

/// The title of an item, or, where it has none, its name with `-` and `_`
/// turned into spaces.
pub open spec fn title_or_fallback_spec(item: ItemView) -> Seq<char> {
    match item.title {
        Some(title) => title,
        None => spaced(item.id.name),
    }
}

impl Clone for SpecificationItem {
    fn clone(&self) -> (r: Self)
        ensures
            r@ == self@,
    {
        let location = match &self.location {
            Some(loc) => Some(loc.clone()),
            None => None,
        };
        SpecificationItem {
            id: self.id.clone(),
            title: clone_opt_string(&self.title),
            description: clone_opt_string(&self.description),
            rationale: clone_opt_string(&self.rationale),
            comment: clone_opt_string(&self.comment),
            status: self.status,
            tags: clone_strings(&self.tags),
            needs: clone_strings(&self.needs),
            covers: clone_ids(&self.covers),
            depends: clone_ids(&self.depends),
            location,
        }
    }
}

impl SpecificationItem {
    /// Creates an item that holds only its identifier.
    pub fn new(id: SpecificationItemId) -> (item: Self)
        ensures
            item@ == bare_item(id@),
    {
        let item = Self {
            id,
            title: None,
            description: None,
            rationale: None,
            comment: None,
            status: ItemStatus::default(),
            tags: Vec::new(),
            needs: Vec::new(),
            covers: Vec::new(),
            depends: Vec::new(),
            location: None,
        };
        assert(item@.tags =~= Seq::empty());
        assert(item@.needs =~= Seq::empty());
        assert(item@.covers =~= Seq::empty());
        assert(item@.depends =~= Seq::empty());
        item
    }

    /// Starts a builder for an item with the given identifier.
    pub fn builder(id: SpecificationItemId) -> (b: SpecificationItemBuilder)
        ensures
            b@ == bare_item(id@),
    {
        SpecificationItemBuilder::new(id)
    }

    /// The title, or a readable form of the name where no title is set.
    pub fn title_or_fallback(&self) -> (title: String)
        ensures
            title@ == title_or_fallback_spec(self@),
    {
        match &self.title {
            Some(title) => title.clone(),
            None => with_spaces(self.id.name.as_str()),
        }
    }

    /// Whether this item expects no coverage at all.
    pub fn is_terminating(&self) -> (r: bool)
        ensures
            r == (self@.needs.len() == 0),
    {
        self.needs.is_empty()
    }
}

/// Accumulates the fields of an item; only `build` hands the item out.
pub struct SpecificationItemBuilder {
    item: SpecificationItem,
}

impl View for SpecificationItemBuilder {
    type V = ItemView;

    closed spec fn view(&self) -> ItemView {
        self.item@
    }
}

impl SpecificationItemBuilder {
    /// A builder whose item holds only the identifier.
    pub fn new(id: SpecificationItemId) -> (b: Self)
        ensures
            b@ == bare_item(id@),
    {
        Self { item: SpecificationItem::new(id) }
    }

    /// Sets the title.
    pub fn title(self, title: String) -> (b: Self)
        ensures
            b@ == (ItemView { title: Some(title@), ..self@ }),
    {
        let mut item = self.item;
        item.title = Some(title);
        Self { item }
    }

    /// Sets the description.
    pub fn description(self, description: String) -> (b: Self)
        ensures
            b@ == (ItemView { description: Some(description@), ..self@ }),
    {
        let mut item = self.item;
        item.description = Some(description);
        Self { item }
    }

    /// Sets the rationale.
    pub fn rationale(self, rationale: String) -> (b: Self)
        ensures
            b@ == (ItemView { rationale: Some(rationale@), ..self@ }),
    {
        let mut item = self.item;
        item.rationale = Some(rationale);
        Self { item }
    }

    /// Sets the comment.
    pub fn comment(self, comment: String) -> (b: Self)
        ensures
            b@ == (ItemView { comment: Some(comment@), ..self@ }),
    {
        let mut item = self.item;
        item.comment = Some(comment);
        Self { item }
    }

    /// Sets the approval state.
    pub fn status(self, status: ItemStatus) -> (b: Self)
        ensures
            b@ == (ItemView { status, ..self@ }),
    {
        let mut item = self.item;
        item.status = status;
        Self { item }
    }

    /// Appends one tag.
    pub fn tag(self, tag: String) -> (b: Self)
        ensures
            b@ == (ItemView { tags: self@.tags.push(tag@), ..self@ }),
    {
        let mut item = self.item;
        let ghost before = item@;
        item.tags.push(tag);
        assert(item@.tags =~~= before.tags.push(tag@));
        Self { item }
    }

    /// Appends several tags, in order.
    pub fn tags(self, tags: Vec<String>) -> (b: Self)
        ensures
            b@ == (ItemView { tags: self@.tags + tags.deep_view(), ..self@ }),
    {
        let mut item = self.item;
        let mut tags = tags;
        let ghost before = item@;
        let ghost added = tags.deep_view();
        item.tags.append(&mut tags);
        assert(item@.tags =~~= before.tags + added);
        Self { item }
    }

    /// Appends one needed artifact type.
    pub fn needs(self, artifact_type: String) -> (b: Self)
        ensures
            b@ == (ItemView { needs: self@.needs.push(artifact_type@), ..self@ }),
    {
        let mut item = self.item;
        let ghost before = item@;
        item.needs.push(artifact_type);
        assert(item@.needs =~~= before.needs.push(artifact_type@));
        Self { item }
    }

    /// Appends several needed artifact types, in order.
    pub fn needs_multiple(self, artifact_types: Vec<String>) -> (b: Self)
        ensures
            b@ == (ItemView { needs: self@.needs + artifact_types.deep_view(), ..self@ }),
    {
        let mut item = self.item;
        let mut artifact_types = artifact_types;
        let ghost before = item@;
        let ghost added = artifact_types.deep_view();
        item.needs.append(&mut artifact_types);
        assert(item@.needs =~~= before.needs + added);
        Self { item }
    }

    /// Appends one covered identifier.
    pub fn covers(self, covered_id: SpecificationItemId) -> (b: Self)
        ensures
            b@ == (ItemView { covers: self@.covers.push(covered_id@), ..self@ }),
    {
        let mut item = self.item;
        let ghost before = item@;
        item.covers.push(covered_id);
        assert(item@.covers =~~= before.covers.push(covered_id@));
        Self { item }
    }

    /// Appends several covered identifiers, in order.
    pub fn covers_multiple(self, covered_ids: Vec<SpecificationItemId>) -> (b: Self)
        ensures
            b@ == (ItemView { covers: self@.covers + covered_ids.deep_view(), ..self@ }),
    {
        let mut item = self.item;
        let mut covered_ids = covered_ids;
        let ghost before = item@;
        let ghost added = covered_ids.deep_view();
        item.covers.append(&mut covered_ids);
        assert(item@.covers =~~= before.covers + added);
        Self { item }
    }

    /// Appends one dependency.
    pub fn depends(self, dependency: SpecificationItemId) -> (b: Self)
        ensures
            b@ == (ItemView { depends: self@.depends.push(dependency@), ..self@ }),
    {
        let mut item = self.item;
        let ghost before = item@;
        item.depends.push(dependency);
        assert(item@.depends =~~= before.depends.push(dependency@));
        Self { item }
    }

    /// Sets the location.
    pub fn location(self, location: Location) -> (b: Self)
        ensures
            b@ == (ItemView { location: Some(location@), ..self@ }),
    {
        let mut item = self.item;
        item.location = Some(location);
        Self { item }
    }

    /// Hands out the finished item.
    pub fn build(self) -> (item: SpecificationItem)
        ensures
            item@ == self@,
    {
        self.item
    }
}

/// Classification of one directed coverage edge.
#[derive(Debug, Clone, Copy, PartialEq, Eq, Structural)]
pub enum LinkStatus {
    /// The target exists and asks for coverage.
    Covers,
    /// The only item of that type and name has a revision that is not higher.
    Predated,
    /// The only item of that type and name has a higher revision.
    Outdated,
    /// Several items share the target's type and name, none its revision.
    Ambiguous,
    /// The target exists but asks for no coverage.
    Unwanted,
    /// No item has the target's type and name.
    Orphaned,
    /// Incoming: another item covers this one.
    CoveredShallow,
    /// Incoming: covered although no coverage is asked for.
    CoveredUnwanted,
    /// Incoming: covered by an item that names a newer revision.
    CoveredPredated,
    /// Incoming: covered by an item that names an older revision.
    CoveredOutdated,
    /// The item's identifier occurs more than once.
    Duplicate,
}

impl DeepView for LinkStatus {
    type V = LinkStatus;

    open spec fn deep_view(&self) -> LinkStatus {
        *self
    }
}

/// The words for a link status.
pub open spec fn link_status_text(status: LinkStatus) -> Seq<char> {
    match status {
        LinkStatus::Covers => "covers"@,
        LinkStatus::Predated => "predated"@,
        LinkStatus::Outdated => "outdated"@,
        LinkStatus::Ambiguous => "ambiguous"@,
        LinkStatus::Unwanted => "unwanted"@,
        LinkStatus::Orphaned => "orphaned"@,
        LinkStatus::CoveredShallow => "covered shallow"@,
        LinkStatus::CoveredUnwanted => "covered unwanted"@,
        LinkStatus::CoveredPredated => "covered predated"@,
        LinkStatus::CoveredOutdated => "covered outdated"@,
        LinkStatus::Duplicate => "duplicate"@,
    }
}

impl LinkStatus {
    /// The words for this status.
    pub fn to_string(&self) -> (s: String)
        ensures
            s@ == link_status_text(*self),
    {
        match self {
            LinkStatus::Covers => String::from_str("covers"),
            LinkStatus::Predated => String::from_str("predated"),
            LinkStatus::Outdated => String::from_str("outdated"),
            LinkStatus::Ambiguous => String::from_str("ambiguous"),
            LinkStatus::Unwanted => String::from_str("unwanted"),
            LinkStatus::Orphaned => String::from_str("orphaned"),
            LinkStatus::CoveredShallow => String::from_str("covered shallow"),
            LinkStatus::CoveredUnwanted => String::from_str("covered unwanted"),
            LinkStatus::CoveredPredated => String::from_str("covered predated"),
            LinkStatus::CoveredOutdated => String::from_str("covered outdated"),
            LinkStatus::Duplicate => String::from_str("duplicate"),
        }
    }
}

/// Whether an outgoing link with this status makes its item defective.
pub open spec fn is_broken(status: LinkStatus) -> bool {
    status == LinkStatus::Orphaned || status == LinkStatus::Ambiguous || status
        == LinkStatus::Outdated || status == LinkStatus::Predated || status
        == LinkStatus::Duplicate
}

/// How far the needs of an item, or the items of a group, are met.
#[derive(Debug, Clone, Copy, PartialEq, Eq, Structural)]
pub enum CoverageStatus {
    /// Everything that is asked for is there.
    Covered,
    /// Nothing that is asked for is there.
    Uncovered,
    /// Some of what is asked for is there.
    Partial,
}

impl DeepView for CoverageStatus {
    type V = CoverageStatus;

    open spec fn deep_view(&self) -> CoverageStatus {
        *self
    }
}

/// The word for a coverage status.
pub open spec fn coverage_status_text(status: CoverageStatus) -> Seq<char> {
    match status {
        CoverageStatus::Covered => "covered"@,
        CoverageStatus::Uncovered => "uncovered"@,
        CoverageStatus::Partial => "partial"@,
    }
}

impl CoverageStatus {
    /// The word for this status.
    pub fn to_string(&self) -> (s: String)
        ensures
            s@ == coverage_status_text(*self),
    {
        match self {
            CoverageStatus::Covered => String::from_str("covered"),
            CoverageStatus::Uncovered => String::from_str("uncovered"),
            CoverageStatus::Partial => String::from_str("partial"),
        }
    }
}

/// One directed coverage edge.
#[derive(Debug)]
pub struct Link {
    /// The covering item, where known.
    pub source_id: Option<SpecificationItemId>,
    /// The covered item.
    pub target_id: SpecificationItemId,
    /// Classification of the edge.
    pub status: LinkStatus,
}

/// A link as a mathematical value.
pub struct LinkView {
    pub source_id: Option<IdView>,
    pub target_id: IdView,
    pub status: LinkStatus,
}

impl DeepView for Link {
    type V = LinkView;

    open spec fn deep_view(&self) -> LinkView {
        LinkView {
            source_id: self.source_id.deep_view(),
            target_id: self.target_id@,
            status: self.status,
        }
    }
}

impl View for Link {
    type V = LinkView;

    open spec fn view(&self) -> LinkView {
        self.deep_view()
    }
}

impl Clone for Link {
    fn clone(&self) -> (r: Self)
        ensures
            r@ == self@,
    {
        let source_id = match &self.source_id {
            Some(id) => Some(id.clone()),
            None => None,
        };
        Link { source_id, target_id: self.target_id.clone(), status: self.status }
    }
}

/// Copies a list of links.
pub fn clone_links(v: &Vec<Link>) -> (out: Vec<Link>)
    ensures
        out.deep_view() == v.deep_view(),
{
    let mut out: Vec<Link> = Vec::new();
    let mut i: usize = 0;
    while i < v.len()
        invariant
            i <= v.len(),
            out.len() == i,
            forall|j: int| 0 <= j < i ==> out[j]@ == v[j]@,
        decreases v.len() - i,
    {
        out.push(v[i].clone());
        i += 1;
    }
    assert(out.deep_view() =~~= v.deep_view());
    out
}

/// An item together with its resolved links and what follows from them.
#[derive(Debug)]
pub struct LinkedSpecificationItem {
    /// The item as it was imported.
    pub item: SpecificationItem,
    /// One link per covered identifier, and a self-link where the
    /// identifier is a duplicate.
    pub outgoing_links: Vec<Link>,
    /// One link per item that covers this one.
    pub incoming_links: Vec<Link>,
    /// Whether the item's needs are met.
    pub coverage_status: CoverageStatus,
    /// Whether anything is wrong with the item.
    pub is_defect: bool,
}

/// A linked item as a mathematical value.
pub struct LinkedItemView {
    pub item: ItemView,
    pub outgoing_links: Seq<LinkView>,
    pub incoming_links: Seq<LinkView>,
    pub coverage_status: CoverageStatus,
    pub is_defect: bool,
}

impl DeepView for LinkedSpecificationItem {
    type V = LinkedItemView;

    open spec fn deep_view(&self) -> LinkedItemView {
        LinkedItemView {
            item: self.item@,
            outgoing_links: self.outgoing_links.deep_view(),
            incoming_links: self.incoming_links.deep_view(),
            coverage_status: self.coverage_status,
            is_defect: self.is_defect,
        }
    }
}

impl View for LinkedSpecificationItem {
    type V = LinkedItemView;

    open spec fn view(&self) -> LinkedItemView {
        self.deep_view()
    }
}

impl Clone for LinkedSpecificationItem {
    fn clone(&self) -> (r: Self)
        ensures
            r@ == self@,
    {
        LinkedSpecificationItem {
            item: self.item.clone(),
            outgoing_links: clone_links(&self.outgoing_links),
            incoming_links: clone_links(&self.incoming_links),
            coverage_status: self.coverage_status,
            is_defect: self.is_defect,
        }
    }
}

impl LinkedSpecificationItem {
    /// Wraps an item: no links yet, uncovered, no defect.
    pub fn new(item: SpecificationItem) -> (linked: Self)
        ensures
            linked@ == (LinkedItemView {
                item: item@,
                outgoing_links: Seq::empty(),
                incoming_links: Seq::empty(),
                coverage_status: CoverageStatus::Uncovered,
                is_defect: false,
            }),
    {
        let linked = Self {
            item,
            outgoing_links: Vec::new(),
            incoming_links: Vec::new(),
            coverage_status: CoverageStatus::Uncovered,
            is_defect: false,
        };
        assert(linked@.outgoing_links =~= Seq::empty());
        assert(linked@.incoming_links =~= Seq::empty());
        linked
    }

    /// The identifier of the item.
    pub fn id(&self) -> (id: &SpecificationItemId)
        ensures
            id@ == self@.item.id,
    {
        &self.item.id
    }

    /// The title of the item, or a readable form of its name.
    pub fn title(&self) -> (title: String)
        ensures
            title@ == title_or_fallback_spec(self@.item),
    {
        self.item.title_or_fallback()
    }

    /// Whether the item's needs are all met.
    pub fn is_covered(&self) -> (r: bool)
        ensures
            r == (self@.coverage_status == CoverageStatus::Covered),
    {
        self.coverage_status == CoverageStatus::Covered
    }

    /// Appends a link from this item to `target_id`.
    pub fn add_outgoing_link(&mut self, target_id: SpecificationItemId, status: LinkStatus)
        ensures
            final(self)@ == (LinkedItemView {
                outgoing_links: old(self)@.outgoing_links.push(
                    LinkView {
                        source_id: Some(old(self)@.item.id),
                        target_id: target_id@,
                        status,
                    },
                ),
                ..old(self)@
            }),
    {
        let ghost before = self@;
        let link = Link { source_id: Some(self.item.id.clone()), target_id, status };
        self.outgoing_links.push(link);
        assert(self@.outgoing_links =~~= before.outgoing_links.push(link@));
    }

    /// Appends a link from `source_id` to this item.
    pub fn add_incoming_link(&mut self, source_id: SpecificationItemId, status: LinkStatus)
        ensures
            final(self)@ == (LinkedItemView {
                incoming_links: old(self)@.incoming_links.push(
                    LinkView {
                        source_id: Some(source_id@),
                        target_id: old(self)@.item.id,
                        status,
                    },
                ),
                ..old(self)@
            }),
    {
        let ghost before = self@;
        let link = Link { source_id: Some(source_id), target_id: self.item.id.clone(), status };
        self.incoming_links.push(link);
        assert(self@.incoming_links =~~= before.incoming_links.push(link@));
    }
}

/// Kinds of defect.
#[derive(Debug, Clone, Copy, PartialEq, Eq, Hash, Structural)]
pub enum DefectType {
    /// An item lacks coverage that it asks for.
    UncoveredItem,
    /// An item covers something that does not exist.
    OrphanedCoverage,
    /// Several items share one identifier.
    DuplicateItem,
    /// An item covers another revision than the one that exists.
    WrongRevision,
    /// Items depend on each other in a circle.
    CircularDependency,
}

impl DeepView for DefectType {
    type V = DefectType;

    open spec fn deep_view(&self) -> DefectType {
        *self
    }
}

/// The word for a kind of defect.
pub open spec fn defect_type_text(kind: DefectType) -> Seq<char> {
    match kind {
        DefectType::UncoveredItem => "uncovered"@,
        DefectType::OrphanedCoverage => "orphaned"@,
        DefectType::DuplicateItem => "duplicate"@,
        DefectType::WrongRevision => "wrong-revision"@,
        DefectType::CircularDependency => "circular-dependency"@,
    }
}

impl DefectType {
    /// The word for this kind of defect.
    pub fn to_string(&self) -> (s: String)
        ensures
            s@ == defect_type_text(*self),
    {
        match self {
            DefectType::UncoveredItem => String::from_str("uncovered"),
            DefectType::OrphanedCoverage => String::from_str("orphaned"),
            DefectType::DuplicateItem => String::from_str("duplicate"),
            DefectType::WrongRevision => String::from_str("wrong-revision"),
            DefectType::CircularDependency => String::from_str("circular-dependency"),
        }
    }
}

/// One finding of the analysis.
#[derive(Debug)]
pub struct Defect {
    /// Kind of the defect.
    pub defect_type: DefectType,
    /// What is wrong, in words.
    pub description: String,
    /// The item that the defect is about.
    pub item_id: Option<SpecificationItemId>,
}

/// A defect as a mathematical value.
pub struct DefectView {
    pub defect_type: DefectType,
    pub description: Seq<char>,
    pub item_id: Option<IdView>,
}

impl DeepView for Defect {
    type V = DefectView;

    open spec fn deep_view(&self) -> DefectView {
        DefectView {
            defect_type: self.defect_type,
            description: self.description@,
            item_id: self.item_id.deep_view(),
        }
    }
}

impl View for Defect {
    type V = DefectView;

    open spec fn view(&self) -> DefectView {
        self.deep_view()
    }
}

impl Clone for Defect {
    fn clone(&self) -> (r: Self)
        ensures
            r@ == self@,
    {
        let item_id = match &self.item_id {
            Some(id) => Some(id.clone()),
            None => None,
        };
        Defect { defect_type: self.defect_type, description: self.description.clone(), item_id }
    }
}

} // verus!
