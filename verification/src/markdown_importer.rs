//! Import of specification items from Markdown documents.
//!
//! An item is declared by a backtick-quoted identifier anywhere in a line,
//! or by a bare identifier in a heading. The lines that follow, up to the
//! next declaration, give its attributes. Importing works in two steps:
//! every line is classified on its own, with the regular expressions; then
//! the items are assembled from the classified lines.

use crate::config::{default_config, names_markdown_file, Config};
use crate::error::{result_view, Error, ErrorView};
use crate::import::{
    append_items, concat_results, lemma_concat_results_error, lemma_concat_results_step,
    line_limit, line_limit_error, read_revision, revision_error, SourceFile, SourceFileView,
    Yield,
};
use crate::model::{
    bare_item, clone_ids, id_text, IdView, ItemStatus, ItemView, Location, LocationView,
    SpecificationItem, SpecificationItemBuilder, SpecificationItemId,
};
use crate::pattern::{
    captures, compile_pattern, get_group, get_group_text, group, group_text, is_match,
    lowercase, lowercased, regex_captures, regex_is_match, regex_source, Captures,
};
use crate::text::{
    clone_strings, comma_list_spec, copy_range, find_chars, find_spec, lines_spec,
    parse_comma_list, parse_u32, parse_u32_spec, split_lines, string_of, to_chars, trim_chars,
    trim_spec, trim_start_index, trim_start_spec,
};
use vstd::prelude::*;
use vstd::string::StringExecFns;

verus! {

/// A backtick-quoted identifier. Groups: 1 type, 2 name, 3 revision.
pub const ID_PATTERN: &'static str = r"`([a-zA-Z]+)~([a-zA-Z0-9._-]+)~(\d+)`";

/// A line `Needs:` with a list in group 1.
pub const NEEDS_PATTERN: &'static str = r"(?i)^\*?\*?Needs:\*?\*?\s*(.+)$";

/// A line `Covers:` with nothing after it.
pub const COVERS_PATTERN: &'static str = r"(?i)^\*?\*?Covers:\*?\*?\s*$";

/// A line `Covers:` with a list in group 1.
pub const COVERS_INLINE_PATTERN: &'static str = r"(?i)^\*?\*?Covers:\*?\*?\s*(.+)$";

/// A line `Depends:` with nothing after it.
pub const DEPENDS_PATTERN: &'static str = r"(?i)^\*?\*?Depends:\*?\*?\s*$";

/// A line `Tags:` with a list in group 1.
pub const TAGS_PATTERN: &'static str = r"(?i)^\*?\*?Tags:\*?\*?\s*(.+)$";

/// A line `Status:` with one of the four states in group 1.
pub const STATUS_PATTERN: &'static str =
    r"(?i)^\*?\*?Status:\*?\*?\s*(draft|proposed|approved|rejected)\s*$";

/// A line `Rationale:` with nothing after it.
pub const RATIONALE_PATTERN: &'static str = r"(?i)^\*?\*?Rationale:\*?\*?\s*$";

/// A line `Comment:` with nothing after it.
pub const COMMENT_PATTERN: &'static str = r"(?i)^\*?\*?Comment:\*?\*?\s*$";

/// A bare identifier. Groups: 1 type, 2 name, 3 revision.
pub const ITEM_REF_PATTERN: &'static str = r"([a-zA-Z]+)~([a-zA-Z0-9._-]+)~(\d+)";

/// The part of an item that the text of a line goes to.
#[derive(Debug, Clone, Copy, PartialEq, Eq, Structural)]
pub enum Section {
    Description,
    Rationale,
    Comment,
    Covers,
    Depends,
}

/// What a line says by its keyword, if it starts with one.
#[derive(Debug)]
pub enum Keyword {
    /// `Needs:` with its list of artifact types.
    Needs(Vec<String>),
    /// `Covers:` with the identifiers listed on the same line.
    CoversInline(Vec<SpecificationItemId>),
    /// `Covers:` alone; a bulleted list follows.
    CoversHeader,
    /// `Depends:` alone; a bulleted list follows.
    DependsHeader,
    /// `Tags:` with its list.
    Tags(Vec<String>),
    /// `Status:` with the state.
    Status(ItemStatus),
    /// `Rationale:` alone; free text follows.
    RationaleHeader,
    /// `Comment:` alone; free text follows.
    CommentHeader,
    /// No keyword: ordinary text.
    Text,
}

/// A keyword as a mathematical value.
pub enum KeywordView {
    Needs(Seq<Seq<char>>),
    CoversInline(Seq<IdView>),
    CoversHeader,
    DependsHeader,
    Tags(Seq<Seq<char>>),
    Status(ItemStatus),
    RationaleHeader,
    CommentHeader,
    Text,
}

impl DeepView for Keyword {
    type V = KeywordView;

    open spec fn deep_view(&self) -> KeywordView {
        match self {
            Keyword::Needs(list) => KeywordView::Needs(list.deep_view()),
            Keyword::CoversInline(ids) => KeywordView::CoversInline(ids.deep_view()),
            Keyword::CoversHeader => KeywordView::CoversHeader,
            Keyword::DependsHeader => KeywordView::DependsHeader,
            Keyword::Tags(list) => KeywordView::Tags(list.deep_view()),
            Keyword::Status(status) => KeywordView::Status(*status),
            Keyword::RationaleHeader => KeywordView::RationaleHeader,
            Keyword::CommentHeader => KeywordView::CommentHeader,
            Keyword::Text => KeywordView::Text,
        }
    }
}

/// One line of a document with everything that assembling reads of it.
#[derive(Debug)]
pub struct MarkdownLine {
    /// The line as it stands.
    pub text: String,
    /// Whether the line is a heading.
    pub is_heading: bool,
    /// The text of the heading, without its marks; empty for other lines.
    pub heading_text: String,
    /// Whether the line is an entry of a bulleted list.
    pub is_bullet: bool,
    /// Whether the line holds white space only.
    pub is_blank: bool,
    /// The groups of the first backtick-quoted identifier of the line.
    pub declared_id: Option<Vec<Option<String>>>,
    /// Whether the line holds a backtick-quoted identifier.
    pub declares_id: bool,
    /// The groups of the first bare identifier of the heading text.
    pub heading_id: Option<Vec<Option<String>>>,
    /// Whether the line is a heading whose text holds a bare identifier.
    pub heading_declares_id: bool,
    /// What the line says by its keyword.
    pub keyword: Keyword,
    /// The first bare identifier of the line, if it has one that can be read.
    pub reference: Option<SpecificationItemId>,
}

/// A classified line as a mathematical value.
pub struct MarkdownLineView {
    pub text: Seq<char>,
    pub is_heading: bool,
    pub heading_text: Seq<char>,
    pub is_bullet: bool,
    pub is_blank: bool,
    pub declared_id: Option<Captures>,
    pub declares_id: bool,
    pub heading_id: Option<Captures>,
    pub heading_declares_id: bool,
    pub keyword: KeywordView,
    pub reference: Option<IdView>,
}

impl DeepView for MarkdownLine {
    type V = MarkdownLineView;

    open spec fn deep_view(&self) -> MarkdownLineView {
        MarkdownLineView {
            text: self.text@,
            is_heading: self.is_heading,
            heading_text: self.heading_text@,
            is_bullet: self.is_bullet,
            is_blank: self.is_blank,
            declared_id: self.declared_id.deep_view(),
            declares_id: self.declares_id,
            heading_id: self.heading_id.deep_view(),
            heading_declares_id: self.heading_declares_id,
            keyword: self.keyword.deep_view(),
            reference: self.reference.deep_view(),
        }
    }
}

impl View for MarkdownLine {
    type V = MarkdownLineView;

    open spec fn view(&self) -> MarkdownLineView {
        self.deep_view()
    }
}

/// Whether a line is a heading: after leading white space it starts with `#`.
pub open spec fn is_heading_spec(text: Seq<char>) -> bool {
    trim_start_spec(text).len() > 0 && trim_start_spec(text)[0] == '#'
}

/// `s` without its leading `#` marks.
pub open spec fn skip_hashes(s: Seq<char>) -> Seq<char>
    decreases s.len(),
{
    if s.len() > 0 && s[0] == '#' {
        skip_hashes(s.drop_first())
    } else {
        s
    }
}

/// The text of a heading line: what follows the leading white space and
/// the `#` marks, trimmed.
pub open spec fn heading_text_spec(text: Seq<char>) -> Seq<char> {
    trim_spec(skip_hashes(trim_start_spec(text)))
}

/// Whether a line is an entry of a bulleted list: trimmed, it starts with
/// `-`, `*` or `+`.
pub open spec fn is_bullet_spec(text: Seq<char>) -> bool {
    let trimmed = trim_spec(text);
    trimmed.len() > 0 && (trimmed[0] == '-' || trimmed[0] == '*' || trimmed[0] == '+')
}

/// Whether a line holds white space only.
pub open spec fn is_blank_spec(text: Seq<char>) -> bool {
    trim_spec(text).len() == 0
}

/// The identifier that the groups of a match denote: type, name and
/// revision in groups 1 to 3. A match that lacks a group, or whose
/// revision is no 32-bit number, denotes none.
pub open spec fn reference_id(found: Option<Captures>) -> Option<IdView> {
    match found {
        Some(captures) => {
            if group(captures, 1) is Some && group(captures, 2) is Some && group(captures, 3)
                is Some && parse_u32_spec(group(captures, 3)->0) is Some {
                Some(
                    IdView {
                        artifact_type: group(captures, 1)->0,
                        name: group(captures, 2)->0,
                        revision: parse_u32_spec(group(captures, 3)->0)->0,
                    },
                )
            } else {
                None
            }
        },
        None => None,
    }
}

/// The identifiers among the first `n` entries of a list: for each entry
/// its first bare identifier, if it has one that can be read.
pub open spec fn referenced_ids(entries: Seq<Seq<char>>, n: int) -> Seq<IdView>
    decreases n,
{
    if n <= 0 {
        Seq::empty()
    } else {
        let before = referenced_ids(entries, n - 1);
        match reference_id(regex_captures(ITEM_REF_PATTERN@, entries[n - 1])) {
            Some(id) => before.push(id),
            None => before,
        }
    }
}

/// The identifiers of a comma-separated list of covered items.
pub open spec fn covers_list_spec(list: Seq<char>) -> Seq<IdView> {
    referenced_ids(comma_list_spec(list), comma_list_spec(list).len() as int)
}

/// The state that a lower-case word names; `approved` for any other word.
pub open spec fn status_of_word(word: Seq<char>) -> ItemStatus {
    if word == "draft"@ {
        ItemStatus::Draft
    } else if word == "proposed"@ {
        ItemStatus::Proposed
    } else if word == "rejected"@ {
        ItemStatus::Rejected
    } else {
        ItemStatus::Approved
    }
}

/// What a line says by its keyword. The keyword patterns are tried in a
/// fixed order: needs, covers with a list, covers alone, depends, tags,
/// status, rationale, comment; the first that matches decides.
pub open spec fn keyword_spec(text: Seq<char>) -> KeywordView {
    if regex_captures(NEEDS_PATTERN@, text) is Some {
        KeywordView::Needs(
            comma_list_spec(group_text(regex_captures(NEEDS_PATTERN@, text)->0, 1)),
        )
    } else if regex_captures(COVERS_INLINE_PATTERN@, text) is Some {
        KeywordView::CoversInline(
            covers_list_spec(group_text(regex_captures(COVERS_INLINE_PATTERN@, text)->0, 1)),
        )
    } else if regex_is_match(COVERS_PATTERN@, text) {
        KeywordView::CoversHeader
    } else if regex_is_match(DEPENDS_PATTERN@, text) {
        KeywordView::DependsHeader
    } else if regex_captures(TAGS_PATTERN@, text) is Some {
        KeywordView::Tags(comma_list_spec(group_text(regex_captures(TAGS_PATTERN@, text)->0, 1)))
    } else if regex_captures(STATUS_PATTERN@, text) is Some {
        KeywordView::Status(
            status_of_word(
                lowercased(group_text(regex_captures(STATUS_PATTERN@, text)->0, 1)),
            ),
        )
    } else if regex_is_match(RATIONALE_PATTERN@, text) {
        KeywordView::RationaleHeader
    } else if regex_is_match(COMMENT_PATTERN@, text) {
        KeywordView::CommentHeader
    } else {
        KeywordView::Text
    }
}

/// The classification of a line.
pub open spec fn line_class(text: Seq<char>) -> MarkdownLineView {
    let heading = is_heading_spec(text);
    let heading_text = if heading {
        heading_text_spec(text)
    } else {
        Seq::empty()
    };
    MarkdownLineView {
        text,
        is_heading: heading,
        heading_text,
        is_bullet: is_bullet_spec(text),
        is_blank: is_blank_spec(text),
        declared_id: regex_captures(ID_PATTERN@, text),
        declares_id: regex_is_match(ID_PATTERN@, text),
        heading_id: if heading {
            regex_captures(ITEM_REF_PATTERN@, heading_text)
        } else {
            None
        },
        heading_declares_id: heading && regex_is_match(ITEM_REF_PATTERN@, heading_text),
        keyword: keyword_spec(text),
        reference: reference_id(regex_captures(ITEM_REF_PATTERN@, text)),
    }
}

/// The classifications of the lines of a document.
pub open spec fn classified(lines: Seq<Seq<char>>) -> Seq<MarkdownLineView> {
    Seq::new(lines.len(), |i: int| line_class(lines[i]))
}

/// Reads the identifier that the groups of a match denote.
pub fn reference_from(found: &Option<Vec<Option<String>>>) -> (r: Option<SpecificationItemId>)
    ensures
        r.deep_view() == reference_id(found.deep_view()),
{
    match found {
        Some(captures) => {
            let artifact_type = get_group(captures, 1);
            let name = get_group(captures, 2);
            let revision = get_group(captures, 3);
            if artifact_type.is_none() || name.is_none() || revision.is_none() {
                return None;
            }
            let digits = to_chars(revision.unwrap().as_str());
            match parse_u32(&digits) {
                Some(number) => Some(
                    SpecificationItemId::new(
                        artifact_type.unwrap().clone(),
                        name.unwrap().clone(),
                        number,
                    ),
                ),
                None => None,
            }
        },
        None => None,
    }
}

/// The state that a lower-case word names; `approved` for any other word.
pub fn status_from_word(word: &String) -> (status: ItemStatus)
    ensures
        status == status_of_word(word@),
{
    if *word == String::from_str("draft") {
        ItemStatus::Draft
    } else if *word == String::from_str("proposed") {
        ItemStatus::Proposed
    } else if *word == String::from_str("rejected") {
        ItemStatus::Rejected
    } else {
        ItemStatus::Approved
    }
}

/// The position behind the leading `#` marks of `chars[from..]`.
fn skip_hashes_index(chars: &Vec<char>, from: usize) -> (start: usize)
    requires
        from <= chars.len(),
    ensures
        from <= start <= chars.len(),
        chars@.subrange(start as int, chars.len() as int) == skip_hashes(
            chars@.subrange(from as int, chars.len() as int),
        ),
{
    let mut start = from;
    while start < chars.len() && chars[start] == '#'
        invariant
            from <= start <= chars.len(),
            skip_hashes(chars@.subrange(start as int, chars.len() as int)) == skip_hashes(
                chars@.subrange(from as int, chars.len() as int),
            ),
        decreases chars.len() - start,
    {
        assert(chars@.subrange(start as int, chars.len() as int).drop_first() =~= chars@.subrange(
            start + 1,
            chars.len() as int,
        ));
        start += 1;
    }
    start
}

/// Whether a line is a heading.
pub fn is_heading(line: &str) -> (r: bool)
    ensures
        r == is_heading_spec(line@),
{
    let chars = to_chars(line);
    let start = trim_start_index(&chars, 0, chars.len());
    assert(chars@.subrange(0, chars.len() as int) =~= chars@);
    start < chars.len() && chars[start] == '#'
}

/// The text of a heading line.
pub fn extract_heading_text(line: &str) -> (text: String)
    ensures
        text@ == heading_text_spec(line@),
{
    let chars = to_chars(line);
    let start = trim_start_index(&chars, 0, chars.len());
    assert(chars@.subrange(0, chars.len() as int) =~= chars@);
    let behind = skip_hashes_index(&chars, start);
    let rest = copy_range(&chars, behind, chars.len());
    let trimmed = trim_chars(&rest);
    string_of(&trimmed)
}

/// Finds specification items in Markdown documents.
pub struct MarkdownImporter {
    id_regex: regex::Regex,
    needs_regex: regex::Regex,
    covers_regex: regex::Regex,
    covers_inline_regex: regex::Regex,
    depends_regex: regex::Regex,
    tags_regex: regex::Regex,
    status_regex: regex::Regex,
    rationale_regex: regex::Regex,
    comment_regex: regex::Regex,
    item_ref_regex: regex::Regex,
    config: Config,
}

impl MarkdownImporter {
    /// Every expression is compiled from the pattern of its name.
    #[verifier::type_invariant]
    spec fn well_formed(self) -> bool {
        &&& regex_source(self.id_regex) == ID_PATTERN@
        &&& regex_source(self.needs_regex) == NEEDS_PATTERN@
        &&& regex_source(self.covers_regex) == COVERS_PATTERN@
        &&& regex_source(self.covers_inline_regex) == COVERS_INLINE_PATTERN@
        &&& regex_source(self.depends_regex) == DEPENDS_PATTERN@
        &&& regex_source(self.tags_regex) == TAGS_PATTERN@
        &&& regex_source(self.status_regex) == STATUS_PATTERN@
        &&& regex_source(self.rationale_regex) == RATIONALE_PATTERN@
        &&& regex_source(self.comment_regex) == COMMENT_PATTERN@
        &&& regex_source(self.item_ref_regex) == ITEM_REF_PATTERN@
    }

    /// An importer that selects files by the default configuration.
    /// Fails only if a pattern does not compile.
    pub fn new() -> (r: Result<Self, Error>)
        ensures
            r matches Ok(importer) ==> importer.config()@ == default_config(),
            r is Err ==> r->Err_0 is Regex,
    {
        Self::with_config(Config::default())
    }

    /// An importer that selects files by `config`.
    /// Fails only if a pattern does not compile.
    pub fn with_config(config: Config) -> (r: Result<Self, Error>)
        ensures
            r matches Ok(importer) ==> importer.config()@ == config@,
            r is Err ==> r->Err_0 is Regex,
    {
        let id_regex = compile_pattern(ID_PATTERN)?;
        let needs_regex = compile_pattern(NEEDS_PATTERN)?;
        let covers_regex = compile_pattern(COVERS_PATTERN)?;
        let covers_inline_regex = compile_pattern(COVERS_INLINE_PATTERN)?;
        let depends_regex = compile_pattern(DEPENDS_PATTERN)?;
        let tags_regex = compile_pattern(TAGS_PATTERN)?;
        let status_regex = compile_pattern(STATUS_PATTERN)?;
        let rationale_regex = compile_pattern(RATIONALE_PATTERN)?;
        let comment_regex = compile_pattern(COMMENT_PATTERN)?;
        let item_ref_regex = compile_pattern(ITEM_REF_PATTERN)?;
        Ok(
            Self {
                id_regex,
                needs_regex,
                covers_regex,
                covers_inline_regex,
                depends_regex,
                tags_regex,
                status_regex,
                rationale_regex,
                comment_regex,
                item_ref_regex,
                config,
            },
        )
    }

    /// Reads a comma-separated list: trims each entry and drops the empty ones.
    pub fn parse_list(&self, list_str: &str) -> (entries: Vec<String>)
        ensures
            entries.deep_view() == comma_list_spec(list_str@),
    {
        parse_comma_list(list_str)
    }

    /// The first bare identifier of `line`, if it has one that can be read.
    pub fn extract_item_reference(&self, line: &str) -> (r: Option<SpecificationItemId>)
        ensures
            r.deep_view() == reference_id(regex_captures(ITEM_REF_PATTERN@, line@)),
    {
        proof {
            use_type_invariant(self);
        }
        let found = captures(&self.item_ref_regex, line);
        reference_from(&found)
    }

    /// Reads a comma-separated list of covered identifiers: of each entry
    /// the first bare identifier, if it has one that can be read.
    pub fn parse_covers_list(&self, covers_str: &str) -> (ids: Vec<SpecificationItemId>)
        ensures
            ids.deep_view() == covers_list_spec(covers_str@),
    {
        let entries = parse_comma_list(covers_str);
        let ghost list = comma_list_spec(covers_str@);
        let mut ids: Vec<SpecificationItemId> = Vec::new();
        let mut i: usize = 0;
        assert(ids.deep_view() =~= referenced_ids(list, 0));
        while i < entries.len()
            invariant
                i <= entries.len(),
                entries.deep_view() == list,
                ids.deep_view() == referenced_ids(list, i as int),
            decreases entries.len() - i,
        {
            assert(entries.deep_view()[i as int] == entries[i as int]@);
            let ghost before = ids.deep_view();
            match self.extract_item_reference(entries[i].as_str()) {
                Some(id) => {
                    ids.push(id);
                    assert(ids.deep_view() =~~= before.push(id@));
                },
                None => {},
            }
            i += 1;
        }
        ids
    }

    /// What `line` says by its keyword.
    fn classify_keyword(&self, line: &str) -> (keyword: Keyword)
        ensures
            keyword.deep_view() == keyword_spec(line@),
    {
        proof {
            use_type_invariant(self);
        }
        if let Some(found) = captures(&self.needs_regex, line) {
            let list = get_group_text(&found, 1);
            return Keyword::Needs(self.parse_list(list.as_str()));
        }
        if let Some(found) = captures(&self.covers_inline_regex, line) {
            let list = get_group_text(&found, 1);
            return Keyword::CoversInline(self.parse_covers_list(list.as_str()));
        }
        if is_match(&self.covers_regex, line) {
            return Keyword::CoversHeader;
        }
        if is_match(&self.depends_regex, line) {
            return Keyword::DependsHeader;
        }
        if let Some(found) = captures(&self.tags_regex, line) {
            let list = get_group_text(&found, 1);
            return Keyword::Tags(self.parse_list(list.as_str()));
        }
        if let Some(found) = captures(&self.status_regex, line) {
            let word = lowercase(get_group_text(&found, 1).as_str());
            return Keyword::Status(status_from_word(&word));
        }
        if is_match(&self.rationale_regex, line) {
            return Keyword::RationaleHeader;
        }
        if is_match(&self.comment_regex, line) {
            return Keyword::CommentHeader;
        }
        Keyword::Text
    }

    /// Classifies one line of a document.
    pub fn classify_line(&self, line: &str) -> (class: MarkdownLine)
        ensures
            class@ == line_class(line@),
    {
        proof {
            use_type_invariant(self);
        }
        let chars = to_chars(line);
        let trimmed = trim_chars(&chars);
        let is_bullet = trimmed.len() > 0 && (trimmed[0] == '-' || trimmed[0] == '*'
            || trimmed[0] == '+');
        let is_blank = trimmed.len() == 0;
        let heading = is_heading(line);
        let heading_text = if heading {
            extract_heading_text(line)
        } else {
            String::new()
        };
        let heading_id = if heading {
            captures(&self.item_ref_regex, heading_text.as_str())
        } else {
            None
        };
        let heading_declares_id = heading && is_match(&self.item_ref_regex, heading_text.as_str());
        MarkdownLine {
            text: String::from_str(line),
            is_heading: heading,
            heading_text,
            is_bullet,
            is_blank,
            declared_id: captures(&self.id_regex, line),
            declares_id: is_match(&self.id_regex, line),
            heading_id,
            heading_declares_id,
            keyword: self.classify_keyword(line),
            reference: self.extract_item_reference(line),
        }
    }

    /// Classifies every line of a document.
    pub fn classify_lines(&self, lines: &Vec<String>) -> (classes: Vec<MarkdownLine>)
        ensures
            classes.deep_view() == classified(lines.deep_view()),
    {
        let mut classes: Vec<MarkdownLine> = Vec::new();
        let mut i: usize = 0;
        while i < lines.len()
            invariant
                i <= lines.len(),
                classes.len() == i,
                forall|k: int| 0 <= k < i ==> (#[trigger] classes[k])@ == line_class(lines[k]@),
            decreases lines.len() - i,
        {
            classes.push(self.classify_line(lines[i].as_str()));
            i += 1;
        }
        assert(classes.deep_view() =~~= classified(lines.deep_view()));
        classes
    }

    /// Whether the file at `path` is a specification document, by this
    /// importer's configuration: its extension is `md` or `markdown`, in
    /// any case. Only a path that holds one of the two words directly
    /// behind a dot is one.
    pub fn is_markdown_file(&self, path: &str) -> (r: bool)
        ensures
            r ==> names_markdown_file(path@),
    {
        self.config.is_spec_file(path)
    }

    /// The configuration that selects the files.
    pub closed spec fn config(&self) -> Config {
        self.config
    }
}

/// An item while its lines are being read.
pub struct Draft {
    /// The fields that are set as they are read.
    pub builder: SpecificationItemBuilder,
    /// Where ordinary text goes at present.
    pub section: Section,
    /// The description read so far, one line break after each line.
    pub description: String,
    /// The rationale read so far.
    pub rationale: String,
    /// The comment read so far.
    pub comment: String,
    /// The identifiers of the bulleted covers list read so far.
    pub covers_list: Vec<SpecificationItemId>,
    /// The identifiers of the bulleted depends list read so far.
    pub depends_list: Vec<SpecificationItemId>,
}

/// A draft as a mathematical value.
pub struct DraftView {
    pub item: ItemView,
    pub section: Section,
    pub description: Seq<char>,
    pub rationale: Seq<char>,
    pub comment: Seq<char>,
    pub covers_list: Seq<IdView>,
    pub depends_list: Seq<IdView>,
}

impl DeepView for Draft {
    type V = DraftView;

    open spec fn deep_view(&self) -> DraftView {
        DraftView {
            item: self.builder@,
            section: self.section,
            description: self.description@,
            rationale: self.rationale@,
            comment: self.comment@,
            covers_list: self.covers_list.deep_view(),
            depends_list: self.depends_list.deep_view(),
        }
    }
}

impl View for Draft {
    type V = DraftView;

    open spec fn view(&self) -> DraftView {
        self.deep_view()
    }
}

/// Whether a line declares an item, and so ends the item before it.
pub open spec fn is_boundary(line: MarkdownLineView) -> bool {
    line.declares_id || line.heading_declares_id
}

/// The position of the first declaration at or after `from`, or the number
/// of lines where none follows.
pub open spec fn body_end(lines: Seq<MarkdownLineView>, from: int) -> int
    decreases lines.len() - from,
{
    if from < 0 || from >= lines.len() {
        lines.len() as int
    } else if is_boundary(lines[from]) {
        from
    } else {
        body_end(lines, from + 1)
    }
}

/// What a line adds to free text: the line and a line break; of a blank
/// line the line break only.
pub open spec fn line_text(line: MarkdownLineView) -> Seq<char> {
    if line.is_blank {
        seq!['\n']
    } else {
        line.text + seq!['\n']
    }
}

/// The draft with the text of `line` added to the current section:
/// to the rationale or the comment in their sections, else to the description.
pub open spec fn with_text(draft: DraftView, line: MarkdownLineView) -> DraftView {
    match draft.section {
        Section::Rationale => DraftView {
            rationale: draft.rationale + line_text(line),
            ..draft
        },
        Section::Comment => DraftView { comment: draft.comment + line_text(line), ..draft },
        _ => DraftView { description: draft.description + line_text(line), ..draft },
    }
}

/// The draft after a line without keyword. A bullet in the covers or
/// depends section adds its identifier, if it has one; any other line
/// that is not blank adds its text to the current section; a blank line
/// adds a line break to a rationale or comment and is dropped elsewhere.
pub open spec fn with_plain_line(draft: DraftView, line: MarkdownLineView) -> DraftView {
    if line.is_bullet {
        match draft.section {
            Section::Covers => match line.reference {
                Some(id) => DraftView { covers_list: draft.covers_list.push(id), ..draft },
                None => draft,
            },
            Section::Depends => match line.reference {
                Some(id) => DraftView { depends_list: draft.depends_list.push(id), ..draft },
                None => draft,
            },
            _ => with_text(draft, line),
        }
    } else if !line.is_blank {
        with_text(draft, line)
    } else if draft.section == Section::Rationale || draft.section == Section::Comment {
        with_text(draft, line)
    } else {
        draft
    }
}

/// The draft after one line of the item's body.
pub open spec fn apply_line(draft: DraftView, line: MarkdownLineView) -> DraftView {
    match line.keyword {
        KeywordView::Needs(list) => DraftView {
            item: ItemView { needs: draft.item.needs + list, ..draft.item },
            ..draft
        },
        KeywordView::CoversInline(ids) => DraftView {
            item: ItemView { covers: draft.item.covers + ids, ..draft.item },
            ..draft
        },
        KeywordView::CoversHeader => DraftView { section: Section::Covers, ..draft },
        KeywordView::DependsHeader => DraftView { section: Section::Depends, ..draft },
        KeywordView::Tags(list) => DraftView {
            item: ItemView { tags: draft.item.tags + list, ..draft.item },
            ..draft
        },
        KeywordView::Status(status) => DraftView {
            item: ItemView { status, ..draft.item },
            ..draft
        },
        KeywordView::RationaleHeader => DraftView { section: Section::Rationale, ..draft },
        KeywordView::CommentHeader => DraftView { section: Section::Comment, ..draft },
        KeywordView::Text => with_plain_line(draft, line),
    }
}

/// The draft after the lines `from..to`.
pub open spec fn apply_lines(
    draft: DraftView,
    lines: Seq<MarkdownLineView>,
    from: int,
    to: int,
) -> DraftView
    decreases to - from,
{
    if to <= from {
        draft
    } else {
        apply_line(apply_lines(draft, lines, from, to - 1), lines[to - 1])
    }
}

/// The title that a heading gives to the item it declares: the heading
/// without the identifier, trimmed; the identifier itself where nothing
/// else is left; the whole heading where it does not hold the identifier
/// in canonical form.
pub open spec fn heading_title(heading: Seq<char>, id: Seq<char>) -> Seq<char> {
    match find_spec(heading, id) {
        Some(at) => {
            let rest = trim_spec(heading.take(at) + heading.skip(at + id.len()));
            if rest.len() > 0 {
                rest
            } else {
                id
            }
        },
        None => heading,
    }
}

/// The title of the item declared in line `n`: the text of the heading in
/// the line before, if that is a heading; else, if line `n` is a heading
/// itself, what that heading gives; else none.
pub open spec fn title_spec(lines: Seq<MarkdownLineView>, n: int, id: IdView) -> Option<
    Seq<char>,
> {
    if n > 0 && lines[n - 1].is_heading {
        Some(lines[n - 1].heading_text)
    } else if lines[n].is_heading {
        Some(heading_title(lines[n].heading_text, id_text(id)))
    } else {
        None
    }
}

/// The match that makes a line a declaration: that of a backtick-quoted
/// identifier, or else, in a heading, that of a bare identifier.
pub open spec fn declaration(line: MarkdownLineView) -> Option<Captures> {
    if line.declared_id is Some {
        line.declared_id
    } else if line.is_heading {
        line.heading_id
    } else {
        None
    }
}

/// The location of line `n` of the file at `path`; lines count from 1.
pub open spec fn line_location(path: Seq<char>, n: int) -> LocationView {
    LocationView { path, line: (n + 1) as u32 }
}

/// The draft that the declaration in line `n` starts. A match that lacks a
/// group starts none; a revision that is no 32-bit number is an error.
pub open spec fn start_draft(
    lines: Seq<MarkdownLineView>,
    n: int,
    path: Seq<char>,
    found: Captures,
) -> Result<Option<DraftView>, ErrorView> {
    if group(found, 1) is None || group(found, 2) is None || group(found, 3) is None {
        Ok(None)
    } else if parse_u32_spec(group(found, 3)->0) is None {
        Err(revision_error(group(found, 3)->0, line_location(path, n)))
    } else {
        let id = IdView {
            artifact_type: group(found, 1)->0,
            name: group(found, 2)->0,
            revision: parse_u32_spec(group(found, 3)->0)->0,
        };
        Ok(
            Some(
                DraftView {
                    item: ItemView {
                        location: Some(line_location(path, n)),
                        title: title_spec(lines, n, id),
                        ..bare_item(id)
                    },
                    section: Section::Description,
                    description: Seq::empty(),
                    rationale: Seq::empty(),
                    comment: Seq::empty(),
                    covers_list: Seq::empty(),
                    depends_list: Seq::empty(),
                },
            ),
        )
    }
}

/// The text of a section as it goes into the item: trimmed, and absent
/// where nothing but white space was read.
pub open spec fn section_text(text: Seq<char>) -> Option<Seq<char>> {
    if trim_spec(text).len() > 0 {
        Some(trim_spec(text))
    } else {
        None
    }
}

/// `text` where there is one, else `otherwise`.
pub open spec fn or_else(text: Option<Seq<char>>, otherwise: Option<Seq<char>>) -> Option<
    Seq<char>,
> {
    match text {
        Some(t) => Some(t),
        None => otherwise,
    }
}

/// The item that a draft becomes: the texts trimmed, the bulleted lists
/// behind what the keyword lines gave.
pub open spec fn finish(draft: DraftView) -> ItemView {
    ItemView {
        description: or_else(section_text(draft.description), draft.item.description),
        rationale: or_else(section_text(draft.rationale), draft.item.rationale),
        comment: or_else(section_text(draft.comment), draft.item.comment),
        covers: draft.item.covers + draft.covers_list,
        depends: draft.item.depends + draft.depends_list,
        ..draft.item
    }
}

/// The item declared in line `n` by the match `found`: its attributes are
/// read from the lines that follow, up to the next declaration.
pub open spec fn item_at(lines: Seq<MarkdownLineView>, n: int, path: Seq<char>, found: Captures)
    -> Result<Option<ItemView>, ErrorView> {
    match start_draft(lines, n, path, found) {
        Err(error) => Err(error),
        Ok(None) => Ok(None),
        Ok(Some(draft)) => Ok(
            Some(finish(apply_lines(draft, lines, n + 1, body_end(lines, n + 1)))),
        ),
    }
}

/// The items declared from line `n` on, in order, or the error of the
/// first declaration that cannot be read.
pub open spec fn document_from(lines: Seq<MarkdownLineView>, n: int, path: Seq<char>) -> Yield
    decreases lines.len() - n,
{
    if n < 0 || n >= lines.len() {
        Ok(Seq::empty())
    } else {
        match declaration(lines[n]) {
            None => document_from(lines, n + 1, path),
            Some(found) => match item_at(lines, n, path, found) {
                Err(error) => Err(error),
                Ok(None) => document_from(lines, n + 1, path),
                Ok(Some(item)) => {
                    proof {
                        lemma_body_end_bounds(lines, n + 1);
                    }
                    match document_from(lines, body_end(lines, n + 1), path) {
                        Err(error) => Err(error),
                        Ok(rest) => Ok(seq![item] + rest),
                    }
                },
            },
        }
    }
}

/// The items that a document of classified lines declares. A document
/// with more lines than line numbers can count is an error as a whole.
pub open spec fn document_items(lines: Seq<MarkdownLineView>, path: Seq<char>) -> Yield {
    if lines.len() > u32::MAX {
        Err(line_limit_error(path))
    } else {
        document_from(lines, 0, path)
    }
}

/// The next declaration lies behind the lines it is searched from.
pub proof fn lemma_body_end_bounds(lines: Seq<MarkdownLineView>, from: int)
    requires
        0 <= from <= lines.len(),
    ensures
        from <= body_end(lines, from) <= lines.len(),
        forall|k: int| from <= k < body_end(lines, from) ==> !is_boundary(#[trigger] lines[k]),
        body_end(lines, from) < lines.len() ==> is_boundary(lines[body_end(lines, from)]),
    decreases lines.len() - from,
{
    if from < lines.len() && !is_boundary(lines[from]) {
        lemma_body_end_bounds(lines, from + 1);
    }
}

/// Where no declaration lies in `from..k`, and one lies at `k` or `k` is
/// the end, `k` is where the body that starts at `from` ends.
pub proof fn lemma_body_end_is(lines: Seq<MarkdownLineView>, from: int, k: int)
    requires
        0 <= from <= k <= lines.len(),
        forall|j: int| from <= j < k ==> !is_boundary(#[trigger] lines[j]),
        k < lines.len() ==> is_boundary(lines[k]),
    ensures
        body_end(lines, from) == k,
    decreases k - from,
{
    if from < k {
        assert(!is_boundary(lines[from]));
        lemma_body_end_is(lines, from + 1, k);
    }
}

/// Derives the title of an item from the heading that declares it.
pub fn title_from_heading(heading: &String, id: &String) -> (title: String)
    ensures
        title@ == heading_title(heading@, id@),
{
    let hay = to_chars(heading.as_str());
    let needle = to_chars(id.as_str());
    match find_chars(&hay, &needle) {
        Some(at) => {
            let mut rest = copy_range(&hay, 0, at);
            let mut after = copy_range(&hay, at + needle.len(), hay.len());
            rest.append(&mut after);
            assert(rest@ =~= hay@.take(at as int) + hay@.skip(at + needle.len()));
            let trimmed = trim_chars(&rest);
            if trimmed.len() > 0 {
                string_of(&trimmed)
            } else {
                id.clone()
            }
        },
        None => heading.clone(),
    }
}

/// Adds the text of `line` to `text`.
fn push_line_text(text: &mut String, line: &MarkdownLine)
    ensures
        final(text)@ == old(text)@ + line_text(line@),
{
    let ghost before = text@;
    if !line.is_blank {
        text.append(line.text.as_str());
    }
    text.push('\n');
    assert(text@ =~= before + line_text(line@));
}

/// Adds the text of `line` to the current section of `draft`.
fn add_text(draft: Draft, line: &MarkdownLine) -> (r: Draft)
    ensures
        r@ == with_text(draft@, line@),
{
    let mut draft = draft;
    match draft.section {
        Section::Rationale => {
            push_line_text(&mut draft.rationale, line);
        },
        Section::Comment => {
            push_line_text(&mut draft.comment, line);
        },
        _ => {
            push_line_text(&mut draft.description, line);
        },
    }
    draft
}

/// Applies a line without keyword to `draft`.
fn add_plain_line(draft: Draft, line: &MarkdownLine) -> (r: Draft)
    ensures
        r@ == with_plain_line(draft@, line@),
{
    let mut draft = draft;
    if line.is_bullet {
        match draft.section {
            Section::Covers => {
                match &line.reference {
                    Some(id) => {
                        let ghost before = draft.covers_list.deep_view();
                        draft.covers_list.push(id.clone());
                        assert(draft.covers_list.deep_view() =~~= before.push(id@));
                    },
                    None => {},
                }
                draft
            },
            Section::Depends => {
                match &line.reference {
                    Some(id) => {
                        let ghost before = draft.depends_list.deep_view();
                        draft.depends_list.push(id.clone());
                        assert(draft.depends_list.deep_view() =~~= before.push(id@));
                    },
                    None => {},
                }
                draft
            },
            _ => add_text(draft, line),
        }
    } else if !line.is_blank {
        add_text(draft, line)
    } else if draft.section == Section::Rationale || draft.section == Section::Comment {
        add_text(draft, line)
    } else {
        draft
    }
}

/// Applies one line of an item's body to the draft of the item.
pub fn apply_line_to(draft: Draft, line: &MarkdownLine) -> (r: Draft)
    ensures
        r@ == apply_line(draft@, line@),
{
    match &line.keyword {
        Keyword::Needs(list) => {
            let Draft {
                builder,
                section,
                description,
                rationale,
                comment,
                covers_list,
                depends_list,
            } = draft;
            Draft {
                builder: builder.needs_multiple(clone_strings(list)),
                section,
                description,
                rationale,
                comment,
                covers_list,
                depends_list,
            }
        },
        Keyword::CoversInline(ids) => {
            let Draft {
                builder,
                section,
                description,
                rationale,
                comment,
                covers_list,
                depends_list,
            } = draft;
            Draft {
                builder: builder.covers_multiple(clone_ids(ids)),
                section,
                description,
                rationale,
                comment,
                covers_list,
                depends_list,
            }
        },
        Keyword::CoversHeader => {
            let mut draft = draft;
            draft.section = Section::Covers;
            draft
        },
        Keyword::DependsHeader => {
            let mut draft = draft;
            draft.section = Section::Depends;
            draft
        },
        Keyword::Tags(list) => {
            let Draft {
                builder,
                section,
                description,
                rationale,
                comment,
                covers_list,
                depends_list,
            } = draft;
            Draft {
                builder: builder.tags(clone_strings(list)),
                section,
                description,
                rationale,
                comment,
                covers_list,
                depends_list,
            }
        },
        Keyword::Status(status) => {
            let Draft {
                builder,
                section,
                description,
                rationale,
                comment,
                covers_list,
                depends_list,
            } = draft;
            Draft {
                builder: builder.status(*status),
                section,
                description,
                rationale,
                comment,
                covers_list,
                depends_list,
            }
        },
        Keyword::RationaleHeader => {
            let mut draft = draft;
            draft.section = Section::Rationale;
            draft
        },
        Keyword::CommentHeader => {
            let mut draft = draft;
            draft.section = Section::Comment;
            draft
        },
        Keyword::Text => add_plain_line(draft, line),
    }
}

/// The text of a section as it goes into the item.
fn trimmed_section(text: &String) -> (r: Option<String>)
    ensures
        r.deep_view() == section_text(text@),
{
    let chars = to_chars(text.as_str());
    let trimmed = trim_chars(&chars);
    if trimmed.len() > 0 {
        Some(string_of(&trimmed))
    } else {
        None
    }
}

/// Turns a draft into the finished item.
pub fn finish_draft(draft: Draft) -> (item: SpecificationItem)
    ensures
        item@ == finish(draft@),
{
    let Draft { builder, section, description, rationale, comment, covers_list, depends_list } =
        draft;
    let ghost start = builder@;
    let mut builder = builder;
    match trimmed_section(&description) {
        Some(text) => {
            builder = builder.description(text);
        },
        None => {},
    }
    match trimmed_section(&rationale) {
        Some(text) => {
            builder = builder.rationale(text);
        },
        None => {},
    }
    match trimmed_section(&comment) {
        Some(text) => {
            builder = builder.comment(text);
        },
        None => {},
    }
    builder = builder.covers_multiple(covers_list);
    let ghost middle = builder@;
    let mut i: usize = 0;
    assert(middle.depends + depends_list.deep_view().take(0) =~= middle.depends);
    while i < depends_list.len()
        invariant
            i <= depends_list.len(),
            builder@ == (ItemView {
                depends: middle.depends + depends_list.deep_view().take(i as int),
                ..middle
            }),
        decreases depends_list.len() - i,
    {
        assert(depends_list.deep_view()[i as int] == depends_list[i as int]@);
        builder = builder.depends(depends_list[i].clone());
        assert(middle.depends + depends_list.deep_view().take(i + 1) =~= (middle.depends
            + depends_list.deep_view().take(i as int)).push(depends_list[i as int]@));
        i += 1;
    }
    assert(depends_list.deep_view().take(depends_list.len() as int) =~= depends_list.deep_view());
    builder.build()
}

/// Reads the item that is declared in line `*line_number` by the match
/// `id_captures`, with the lines that belong to it. Where an item comes
/// back, `*line_number` is left on its last line; else it stays.
pub fn parse_specification_item(
    lines: &Vec<MarkdownLine>,
    line_number: &mut usize,
    file_path: &str,
    id_captures: &Vec<Option<String>>,
) -> (r: Result<Option<SpecificationItem>, Error>)
    requires
        *old(line_number) < lines.len(),
        *old(line_number) < u32::MAX,
    ensures
        result_view(r) == item_at(
            lines.deep_view(),
            *old(line_number) as int,
            file_path@,
            id_captures.deep_view(),
        ),
        r matches Ok(Some(_)) ==> *final(line_number) + 1 == body_end(
            lines.deep_view(),
            *old(line_number) + 1,
        ),
        !(r matches Ok(Some(_))) ==> *final(line_number) == *old(line_number),
{
    let ghost views = lines.deep_view();
    let n = *line_number;
    let artifact_type = get_group(id_captures, 1);
    let name = get_group(id_captures, 2);
    let revision_text = get_group(id_captures, 3);
    if artifact_type.is_none() || name.is_none() || revision_text.is_none() {
        return Ok(None);
    }
    let location = Location::new(String::from_str(file_path), (n + 1) as u32);
    assert(location@ == line_location(file_path@, n as int));
    let revision = match read_revision(revision_text.unwrap(), &location) {
        Ok(revision) => revision,
        Err(error) => {
            return Err(error);
        },
    };
    let id = SpecificationItemId::new(
        artifact_type.unwrap().clone(),
        name.unwrap().clone(),
        revision,
    );
    assert(views[n as int] == lines[n as int]@);
    let title: Option<String> = if n > 0 && lines[n - 1].is_heading {
        assert(views[n - 1] == lines[n - 1]@);
        Some(lines[n - 1].heading_text.clone())
    } else if lines[n].is_heading {
        if n > 0 {
            assert(views[n - 1] == lines[n - 1]@);
        }
        Some(title_from_heading(&lines[n].heading_text, &id.to_string()))
    } else {
        if n > 0 {
            assert(views[n - 1] == lines[n - 1]@);
        }
        None
    };
    assert(title.deep_view() == title_spec(views, n as int, id@));
    let mut builder = SpecificationItem::builder(id).location(location);
    match title {
        Some(text) => {
            builder = builder.title(text);
        },
        None => {},
    }
    let mut draft = Draft {
        builder,
        section: Section::Description,
        description: String::new(),
        rationale: String::new(),
        comment: String::new(),
        covers_list: Vec::new(),
        depends_list: Vec::new(),
    };
    assert(draft@.covers_list =~= Seq::empty());
    assert(draft@.depends_list =~= Seq::empty());
    let ghost start = draft@;
    assert(Ok::<Option<DraftView>, ErrorView>(Some(start)) == start_draft(
        views,
        n as int,
        file_path@,
        id_captures.deep_view(),
    ));
    let mut k: usize = n + 1;
    while k < lines.len()
        invariant_except_break
            n + 1 <= k <= lines.len(),
            views == lines.deep_view(),
            forall|j: int| n + 1 <= j < k ==> !is_boundary(#[trigger] views[j]),
            draft@ == apply_lines(start, views, n + 1, k as int),
        ensures
            n + 1 <= k <= lines.len(),
            forall|j: int| n + 1 <= j < k ==> !is_boundary(#[trigger] views[j]),
            k < lines.len() ==> is_boundary(views[k as int]),
            draft@ == apply_lines(start, views, n + 1, k as int),
        decreases lines.len() - k,
    {
        assert(views[k as int] == lines[k as int]@);
        if lines[k].declares_id || lines[k].heading_declares_id {
            break ;
        }
        draft = apply_line_to(draft, &lines[k]);
        k += 1;
    }
    proof {
        lemma_body_end_is(views, n + 1, k as int);
    }
    *line_number = k - 1;
    Ok(Some(finish_draft(draft)))
}

/// What an import yields when `items` are followed by what `rest` yields.
pub open spec fn followed_by(items: Seq<ItemView>, rest: Yield) -> Yield {
    match rest {
        Ok(more) => Ok(items + more),
        Err(error) => Err(error),
    }
}

/// Assembles the items of a document from its classified lines. A
/// document with more lines than line numbers can count is refused.
pub fn assemble_items(lines: &Vec<MarkdownLine>, file_path: &str) -> (r: Result<
    Vec<SpecificationItem>,
    Error,
>)
    ensures
        result_view(r) == document_items(lines.deep_view(), file_path@),
{
    if lines.len() > u32::MAX as usize {
        return Err(line_limit(file_path));
    }
    let ghost views = lines.deep_view();
    let ghost whole = document_items(views, file_path@);
    let mut items: Vec<SpecificationItem> = Vec::new();
    let mut n: usize = 0;
    assert(items.deep_view() =~= Seq::<ItemView>::empty());
    assert(whole == followed_by(items.deep_view(), document_from(views, 0, file_path@))) by {
        match document_from(views, 0, file_path@) {
            Ok(more) => {
                assert(Seq::<ItemView>::empty() + more =~= more);
            },
            Err(_) => {},
        }
    }
    while n < lines.len()
        invariant
            n <= lines.len(),
            lines.len() <= u32::MAX,
            views == lines.deep_view(),
            whole == document_items(views, file_path@),
            whole == followed_by(items.deep_view(), document_from(views, n as int, file_path@)),
        decreases lines.len() - n,
    {
        assert(views[n as int] == lines[n as int]@);
        let ghost at = n as int;
        let ghost before = items.deep_view();
        let found: &Option<Vec<Option<String>>> = if lines[n].declared_id.is_some() {
            &lines[n].declared_id
        } else if lines[n].is_heading {
            &lines[n].heading_id
        } else {
            &None
        };
        assert(found.deep_view() == declaration(views[at]));
        match found {
            Some(id_captures) => {
                proof {
                    lemma_body_end_bounds(views, at + 1);
                }
                match parse_specification_item(lines, &mut n, file_path, id_captures) {
                    Ok(Some(item)) => {
                        items.push(item);
                        assert(items.deep_view() =~~= before.push(item@));
                        assert(whole == followed_by(
                            items.deep_view(),
                            document_from(views, n + 1, file_path@),
                        )) by {
                            match document_from(views, n + 1, file_path@) {
                                Ok(rest) => {
                                    assert(before + (seq![item@] + rest) =~= before.push(item@)
                                        + rest);
                                },
                                Err(_) => {},
                            }
                        }
                    },
                    Ok(None) => {},
                    Err(error) => {
                        assert(document_from(views, at, file_path@) == Err::<
                            Seq<ItemView>,
                            ErrorView,
                        >(error@));
                        return Err(error);
                    },
                }
            },
            None => {},
        }
        n += 1;
    }
    assert(items.deep_view() + Seq::<ItemView>::empty() =~= items.deep_view());
    Ok(items)
}

/// The items that a document declares.
pub open spec fn markdown_items(content: Seq<char>, path: Seq<char>) -> Yield {
    document_items(classified(lines_spec(content)), path)
}

/// The items that several documents declare, document by document, or the
/// error of the first declaration that cannot be read.
pub open spec fn markdown_files_items(files: Seq<SourceFileView>) -> Yield {
    concat_results(
        Seq::new(files.len(), |i: int| markdown_items(files[i].content, files[i].path)),
    )
}

impl MarkdownImporter {
    /// Reads the items of a document from its text.
    pub fn parse_markdown(&self, content: &str, file_path: &str) -> (r: Result<
        Vec<SpecificationItem>,
        Error,
    >)
        ensures
            result_view(r) == markdown_items(content@, file_path@),
    {
        let lines = split_lines(content);
        let classes = self.classify_lines(&lines);
        assemble_items(&classes, file_path)
    }

    /// Imports the items of one document, given by its text and its path.
    pub fn import_from_file(&self, content: &str, path: &str) -> (r: Result<
        Vec<SpecificationItem>,
        Error,
    >)
        ensures
            result_view(r) == markdown_items(content@, path@),
    {
        self.parse_markdown(content, path)
    }

    /// Imports the items of the documents of a directory, given with
    /// their texts in the order in which they were found. The first
    /// declaration that cannot be read stops the import.
    pub fn import_from_directory(&self, files: &Vec<SourceFile>) -> (r: Result<
        Vec<SpecificationItem>,
        Error,
    >)
        ensures
            result_view(r) == markdown_files_items(files.deep_view()),
    {
        let ghost results = Seq::new(
            files.len() as nat,
            |i: int| markdown_items(files.deep_view()[i].content, files.deep_view()[i].path),
        );
        let mut items: Vec<SpecificationItem> = Vec::new();
        let mut i: usize = 0;
        assert(results.take(0) =~= Seq::<Yield>::empty());
        assert(items.deep_view() =~= Seq::<ItemView>::empty());
        while i < files.len()
            invariant
                i <= files.len(),
                results == Seq::new(
                    files.len() as nat,
                    |i: int|
                        markdown_items(files.deep_view()[i].content, files.deep_view()[i].path),
                ),
                concat_results(results.take(i as int)) == Ok::<Seq<ItemView>, ErrorView>(
                    items.deep_view(),
                ),
            decreases files.len() - i,
        {
            assert(files.deep_view()[i as int] == files[i as int]@);
            proof {
                lemma_concat_results_step(results, i as int);
            }
            match self.import_from_file(files[i].content.as_str(), files[i].path.as_str()) {
                Ok(more) => {
                    append_items(&mut items, more);
                },
                Err(error) => {
                    proof {
                        lemma_concat_results_error(results, i + 1);
                    }
                    return Err(error);
                },
            }
            i += 1;
        }
        assert(results.take(files.len() as int) =~= results);
        Ok(items)
    }
}

} // verus!
