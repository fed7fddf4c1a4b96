//! Import of coverage tags from source text.
//!
//! Two tag forms are recognised, each by a regular expression:
//! the full tag `[type -> type~name~revision]`, optionally with the
//! covering item's own `~name~revision` and a `>>` list of needed artifact
//! types, and the short tag `[[type~name~revision : type]]`.

use crate::config::{default_config, Config};
use crate::error::{result_view, Error, ErrorView};
use crate::import::{
    append_items, concat_results, lemma_concat_results_error, lemma_concat_results_step,
    line_limit, line_limit_error, read_revision, revision_error, single, SourceFile,
    SourceFileView, Yield,
};
use crate::model::{
    bare_item, location_text, IdView, ItemView, Location, LocationView, SpecificationItem,
    SpecificationItemId,
};
use crate::pattern::{
    captures_iter, compile_pattern, get_group, group, regex_captures_iter, regex_source,
};
use crate::text::{
    comma_list_spec, decimal_digits, lines_spec, parse_comma_list, parse_u32_spec, split_lines,
    string_of, u64_to_chars,
};
use vstd::prelude::*;
use vstd::string::StringExecFns;

verus! {

/// The pattern of a full tag. Groups: 1 the covering artifact type, 2 and 3
/// its name and revision where given, 4 to 6 the covered identifier, 7 the
/// list of needed artifact types where given.
pub const FULL_TAG_PATTERN: &'static str =
    r"\[\s*([a-zA-Z]+)(?:~([a-zA-Z0-9._-]+)~(\d+))?\s*->\s*([a-zA-Z]+)~([a-zA-Z0-9._-]+)~(\d+)\s*(?:>>\s*([a-zA-Z0-9,\s]+))?\s*\]";

/// The pattern of a short tag. Groups: 1 to 3 the covered identifier, 4 the
/// covering artifact type.
pub const SHORT_TAG_PATTERN: &'static str =
    r"\[\[\s*([a-zA-Z]+)~([a-zA-Z0-9._-]+)~(\d+)\s*:\s*([a-zA-Z]+)\s*\]\]";

/// The 64-bit hash that the standard library's default hasher, freshly
/// made, gives to a text.
pub uninterp spec fn text_hash(text: Seq<char>) -> u64;

/// Hashes `input` with a freshly made `DefaultHasher` of the standard
/// library, through `BuildHasher::hash_one`. Such a hasher is not seeded,
/// so the result depends on the text alone; it is the named result.
#[verifier::external_body]
fn hash_text(input: &str) -> (hash: u64)
    ensures
        hash == text_hash(input@),
{
    std::hash::BuildHasher::hash_one(
        &std::hash::BuildHasherDefault::<std::collections::hash_map::DefaultHasher>::default(),
        input,
    )
}

/// The name given to a covering item that states none: the covered name,
/// a hyphen, and the hash of the tag's location in decimal.
pub open spec fn synthetic_name(covered_name: Seq<char>, location_hash: u64) -> Seq<char> {
    covered_name + seq!['-'] + decimal_digits(location_hash as nat)
}

/// The item that covers `covered` from `location`.
pub open spec fn covering_item(
    id: IdView,
    covered: IdView,
    location: LocationView,
    needs: Seq<Seq<char>>,
) -> ItemView {
    ItemView { covers: seq![covered], location: Some(location), needs, ..bare_item(id) }
}

/// What the match of a full tag yields.
///
/// A match that lacks the covering type or a part of the covered
/// identifier yields nothing. A revision that is no 32-bit number is an
/// error, the covered one first. Otherwise the match yields one item that
/// covers the covered identifier: under its own name and revision where
/// the tag states both, else under a synthetic name and revision 0.
pub open spec fn full_tag_item(
    captures: Seq<Option<Seq<char>>>,
    location: LocationView,
    location_hash: u64,
) -> Result<Option<ItemView>, ErrorView> {
    let artifact_type = group(captures, 1);
    let name = group(captures, 2);
    let revision = group(captures, 3);
    let covered_type = group(captures, 4);
    let covered_name = group(captures, 5);
    let covered_revision = group(captures, 6);
    let needs = group(captures, 7);
    if artifact_type is None || covered_type is None || covered_name is None || covered_revision
        is None {
        Ok(None)
    } else if parse_u32_spec(covered_revision->0) is None {
        Err(revision_error(covered_revision->0, location))
    } else if revision is Some && parse_u32_spec(revision->0) is None {
        Err(revision_error(revision->0, location))
    } else {
        let id = IdView {
            artifact_type: artifact_type->0,
            name: if name is Some && revision is Some {
                name->0
            } else {
                synthetic_name(covered_name->0, location_hash)
            },
            revision: if revision is Some {
                parse_u32_spec(revision->0)->0
            } else {
                0
            },
        };
        let covered = IdView {
            artifact_type: covered_type->0,
            name: covered_name->0,
            revision: parse_u32_spec(covered_revision->0)->0,
        };
        Ok(
            Some(
                covering_item(
                    id,
                    covered,
                    location,
                    if needs is Some {
                        comma_list_spec(needs->0)
                    } else {
                        Seq::empty()
                    },
                ),
            ),
        )
    }
}

/// What the match of a short tag yields.
///
/// A match that lacks a part yields nothing. A covered revision that is no
/// 32-bit number is an error. Otherwise the match yields one item of the
/// stated type, under a synthetic name and revision 0, that covers the
/// covered identifier.
pub open spec fn short_tag_item(
    captures: Seq<Option<Seq<char>>>,
    location: LocationView,
    location_hash: u64,
) -> Result<Option<ItemView>, ErrorView> {
    let covered_type = group(captures, 1);
    let covered_name = group(captures, 2);
    let covered_revision = group(captures, 3);
    let artifact_type = group(captures, 4);
    if artifact_type is None || covered_type is None || covered_name is None || covered_revision
        is None {
        Ok(None)
    } else if parse_u32_spec(covered_revision->0) is None {
        Err(revision_error(covered_revision->0, location))
    } else {
        let id = IdView {
            artifact_type: artifact_type->0,
            name: synthetic_name(covered_name->0, location_hash),
            revision: 0,
        };
        let covered = IdView {
            artifact_type: covered_type->0,
            name: covered_name->0,
            revision: parse_u32_spec(covered_revision->0)->0,
        };
        Ok(Some(covering_item(id, covered, location, Seq::empty())))
    }
}

/// The synthetic name for an item that covers `covered_name`.
fn make_synthetic_name(covered_name: &String, location_hash: u64) -> (name: String)
    ensures
        name@ == synthetic_name(covered_name@, location_hash),
{
    let digits = u64_to_chars(location_hash);
    let shown = string_of(&digits);
    proof {
        reveal_strlit("-");
        assert("-"@ == seq!['-']);
    }
    covered_name.clone().concat("-").concat(shown.as_str())
}

/// Builds the item that a full tag declares from the capture groups of
/// its match, the tag's location and the hash of that location.
pub fn item_from_full_tag(
    captures: &Vec<Option<String>>,
    location: &Location,
    location_hash: u64,
) -> (r: Result<Option<SpecificationItem>, Error>)
    ensures
        result_view(r) == full_tag_item(captures.deep_view(), location@, location_hash),
{
    let artifact_type = get_group(captures, 1);
    let name = get_group(captures, 2);
    let revision = get_group(captures, 3);
    let covered_type = get_group(captures, 4);
    let covered_name = get_group(captures, 5);
    let covered_revision_text = get_group(captures, 6);
    let needs_text = get_group(captures, 7);
    if artifact_type.is_none() || covered_type.is_none() || covered_name.is_none()
        || covered_revision_text.is_none() {
        return Ok(None);
    }
    let artifact_type = artifact_type.unwrap();
    let covered_type = covered_type.unwrap();
    let covered_name = covered_name.unwrap();
    let covered_revision = match read_revision(covered_revision_text.unwrap(), location) {
        Ok(revision) => revision,
        Err(error) => {
            return Err(error);
        },
    };
    let item_name = match (name, revision) {
        (Some(name), Some(_)) => name.clone(),
        _ => make_synthetic_name(covered_name, location_hash),
    };
    let item_revision = match revision {
        Some(text) => match read_revision(text, location) {
            Ok(revision) => revision,
            Err(error) => {
                return Err(error);
            },
        },
        None => 0,
    };
    let item_id = SpecificationItemId::new(artifact_type.clone(), item_name, item_revision);
    let covered_id = SpecificationItemId::new(
        covered_type.clone(),
        covered_name.clone(),
        covered_revision,
    );
    let mut builder = SpecificationItem::builder(item_id).covers(covered_id).location(
        location.clone(),
    );
    match needs_text {
        Some(text) => {
            builder = builder.needs_multiple(parse_comma_list(text.as_str()));
        },
        None => {},
    }
    let item = builder.build();
    assert(item@.covers =~= seq![covered_id@]);
    assert(item@.needs =~= if needs_text is Some {
        comma_list_spec(needs_text->0@)
    } else {
        Seq::empty()
    });
    Ok(Some(item))
}

/// Builds the item that a short tag declares from the capture groups of
/// its match, the tag's location and the hash of that location.
pub fn item_from_short_tag(
    captures: &Vec<Option<String>>,
    location: &Location,
    location_hash: u64,
) -> (r: Result<Option<SpecificationItem>, Error>)
    ensures
        result_view(r) == short_tag_item(captures.deep_view(), location@, location_hash),
{
    let covered_type = get_group(captures, 1);
    let covered_name = get_group(captures, 2);
    let covered_revision_text = get_group(captures, 3);
    let artifact_type = get_group(captures, 4);
    if artifact_type.is_none() || covered_type.is_none() || covered_name.is_none()
        || covered_revision_text.is_none() {
        return Ok(None);
    }
    let artifact_type = artifact_type.unwrap();
    let covered_type = covered_type.unwrap();
    let covered_name = covered_name.unwrap();
    let covered_revision = match read_revision(covered_revision_text.unwrap(), location) {
        Ok(revision) => revision,
        Err(error) => {
            return Err(error);
        },
    };
    let item_name = make_synthetic_name(covered_name, location_hash);
    let item_id = SpecificationItemId::new(artifact_type.clone(), item_name, 0);
    let covered_id = SpecificationItemId::new(
        covered_type.clone(),
        covered_name.clone(),
        covered_revision,
    );
    let item = SpecificationItem::builder(item_id).covers(covered_id).location(
        location.clone(),
    ).build();
    assert(item@.covers =~= seq![covered_id@]);
    Ok(Some(item))
}

/// What each tag match of a line yields: the full tags first, then the
/// short tags, each kind in the order of its matches.
pub open spec fn line_results(line: Seq<char>, location: LocationView) -> Seq<Yield> {
    let hash = text_hash(location_text(location));
    let full = regex_captures_iter(FULL_TAG_PATTERN@, line);
    let short = regex_captures_iter(SHORT_TAG_PATTERN@, line);
    Seq::new(full.len(), |i: int| single(full_tag_item(full[i], location, hash))) + Seq::new(
        short.len(),
        |i: int| single(short_tag_item(short[i], location, hash)),
    )
}

/// The items that the tags of one line declare, or the error of the first
/// tag that cannot be read.
pub open spec fn line_items(line: Seq<char>, location: LocationView) -> Yield {
    concat_results(line_results(line, location))
}

/// What each line of a text yields; lines are counted from 1.
pub open spec fn text_results(lines: Seq<Seq<char>>, path: Seq<char>) -> Seq<Yield> {
    Seq::new(
        lines.len(),
        |i: int| line_items(lines[i], LocationView { path, line: (i + 1) as u32 }),
    )
}

/// The items that the tags of a text declare, line by line, or the error
/// of the first tag that cannot be read. A text with more lines than line
/// numbers can count is an error as a whole.
pub open spec fn text_items(content: Seq<char>, path: Seq<char>) -> Yield {
    if lines_spec(content).len() > u32::MAX {
        Err(line_limit_error(path))
    } else {
        concat_results(text_results(lines_spec(content), path))
    }
}

/// The items that the tags of several files declare, file by file, or the
/// error of the first tag that cannot be read.
pub open spec fn files_items(files: Seq<SourceFileView>) -> Yield {
    concat_results(Seq::new(files.len(), |i: int| text_items(files[i].content, files[i].path)))
}

/// Finds coverage tags in source text and turns each into a covering item.
pub struct TagImporter {
    full_tag_regex: regex::Regex,
    short_tag_regex: regex::Regex,
    config: Config,
}

impl TagImporter {
    /// The two expressions are compiled from the two tag patterns.
    #[verifier::type_invariant]
    spec fn well_formed(self) -> bool {
        regex_source(self.full_tag_regex) == FULL_TAG_PATTERN@ && regex_source(
            self.short_tag_regex,
        ) == SHORT_TAG_PATTERN@
    }

    /// An importer that selects files by the default configuration.
    /// Fails only if a tag pattern does not compile.
    pub fn new() -> (r: Result<Self, Error>)
        ensures
            r matches Ok(importer) ==> importer.config()@ == default_config(),
            r is Err ==> r->Err_0 is Regex,
    {
        Self::with_config(Config::default())
    }

    /// An importer that selects files by `config`.
    /// Fails only if a tag pattern does not compile.
    pub fn with_config(config: Config) -> (r: Result<Self, Error>)
        ensures
            r matches Ok(importer) ==> importer.config()@ == config@,
            r is Err ==> r->Err_0 is Regex,
    {
        let full_tag_regex = compile_pattern(FULL_TAG_PATTERN)?;
        let short_tag_regex = compile_pattern(SHORT_TAG_PATTERN)?;
        Ok(Self { full_tag_regex, short_tag_regex, config })
    }

    /// Imports the tags of the files of a directory, given with their
    /// texts in the order in which they were found. The first tag that
    /// cannot be read stops the import.
    pub fn import_from_directory(&self, files: &Vec<SourceFile>) -> (r: Result<
        Vec<SpecificationItem>,
        Error,
    >)
        ensures
            result_view(r) == files_items(files.deep_view()),
    {
        let ghost results = Seq::new(
            files.len() as nat,
            |i: int| text_items(files.deep_view()[i].content, files.deep_view()[i].path),
        );
        let mut items: Vec<SpecificationItem> = Vec::new();
        let mut i: usize = 0;
        assert(results.take(0) =~= Seq::<Yield>::empty());
        assert(items.deep_view() =~= Seq::<ItemView>::empty());
        while i < files.len()
            invariant
                i <= files.len(),
                results == Seq::new(
                    files.len() as nat,
                    |i: int| text_items(files.deep_view()[i].content, files.deep_view()[i].path),
                ),
                concat_results(results.take(i as int)) == Ok::<Seq<ItemView>, ErrorView>(
                    items.deep_view(),
                ),
            decreases files.len() - i,
        {
            assert(files.deep_view()[i as int] == files[i as int]@);
            proof {
                lemma_concat_results_step(results, i as int);
            }
            match self.import_from_file(files[i].content.as_str(), files[i].path.as_str()) {
                Ok(more) => {
                    append_items(&mut items, more);
                },
                Err(error) => {
                    proof {
                        lemma_concat_results_error(results, i + 1);
                    }
                    return Err(error);
                },
            }
            i += 1;
        }
        assert(results.take(files.len() as int) =~= results);
        Ok(items)
    }

    /// Imports the tags of one file, given by its text and its path. Every
    /// line is scanned on its own; the first tag that cannot be read stops
    /// the import. A file with more lines than line numbers can count is
    /// refused.
    pub fn import_from_file(&self, content: &str, path: &str) -> (r: Result<
        Vec<SpecificationItem>,
        Error,
    >)
        ensures
            result_view(r) == text_items(content@, path@),
    {
        let lines = split_lines(content);
        if lines.len() > u32::MAX as usize {
            return Err(line_limit(path));
        }
        let ghost results = text_results(lines_spec(content@), path@);
        let mut items: Vec<SpecificationItem> = Vec::new();
        let mut i: usize = 0;
        assert(results.take(0) =~= Seq::<Yield>::empty());
        assert(items.deep_view() =~= Seq::<ItemView>::empty());
        while i < lines.len()
            invariant
                i <= lines.len(),
                lines.len() <= u32::MAX,
                lines.deep_view() == lines_spec(content@),
                results == text_results(lines_spec(content@), path@),
                concat_results(results.take(i as int)) == Ok::<Seq<ItemView>, ErrorView>(
                    items.deep_view(),
                ),
            decreases lines.len() - i,
        {
            assert(lines.deep_view()[i as int] == lines[i as int]@);
            proof {
                lemma_concat_results_step(results, i as int);
            }
            let line_number: u32 = (i + 1) as u32;
            match self.parse_line(lines[i].as_str(), path, line_number) {
                Ok(more) => {
                    append_items(&mut items, more);
                },
                Err(error) => {
                    proof {
                        lemma_concat_results_error(results, i + 1);
                    }
                    return Err(error);
                },
            }
            i += 1;
        }
        assert(results.take(lines.len() as int) =~= results);
        Ok(items)
    }

    /// Imports the tags of one line: all full tags, then all short tags.
    pub fn parse_line(&self, line: &str, file_path: &str, line_number: u32) -> (r: Result<
        Vec<SpecificationItem>,
        Error,
    >)
        ensures
            result_view(r) == line_items(
                line@,
                LocationView { path: file_path@, line: line_number },
            ),
    {
        proof {
            use_type_invariant(self);
        }
        let location = Location::new(String::from_str(file_path), line_number);
        let full = captures_iter(&self.full_tag_regex, line);
        let short = captures_iter(&self.short_tag_regex, line);
        let ghost hash = text_hash(location_text(location@));
        let ghost results = line_results(line@, location@);
        let mut items: Vec<SpecificationItem> = Vec::new();
        assert(results.take(0) =~= Seq::<Yield>::empty());
        assert(items.deep_view() =~= Seq::<ItemView>::empty());
        let mut k: usize = 0;
        while k < full.len()
            invariant
                k <= full.len(),
                full.deep_view() == regex_captures_iter(FULL_TAG_PATTERN@, line@),
                short.deep_view() == regex_captures_iter(SHORT_TAG_PATTERN@, line@),
                hash == text_hash(location_text(location@)),
                location@ == (LocationView { path: file_path@, line: line_number }),
                results == line_results(line@, location@),
                concat_results(results.take(k as int)) == Ok::<Seq<ItemView>, ErrorView>(
                    items.deep_view(),
                ),
            decreases full.len() - k,
        {
            assert(full.deep_view()[k as int] == full[k as int].deep_view());
            assert(results[k as int] == single(
                full_tag_item(full[k as int].deep_view(), location@, hash),
            ));
            proof {
                lemma_concat_results_step(results, k as int);
            }
            match self.parse_full_tag(&full[k], &location) {
                Ok(Some(item)) => {
                    let ghost before = items.deep_view();
                    items.push(item);
                    assert(items.deep_view() =~~= before + seq![item@]);
                },
                Ok(None) => {
                    assert(items.deep_view() + Seq::<ItemView>::empty() =~= items.deep_view());
                },
                Err(error) => {
                    proof {
                        lemma_concat_results_error(results, k + 1);
                    }
                    return Err(error);
                },
            }
            k += 1;
        }
        let mut m: usize = 0;
        while m < short.len()
            invariant
                m <= short.len(),
                k == full.len(),
                full.deep_view() == regex_captures_iter(FULL_TAG_PATTERN@, line@),
                short.deep_view() == regex_captures_iter(SHORT_TAG_PATTERN@, line@),
                hash == text_hash(location_text(location@)),
                location@ == (LocationView { path: file_path@, line: line_number }),
                results == line_results(line@, location@),
                concat_results(results.take(k + m)) == Ok::<Seq<ItemView>, ErrorView>(
                    items.deep_view(),
                ),
            decreases short.len() - m,
        {
            assert(short.deep_view()[m as int] == short[m as int].deep_view());
            assert(results[k + m] == single(
                short_tag_item(short[m as int].deep_view(), location@, hash),
            ));
            proof {
                lemma_concat_results_step(results, k + m);
            }
            match self.parse_short_tag(&short[m], &location) {
                Ok(Some(item)) => {
                    let ghost before = items.deep_view();
                    items.push(item);
                    assert(items.deep_view() =~~= before + seq![item@]);
                },
                Ok(None) => {
                    assert(items.deep_view() + Seq::<ItemView>::empty() =~= items.deep_view());
                },
                Err(error) => {
                    proof {
                        lemma_concat_results_error(results, k + m + 1);
                    }
                    return Err(error);
                },
            }
            m += 1;
        }
        assert(results.take(k + m) =~= results);
        Ok(items)
    }

    /// Builds the item that a full tag at `location` declares from the
    /// capture groups of its match.
    pub fn parse_full_tag(&self, captures: &Vec<Option<String>>, location: &Location) -> (r:
        Result<Option<SpecificationItem>, Error>)
        ensures
            result_view(r) == full_tag_item(
                captures.deep_view(),
                location@,
                text_hash(location_text(location@)),
            ),
    {
        let hash = self.generate_hash(location.to_string().as_str());
        item_from_full_tag(captures, location, hash)
    }

    /// Builds the item that a short tag at `location` declares from the
    /// capture groups of its match.
    pub fn parse_short_tag(&self, captures: &Vec<Option<String>>, location: &Location) -> (r:
        Result<Option<SpecificationItem>, Error>)
        ensures
            result_view(r) == short_tag_item(
                captures.deep_view(),
                location@,
                text_hash(location_text(location@)),
            ),
    {
        let hash = self.generate_hash(location.to_string().as_str());
        item_from_short_tag(captures, location, hash)
    }

    /// Reads a comma-separated list of needed artifact types: trims each
    /// entry and drops the empty ones.
    pub fn parse_needs_list(&self, needs_str: &str) -> (needs: Vec<String>)
        ensures
            needs.deep_view() == comma_list_spec(needs_str@),
    {
        parse_comma_list(needs_str)
    }

    /// The hash that goes into synthetic names.
    pub fn generate_hash(&self, input: &str) -> (hash: u64)
        ensures
            hash == text_hash(input@),
    {
        hash_text(input)
    }

    /// Whether the file at `path` is scanned for tags, by this importer's
    /// configuration.
    pub fn should_scan_file(&self, path: &str) -> (r: bool)
        ensures
            r ==> self.config()@.source_patterns.len() > 0,
    {
        self.config.matches_source_pattern(path)
    }

    /// The configuration that selects the files.
    pub closed spec fn config(&self) -> Config {
        self.config
    }
}

/// Every item that a tag yields covers exactly the identifier that the
/// tag names and lies at the tag's location; an item without own name and
/// revision has revision 0.
pub proof fn lemma_tag_item_covers_its_target(
    captures: Seq<Option<Seq<char>>>,
    location: LocationView,
    location_hash: u64,
)
    ensures
        full_tag_item(captures, location, location_hash) matches Ok(Some(item)) ==> {
            &&& item.covers.len() == 1
            &&& item.covers[0].artifact_type == group(captures, 4)->0
            &&& item.covers[0].name == group(captures, 5)->0
            &&& parse_u32_spec(group(captures, 6)->0) == Some(item.covers[0].revision)
            &&& item.location == Some(location)
            &&& item.id.artifact_type == group(captures, 1)->0
            &&& group(captures, 3) is None ==> item.id.revision == 0 && item.id.name
                == synthetic_name(group(captures, 5)->0, location_hash)
        },
        short_tag_item(captures, location, location_hash) matches Ok(Some(item)) ==> {
            &&& item.covers.len() == 1
            &&& item.covers[0].artifact_type == group(captures, 1)->0
            &&& item.covers[0].name == group(captures, 2)->0
            &&& parse_u32_spec(group(captures, 3)->0) == Some(item.covers[0].revision)
            &&& item.location == Some(location)
            &&& item.id.artifact_type == group(captures, 4)->0
            &&& item.id.revision == 0
            &&& item.id.name == synthetic_name(group(captures, 2)->0, location_hash)
            &&& item.needs.len() == 0
        },
{
}

} // verus!
