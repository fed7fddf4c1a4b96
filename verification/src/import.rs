//! What the importers share: the files they are handed, and how the items
//! of many lines or files are put together.

use crate::error::{Error, ErrorView};
use crate::model::{location_text, ItemView, Location, LocationView, SpecificationItem};
use crate::text::{parse_u32, parse_u32_spec, to_chars};
use vstd::prelude::*;
use vstd::string::StringExecFns;

verus! {

/// A file as the importers see it: its path and its text.
#[derive(Debug)]
pub struct SourceFile {
    /// Path of the file.
    pub path: String,
    /// The whole text of the file.
    pub content: String,
}

/// A file as a mathematical value.
pub struct SourceFileView {
    pub path: Seq<char>,
    pub content: Seq<char>,
}

impl DeepView for SourceFile {
    type V = SourceFileView;

    open spec fn deep_view(&self) -> SourceFileView {
        SourceFileView { path: self.path@, content: self.content@ }
    }
}

impl View for SourceFile {
    type V = SourceFileView;

    open spec fn view(&self) -> SourceFileView {
        self.deep_view()
    }
}

/// What a step of an import yields: items, or the error that stops it.
pub type Yield = Result<Seq<ItemView>, ErrorView>;

/// The items that a sequence of steps yields together, in order; or the
/// error of the first step that fails.
pub open spec fn concat_results(results: Seq<Yield>) -> Yield
    decreases results.len(),
{
    if results.len() == 0 {
        Ok(Seq::empty())
    } else {
        match concat_results(results.drop_last()) {
            Err(error) => Err(error),
            Ok(items) => match results.last() {
                Err(error) => Err(error),
                Ok(more) => Ok(items + more),
            },
        }
    }
}

/// What a step that yields at most one item yields.
pub open spec fn single(r: Result<Option<ItemView>, ErrorView>) -> Yield {
    match r {
        Ok(Some(item)) => Ok(seq![item]),
        Ok(None) => Ok(Seq::empty()),
        Err(error) => Err(error),
    }
}

/// One more step extends what the steps before it yielded.
pub proof fn lemma_concat_results_step(results: Seq<Yield>, k: int)
    requires
        0 <= k < results.len(),
    ensures
        concat_results(results.take(k + 1)) == match concat_results(results.take(k)) {
            Err(error) => Err(error),
            Ok(items) => match results[k] {
                Err(error) => Err(error),
                Ok(more) => Ok(items + more),
            },
        },
{
    assert(results.take(k + 1).drop_last() =~= results.take(k));
    assert(results.take(k + 1).last() == results[k]);
}

/// Once a step has failed, the whole import fails with its error.
pub proof fn lemma_concat_results_error(results: Seq<Yield>, k: int)
    requires
        0 <= k <= results.len(),
        concat_results(results.take(k)) is Err,
    ensures
        concat_results(results) == concat_results(results.take(k)),
    decreases results.len() - k,
{
    if k < results.len() {
        lemma_concat_results_step(results, k);
        lemma_concat_results_error(results, k + 1);
    } else {
        assert(results.take(k) =~= results);
    }
}

/// Moves the items of `more` to the end of `all`.
pub fn append_items(all: &mut Vec<SpecificationItem>, more: Vec<SpecificationItem>)
    ensures
        final(all).deep_view() == old(all).deep_view() + more.deep_view(),
{
    let ghost before = all.deep_view();
    let ghost added = more.deep_view();
    let mut more = more;
    all.append(&mut more);
    assert(all.deep_view() =~~= before + added);
}

/// The error for a revision that cannot be read.
pub open spec fn revision_error(text: Seq<char>, location: LocationView) -> ErrorView {
    ErrorView::Parse {
        message: "Invalid revision number: "@ + text,
        location: location_text(location),
    }
}

/// Reads a revision, or says where it could not be read.
pub fn read_revision(text: &String, location: &Location) -> (r: Result<u32, Error>)
    ensures
        match parse_u32_spec(text@) {
            Some(revision) => r == Ok::<u32, Error>(revision),
            None => r is Err && r->Err_0@ == revision_error(text@, location@),
        },
{
    let chars = to_chars(text.as_str());
    match parse_u32(&chars) {
        Some(revision) => Ok(revision),
        None => Err(
            Error::Parse {
                message: String::from_str("Invalid revision number: ").concat(text.as_str()),
                location: location.to_string(),
            },
        ),
    }
}

/// The error for a file with more lines than line numbers can count:
/// line numbers have 32 bits.
pub open spec fn line_limit_error(path: Seq<char>) -> ErrorView {
    ErrorView::Parse { message: "File has more lines than can be numbered"@, location: path }
}

/// The error for a file with more lines than line numbers can count.
pub fn line_limit(path: &str) -> (error: Error)
    ensures
        error@ == line_limit_error(path@),
{
    Error::Parse {
        message: String::from_str("File has more lines than can be numbered"),
        location: String::from_str(path),
    }
}

} // verus!
