//! Configuration of a trace: where to look, and which files to read.

use crate::text::{clone_opt_string, clone_strings, to_chars};
use vstd::prelude::*;
use vstd::string::StringExecFns;

verus! {

/// Settings of the tracing process. Paths are plain strings.
#[derive(Debug)]
pub struct Config {
    /// Directories that hold source files to scan for tags.
    pub source_dirs: Vec<String>,
    /// Directories that hold specification documents.
    pub spec_dirs: Vec<String>,
    /// Glob patterns of the source files to scan.
    pub source_patterns: Vec<String>,
    /// Glob patterns of files that are never scanned.
    pub exclude_patterns: Vec<String>,
    /// Artifact types that are known; informational.
    pub artifact_types: Vec<String>,
    /// Whether reports are detailed.
    pub verbose: bool,
    /// Directory that reports are written to.
    pub output_dir: Option<String>,
}

/// A configuration as a mathematical value.
pub struct ConfigView {
    pub source_dirs: Seq<Seq<char>>,
    pub spec_dirs: Seq<Seq<char>>,
    pub source_patterns: Seq<Seq<char>>,
    pub exclude_patterns: Seq<Seq<char>>,
    pub artifact_types: Seq<Seq<char>>,
    pub verbose: bool,
    pub output_dir: Option<Seq<char>>,
}

impl DeepView for Config {
    type V = ConfigView;

    open spec fn deep_view(&self) -> ConfigView {
        ConfigView {
            source_dirs: self.source_dirs.deep_view(),
            spec_dirs: self.spec_dirs.deep_view(),
            source_patterns: self.source_patterns.deep_view(),
            exclude_patterns: self.exclude_patterns.deep_view(),
            artifact_types: self.artifact_types.deep_view(),
            verbose: self.verbose,
            output_dir: self.output_dir.deep_view(),
        }
    }
}

impl View for Config {
    type V = ConfigView;

    open spec fn view(&self) -> ConfigView {
        self.deep_view()
    }
}

impl Clone for Config {
    fn clone(&self) -> (r: Self)
        ensures
            r@ == self@,
    {
        Config {
            source_dirs: clone_strings(&self.source_dirs),
            spec_dirs: clone_strings(&self.spec_dirs),
            source_patterns: clone_strings(&self.source_patterns),
            exclude_patterns: clone_strings(&self.exclude_patterns),
            artifact_types: clone_strings(&self.artifact_types),
            verbose: self.verbose,
            output_dir: clone_opt_string(&self.output_dir),
        }
    }
}

/// The configuration that `Config::default` gives.
pub open spec fn default_config() -> ConfigView {
    ConfigView {
        source_dirs: Seq::empty().push("src"@),
        spec_dirs: Seq::empty().push("docs"@),
        source_patterns: Seq::empty().push("*.rs"@).push("*.adl"@).push("*.atl"@).push(
            "*.java"@,
        ).push("*.c"@).push("*.cpp"@).push("*.h"@).push("*.hpp"@).push("*.py"@).push(
            "*.js"@,
        ).push("*.ts"@).push("*.go"@).push("*.rb"@).push("*.php"@).push("*.sh"@).push("*.sql"@),
        exclude_patterns: Seq::empty().push("target/**"@).push("node_modules/**"@).push(
            ".git/**"@,
        ).push("*.tmp"@).push("*.bak"@),
        artifact_types: Seq::empty().push("feat"@).push("req"@).push("arch"@).push("dsn"@).push(
            "impl"@,
        ).push("utest"@).push("itest"@).push("stest"@).push("uman"@).push("oman"@),
        verbose: false,
        output_dir: Some("target"@),
    }
}

/// The configuration that `Config::empty` gives: no directories, and the
/// smaller lists of patterns and artifact types.
pub open spec fn empty_config() -> ConfigView {
    ConfigView {
        source_dirs: Seq::empty(),
        spec_dirs: Seq::empty(),
        source_patterns: Seq::empty().push("*.rs"@).push("*.adl"@).push("*.atl"@),
        exclude_patterns: Seq::empty().push("target/**"@).push(".git/**"@),
        artifact_types: Seq::empty().push("feat"@).push("req"@).push("dsn"@).push("impl"@).push(
            "utest"@,
        ).push("itest"@),
        verbose: false,
        output_dir: Some("target"@),
    }
}

/// Appends a copy of `s` to `list`.
fn push_str(list: &mut Vec<String>, s: &str)
    ensures
        final(list).deep_view() == old(list).deep_view().push(s@),
{
    let ghost before = list.deep_view();
    list.push(String::from_str(s));
    assert(list.deep_view() =~~= before.push(s@));
}

/// An empty list of strings.
fn no_strings() -> (list: Vec<String>)
    ensures
        list.deep_view() == Seq::<Seq<char>>::empty(),
{
    let list: Vec<String> = Vec::new();
    assert(list.deep_view() =~~= Seq::<Seq<char>>::empty());
    list
}

impl Default for Config {
    fn default() -> (config: Self)
        ensures
            config@ == default_config(),
    {
        let mut source_dirs = no_strings();
        push_str(&mut source_dirs, "src");
        let mut spec_dirs = no_strings();
        push_str(&mut spec_dirs, "docs");
        let mut source_patterns = no_strings();
        push_str(&mut source_patterns, "*.rs");
        push_str(&mut source_patterns, "*.adl");
        push_str(&mut source_patterns, "*.atl");
        push_str(&mut source_patterns, "*.java");
        push_str(&mut source_patterns, "*.c");
        push_str(&mut source_patterns, "*.cpp");
        push_str(&mut source_patterns, "*.h");
        push_str(&mut source_patterns, "*.hpp");
        push_str(&mut source_patterns, "*.py");
        push_str(&mut source_patterns, "*.js");
        push_str(&mut source_patterns, "*.ts");
        push_str(&mut source_patterns, "*.go");
        push_str(&mut source_patterns, "*.rb");
        push_str(&mut source_patterns, "*.php");
        push_str(&mut source_patterns, "*.sh");
        push_str(&mut source_patterns, "*.sql");
        let mut exclude_patterns = no_strings();
        push_str(&mut exclude_patterns, "target/**");
        push_str(&mut exclude_patterns, "node_modules/**");
        push_str(&mut exclude_patterns, ".git/**");
        push_str(&mut exclude_patterns, "*.tmp");
        push_str(&mut exclude_patterns, "*.bak");
        let mut artifact_types = no_strings();
        push_str(&mut artifact_types, "feat");
        push_str(&mut artifact_types, "req");
        push_str(&mut artifact_types, "arch");
        push_str(&mut artifact_types, "dsn");
        push_str(&mut artifact_types, "impl");
        push_str(&mut artifact_types, "utest");
        push_str(&mut artifact_types, "itest");
        push_str(&mut artifact_types, "stest");
        push_str(&mut artifact_types, "uman");
        push_str(&mut artifact_types, "oman");
        Config {
            source_dirs,
            spec_dirs,
            source_patterns,
            exclude_patterns,
            artifact_types,
            verbose: false,
            output_dir: Some(String::from_str("target")),
        }
    }
}

impl Config {
    /// The default configuration.
    pub fn new() -> (config: Self)
        ensures
            config@ == default_config(),
    {
        Self::default()
    }

    /// A configuration without directories.
    pub fn empty() -> (config: Self)
        ensures
            config@ == empty_config(),
    {
        let mut source_patterns = no_strings();
        push_str(&mut source_patterns, "*.rs");
        push_str(&mut source_patterns, "*.adl");
        push_str(&mut source_patterns, "*.atl");
        let mut exclude_patterns = no_strings();
        push_str(&mut exclude_patterns, "target/**");
        push_str(&mut exclude_patterns, ".git/**");
        let mut artifact_types = no_strings();
        push_str(&mut artifact_types, "feat");
        push_str(&mut artifact_types, "req");
        push_str(&mut artifact_types, "dsn");
        push_str(&mut artifact_types, "impl");
        push_str(&mut artifact_types, "utest");
        push_str(&mut artifact_types, "itest");
        Config {
            source_dirs: no_strings(),
            spec_dirs: no_strings(),
            source_patterns,
            exclude_patterns,
            artifact_types,
            verbose: false,
            output_dir: Some(String::from_str("target")),
        }
    }

    /// The configuration that was loaded, or the default one where none was.
    pub fn load_or_default(loaded: Option<Config>) -> (config: Self)
        ensures
            config@ == match loaded {
                Some(found) => found@,
                None => default_config(),
            },
    {
        match loaded {
            Some(found) => found,
            None => Self::default(),
        }
    }

    /// Adds a directory to scan for tags.
    pub fn add_source_dir(self, dir: &str) -> (config: Self)
        ensures
            config@ == (ConfigView { source_dirs: self@.source_dirs.push(dir@), ..self@ }),
    {
        let mut config = self;
        push_str(&mut config.source_dirs, dir);
        config
    }

    /// Adds a directory to scan for specification documents.
    pub fn add_spec_dir(self, dir: &str) -> (config: Self)
        ensures
            config@ == (ConfigView { spec_dirs: self@.spec_dirs.push(dir@), ..self@ }),
    {
        let mut config = self;
        push_str(&mut config.spec_dirs, dir);
        config
    }

    /// Adds a glob pattern of source files to scan.
    pub fn add_source_pattern(self, pattern: &str) -> (config: Self)
        ensures
            config@ == (ConfigView {
                source_patterns: self@.source_patterns.push(pattern@),
                ..self@
            }),
    {
        let mut config = self;
        push_str(&mut config.source_patterns, pattern);
        config
    }

    /// Adds a glob pattern of files that are never scanned.
    pub fn add_exclude_pattern(self, pattern: &str) -> (config: Self)
        ensures
            config@ == (ConfigView {
                exclude_patterns: self@.exclude_patterns.push(pattern@),
                ..self@
            }),
    {
        let mut config = self;
        push_str(&mut config.exclude_patterns, pattern);
        config
    }

    /// Adds a known artifact type.
    pub fn add_artifact_type(self, artifact_type: &str) -> (config: Self)
        ensures
            config@ == (ConfigView {
                artifact_types: self@.artifact_types.push(artifact_type@),
                ..self@
            }),
    {
        let mut config = self;
        push_str(&mut config.artifact_types, artifact_type);
        config
    }

    /// Sets whether reports are detailed.
    pub fn verbose(self, verbose: bool) -> (config: Self)
        ensures
            config@ == (ConfigView { verbose, ..self@ }),
    {
        let mut config = self;
        config.verbose = verbose;
        config
    }

    /// Sets the directory that reports are written to.
    pub fn output_dir(self, dir: &str) -> (config: Self)
        ensures
            config@ == (ConfigView { output_dir: Some(dir@), ..self@ }),
    {
        let mut config = self;
        config.output_dir = Some(String::from_str(dir));
        config
    }
}

/// Asks the `glob` crate whether `path` matches `pattern`: compiles the
/// pattern with `glob::Pattern::new` and calls `Pattern::matches` on it.
/// `None` stands for a pattern that does not compile. What counts as a path
/// separator depends on the platform, so nothing is claimed of the result.
#[verifier::external_body]
fn glob_matches(pattern: &str, path: &str) -> (verdict: Option<bool>) {
    glob::Pattern::new(pattern).ok().map(|compiled| compiled.matches(path))
}

/// Whether `extension` stands in `path` directly behind a dot.
pub open spec fn follows_dot(path: Seq<char>, extension: Seq<char>) -> bool {
    exists|at: int|
        #![trigger path[at]]
        0 <= at && at + 1 + extension.len() <= path.len() && path[at] == '.' && path.subrange(
            at + 1,
            at + 1 + extension.len(),
        ) == extension
}

/// Whether `path` holds `md` or `markdown`, in any case, directly behind a
/// dot. Only such a path can have an extension that names a Markdown file.
pub open spec fn names_markdown_file(path: Seq<char>) -> bool {
    exists|extension: Seq<char>|
        #![trigger follows_dot(path, extension)]
        follows_dot(path, extension) && is_markdown_extension_spec(extension)
}

/// Asks `std::path::Path::extension` for the extension of `path`. `None`
/// stands for a path without one. How a path splits into components
/// depends on the platform, so which part of the path is its file name is
/// left open. Claimed is what the documentation says of every path: the
/// extension is the part of the file name behind its last dot, so it
/// stands in the path directly behind a dot.
#[verifier::external_body]
fn path_extension(path: &str) -> (extension: Option<String>)
    ensures
        extension matches Some(text) ==> follows_dot(path@, text@),
{
    std::path::Path::new(path).extension().and_then(|e| e.to_str()).map(|e| e.to_string())
}

/// Whether one of the verdicts says that a pattern matched.
pub open spec fn any_match(verdicts: Seq<Option<bool>>) -> bool {
    exists|i: int| 0 <= i < verdicts.len() && #[trigger] verdicts[i] == Some(true)
}

/// Whether a file is scanned, given what every exclude pattern and every
/// include pattern said of its path: no exclude pattern matched it, and an
/// include pattern did. A pattern that does not compile matches nothing.
pub open spec fn source_match_spec(excluded: Seq<Option<bool>>, included: Seq<Option<bool>>)
    -> bool {
    !any_match(excluded) && any_match(included)
}

/// Whether one of the verdicts says that a pattern matched.
fn has_match(verdicts: &Vec<Option<bool>>) -> (r: bool)
    ensures
        r == any_match(verdicts@),
{
    let mut i: usize = 0;
    while i < verdicts.len()
        invariant
            i <= verdicts.len(),
            forall|k: int| 0 <= k < i ==> #[trigger] verdicts@[k] != Some(true),
        decreases verdicts.len() - i,
    {
        match verdicts[i] {
            Some(true) => {
                return true;
            },
            _ => {},
        }
        i += 1;
    }
    false
}

/// Decides whether a file is scanned from the verdicts of the exclude
/// patterns and of the include patterns on its path.
pub fn decide_source_match(excluded: &Vec<Option<bool>>, included: &Vec<Option<bool>>) -> (r:
    bool)
    ensures
        r == source_match_spec(excluded@, included@),
{
    !has_match(excluded) && has_match(included)
}

/// The code of `c`, with the ASCII capital letters mapped to small ones.
pub open spec fn ascii_lower_code(c: char) -> u32 {
    if 'A' <= c <= 'Z' {
        (c as u32 + 32) as u32
    } else {
        c as u32
    }
}

/// Whether `a` and `b` are equal up to the case of ASCII letters.
pub open spec fn eq_ignore_ascii_case_spec(a: Seq<char>, b: Seq<char>) -> bool {
    a.len() == b.len() && forall|i: int|
        0 <= i < a.len() ==> ascii_lower_code(#[trigger] a[i]) == ascii_lower_code(b[i])
}

/// Whether `extension` names a Markdown file: `md` or `markdown`, in any case.
pub open spec fn is_markdown_extension_spec(extension: Seq<char>) -> bool {
    eq_ignore_ascii_case_spec(extension, "md"@) || eq_ignore_ascii_case_spec(
        extension,
        "markdown"@,
    )
}

/// The code of `c`, with the ASCII capital letters mapped to small ones.
fn lower_code(c: char) -> (n: u32)
    ensures
        n == ascii_lower_code(c),
{
    if 'A' <= c && c <= 'Z' {
        c as u32 + 32
    } else {
        c as u32
    }
}

/// Whether `a` and `b` are equal up to the case of ASCII letters.
pub fn eq_ignore_ascii_case(a: &str, b: &str) -> (r: bool)
    ensures
        r == eq_ignore_ascii_case_spec(a@, b@),
{
    let left = to_chars(a);
    let right = to_chars(b);
    if left.len() != right.len() {
        return false;
    }
    let mut i: usize = 0;
    while i < left.len()
        invariant
            i <= left.len(),
            left.len() == right.len(),
            left@ == a@,
            right@ == b@,
            forall|k: int|
                0 <= k < i ==> ascii_lower_code(#[trigger] a@[k]) == ascii_lower_code(b@[k]),
        decreases left.len() - i,
    {
        if lower_code(left[i]) != lower_code(right[i]) {
            return false;
        }
        i += 1;
    }
    true
}

/// Whether `extension` names a Markdown file.
pub fn is_markdown_extension(extension: &str) -> (r: bool)
    ensures
        r == is_markdown_extension_spec(extension@),
{
    eq_ignore_ascii_case(extension, "md") || eq_ignore_ascii_case(extension, "markdown")
}

impl Config {
    /// What each of `patterns` says of `path`, in order.
    fn pattern_verdicts(patterns: &Vec<String>, path: &str) -> (verdicts: Vec<Option<bool>>)
        ensures
            verdicts.len() == patterns.len(),
    {
        let mut verdicts: Vec<Option<bool>> = Vec::new();
        let mut i: usize = 0;
        while i < patterns.len()
            invariant
                i <= patterns.len(),
                verdicts.len() == i,
            decreases patterns.len() - i,
        {
            verdicts.push(glob_matches(patterns[i].as_str(), path));
            i += 1;
        }
        verdicts
    }

    /// Whether the file at `path` is scanned for tags: no exclude pattern
    /// matches the path and some source pattern does. The `glob` crate
    /// judges each pattern, `decide_source_match` decides from its
    /// verdicts. Without source patterns no file is scanned.
    pub fn matches_source_pattern(&self, path: &str) -> (r: bool)
        ensures
            self@.source_patterns.len() == 0 ==> !r,
    {
        let excluded = Self::pattern_verdicts(&self.exclude_patterns, path);
        let included = Self::pattern_verdicts(&self.source_patterns, path);
        decide_source_match(&excluded, &included)
    }

    /// Whether the file at `path` is a specification document: its
    /// extension is `md` or `markdown`, in any case. The standard library
    /// finds the extension of the path, `is_markdown_extension` decides
    /// from it; a path without extension is no specification document.
    /// So only a path that holds one of the two words directly behind a
    /// dot is one.
    pub fn is_spec_file(&self, path: &str) -> (r: bool)
        ensures
            r ==> names_markdown_file(path@),
    {
        match path_extension(path) {
            Some(extension) => is_markdown_extension(extension.as_str()),
            None => false,
        }
    }
}

} // verus!
