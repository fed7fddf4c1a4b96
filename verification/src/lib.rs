//! Requirements tracing.
//!
//! Source files carry coverage tags, specification documents declare
//! items. The importers turn both into specification items, the linker
//! resolves which item covers which, and the tracer reports for every item
//! whether it is covered and what is wrong with it.
//!
//! The library reads no files: callers hand it texts and get values back.

pub mod config;
pub mod error;
pub mod import;
pub mod linker;
pub mod linker_laws;
pub mod markdown_importer;
pub mod model;
pub mod pattern;
pub mod reporters;
pub mod statistics;
pub mod tag_importer;
pub mod text;
pub mod tracer;

pub use config::Config;
pub use error::Error;
pub use import::SourceFile;
pub use linker::Linker;
pub use markdown_importer::MarkdownImporter;
pub use model::{
    CoverageStatus, Defect, DefectType, ItemStatus, Link, LinkStatus, LinkedSpecificationItem,
    Location, SpecificationItem, SpecificationItemBuilder, SpecificationItemId,
};
pub use reporters::HtmlReporter;
pub use tag_importer::TagImporter;
pub use tracer::{CoverageSummary, TraceResult, Tracer};
