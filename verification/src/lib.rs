//! Parsing of the shared substructures of OpenType layout tables
//! (script list, feature list, lookup list, coverage, class definition,
//! feature variations), straight out of a raw byte buffer.
//!
//! Every table is a borrowed view over the caller's buffer: parsing
//! validates structure and records where the data lies, queries re-read
//! the bytes lazily. All reads are bounds-checked; a malformed buffer
//! yields a parse failure or a safe default, never an out-of-range read.

pub mod ggg;
pub mod gsub;
pub mod parser;

pub use ggg::Class;
pub use ggg::ClassDefinitionTable;
pub use ggg::CoverageTable;
pub use ggg::FeatureListTable;
pub use ggg::FeatureTable;
pub use ggg::FeatureVariations;
pub use ggg::LangSysTable;
pub use ggg::LookupListTable;
pub use ggg::LookupTable;
pub use ggg::RangeRecord;
pub use ggg::Script;
pub use ggg::ScriptListTable;
pub use gsub::Table;
pub use parser::TagOffsetRecord;
pub use parser::VariationRecord;
