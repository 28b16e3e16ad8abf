//! Annotation engine for graded reading aids in Japanese text.
//!
//! A [`store::DictDb`] indexes curated vocabulary lists by difficulty level and
//! holds a handle to a general dictionary; [`store::DictDb::lookup`] resolves a
//! single word to a reading, a gloss and a difficulty level; and
//! [`store::DictDb::transform`] walks a document tree and attaches a tooltip
//! and/or a phonetic reading to each word that the configured thresholds ask
//! help for.

pub mod config;
pub mod dict;
pub mod laws;
pub mod level;
pub mod node;
pub mod store;
pub mod text;
pub mod transform;
pub mod util;
pub mod vocab;

pub use config::Config;
pub use dict::GeneralDict;
pub use dict::LoadError;
pub use level::JlptLevel;
pub use level::SerializedJlptLevel;
pub use node::Book;
pub use node::Chapter;
pub use node::Node;
pub use store::DictDb;
pub use store::GradedSources;
pub use transform::AnnotationError;
pub use transform::annotate;
pub use vocab::DictLookup;
