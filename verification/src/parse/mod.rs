//! Document bundles: the JSON that describes one, and its assembly.

pub mod content;
pub mod parse_document;
