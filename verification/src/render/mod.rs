//! From a decoded page to the primitives that a writer emits.

pub mod renderlib;
pub mod svg;
pub mod xfdf;
