//! Decoder and render planner for tablet ink-stroke files.
//!
//! A lines file is a flat little-endian byte stream. `LinesDataReader`
//! rebuilds from it the page / layer / line / point hierarchy, and the
//! `render` module turns a decoded page into the ordered primitives that a
//! vector or annotation writer has to emit. `Document` joins the lines
//! files of a bundle into one document.

pub mod brush;
pub mod bytes;
pub mod error;
pub mod lines_data_reader;
pub mod model;
pub mod parse;
pub mod render;
pub mod sample;
pub mod text;

pub use brush::{BrushType, Color};
pub use error::{ErrorKind, JsonStructure, LinesError, VersionError};
pub use lines_data_reader::LinesDataReader;
pub use model::{Layer, Line, LinesData, Page, Point};
pub use parse::content::Json;
pub use parse::parse_document::{Document, DocumentType, Orientation};
pub use render::renderlib::{BoundingBox, LayerColors};
pub use render::svg::{render_constant_width_line, render_svg, render_variable_width_line};
pub use render::xfdf::render_xfdf;
pub use sample::Real32;
