//! The decoded document tree: page, layer, line, point.
//!
//! The tree is built once by the decoder and only read afterwards. Each
//! level owns the next one in a `Vec`, whose order is the drawing order.

use crate::brush::{BrushType, Color};
use crate::sample::Real32;
use vstd::prelude::*;

verus! {

/// One sample of a stroke.
#[derive(Clone, Copy, Debug, PartialEq, Eq, Structural)]
pub struct Point {
    pub x: Real32,
    pub y: Real32,
    pub speed: Real32,
    pub direction: Real32,
    pub width: Real32,
    pub pressure: Real32,
}

/// One continuous pen or eraser gesture.
///
/// The two `unknown` attributes are carried through as found in the stream.
#[derive(Clone, Debug, PartialEq, Eq)]
pub struct Line {
    pub brush_type: BrushType,
    pub color: Color,
    pub unknown_line_attribute_1: i32,
    pub brush_base_size: Real32,
    pub unkonwn_line_attribute_2: i32,
    pub points: Vec<Point>,
}

/// An ordered drawing layer; later lines are drawn on top.
#[derive(Clone, Debug, PartialEq, Eq)]
pub struct Layer {
    pub lines: Vec<Line>,
}

/// A page: its layers from bottom to top.
#[derive(Clone, Debug, PartialEq, Eq)]
pub struct Page {
    pub layers: Vec<Layer>,
}

/// What one lines file holds: the format version and its pages.
#[derive(Clone, Debug, PartialEq, Eq)]
pub struct LinesData {
    pub version: i32,
    pub pages: Vec<Page>,
}

/// A line as a mathematical value.
pub struct LineView {
    pub brush_type: BrushType,
    pub color: Color,
    pub unknown_line_attribute_1: i32,
    pub brush_base_size: Real32,
    pub unkonwn_line_attribute_2: i32,
    pub points: Seq<Point>,
}

/// A layer as a mathematical value.
pub struct LayerView {
    pub lines: Seq<LineView>,
}

/// A page as a mathematical value.
pub struct PageView {
    pub layers: Seq<LayerView>,
}

/// A decoded file as a mathematical value.
pub struct LinesDataView {
    pub version: i32,
    pub pages: Seq<PageView>,
}

impl View for Line {
    type V = LineView;

    open spec fn view(&self) -> LineView {
        LineView {
            brush_type: self.brush_type,
            color: self.color,
            unknown_line_attribute_1: self.unknown_line_attribute_1,
            brush_base_size: self.brush_base_size,
            unkonwn_line_attribute_2: self.unkonwn_line_attribute_2,
            points: self.points@,
        }
    }
}

impl View for Layer {
    type V = LayerView;

    open spec fn view(&self) -> LayerView {
        LayerView { lines: self.lines@.map_values(|line: Line| line@) }
    }
}

impl View for Page {
    type V = PageView;

    open spec fn view(&self) -> PageView {
        PageView { layers: self.layers@.map_values(|layer: Layer| layer@) }
    }
}

impl View for LinesData {
    type V = LinesDataView;

    open spec fn view(&self) -> LinesDataView {
        LinesDataView {
            version: self.version,
            pages: self.pages@.map_values(|page: Page| page@),
        }
    }
}

/// The views of a run of lines, in order.
pub open spec fn line_views(lines: Seq<Line>) -> Seq<LineView> {
    lines.map_values(|line: Line| line@)
}

/// The views of a run of layers, in order.
pub open spec fn layer_views(layers: Seq<Layer>) -> Seq<LayerView> {
    layers.map_values(|layer: Layer| layer@)
}

/// The views of a run of pages, in order.
pub open spec fn page_views(pages: Seq<Page>) -> Seq<PageView> {
    pages.map_values(|page: Page| page@)
}

impl Line {
    /// A copy of the line with the same view.
    pub fn duplicate(&self) -> (copy: Line)
        ensures
            copy@ == self@,
    {
        Line {
            brush_type: self.brush_type,
            color: self.color,
            unknown_line_attribute_1: self.unknown_line_attribute_1,
            brush_base_size: self.brush_base_size,
            unkonwn_line_attribute_2: self.unkonwn_line_attribute_2,
            points: vstd::slice::slice_to_vec(self.points.as_slice()),
        }
    }
}

} // verus!
