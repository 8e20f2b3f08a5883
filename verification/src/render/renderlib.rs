//! Geometry shared by the renderers: bounding boxes, the stroke policy of
//! each brush, layer palettes and the quads of a highlighter line.

use crate::brush::{BrushType, Color};
use crate::model::{Layer, LayerView, Line, LineView, Page, PageView, Point};
use crate::sample::{Real32, NEGATIVE_INFINITY_BITS, POSITIVE_INFINITY_BITS};
use vstd::prelude::*;

verus! {

/// The smallest axis-parallel box around the points it was extended by.
///
/// A fresh box is unbounded the wrong way round, from positive infinity to
/// negative infinity, and stays so until a point is enclosed. A NaN
/// coordinate never replaces a bound.
#[derive(Clone, Copy, Debug, PartialEq, Eq, Structural)]
pub struct BoundingBox {
    pub min_x: Real32,
    pub min_y: Real32,
    pub max_x: Real32,
    pub max_y: Real32,
}

impl BoundingBox {
    /// The box that encloses nothing.
    pub open spec fn unbounded() -> BoundingBox {
        BoundingBox {
            min_x: Real32 { bits: POSITIVE_INFINITY_BITS },
            min_y: Real32 { bits: POSITIVE_INFINITY_BITS },
            max_x: Real32 { bits: NEGATIVE_INFINITY_BITS },
            max_y: Real32 { bits: NEGATIVE_INFINITY_BITS },
        }
    }

    /// The box widened to hold `(x, y)`.
    pub open spec fn with_point(self, x: Real32, y: Real32) -> BoundingBox {
        BoundingBox {
            min_x: self.min_x.lower(x),
            min_y: self.min_y.lower(y),
            max_x: self.max_x.upper(x),
            max_y: self.max_y.upper(y),
        }
    }

    /// The box widened by each of `points` in turn.
    pub open spec fn with_points(self, points: Seq<Point>) -> BoundingBox
        decreases points.len(),
    {
        if points.len() == 0 {
            self
        } else {
            self.with_points(points.drop_last()).with_point(points.last().x, points.last().y)
        }
    }

    /// The box widened by the points of each of `lines` in turn.
    pub open spec fn with_lines(self, lines: Seq<LineView>) -> BoundingBox
        decreases lines.len(),
    {
        if lines.len() == 0 {
            self
        } else {
            self.with_lines(lines.drop_last()).with_points(lines.last().points)
        }
    }

    /// The box widened by the lines of each of `layers` in turn.
    pub open spec fn with_layers(self, layers: Seq<LayerView>) -> BoundingBox
        decreases layers.len(),
    {
        if layers.len() == 0 {
            self
        } else {
            self.with_layers(layers.drop_last()).with_lines(layers.last().lines)
        }
    }

    /// The box that encloses nothing yet.
    pub fn new() -> (b: BoundingBox)
        ensures
            b == BoundingBox::unbounded(),
    {
        BoundingBox {
            min_x: Real32 { bits: POSITIVE_INFINITY_BITS },
            min_y: Real32 { bits: POSITIVE_INFINITY_BITS },
            max_x: Real32 { bits: NEGATIVE_INFINITY_BITS },
            max_y: Real32 { bits: NEGATIVE_INFINITY_BITS },
        }
    }

    /// Widens the box to hold `(x, y)`: each bound moves only where the
    /// coordinate lies beyond it.
    pub fn enclose_point(self, x: Real32, y: Real32) -> (b: BoundingBox)
        ensures
            b == self.with_point(x, y),
    {
        BoundingBox {
            min_x: self.min_x.min(x),
            min_y: self.min_y.min(y),
            max_x: self.max_x.max(x),
            max_y: self.max_y.max(y),
        }
    }

    /// Widens the box by every point of `line`; a line without points
    /// leaves it as it is.
    pub fn enclose_line(self, line: &Line) -> (b: BoundingBox)
        ensures
            b == self.with_points(line@.points),
            line@.points.len() == 0 ==> b == self,
    {
        let mut b = self;
        let mut i: usize = 0;
        while i < line.points.len()
            invariant
                i <= line.points@.len(),
                b == self.with_points(line.points@.take(i as int)),
            decreases line.points@.len() - i,
        {
            let point = line.points[i];
            assert(line.points@.take(i + 1).drop_last() =~= line.points@.take(i as int));
            b = b.enclose_point(point.x, point.y);
            i = i + 1;
        }
        assert(line.points@.take(i as int) =~= line.points@);
        b
    }

    /// Widens the box by every line of `layer`.
    pub fn enclose_layer(self, layer: &Layer) -> (b: BoundingBox)
        ensures
            b == self.with_lines(layer@.lines),
    {
        let mut b = self;
        let mut i: usize = 0;
        while i < layer.lines.len()
            invariant
                i <= layer.lines@.len(),
                b == self.with_lines(layer@.lines.take(i as int)),
            decreases layer.lines@.len() - i,
        {
            assert(layer@.lines.take(i + 1).drop_last() =~= layer@.lines.take(i as int));
            assert(layer@.lines.take(i + 1).last() == layer.lines@[i as int]@);
            b = b.enclose_line(&layer.lines[i]);
            i = i + 1;
        }
        assert(layer@.lines.take(i as int) =~= layer@.lines);
        b
    }

    /// Widens the box by every line of every layer of `page`.
    pub fn enclose_page(self, page: &Page) -> (b: BoundingBox)
        ensures
            b == self.with_layers(page@.layers),
    {
        let mut b = self;
        let mut i: usize = 0;
        while i < page.layers.len()
            invariant
                i <= page.layers@.len(),
                b == self.with_layers(page@.layers.take(i as int)),
            decreases page.layers@.len() - i,
        {
            assert(page@.layers.take(i + 1).drop_last() =~= page@.layers.take(i as int));
            assert(page@.layers.take(i + 1).last() == page.layers@[i as int]@);
            b = b.enclose_layer(&page.layers[i]);
            i = i + 1;
        }
        assert(page@.layers.take(i as int) =~= page@.layers);
        b
    }
}

impl BoundingBox {
    /// Whether none of the four bounds is a NaN.
    pub open spec fn is_ordered(self) -> bool {
        !self.min_x.is_nan() && !self.min_y.is_nan() && !self.max_x.is_nan() && !self.max_y.is_nan()
    }

    /// Whether `(x, y)` lies inside the box, as far as its coordinates are
    /// numbers: neither is below the lower or above the upper bound.
    pub open spec fn holds(self, x: Real32, y: Real32) -> bool {
        &&& !x.is_nan() ==> !x.less_than(self.min_x) && !self.max_x.less_than(x)
        &&& !y.is_nan() ==> !y.less_than(self.min_y) && !self.max_y.less_than(y)
    }
}

/// Enclosing a point only widens a box: the point lies inside afterwards,
/// and so does every point that lay inside before.
pub proof fn lemma_enclosing_widens(b: BoundingBox, x: Real32, y: Real32, px: Real32, py: Real32)
    requires
        b.is_ordered(),
    ensures
        b.with_point(x, y).is_ordered(),
        b.with_point(x, y).holds(x, y),
        b.holds(px, py) ==> b.with_point(x, y).holds(px, py),
{
}

/// The box around a run of points holds each of them.
pub proof fn lemma_box_holds_points(points: Seq<Point>, index: int)
    requires
        0 <= index < points.len(),
    ensures
        BoundingBox::unbounded().with_points(points).is_ordered(),
        BoundingBox::unbounded().with_points(points).holds(points[index].x, points[index].y),
    decreases points.len(),
{
    let before = BoundingBox::unbounded().with_points(points.drop_last());
    lemma_box_is_ordered(points.drop_last());
    if index == points.len() - 1 {
        lemma_enclosing_widens(before, points.last().x, points.last().y, points.last().x, points.last().y);
    } else {
        lemma_box_holds_points(points.drop_last(), index);
        lemma_enclosing_widens(
            before,
            points.last().x,
            points.last().y,
            points[index].x,
            points[index].y,
        );
    }
}

/// The box around a run of points has no NaN among its bounds.
pub proof fn lemma_box_is_ordered(points: Seq<Point>)
    ensures
        BoundingBox::unbounded().with_points(points).is_ordered(),
    decreases points.len(),
{
    if points.len() > 0 {
        lemma_box_is_ordered(points.drop_last());
        lemma_enclosing_widens(
            BoundingBox::unbounded().with_points(points.drop_last()),
            points.last().x,
            points.last().y,
            points.last().x,
            points.last().y,
        );
    }
}

/// The three tones of each layer, from the bottom layer up: dark, medium,
/// light.
#[derive(Clone, Debug, PartialEq, Eq)]
pub struct LayerColors {
    pub colors: Vec<(String, String, String)>,
}

/// The tone of `palette` that `color` picks.
pub open spec fn tone(palette: (String, String, String), color: Color) -> Seq<char> {
    match color {
        Color::Black => palette.0@,
        Color::Grey => palette.1@,
        Color::White => palette.2@,
    }
}

/// The colour that `line` is drawn in on layer `layer_id`: the tone of that
/// layer's palette that the line's colour picks.
pub fn line_to_css_color<'a>(line: &Line, layer_id: usize, layer_colors: &'a LayerColors) -> (css:
    &'a str)
    requires
        layer_id < layer_colors.colors@.len(),
    ensures
        css@ == tone(layer_colors.colors@[layer_id as int], line.color),
{
    let palette = &layer_colors.colors[layer_id];
    match line.color {
        Color::Black => palette.0.as_str(),
        Color::Grey => palette.1.as_str(),
        Color::White => palette.2.as_str(),
    }
}

/// How the strokes of a brush are drawn.
#[derive(Clone, Copy, Debug, PartialEq, Eq, Structural)]
pub enum StrokeKind {
    /// One path through all points, of one width.
    Constant,
    /// One segment for each pair of neighbouring points, each of its own
    /// width.
    Variable,
    /// Not drawn: erasing and selecting leave no ink.
    Hidden,
}

/// The stroke policy of `brush`.
pub open spec fn stroke_kind_of(brush: BrushType) -> StrokeKind {
    match brush {
        BrushType::Fineliner | BrushType::Highlighter => StrokeKind::Constant,
        BrushType::Eraser
        | BrushType::EraseArea
        | BrushType::EraseAll
        | BrushType::SelectionBrush => StrokeKind::Hidden,
        _ => StrokeKind::Variable,
    }
}

/// Whether `line` leaves something to draw: it has points and its brush is
/// not hidden.
pub open spec fn is_drawn(line: LineView) -> bool {
    line.points.len() > 0 && stroke_kind_of(line.brush_type) != StrokeKind::Hidden
}

/// How many of `lines` are drawn.
pub open spec fn drawn_count(lines: Seq<LineView>) -> nat
    decreases lines.len(),
{
    if lines.len() == 0 {
        0
    } else if is_drawn(lines.last()) {
        drawn_count(lines.drop_last()) + 1
    } else {
        drawn_count(lines.drop_last())
    }
}

/// Whether every drawn line of `lines` finds a palette at `layer_id` among
/// the first `palettes`.
pub open spec fn palette_suffices(lines: Seq<LineView>, layer_id: int, palettes: nat) -> bool {
    forall|line: int| 0 <= line < lines.len() && is_drawn(#[trigger] lines[line]) ==> layer_id < palettes
}

/// Whether every layer of `page` with a drawn line has a palette among the
/// first `palettes`.
pub open spec fn palettes_suffice(page: PageView, palettes: nat) -> bool {
    forall|layer: int, line: int|
        0 <= layer < page.layers.len() && 0 <= line < page.layers[layer].lines.len() && is_drawn(
            #[trigger] page.layers[layer].lines[line],
        ) ==> layer < palettes
}

/// Whether `line` leaves something to draw.
pub fn drawn(line: &Line) -> (b: bool)
    ensures
        b == is_drawn(line@),
{
    line.points.len() > 0 && match stroke_kind(line.brush_type) {
        StrokeKind::Hidden => false,
        _ => true,
    }
}

/// Whether `layer_colors` has a palette for every layer of `page` with a
/// drawn line: what the renderers ask of their caller.
pub fn has_palettes(page: &Page, layer_colors: &LayerColors) -> (b: bool)
    ensures
        b == palettes_suffice(page@, layer_colors.colors@.len()),
{
    let palettes = layer_colors.colors.len();
    let mut layer_id: usize = 0;
    while layer_id < page.layers.len()
        invariant
            layer_id <= page.layers@.len(),
            palettes == layer_colors.colors@.len(),
            forall|layer: int, line: int|
                0 <= layer < layer_id && 0 <= line < page@.layers[layer].lines.len() && is_drawn(
                    #[trigger] page@.layers[layer].lines[line],
                ) ==> layer < palettes,
        decreases page.layers@.len() - layer_id,
    {
        let layer = &page.layers[layer_id];
        assert(page@.layers[layer_id as int] == layer@);
        if layer_id >= palettes {
            let mut i: usize = 0;
            while i < layer.lines.len()
                invariant
                    i <= layer.lines@.len(),
                    layer_id < page.layers@.len(),
                    page@.layers[layer_id as int] == layer@,
                    layer_id >= palettes,
                    palettes == layer_colors.colors@.len(),
                    forall|line: int| 0 <= line < i ==> !is_drawn(#[trigger] layer@.lines[line]),
                decreases layer.lines@.len() - i,
            {
                assert(layer@.lines[i as int] == layer.lines@[i as int]@);
                if drawn(&layer.lines[i]) {
                    assert(is_drawn(page@.layers[layer_id as int].lines[i as int]));
                    return false;
                }
                i = i + 1;
            }
        }
        layer_id = layer_id + 1;
    }
    true
}

/// The stroke policy of `brush`.
#[verifier::when_used_as_spec(stroke_kind_of)]
pub fn stroke_kind(brush: BrushType) -> (kind: StrokeKind)
    ensures
        kind == stroke_kind_of(brush),
{
    match brush {
        BrushType::Fineliner | BrushType::Highlighter => StrokeKind::Constant,
        BrushType::Eraser
        | BrushType::EraseArea
        | BrushType::EraseAll
        | BrushType::SelectionBrush => StrokeKind::Hidden,
        _ => StrokeKind::Variable,
    }
}

/// A position on the page.
#[derive(Clone, Copy, Debug, PartialEq, Eq, Structural)]
pub struct Vertex {
    pub x: Real32,
    pub y: Real32,
}

/// Where a point lies.
pub open spec fn vertex_of(point: Point) -> Vertex {
    Vertex { x: point.x, y: point.y }
}

/// Where each of `points` lies, in order.
pub open spec fn vertices_of(points: Seq<Point>) -> Seq<Vertex> {
    points.map_values(|point: Point| vertex_of(point))
}

/// Where `point` lies.
pub fn vertex(point: &Point) -> (v: Vertex)
    ensures
        v == vertex_of(*point),
{
    Vertex { x: point.x, y: point.y }
}

/// The positions that `line` runs through, in drawing order.
pub fn vertices(line: &Line) -> (all: Vec<Vertex>)
    ensures
        all@ == vertices_of(line@.points),
{
    let mut all: Vec<Vertex> = Vec::new();
    let mut i: usize = 0;
    while i < line.points.len()
        invariant
            i <= line.points@.len(),
            all@ == vertices_of(line.points@.take(i as int)),
        decreases line.points@.len() - i,
    {
        assert(vertices_of(line.points@.take(i + 1)) =~= vertices_of(
            line.points@.take(i as int),
        ).push(vertex_of(line.points@[i as int])));
        all.push(vertex(&line.points[i]));
        i = i + 1;
    }
    assert(line.points@.take(i as int) =~= line.points@);
    all
}

/// The side of a segment, seen along its direction.
#[derive(Clone, Copy, Debug, PartialEq, Eq, Structural)]
pub enum Side {
    Left,
    Right,
}

/// The direction of a short edge of a quad.
#[derive(Clone, Copy, Debug, PartialEq, Eq, Structural)]
pub enum Joint {
    /// At a free end of the line: perpendicular to the segment from `from`
    /// to `to`.
    Perpendicular { from: Vertex, to: Vertex },
    /// Where two segments meet in `at`: along the bisector of the angle
    /// between the one from `before` and the one to `after`, so that the
    /// quads of both share the edge.
    Bisector { before: Vertex, at: Vertex, after: Vertex },
}

/// One corner of a quad: it lies on the short edge through `at`, on the
/// given side, half the stroke's width from the centre line.
#[derive(Clone, Copy, Debug, PartialEq, Eq, Structural)]
pub struct Corner {
    pub at: Vertex,
    pub joint: Joint,
    pub side: Side,
    pub width: Real32,
}

/// The four corners that stand for one segment of a highlighter line: left
/// and right of its start, then left and right of its end. The long edges
/// run parallel to the segment.
#[derive(Clone, Copy, Debug, PartialEq, Eq)]
pub struct Quad {
    pub corners: [Corner; 4],
}

/// The short edge at the start of segment `index` of `points`.
pub open spec fn joint_before(points: Seq<Point>, index: int) -> Joint {
    if index == 0 {
        Joint::Perpendicular { from: vertex_of(points[0]), to: vertex_of(points[1]) }
    } else {
        Joint::Bisector {
            before: vertex_of(points[index - 1]),
            at: vertex_of(points[index]),
            after: vertex_of(points[index + 1]),
        }
    }
}

/// The short edge at the end of segment `index` of `points`.
pub open spec fn joint_after(points: Seq<Point>, index: int) -> Joint {
    if index + 2 == points.len() {
        Joint::Perpendicular { from: vertex_of(points[index]), to: vertex_of(points[index + 1]) }
    } else {
        Joint::Bisector {
            before: vertex_of(points[index]),
            at: vertex_of(points[index + 1]),
            after: vertex_of(points[index + 2]),
        }
    }
}

/// The four corners of segment `index` of `points`, for a stroke as wide as
/// the first point says.
pub open spec fn quad_corners(points: Seq<Point>, index: int) -> Seq<Corner> {
    seq![
        Corner {
            at: vertex_of(points[index]),
            joint: joint_before(points, index),
            side: Side::Left,
            width: points[0].width,
        },
        Corner {
            at: vertex_of(points[index]),
            joint: joint_before(points, index),
            side: Side::Right,
            width: points[0].width,
        },
        Corner {
            at: vertex_of(points[index + 1]),
            joint: joint_after(points, index),
            side: Side::Left,
            width: points[0].width,
        },
        Corner {
            at: vertex_of(points[index + 1]),
            joint: joint_after(points, index),
            side: Side::Right,
            width: points[0].width,
        },
    ]
}

/// The corners of the first `count` quads of `points`, quad by quad.
pub open spec fn quads_of(points: Seq<Point>, count: int) -> Seq<Seq<Corner>> {
    Seq::new(
        if count >= 0 {
            count as nat
        } else {
            0
        },
        |index: int| quad_corners(points, index),
    )
}

/// The corners of each of `quads`, in order.
pub open spec fn quad_views(quads: Seq<Quad>) -> Seq<Seq<Corner>> {
    quads.map_values(|quad: Quad| quad.corners@)
}

/// The quads of a highlighter line: one for each pair of neighbouring
/// points, so a line of `n` points has `n - 1` and a single point has none.
pub fn segment_quads(line: &Line) -> (quads: Vec<Quad>)
    ensures
        quad_views(quads@) == quads_of(line@.points, line@.points.len() - 1),
        line@.points.len() > 0 ==> quads@.len() == line@.points.len() - 1,
        line@.points.len() == 0 ==> quads@.len() == 0,
{
    let mut quads: Vec<Quad> = Vec::new();
    assert(quad_views(quads@) =~= Seq::<Seq<Corner>>::empty());
    let n = line.points.len();
    let mut i: usize = 1;
    while i < n
        invariant
            n == line.points@.len(),
            1 <= i,
            i <= n || (n == 0 && i == 1),
            quad_views(quads@) == quads_of(line@.points, i - 1),
        decreases n - i,
    {
        let width = line.points[0].width;
        let from = vertex(&line.points[i - 1]);
        let to = vertex(&line.points[i]);
        let start = if i == 1 {
            Joint::Perpendicular { from, to }
        } else {
            Joint::Bisector { before: vertex(&line.points[i - 2]), at: from, after: to }
        };
        let end = if i + 1 == n {
            Joint::Perpendicular { from, to }
        } else {
            Joint::Bisector { before: from, at: to, after: vertex(&line.points[i + 1]) }
        };
        let quad = Quad {
            corners: [
                Corner { at: from, joint: start, side: Side::Left, width },
                Corner { at: from, joint: start, side: Side::Right, width },
                Corner { at: to, joint: end, side: Side::Left, width },
                Corner { at: to, joint: end, side: Side::Right, width },
            ],
        };
        assert(quad.corners@ =~= quad_corners(line@.points, i - 1));
        assert(quad_views(quads@.push(quad)) =~= quad_views(quads@).push(quad.corners@));
        assert(quads_of(line@.points, i as int) =~= quads_of(line@.points, i - 1).push(
            quad.corners@,
        ));
        quads.push(quad);
        i = i + 1;
    }
    assert(quads_of(line@.points, i - 1) =~= quads_of(line@.points, n - 1));
    assert(quad_views(quads@).len() == quads@.len());
    quads
}

} // verus!
