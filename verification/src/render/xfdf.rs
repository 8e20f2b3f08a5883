//! The annotation rendering of a page.
//!
//! Each drawn line becomes one annotation, in drawing order: a highlight
//! with one quad for each segment where the brush is the highlighter, an
//! ink annotation with the line's vertices for any other brush.

use crate::brush::BrushType;
use crate::model::{Layer, LayerView, Line, LineView, Page, Point};
use crate::render::renderlib::{
    drawn_count, is_drawn, line_to_css_color, palette_suffices, palettes_suffice, quad_views,
    quads_of, segment_quads, stroke_kind, tone, vertices, vertices_of, BoundingBox, Corner,
    LayerColors, Quad, StrokeKind, Vertex,
};
use crate::sample::Real32;
use vstd::prelude::*;
use vstd::string::StringExecFns;

verus! {

/// The page that every annotation is put on.
pub const PAGE_INDEX: i32 = 0;

/// The colour of every highlight annotation.
pub const HIGHLIGHT_COLOR: &'static str = "#ffff00";

/// A highlight: the quads of the line's segments inside `rect`.
#[derive(Clone, Debug, PartialEq, Eq)]
pub struct HighlightAnnotation {
    pub page: i32,
    pub color: String,
    pub rect: BoundingBox,
    pub subject: BrushType,
    pub coords: Vec<Quad>,
}

/// Free-hand ink: one gesture through the line's vertices inside `rect`,
/// as wide as the mean of `widths`.
#[derive(Clone, Debug, PartialEq, Eq)]
pub struct InkAnnotation {
    pub page: i32,
    pub color: String,
    pub rect: BoundingBox,
    pub subject: BrushType,
    pub widths: Vec<Real32>,
    pub gesture: Vec<Vertex>,
}

/// What one drawn line becomes.
#[derive(Clone, Debug, PartialEq, Eq)]
pub enum Annotation {
    Highlight(HighlightAnnotation),
    Ink(InkAnnotation),
}

/// A highlight as a mathematical value.
pub struct HighlightView {
    pub page: i32,
    pub color: Seq<char>,
    pub rect: BoundingBox,
    pub subject: BrushType,
    pub coords: Seq<Seq<Corner>>,
}

/// An ink annotation as a mathematical value.
pub struct InkView {
    pub page: i32,
    pub color: Seq<char>,
    pub rect: BoundingBox,
    pub subject: BrushType,
    pub widths: Seq<Real32>,
    pub gesture: Seq<Vertex>,
}

/// An annotation as a mathematical value.
pub enum AnnotationView {
    Highlight(HighlightView),
    Ink(InkView),
}

impl View for HighlightAnnotation {
    type V = HighlightView;

    open spec fn view(&self) -> HighlightView {
        HighlightView {
            page: self.page,
            color: self.color@,
            rect: self.rect,
            subject: self.subject,
            coords: quad_views(self.coords@),
        }
    }
}

impl View for InkAnnotation {
    type V = InkView;

    open spec fn view(&self) -> InkView {
        InkView {
            page: self.page,
            color: self.color@,
            rect: self.rect,
            subject: self.subject,
            widths: self.widths@,
            gesture: self.gesture@,
        }
    }
}

impl View for Annotation {
    type V = AnnotationView;

    open spec fn view(&self) -> AnnotationView {
        match self {
            Annotation::Highlight(highlight) => AnnotationView::Highlight(highlight@),
            Annotation::Ink(ink) => AnnotationView::Ink(ink@),
        }
    }
}

/// The views of a run of annotations, in order.
pub open spec fn annotation_views(annotations: Seq<Annotation>) -> Seq<AnnotationView> {
    annotations.map_values(|annotation: Annotation| annotation@)
}

/// The box around the points of `line`.
pub open spec fn rect_of(line: LineView) -> BoundingBox {
    BoundingBox::unbounded().with_points(line.points)
}

/// The sampled widths of `points`, in order.
pub open spec fn widths_of(points: Seq<Point>) -> Seq<Real32> {
    points.map_values(|point: Point| point.width)
}

/// The highlight of a highlighter line.
pub open spec fn highlight_of(page_index: i32, line: LineView) -> HighlightView {
    HighlightView {
        page: page_index,
        color: HIGHLIGHT_COLOR@,
        rect: rect_of(line),
        subject: line.brush_type,
        coords: quads_of(line.points, line.points.len() - 1),
    }
}

/// The ink annotation of a line in `color`.
pub open spec fn ink_of(page_index: i32, line: LineView, color: Seq<char>) -> InkView {
    InkView {
        page: page_index,
        color,
        rect: rect_of(line),
        subject: line.brush_type,
        widths: widths_of(line.points),
        gesture: vertices_of(line.points),
    }
}

/// What `line` becomes on a layer with `palette`: nothing without points or
/// with a hidden brush, a highlight with the highlighter, else ink in the
/// tone that the line's colour picks.
pub open spec fn annotation_of(page_index: i32, line: LineView, palette: (String, String, String))
    -> Option<AnnotationView> {
    if !is_drawn(line) {
        None
    } else if line.brush_type == BrushType::Highlighter {
        Some(AnnotationView::Highlight(highlight_of(page_index, line)))
    } else {
        Some(AnnotationView::Ink(ink_of(page_index, line, tone(palette, line.color))))
    }
}

/// The annotations of `lines`, in the order of the lines.
pub open spec fn layer_annotations(
    page_index: i32,
    lines: Seq<LineView>,
    palette: (String, String, String),
) -> Seq<AnnotationView>
    decreases lines.len(),
{
    if lines.len() == 0 {
        Seq::empty()
    } else {
        let before = layer_annotations(page_index, lines.drop_last(), palette);
        match annotation_of(page_index, lines.last(), palette) {
            Some(annotation) => before.push(annotation),
            None => before,
        }
    }
}

/// The annotations of the first `count` of `layers`, layer after layer, each
/// with the palette of its place.
pub open spec fn page_annotations(
    page_index: i32,
    layers: Seq<LayerView>,
    colors: Seq<(String, String, String)>,
    count: int,
) -> Seq<AnnotationView>
    decreases count,
{
    if count <= 0 {
        Seq::empty()
    } else {
        page_annotations(page_index, layers, colors, count - 1) + layer_annotations(
            page_index,
            layers[count - 1].lines,
            colors[count - 1],
        )
    }
}

/// The box that an annotation of `line` lies in.
fn rect_attribute(line: &Line) -> (rect: BoundingBox)
    ensures
        rect == rect_of(line@),
{
    BoundingBox::new().enclose_line(line)
}

/// The sampled widths of `line`, in order.
fn widths(line: &Line) -> (all: Vec<Real32>)
    ensures
        all@ == widths_of(line@.points),
{
    let mut all: Vec<Real32> = Vec::new();
    let mut i: usize = 0;
    while i < line.points.len()
        invariant
            i <= line.points@.len(),
            all@ == widths_of(line.points@.take(i as int)),
        decreases line.points@.len() - i,
    {
        assert(widths_of(line.points@.take(i + 1)) =~= widths_of(line.points@.take(i as int)).push(
            line.points@[i as int].width,
        ));
        all.push(line.points[i].width);
        i = i + 1;
    }
    assert(line.points@.take(i as int) =~= line.points@);
    all
}

/// Plans the highlight of a highlighter line: a quad for each segment.
pub fn render_highlighter_line(page_index: i32, line: &Line) -> (highlight: HighlightAnnotation)
    ensures
        highlight@ == highlight_of(page_index, line@),
{
    HighlightAnnotation {
        page: page_index,
        color: String::from_str(HIGHLIGHT_COLOR),
        rect: rect_attribute(line),
        subject: line.brush_type,
        coords: segment_quads(line),
    }
}

/// Plans the ink annotation of a line: its vertices as they were decoded.
pub fn render_line(page_index: i32, line: &Line, color: &str) -> (ink: InkAnnotation)
    ensures
        ink@ == ink_of(page_index, line@, color@),
{
    InkAnnotation {
        page: page_index,
        color: String::from_str(color),
        rect: rect_attribute(line),
        subject: line.brush_type,
        widths: widths(line),
        gesture: vertices(line),
    }
}

/// Appends the annotations of one layer, whose place in the page is
/// `layer_id`.
fn render_layer(
    annotations: &mut Vec<Annotation>,
    layer: &Layer,
    layer_id: usize,
    layer_colors: &LayerColors,
)
    requires
        palette_suffices(layer@.lines, layer_id as int, layer_colors.colors@.len()),
    ensures
        annotation_views(final(annotations)@) == annotation_views(old(annotations)@)
            + layer_annotations(
            PAGE_INDEX,
            layer@.lines,
            layer_colors.colors@[layer_id as int],
        ),
{
    let ghost palette = layer_colors.colors@[layer_id as int];
    let ghost before = annotation_views(annotations@);
    assert(before + Seq::<AnnotationView>::empty() =~= before);
    let mut i: usize = 0;
    while i < layer.lines.len()
        invariant
            i <= layer.lines@.len(),
            palette == layer_colors.colors@[layer_id as int],
            palette_suffices(layer@.lines, layer_id as int, layer_colors.colors@.len()),
            annotation_views(annotations@) == before + layer_annotations(
                PAGE_INDEX,
                layer@.lines.take(i as int),
                palette,
            ),
        decreases layer.lines@.len() - i,
    {
        let line = &layer.lines[i];
        let ghost so_far = layer_annotations(PAGE_INDEX, layer@.lines.take(i as int), palette);
        assert(layer@.lines.take(i + 1).drop_last() =~= layer@.lines.take(i as int));
        assert(layer@.lines.take(i + 1).last() == line@);
        assert(layer@.lines[i as int] == line@);
        if line.points.len() > 0 {
            match stroke_kind(line.brush_type) {
                StrokeKind::Hidden => {},
                _ => {
                    let annotation = match line.brush_type {
                        BrushType::Highlighter => Annotation::Highlight(
                            render_highlighter_line(PAGE_INDEX, line),
                        ),
                        _ => {
                            let color = line_to_css_color(line, layer_id, layer_colors);
                            Annotation::Ink(render_line(PAGE_INDEX, line, color))
                        },
                    };
                    assert(annotation_views(annotations@.push(annotation)) =~= annotation_views(
                        annotations@,
                    ).push(annotation@));
                    assert((before + so_far).push(annotation@) =~= before + so_far.push(
                        annotation@,
                    ));
                    annotations.push(annotation);
                },
            }
        }
        i = i + 1;
    }
    assert(layer@.lines.take(i as int) =~= layer@.lines);
}

/// Plans the annotations of `page`: one for each drawn line, layer after
/// layer in stacking order and line after line in drawing order.
///
/// Ink is coloured from `layer_colors`, so each layer with a drawn line
/// needs a palette at its place.
pub fn render_xfdf(page: &Page, layer_colors: &LayerColors) -> (annotations: Vec<Annotation>)
    requires
        palettes_suffice(page@, layer_colors.colors@.len()),
    ensures
        annotation_views(annotations@) == page_annotations(
            PAGE_INDEX,
            page@.layers,
            layer_colors.colors@,
            page@.layers.len() as int,
        ),
{
    let mut annotations: Vec<Annotation> = Vec::new();
    assert(annotation_views(annotations@) =~= Seq::<AnnotationView>::empty());
    let mut layer_id: usize = 0;
    while layer_id < page.layers.len()
        invariant
            layer_id <= page.layers@.len(),
            palettes_suffice(page@, layer_colors.colors@.len()),
            annotation_views(annotations@) == page_annotations(
                PAGE_INDEX,
                page@.layers,
                layer_colors.colors@,
                layer_id as int,
            ),
        decreases page.layers@.len() - layer_id,
    {
        let layer = &page.layers[layer_id];
        assert(page@.layers[layer_id as int] == layer@);
        assert(palette_suffices(layer@.lines, layer_id as int, layer_colors.colors@.len())) by {
            assert forall|line: int|
                0 <= line < layer@.lines.len() && is_drawn(
                    #[trigger] layer@.lines[line],
                ) implies layer_id < layer_colors.colors@.len() by {
                assert(is_drawn(page@.layers[layer_id as int].lines[line]));
            }
        }
        render_layer(&mut annotations, layer, layer_id, layer_colors);
        layer_id = layer_id + 1;
    }
    annotations
}

/// A layer has one annotation for each of its drawn lines and none
/// besides: a line without points or with a hidden brush adds nothing.
pub proof fn lemma_one_annotation_per_drawn_line(
    page_index: i32,
    lines: Seq<LineView>,
    palette: (String, String, String),
)
    ensures
        layer_annotations(page_index, lines, palette).len() == drawn_count(lines),
    decreases lines.len(),
{
    if lines.len() > 0 {
        lemma_one_annotation_per_drawn_line(page_index, lines.drop_last(), palette);
    }
}

/// Erasing leaves no annotation: a line of the eraser or of the area eraser
/// is passed over, however many points it has.
pub proof fn lemma_erased_line_has_no_annotation(
    page_index: i32,
    line: LineView,
    palette: (String, String, String),
)
    requires
        line.brush_type == BrushType::Eraser || line.brush_type == BrushType::EraseArea,
    ensures
        annotation_of(page_index, line, palette) is None,
{
}

/// A highlighter line becomes a highlight with one quad for each of its
/// segments, each of four corners; any other drawn line becomes ink through
/// all its points.
pub proof fn lemma_annotation_shape(
    page_index: i32,
    line: LineView,
    palette: (String, String, String),
)
    requires
        is_drawn(line),
    ensures
        line.brush_type == BrushType::Highlighter ==> (annotation_of(
            page_index,
            line,
            palette,
        ) matches Some(AnnotationView::Highlight(highlight)) && highlight.coords.len()
            == line.points.len() - 1 && forall|index: int|
            0 <= index < highlight.coords.len() ==> (#[trigger] highlight.coords[index]).len()
                == 4),
        line.brush_type != BrushType::Highlighter ==> (annotation_of(
            page_index,
            line,
            palette,
        ) matches Some(AnnotationView::Ink(ink)) && ink.gesture.len() == line.points.len()),
{
}

} // verus!
