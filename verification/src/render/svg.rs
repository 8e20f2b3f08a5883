//! The vector-path rendering of a page.
//!
//! A page becomes one group for each layer, in stacking order, and each
//! drawn line of a layer becomes one stroke of its group, in drawing order.
//! Samples stay bit patterns: a stroke names the sample and the factor that
//! its width is the product of, and the writer multiplies.

use crate::brush::BrushType;
use crate::model::{Layer, LayerView, Line, LineView, Page, PageView, Point};
use crate::render::renderlib::{
    drawn_count, is_drawn, line_to_css_color, palette_suffices, palettes_suffice, stroke_kind,
    stroke_kind_of, tone, vertex, vertex_of, vertices, vertices_of, BoundingBox, LayerColors,
    StrokeKind, Vertex,
};
use crate::sample::Real32;
use vstd::prelude::*;
use vstd::string::StringExecFns;

verus! {

/// Bit pattern of 0.8, the share of a sampled width that is drawn.
pub const WIDTH_FACTOR_BITS: u32 = 0x3f4c_cccd;

/// Bit pattern of 0.25, the opacity of highlighter ink.
pub const HIGHLIGHTER_OPACITY_BITS: u32 = 0x3e80_0000;

/// Bit pattern of 5, the power that ball-point pressure is raised to.
pub const PRESSURE_EXPONENT_BITS: u32 = 0x40a0_0000;

/// Bit pattern of 0.7, the opacity of a ball-point segment without
/// pressure.
pub const PRESSURE_OFFSET_BITS: u32 = 0x3f33_3333;

/// Width of the device canvas.
pub const DEVICE_WIDTH: u32 = 1404;

/// Height of the device canvas.
pub const DEVICE_HEIGHT: u32 = 1872;

/// How the ends of a stroke are drawn.
#[derive(Clone, Copy, Debug, PartialEq, Eq, Structural)]
pub enum LineCap {
    Round,
    Butt,
}

/// The width of a stroke: the product of a sampled width and a factor.
#[derive(Clone, Copy, Debug, PartialEq, Eq, Structural)]
pub struct StrokeWidth {
    pub base: Real32,
    pub factor: Real32,
}

/// The opacity of a stroke.
#[derive(Clone, Copy, Debug, PartialEq, Eq, Structural)]
pub enum StrokeOpacity {
    /// Fully opaque.
    Opaque,
    /// The given opacity.
    Fixed(Real32),
    /// `pressure` raised to `exponent`, plus `offset`; fully opaque where
    /// that is not below one.
    Pressure { pressure: Real32, exponent: Real32, offset: Real32 },
}

/// A stroke of one width: a path that starts at the first vertex and then
/// visits every vertex in order.
#[derive(Clone, Debug, PartialEq, Eq)]
pub struct StrokePath {
    pub color: String,
    pub class: BrushType,
    pub vertices: Vec<Vertex>,
    pub width: StrokeWidth,
    pub cap: LineCap,
    pub opacity: StrokeOpacity,
    /// The line that the path was made of, where tooltips are asked for.
    pub tooltip: Option<Line>,
}

/// Two neighbouring points of a line.
#[derive(Clone, Copy, Debug, PartialEq, Eq, Structural)]
pub struct PointPair {
    pub from: Point,
    pub to: Point,
}

/// One piece of a stroke of varying width, from one point to the next.
#[derive(Clone, Copy, Debug, PartialEq, Eq, Structural)]
pub struct Segment {
    pub from: Vertex,
    pub to: Vertex,
    pub width: StrokeWidth,
    pub opacity: StrokeOpacity,
    /// The two points that the segment joins, where tooltips are asked for.
    pub tooltip: Option<PointPair>,
}

/// A stroke of varying width: its segments in drawing order.
#[derive(Clone, Debug, PartialEq, Eq)]
pub struct StrokeGroup {
    pub color: String,
    pub class: BrushType,
    pub cap: LineCap,
    pub segments: Vec<Segment>,
}

/// What one drawn line becomes.
#[derive(Clone, Debug, PartialEq, Eq)]
pub enum Stroke {
    Constant(StrokePath),
    Variable(StrokeGroup),
}

/// The strokes of one layer, in drawing order.
#[derive(Clone, Debug, PartialEq, Eq)]
pub struct LayerGroup {
    pub strokes: Vec<Stroke>,
}

/// The part of the plane that the document shows.
#[derive(Clone, Copy, Debug, PartialEq, Eq, Structural)]
pub enum ViewBox {
    /// The device canvas, from the origin.
    Device { width: u32, height: u32 },
    /// The box around the ink: from its lower bounds, as wide and as high
    /// as the bounds are apart.
    Crop(BoundingBox),
}

/// A whole vector document: the layer groups bottom-up, the viewport, and
/// whether the style that marks a hovered path is added.
#[derive(Clone, Debug, PartialEq, Eq)]
pub struct SvgDocument {
    pub layers: Vec<LayerGroup>,
    pub view_box: ViewBox,
    pub debug_style: bool,
}

/// A path as a mathematical value.
pub struct StrokePathView {
    pub color: Seq<char>,
    pub class: BrushType,
    pub vertices: Seq<Vertex>,
    pub width: StrokeWidth,
    pub cap: LineCap,
    pub opacity: StrokeOpacity,
    pub tooltip: Option<LineView>,
}

/// A group of segments as a mathematical value.
pub struct StrokeGroupView {
    pub color: Seq<char>,
    pub class: BrushType,
    pub cap: LineCap,
    pub segments: Seq<Segment>,
}

/// A stroke as a mathematical value.
pub enum StrokeView {
    Constant(StrokePathView),
    Variable(StrokeGroupView),
}

/// The strokes of a layer as a mathematical value.
pub struct LayerGroupView {
    pub strokes: Seq<StrokeView>,
}

/// A vector document as a mathematical value.
pub struct SvgDocumentView {
    pub layers: Seq<LayerGroupView>,
    pub view_box: ViewBox,
    pub debug_style: bool,
}

impl View for StrokePath {
    type V = StrokePathView;

    open spec fn view(&self) -> StrokePathView {
        StrokePathView {
            color: self.color@,
            class: self.class,
            vertices: self.vertices@,
            width: self.width,
            cap: self.cap,
            opacity: self.opacity,
            tooltip: match self.tooltip {
                Some(line) => Some(line@),
                None => None,
            },
        }
    }
}

impl View for StrokeGroup {
    type V = StrokeGroupView;

    open spec fn view(&self) -> StrokeGroupView {
        StrokeGroupView {
            color: self.color@,
            class: self.class,
            cap: self.cap,
            segments: self.segments@,
        }
    }
}

impl View for Stroke {
    type V = StrokeView;

    open spec fn view(&self) -> StrokeView {
        match self {
            Stroke::Constant(path) => StrokeView::Constant(path@),
            Stroke::Variable(group) => StrokeView::Variable(group@),
        }
    }
}

/// The views of a run of strokes, in order.
pub open spec fn stroke_views(strokes: Seq<Stroke>) -> Seq<StrokeView> {
    strokes.map_values(|stroke: Stroke| stroke@)
}

impl View for LayerGroup {
    type V = LayerGroupView;

    open spec fn view(&self) -> LayerGroupView {
        LayerGroupView { strokes: stroke_views(self.strokes@) }
    }
}

/// The views of a run of layer groups, in order.
pub open spec fn group_views(groups: Seq<LayerGroup>) -> Seq<LayerGroupView> {
    groups.map_values(|group: LayerGroup| group@)
}

impl View for SvgDocument {
    type V = SvgDocumentView;

    open spec fn view(&self) -> SvgDocumentView {
        SvgDocumentView {
            layers: group_views(self.layers@),
            view_box: self.view_box,
            debug_style: self.debug_style,
        }
    }
}

/// The drawn width for the sampled width `base`.
pub open spec fn drawn_width(base: Real32) -> StrokeWidth {
    StrokeWidth { base, factor: Real32 { bits: WIDTH_FACTOR_BITS } }
}

/// The path of a line of one width: through all its points, as wide as the
/// first of them says. Highlighter ink has butt caps and a fixed opacity;
/// any other has round caps and is opaque.
pub open spec fn constant_path(line: LineView, color: Seq<char>, debug_dump: bool) -> StrokePathView
    recommends
        line.points.len() > 0,
{
    StrokePathView {
        color,
        class: line.brush_type,
        vertices: vertices_of(line.points),
        width: drawn_width(line.points[0].width),
        cap: if line.brush_type == BrushType::Highlighter {
            LineCap::Butt
        } else {
            LineCap::Round
        },
        opacity: if line.brush_type == BrushType::Highlighter {
            StrokeOpacity::Fixed(Real32 { bits: HIGHLIGHTER_OPACITY_BITS })
        } else {
            StrokeOpacity::Opaque
        },
        tooltip: if debug_dump {
            Some(line)
        } else {
            None
        },
    }
}

/// The opacity of a segment that ends in `point`: ball-point ink follows the
/// pressure, any other is opaque.
pub open spec fn segment_opacity(brush: BrushType, point: Point) -> StrokeOpacity {
    if brush == BrushType::BallPoint {
        StrokeOpacity::Pressure {
            pressure: point.pressure,
            exponent: Real32 { bits: PRESSURE_EXPONENT_BITS },
            offset: Real32 { bits: PRESSURE_OFFSET_BITS },
        }
    } else {
        StrokeOpacity::Opaque
    }
}

/// The segment from point `index` of `line` to the next one, as wide as the
/// point it ends in says.
pub open spec fn segment(line: LineView, index: int, debug_dump: bool) -> Segment
    recommends
        0 <= index,
        index + 1 < line.points.len(),
{
    Segment {
        from: vertex_of(line.points[index]),
        to: vertex_of(line.points[index + 1]),
        width: drawn_width(line.points[index + 1].width),
        opacity: segment_opacity(line.brush_type, line.points[index + 1]),
        tooltip: if debug_dump {
            Some(PointPair { from: line.points[index], to: line.points[index + 1] })
        } else {
            None
        },
    }
}

/// The first `count` segments of `line`.
pub open spec fn segments(line: LineView, count: int, debug_dump: bool) -> Seq<Segment> {
    Seq::new(
        if count >= 0 {
            count as nat
        } else {
            0
        },
        |index: int| segment(line, index, debug_dump),
    )
}

/// The group of a line of varying width: one segment for each pair of
/// neighbouring points, with round caps.
pub open spec fn segment_group(line: LineView, color: Seq<char>, debug_dump: bool) -> StrokeGroupView
    recommends
        line.points.len() > 0,
{
    StrokeGroupView {
        color,
        class: line.brush_type,
        cap: LineCap::Round,
        segments: segments(line, line.points.len() - 1, debug_dump),
    }
}

/// What `line` becomes on a layer with `palette`: nothing without points or
/// with a hidden brush, else the stroke that its brush asks for.
pub open spec fn stroke_of(line: LineView, palette: (String, String, String), debug_dump: bool)
    -> Option<StrokeView> {
    if line.points.len() == 0 {
        None
    } else {
        match stroke_kind_of(line.brush_type) {
            StrokeKind::Constant => Some(
                StrokeView::Constant(constant_path(line, tone(palette, line.color), debug_dump)),
            ),
            StrokeKind::Variable => Some(
                StrokeView::Variable(segment_group(line, tone(palette, line.color), debug_dump)),
            ),
            StrokeKind::Hidden => None,
        }
    }
}

/// The strokes of `lines`, in the order of the lines.
pub open spec fn layer_strokes(
    lines: Seq<LineView>,
    palette: (String, String, String),
    debug_dump: bool,
) -> Seq<StrokeView>
    decreases lines.len(),
{
    if lines.len() == 0 {
        Seq::empty()
    } else {
        let before = layer_strokes(lines.drop_last(), palette, debug_dump);
        match stroke_of(lines.last(), palette, debug_dump) {
            Some(stroke) => before.push(stroke),
            None => before,
        }
    }
}

/// The groups of the first `count` of `layers`, each with the palette of
/// its place.
pub open spec fn layer_groups(
    layers: Seq<LayerView>,
    colors: Seq<(String, String, String)>,
    debug_dump: bool,
    count: int,
) -> Seq<LayerGroupView> {
    Seq::new(
        if count >= 0 {
            count as nat
        } else {
            0
        },
        |index: int|
            LayerGroupView {
                strokes: layer_strokes(layers[index].lines, colors[index], debug_dump),
            },
    )
}

/// The viewport of `page`: the box around all its points where cropping is
/// asked for, else the device canvas.
pub open spec fn view_box_of(page: PageView, auto_crop: bool) -> ViewBox {
    if auto_crop {
        ViewBox::Crop(BoundingBox::unbounded().with_layers(page.layers))
    } else {
        ViewBox::Device { width: DEVICE_WIDTH, height: DEVICE_HEIGHT }
    }
}

/// The vector document of `page`.
pub open spec fn svg_document(
    page: PageView,
    auto_crop: bool,
    colors: Seq<(String, String, String)>,
    debug_dump: bool,
) -> SvgDocumentView {
    SvgDocumentView {
        layers: layer_groups(page.layers, colors, debug_dump, page.layers.len() as int),
        view_box: view_box_of(page, auto_crop),
        debug_style: debug_dump,
    }
}

fn width_of(base: Real32) -> (w: StrokeWidth)
    ensures
        w == drawn_width(base),
{
    StrokeWidth { base, factor: Real32 { bits: WIDTH_FACTOR_BITS } }
}

/// Plans the path of a line that is drawn in one width.
pub fn render_constant_width_line(line: &Line, css_color: &str, debug_dump: bool) -> (path:
    StrokePath)
    requires
        line@.points.len() > 0,
    ensures
        path@ == constant_path(line@, css_color@, debug_dump),
{
    let first_point = line.points[0];
    let vertices = vertices(line);
    let highlighter = match line.brush_type {
        BrushType::Highlighter => true,
        _ => false,
    };
    StrokePath {
        color: String::from_str(css_color),
        class: line.brush_type,
        vertices,
        width: width_of(first_point.width),
        cap: if highlighter {
            LineCap::Butt
        } else {
            LineCap::Round
        },
        opacity: if highlighter {
            StrokeOpacity::Fixed(Real32 { bits: HIGHLIGHTER_OPACITY_BITS })
        } else {
            StrokeOpacity::Opaque
        },
        tooltip: if debug_dump {
            Some(line.duplicate())
        } else {
            None
        },
    }
}

/// Plans the segments of a line whose width follows its points.
pub fn render_variable_width_line(line: &Line, css_color: &str, debug_dump: bool) -> (group:
    StrokeGroup)
    requires
        line@.points.len() > 0,
    ensures
        group@ == segment_group(line@, css_color@, debug_dump),
{
    let ball_point = match line.brush_type {
        BrushType::BallPoint => true,
        _ => false,
    };
    let mut segments_so_far: Vec<Segment> = Vec::new();
    let mut i: usize = 1;
    while i < line.points.len()
        invariant
            1 <= i <= line.points@.len(),
            ball_point == (line.brush_type == BrushType::BallPoint),
            segments_so_far@ == segments(line@, i - 1, debug_dump),
        decreases line.points@.len() - i,
    {
        let prev_point = line.points[i - 1];
        let point = line.points[i];
        let opacity = if ball_point {
            StrokeOpacity::Pressure {
                pressure: point.pressure,
                exponent: Real32 { bits: PRESSURE_EXPONENT_BITS },
                offset: Real32 { bits: PRESSURE_OFFSET_BITS },
            }
        } else {
            StrokeOpacity::Opaque
        };
        let piece = Segment {
            from: vertex(&prev_point),
            to: vertex(&point),
            width: width_of(point.width),
            opacity,
            tooltip: if debug_dump {
                Some(PointPair { from: prev_point, to: point })
            } else {
                None
            },
        };
        assert(segments(line@, i as int, debug_dump) =~= segments(line@, i - 1, debug_dump).push(
            piece,
        ));
        segments_so_far.push(piece);
        i = i + 1;
    }
    StrokeGroup {
        color: String::from_str(css_color),
        class: line.brush_type,
        cap: LineCap::Round,
        segments: segments_so_far,
    }
}

/// Plans the strokes of one layer, whose place in the page is `layer_id`.
pub fn render_layer(layer: &Layer, layer_id: usize, layer_colors: &LayerColors, debug_dump: bool)
    -> (group: LayerGroup)
    requires
        palette_suffices(layer@.lines, layer_id as int, layer_colors.colors@.len()),
    ensures
        group@.strokes == layer_strokes(
            layer@.lines,
            layer_colors.colors@[layer_id as int],
            debug_dump,
        ),
{
    let ghost palette = layer_colors.colors@[layer_id as int];
    let mut strokes: Vec<Stroke> = Vec::new();
    assert(stroke_views(strokes@) =~= Seq::<StrokeView>::empty());
    let mut i: usize = 0;
    while i < layer.lines.len()
        invariant
            i <= layer.lines@.len(),
            palette == layer_colors.colors@[layer_id as int],
            palette_suffices(layer@.lines, layer_id as int, layer_colors.colors@.len()),
            stroke_views(strokes@) == layer_strokes(
                layer@.lines.take(i as int),
                palette,
                debug_dump,
            ),
        decreases layer.lines@.len() - i,
    {
        let line = &layer.lines[i];
        assert(layer@.lines.take(i + 1).drop_last() =~= layer@.lines.take(i as int));
        assert(layer@.lines.take(i + 1).last() == line@);
        assert(layer@.lines[i as int] == line@);
        if line.points.len() > 0 {
            match stroke_kind(line.brush_type) {
                StrokeKind::Constant => {
                    let css_color = line_to_css_color(line, layer_id, layer_colors);
                    let stroke = Stroke::Constant(
                        render_constant_width_line(line, css_color, debug_dump),
                    );
                    assert(stroke_views(strokes@.push(stroke)) =~= stroke_views(strokes@).push(
                        stroke@,
                    ));
                    strokes.push(stroke);
                },
                StrokeKind::Hidden => {},
                StrokeKind::Variable => {
                    let css_color = line_to_css_color(line, layer_id, layer_colors);
                    let stroke = Stroke::Variable(
                        render_variable_width_line(line, css_color, debug_dump),
                    );
                    assert(stroke_views(strokes@.push(stroke)) =~= stroke_views(strokes@).push(
                        stroke@,
                    ));
                    strokes.push(stroke);
                },
            }
        }
        i = i + 1;
    }
    assert(layer@.lines.take(i as int) =~= layer@.lines);
    LayerGroup { strokes }
}

/// Adds to `svg` the style that marks the path under the pointer.
pub fn add_debug_style(svg: SvgDocument) -> (styled: SvgDocument)
    ensures
        styled@ == (SvgDocumentView { debug_style: true, ..svg@ }),
{
    SvgDocument { layers: svg.layers, view_box: svg.view_box, debug_style: true }
}

/// Plans the vector document of `page`: one group for each layer in
/// stacking order, one stroke for each drawn line in drawing order, the
/// viewport around the ink or the device canvas, and with `debug_dump` a
/// tooltip on every path and segment.
///
/// Colours come from `layer_colors`, so each layer with a drawn line needs a
/// palette at its place.
pub fn render_svg(page: &Page, auto_crop: bool, layer_colors: &LayerColors, debug_dump: bool) -> (doc:
    SvgDocument)
    requires
        palettes_suffice(page@, layer_colors.colors@.len()),
    ensures
        doc@ == svg_document(page@, auto_crop, layer_colors.colors@, debug_dump),
{
    let mut layers: Vec<LayerGroup> = Vec::new();
    assert(group_views(layers@) =~= Seq::<LayerGroupView>::empty());
    let mut layer_id: usize = 0;
    while layer_id < page.layers.len()
        invariant
            layer_id <= page.layers@.len(),
            palettes_suffice(page@, layer_colors.colors@.len()),
            group_views(layers@) == layer_groups(
                page@.layers,
                layer_colors.colors@,
                debug_dump,
                layer_id as int,
            ),
        decreases page.layers@.len() - layer_id,
    {
        let layer = &page.layers[layer_id];
        assert(page@.layers[layer_id as int] == layer@);
        assert(palette_suffices(layer@.lines, layer_id as int, layer_colors.colors@.len())) by {
            assert forall|line: int|
                0 <= line < layer@.lines.len() && is_drawn(
                    #[trigger] layer@.lines[line],
                ) implies layer_id < layer_colors.colors@.len() by {
                assert(is_drawn(page@.layers[layer_id as int].lines[line]));
            }
        }
        let group = render_layer(layer, layer_id, layer_colors, debug_dump);
        assert(group_views(layers@.push(group)) =~= group_views(layers@).push(group@));
        assert(layer_groups(page@.layers, layer_colors.colors@, debug_dump, layer_id + 1)
            =~= layer_groups(page@.layers, layer_colors.colors@, debug_dump, layer_id as int).push(
            group@,
        ));
        layers.push(group);
        layer_id = layer_id + 1;
    }
    let view_box = if auto_crop {
        ViewBox::Crop(BoundingBox::new().enclose_page(page))
    } else {
        ViewBox::Device { width: DEVICE_WIDTH, height: DEVICE_HEIGHT }
    };
    let doc = SvgDocument { layers, view_box, debug_style: false };
    if debug_dump {
        add_debug_style(doc)
    } else {
        doc
    }
}

/// Whether each primitive of `stroke`, the path or every segment, carries a
/// tooltip exactly if `debug_dump` is set.
pub open spec fn tooltips_follow(stroke: StrokeView, debug_dump: bool) -> bool {
    match stroke {
        StrokeView::Constant(path) => path.tooltip is Some == debug_dump,
        StrokeView::Variable(group) => forall|index: int|
            0 <= index < group.segments.len() ==> (#[trigger] group.segments[index]).tooltip is Some
                == debug_dump,
    }
}

/// Erasing leaves no ink: a line of the eraser or of the area eraser
/// becomes no stroke, however many points it has.
pub proof fn lemma_erased_line_has_no_stroke(
    line: LineView,
    palette: (String, String, String),
    debug_dump: bool,
)
    requires
        line.brush_type == BrushType::Eraser || line.brush_type == BrushType::EraseArea,
    ensures
        stroke_of(line, palette, debug_dump) is None,
        !is_drawn(line),
{
}

/// A layer has one stroke for each of its drawn lines and none besides: a
/// line without points or with a hidden brush adds nothing.
pub proof fn lemma_one_stroke_per_drawn_line(
    lines: Seq<LineView>,
    palette: (String, String, String),
    debug_dump: bool,
)
    ensures
        layer_strokes(lines, palette, debug_dump).len() == drawn_count(lines),
    decreases lines.len(),
{
    if lines.len() > 0 {
        lemma_one_stroke_per_drawn_line(lines.drop_last(), palette, debug_dump);
    }
}

/// A layer whose lines are all erasing gestures has no stroke.
pub proof fn lemma_erased_layer_is_empty(
    lines: Seq<LineView>,
    palette: (String, String, String),
    debug_dump: bool,
)
    requires
        forall|index: int|
            0 <= index < lines.len() ==> (#[trigger] lines[index]).brush_type == BrushType::Eraser
                || lines[index].brush_type == BrushType::EraseArea,
    ensures
        layer_strokes(lines, palette, debug_dump).len() == 0,
    decreases lines.len(),
{
    if lines.len() > 0 {
        assert(lines.last() == lines[lines.len() - 1]);
        assert forall|index: int| 0 <= index < lines.drop_last().len() implies (
        #[trigger] lines.drop_last()[index]).brush_type == BrushType::Eraser
            || lines.drop_last()[index].brush_type == BrushType::EraseArea by {
            assert(lines.drop_last()[index] == lines[index]);
        }
        lemma_erased_layer_is_empty(lines.drop_last(), palette, debug_dump);
    }
}

/// The stroke of a line carries tooltips exactly if they were asked for.
pub proof fn lemma_stroke_tooltips_follow(
    line: LineView,
    palette: (String, String, String),
    debug_dump: bool,
)
    ensures
        stroke_of(line, palette, debug_dump) matches Some(stroke) ==> tooltips_follow(
            stroke,
            debug_dump,
        ),
{
}

/// Every stroke of a layer carries tooltips exactly if they were asked for.
pub proof fn lemma_layer_tooltips_follow(
    lines: Seq<LineView>,
    palette: (String, String, String),
    debug_dump: bool,
)
    ensures
        forall|index: int|
            0 <= index < layer_strokes(lines, palette, debug_dump).len() ==> tooltips_follow(
                #[trigger] layer_strokes(lines, palette, debug_dump)[index],
                debug_dump,
            ),
    decreases lines.len(),
{
    if lines.len() > 0 {
        lemma_layer_tooltips_follow(lines.drop_last(), palette, debug_dump);
        lemma_stroke_tooltips_follow(lines.last(), palette, debug_dump);
        let before = layer_strokes(lines.drop_last(), palette, debug_dump);
        let strokes = layer_strokes(lines, palette, debug_dump);
        assert forall|index: int| 0 <= index < strokes.len() implies tooltips_follow(
            #[trigger] strokes[index],
            debug_dump,
        ) by {
            if index < before.len() {
                assert(strokes[index] == before[index]);
            }
        }
    }
}

/// With `debug_dump` every path and every segment of the document carries
/// one tooltip; without it none does.
pub proof fn lemma_tooltips_follow_debug(
    page: PageView,
    auto_crop: bool,
    colors: Seq<(String, String, String)>,
    debug_dump: bool,
)
    ensures
        forall|layer: int, index: int|
            #![trigger svg_document(page, auto_crop, colors, debug_dump).layers[layer].strokes[index]]
            0 <= layer < svg_document(page, auto_crop, colors, debug_dump).layers.len() && 0
                <= index < svg_document(
                page,
                auto_crop,
                colors,
                debug_dump,
            ).layers[layer].strokes.len() ==> tooltips_follow(
                svg_document(page, auto_crop, colors, debug_dump).layers[layer].strokes[index],
                debug_dump,
            ),
        svg_document(page, auto_crop, colors, debug_dump).debug_style == debug_dump,
{
    let doc = svg_document(page, auto_crop, colors, debug_dump);
    assert forall|layer: int, index: int|
        0 <= layer < doc.layers.len() && 0 <= index < doc.layers[layer].strokes.len() implies tooltips_follow(
        #[trigger] doc.layers[layer].strokes[index],
        debug_dump,
    ) by {
        lemma_layer_tooltips_follow(page.layers[layer].lines, colors[layer], debug_dump);
    }
}

} // verus!
