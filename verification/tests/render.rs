use lines_are_rusty::lines_data_reader::LinesDataReader;
use lines_are_rusty::model::{Layer, Line, Page, Point};
use lines_are_rusty::render::renderlib::{
    drawn, has_palettes, line_to_css_color, segment_quads, stroke_kind, BoundingBox, Joint,
    LayerColors, Side,
    StrokeKind, Vertex,
};
use lines_are_rusty::render::svg::{
    add_debug_style, render_constant_width_line, render_layer, render_svg,
    render_variable_width_line, LineCap, PointPair, Stroke, StrokeOpacity, SvgDocument, ViewBox,
};
use lines_are_rusty::render::xfdf::{
    render_highlighter_line, render_line, render_xfdf, Annotation, HIGHLIGHT_COLOR, PAGE_INDEX,
};
use lines_are_rusty::{BrushType, Color, Real32};

fn pattern(value: f32) -> Real32 {
    Real32::from_bits(value.to_bits())
}

fn value_of(pattern: Real32) -> f32 {
    f32::from_bits(pattern.to_bits())
}

fn dot(x: f32, y: f32, width: f32, pressure: f32) -> Point {
    Point {
        x: pattern(x),
        y: pattern(y),
        speed: pattern(0.25),
        direction: pattern(1.0),
        width: pattern(width),
        pressure: pattern(pressure),
    }
}

fn corner(x: f32, y: f32) -> Vertex {
    Vertex { x: pattern(x), y: pattern(y) }
}

fn stroke(brush_type: BrushType, color: Color, points: Vec<Point>) -> Line {
    Line {
        brush_type,
        color,
        unknown_line_attribute_1: 0,
        brush_base_size: pattern(2.0),
        unkonwn_line_attribute_2: 0,
        points,
    }
}

fn three_dots() -> Vec<Point> {
    vec![dot(1.0, 2.0, 3.0, 0.1), dot(4.0, 5.0, 6.0, 0.2), dot(7.0, 8.0, 9.0, 0.3)]
}

fn palettes() -> LayerColors {
    LayerColors {
        colors: vec![
            ("black".to_string(), "gray".to_string(), "white".to_string()),
            ("navy".to_string(), "blue".to_string(), "azure".to_string()),
        ],
    }
}

fn single(line: Line) -> Page {
    Page { layers: vec![Layer { lines: vec![line] }] }
}

fn primitive_count(doc: &SvgDocument) -> usize {
    let mut count = 0;
    for layer in doc.layers.iter() {
        for stroke in layer.strokes.iter() {
            count += match stroke {
                Stroke::Constant(_) => 1,
                Stroke::Variable(group) => group.segments.len(),
            };
        }
    }
    count
}

fn tooltip_count(doc: &SvgDocument) -> usize {
    let mut count = 0;
    for layer in doc.layers.iter() {
        for stroke in layer.strokes.iter() {
            count += match stroke {
                Stroke::Constant(path) => path.tooltip.iter().count(),
                Stroke::Variable(group) => {
                    group.segments.iter().filter(|segment| segment.tooltip.is_some()).count()
                }
            };
        }
    }
    count
}

#[test]
fn brushes_follow_their_stroke_policy() {
    assert_eq!(stroke_kind(BrushType::Fineliner), StrokeKind::Constant);
    assert_eq!(stroke_kind(BrushType::Highlighter), StrokeKind::Constant);
    for brush in [
        BrushType::BallPoint,
        BrushType::Marker,
        BrushType::SharpPencil,
        BrushType::TiltPencil,
        BrushType::Brush,
        BrushType::Calligraphy,
    ] {
        assert_eq!(stroke_kind(brush), StrokeKind::Variable);
    }
    for brush in [
        BrushType::Eraser,
        BrushType::EraseArea,
        BrushType::EraseAll,
        BrushType::SelectionBrush,
    ] {
        assert_eq!(stroke_kind(brush), StrokeKind::Hidden);
    }
}

#[test]
fn color_picks_the_tone_of_the_layer() {
    let colors = palettes();
    let black = stroke(BrushType::Marker, Color::Black, vec![]);
    let grey = stroke(BrushType::Marker, Color::Grey, vec![]);
    let white = stroke(BrushType::Marker, Color::White, vec![]);
    assert_eq!(line_to_css_color(&black, 0, &colors), "black");
    assert_eq!(line_to_css_color(&grey, 0, &colors), "gray");
    assert_eq!(line_to_css_color(&white, 0, &colors), "white");
    assert_eq!(line_to_css_color(&black, 1, &colors), "navy");
    assert_eq!(line_to_css_color(&grey, 1, &colors), "blue");
    assert_eq!(line_to_css_color(&white, 1, &colors), "azure");
}

#[test]
fn erasers_are_never_drawn() {
    for brush in [BrushType::Eraser, BrushType::EraseArea] {
        let page = single(stroke(brush, Color::Black, three_dots()));
        let doc = render_svg(&page, true, &palettes(), true);
        assert_eq!(doc.layers.len(), 1);
        assert!(doc.layers[0].strokes.is_empty());
        assert_eq!(primitive_count(&doc), 0);
        assert!(render_xfdf(&page, &palettes()).is_empty());
    }
}

#[test]
fn edit_operations_are_never_drawn() {
    for brush in [BrushType::EraseAll, BrushType::SelectionBrush] {
        let page = single(stroke(brush, Color::Black, three_dots()));
        assert!(render_svg(&page, false, &palettes(), false).layers[0].strokes.is_empty());
        assert!(render_xfdf(&page, &palettes()).is_empty());
    }
}

#[test]
fn hidden_lines_need_no_palette() {
    let page = Page {
        layers: vec![
            Layer { lines: vec![] },
            Layer { lines: vec![] },
            Layer { lines: vec![stroke(BrushType::Eraser, Color::Black, three_dots())] },
            Layer { lines: vec![stroke(BrushType::Marker, Color::Black, vec![])] },
        ],
    };
    let doc = render_svg(&page, false, &LayerColors { colors: vec![] }, false);
    assert_eq!(doc.layers.len(), 4);
    assert_eq!(primitive_count(&doc), 0);
    assert!(render_xfdf(&page, &LayerColors { colors: vec![] }).is_empty());
}

#[test]
fn empty_lines_are_never_drawn() {
    let page = single(stroke(BrushType::Fineliner, Color::Black, vec![]));
    assert!(render_svg(&page, false, &palettes(), true).layers[0].strokes.is_empty());
    assert!(render_xfdf(&page, &palettes()).is_empty());
}

#[test]
fn fineliner_stroke_of_a_decoded_stream_is_one_path() {
    let mut bytes = b"reMarkable .lines file, version=5          ".to_vec();
    for word in [1i32, 1, 17, 0, 0] {
        bytes.extend_from_slice(&word.to_le_bytes());
    }
    bytes.extend_from_slice(&2.0f32.to_le_bytes());
    bytes.extend_from_slice(&0i32.to_le_bytes());
    bytes.extend_from_slice(&3i32.to_le_bytes());
    for point in three_dots() {
        for sample in [point.x, point.y, point.speed, point.direction, point.width, point.pressure] {
            bytes.extend_from_slice(&sample.to_bits().to_le_bytes());
        }
    }
    let data = LinesDataReader::read(&bytes).unwrap();
    assert_eq!(data.version, 5);
    let doc = render_svg(&data.pages[0], false, &palettes(), false);
    assert_eq!(doc.layers.len(), 1);
    assert_eq!(doc.layers[0].strokes.len(), 1);
    match &doc.layers[0].strokes[0] {
        Stroke::Constant(path) => {
            assert_eq!(
                path.vertices,
                vec![corner(1.0, 2.0), corner(4.0, 5.0), corner(7.0, 8.0)]
            );
            assert_eq!(path.width.base, data.pages[0].layers[0].lines[0].points[0].width);
            assert_eq!(value_of(path.width.base) * value_of(path.width.factor), 3.0f32 * 0.8f32);
            assert_eq!(path.cap, LineCap::Round);
            assert_eq!(path.opacity, StrokeOpacity::Opaque);
            assert_eq!(path.class, BrushType::Fineliner);
            assert_eq!(path.color, "black");
            assert_eq!(path.tooltip, None);
        }
        other => panic!("unexpected {:?}", other),
    }
}

#[test]
fn highlighter_path_has_butt_caps_and_fixed_opacity() {
    let line = stroke(BrushType::Highlighter, Color::Grey, three_dots());
    let path = render_constant_width_line(&line, "yellow", false);
    assert_eq!(path.cap, LineCap::Butt);
    match path.opacity {
        StrokeOpacity::Fixed(opacity) => assert_eq!(value_of(opacity), 0.25),
        other => panic!("unexpected {:?}", other),
    }
    assert_eq!(value_of(path.width.base) * value_of(path.width.factor), 3.0f32 * 0.8f32);
    assert_eq!(path.color, "yellow");
    assert_eq!(path.vertices.len(), 3);
}

#[test]
fn single_point_path_visits_its_point() {
    let line = stroke(BrushType::Fineliner, Color::Black, vec![dot(1.0, 2.0, 3.0, 0.5)]);
    let path = render_constant_width_line(&line, "black", true);
    assert_eq!(path.vertices, vec![corner(1.0, 2.0)]);
    assert_eq!(path.tooltip, Some(line));
}

#[test]
fn variable_stroke_has_a_segment_for_each_pair() {
    let line = stroke(BrushType::Marker, Color::Black, three_dots());
    let group = render_variable_width_line(&line, "red", false);
    assert_eq!(group.color, "red");
    assert_eq!(group.class, BrushType::Marker);
    assert_eq!(group.cap, LineCap::Round);
    assert_eq!(group.segments.len(), 2);
    assert_eq!(group.segments[0].from, corner(1.0, 2.0));
    assert_eq!(group.segments[0].to, corner(4.0, 5.0));
    assert_eq!(group.segments[1].from, corner(4.0, 5.0));
    assert_eq!(group.segments[1].to, corner(7.0, 8.0));
    let widths: Vec<f32> = group
        .segments
        .iter()
        .map(|segment| value_of(segment.width.base) * value_of(segment.width.factor))
        .collect();
    assert_eq!(widths, vec![6.0f32 * 0.8f32, 9.0f32 * 0.8f32]);
    assert!(group.segments.iter().all(|segment| segment.opacity == StrokeOpacity::Opaque));
    assert!(group.segments.iter().all(|segment| segment.tooltip.is_none()));
}

#[test]
fn variable_stroke_of_one_point_has_no_segment() {
    let line = stroke(BrushType::Brush, Color::Black, vec![dot(1.0, 2.0, 3.0, 0.5)]);
    assert!(render_variable_width_line(&line, "red", true).segments.is_empty());
}

#[test]
fn ball_point_opacity_follows_the_pressure_of_the_trailing_point() {
    let line = stroke(BrushType::BallPoint, Color::Black, three_dots());
    let group = render_variable_width_line(&line, "black", false);
    let opacities: Vec<f32> = group
        .segments
        .iter()
        .map(|segment| match segment.opacity {
            StrokeOpacity::Pressure { pressure, exponent, offset } => {
                value_of(pressure).powf(value_of(exponent)) + value_of(offset)
            }
            other => panic!("unexpected {:?}", other),
        })
        .collect();
    assert_eq!(opacities, vec![0.2f32.powf(5.0) + 0.7, 0.3f32.powf(5.0) + 0.7]);
}

#[test]
fn tooltips_are_present_only_in_debug_mode() {
    let page = Page {
        layers: vec![
            Layer {
                lines: vec![
                    stroke(BrushType::Fineliner, Color::Black, three_dots()),
                    stroke(BrushType::Eraser, Color::Black, three_dots()),
                    stroke(BrushType::BallPoint, Color::Grey, three_dots()),
                ],
            },
            Layer { lines: vec![stroke(BrushType::Highlighter, Color::White, three_dots())] },
        ],
    };
    let plain = render_svg(&page, false, &palettes(), false);
    assert_eq!(primitive_count(&plain), 4);
    assert_eq!(tooltip_count(&plain), 0);
    assert!(!plain.debug_style);
    let debug = render_svg(&page, false, &palettes(), true);
    assert_eq!(primitive_count(&debug), 4);
    assert_eq!(tooltip_count(&debug), 4);
    assert!(debug.debug_style);
}

#[test]
fn tooltips_hold_the_decoded_values() {
    let line = stroke(BrushType::Marker, Color::Black, three_dots());
    let group = render_variable_width_line(&line, "black", true);
    assert_eq!(
        group.segments[1].tooltip,
        Some(PointPair { from: dot(4.0, 5.0, 6.0, 0.2), to: dot(7.0, 8.0, 9.0, 0.3) })
    );
    let path = render_constant_width_line(
        &stroke(BrushType::Fineliner, Color::Black, three_dots()),
        "black",
        true,
    );
    assert_eq!(path.tooltip, Some(stroke(BrushType::Fineliner, Color::Black, three_dots())));
}

#[test]
fn debug_style_is_added_to_a_document() {
    let page = single(stroke(BrushType::Fineliner, Color::Black, three_dots()));
    let plain = render_svg(&page, false, &palettes(), false);
    let styled = add_debug_style(render_svg(&page, false, &palettes(), false));
    assert!(styled.debug_style);
    assert_eq!(styled.layers, plain.layers);
    assert_eq!(styled.view_box, plain.view_box);
}

#[test]
fn viewport_is_the_device_canvas_without_cropping() {
    let page = single(stroke(BrushType::Fineliner, Color::Black, three_dots()));
    let doc = render_svg(&page, false, &palettes(), false);
    assert_eq!(doc.view_box, ViewBox::Device { width: 1404, height: 1872 });
}

#[test]
fn viewport_is_the_box_around_the_ink_with_cropping() {
    let page = single(stroke(BrushType::Fineliner, Color::Black, three_dots()));
    match render_svg(&page, true, &palettes(), false).view_box {
        ViewBox::Crop(b) => {
            assert_eq!(b, BoundingBox::new().enclose_page(&page));
            let viewport = (
                value_of(b.min_x),
                value_of(b.min_y),
                value_of(b.max_x) - value_of(b.min_x),
                value_of(b.max_y) - value_of(b.min_y),
            );
            assert_eq!(viewport, (1.0, 2.0, 6.0, 6.0));
        }
        other => panic!("unexpected {:?}", other),
    }
}

#[test]
fn layers_and_strokes_keep_paint_order() {
    let page = Page {
        layers: vec![
            Layer {
                lines: vec![
                    stroke(BrushType::Marker, Color::Grey, three_dots()),
                    stroke(BrushType::Fineliner, Color::White, three_dots()),
                ],
            },
            Layer { lines: vec![stroke(BrushType::Highlighter, Color::Grey, three_dots())] },
        ],
    };
    let doc = render_svg(&page, false, &palettes(), false);
    assert_eq!(doc.layers.len(), 2);
    match (&doc.layers[0].strokes[0], &doc.layers[0].strokes[1], &doc.layers[1].strokes[0]) {
        (Stroke::Variable(first), Stroke::Constant(second), Stroke::Constant(third)) => {
            assert_eq!(first.color, "gray");
            assert_eq!(second.color, "white");
            assert_eq!(second.class, BrushType::Fineliner);
            assert_eq!(third.color, "blue");
            assert_eq!(third.class, BrushType::Highlighter);
        }
        other => panic!("unexpected {:?}", other),
    }
    let group = render_layer(&page.layers[1], 1, &palettes(), false);
    assert_eq!(group, doc.layers[1]);
}

#[test]
fn two_segment_highlighter_line_has_two_quads_of_four_corners() {
    let line = stroke(BrushType::Highlighter, Color::Black, three_dots());
    let quads = segment_quads(&line);
    assert_eq!(quads.len(), 2);
    for quad in quads.iter() {
        assert_eq!(quad.corners.len(), 4);
        assert!(quad.corners.iter().all(|corner| corner.width == pattern(3.0)));
    }
    let a = corner(1.0, 2.0);
    let b = corner(4.0, 5.0);
    let c = corner(7.0, 8.0);
    let free_start = Joint::Perpendicular { from: a, to: b };
    let shared = Joint::Bisector { before: a, at: b, after: c };
    let free_end = Joint::Perpendicular { from: b, to: c };
    let first: Vec<(Vertex, Joint, Side)> =
        quads[0].corners.iter().map(|corner| (corner.at, corner.joint, corner.side)).collect();
    assert_eq!(
        first,
        vec![
            (a, free_start, Side::Left),
            (a, free_start, Side::Right),
            (b, shared, Side::Left),
            (b, shared, Side::Right),
        ]
    );
    let second: Vec<(Vertex, Joint, Side)> =
        quads[1].corners.iter().map(|corner| (corner.at, corner.joint, corner.side)).collect();
    assert_eq!(
        second,
        vec![
            (b, shared, Side::Left),
            (b, shared, Side::Right),
            (c, free_end, Side::Left),
            (c, free_end, Side::Right),
        ]
    );
}

#[test]
fn single_segment_quad_is_perpendicular_at_both_ends() {
    let line = stroke(
        BrushType::Highlighter,
        Color::Black,
        vec![dot(0.0, 0.0, 2.0, 0.5), dot(10.0, 0.0, 2.0, 0.5)],
    );
    let quads = segment_quads(&line);
    assert_eq!(quads.len(), 1);
    let free = Joint::Perpendicular { from: corner(0.0, 0.0), to: corner(10.0, 0.0) };
    assert!(quads[0].corners.iter().all(|corner| corner.joint == free));
}

#[test]
fn lines_without_segments_have_no_quads() {
    assert!(segment_quads(&stroke(BrushType::Highlighter, Color::Black, vec![])).is_empty());
    let one = stroke(BrushType::Highlighter, Color::Black, vec![dot(1.0, 1.0, 1.0, 1.0)]);
    assert!(segment_quads(&one).is_empty());
}

#[test]
fn highlighter_line_becomes_a_highlight() {
    let line = stroke(BrushType::Highlighter, Color::Black, three_dots());
    let page = single(stroke(BrushType::Highlighter, Color::Black, three_dots()));
    let annotations = render_xfdf(&page, &palettes());
    assert_eq!(annotations.len(), 1);
    match &annotations[0] {
        Annotation::Highlight(highlight) => {
            assert_eq!(highlight, &render_highlighter_line(PAGE_INDEX, &line));
            assert_eq!(highlight.page, 0);
            assert_eq!(highlight.color, HIGHLIGHT_COLOR);
            assert_eq!(highlight.color, "#ffff00");
            assert_eq!(highlight.subject, BrushType::Highlighter);
            assert_eq!(highlight.coords, segment_quads(&line));
            assert_eq!(highlight.coords.len(), 2);
            assert_eq!(highlight.rect, BoundingBox::new().enclose_line(&line));
        }
        other => panic!("unexpected {:?}", other),
    }
}

#[test]
fn other_drawn_line_becomes_ink() {
    let line = stroke(BrushType::SharpPencil, Color::Grey, three_dots());
    let page = Page { layers: vec![Layer { lines: vec![] }, Layer { lines: vec![line.clone()] }] };
    let annotations = render_xfdf(&page, &palettes());
    assert_eq!(annotations.len(), 1);
    match &annotations[0] {
        Annotation::Ink(ink) => {
            assert_eq!(ink, &render_line(PAGE_INDEX, &line, "blue"));
            assert_eq!(ink.color, "blue");
            assert_eq!(ink.subject, BrushType::SharpPencil);
            assert_eq!(ink.gesture, vec![corner(1.0, 2.0), corner(4.0, 5.0), corner(7.0, 8.0)]);
            assert_eq!(ink.widths, vec![pattern(3.0), pattern(6.0), pattern(9.0)]);
            assert_eq!(
                (value_of(ink.rect.min_x), value_of(ink.rect.min_y)),
                (1.0, 2.0)
            );
            assert_eq!(
                (value_of(ink.rect.max_x), value_of(ink.rect.max_y)),
                (7.0, 8.0)
            );
        }
        other => panic!("unexpected {:?}", other),
    }
}

#[test]
fn annotations_keep_paint_order() {
    let page = Page {
        layers: vec![
            Layer {
                lines: vec![
                    stroke(BrushType::Marker, Color::Black, three_dots()),
                    stroke(BrushType::Eraser, Color::Black, three_dots()),
                    stroke(BrushType::Highlighter, Color::Black, three_dots()),
                ],
            },
            Layer {
                lines: vec![
                    stroke(BrushType::Fineliner, Color::White, vec![]),
                    stroke(BrushType::Fineliner, Color::White, three_dots()),
                ],
            },
        ],
    };
    let annotations = render_xfdf(&page, &palettes());
    let subjects: Vec<(bool, BrushType)> = annotations
        .iter()
        .map(|annotation| match annotation {
            Annotation::Highlight(highlight) => (true, highlight.subject),
            Annotation::Ink(ink) => (false, ink.subject),
        })
        .collect();
    assert_eq!(
        subjects,
        vec![
            (false, BrushType::Marker),
            (true, BrushType::Highlighter),
            (false, BrushType::Fineliner),
        ]
    );
    match &annotations[2] {
        Annotation::Ink(ink) => assert_eq!(ink.color, "azure"),
        other => panic!("unexpected {:?}", other),
    }
}

#[test]
fn palettes_are_asked_for_layers_with_ink_only() {
    let page = Page {
        layers: vec![
            Layer { lines: vec![stroke(BrushType::Marker, Color::Black, three_dots())] },
            Layer { lines: vec![stroke(BrushType::Eraser, Color::Black, three_dots())] },
            Layer { lines: vec![stroke(BrushType::Marker, Color::Black, vec![])] },
        ],
    };
    let one = LayerColors {
        colors: vec![("a".to_string(), "b".to_string(), "c".to_string())],
    };
    assert!(has_palettes(&page, &one));
    assert!(!has_palettes(&page, &LayerColors { colors: vec![] }));
    let inked = Page {
        layers: vec![
            Layer { lines: vec![] },
            Layer { lines: vec![stroke(BrushType::Highlighter, Color::Black, three_dots())] },
        ],
    };
    assert!(!has_palettes(&inked, &one));
    assert!(has_palettes(&inked, &palettes()));
    assert!(drawn(&stroke(BrushType::Highlighter, Color::Black, three_dots())));
    assert!(!drawn(&stroke(BrushType::Highlighter, Color::Black, vec![])));
    assert!(!drawn(&stroke(BrushType::EraseArea, Color::Black, three_dots())));
}
