use lines_are_rusty::model::{Layer, Line, Page, Point};
use lines_are_rusty::render::renderlib::BoundingBox;
use lines_are_rusty::render::svg::{
    HIGHLIGHTER_OPACITY_BITS, PRESSURE_EXPONENT_BITS, PRESSURE_OFFSET_BITS, WIDTH_FACTOR_BITS,
};
use lines_are_rusty::{BrushType, Color, Real32};

fn sample(value: f32) -> Real32 {
    Real32::from_bits(value.to_bits())
}

fn number(value: Real32) -> f32 {
    f32::from_bits(value.to_bits())
}

fn point_at(x: f32, y: f32) -> Point {
    Point {
        x: sample(x),
        y: sample(y),
        speed: sample(0.0),
        direction: sample(0.0),
        width: sample(1.0),
        pressure: sample(0.5),
    }
}

fn line_through(points: Vec<Point>) -> Line {
    Line {
        brush_type: BrushType::Fineliner,
        color: Color::Black,
        unknown_line_attribute_1: 0,
        brush_base_size: sample(2.0),
        unkonwn_line_attribute_2: 0,
        points,
    }
}

fn interesting_values() -> Vec<f32> {
    vec![
        0.0,
        -0.0,
        1.0,
        -1.0,
        0.8,
        -0.8,
        1404.0,
        -1872.0,
        f32::MIN_POSITIVE,
        -f32::MIN_POSITIVE,
        f32::from_bits(1),
        f32::from_bits(0x8000_0001),
        f32::MAX,
        f32::MIN,
        f32::INFINITY,
        f32::NEG_INFINITY,
        f32::NAN,
        f32::from_bits(0xffc0_0001),
        f32::from_bits(0x7f80_0001),
    ]
}

#[test]
fn less_than_agrees_with_the_numbers() {
    for a in interesting_values() {
        for b in interesting_values() {
            assert_eq!(sample(a).lt(sample(b)), a < b, "{:?} < {:?}", a, b);
        }
    }
}

#[test]
fn nan_is_told_from_the_pattern() {
    for a in interesting_values() {
        assert_eq!(sample(a).nan(), a.is_nan(), "{:?}", a);
    }
}

#[test]
fn min_and_max_keep_the_first_unless_the_other_is_beyond() {
    assert_eq!(number(sample(1.0).min(sample(-3.0))), -3.0);
    assert_eq!(number(sample(1.0).min(sample(3.0))), 1.0);
    assert_eq!(number(sample(1.0).max(sample(3.0))), 3.0);
    assert_eq!(number(sample(1.0).max(sample(-3.0))), 1.0);
    assert_eq!(number(sample(1.0).min(sample(f32::NAN))), 1.0);
    assert_eq!(number(sample(1.0).max(sample(f32::NAN))), 1.0);
    assert_eq!(sample(0.0).min(sample(-0.0)), sample(0.0));
    assert_eq!(sample(-0.0).max(sample(0.0)), sample(-0.0));
}

#[test]
fn bit_patterns_round_trip() {
    assert_eq!(Real32::from_bits(0x3f80_0000).to_bits(), 0x3f80_0000);
    assert_eq!(number(Real32::from_bits(0x3f80_0000)), 1.0);
}

#[test]
fn render_constants_are_the_patterns_of_their_numbers() {
    assert_eq!(WIDTH_FACTOR_BITS, 0.8f32.to_bits());
    assert_eq!(HIGHLIGHTER_OPACITY_BITS, 0.25f32.to_bits());
    assert_eq!(PRESSURE_EXPONENT_BITS, 5.0f32.to_bits());
    assert_eq!(PRESSURE_OFFSET_BITS, 0.7f32.to_bits());
}

#[test]
fn fresh_box_is_unbounded() {
    let b = BoundingBox::new();
    assert_eq!(number(b.min_x), f32::INFINITY);
    assert_eq!(number(b.min_y), f32::INFINITY);
    assert_eq!(number(b.max_x), f32::NEG_INFINITY);
    assert_eq!(number(b.max_y), f32::NEG_INFINITY);
}

#[test]
fn box_over_two_points_spans_them() {
    let line = line_through(vec![point_at(0.0, 0.0), point_at(10.0, 10.0)]);
    let b = BoundingBox::new().enclose_line(&line);
    assert_eq!((number(b.min_x), number(b.min_y)), (0.0, 0.0));
    assert_eq!((number(b.max_x), number(b.max_y)), (10.0, 10.0));
}

#[test]
fn box_over_an_empty_line_stays_unbounded() {
    let b = BoundingBox::new().enclose_line(&line_through(vec![]));
    assert_eq!(b, BoundingBox::new());
    let some = BoundingBox::new().enclose_point(sample(1.0), sample(2.0));
    assert_eq!(some.enclose_line(&line_through(vec![])), some);
}

#[test]
fn box_widens_point_by_point() {
    let b = BoundingBox::new()
        .enclose_point(sample(3.0), sample(-1.0))
        .enclose_point(sample(-2.0), sample(4.0))
        .enclose_point(sample(0.5), sample(0.5));
    assert_eq!((number(b.min_x), number(b.min_y)), (-2.0, -1.0));
    assert_eq!((number(b.max_x), number(b.max_y)), (3.0, 4.0));
}

#[test]
fn box_ignores_nan_coordinates() {
    let b = BoundingBox::new()
        .enclose_point(sample(f32::NAN), sample(1.0))
        .enclose_point(sample(2.0), sample(f32::NAN));
    assert_eq!((number(b.min_x), number(b.max_x)), (2.0, 2.0));
    assert_eq!((number(b.min_y), number(b.max_y)), (1.0, 1.0));
}

#[test]
fn box_over_a_page_spans_all_layers() {
    let page = Page {
        layers: vec![
            Layer { lines: vec![line_through(vec![point_at(5.0, 5.0)]), line_through(vec![])] },
            Layer { lines: vec![] },
            Layer {
                lines: vec![line_through(vec![point_at(-7.0, 20.0), point_at(6.0, -3.0)])],
            },
        ],
    };
    let b = BoundingBox::new().enclose_page(&page);
    assert_eq!((number(b.min_x), number(b.min_y)), (-7.0, -3.0));
    assert_eq!((number(b.max_x), number(b.max_y)), (6.0, 20.0));
    assert_eq!(b, BoundingBox::new().enclose_layer(&page.layers[0]).enclose_layer(&page.layers[2]));
}

#[test]
fn box_over_a_page_without_ink_stays_unbounded() {
    let page = Page { layers: vec![Layer { lines: vec![line_through(vec![])] }] };
    assert_eq!(BoundingBox::new().enclose_page(&page), BoundingBox::new());
}
