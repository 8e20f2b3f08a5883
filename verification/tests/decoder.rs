use lines_are_rusty::lines_data_reader::LinesDataReader;
use lines_are_rusty::{BrushType, Color, ErrorKind, LinesError, Point, Real32};
use std::convert::TryFrom;

fn signature_of(version: char) -> Vec<u8> {
    let mut bytes = format!("reMarkable .lines file, version={}", version).into_bytes();
    bytes.extend_from_slice(b"          ");
    bytes
}

fn put_i32(bytes: &mut Vec<u8>, value: i32) {
    bytes.extend_from_slice(&value.to_le_bytes());
}

fn put_f32(bytes: &mut Vec<u8>, value: f32) {
    bytes.extend_from_slice(&value.to_le_bytes());
}

fn put_point(bytes: &mut Vec<u8>, samples: [f32; 6]) {
    for sample in samples.iter() {
        put_f32(bytes, *sample);
    }
}

fn put_line(bytes: &mut Vec<u8>, version: i32, brush: i32, color: i32, points: &[[f32; 6]]) {
    put_i32(bytes, brush);
    put_i32(bytes, color);
    put_i32(bytes, 7);
    put_f32(bytes, 2.0);
    if version >= 5 {
        put_i32(bytes, 9);
    }
    put_i32(bytes, points.len() as i32);
    for point in points.iter() {
        put_point(bytes, *point);
    }
}

fn bits_of(value: f32) -> Real32 {
    Real32::from_bits(value.to_bits())
}

fn one_line_stream(version: i32, brush: i32, color: i32, points: &[[f32; 6]]) -> Vec<u8> {
    let mut bytes = signature_of(if version >= 5 { '5' } else { '3' });
    put_i32(&mut bytes, 1);
    put_i32(&mut bytes, 1);
    put_line(&mut bytes, version, brush, color, points);
    bytes
}

#[test]
fn version_three_signature_decodes_to_version_three() {
    let mut bytes = signature_of('3');
    put_i32(&mut bytes, 0);
    let data = LinesDataReader::read(&bytes).unwrap();
    assert_eq!(data.version, 3);
}

#[test]
fn version_five_signature_decodes_to_version_five() {
    let mut bytes = signature_of('5');
    put_i32(&mut bytes, 0);
    let data = LinesDataReader::read(&bytes).unwrap();
    assert_eq!(data.version, 5);
}

#[test]
fn legacy_signature_is_a_format_failure() {
    let mut bytes = b"reMarkable lines with selections and layers".to_vec();
    put_i32(&mut bytes, 1);
    put_i32(&mut bytes, 0);
    let error = LinesDataReader::read(&bytes).unwrap_err();
    assert_eq!(error.kind(), ErrorKind::Format);
    assert_eq!(
        error,
        LinesError::UnsupportedVersion("reMarkable lines with selections".to_string())
    );
}

#[test]
fn unknown_signature_is_a_format_failure_with_its_text() {
    let mut bytes = b"not a lines file at all          ".to_vec();
    assert_eq!(bytes.len(), 33);
    bytes.extend_from_slice(&[0u8; 40]);
    let error = LinesDataReader::read(&bytes).unwrap_err();
    assert_eq!(error.kind(), ErrorKind::Format);
    assert_eq!(error, LinesError::UnknownHeader("not a lines file at all".to_string()));
}

#[test]
fn version_four_signature_is_unknown() {
    let mut bytes = signature_of('4');
    put_i32(&mut bytes, 0);
    let error = LinesDataReader::read(&bytes).unwrap_err();
    assert_eq!(
        error,
        LinesError::UnknownHeader("reMarkable .lines file, version=4".to_string())
    );
}

#[test]
fn malformed_signature_bytes_are_replaced_in_the_text() {
    let mut bytes = vec![0xffu8];
    bytes.extend_from_slice(b"abc");
    bytes.extend_from_slice(&[b'\t'; 29]);
    assert_eq!(bytes.len(), 33);
    let error = LinesDataReader::read(&bytes).unwrap_err();
    assert_eq!(error, LinesError::UnknownHeader("\u{fffd}abc".to_string()));
}

#[test]
fn stream_shorter_than_the_signature_ends_early() {
    let error = LinesDataReader::read(b"reMarkable .lines file").unwrap_err();
    assert_eq!(error, LinesError::UnexpectedEof);
    assert_eq!(error.kind(), ErrorKind::Io);
}

#[test]
fn empty_stream_ends_early() {
    assert_eq!(LinesDataReader::read(&[]).unwrap_err(), LinesError::UnexpectedEof);
}

#[test]
fn signature_without_padding_ends_early() {
    let bytes = b"reMarkable .lines file, version=5".to_vec();
    assert_eq!(LinesDataReader::read(&bytes).unwrap_err(), LinesError::UnexpectedEof);
}

#[test]
fn supported_stream_holds_exactly_one_page() {
    for version in [3, 5] {
        let bytes = one_line_stream(version, 17, 0, &[[1.0, 2.0, 3.0, 4.0, 5.0, 6.0]]);
        let data = LinesDataReader::read(&bytes).unwrap();
        assert_eq!(data.pages.len(), 1);
    }
}

#[test]
fn point_samples_come_in_record_order() {
    let bytes = one_line_stream(5, 17, 1, &[[1.5, -2.5, 3.25, 4.0, 5.5, 0.75]]);
    let data = LinesDataReader::read(&bytes).unwrap();
    let line = &data.pages[0].layers[0].lines[0];
    assert_eq!(
        line.points,
        vec![Point {
            x: bits_of(1.5),
            y: bits_of(-2.5),
            speed: bits_of(3.25),
            direction: bits_of(4.0),
            width: bits_of(5.5),
            pressure: bits_of(0.75),
        }]
    );
    assert_eq!(f32::from_bits(line.points[0].y.to_bits()), -2.5);
}

#[test]
fn line_fields_come_in_record_order() {
    let bytes = one_line_stream(5, 15, 2, &[]);
    let data = LinesDataReader::read(&bytes).unwrap();
    let line = &data.pages[0].layers[0].lines[0];
    assert_eq!(line.brush_type, BrushType::BallPoint);
    assert_eq!(line.color, Color::White);
    assert_eq!(line.unknown_line_attribute_1, 7);
    assert_eq!(line.brush_base_size, bits_of(2.0));
    assert_eq!(line.unkonwn_line_attribute_2, 9);
    assert!(line.points.is_empty());
}

#[test]
fn version_three_line_has_no_second_attribute() {
    let bytes = one_line_stream(3, 12, 0, &[[1.0, 2.0, 3.0, 4.0, 5.0, 6.0]]);
    let data = LinesDataReader::read(&bytes).unwrap();
    let line = &data.pages[0].layers[0].lines[0];
    assert_eq!(line.unkonwn_line_attribute_2, 0);
    assert_eq!(line.points.len(), 1);
    assert_eq!(line.points[0].x, bits_of(1.0));
}

#[test]
fn words_are_read_least_significant_byte_first() {
    let mut bytes = signature_of('5');
    put_i32(&mut bytes, 1);
    put_i32(&mut bytes, 1);
    bytes.extend_from_slice(&[17, 0, 0, 0]);
    bytes.extend_from_slice(&[1, 0, 0, 0]);
    bytes.extend_from_slice(&[0x04, 0x03, 0x02, 0x01]);
    bytes.extend_from_slice(&[0x0d, 0x0c, 0x0b, 0x0a]);
    bytes.extend_from_slice(&[0xfe, 0xff, 0xff, 0xff]);
    put_i32(&mut bytes, 0);
    let data = LinesDataReader::read(&bytes).unwrap();
    let line = &data.pages[0].layers[0].lines[0];
    assert_eq!(line.unknown_line_attribute_1, 0x0102_0304);
    assert_eq!(line.brush_base_size.to_bits(), 0x0a0b_0c0d);
    assert_eq!(line.unkonwn_line_attribute_2, -2);
}

#[test]
fn unknown_brush_code_carries_the_code() {
    let bytes = one_line_stream(5, 99, 0, &[]);
    let error = LinesDataReader::read(&bytes).unwrap_err();
    assert_eq!(error, LinesError::UnknownBrush(99));
    assert_eq!(error.kind(), ErrorKind::Value);
}

#[test]
fn unknown_color_code_carries_the_code() {
    let bytes = one_line_stream(5, 17, 3, &[]);
    let error = LinesDataReader::read(&bytes).unwrap_err();
    assert_eq!(error, LinesError::UnknownColor(3));
    assert_eq!(error.kind(), ErrorKind::Value);
}

#[test]
fn brush_code_is_checked_before_the_stream_is_read_on() {
    let mut bytes = signature_of('5');
    put_i32(&mut bytes, 1);
    put_i32(&mut bytes, 1);
    put_i32(&mut bytes, 99);
    assert_eq!(LinesDataReader::read(&bytes).unwrap_err(), LinesError::UnknownBrush(99));
}

#[test]
fn truncated_point_ends_early() {
    let mut bytes = one_line_stream(5, 17, 0, &[[1.0, 2.0, 3.0, 4.0, 5.0, 6.0]]);
    bytes.pop();
    assert_eq!(LinesDataReader::read(&bytes).unwrap_err(), LinesError::UnexpectedEof);
}

#[test]
fn count_beyond_the_stream_ends_early() {
    let mut bytes = signature_of('5');
    put_i32(&mut bytes, i32::MAX);
    put_i32(&mut bytes, 0);
    assert_eq!(LinesDataReader::read(&bytes).unwrap_err(), LinesError::UnexpectedEof);
}

#[test]
fn negative_count_announces_no_record() {
    let mut bytes = signature_of('5');
    put_i32(&mut bytes, -4);
    let data = LinesDataReader::read(&bytes).unwrap();
    assert_eq!(data.pages.len(), 1);
    assert!(data.pages[0].layers.is_empty());
}

#[test]
fn bytes_behind_the_page_are_ignored() {
    let mut bytes = one_line_stream(5, 17, 0, &[[1.0, 2.0, 3.0, 4.0, 5.0, 6.0]]);
    let expected = LinesDataReader::read(&bytes).unwrap();
    bytes.extend_from_slice(&[0xaa; 13]);
    assert_eq!(LinesDataReader::read(&bytes).unwrap(), expected);
}

#[test]
fn layers_and_lines_keep_their_order() {
    let mut bytes = signature_of('5');
    put_i32(&mut bytes, 2);
    put_i32(&mut bytes, 2);
    put_line(&mut bytes, 5, 17, 0, &[[1.0; 6]]);
    put_line(&mut bytes, 5, 18, 1, &[[2.0; 6], [3.0; 6]]);
    put_i32(&mut bytes, 1);
    put_line(&mut bytes, 5, 6, 2, &[]);
    let data = LinesDataReader::read(&bytes).unwrap();
    let layers = &data.pages[0].layers;
    assert_eq!(layers.len(), 2);
    assert_eq!(layers[0].lines.len(), 2);
    assert_eq!(layers[0].lines[0].brush_type, BrushType::Fineliner);
    assert_eq!(layers[0].lines[1].brush_type, BrushType::Highlighter);
    assert_eq!(layers[0].lines[1].points[1].x, bits_of(3.0));
    assert_eq!(layers[1].lines[0].brush_type, BrushType::Eraser);
    assert_eq!(layers[1].lines[0].color, Color::White);
}

#[test]
fn older_layout_reads_a_page_count() {
    let mut bytes = Vec::new();
    put_i32(&mut bytes, 2);
    put_i32(&mut bytes, 0);
    put_i32(&mut bytes, 1);
    put_i32(&mut bytes, 0);
    let mut reader = LinesDataReader::new(&bytes, 2);
    let pages = reader.read_pages().unwrap();
    assert_eq!(pages.len(), 2);
    assert_eq!(pages[0].layers.len(), 0);
    assert_eq!(pages[1].layers.len(), 1);
    assert_eq!(reader.position, 16);
}

#[test]
fn read_pages_reads_one_page_without_a_count() {
    let mut bytes = Vec::new();
    put_i32(&mut bytes, 1);
    put_i32(&mut bytes, 1);
    put_line(&mut bytes, 3, 21, 0, &[[4.0; 6]]);
    let mut reader = LinesDataReader::new(&bytes, 3);
    let pages = reader.read_pages().unwrap();
    assert_eq!(pages.len(), 1);
    assert_eq!(pages[0].layers[0].lines[0].brush_type, BrushType::Calligraphy);
    assert_eq!(reader.position, bytes.len());
    assert_eq!(reader.version, 3);
}

#[test]
fn failed_read_leaves_the_cursor_in_place() {
    let mut bytes = Vec::new();
    put_i32(&mut bytes, 1);
    put_i32(&mut bytes, 1);
    put_i32(&mut bytes, 17);
    put_i32(&mut bytes, 5);
    let mut reader = LinesDataReader::new(&bytes, 5);
    assert_eq!(reader.read_pages().unwrap_err(), LinesError::UnknownColor(5));
    assert_eq!(reader.position, 0);
}

#[test]
fn cursor_behind_the_end_ends_early() {
    let bytes = [0u8; 4];
    let mut reader = LinesDataReader { file: &bytes, position: 9, version: 5 };
    assert_eq!(reader.read_pages().unwrap_err(), LinesError::UnexpectedEof);
    assert_eq!(reader.position, 9);
}

#[test]
fn every_brush_code_of_the_table_is_known() {
    let table = [
        (6, BrushType::Eraser),
        (8, BrushType::EraseArea),
        (12, BrushType::Brush),
        (13, BrushType::SharpPencil),
        (14, BrushType::TiltPencil),
        (15, BrushType::BallPoint),
        (16, BrushType::Marker),
        (17, BrushType::Fineliner),
        (18, BrushType::Highlighter),
        (21, BrushType::Calligraphy),
    ];
    for (code, brush) in table.iter() {
        assert_eq!(BrushType::try_from(*code), Ok(*brush));
    }
}

#[test]
fn every_code_outside_the_brush_table_is_refused() {
    let known = [6, 8, 12, 13, 14, 15, 16, 17, 18, 21];
    for code in -50..50 {
        if !known.contains(&code) {
            assert_eq!(BrushType::try_from(code), Err(LinesError::UnknownBrush(code)));
        }
    }
    assert_eq!(BrushType::try_from(i32::MIN), Err(LinesError::UnknownBrush(i32::MIN)));
}

#[test]
fn brush_fifteen_is_ball_point_and_ninety_nine_is_refused() {
    assert_eq!(BrushType::try_from(15), Ok(BrushType::BallPoint));
    match BrushType::try_from(99) {
        Err(LinesError::UnknownBrush(code)) => assert_eq!(format!("{}", code), "99"),
        other => panic!("unexpected {:?}", other),
    }
}

#[test]
fn color_codes_follow_the_table() {
    assert_eq!(Color::try_from(0), Ok(Color::Black));
    assert_eq!(Color::try_from(1), Ok(Color::Grey));
    assert_eq!(Color::try_from(2), Ok(Color::White));
    assert_eq!(Color::try_from(3), Err(LinesError::UnknownColor(3)));
    assert_eq!(Color::try_from(-1), Err(LinesError::UnknownColor(-1)));
}
