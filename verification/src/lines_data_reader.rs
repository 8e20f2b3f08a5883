//! The decoder: a signature, reserved padding, then nested counted records.
//!
//! Every count is a signed 32-bit word that precedes its records; a count
//! that is zero or negative announces no record. The stream carries no
//! length or checksum beyond these counts, so a count that promises more
//! than the stream holds ends in `UnexpectedEof`.

use crate::brush::{brush_of_code, color_of_code, BrushType, Color};
use crate::bytes::{le_i32, le_u32, read_i32_le, read_u32_le};
use crate::error::{ErrorKind, LinesError, LinesErrorView};
use crate::model::{
    layer_views, line_views, page_views, Layer, LayerView, Line, LineView, LinesData,
    LinesDataView, Page, PageView, Point,
};
use crate::sample::Real32;
use crate::text::{decode_lossy, signature_text, trim_end, trimmed_end};
use vstd::prelude::*;
use vstd::slice::slice_subrange;
use vstd::string::StringExecFns;
use vstd::utf8::{decode_utf8, valid_utf8};

verus! {

/// Length of the signature that opens a stream.
pub const HEADER_LEN: usize = 33;

/// Offset of the first record: the signature and ten reserved bytes.
pub const BODY_START: usize = 43;

/// Length of a point record: six samples.
pub const POINT_LEN: usize = 24;

/// The text `reMarkable .lines file, version=`, which a supported signature
/// begins with.
pub open spec fn signature_stem() -> Seq<u8> {
    seq![
        114u8, 101, 77, 97, 114, 107, 97, 98, 108, 101, 32,
        46, 108, 105, 110, 101, 115, 32, 102, 105, 108, 101,
        44, 32, 118, 101, 114, 115, 105, 111, 110, 61,
    ]
}

/// The signature of the version whose digit is `digit`.
pub open spec fn signature(digit: u8) -> Seq<u8> {
    signature_stem().push(digit)
}

/// What a signature-sized read shows of a stream in the layout that came
/// before version 3: `reMarkable lines with selections `, the first 33 bytes
/// of its longer signature.
pub open spec fn legacy_signature() -> Seq<u8> {
    seq![
        114u8, 101, 77, 97, 114, 107, 97, 98, 108, 101, 32,
        108, 105, 110, 101, 115, 32, 119, 105, 116, 104, 32,
        115, 101, 108, 101, 99, 116, 105, 111, 110, 115, 32,
    ]
}

/// The version that a signature announces, if it is a supported one.
pub open spec fn version_of(header: Seq<u8>) -> Option<i32> {
    if header == signature(51) {
        Some(3i32)
    } else if header == signature(53) {
        Some(5i32)
    } else {
        None
    }
}

/// What stands at a position of the stream: a value and the position behind
/// it, or the failure of reading there.
pub type Outcome<T> = Result<(T, int), LinesErrorView>;

/// The signed word at `pos`.
pub open spec fn i32_at(s: Seq<u8>, pos: int) -> Outcome<i32> {
    if 0 <= pos && pos + 4 <= s.len() {
        Ok((le_i32(s.subrange(pos, pos + 4)) as i32, pos + 4))
    } else {
        Err(LinesErrorView::UnexpectedEof)
    }
}

/// The sample whose four bytes start at `pos`.
pub open spec fn sample(s: Seq<u8>, pos: int) -> Real32 {
    Real32 { bits: le_u32(s.subrange(pos, pos + 4)) as u32 }
}

/// The sample at `pos`.
pub open spec fn sample_at(s: Seq<u8>, pos: int) -> Outcome<Real32> {
    if 0 <= pos && pos + 4 <= s.len() {
        Ok((sample(s, pos), pos + 4))
    } else {
        Err(LinesErrorView::UnexpectedEof)
    }
}

/// The point record at `pos`: x, y, speed, direction, width, pressure.
pub open spec fn point_at(s: Seq<u8>, pos: int) -> Outcome<Point> {
    if 0 <= pos && pos + POINT_LEN <= s.len() {
        Ok(
            (
                Point {
                    x: sample(s, pos),
                    y: sample(s, pos + 4),
                    speed: sample(s, pos + 8),
                    direction: sample(s, pos + 12),
                    width: sample(s, pos + 16),
                    pressure: sample(s, pos + 20),
                },
                pos + POINT_LEN,
            ),
        )
    } else {
        Err(LinesErrorView::UnexpectedEof)
    }
}

/// The first `count` records from `pos` on, each read by `item` where the
/// one before it ended. The first record that fails decides the failure.
pub open spec fn repeated<T>(
    item: spec_fn(Seq<u8>, int) -> Outcome<T>,
    s: Seq<u8>,
    pos: int,
    count: int,
) -> Outcome<Seq<T>>
    decreases count,
{
    if count <= 0 {
        Ok((Seq::empty(), pos))
    } else {
        match repeated(item, s, pos, count - 1) {
            Err(e) => Err(e),
            Ok((items, next)) => match item(s, next) {
                Err(e) => Err(e),
                Ok((value, end)) => Ok((items.push(value), end)),
            },
        }
    }
}

/// A count at `pos`, then that many records read by `item`.
pub open spec fn counted<T>(
    item: spec_fn(Seq<u8>, int) -> Outcome<T>,
    s: Seq<u8>,
    pos: int,
) -> Outcome<Seq<T>> {
    match i32_at(s, pos) {
        Err(e) => Err(e),
        Ok((count, first)) => repeated(item, s, first, count as int),
    }
}

/// `point_at` as a reader of records.
pub open spec fn point_reader() -> spec_fn(Seq<u8>, int) -> Outcome<Point> {
    |s: Seq<u8>, pos: int| point_at(s, pos)
}

/// `line_at` for format `version` as a reader of records.
pub open spec fn line_reader(version: i32) -> spec_fn(Seq<u8>, int) -> Outcome<LineView> {
    |s: Seq<u8>, pos: int| line_at(s, pos, version)
}

/// `layer_at` for format `version` as a reader of records.
pub open spec fn layer_reader(version: i32) -> spec_fn(Seq<u8>, int) -> Outcome<LayerView> {
    |s: Seq<u8>, pos: int| layer_at(s, pos, version)
}

/// `page_at` for format `version` as a reader of records.
pub open spec fn page_reader(version: i32) -> spec_fn(Seq<u8>, int) -> Outcome<PageView> {
    |s: Seq<u8>, pos: int| page_at(s, pos, version)
}

/// The counted points at `pos`.
pub open spec fn points_at(s: Seq<u8>, pos: int) -> Outcome<Seq<Point>> {
    counted(point_reader(), s, pos)
}

/// The second opaque attribute of a line: a word of the stream from
/// version 5 on, zero before.
pub open spec fn second_attribute_at(s: Seq<u8>, pos: int, version: i32) -> Outcome<i32> {
    if version >= 5 {
        i32_at(s, pos)
    } else {
        Ok((0i32, pos))
    }
}

/// The line record at `pos`: brush code, colour code, first opaque
/// attribute, base size, second opaque attribute, points. Each code is
/// checked as soon as it is read.
pub open spec fn line_at(s: Seq<u8>, pos: int, version: i32) -> Outcome<LineView> {
    match i32_at(s, pos) {
        Err(e) => Err(e),
        Ok((brush_code, p1)) => match brush_of_code(brush_code) {
            None => Err(LinesErrorView::UnknownBrush(brush_code)),
            Some(brush_type) => match i32_at(s, p1) {
                Err(e) => Err(e),
                Ok((color_code, p2)) => match color_of_code(color_code) {
                    None => Err(LinesErrorView::UnknownColor(color_code)),
                    Some(color) => match i32_at(s, p2) {
                        Err(e) => Err(e),
                        Ok((first, p3)) => match sample_at(s, p3) {
                            Err(e) => Err(e),
                            Ok((size, p4)) => match second_attribute_at(s, p4, version) {
                                Err(e) => Err(e),
                                Ok((second, p5)) => match points_at(s, p5) {
                                    Err(e) => Err(e),
                                    Ok((points, end)) => Ok(
                                        (
                                            LineView {
                                                brush_type,
                                                color,
                                                unknown_line_attribute_1: first,
                                                brush_base_size: size,
                                                unkonwn_line_attribute_2: second,
                                                points,
                                            },
                                            end,
                                        ),
                                    ),
                                },
                            },
                        },
                    },
                },
            },
        },
    }
}

/// The counted lines at `pos`.
pub open spec fn lines_at(s: Seq<u8>, pos: int, version: i32) -> Outcome<Seq<LineView>> {
    counted(line_reader(version), s, pos)
}

/// The layer at `pos`: its counted lines.
pub open spec fn layer_at(s: Seq<u8>, pos: int, version: i32) -> Outcome<LayerView> {
    match lines_at(s, pos, version) {
        Err(e) => Err(e),
        Ok((lines, end)) => Ok((LayerView { lines }, end)),
    }
}

/// The counted layers at `pos`.
pub open spec fn layers_at(s: Seq<u8>, pos: int, version: i32) -> Outcome<Seq<LayerView>> {
    counted(layer_reader(version), s, pos)
}

/// The page at `pos`: its counted layers.
pub open spec fn page_at(s: Seq<u8>, pos: int, version: i32) -> Outcome<PageView> {
    match layers_at(s, pos, version) {
        Err(e) => Err(e),
        Ok((layers, end)) => Ok((PageView { layers }, end)),
    }
}

/// The pages at `pos`. From version 3 on a stream holds one page and no
/// count; before, a count precedes the pages.
pub open spec fn pages_at(s: Seq<u8>, pos: int, version: i32) -> Outcome<Seq<PageView>> {
    if version >= 3 {
        repeated(page_reader(version), s, pos, 1)
    } else {
        counted(page_reader(version), s, pos)
    }
}

/// What a whole stream decodes to.
pub open spec fn decode(s: Seq<u8>) -> Result<LinesDataView, LinesErrorView> {
    if s.len() < HEADER_LEN {
        Err(LinesErrorView::UnexpectedEof)
    } else {
        let header = s.subrange(0, HEADER_LEN as int);
        match version_of(header) {
            Some(version) => match pages_at(s, BODY_START as int, version) {
                Err(e) => Err(e),
                Ok((pages, _)) => Ok(LinesDataView { version, pages }),
            },
            None => if header == legacy_signature() {
                Err(LinesErrorView::UnsupportedVersion(signature_text(header)))
            } else {
                Err(LinesErrorView::UnknownHeader(signature_text(header)))
            },
        }
    }
}

/// Once a record fails, asking for more records fails in the same way.
pub proof fn lemma_repeated_failure<T>(
    item: spec_fn(Seq<u8>, int) -> Outcome<T>,
    s: Seq<u8>,
    pos: int,
    failed: int,
    count: int,
)
    requires
        failed <= count,
        repeated(item, s, pos, failed) is Err,
    ensures
        repeated(item, s, pos, count) == repeated(item, s, pos, failed),
    decreases count - failed,
{
    if failed < count {
        lemma_repeated_failure(item, s, pos, failed, count - 1);
    }
}

/// Whether `outcome`, if it is a failure, is one of a record: the stream
/// ended early or a code was unknown.
pub open spec fn fails_in_records<T>(outcome: Outcome<T>) -> bool {
    outcome matches Err(e) ==> e.kind() == ErrorKind::Io || e.kind() == ErrorKind::Value
}

/// A run of records fails as its records fail.
pub proof fn lemma_repeated_fails_in_records<T>(
    item: spec_fn(Seq<u8>, int) -> Outcome<T>,
    s: Seq<u8>,
    pos: int,
    count: int,
)
    requires
        forall|p: int| fails_in_records(#[trigger] item(s, p)),
    ensures
        fails_in_records(repeated(item, s, pos, count)),
    decreases count,
{
    if count > 0 {
        lemma_repeated_fails_in_records(item, s, pos, count - 1);
    }
}

/// A counted run of records fails as its records fail, or for want of
/// its count.
pub proof fn lemma_counted_fails_in_records<T>(
    item: spec_fn(Seq<u8>, int) -> Outcome<T>,
    s: Seq<u8>,
    pos: int,
)
    requires
        forall|p: int| fails_in_records(#[trigger] item(s, p)),
    ensures
        fails_in_records(counted(item, s, pos)),
{
    match i32_at(s, pos) {
        Ok((count, first)) => {
            lemma_repeated_fails_in_records(item, s, first, count as int);
        },
        Err(_) => {},
    }
}

/// A line fails only as a record does.
pub proof fn lemma_line_fails_in_records(s: Seq<u8>, pos: int, version: i32)
    ensures
        fails_in_records(line_at(s, pos, version)),
{
    assert forall|q: int| fails_in_records(#[trigger] points_at(s, q)) by {
        assert forall|p: int| fails_in_records(#[trigger] point_reader()(s, p)) by {}
        lemma_counted_fails_in_records(point_reader(), s, q);
    }
}

/// The pages of a stream fail only as a record does: a format failure
/// comes from the signature alone.
pub proof fn lemma_pages_fail_in_records(s: Seq<u8>, pos: int, version: i32)
    ensures
        fails_in_records(pages_at(s, pos, version)),
{
    assert forall|p: int| fails_in_records(#[trigger] line_reader(version)(s, p)) by {
        lemma_line_fails_in_records(s, p, version);
    }
    assert forall|p: int| fails_in_records(#[trigger] layer_reader(version)(s, p)) by {
        lemma_counted_fails_in_records(line_reader(version), s, p);
    }
    assert forall|p: int| fails_in_records(#[trigger] page_reader(version)(s, p)) by {
        lemma_counted_fails_in_records(layer_reader(version), s, p);
    }
    lemma_repeated_fails_in_records(page_reader(version), s, pos, 1);
    lemma_counted_fails_in_records(page_reader(version), s, pos);
}

/// From version 3 on, the pages of a stream are exactly one page.
pub proof fn lemma_one_page(s: Seq<u8>, pos: int, version: i32)
    requires
        version >= 3,
    ensures
        pages_at(s, pos, version) matches Ok((pages, _)) ==> pages.len() == 1,
{
    reveal_with_fuel(repeated, 2);
}

/// A stream that decodes holds exactly one page, and its version is 3 or 5.
pub proof fn lemma_decoded_is_one_page(s: Seq<u8>)
    ensures
        decode(s) matches Ok(data) ==> data.pages.len() == 1 && (data.version == 3 || data.version
            == 5),
{
    if s.len() >= HEADER_LEN {
        match version_of(s.subrange(0, HEADER_LEN as int)) {
            Some(version) => {
                lemma_one_page(s, BODY_START as int, version);
            },
            None => {},
        }
    }
}

/// The signature decides the version. A stream that begins with the
/// signature of version 3 or 5 decodes, if its records do, to that version;
/// any other signature, the one of the older layout among them, is a format
/// failure whatever follows it.
pub proof fn lemma_signature_decides(s: Seq<u8>)
    requires
        s.len() >= HEADER_LEN,
    ensures
        s.subrange(0, HEADER_LEN as int) == signature(51) ==> (decode(s) matches Ok(data)
            ==> data.version == 3),
        s.subrange(0, HEADER_LEN as int) == signature(53) ==> (decode(s) matches Ok(data)
            ==> data.version == 5),
        s.subrange(0, HEADER_LEN as int) != signature(51) && s.subrange(0, HEADER_LEN as int)
            != signature(53) ==> (decode(s) matches Err(e) && e.kind() == ErrorKind::Format),
        s.subrange(0, HEADER_LEN as int) == legacy_signature() ==> decode(s) matches Err(
            LinesErrorView::UnsupportedVersion(_),
        ),
{
    assert(signature(51)[32] == 51);
    assert(signature(53)[32] == 53);
    assert(legacy_signature()[32] == 32);
}

/// The view of what a read of a plain value returned.
pub open spec fn plain_outcome<T>(r: Result<T, LinesError>) -> Result<T, LinesErrorView> {
    match r {
        Ok(value) => Ok(value),
        Err(e) => Err(e@),
    }
}

/// The view of what a read of points returned.
pub open spec fn points_outcome(r: Result<Vec<Point>, LinesError>) -> Result<
    Seq<Point>,
    LinesErrorView,
> {
    match r {
        Ok(points) => Ok(points@),
        Err(e) => Err(e@),
    }
}

/// The view of what a read of one line returned.
pub open spec fn line_outcome(r: Result<Line, LinesError>) -> Result<LineView, LinesErrorView> {
    match r {
        Ok(line) => Ok(line@),
        Err(e) => Err(e@),
    }
}

/// The view of what a read of lines returned.
pub open spec fn lines_outcome(r: Result<Vec<Line>, LinesError>) -> Result<
    Seq<LineView>,
    LinesErrorView,
> {
    match r {
        Ok(lines) => Ok(line_views(lines@)),
        Err(e) => Err(e@),
    }
}

/// The view of what a read of layers returned.
pub open spec fn layers_outcome(r: Result<Vec<Layer>, LinesError>) -> Result<
    Seq<LayerView>,
    LinesErrorView,
> {
    match r {
        Ok(layers) => Ok(layer_views(layers@)),
        Err(e) => Err(e@),
    }
}

/// The view of what a read of pages returned.
pub open spec fn pages_outcome(r: Result<Vec<Page>, LinesError>) -> Result<
    Seq<PageView>,
    LinesErrorView,
> {
    match r {
        Ok(pages) => Ok(page_views(pages@)),
        Err(e) => Err(e@),
    }
}

/// The view of what a decode returned.
pub open spec fn data_outcome(r: Result<LinesData, LinesError>) -> Result<
    LinesDataView,
    LinesErrorView,
> {
    match r {
        Ok(data) => Ok(data@),
        Err(e) => Err(e@),
    }
}

/// Whether `bytes` begins with `expected`.
fn begins_with(bytes: &[u8], expected: &[u8]) -> (b: bool)
    ensures
        b == (expected@.len() <= bytes@.len() && bytes@.subrange(0, expected@.len() as int)
            == expected@),
{
    if bytes.len() < expected.len() {
        return false;
    }
    let mut i: usize = 0;
    while i < expected.len()
        invariant
            i <= expected@.len() <= bytes@.len(),
            bytes@.subrange(0, i as int) == expected@.subrange(0, i as int),
        decreases expected@.len() - i,
    {
        if bytes[i] != expected[i] {
            assert(bytes@.subrange(0, expected@.len() as int)[i as int] != expected@[i as int]);
            return false;
        }
        assert(bytes@.subrange(0, i + 1) =~= bytes@.subrange(0, i as int).push(bytes@[i as int]));
        assert(expected@.subrange(0, i + 1) =~= expected@.subrange(0, i as int).push(
            expected@[i as int],
        ));
        i = i + 1;
    }
    assert(expected@.subrange(0, i as int) =~= expected@);
    true
}

/// The version that the signature `header` announces, if it is supported.
fn signature_version(header: &[u8]) -> (version: Option<i32>)
    requires
        header@.len() == HEADER_LEN,
    ensures
        version == version_of(header@),
{
    let stem: [u8; 32] = [
        114, 101, 77, 97, 114, 107, 97, 98, 108, 101, 32,
        46, 108, 105, 110, 101, 115, 32, 102, 105, 108, 101,
        44, 32, 118, 101, 114, 115, 105, 111, 110, 61,
    ];
    assert(stem@ =~= signature_stem());
    let with_stem = begins_with(header, stem.as_slice());
    let digit = header[32];
    proof {
        let ends = |d: u8| header@.subrange(0, 32) == signature_stem() && header@[32] == d;
        assert forall|d: u8| (header@ == signature(d)) == #[trigger] ends(d) by {
            if ends(d) {
                assert(header@ =~= signature(d));
            }
            if header@ == signature(d) {
                assert(header@.subrange(0, 32) =~= signature_stem());
            }
        }
        assert(ends(51) == (header@ == signature(51)));
        assert(ends(53) == (header@ == signature(53)));
    }
    if with_stem && digit == 51 {
        Some(3)
    } else if with_stem && digit == 53 {
        Some(5)
    } else {
        None
    }
}

/// Whether the signature `header` is the one of the layout before
/// version 3.
fn is_legacy_signature(header: &[u8]) -> (legacy: bool)
    requires
        header@.len() == HEADER_LEN,
    ensures
        legacy == (header@ == legacy_signature()),
{
    let expected: [u8; 33] = [
        114, 101, 77, 97, 114, 107, 97, 98, 108, 101, 32,
        108, 105, 110, 101, 115, 32, 119, 105, 116, 104, 32,
        115, 101, 108, 101, 99, 116, 105, 111, 110, 115, 32,
    ];
    assert(expected@ =~= legacy_signature());
    assert(header@.subrange(0, 33) =~= header@);
    begins_with(header, expected.as_slice())
}

/// The text that a failure carries for the signature `header`. For a
/// signature that is well-formed UTF-8 it is the signature's own text
/// without trailing white space.
fn header_text(header: &[u8]) -> (text: String)
    ensures
        text@ == signature_text(header@),
        valid_utf8(header@) ==> text@ == trimmed_end(decode_utf8(header@)),
{
    let decoded = decode_lossy(header);
    let trimmed = trim_end(decoded.as_str());
    String::from_str(trimmed)
}

/// The text that a format failure carries, if `r` is one.
pub open spec fn carried_text(r: Result<LinesData, LinesError>) -> Option<Seq<char>> {
    match r {
        Err(LinesError::UnsupportedVersion(text)) => Some(text@),
        Err(LinesError::UnknownHeader(text)) => Some(text@),
        _ => None,
    }
}

/// A cursor over the bytes of one stream.
///
/// `position` may stand anywhere, also behind the end: a read there fails
/// with `UnexpectedEof`.
#[derive(Debug)]
pub struct LinesDataReader<'a> {
    pub file: &'a [u8],
    pub position: usize,
    pub version: i32,
}

impl<'a> LinesDataReader<'a> {
    /// Whether a read moved `self` as `expected` says and returned `got`:
    /// on success the cursor stands behind what was read, on failure where
    /// it stood before; stream and version never change.
    pub open spec fn advanced<T>(
        self,
        after: LinesDataReader<'a>,
        expected: Outcome<T>,
        got: Result<T, LinesErrorView>,
    ) -> bool {
        &&& after.file@ == self.file@
        &&& after.version == self.version
        &&& match expected {
            Ok((value, next)) => got == Ok::<T, LinesErrorView>(value) && after.position == next,
            Err(e) => got == Err::<T, LinesErrorView>(e) && after.position == self.position,
        }
    }

    /// A cursor at the start of `file`, for records of format `version`.
    pub fn new(file: &'a [u8], version: i32) -> (reader: LinesDataReader<'a>)
        ensures
            reader.file@ == file@,
            reader.position == 0,
            reader.version == version,
    {
        LinesDataReader { file, position: 0, version }
    }

    /// Decodes a whole stream: the signature decides the version, ten
    /// reserved bytes are skipped, and the pages follow. Bytes behind the
    /// last record are not looked at.
    ///
    /// A stream shorter than its signature fails with `UnexpectedEof`; a
    /// signature of the layout before version 3 with `UnsupportedVersion`,
    /// any other unknown one with `UnknownHeader`, both carrying the
    /// signature's text; a record fails as `read_pages` says.
    ///
    /// The carried text is the signature decoded with malformed sequences
    /// replaced, without trailing white space; for a signature that is
    /// well-formed UTF-8 that is its own text.
    pub fn read(file: &'a [u8]) -> (r: Result<LinesData, LinesError>)
        ensures
            data_outcome(r) == decode(file@),
            r matches Ok(data) ==> data.pages@.len() == 1 && (data.version == 3 || data.version
                == 5),
            file@.len() >= HEADER_LEN && valid_utf8(file@.subrange(0, HEADER_LEN as int)) ==> (
            carried_text(r) matches Some(text) ==> text == trimmed_end(
                decode_utf8(file@.subrange(0, HEADER_LEN as int)),
            )),
    {
        proof {
            lemma_decoded_is_one_page(file@);
        }
        if file.len() < HEADER_LEN {
            return Err(LinesError::UnexpectedEof);
        }
        let header = slice_subrange(file, 0, HEADER_LEN);
        let version = match signature_version(header) {
            Some(version) => version,
            None => {
                let text = header_text(header);
                if is_legacy_signature(header) {
                    return Err(LinesError::UnsupportedVersion(text));
                } else {
                    return Err(LinesError::UnknownHeader(text));
                }
            },
        };
        proof {
            lemma_pages_fail_in_records(file@, BODY_START as int, version);
        }
        let mut reader = LinesDataReader { file, position: BODY_START, version };
        match reader.read_pages() {
            Ok(pages) => Ok(LinesData { version, pages }),
            Err(e) => Err(e),
        }
    }

    /// Whether `wanted` bytes are left at the cursor.
    fn has(&self, wanted: usize) -> (b: bool)
        ensures
            b == (self.position + wanted <= self.file@.len()),
            self.file@.len() <= usize::MAX,
    {
        let len = self.file.len();
        self.position <= len && len - self.position >= wanted
    }

    /// The sample whose bytes start at `at`.
    fn sample(&self, at: usize) -> (value: Real32)
        requires
            at + 4 <= self.file@.len() <= usize::MAX,
        ensures
            value == sample(self.file@, at as int),
    {
        let word = slice_subrange(self.file, at, at + 4);
        proof {
            crate::bytes::lemma_word_ranges(word@);
        }
        Real32 { bits: read_u32_le(word) }
    }

    /// Reads the signed word at the cursor.
    fn read_i32(&mut self) -> (r: Result<i32, LinesError>)
        ensures
            old(self).advanced(
                *final(self),
                i32_at(old(self).file@, old(self).position as int),
                plain_outcome(r),
            ),
    {
        if !self.has(4) {
            return Err(LinesError::UnexpectedEof);
        }
        let word = slice_subrange(self.file, self.position, self.position + 4);
        proof {
            crate::bytes::lemma_word_ranges(word@);
        }
        let value = read_i32_le(word);
        self.position = self.position + 4;
        Ok(value)
    }

    /// Reads the sample at the cursor.
    fn read_f32(&mut self) -> (r: Result<Real32, LinesError>)
        ensures
            old(self).advanced(
                *final(self),
                sample_at(old(self).file@, old(self).position as int),
                plain_outcome(r),
            ),
    {
        if !self.has(4) {
            return Err(LinesError::UnexpectedEof);
        }
        let value = self.sample(self.position);
        self.position = self.position + 4;
        Ok(value)
    }

    /// Reads the point record at the cursor.
    fn read_point(&mut self) -> (r: Result<Point, LinesError>)
        ensures
            old(self).advanced(
                *final(self),
                point_at(old(self).file@, old(self).position as int),
                plain_outcome(r),
            ),
    {
        if !self.has(POINT_LEN) {
            return Err(LinesError::UnexpectedEof);
        }
        let at = self.position;
        let point = Point {
            x: self.sample(at),
            y: self.sample(at + 4),
            speed: self.sample(at + 8),
            direction: self.sample(at + 12),
            width: self.sample(at + 16),
            pressure: self.sample(at + 20),
        };
        self.position = at + POINT_LEN;
        Ok(point)
    }

    /// Reads a count and that many points.
    fn read_points(&mut self) -> (r: Result<Vec<Point>, LinesError>)
        ensures
            old(self).advanced(
                *final(self),
                points_at(old(self).file@, old(self).position as int),
                points_outcome(r),
            ),
    {
        let start = self.position;
        let num_points = match self.read_i32() {
            Ok(count) => count,
            Err(e) => {
                return Err(e);
            },
        };
        let ghost s = self.file@;
        let ghost first = self.position as int;
        let mut points: Vec<Point> = Vec::new();
        let mut i: i32 = 0;
        while i < num_points
            invariant
                self.file@ == s,
                s == old(self).file@,
                start == old(self).position,
                self.version == old(self).version,
                i32_at(s, start as int) == Ok::<(i32, int), LinesErrorView>((num_points, first)),
                0 <= i,
                i <= num_points || i == 0,
                repeated(point_reader(), s, first, i as int) == Ok::<
                    (Seq<Point>, int),
                    LinesErrorView,
                >((points@, self.position as int)),
            decreases num_points - i,
        {
            match self.read_point() {
                Ok(point) => {
                    points.push(point);
                },
                Err(e) => {
                    proof {
                        lemma_repeated_failure(
                            point_reader(),
                            s,
                            first,
                            i + 1,
                            num_points as int,
                        );
                    }
                    self.position = start;
                    return Err(e);
                },
            }
            i = i + 1;
        }
        Ok(points)
    }

    /// Reads the line record at the cursor, checking each code as soon as
    /// it is read.
    fn read_line(&mut self) -> (r: Result<Line, LinesError>)
        ensures
            old(self).advanced(
                *final(self),
                line_at(old(self).file@, old(self).position as int, old(self).version),
                line_outcome(r),
            ),
    {
        let start = self.position;
        let brush_code = match self.read_i32() {
            Ok(code) => code,
            Err(e) => {
                return Err(e);
            },
        };
        let brush_type = match BrushType::try_from(brush_code) {
            Ok(brush_type) => brush_type,
            Err(e) => {
                self.position = start;
                return Err(e);
            },
        };
        let color_code = match self.read_i32() {
            Ok(code) => code,
            Err(e) => {
                self.position = start;
                return Err(e);
            },
        };
        let color = match Color::try_from(color_code) {
            Ok(color) => color,
            Err(e) => {
                self.position = start;
                return Err(e);
            },
        };
        let unknown_line_attribute_1 = match self.read_i32() {
            Ok(value) => value,
            Err(e) => {
                self.position = start;
                return Err(e);
            },
        };
        let brush_base_size = match self.read_f32() {
            Ok(value) => value,
            Err(e) => {
                self.position = start;
                return Err(e);
            },
        };
        let unkonwn_line_attribute_2 = if self.version >= 5 {
            match self.read_i32() {
                Ok(value) => value,
                Err(e) => {
                    self.position = start;
                    return Err(e);
                },
            }
        } else {
            0
        };
        let points = match self.read_points() {
            Ok(points) => points,
            Err(e) => {
                self.position = start;
                return Err(e);
            },
        };
        Ok(
            Line {
                brush_type,
                color,
                unknown_line_attribute_1,
                brush_base_size,
                unkonwn_line_attribute_2,
                points,
            },
        )
    }

    /// Reads a count and that many lines.
    fn read_lines(&mut self) -> (r: Result<Vec<Line>, LinesError>)
        ensures
            old(self).advanced(
                *final(self),
                lines_at(old(self).file@, old(self).position as int, old(self).version),
                lines_outcome(r),
            ),
    {
        let start = self.position;
        let num_lines = match self.read_i32() {
            Ok(count) => count,
            Err(e) => {
                return Err(e);
            },
        };
        let ghost s = self.file@;
        let ghost first = self.position as int;
        let ghost version = self.version;
        let mut lines: Vec<Line> = Vec::new();
        assert(line_views(lines@) =~= Seq::<LineView>::empty());
        let mut i: i32 = 0;
        while i < num_lines
            invariant
                self.file@ == s,
                s == old(self).file@,
                start == old(self).position,
                self.version == version,
                version == old(self).version,
                i32_at(s, start as int) == Ok::<(i32, int), LinesErrorView>((num_lines, first)),
                0 <= i,
                i <= num_lines || i == 0,
                repeated(line_reader(version), s, first, i as int) == Ok::<
                    (Seq<LineView>, int),
                    LinesErrorView,
                >((line_views(lines@), self.position as int)),
            decreases num_lines - i,
        {
            match self.read_line() {
                Ok(line) => {
                    assert(line_views(lines@.push(line)) =~= line_views(lines@).push(line@));
                    lines.push(line);
                },
                Err(e) => {
                    proof {
                        lemma_repeated_failure(
                            line_reader(version),
                            s,
                            first,
                            i + 1,
                            num_lines as int,
                        );
                    }
                    self.position = start;
                    return Err(e);
                },
            }
            i = i + 1;
        }
        Ok(lines)
    }

    /// Reads a count and that many layers.
    fn read_layers(&mut self) -> (r: Result<Vec<Layer>, LinesError>)
        ensures
            old(self).advanced(
                *final(self),
                layers_at(old(self).file@, old(self).position as int, old(self).version),
                layers_outcome(r),
            ),
    {
        let start = self.position;
        let num_layers = match self.read_i32() {
            Ok(count) => count,
            Err(e) => {
                return Err(e);
            },
        };
        let ghost s = self.file@;
        let ghost first = self.position as int;
        let ghost version = self.version;
        let mut layers: Vec<Layer> = Vec::new();
        assert(layer_views(layers@) =~= Seq::<LayerView>::empty());
        let mut i: i32 = 0;
        while i < num_layers
            invariant
                self.file@ == s,
                s == old(self).file@,
                start == old(self).position,
                self.version == version,
                version == old(self).version,
                i32_at(s, start as int) == Ok::<(i32, int), LinesErrorView>((num_layers, first)),
                0 <= i,
                i <= num_layers || i == 0,
                repeated(layer_reader(version), s, first, i as int) == Ok::<
                    (Seq<LayerView>, int),
                    LinesErrorView,
                >((layer_views(layers@), self.position as int)),
            decreases num_layers - i,
        {
            match self.read_lines() {
                Ok(lines) => {
                    let layer = Layer { lines };
                    assert(layer_views(layers@.push(layer)) =~= layer_views(layers@).push(layer@));
                    layers.push(layer);
                },
                Err(e) => {
                    proof {
                        lemma_repeated_failure(
                            layer_reader(version),
                            s,
                            first,
                            i + 1,
                            num_layers as int,
                        );
                    }
                    self.position = start;
                    return Err(e);
                },
            }
            i = i + 1;
        }
        Ok(layers)
    }

    /// Reads the pages that stand at the cursor: one page from version 3
    /// on, a counted run of pages before.
    ///
    /// On success the cursor stands behind the last page. On failure it is
    /// left where it stood and the first failure met is returned.
    pub fn read_pages(&mut self) -> (r: Result<Vec<Page>, LinesError>)
        ensures
            old(self).advanced(
                *final(self),
                pages_at(old(self).file@, old(self).position as int, old(self).version),
                pages_outcome(r),
            ),
    {
        let start = self.position;
        let num_pages = if self.version >= 3 {
            1
        } else {
            match self.read_i32() {
                Ok(count) => count,
                Err(e) => {
                    return Err(e);
                },
            }
        };
        let ghost s = self.file@;
        let ghost first = self.position as int;
        let ghost version = self.version;
        let mut pages: Vec<Page> = Vec::new();
        assert(page_views(pages@) =~= Seq::<PageView>::empty());
        let mut i: i32 = 0;
        while i < num_pages
            invariant
                self.file@ == s,
                s == old(self).file@,
                start == old(self).position,
                self.version == version,
                version == old(self).version,
                pages_at(s, start as int, version) == repeated(
                    page_reader(version),
                    s,
                    first,
                    num_pages as int,
                ),
                0 <= i,
                i <= num_pages || i == 0,
                repeated(page_reader(version), s, first, i as int) == Ok::<
                    (Seq<PageView>, int),
                    LinesErrorView,
                >((page_views(pages@), self.position as int)),
            decreases num_pages - i,
        {
            match self.read_layers() {
                Ok(layers) => {
                    let page = Page { layers };
                    assert(page_views(pages@.push(page)) =~= page_views(pages@).push(page@));
                    pages.push(page);
                },
                Err(e) => {
                    proof {
                        lemma_repeated_failure(
                            page_reader(version),
                            s,
                            first,
                            i + 1,
                            num_pages as int,
                        );
                    }
                    self.position = start;
                    return Err(e);
                },
            }
            i = i + 1;
        }
        Ok(pages)
    }
}

} // verus!
