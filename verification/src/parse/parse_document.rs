//! Assembly of a document from the parts of its bundle.
//!
//! A bundle is a JSON text that names the pages and tells orientation and
//! type, one lines file for each page, and for a PDF document the PDF. The
//! caller reads the files; `page_ids` tells which lines files are wanted.

use crate::error::{
    JsonStructure, JsonStructureView, LinesError, LinesErrorView, VersionError,
};
use crate::lines_data_reader::{decode, LinesDataReader};
use crate::model::{page_views, Page, PageView};
use crate::parse::content::{
    json_outcome, lemma_array_view, parse_json, parsed, Json, JsonView,
};
use vstd::prelude::*;
use vstd::string::StringExecFns;

verus! {

/// How the pages of a document are held.
#[derive(Clone, Copy, Debug, PartialEq, Eq, Structural)]
pub enum Orientation {
    Landscape,
    Portrait,
}

/// What the notes of a document are written on. A PDF document carries the
/// bytes of its PDF.
#[derive(Clone, Debug, PartialEq, Eq)]
pub enum DocumentType {
    Epub,
    Notebook,
    Pdf(Vec<u8>),
}

/// A document: the pages of all its lines files in the order of the
/// bundle. Orientation, type and version are each held with the failure
/// that kept them from being told.
#[derive(Debug, PartialEq, Eq)]
pub struct Document {
    pub orientation: Result<Orientation, LinesError>,
    pub document_type: Result<DocumentType, LinesError>,
    pub pages: Vec<Page>,
    pub version: Result<i32, LinesError>,
}

/// A document type as a mathematical value.
pub enum DocumentTypeView {
    Epub,
    Notebook,
    Pdf(Seq<u8>),
}

/// A document as a mathematical value.
pub struct DocumentView {
    pub orientation: Result<Orientation, LinesErrorView>,
    pub document_type: Result<DocumentTypeView, LinesErrorView>,
    pub pages: Seq<PageView>,
    pub version: Result<i32, LinesErrorView>,
}

impl View for DocumentType {
    type V = DocumentTypeView;

    open spec fn view(&self) -> DocumentTypeView {
        match self {
            DocumentType::Epub => DocumentTypeView::Epub,
            DocumentType::Notebook => DocumentTypeView::Notebook,
            DocumentType::Pdf(bytes) => DocumentTypeView::Pdf(bytes@),
        }
    }
}

/// The view of a result that holds a plain value.
pub open spec fn plain_view<T>(r: Result<T, LinesError>) -> Result<T, LinesErrorView> {
    match r {
        Ok(value) => Ok(value),
        Err(e) => Err(e@),
    }
}

/// The view of a result that holds a text.
pub open spec fn text_view(r: Result<String, LinesError>) -> Result<Seq<char>, LinesErrorView> {
    match r {
        Ok(text) => Ok(text@),
        Err(e) => Err(e@),
    }
}

/// The view of a result that holds a document type.
pub open spec fn type_view(r: Result<DocumentType, LinesError>) -> Result<
    DocumentTypeView,
    LinesErrorView,
> {
    match r {
        Ok(document_type) => Ok(document_type@),
        Err(e) => Err(e@),
    }
}

impl View for Document {
    type V = DocumentView;

    open spec fn view(&self) -> DocumentView {
        DocumentView {
            orientation: plain_view(self.orientation),
            document_type: type_view(self.document_type),
            pages: page_views(self.pages@),
            version: plain_view(self.version),
        }
    }
}

/// The view of a result that holds a document.
pub open spec fn document_view(r: Result<Document, LinesError>) -> Result<
    DocumentView,
    LinesErrorView,
> {
    match r {
        Ok(document) => Ok(document@),
        Err(e) => Err(e@),
    }
}

/// The texts of a run of strings, in order.
pub open spec fn text_views(texts: Seq<String>) -> Seq<Seq<char>> {
    texts.map_values(|text: String| text@)
}

/// The bytes of a run of files, in order.
pub open spec fn file_views(files: Seq<Vec<u8>>) -> Seq<Seq<u8>> {
    files.map_values(|file: Vec<u8>| file@)
}

/// The view of a result that holds page identifiers.
pub open spec fn ids_view(r: Result<Vec<String>, LinesError>) -> Result<
    Seq<Seq<char>>,
    LinesErrorView,
> {
    match r {
        Ok(ids) => Ok(text_views(ids@)),
        Err(e) => Err(e@),
    }
}

/// The string that `object` holds under `key`.
pub open spec fn text_entry(object: JsonView, key: Seq<char>) -> Result<Seq<char>, LinesErrorView> {
    match object.member(key) {
        None => Err(LinesErrorView::JsonStructure(JsonStructureView::MissingEntry(key))),
        Some(JsonView::Text(text)) => Ok(text),
        Some(_) => Err(LinesErrorView::JsonStructure(JsonStructureView::NotAString(key))),
    }
}

/// The orientation that `object` tells under `orientation`.
pub open spec fn orientation_of(object: JsonView) -> Result<Orientation, LinesErrorView> {
    match text_entry(object, "orientation"@) {
        Err(e) => Err(e),
        Ok(text) => if text == "landscape"@ {
            Ok(Orientation::Landscape)
        } else if text == "portrait"@ {
            Ok(Orientation::Portrait)
        } else {
            Err(LinesErrorView::JsonStructure(JsonStructureView::UnknownOrientation(text)))
        },
    }
}

/// The type that `object` tells under `fileType`; a PDF document takes the
/// bytes that were handed over and fails without them.
pub open spec fn document_type_of(object: JsonView, pdf: Option<Seq<u8>>) -> Result<
    DocumentTypeView,
    LinesErrorView,
> {
    match text_entry(object, "fileType"@) {
        Err(e) => Err(e),
        Ok(text) => if text == "pdf"@ {
            match pdf {
                Some(bytes) => Ok(DocumentTypeView::Pdf(bytes)),
                None => Err(LinesErrorView::MissingPdf),
            }
        } else if text == "epub"@ {
            Ok(DocumentTypeView::Epub)
        } else if text == "notebook"@ {
            Ok(DocumentTypeView::Notebook)
        } else {
            Err(LinesErrorView::JsonStructure(JsonStructureView::UnknownDocumentType(text)))
        },
    }
}

/// The first `count` of `items` as page identifiers: each has to be a
/// string.
pub open spec fn ids_among(items: Seq<JsonView>, count: int) -> Result<
    Seq<Seq<char>>,
    LinesErrorView,
>
    decreases count,
{
    if count <= 0 {
        Ok(Seq::empty())
    } else {
        match ids_among(items, count - 1) {
            Err(e) => Err(e),
            Ok(ids) => match items[count - 1] {
                JsonView::Text(id) => Ok(ids.push(id)),
                _ => Err(LinesErrorView::JsonStructure(JsonStructureView::PageNotAString)),
            },
        }
    }
}

/// The page identifiers that `object` lists under `pages`.
pub open spec fn page_ids_of(object: JsonView) -> Result<Seq<Seq<char>>, LinesErrorView> {
    match object.member("pages"@) {
        Some(JsonView::Array(items)) => ids_among(items, items.len() as int),
        _ => Err(LinesErrorView::JsonStructure(JsonStructureView::MissingPages)),
    }
}

/// The pages of the first `count` identifiers and the version that they
/// share. The stream of an identifier is the file at its place; each is
/// decoded on its own, and the first failure ends the run: a missing
/// stream, a stream that does not decode, or a version that differs from
/// the one before.
pub open spec fn merged_pages(ids: Seq<Seq<char>>, files: Seq<Seq<u8>>, count: int) -> Result<
    (Seq<PageView>, Option<i32>),
    LinesErrorView,
>
    decreases count,
{
    if count <= 0 {
        Ok((Seq::empty(), None))
    } else {
        match merged_pages(ids, files, count - 1) {
            Err(e) => Err(e),
            Ok((pages, version)) => if count - 1 >= files.len() {
                Err(LinesErrorView::MissingPage(ids[count - 1]))
            } else {
                match decode(files[count - 1]) {
                    Err(e) => Err(e),
                    Ok(data) => if version is Some && version != Some(data.version) {
                        Err(LinesErrorView::VersionError(VersionError::Mixed))
                    } else {
                        Ok((pages + data.pages, Some(data.version)))
                    },
                }
            },
        }
    }
}

/// The version of a bundle whose pages share `version`.
pub open spec fn version_of_bundle(version: Option<i32>) -> Result<i32, LinesErrorView> {
    match version {
        Some(version) => Ok(version),
        None => Err(LinesErrorView::VersionError(VersionError::NoPages)),
    }
}

/// The pages of the bundle that `object` describes, and their version.
pub open spec fn bundle_pages(object: JsonView, files: Seq<Seq<u8>>) -> Result<
    (Seq<PageView>, Result<i32, LinesErrorView>),
    LinesErrorView,
> {
    match page_ids_of(object) {
        Err(e) => Err(e),
        Ok(ids) => match merged_pages(ids, files, ids.len() as int) {
            Err(e) => Err(e),
            Ok((pages, version)) => Ok((pages, version_of_bundle(version))),
        },
    }
}

/// The document of the bundle that `object` describes.
pub open spec fn assembled(object: JsonView, pdf: Option<Seq<u8>>, files: Seq<Seq<u8>>) -> Result<
    DocumentView,
    LinesErrorView,
> {
    match bundle_pages(object, files) {
        Err(e) => Err(e),
        Ok((pages, version)) => Ok(
            DocumentView {
                orientation: orientation_of(object),
                document_type: document_type_of(object, pdf),
                pages,
                version,
            },
        ),
    }
}

/// The JSON object that a parse has to have returned.
pub open spec fn content_of(tree: Result<JsonView, LinesErrorView>) -> Result<
    JsonView,
    LinesErrorView,
> {
    match tree {
        Err(e) => Err(e),
        Ok(JsonView::Object(members)) => Ok(JsonView::Object(members)),
        Ok(_) => Err(LinesErrorView::JsonStructure(JsonStructureView::NotAnObject)),
    }
}

/// The document of the bundle whose JSON parsed to `tree`.
pub open spec fn loaded(
    tree: Result<JsonView, LinesErrorView>,
    pdf: Option<Seq<u8>>,
    files: Seq<Seq<u8>>,
) -> Result<DocumentView, LinesErrorView> {
    match content_of(tree) {
        Err(e) => Err(e),
        Ok(object) => assembled(object, pdf, files),
    }
}

/// Whether two texts are the same.
fn same_text(a: &str, b: &str) -> (same: bool)
    ensures
        same == (a@ == b@),
{
    String::from_str(a) == String::from_str(b)
}

/// The string that `object` holds under `key`.
pub fn get_json_string(object: &Json, key: &str) -> (r: Result<String, LinesError>)
    ensures
        text_view(r) == text_entry(object@, key@),
{
    match object.get(key) {
        None => Err(LinesError::JsonStructure(JsonStructure::MissingEntry(String::from_str(key)))),
        Some(Json::Text(text)) => Ok(text.clone()),
        Some(_) => Err(LinesError::JsonStructure(JsonStructure::NotAString(String::from_str(key)))),
    }
}

/// The orientation that `object` tells.
pub fn get_orientation(object: &Json) -> (r: Result<Orientation, LinesError>)
    ensures
        plain_view(r) == orientation_of(object@),
{
    let text = match get_json_string(object, "orientation") {
        Ok(text) => text,
        Err(e) => {
            return Err(e);
        },
    };
    if same_text(text.as_str(), "landscape") {
        Ok(Orientation::Landscape)
    } else if same_text(text.as_str(), "portrait") {
        Ok(Orientation::Portrait)
    } else {
        Err(LinesError::JsonStructure(JsonStructure::UnknownOrientation(text)))
    }
}

/// The type that `object` tells. `pdf` holds the bytes of the document's
/// PDF where the caller has one.
pub fn get_document_type(object: &Json, pdf: Option<Vec<u8>>) -> (r: Result<
    DocumentType,
    LinesError,
>)
    ensures
        type_view(r) == document_type_of(
            object@,
            match pdf {
                Some(bytes) => Some(bytes@),
                None => None,
            },
        ),
{
    let text = match get_json_string(object, "fileType") {
        Ok(text) => text,
        Err(e) => {
            return Err(e);
        },
    };
    if same_text(text.as_str(), "pdf") {
        match pdf {
            Some(bytes) => Ok(DocumentType::Pdf(bytes)),
            None => Err(LinesError::MissingPdf),
        }
    } else if same_text(text.as_str(), "epub") {
        Ok(DocumentType::Epub)
    } else if same_text(text.as_str(), "notebook") {
        Ok(DocumentType::Notebook)
    } else {
        Err(LinesError::JsonStructure(JsonStructure::UnknownDocumentType(text)))
    }
}

/// Parses the JSON of a bundle, whose top level has to be an object.
pub fn get_content_json(content: &str) -> (r: Result<Json, LinesError>)
    ensures
        json_outcome(r) == content_of(parsed(content@)),
{
    match parse_json(content) {
        Err(e) => Err(e),
        Ok(Json::Object(members)) => Ok(Json::Object(members)),
        Ok(_) => Err(LinesError::JsonStructure(JsonStructure::NotAnObject)),
    }
}

/// The page identifiers that `object` lists, in order: the names that the
/// lines files of the bundle go by.
pub fn page_ids(object: &Json) -> (r: Result<Vec<String>, LinesError>)
    ensures
        ids_view(r) == page_ids_of(object@),
{
    let items = match object.get("pages") {
        Some(Json::Array(items)) => items,
        _ => {
            return Err(LinesError::JsonStructure(JsonStructure::MissingPages));
        },
    };
    proof {
        lemma_array_view(*items);
    }
    let ghost all = Json::Array(*items)@->Array_0;
    assert(page_ids_of(object@) == ids_among(all, all.len() as int));
    let mut page_ids: Vec<String> = Vec::new();
    assert(text_views(page_ids@) =~= Seq::<Seq<char>>::empty());
    let mut i: usize = 0;
    while i < items.len()
        invariant
            i <= items@.len(),
            all.len() == items@.len(),
            page_ids_of(object@) == ids_among(all, all.len() as int),
            forall|j: int| 0 <= j < items@.len() ==> #[trigger] all[j] == items@[j]@,
            ids_among(all, i as int) == Ok::<Seq<Seq<char>>, LinesErrorView>(
                text_views(page_ids@),
            ),
        decreases items@.len() - i,
    {
        match &items[i] {
            Json::Text(id) => {
                let id = id.clone();
                assert(text_views(page_ids@.push(id)) =~= text_views(page_ids@).push(id@));
                page_ids.push(id);
            },
            _ => {
                proof {
                    assert(all[i as int] == items@[i as int]@);
                    assert(!(all[i as int] is Text));
                    lemma_ids_failure(all, i + 1, all.len() as int);
                }
                return Err(LinesError::JsonStructure(JsonStructure::PageNotAString));
            },
        }
        i = i + 1;
    }
    Ok(page_ids)
}

/// Once an item is no string, asking for more identifiers fails in the
/// same way.
pub proof fn lemma_ids_failure(items: Seq<JsonView>, failed: int, count: int)
    requires
        failed <= count,
        ids_among(items, failed) is Err,
    ensures
        ids_among(items, count) == ids_among(items, failed),
    decreases count - failed,
{
    if failed < count {
        lemma_ids_failure(items, failed, count - 1);
    }
}

/// Once a page fails, asking for more pages fails in the same way.
pub proof fn lemma_merge_failure(
    ids: Seq<Seq<char>>,
    files: Seq<Seq<u8>>,
    failed: int,
    count: int,
)
    requires
        failed <= count,
        merged_pages(ids, files, failed) is Err,
    ensures
        merged_pages(ids, files, count) == merged_pages(ids, files, failed),
    decreases count - failed,
{
    if failed < count {
        lemma_merge_failure(ids, files, failed, count - 1);
    }
}

/// The first stream that does not decode decides: where the pages before
/// it joined, the whole bundle fails with that stream's failure.
pub proof fn lemma_first_failing_stream_decides(
    ids: Seq<Seq<char>>,
    files: Seq<Seq<u8>>,
    index: int,
)
    requires
        0 <= index < ids.len(),
        index < files.len(),
        merged_pages(ids, files, index) is Ok,
        decode(files[index]) is Err,
    ensures
        merged_pages(ids, files, ids.len() as int) == Err::<
            (Seq<PageView>, Option<i32>),
            LinesErrorView,
        >(decode(files[index])->Err_0),
{
    lemma_merge_failure(ids, files, index + 1, ids.len() as int);
}

/// The view of what reading the pages of a bundle returned.
pub open spec fn pages_view(r: Result<(Vec<Page>, Result<i32, LinesError>), LinesError>) -> Result<
    (Seq<PageView>, Result<i32, LinesErrorView>),
    LinesErrorView,
> {
    match r {
        Ok((pages, version)) => Ok((page_views(pages@), plain_view(version))),
        Err(e) => Err(e@),
    }
}

/// Decodes the lines files of the bundle that `object` describes and joins
/// their pages in the order of the bundle. `files` holds the stream of each
/// listed page at the place of its identifier; streams beyond the list are
/// not looked at.
///
/// The version is the one that all pages share; a bundle without pages has
/// none, which is told in the version and fails nothing. A page whose
/// version differs from the one before it fails the whole read.
pub fn get_pages(object: &Json, files: &Vec<Vec<u8>>) -> (r: Result<
    (Vec<Page>, Result<i32, LinesError>),
    LinesError,
>)
    ensures
        pages_view(r) == bundle_pages(object@, file_views(files@)),
{
    let ids = match page_ids(object) {
        Ok(ids) => ids,
        Err(e) => {
            return Err(e);
        },
    };
    let ghost names = text_views(ids@);
    let ghost streams = file_views(files@);
    let count = ids.len();
    let mut pages: Vec<Page> = Vec::new();
    assert(page_views(pages@) =~= Seq::<PageView>::empty());
    let mut version: Option<i32> = None;
    let mut i: usize = 0;
    while i < count
        invariant
            i <= count,
            count == ids@.len(),
            names == text_views(ids@),
            streams == file_views(files@),
            page_ids_of(object@) == Ok::<Seq<Seq<char>>, LinesErrorView>(names),
            merged_pages(names, streams, i as int) == Ok::<
                (Seq<PageView>, Option<i32>),
                LinesErrorView,
            >((page_views(pages@), version)),
        decreases count - i,
    {
        if i >= files.len() {
            proof {
                lemma_merge_failure(names, streams, i + 1, count as int);
            }
            let id = ids[i].clone();
            assert(names[i as int] == id@);
            return Err(LinesError::MissingPage(id));
        }
        assert(streams[i as int] == files@[i as int]@);
        let lines_data = match LinesDataReader::read(files[i].as_slice()) {
            Ok(lines_data) => lines_data,
            Err(e) => {
                proof {
                    lemma_merge_failure(names, streams, i + 1, count as int);
                }
                return Err(e);
            },
        };
        let mixed = match version {
            Some(version) => version != lines_data.version,
            None => false,
        };
        if mixed {
            proof {
                lemma_merge_failure(names, streams, i + 1, count as int);
            }
            return Err(LinesError::VersionError(VersionError::Mixed));
        }
        version = Some(lines_data.version);
        let ghost before = page_views(pages@);
        let ghost added = page_views(lines_data.pages@);
        let mut new_pages = lines_data.pages;
        pages.append(&mut new_pages);
        assert(page_views(pages@) =~= before + added);
        i = i + 1;
    }
    match version {
        Some(version) => Ok((pages, Ok(version))),
        None => Ok((pages, Err(LinesError::VersionError(VersionError::NoPages)))),
    }
}

impl Document {
    /// Assembles the document of the bundle that `content_json` describes:
    /// the pages of `files` as `get_pages` joins them, with the orientation
    /// and the type that the JSON tells.
    ///
    /// It fails where the pages fail. An orientation or a type that cannot
    /// be told fails nothing: the document holds the reason in its place.
    pub fn assemble(content_json: &Json, pdf: Option<Vec<u8>>, files: &Vec<Vec<u8>>) -> (r: Result<
        Document,
        LinesError,
    >)
        ensures
            document_view(r) == assembled(
                content_json@,
                match pdf {
                    Some(bytes) => Some(bytes@),
                    None => None,
                },
                file_views(files@),
            ),
    {
        let (pages, version) = match get_pages(content_json, files) {
            Ok(found) => found,
            Err(e) => {
                return Err(e);
            },
        };
        Ok(
            Document {
                orientation: get_orientation(content_json),
                document_type: get_document_type(content_json, pdf),
                pages,
                version,
            },
        )
    }

    /// Loads a document from the parts of its bundle: `content` is the JSON
    /// text that describes it, `pdf` the bytes of its PDF where there is
    /// one, and `files` the lines file of each page that `content` lists,
    /// in that order.
    ///
    /// It fails where `content` is no JSON object, and where `assemble`
    /// fails on that object.
    pub fn load(content: &str, pdf: Option<Vec<u8>>, files: &Vec<Vec<u8>>) -> (r: Result<
        Document,
        LinesError,
    >)
        ensures
            document_view(r) == loaded(
                parsed(content@),
                match pdf {
                    Some(bytes) => Some(bytes@),
                    None => None,
                },
                file_views(files@),
            ),
    {
        let content_json = match get_content_json(content) {
            Ok(content_json) => content_json,
            Err(e) => {
                return Err(e);
            },
        };
        Document::assemble(&content_json, pdf, files)
    }
}

} // verus!
