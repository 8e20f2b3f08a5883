//! The failures of decoding and of document assembly.

use vstd::prelude::*;

verus! {

/// Why a decode or a document load was given up. The first failure met ends
/// the operation; nothing partial is handed back.
#[derive(Debug, PartialEq, Eq)]
pub enum LinesError {
    /// Format failure: the signature is the one of the layout that came
    /// before version 3, which is not decoded. Carries the signature text.
    UnsupportedVersion(String),
    /// Format failure: the signature is none that is known. Carries the
    /// signature text.
    UnknownHeader(String),
    /// I/O failure: the stream ends inside a record.
    UnexpectedEof,
    /// Value failure: a brush code outside the table. Carries the code.
    UnknownBrush(i32),
    /// Value failure: a colour code outside the table. Carries the code.
    UnknownColor(i32),
    /// Version failure: see `VersionError`.
    VersionError(VersionError),
    /// The text of a bundle is no well-formed JSON. Carries the parser's
    /// error.
    Json(::json::Error),
    /// The JSON of a bundle does not have the expected shape.
    JsonStructure(JsonStructure),
    /// A bundle names a page that no stream was handed over for. Carries
    /// the page identifier.
    MissingPage(String),
    /// A bundle is of type PDF and no PDF was handed over.
    MissingPdf,
}

/// Why a bundle has no version.
#[derive(Clone, Copy, Debug, PartialEq, Eq, Structural)]
pub enum VersionError {
    /// The bundle has no page to take a version from.
    NoPages,
    /// Two pages of the bundle differ in version.
    Mixed,
}

/// Where the JSON of a bundle departs from the expected shape.
#[derive(Clone, Debug, PartialEq, Eq)]
pub enum JsonStructure {
    /// The top level is no object.
    NotAnObject,
    /// The object has no entry of this name.
    MissingEntry(String),
    /// The entry of this name is no string.
    NotAString(String),
    /// The `orientation` entry holds this unknown value.
    UnknownOrientation(String),
    /// The `fileType` entry holds this unknown value.
    UnknownDocumentType(String),
    /// The object has no `pages` entry that is an array.
    MissingPages,
    /// An item of the `pages` array is no string.
    PageNotAString,
    /// The text holds a run of digits that is longer than the parser can
    /// count.
    DigitRunTooLong,
}

/// A shape failure as a mathematical value.
pub enum JsonStructureView {
    NotAnObject,
    MissingEntry(Seq<char>),
    NotAString(Seq<char>),
    UnknownOrientation(Seq<char>),
    UnknownDocumentType(Seq<char>),
    MissingPages,
    PageNotAString,
    DigitRunTooLong,
}

impl View for JsonStructure {
    type V = JsonStructureView;

    open spec fn view(&self) -> JsonStructureView {
        match self {
            JsonStructure::NotAnObject => JsonStructureView::NotAnObject,
            JsonStructure::MissingEntry(key) => JsonStructureView::MissingEntry(key@),
            JsonStructure::NotAString(key) => JsonStructureView::NotAString(key@),
            JsonStructure::UnknownOrientation(value) => JsonStructureView::UnknownOrientation(
                value@,
            ),
            JsonStructure::UnknownDocumentType(value) => JsonStructureView::UnknownDocumentType(
                value@,
            ),
            JsonStructure::MissingPages => JsonStructureView::MissingPages,
            JsonStructure::PageNotAString => JsonStructureView::PageNotAString,
            JsonStructure::DigitRunTooLong => JsonStructureView::DigitRunTooLong,
        }
    }
}

/// A failure as a mathematical value: texts are character sequences, and
/// of a JSON failure only the fact is kept, not the parser's error.
pub enum LinesErrorView {
    UnsupportedVersion(Seq<char>),
    UnknownHeader(Seq<char>),
    UnexpectedEof,
    UnknownBrush(i32),
    UnknownColor(i32),
    VersionError(VersionError),
    Json,
    JsonStructure(JsonStructureView),
    MissingPage(Seq<char>),
    MissingPdf,
}

impl View for LinesError {
    type V = LinesErrorView;

    open spec fn view(&self) -> LinesErrorView {
        match self {
            LinesError::UnsupportedVersion(text) => LinesErrorView::UnsupportedVersion(text@),
            LinesError::UnknownHeader(text) => LinesErrorView::UnknownHeader(text@),
            LinesError::UnexpectedEof => LinesErrorView::UnexpectedEof,
            LinesError::UnknownBrush(code) => LinesErrorView::UnknownBrush(*code),
            LinesError::UnknownColor(code) => LinesErrorView::UnknownColor(*code),
            LinesError::VersionError(e) => LinesErrorView::VersionError(*e),
            LinesError::Json(_) => LinesErrorView::Json,
            LinesError::JsonStructure(e) => LinesErrorView::JsonStructure(e@),
            LinesError::MissingPage(id) => LinesErrorView::MissingPage(id@),
            LinesError::MissingPdf => LinesErrorView::MissingPdf,
        }
    }
}

/// The classes that failures fall into.
#[derive(Clone, Copy, Debug, PartialEq, Eq, Structural)]
pub enum ErrorKind {
    Format,
    Io,
    Value,
    Version,
    Bundle,
}

impl LinesErrorView {
    /// The class of this failure.
    pub open spec fn kind(self) -> ErrorKind {
        match self {
            LinesErrorView::UnsupportedVersion(_) => ErrorKind::Format,
            LinesErrorView::UnknownHeader(_) => ErrorKind::Format,
            LinesErrorView::UnexpectedEof => ErrorKind::Io,
            LinesErrorView::UnknownBrush(_) => ErrorKind::Value,
            LinesErrorView::UnknownColor(_) => ErrorKind::Value,
            LinesErrorView::VersionError(_) => ErrorKind::Version,
            LinesErrorView::Json => ErrorKind::Bundle,
            LinesErrorView::JsonStructure(_) => ErrorKind::Bundle,
            LinesErrorView::MissingPage(_) => ErrorKind::Bundle,
            LinesErrorView::MissingPdf => ErrorKind::Bundle,
        }
    }
}

impl LinesError {
    /// The class of this failure.
    pub open spec fn spec_kind(&self) -> ErrorKind {
        self@.kind()
    }

    /// The class of this failure.
    #[verifier::when_used_as_spec(spec_kind)]
    pub fn kind(&self) -> (kind: ErrorKind)
        ensures
            kind == self.spec_kind(),
    {
        match self {
            LinesError::UnsupportedVersion(_) => ErrorKind::Format,
            LinesError::UnknownHeader(_) => ErrorKind::Format,
            LinesError::UnexpectedEof => ErrorKind::Io,
            LinesError::UnknownBrush(_) => ErrorKind::Value,
            LinesError::UnknownColor(_) => ErrorKind::Value,
            LinesError::VersionError(_) => ErrorKind::Version,
            LinesError::Json(_) => ErrorKind::Bundle,
            LinesError::JsonStructure(_) => ErrorKind::Bundle,
            LinesError::MissingPage(_) => ErrorKind::Bundle,
            LinesError::MissingPdf => ErrorKind::Bundle,
        }
    }
}

} // verus!
