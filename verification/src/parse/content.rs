//! The JSON of a document bundle, as a tree of the library's own.

use crate::error::{JsonStructure, JsonStructureView, LinesError, LinesErrorView};
use ::json::JsonValue;
use vstd::prelude::*;
use vstd::string::{StringExecFns, StringSliceAdditionalSpecFns};
use vstd::utf8::encode_utf8;

verus! {

/// A JSON value. Object members keep the order of the text.
#[derive(Debug, PartialEq, Eq)]
pub enum Json {
    Null,
    Boolean(bool),
    /// A number in decimal parts: sign, digits and power of ten.
    Number { positive: bool, mantissa: u64, exponent: i16 },
    Text(String),
    Array(Vec<Json>),
    Object(Vec<(String, Json)>),
}

/// A JSON value as a mathematical value.
pub enum JsonView {
    Null,
    Boolean(bool),
    Number { positive: bool, mantissa: u64, exponent: i16 },
    Text(Seq<char>),
    Array(Seq<JsonView>),
    Object(Seq<(Seq<char>, JsonView)>),
}

/// The tree of `json` as a mathematical value.
pub open spec fn tree_of(json: Json) -> JsonView
    decreases json,
{
    match json {
        Json::Null => JsonView::Null,
        Json::Boolean(value) => JsonView::Boolean(value),
        Json::Number { positive, mantissa, exponent } => JsonView::Number {
            positive,
            mantissa,
            exponent,
        },
        Json::Text(text) => JsonView::Text(text@),
        Json::Array(items) => JsonView::Array(
            Seq::new(
                items@.len(),
                |i: int|
                    if 0 <= i < items@.len() {
                        tree_of(items@[i])
                    } else {
                        JsonView::Null
                    },
            ),
        ),
        Json::Object(members) => JsonView::Object(
            Seq::new(
                members@.len(),
                |i: int|
                    if 0 <= i < members@.len() {
                        (members@[i].0@, tree_of(members@[i].1))
                    } else {
                        (Seq::empty(), JsonView::Null)
                    },
            ),
        ),
    }
}

impl View for Json {
    type V = JsonView;

    open spec fn view(&self) -> JsonView {
        tree_of(*self)
    }
}

/// `json::JsonValue`, carried from the parser to `to_json` and not looked
/// into elsewhere.
#[verifier::external_type_specification]
#[verifier::external_body]
pub struct ExJsonValue(JsonValue);

/// `json::Error`, carried inside `LinesError::Json` and not looked into.
#[verifier::external_type_specification]
#[verifier::external_body]
pub struct ExJsonError(::json::Error);

/// The tree that `text` is the JSON of, if it is well-formed JSON.
pub uninterp spec fn json_document(text: Seq<char>) -> Option<JsonView>;

/// The tree that a parsed value holds.
pub uninterp spec fn json_tree(value: JsonValue) -> JsonView;

/// The longest run of ASCII digits that a text may hold to be parsed: the
/// parser counts the digits of a fraction in sixteen bits.
pub const MAX_DIGIT_RUN: usize = 32767;

/// Whether `byte` is an ASCII digit.
pub open spec fn is_digit(byte: u8) -> bool {
    48 <= byte <= 57
}

/// The length of the run of ASCII digits of `bytes` that ends before
/// `end`.
pub open spec fn digit_run(bytes: Seq<u8>, end: int) -> int
    decreases end,
{
    if end <= 0 || end > bytes.len() || !is_digit(bytes[end - 1]) {
        0
    } else {
        digit_run(bytes, end - 1) + 1
    }
}

/// Whether no run of ASCII digits of `bytes` is longer than
/// `MAX_DIGIT_RUN`.
pub open spec fn digit_runs_fit(bytes: Seq<u8>) -> bool {
    forall|end: int| 0 <= end <= bytes.len() ==> #[trigger] digit_run(bytes, end) <= MAX_DIGIT_RUN
}

/// Whether no run of ASCII digits of `bytes` is longer than
/// `MAX_DIGIT_RUN`.
pub fn has_short_digit_runs(bytes: &[u8]) -> (fit: bool)
    ensures
        fit == digit_runs_fit(bytes@),
{
    let mut run: usize = 0;
    let mut i: usize = 0;
    while i < bytes.len()
        invariant
            i <= bytes@.len(),
            run == digit_run(bytes@, i as int),
            forall|end: int| 0 <= end <= i ==> #[trigger] digit_run(bytes@, end) <= MAX_DIGIT_RUN,
        decreases bytes@.len() - i,
    {
        let byte = bytes[i];
        if 48 <= byte && byte <= 57 {
            if run >= MAX_DIGIT_RUN {
                assert(digit_run(bytes@, i + 1) > MAX_DIGIT_RUN);
                return false;
            }
            run = run + 1;
        } else {
            run = 0;
        }
        i = i + 1;
    }
    true
}

/// `json::parse`: the value that `text` is the JSON of, or the parser's
/// error where the text is no well-formed JSON. The outcome depends on the
/// text alone.
///
/// The parser counts the digits of a fraction downwards in a signed
/// sixteen-bit exponent without a test, so a text with a longer run of
/// digits is kept from it.
#[verifier::external_body]
fn parse_text(text: &str) -> (r: Result<JsonValue, ::json::Error>)
    requires
        digit_runs_fit(text.spec_bytes()),
    ensures
        match r {
            Ok(value) => json_document(text@) == Some(json_tree(value)),
            Err(_) => json_document(text@) is None,
        },
{
    ::json::parse(text)
}

/// Copies a `json::JsonValue` into a tree, variant by variant: both kinds
/// of string become `Text`, a number is taken apart by `Number::as_parts`,
/// and the members of an object are walked in the order of `Object::iter`.
#[verifier::external_body]
fn to_json(value: &JsonValue) -> (tree: Json)
    ensures
        tree@ == json_tree(*value),
{
    match value {
        JsonValue::Null => Json::Null,
        JsonValue::Short(text) => Json::Text(text.as_str().to_string()),
        JsonValue::String(text) => Json::Text(text.clone()),
        JsonValue::Number(number) => {
            let (positive, mantissa, exponent) = number.as_parts();
            Json::Number { positive, mantissa, exponent }
        },
        JsonValue::Boolean(value) => Json::Boolean(*value),
        JsonValue::Object(object) => Json::Object(
            object.iter().map(|(key, member)| (key.to_string(), to_json(member))).collect(),
        ),
        JsonValue::Array(items) => Json::Array(items.iter().map(to_json).collect()),
    }
}

/// The view of an object: the views of its members, in order.
pub proof fn lemma_object_view(members: Vec<(String, Json)>)
    ensures
        Json::Object(members)@ matches JsonView::Object(all) && all.len() == members@.len()
            && forall|j: int|
            0 <= j < members@.len() ==> #[trigger] all[j] == (members@[j].0@, members@[j].1@),
{
}

/// The view of an array: the views of its items, in order.
pub proof fn lemma_array_view(items: Vec<Json>)
    ensures
        Json::Array(items)@ matches JsonView::Array(all) && all.len() == items@.len() && forall|
            j: int,
        |
            0 <= j < items@.len() ==> #[trigger] all[j] == items@[j]@,
{
}

/// The first member of `members` from `from` on that is named `key`.
pub open spec fn member_from(members: Seq<(Seq<char>, JsonView)>, key: Seq<char>, from: int)
    -> Option<JsonView>
    decreases members.len() - from,
{
    if from < 0 || from >= members.len() {
        None
    } else if members[from].0 == key {
        Some(members[from].1)
    } else {
        member_from(members, key, from + 1)
    }
}

impl JsonView {
    /// The member named `key`, where this is an object that has one.
    pub open spec fn member(self, key: Seq<char>) -> Option<JsonView> {
        match self {
            JsonView::Object(members) => member_from(members, key, 0),
            _ => None,
        }
    }
}

/// What parsing `text` returns, on views: a text with too long a run of
/// digits is turned away, any other is parsed.
pub open spec fn parsed(text: Seq<char>) -> Result<JsonView, LinesErrorView> {
    if !digit_runs_fit(encode_utf8(text)) {
        Err(LinesErrorView::JsonStructure(JsonStructureView::DigitRunTooLong))
    } else {
        match json_document(text) {
            Some(tree) => Ok(tree),
            None => Err(LinesErrorView::Json),
        }
    }
}

/// The view of what a parse returned.
pub open spec fn json_outcome(r: Result<Json, LinesError>) -> Result<JsonView, LinesErrorView> {
    match r {
        Ok(tree) => Ok(tree@),
        Err(e) => Err(e@),
    }
}

/// Parses `text` as JSON.
///
/// A text that holds more than `MAX_DIGIT_RUN` ASCII digits in a row,
/// inside a number or elsewhere, fails with `DigitRunTooLong` and is not
/// handed to the parser. Any other text fails with `Json` exactly if it is
/// no well-formed JSON.
pub fn parse_json(text: &str) -> (r: Result<Json, LinesError>)
    ensures
        json_outcome(r) == parsed(text@),
{
    if !has_short_digit_runs(text.as_bytes()) {
        return Err(LinesError::JsonStructure(JsonStructure::DigitRunTooLong));
    }
    match parse_text(text) {
        Ok(value) => Ok(to_json(&value)),
        Err(e) => Err(LinesError::Json(e)),
    }
}

impl Json {
    /// The member named `key`, where this is an object that has one.
    pub fn get(&self, key: &str) -> (found: Option<&Json>)
        ensures
            match found {
                Some(member) => self@.member(key@) == Some(member@),
                None => self@.member(key@) is None,
            },
    {
        match self {
            Json::Object(members) => {
                let wanted = String::from_str(key);
                proof {
                    lemma_object_view(*members);
                }
                let mut i: usize = 0;
                while i < members.len()
                    invariant
                        i <= members@.len(),
                        wanted@ == key@,
                        self@ matches JsonView::Object(all) && all.len() == members@.len()
                            && member_from(all, key@, 0) == member_from(all, key@, i as int)
                            && forall|j: int|
                            0 <= j < members@.len() ==> all[j] == (
                                members@[j].0@,
                                members@[j].1@,
                            ),
                    decreases members@.len() - i,
                {
                    if members[i].0 == wanted {
                        return Some(&members[i].1);
                    }
                    i = i + 1;
                }
                None
            },
            _ => None,
        }
    }
}

} // verus!
