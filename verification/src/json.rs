//! JSON values of configuration and database columns.

use crate::double::Double;
use crate::names;
use vstd::prelude::*;

verus! {

/// A JSON number: a natural number, a negative integer, or a double.
#[derive(Clone, Copy, Debug, PartialEq, Eq, Structural)]
pub enum JsonNumber {
    /// Zero or more.
    Natural(u64),
    /// Less than zero.
    Negative(i64),
    /// Anything that is not an integer of 64 bits.
    Double(Double),
}

/// A JSON value.
pub enum JsonValue {
    /// `null`.
    Null,
    /// `true` or `false`.
    Bool(bool),
    /// A number.
    Number(JsonNumber),
    /// A string.
    String(String),
    /// An array.
    Array(Vec<JsonValue>),
    /// An object, its members in the order they are kept.
    Object(Vec<JsonMember>),
}

/// One member of a JSON object.
pub struct JsonMember {
    /// The member's name.
    pub name: String,
    /// The member's value.
    pub value: JsonValue,
}

/// Whether a value is a string, a boolean or a number.
pub open spec fn is_scalar(value: JsonValue) -> bool {
    value is String || value is Bool || value is Number
}

impl JsonValue {
    /// Whether this is a string, a boolean or a number.
    pub fn is_scalar(&self) -> (found: bool)
        ensures
            found == is_scalar(*self),
    {
        match self {
            JsonValue::String(_) => true,
            JsonValue::Bool(_) => true,
            JsonValue::Number(_) => true,
            _ => false,
        }
    }
}

/// A JSON value as a mathematical tree.
pub enum JsonTree {
    Null,
    Bool(bool),
    Number(JsonNumber),
    Text(Seq<char>),
    Items(Seq<JsonTree>),
    Members(Seq<TreeMember>),
}

/// One member of an object in a tree.
pub struct TreeMember {
    pub name: Seq<char>,
    pub value: JsonTree,
}

/// The tree that a value is.
pub open spec fn tree(value: JsonValue) -> JsonTree
    decreases value,
{
    match value {
        JsonValue::Null => JsonTree::Null,
        JsonValue::Bool(b) => JsonTree::Bool(b),
        JsonValue::Number(n) => JsonTree::Number(n),
        JsonValue::String(s) => JsonTree::Text(s@),
        JsonValue::Array(items) => JsonTree::Items(
            Seq::new(
                items@.len(),
                |i: int|
                    if 0 <= i < items@.len() {
                        tree(items@[i])
                    } else {
                        JsonTree::Null
                    },
            ),
        ),
        JsonValue::Object(members) => JsonTree::Members(
            Seq::new(
                members@.len(),
                |i: int|
                    if 0 <= i < members@.len() {
                        TreeMember { name: members@[i].name@, value: tree(members@[i].value) }
                    } else {
                        TreeMember { name: Seq::empty(), value: JsonTree::Null }
                    },
            ),
        ),
    }
}

/// `serde_json::Value`: a parsed JSON document.
#[verifier::external_type_specification]
#[verifier::external_body]
pub struct ExJsonDocument(serde_json::Value);

/// `serde_json::Number`: a number of a JSON document.
#[verifier::external_type_specification]
#[verifier::external_body]
pub struct ExJsonDocumentNumber(serde_json::Number);

/// The tree that a parsed document holds.
pub uninterp spec fn document_tree(document: serde_json::Value) -> JsonTree;

/// The number that a parsed number holds.
pub uninterp spec fn document_number(number: serde_json::Number) -> JsonNumber;

/// The document that `serde_json` reads in a text, if the text is JSON.
pub uninterp spec fn parsed_tree(text: Seq<char>) -> Option<JsonTree>;

/// `serde_json::from_str` into a `serde_json::Value`: the document that the text
/// spells, or an error when it spells none.
#[verifier::external_body]
fn parse_document(text: &str) -> (r: Option<serde_json::Value>)
    ensures
        match r {
            Some(document) => parsed_tree(text@) == Some(document_tree(document)),
            None => parsed_tree(text@) is None,
        },
{
    serde_json::from_str::<serde_json::Value>(text).ok()
}

/// One level of a document: a scalar, or the parts of an array or an object.
pub enum JsonLayer<'a> {
    Null,
    Bool(bool),
    Number(&'a serde_json::Number),
    Text(&'a String),
    Items(Vec<&'a serde_json::Value>),
    Members(Vec<(&'a String, &'a serde_json::Value)>),
}

/// Whether a layer is the top of a tree.
pub open spec fn tops(layer: JsonLayer<'_>, whole: JsonTree) -> bool {
    match layer {
        JsonLayer::Null => whole is Null,
        JsonLayer::Bool(b) => whole == JsonTree::Bool(b),
        JsonLayer::Number(n) => whole == JsonTree::Number(document_number(*n)),
        JsonLayer::Text(s) => whole == JsonTree::Text(s@),
        JsonLayer::Items(items) => whole matches JsonTree::Items(trees) && trees.len()
            == items@.len() && forall|i: int|
            0 <= i < trees.len() ==> #[trigger] trees[i] == document_tree(*items@[i]),
        JsonLayer::Members(members) => whole matches JsonTree::Members(trees) && trees.len()
            == members@.len() && forall|i: int|
            0 <= i < trees.len() ==> (#[trigger] trees[i]).name == members@[i].0@ && trees[i].value
                == document_tree(*members@[i].1),
    }
}

/// The variants of `serde_json::Value`, each with its fields.
#[verifier::external_body]
fn layer(document: &serde_json::Value) -> (r: JsonLayer<'_>)
    ensures
        tops(r, document_tree(*document)),
{
    match document {
        serde_json::Value::Null => JsonLayer::Null,
        serde_json::Value::Bool(value) => JsonLayer::Bool(*value),
        serde_json::Value::Number(value) => JsonLayer::Number(value),
        serde_json::Value::String(value) => JsonLayer::Text(value),
        serde_json::Value::Array(values) => JsonLayer::Items(values.iter().collect()),
        serde_json::Value::Object(values) => JsonLayer::Members(values.iter().collect()),
    }
}

/// `serde_json::Number::as_u64`: the value of a natural number.
#[verifier::external_body]
fn natural(number: &serde_json::Number) -> (r: Option<u64>)
    ensures
        r == match document_number(*number) {
            JsonNumber::Natural(value) => Some(value),
            _ => None,
        },
{
    number.as_u64()
}

/// `serde_json::Number::as_i64`: the value of an integer that fits.
#[verifier::external_body]
fn integer(number: &serde_json::Number) -> (r: Option<i64>)
    ensures
        r == match document_number(*number) {
            JsonNumber::Natural(value) => if value <= i64::MAX {
                Some(value as i64)
            } else {
                None
            },
            JsonNumber::Negative(value) => Some(value),
            JsonNumber::Double(_) => None,
        },
{
    number.as_i64()
}

/// `serde_json::Number::as_f64`: the bits of a number that is held as a double. What
/// it gives for an integer is not stated.
#[verifier::external_body]
fn double_bits(number: &serde_json::Number) -> (r: Option<u64>)
    ensures
        document_number(*number) matches JsonNumber::Double(value) ==> r == Some(value.bits),
{
    number.as_f64().map(|value| value.to_bits())
}

/// Reads a number out of a document.
fn number_of(number: &serde_json::Number) -> (r: JsonNumber)
    ensures
        r == document_number(*number),
{
    match natural(number) {
        Some(value) => JsonNumber::Natural(value),
        None => match integer(number) {
            Some(value) => JsonNumber::Negative(value),
            None => {
                let bits: u64 = match double_bits(number) {
                    Some(bits) => bits,
                    None => 0,
                };
                JsonNumber::Double(Double { bits })
            },
        },
    }
}

/// Reads a whole document.
fn value_of(document: &serde_json::Value) -> (r: JsonValue)
    ensures
        tree(r) == document_tree(*document),
    decreases document_tree(*document),
{
    let ghost whole = document_tree(*document);
    match layer(document) {
        JsonLayer::Null => JsonValue::Null,
        JsonLayer::Bool(value) => JsonValue::Bool(value),
        JsonLayer::Number(value) => JsonValue::Number(number_of(value)),
        JsonLayer::Text(value) => JsonValue::String(value.clone()),
        JsonLayer::Items(parts) => {
            let ghost trees = whole->Items_0;
            let mut items: Vec<JsonValue> = Vec::new();
            let mut i: usize = 0;
            while i < parts.len()
                invariant
                    i <= parts@.len(),
                    items@.len() == i,
                    whole == document_tree(*document),
                    whole == JsonTree::Items(trees),
                    trees.len() == parts@.len(),
                    forall|j: int|
                        0 <= j < trees.len() ==> #[trigger] trees[j] == document_tree(*parts@[j]),
                    forall|j: int| 0 <= j < i ==> tree(#[trigger] items@[j]) == trees[j],
                decreases parts.len() - i,
            {
                assert(trees[i as int] == document_tree(*parts@[i as int]));
                assert(decreases_to!(whole => whole->Items_0[i as int]));
                items.push(value_of(parts[i]));
                i += 1;
            }
            let r = JsonValue::Array(items);
            assert(tree(r)->Items_0 =~= trees);
            r
        },
        JsonLayer::Members(parts) => {
            let ghost trees = whole->Members_0;
            let mut members: Vec<JsonMember> = Vec::new();
            let mut i: usize = 0;
            while i < parts.len()
                invariant
                    i <= parts@.len(),
                    members@.len() == i,
                    whole == document_tree(*document),
                    whole == JsonTree::Members(trees),
                    trees.len() == parts@.len(),
                    forall|j: int|
                        0 <= j < trees.len() ==> (#[trigger] trees[j]).name == parts@[j].0@
                            && trees[j].value == document_tree(*parts@[j].1),
                    forall|j: int|
                        0 <= j < i ==> (#[trigger] members@[j]).name@ == trees[j].name && tree(
                            members@[j].value,
                        ) == trees[j].value,
                decreases parts.len() - i,
            {
                assert(trees[i as int].value == document_tree(*parts@[i as int].1));
                assert(decreases_to!(whole => whole->Members_0[i as int].value));
                let value = value_of(parts[i].1);
                members.push(JsonMember { name: parts[i].0.clone(), value });
                i += 1;
            }
            let r = JsonValue::Object(members);
            assert(tree(r)->Members_0 =~= trees);
            r
        },
    }
}

/// Reads the JSON document that a text spells, if it spells one.
pub fn parse(text: &str) -> (r: Option<JsonValue>)
    ensures
        match r {
            Some(value) => parsed_tree(text@) == Some(tree(value)),
            None => parsed_tree(text@) is None,
        },
{
    match parse_document(text) {
        Some(document) => Some(value_of(&document)),
        None => None,
    }
}

/// The text that `serde_json` writes for a document.
pub uninterp spec fn rendered(document: JsonTree) -> Seq<char>;

/// Whether a value is a text or an integer.
pub open spec fn is_plain(value: JsonTree) -> bool {
    match value {
        JsonTree::Text(_) => true,
        JsonTree::Number(number) => !(number is Double),
        _ => false,
    }
}

/// Whether a value is an object of texts and integers.
pub open spec fn is_flat(value: JsonTree) -> bool {
    value matches JsonTree::Members(members) && forall|i: int|
        0 <= i < members.len() ==> is_plain((#[trigger] members[i]).value)
}

/// Whether a value is an object of texts, integers and objects of texts and integers.
pub open spec fn is_record(value: JsonTree) -> bool {
    value matches JsonTree::Members(members) && forall|i: int|
        0 <= i < members.len() ==> is_plain((#[trigger] members[i]).value) || is_flat(
            members[i].value,
        )
}

/// The `Display` form of `serde_json::Value`: the document in one line. Reading the text of
/// a record gives the record back.
#[verifier::external_body]
pub(crate) fn document_text(document: &serde_json::Value) -> (r: String)
    ensures
        r@ == rendered(document_tree(*document)),
        is_record(document_tree(*document)) ==> parsed_tree(r@) == Some(document_tree(*document)),
{
    document.to_string()
}

/// `serde_json::Value::from` a text: the text.
#[verifier::external_body]
pub(crate) fn text_document(text: &str) -> (r: serde_json::Value)
    ensures
        document_tree(r) == JsonTree::Text(text@),
{
    serde_json::Value::from(text)
}

/// `serde_json::Value::from` an `i64`: the integer.
#[verifier::external_body]
pub(crate) fn integer_document(value: i64) -> (r: serde_json::Value)
    ensures
        document_tree(r) == JsonTree::Number(integer_number(value)),
{
    serde_json::Value::from(value)
}

/// An integer as a JSON number.
pub open spec fn integer_number(value: i64) -> JsonNumber {
    if value < 0 {
        JsonNumber::Negative(value)
    } else {
        JsonNumber::Natural(value as u64)
    }
}

/// The members of an object.
pub open spec fn members_of(members: Seq<(String, serde_json::Value)>) -> Seq<TreeMember> {
    members.map_values(
        |member: (String, serde_json::Value)|
            TreeMember { name: member.0@, value: document_tree(member.1) },
    )
}

/// `serde_json::Map` collected from pairs, as a `serde_json::Value`: the object of the
/// pairs. It keeps names in ascending order, so pairs in that order stay as they are.
#[verifier::external_body]
pub(crate) fn object_document(members: Vec<(String, serde_json::Value)>) -> (r: serde_json::Value)
    requires
        names::ascending(
            members@.map_values(
                |member: (String, serde_json::Value)| (member.0@, document_tree(member.1)),
            ),
        ),
    ensures
        document_tree(r) == JsonTree::Members(members_of(members@)),
{
    serde_json::Value::Object(members.into_iter().collect())
}

/// An integer is the JSON number of its own value.
pub proof fn law_integers_are_their_numbers(value: i64)
    ensures
        match integer_number(value) {
            JsonNumber::Natural(n) => n as int == value as int,
            JsonNumber::Negative(n) => n as int == value as int && n < 0,
            JsonNumber::Double(_) => false,
        },
{
}

/// A scalar is anything but nothing, a list or an object.
pub proof fn law_scalars_have_no_parts(value: JsonValue)
    ensures
        is_scalar(value) <==> !(value is Null || value is Array || value is Object),
{
}

/// A value's tree has the value's own kind, scalar, parts and names, in the same order.
pub proof fn law_trees_have_the_parts_of_their_value(value: JsonValue, i: int)
    ensures
        match value {
            JsonValue::Null => tree(value) is Null,
            JsonValue::Bool(b) => tree(value) == JsonTree::Bool(b),
            JsonValue::Number(n) => tree(value) == JsonTree::Number(n),
            JsonValue::String(s) => tree(value) == JsonTree::Text(s@),
            JsonValue::Array(items) => tree(value) is Items && tree(value)->Items_0.len()
                == items@.len() && (0 <= i < items@.len() ==> tree(value)->Items_0[i] == tree(
                items@[i],
            )),
            JsonValue::Object(members) => tree(value) is Members && tree(value)->Members_0.len()
                == members@.len() && (0 <= i < members@.len() ==> tree(value)->Members_0[i].name
                == members@[i].name@ && tree(value)->Members_0[i].value == tree(members@[i].value)),
        },
{
}

} // verus!
