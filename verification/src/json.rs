//! JSON documents.

use serde_json::Value;
use vstd::prelude::*;
use vstd::string::*;

use crate::double::{of_int, Double};
use crate::text::same;

verus! {

/// A number, kept as integer where it was written as one.
#[derive(Clone, Copy, Debug, PartialEq, Eq, Structural)]
pub enum JsonNumber {
    Unsigned(u64),
    Negative(i64),
    Float(Double),
}

/// A JSON document.
#[derive(Debug)]
pub enum Json {
    Null,
    Bool(bool),
    Number(JsonNumber),
    Text(String),
    Array(Vec<Json>),
    Object(Vec<(String, Json)>),
}

/// The contents of a document.
#[verifier::ext_equal]
pub enum JsonView {
    Null,
    Bool(bool),
    Number(JsonNumber),
    Text(Seq<char>),
    Array(Seq<JsonView>),
    Object(Seq<(Seq<char>, JsonView)>),
}

impl Json {
    pub open spec fn view(self) -> JsonView
        decreases self,
    {
        match self {
            Json::Null => JsonView::Null,
            Json::Bool(b) => JsonView::Bool(b),
            Json::Number(n) => JsonView::Number(n),
            Json::Text(s) => JsonView::Text(s@),
            Json::Array(list) => JsonView::Array(
                Seq::new(
                    list@.len(),
                    |i: int|
                        if 0 <= i < list@.len() {
                            list@[i].view()
                        } else {
                            JsonView::Null
                        },
                ),
            ),
            Json::Object(list) => JsonView::Object(
                Seq::new(
                    list@.len(),
                    |i: int|
                        if 0 <= i < list@.len() {
                            (list@[i].0@, list@[i].1.view())
                        } else {
                            (seq![], JsonView::Null)
                        },
                ),
            ),
        }
    }
}

/// The contents of the items of an array.
pub open spec fn item_views(list: Seq<Json>) -> Seq<JsonView> {
    list.map_values(|j: Json| j.view())
}

/// The contents of the fields of an object.
pub open spec fn field_views(list: Seq<(String, Json)>) -> Seq<(Seq<char>, JsonView)> {
    list.map_values(|f: (String, Json)| (f.0@, f.1.view()))
}

/// The fields of an empty object.
pub open spec fn no_fields() -> Seq<(Seq<char>, JsonView)> {
    Seq::empty()
}

/// The items of an empty array.
pub open spec fn no_items() -> Seq<JsonView> {
    Seq::empty()
}

/// The first field at or after position `i` that has the given name.
pub open spec fn find_field(
    fields: Seq<(Seq<char>, JsonView)>,
    name: Seq<char>,
    i: int,
) -> Option<JsonView>
    decreases fields.len() - i,
{
    if i < 0 || i >= fields.len() {
        None
    } else if fields[i].0 == name {
        Some(fields[i].1)
    } else {
        find_field(fields, name, i + 1)
    }
}

/// A field is found at the first place that has its name.
pub proof fn lemma_find_at(
    fields: Seq<(Seq<char>, JsonView)>,
    name: Seq<char>,
    from: int,
    at: int,
)
    requires
        0 <= from <= at < fields.len(),
        fields[at].0 == name,
        forall|i: int| from <= i < at ==> (#[trigger] fields[i]).0 != name,
    ensures
        find_field(fields, name, from) == Some(fields[at].1),
    decreases at - from,
{
    if from < at {
        lemma_find_at(fields, name, from + 1, at);
    }
}

impl JsonView {
    /// The field of an object.
    pub open spec fn field(self, name: Seq<char>) -> Option<JsonView> {
        match self {
            JsonView::Object(fields) => find_field(fields, name, 0),
            _ => None,
        }
    }

    /// The items of an array.
    pub open spec fn items(self) -> Option<Seq<JsonView>> {
        match self {
            JsonView::Array(list) => Some(list),
            _ => None,
        }
    }

    /// The text, where it is one.
    pub open spec fn text(self) -> Option<Seq<char>> {
        match self {
            JsonView::Text(s) => Some(s),
            _ => None,
        }
    }

    /// The number, where it is an integer of 64 bits.
    pub open spec fn integer(self) -> Option<i64> {
        match self {
            JsonView::Number(JsonNumber::Unsigned(n)) if n <= i64::MAX => Some(n as i64),
            JsonView::Number(JsonNumber::Negative(n)) => Some(n),
            _ => None,
        }
    }

    /// The number, where it is one.
    pub open spec fn double(self) -> Option<Double> {
        match self {
            JsonView::Number(JsonNumber::Unsigned(n)) => Some(of_int(n as int)),
            JsonView::Number(JsonNumber::Negative(n)) => Some(of_int(n as int)),
            JsonView::Number(JsonNumber::Float(x)) => Some(x),
            _ => None,
        }
    }
}

/// The field of a field.
pub open spec fn field_of(json: Option<JsonView>, name: Seq<char>) -> Option<JsonView> {
    match json {
        Some(j) => j.field(name),
        None => None,
    }
}

/// The text in a field, where there is one.
pub open spec fn text_of(json: Option<JsonView>) -> Option<Seq<char>> {
    match json {
        Some(j) => j.text(),
        None => None,
    }
}

/// The number in a field, where there is one.
pub open spec fn double_of(json: Option<JsonView>) -> Option<Double> {
    match json {
        Some(j) => j.double(),
        None => None,
    }
}

/// The integer in a field, where there is one.
pub open spec fn integer_of(json: Option<JsonView>) -> Option<i64> {
    match json {
        Some(j) => j.integer(),
        None => None,
    }
}

/// The items in a field, where there are some.
pub open spec fn items_of(json: Option<JsonView>) -> Option<Seq<JsonView>> {
    match json {
        Some(j) => j.items(),
        None => None,
    }
}

/// The contents of an optional document.
pub open spec fn seen(json: Option<&Json>) -> Option<JsonView> {
    match json {
        Some(j) => Some(j.view()),
        None => None,
    }
}

proof fn lemma_array_view(list: Vec<Json>)
    ensures
        Json::Array(list).view() == JsonView::Array(item_views(list@)),
{
    assert(Json::Array(list).view()->Array_0 =~= item_views(list@));
}

proof fn lemma_object_view(list: Vec<(String, Json)>)
    ensures
        Json::Object(list).view() == JsonView::Object(field_views(list@)),
{
    assert(Json::Object(list).view()->Object_0 =~= field_views(list@));
}

impl Json {
    /// A text.
    pub fn text(s: &str) -> (r: Json)
        ensures
            r@ == JsonView::Text(s@),
    {
        Json::Text(s.to_owned())
    }

    /// A number that need not be an integer; what is not finite is written as null.
    pub fn double(x: Double) -> (r: Json)
        ensures
            r@ == float_view(x),
    {
        if x.is_finite_number() {
            Json::Number(JsonNumber::Float(x))
        } else {
            Json::Null
        }
    }

    /// An integer.
    pub fn unsigned(n: u64) -> (r: Json)
        ensures
            r@ == JsonView::Number(JsonNumber::Unsigned(n)),
    {
        Json::Number(JsonNumber::Unsigned(n))
    }

    /// An integer.
    pub fn signed(n: i64) -> (r: Json)
        ensures
            r@ == JsonView::Number(signed_number(n)),
    {
        if n >= 0 {
            Json::Number(JsonNumber::Unsigned(n as u64))
        } else {
            Json::Number(JsonNumber::Negative(n))
        }
    }

    /// Gets a field of an object.
    pub fn get(&self, name: &str) -> (r: Option<&Json>)
        ensures
            seen(r) == self@.field(name@),
    {
        match self {
            Json::Object(list) => {
                proof {
                    lemma_object_view(*list);
                }
                let ghost fields = field_views(list@);
                let mut i: usize = 0;
                while i < list.len()
                    invariant
                        i <= list.len(),
                        fields == field_views(list@),
                        find_field(fields, name@, 0) == find_field(fields, name@, i as int),
                        self@.field(name@) == find_field(fields, name@, 0),
                    decreases list.len() - i,
                {
                    assert(fields[i as int] == (list@[i as int].0@, list@[i as int].1@));
                    if same(list[i].0.as_str(), name) {
                        return Some(&list[i].1);
                    }
                    i = i + 1;
                }
                None
            },
            _ => None,
        }
    }

    /// Gets the text.
    pub fn as_str(&self) -> (r: Option<&str>)
        ensures
            self@.text() == (match r {
                Some(s) => Some(s@),
                None => None,
            }),
    {
        match self {
            Json::Text(s) => Some(s.as_str()),
            _ => None,
        }
    }

    /// Gets the number as a 64-bit integer.
    pub fn as_i64(&self) -> (r: Option<i64>)
        ensures
            r == self@.integer(),
    {
        match self {
            Json::Number(JsonNumber::Unsigned(n)) => if *n <= 0x7fff_ffff_ffff_ffff {
                Some(*n as i64)
            } else {
                None
            },
            Json::Number(JsonNumber::Negative(n)) => Some(*n),
            _ => None,
        }
    }

    /// Gets the number.
    pub fn as_f64(&self) -> (r: Option<Double>)
        ensures
            r == self@.double(),
    {
        match self {
            Json::Number(JsonNumber::Unsigned(n)) => Some(Double::of_u64(*n)),
            Json::Number(JsonNumber::Negative(n)) => Some(Double::of_i64(*n)),
            Json::Number(JsonNumber::Float(x)) => Some(*x),
            _ => None,
        }
    }

    /// Gets the items of an array.
    pub fn as_array(&self) -> (r: Option<&Vec<Json>>)
        ensures
            self@.items() == (match r {
                Some(list) => Some(item_views(list@)),
                None => None,
            }),
    {
        match self {
            Json::Array(list) => {
                proof {
                    lemma_array_view(*list);
                }
                Some(list)
            },
            _ => None,
        }
    }

    /// Whether this is `true`.
    pub fn is_true(&self) -> (r: bool)
        ensures
            r == (self@ == JsonView::Bool(true)),
    {
        match self {
            Json::Bool(b) => *b,
            _ => false,
        }
    }

    /// A document with the same contents.
    pub fn copied(&self) -> (r: Json)
        ensures
            r@ == self@,
        decreases self,
    {
        match self {
            Json::Null => Json::Null,
            Json::Bool(b) => Json::Bool(*b),
            Json::Number(n) => Json::Number(*n),
            Json::Text(s) => Json::Text(s.as_str().to_owned()),
            Json::Array(list) => {
                let mut copy: Vec<Json> = Vec::new();
                let mut i: usize = 0;
                while i < list.len()
                    invariant
                        i <= list.len(),
                        *self == Json::Array(*list),
                        item_views(copy@) =~= item_views(list@).take(i as int),
                    decreases list.len() - i,
                {
                    assert(decreases_to!(*self => self->Array_0));
                    assert(decreases_to!(self->Array_0 => self->Array_0@));
                    assert(decreases_to!(self->Array_0@ => self->Array_0@[i as int]));
                    let item: Json = list[i].copied();
                    let ghost before = item_views(copy@);
                    copy.push(item);
                    assert(item_views(copy@) =~= before.push(item@));
                    assert(item_views(list@).take(i + 1) =~= item_views(list@).take(i as int).push(
                        list@[i as int]@,
                    ));
                    i = i + 1;
                }
                proof {
                    assert(item_views(copy@) =~= item_views(list@));
                    lemma_array_view(*list);
                    lemma_array_view(copy);
                }
                Json::Array(copy)
            },
            Json::Object(list) => {
                let mut copy: Vec<(String, Json)> = Vec::new();
                let mut i: usize = 0;
                while i < list.len()
                    invariant
                        i <= list.len(),
                        *self == Json::Object(*list),
                        field_views(copy@) =~= field_views(list@).take(i as int),
                    decreases list.len() - i,
                {
                    assert(decreases_to!(*self => self->Object_0));
                    assert(decreases_to!(self->Object_0 => self->Object_0@));
                    assert(decreases_to!(self->Object_0@ => self->Object_0@[i as int]));
                    assert(decreases_to!(self->Object_0@[i as int] => self->Object_0@[i as int].1));
                    let value: Json = list[i].1.copied();
                    let ghost before = field_views(copy@);
                    copy.push((list[i].0.as_str().to_owned(), value));
                    assert(field_views(copy@) =~= before.push((list@[i as int].0@, value@)));
                    assert(field_views(list@).take(i + 1) =~= field_views(list@).take(
                        i as int,
                    ).push((list@[i as int].0@, list@[i as int].1@)));
                    i = i + 1;
                }
                proof {
                    assert(field_views(copy@) =~= field_views(list@));
                    lemma_object_view(*list);
                    lemma_object_view(copy);
                }
                Json::Object(copy)
            },
        }
    }
}

/// Gets a field of a field.
pub fn get_in<'a>(json: Option<&'a Json>, name: &str) -> (r: Option<&'a Json>)
    ensures
        seen(r) == field_of(seen(json), name@),
{
    match json {
        Some(j) => j.get(name),
        None => None,
    }
}

/// A number that need not be an integer; what is not finite is null.
pub open spec fn float_view(x: Double) -> JsonView {
    if x.is_finite() {
        JsonView::Number(JsonNumber::Float(x))
    } else {
        JsonView::Null
    }
}

/// An integer as a number.
pub open spec fn signed_number(n: i64) -> JsonNumber {
    if n >= 0 {
        JsonNumber::Unsigned(n as u64)
    } else {
        JsonNumber::Negative(n)
    }
}

/// An object being put together.
#[derive(Debug)]
pub struct Fields {
    list: Vec<(String, Json)>,
}

impl View for Fields {
    type V = Seq<(Seq<char>, JsonView)>;

    closed spec fn view(&self) -> Seq<(Seq<char>, JsonView)> {
        field_views(self.list@)
    }
}

impl Fields {
    /// No fields.
    pub fn new() -> (r: Fields)
        ensures
            r@ == no_fields(),
    {
        let r: Fields = Fields { list: Vec::new() };
        assert(r@ =~= no_fields());
        r
    }

    /// One field more.
    pub fn with(self, name: &str, value: Json) -> (r: Fields)
        ensures
            r@ == self@.push((name@, value@)),
    {
        let ghost before = self@;
        let mut list: Vec<(String, Json)> = self.list;
        list.push((name.to_owned(), value));
        let r: Fields = Fields { list };
        assert(r@ =~= before.push((name@, value@)));
        r
    }

    /// The object.
    pub fn done(self) -> (r: Json)
        ensures
            r@ == JsonView::Object(self@),
    {
        proof {
            lemma_object_view(self.list);
        }
        Json::Object(self.list)
    }
}

/// An array being put together.
#[derive(Debug)]
pub struct Items {
    list: Vec<Json>,
}

impl View for Items {
    type V = Seq<JsonView>;

    closed spec fn view(&self) -> Seq<JsonView> {
        item_views(self.list@)
    }
}

impl Items {
    /// No items.
    pub fn new() -> (r: Items)
        ensures
            r@ == no_items(),
    {
        let r: Items = Items { list: Vec::new() };
        assert(r@ =~= no_items());
        r
    }

    /// One item more.
    pub fn with(self, item: Json) -> (r: Items)
        ensures
            r@ == self@.push(item@),
    {
        let ghost before = self@;
        let mut list: Vec<Json> = self.list;
        list.push(item);
        let r: Items = Items { list };
        assert(r@ =~= before.push(item@));
        r
    }

    /// The array.
    pub fn done(self) -> (r: Json)
        ensures
            r@ == JsonView::Array(self@),
    {
        proof {
            lemma_array_view(self.list);
        }
        Json::Array(self.list)
    }
}

/// A document as `serde_json` holds it.
#[verifier::external_type_specification]
#[verifier::external_body]
pub struct ExValue(serde_json::Value);

/// What a document of `serde_json` holds.
pub uninterp spec fn value_view(value: serde_json::Value) -> JsonView;

/// What a text is as JSON, or why it is none.
pub uninterp spec fn parsed_json(text: Seq<char>) -> Result<JsonView, Seq<char>>;

/// How a document is written in one line.
pub uninterp spec fn printed_json(json: JsonView) -> Seq<char>;

/// A document of `serde_json`, taken apart at the top.
enum Node<'a> {
    Null,
    Bool(bool),
    Number(JsonNumber),
    Text(&'a String),
    Array(&'a Vec<Value>),
    Object(Vec<(&'a String, &'a Value)>),
}

impl<'a> Node<'a> {
    /// What the document holds.
    spec fn contents(self) -> JsonView {
        match self {
            Node::Null => JsonView::Null,
            Node::Bool(b) => JsonView::Bool(b),
            Node::Number(n) => JsonView::Number(n),
            Node::Text(s) => JsonView::Text(s@),
            Node::Array(list) => JsonView::Array(list@.map_values(|v: Value| value_view(v))),
            Node::Object(list) => JsonView::Object(
                list@.map_values(|f: (&'a String, &'a Value)| (f.0@, value_view(*f.1))),
            ),
        }
    }
}

/// Calls `serde_json::from_str`.
///
/// Claims that the document, or the error in words, depends on the text alone; which texts are JSON
/// is not written out.
#[verifier::external_body]
pub(crate) fn parse_value(text: &str) -> (r: Result<Value, String>)
    ensures
        parsed_json(text@) == (match r {
            Ok(value) => Ok::<JsonView, Seq<char>>(value_view(value)),
            Err(e) => Err::<JsonView, Seq<char>>(e@),
        }),
{
    serde_json::from_str::<Value>(text).map_err(|e| e.to_string())
}

/// Calls `serde_json::Value::to_string`, which its `Display` gives.
///
/// Claims that the text depends on what the document holds alone; how documents are written is not
/// written out.
#[verifier::external_body]
pub(crate) fn print_value(value: &Value) -> (r: String)
    ensures
        r@ == printed_json(value_view(*value)),
{
    value.to_string()
}

/// Takes a `serde_json::Value` apart: its variants one for one, a number by `Number::as_u64`,
/// `Number::as_i64` and `Number::as_f64`.
///
/// Claims that the parts are what the document holds. A number is unsigned, negative or else a
/// float, which is given by its bits; the fields of an object come in the order in which they are
/// walked, which is that of their names.
#[verifier::external_body]
fn open_value<'a>(value: &'a Value) -> (r: Node<'a>)
    ensures
        r.contents() == value_view(*value),
{
    match value {
        Value::Null => Node::Null,
        Value::Bool(b) => Node::Bool(*b),
        Value::Number(n) => Node::Number(
            n.as_u64().map(JsonNumber::Unsigned)
                .or_else(|| n.as_i64().map(JsonNumber::Negative))
                .or_else(|| n.as_f64().map(|x| JsonNumber::Float(Double { bits: x.to_bits() })))
                .unwrap(),
        ),
        Value::String(s) => Node::Text(s),
        Value::Array(list) => Node::Array(list),
        Value::Object(map) => Node::Object(map.iter().collect()),
    }
}

/// Converts a document of `serde_json`.
pub(crate) fn from_value(value: &Value) -> (r: Json)
    ensures
        r@ == value_view(*value),
    decreases value_view(*value),
{
    let ghost whole = value_view(*value);
    match open_value(value) {
        Node::Null => Json::Null,
        Node::Bool(b) => Json::Bool(b),
        Node::Number(n) => Json::Number(n),
        Node::Text(s) => Json::Text(s.as_str().to_owned()),
        Node::Array(list) => {
            let ghost items = list@.map_values(|v: Value| value_view(v));
            let mut r: Items = Items::new();
            let mut i: usize = 0;
            assert(items.take(0) =~= no_items());
            while i < list.len()
                invariant
                    i <= list.len(),
                    items == list@.map_values(|v: Value| value_view(v)),
                    whole == JsonView::Array(items),
                    whole == value_view(*value),
                    r@ == items.take(i as int),
                decreases list.len() - i,
            {
                assert(items[i as int] == value_view(list@[i as int]));
                assert(decreases_to!(whole => whole->Array_0));
                assert(decreases_to!(whole->Array_0 => whole->Array_0[i as int]));
                r = r.with(from_value(&list[i]));
                assert(items.take(i + 1) =~= items.take(i as int).push(items[i as int]));
                i = i + 1;
            }
            assert(items.take(i as int) =~= items);
            r.done()
        },
        Node::Object(list) => {
            let ghost fields = list@.map_values(
                |f: (&String, &Value)| (f.0@, value_view(*f.1)),
            );
            let mut r: Fields = Fields::new();
            let mut i: usize = 0;
            assert(fields.take(0) =~= no_fields());
            while i < list.len()
                invariant
                    i <= list.len(),
                    fields == list@.map_values(|f: (&String, &Value)| (f.0@, value_view(*f.1))),
                    whole == JsonView::Object(fields),
                    whole == value_view(*value),
                    r@ == fields.take(i as int),
                decreases list.len() - i,
            {
                assert(fields[i as int].1 == value_view(*list@[i as int].1));
                assert(decreases_to!(whole => whole->Object_0));
                assert(decreases_to!(whole->Object_0 => whole->Object_0[i as int]));
                assert(decreases_to!(whole->Object_0[i as int] => whole->Object_0[i as int].1));
                r = r.with(list[i].0.as_str(), from_value(list[i].1));
                assert(fields.take(i + 1) =~= fields.take(i as int).push(fields[i as int]));
                i = i + 1;
            }
            assert(fields.take(i as int) =~= fields);
            r.done()
        },
    }
}

/// Gets a field of a document that is an object.
pub(crate) fn value_field<'a>(value: &'a Value, name: &str) -> (r: Option<&'a Value>)
    ensures
        value_view(*value).field(name@) == (match r {
            Some(v) => Some(value_view(*v)),
            None => None,
        }),
{
    match open_value(value) {
        Node::Object(list) => {
            let ghost fields = list@.map_values(
                |f: (&String, &Value)| (f.0@, value_view(*f.1)),
            );
            let mut i: usize = 0;
            while i < list.len()
                invariant
                    i <= list.len(),
                    fields == list@.map_values(|f: (&String, &Value)| (f.0@, value_view(*f.1))),
                    value_view(*value).field(name@) == find_field(fields, name@, i as int),
                decreases list.len() - i,
            {
                assert(fields[i as int] == (list@[i as int].0@, value_view(*list@[i as int].1)));
                if same(list[i].0.as_str(), name) {
                    return Some(list[i].1);
                }
                i = i + 1;
            }
            None
        },
        _ => None,
    }
}

/// Gets the items of a document that is an array.
pub(crate) fn value_items<'a>(value: &'a Value) -> (r: Option<&'a Vec<Value>>)
    ensures
        value_view(*value).items() == (match r {
            Some(list) => Some(list@.map_values(|v: Value| value_view(v))),
            None => None,
        }),
{
    match open_value(value) {
        Node::Array(list) => Some(list),
        _ => None,
    }
}

/// Whether a document is a number that is not an integer.
pub(crate) fn is_fraction(value: &Value) -> (r: bool)
    ensures
        r == (value_view(*value) matches JsonView::Number(JsonNumber::Float(_))),
{
    match open_value(value) {
        Node::Number(JsonNumber::Float(_)) => true,
        _ => false,
    }
}

/// Reads a text as JSON, or tells why it is none.
pub fn parse_json(text: &str) -> (r: Result<Json, String>)
    ensures
        parsed_json(text@) == (match r {
            Ok(json) => Ok::<JsonView, Seq<char>>(json@),
            Err(e) => Err::<JsonView, Seq<char>>(e@),
        }),
{
    match parse_value(text) {
        Ok(value) => Ok(from_value(&value)),
        Err(e) => Err(e),
    }
}

/// Numbers are read from a document as they were put into it.
pub proof fn lemma_numbers_come_back(x: Double, n: i64)
    ensures
        x.is_finite() ==> float_view(x).double() == Some(x),
        !x.is_finite() ==> float_view(x).double() is None,
        JsonView::Number(signed_number(n)).integer() == Some(n),
        JsonView::Number(signed_number(n)).double() == Some(of_int(n as int)),
{
}

/// Only the kind of value that is asked for is found.
pub proof fn lemma_kinds_differ(json: JsonView)
    ensures
        json.text() is Some ==> json.double() is None && json.items() is None && json.integer()
            is None,
        json.items() is Some ==> json.double() is None && json.integer() is None,
        json.integer() matches Some(n) ==> json.double() == Some(of_int(n as int)),
        forall|name: Seq<char>| #[trigger]
            json.field(name) is Some ==> json.text() is None && json.items() is None
                && json.double() is None,
{
}

} // verus!
