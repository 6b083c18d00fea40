//! JSON documents as the library reads and builds them.

use vstd::prelude::*;

verus! {

/// A JSON value.
#[derive(Debug)]
pub enum Json {
    Null,
    Bool(bool),
    /// A number, in its written form.
    Number(String),
    Text(String),
    Array(Vec<Json>),
    Object(Vec<Member>),
}

/// A member of a JSON object.
#[derive(Debug)]
pub struct Member {
    pub name: String,
    pub value: Json,
}

/// What a [`Json`] value holds.
pub enum JsonView {
    Null,
    Bool(bool),
    Number(Seq<char>),
    Text(Seq<char>),
    Array(Seq<JsonView>),
    Object(Seq<MemberView>),
}

/// What a [`Member`] holds.
pub struct MemberView {
    pub name: Seq<char>,
    pub value: JsonView,
}

impl View for Json {
    type V = JsonView;

    open spec fn view(&self) -> JsonView
        decreases self,
    {
        match self {
            Json::Null => JsonView::Null,
            Json::Bool(b) => JsonView::Bool(*b),
            Json::Number(s) => JsonView::Number(s@),
            Json::Text(s) => JsonView::Text(s@),
            Json::Array(items) => JsonView::Array(
                Seq::new(
                    items@.len(),
                    |i: int|
                        if 0 <= i < items@.len() {
                            items@[i].view()
                        } else {
                            JsonView::Null
                        },
                ),
            ),
            Json::Object(fields) => JsonView::Object(
                Seq::new(
                    fields@.len(),
                    |i: int|
                        if 0 <= i < fields@.len() {
                            MemberView {
                                name: fields@[i].name@,
                                value: fields@[i].value.view(),
                            }
                        } else {
                            MemberView { name: Seq::empty(), value: JsonView::Null }
                        },
                ),
            ),
        }
    }
}

/// `serde_json::Value`, a parsed document.
#[verifier::external_type_specification]
#[verifier::external_body]
pub struct ExValue(serde_json::Value);

/// What a `serde_json::Value` holds.
pub uninterp spec fn held_json(value: serde_json::Value) -> JsonView;

/// A `serde_json::Value` taken apart by one level.
enum Parts {
    Null,
    Bool(bool),
    Number(String),
    Text(String),
    Array(Vec<serde_json::Value>),
    Object(Vec<(String, serde_json::Value)>),
}

/// What the parts hold together.
spec fn held_parts(parts: Parts) -> JsonView {
    match parts {
        Parts::Null => JsonView::Null,
        Parts::Bool(b) => JsonView::Bool(b),
        Parts::Number(s) => JsonView::Number(s@),
        Parts::Text(s) => JsonView::Text(s@),
        Parts::Array(items) => JsonView::Array(
            items@.map_values(|item: serde_json::Value| held_json(item)),
        ),
        Parts::Object(fields) => JsonView::Object(
            fields@.map_values(
                |field: (String, serde_json::Value)|
                    MemberView { name: field.0@, value: held_json(field.1) },
            ),
        ),
    }
}

/// The variants of `serde_json::Value`, told apart. The contract claims that a
/// value holds what its parts hold: a number its written form, an array its
/// items in order, and an object its members in the order in which
/// `serde_json::Map` hands them out.
#[verifier::external_body]
fn parts_of(value: serde_json::Value) -> (r: Parts)
    ensures
        held_json(value) == held_parts(r),
{
    match value {
        serde_json::Value::Null => Parts::Null,
        serde_json::Value::Bool(b) => Parts::Bool(b),
        serde_json::Value::Number(n) => Parts::Number(n.to_string()),
        serde_json::Value::String(s) => Parts::Text(s),
        serde_json::Value::Array(items) => Parts::Array(items),
        serde_json::Value::Object(fields) => Parts::Object(fields.into_iter().collect()),
    }
}

/// What `serde_json::from_str` makes of a text: the value that it holds, or the
/// message of the error.
pub uninterp spec fn json_of_text(text: Seq<char>) -> Result<JsonView, Seq<char>>;

/// What `serde_json::from_slice` makes of a sequence of bytes: the value that it
/// holds, or the message of the error.
pub uninterp spec fn json_of_bytes(bytes: Seq<u8>) -> Result<JsonView, Seq<char>>;

/// What an outcome of `serde_json` holds.
spec fn held_outcome(r: Result<serde_json::Value, String>) -> Result<JsonView, Seq<char>> {
    match r {
        Ok(value) => Ok(held_json(value)),
        Err(message) => Err(message@),
    }
}

/// `serde_json::from_str`: parses a text. The contract claims that the outcome
/// is a function of the text; what that function is stays with `serde_json`.
#[verifier::external_body]
fn value_of_text(text: &str) -> (r: Result<serde_json::Value, String>)
    ensures
        held_outcome(r) == json_of_text(text@),
{
    serde_json::from_str(text).map_err(|e| e.to_string())
}

/// `serde_json::from_slice`: parses a sequence of bytes. The contract claims
/// that the outcome is a function of the bytes; what that function is stays with
/// `serde_json`.
#[verifier::external_body]
fn value_of_bytes(bytes: &[u8]) -> (r: Result<serde_json::Value, String>)
    ensures
        held_outcome(r) == json_of_bytes(bytes@),
{
    serde_json::from_slice(bytes).map_err(|e| e.to_string())
}

/// The same document in the form that the library reads.
fn converted(value: serde_json::Value) -> (r: Json)
    ensures
        r@ == held_json(value),
    decreases held_json(value),
{
    let ghost whole = held_json(value);
    match parts_of(value) {
        Parts::Null => Json::Null,
        Parts::Bool(b) => Json::Bool(b),
        Parts::Number(s) => Json::Number(s),
        Parts::Text(s) => Json::Text(s),
        Parts::Array(items) => {
            let ghost all = items@;
            let mut out: Vec<Json> = Vec::new();
            for item in it: items
                invariant
                    it.seq() == all,
                    whole == held_json(value),
                    whole == JsonView::Array(
                        all.map_values(|item: serde_json::Value| held_json(item)),
                    ),
                    out@.len() == it.index(),
                    forall|j: int| 0 <= j < out@.len() ==> (#[trigger] out@[j])@ == held_json(all[j]),
            {
                assert(whole->Array_0[it.index() as int] == held_json(item));
                out.push(converted(item));
            }
            let r = Json::Array(out);
            assert(r@->Array_0 =~= whole->Array_0);
            r
        },
        Parts::Object(fields) => {
            let ghost all = fields@;
            let mut out: Vec<Member> = Vec::new();
            for field in it: fields
                invariant
                    it.seq() == all,
                    whole == held_json(value),
                    whole == JsonView::Object(
                        all.map_values(
                            |field: (String, serde_json::Value)|
                                MemberView { name: field.0@, value: held_json(field.1) },
                        ),
                    ),
                    out@.len() == it.index(),
                    forall|j: int|
                        0 <= j < out@.len() ==> {
                            &&& (#[trigger] out@[j]).name@ == all[j].0@
                            &&& out@[j].value@ == held_json(all[j].1)
                        },
            {
                assert(whole->Object_0[it.index() as int].value == held_json(field.1));
                let (name, inner) = field;
                out.push(Member { name, value: converted(inner) });
            }
            let r = Json::Object(out);
            proof {
                object_view(out@, whole->Object_0, r);
            }
            r
        },
    }
}

/// What a parse gives: a value, or the message that says why there is none.
pub open spec fn parsed(r: Result<Json, String>) -> Result<JsonView, Seq<char>> {
    match r {
        Ok(value) => Ok(value@),
        Err(message) => Err(message@),
    }
}

/// Parses a text.
pub fn parse_text(text: &str) -> (r: Result<Json, String>)
    ensures
        parsed(r) == json_of_text(text@),
{
    match value_of_text(text) {
        Ok(value) => Ok(converted(value)),
        Err(message) => Err(message),
    }
}

/// Parses a sequence of bytes.
pub fn parse_bytes(bytes: &[u8]) -> (r: Result<Json, String>)
    ensures
        parsed(r) == json_of_bytes(bytes@),
{
    match value_of_bytes(bytes) {
        Ok(value) => Ok(converted(value)),
        Err(message) => Err(message),
    }
}

/// The value of the first member with the name `key`.
pub open spec fn lookup(fields: Seq<MemberView>, key: Seq<char>) -> Option<JsonView>
    decreases fields.len(),
{
    if fields.len() == 0 {
        None
    } else if fields[0].name == key {
        Some(fields[0].value)
    } else {
        lookup(fields.skip(1), key)
    }
}

/// The member `key` of a value: only an object has members.
pub open spec fn member(value: JsonView, key: Seq<char>) -> Option<JsonView> {
    match value {
        JsonView::Object(fields) => lookup(fields, key),
        _ => None,
    }
}

/// The member `key` of a value, where that is a text.
pub open spec fn text_member(value: JsonView, key: Seq<char>) -> Option<Seq<char>> {
    match member(value, key) {
        Some(JsonView::Text(s)) => Some(s),
        _ => None,
    }
}

impl Json {
    /// The member `key`, where the value is an object that has it.
    pub fn get(&self, key: &str) -> (r: Option<&Json>)
        ensures
            match r {
                Some(value) => member(self@, key@) == Some(value@),
                None => member(self@, key@) is None,
            },
    {
        match self {
            Json::Object(fields) => {
                let wanted = key.to_owned();
                let ghost shown = self@->Object_0;
                let mut i: usize = 0;
                assert(shown.skip(0) =~= shown);
                while i < fields.len()
                    invariant
                        i <= fields@.len() == shown.len(),
                        wanted@ == key@,
                        self@ == JsonView::Object(shown),
                        forall|j: int|
                            0 <= j < shown.len() ==> #[trigger] shown[j] == (MemberView {
                                name: fields@[j].name@,
                                value: fields@[j].value@,
                            }),
                        lookup(shown, key@) == lookup(shown.skip(i as int), key@),
                    decreases fields@.len() - i,
                {
                    assert(shown.skip(i as int).skip(1) =~= shown.skip(i + 1));
                    assert(shown.skip(i as int)[0] == shown[i as int]);
                    if fields[i].name == wanted {
                        return Some(&fields[i].value);
                    }
                    i += 1;
                }
                None
            },
            _ => None,
        }
    }

    /// The text, where the value is one.
    pub fn as_str(&self) -> (r: Option<&String>)
        ensures
            match r {
                Some(s) => self@ == JsonView::Text(s@),
                None => !(self@ is Text),
            },
    {
        match self {
            Json::Text(s) => Some(s),
            _ => None,
        }
    }

    /// The items, where the value is an array.
    pub fn as_array(&self) -> (r: Option<&Vec<Json>>)
        ensures
            match r {
                Some(items) => self@ == JsonView::Array(items@.map_values(|j: Json| j@)),
                None => !(self@ is Array),
            },
    {
        match self {
            Json::Array(items) => {
                assert(self@->Array_0 =~= items@.map_values(|j: Json| j@));
                Some(items)
            },
            _ => None,
        }
    }

    /// The member `key`, where it is a text.
    pub fn text_at(&self, key: &str) -> (r: Option<&String>)
        ensures
            match r {
                Some(s) => text_member(self@, key@) == Some(s@),
                None => text_member(self@, key@) is None,
            },
    {
        match self.get(key) {
            Some(value) => value.as_str(),
            None => None,
        }
    }
}

/// The view of an object is made of the views of its members.
pub proof fn object_view(fields: Seq<Member>, shown: Seq<MemberView>, j: Json)
    requires
        j is Object,
        j->Object_0@ == fields,
        shown.len() == fields.len(),
        forall|i: int| 0 <= i < fields.len() ==> #[trigger] shown[i] == (MemberView {
                name: fields[i].name@,
                value: fields[i].value@,
            }),
    ensures
        j@ == JsonView::Object(shown),
{
    assert(j@->Object_0 =~= shown);
}

/// The object with the one member `error`.
pub open spec fn error_view(message: Seq<char>) -> JsonView {
    JsonView::Object(seq![MemberView { name: "error"@, value: JsonView::Text(message) }])
}

/// The object `{"error": message}`.
pub fn error_body(message: String) -> (r: Json)
    ensures
        r@ == error_view(message@),
{
    let r = Json::Object(
        vec![Member { name: "error".to_owned(), value: Json::Text(message) }],
    );
    proof {
        object_view(r->Object_0@, error_view(message@)->Object_0, r);
    }
    r
}

} // verus!
