//! JSON documents: the library's own tree, and reading and writing it through `serde_json`.
use vstd::prelude::*;

use serde_json::Value;

use crate::text::same_text;

verus! {

/// A JSON document.
///
/// A number is kept as the text that writes it. An object is the list of its fields; where a
/// name occurs more than once the last field counts.
pub enum Json {
    Null,
    Bool(bool),
    Number(String),
    Text(String),
    Array(Vec<Json>),
    Object(Vec<(String, Json)>),
}

/// What a JSON document says.
pub enum JsonView {
    Null,
    Bool(bool),
    Number(Seq<char>),
    Text(Seq<char>),
    Array(Seq<JsonView>),
    Object(Map<Seq<char>, JsonView>),
}

/// The object with these fields: where a name occurs more than once the last field counts.
pub open spec fn object_of(fields: Seq<(Seq<char>, JsonView)>) -> Map<Seq<char>, JsonView>
    decreases fields.len(),
{
    if fields.len() == 0 {
        Map::empty()
    } else {
        object_of(fields.drop_last()).insert(fields.last().0, fields.last().1)
    }
}

impl JsonView {
    /// The field of that name, where this is an object that has one.
    pub open spec fn field(self, name: Seq<char>) -> Option<JsonView> {
        match self {
            JsonView::Object(fields) => if fields.contains_key(name) {
                Some(fields[name])
            } else {
                None
            },
            _ => None,
        }
    }

    /// The text, where this is one.
    pub open spec fn text(self) -> Option<Seq<char>> {
        match self {
            JsonView::Text(text) => Some(text),
            _ => None,
        }
    }

    /// The items: none where this is not an array.
    pub open spec fn items(self) -> Seq<JsonView> {
        match self {
            JsonView::Array(items) => items,
            _ => Seq::empty(),
        }
    }

    /// The text in field `inner` of field `outer`, where there is one.
    pub open spec fn text_within(self, outer: Seq<char>, inner: Seq<char>) -> Option<Seq<char>> {
        match self.field(outer) {
            Some(value) => value.text_field(inner),
            None => None,
        }
    }

    /// Whether the document holds no number and nests its arrays and objects at most `levels` deep.
    pub open spec fn fits(self, levels: nat) -> bool
        decreases levels,
    {
        match self {
            JsonView::Number(_) => false,
            JsonView::Array(items) => levels > 0 && forall|i: int|
                0 <= i < items.len() ==> (#[trigger] items[i]).fits((levels - 1) as nat),
            JsonView::Object(fields) => levels > 0 && forall|name: Seq<char>| #[trigger]
                fields.contains_key(name) ==> fields[name].fits((levels - 1) as nat),
            _ => true,
        }
    }

    /// The text in the field of that name, where there is one.
    pub open spec fn text_field(self, name: Seq<char>) -> Option<Seq<char>> {
        match self.field(name) {
            Some(value) => value.text(),
            None => None,
        }
    }
}

impl Json {
    /// What this document says.
    pub open spec fn tree(self) -> JsonView
        decreases self, 1int,
    {
        match self {
            Json::Null => JsonView::Null,
            Json::Bool(b) => JsonView::Bool(b),
            Json::Number(text) => JsonView::Number(text@),
            Json::Text(text) => JsonView::Text(text@),
            Json::Array(items) => JsonView::Array(
                Seq::new(
                    items@.len(),
                    |i: int|
                        if 0 <= i < items@.len() {
                            items@[i].tree()
                        } else {
                            JsonView::Null
                        },
                ),
            ),
            Json::Object(_) => JsonView::Object(object_of(self.entries())),
        }
    }

    /// The names and what the values say, field by field, where this is an object.
    pub open spec fn entries(self) -> Seq<(Seq<char>, JsonView)>
        decreases self, 0int,
    {
        match self {
            Json::Object(fields) => Seq::new(
                fields@.len(),
                |i: int|
                    if 0 <= i < fields@.len() {
                        (fields@[i].0@, fields@[i].1.tree())
                    } else {
                        (Seq::empty(), JsonView::Null)
                    },
            ),
            _ => Seq::empty(),
        }
    }
}

impl View for Json {
    type V = JsonView;

    open spec fn view(&self) -> JsonView {
        self.tree()
    }
}

/// The fields of an object as names and what their values say.
pub open spec fn fields_of(fields: Seq<(String, Json)>) -> Seq<(Seq<char>, JsonView)> {
    fields.map_values(|field: (String, Json)| (field.0@, field.1@))
}

impl Json {
    /// The field of that name, where this is an object that has one.
    pub fn get(&self, name: &str) -> (found: Option<&Json>)
        ensures
            match found {
                Some(value) => self@.field(name@) == Some(value@),
                None => self@.field(name@) is None,
            },
    {
        match self {
            Json::Object(fields) => {
                let ghost views = fields_of(fields@);
                proof {
                    lemma_object(*fields);
                    assert(views.take(fields@.len() as int) =~= views);
                }
                let mut i: usize = fields.len();
                while i > 0
                    invariant
                        i <= fields@.len(),
                        views == fields_of(fields@),
                        self@ == JsonView::Object(object_of(views)),
                        object_of(views).contains_key(name@) == object_of(
                            views.take(i as int),
                        ).contains_key(name@),
                        object_of(views).contains_key(name@) ==> object_of(views)[name@]
                            == object_of(views.take(i as int))[name@],
                    decreases i,
                {
                    assert(views.take(i as int).drop_last() =~= views.take(i - 1));
                    assert(views.take(i as int).last() == (fields@[i - 1].0@, fields@[i - 1].1@));
                    i -= 1;
                    if same_text(fields[i].0.as_str(), name) {
                        return Some(&fields[i].1);
                    }
                }
                assert(views.take(0) =~= Seq::empty());
                None
            },
            _ => None,
        }
    }

    /// The text, where this is one.
    pub fn as_text(&self) -> (text: Option<&str>)
        ensures
            match text {
                Some(text) => self@.text() == Some(text@),
                None => self@.text() is None,
            },
    {
        match self {
            Json::Text(text) => Some(text.as_str()),
            _ => None,
        }
    }

    /// The items of an array.
    pub fn as_array(&self) -> (items: Option<&Vec<Json>>)
        ensures
            match items {
                Some(items) => self@ == JsonView::Array(items@.map_values(|item: Json| item@)),
                None => !(self@ is Array),
            },
    {
        match self {
            Json::Array(items) => {
                assert(self@->Array_0 =~= items@.map_values(|item: Json| item@));
                Some(items)
            },
            _ => None,
        }
    }

    /// The text in the field of that name, where there is one.
    pub fn text_at(&self, name: &str) -> (text: Option<&str>)
        ensures
            match text {
                Some(text) => self@.text_field(name@) == Some(text@),
                None => self@.text_field(name@) is None,
            },
    {
        match self.get(name) {
            Some(value) => value.as_text(),
            None => None,
        }
    }

    /// The text in field `inner` of field `outer`, where there is one.
    pub fn text_in(&self, outer: &str, inner: &str) -> (text: Option<&str>)
        ensures
            match text {
                Some(text) => self@.text_within(outer@, inner@) == Some(text@),
                None => self@.text_within(outer@, inner@) is None,
            },
    {
        match self.get(outer) {
            Some(value) => value.text_at(inner),
            None => None,
        }
    }

    /// Takes the field of that name out of the document, where it is an object that has one.
    pub fn into_field(self, name: &str) -> (found: Option<Json>)
        ensures
            match found {
                Some(value) => self@.field(name@) == Some(value@),
                None => self@.field(name@) is None,
            },
    {
        match self {
            Json::Object(mut fields) => {
                proof {
                    lemma_object(fields);
                }
                loop
                    invariant
                        self@.field(name@) == JsonView::Object(object_of(fields_of(fields@))).field(
                            name@,
                        ),
                    decreases fields@.len(),
                {
                    let ghost before = fields@;
                    match fields.pop() {
                        Some((key, value)) => {
                            assert(fields_of(before).drop_last() =~= fields_of(fields@));
                            if same_text(key.as_str(), name) {
                                return Some(value);
                            }
                        },
                        None => {
                            assert(fields_of(before) =~= Seq::empty());
                            return None;
                        },
                    }
                }
            },
            _ => None,
        }
    }
}

/// An object says what its fields say.
pub proof fn lemma_object(fields: Vec<(String, Json)>)
    ensures
        Json::Object(fields)@ == JsonView::Object(object_of(fields_of(fields@))),
{
    assert(Json::Object(fields).entries() =~= fields_of(fields@));
}

/// `serde_json`'s own document type.
#[verifier::external_type_specification]
#[verifier::external_body]
pub struct ExValue(serde_json::Value);

/// What a `serde_json` document says.
pub uninterp spec fn json_of(value: Value) -> JsonView;

/// What `serde_json` reads from a text: a document, or the text of its complaint.
pub uninterp spec fn json_read(text: Seq<char>) -> Result<JsonView, Seq<char>>;

/// Whether `serde_json` reads this document from the text.
pub open spec fn reads_as(text: Seq<char>, doc: JsonView) -> bool {
    json_read(text) == Ok::<JsonView, Seq<char>>(doc)
}

/// The text that `serde_json` writes for a document.
pub uninterp spec fn json_written(doc: JsonView) -> Seq<char>;

/// One level of a `serde_json` document.
enum Level {
    Null,
    Bool(bool),
    Number(String),
    Text(String),
    Array(Vec<Value>),
    Object(Vec<(String, Value)>),
}

/// What each of these documents says.
pub open spec fn items_said(items: Seq<Value>) -> Seq<JsonView> {
    items.map_values(|item: Value| json_of(item))
}

/// The names of these fields and what their values say.
pub open spec fn fields_said(fields: Seq<(String, Value)>) -> Seq<(Seq<char>, JsonView)> {
    fields.map_values(|field: (String, Value)| (field.0@, json_of(field.1)))
}

/// No two of these fields have the same name.
pub open spec fn distinct_names(fields: Seq<(String, Value)>) -> bool {
    forall|i: int, j: int|
        0 <= i < j < fields.len() ==> #[trigger] fields[i].0@ != #[trigger] fields[j].0@
}

/// Calls `serde_json::from_str` for a `Value`, and `to_string` on its error. Claims that what comes
/// back, document or complaint, is determined by the text: it is named `json_read`.
#[verifier::external_body]
fn read_value(text: &str) -> (read: Result<Value, String>)
    ensures
        match read {
            Ok(value) => json_read(text@) == Ok::<JsonView, Seq<char>>(json_of(value)),
            Err(complaint) => json_read(text@) == Err::<JsonView, Seq<char>>(complaint@),
        },
{
    match serde_json::from_str::<Value>(text) {
        Ok(value) => Ok(value),
        Err(complaint) => Err(complaint.to_string()),
    }
}

/// Takes a `serde_json::Value` apart by its variant, a number by `to_string` on
/// `serde_json::Number` and an object by `into_iter` on `serde_json::Map`. Claims that the parts are
/// what the document holds, and that an object's fields come with distinct names.
#[verifier::external_body]
fn open_value(value: Value) -> (level: Level)
    ensures
        match level {
            Level::Null => json_of(value) == JsonView::Null,
            Level::Bool(b) => json_of(value) == JsonView::Bool(b),
            Level::Number(text) => json_of(value) == JsonView::Number(text@),
            Level::Text(text) => json_of(value) == JsonView::Text(text@),
            Level::Array(items) => json_of(value) == JsonView::Array(items_said(items@)),
            Level::Object(fields) => {
                &&& json_of(value) == JsonView::Object(object_of(fields_said(fields@)))
                &&& distinct_names(fields@)
            },
        },
{
    match value {
        Value::Null => Level::Null,
        Value::Bool(b) => Level::Bool(b),
        Value::Number(n) => Level::Number(n.to_string()),
        Value::String(text) => Level::Text(text),
        Value::Array(items) => Level::Array(items),
        Value::Object(fields) => Level::Object(fields.into_iter().collect()),
    }
}

/// Makes a `serde_json::Value` of a text. Claims that the document is that text.
#[verifier::external_body]
pub(crate) fn text_value(text: String) -> (value: Value)
    ensures
        json_of(value) == JsonView::Text(text@),
{
    Value::String(text)
}

/// Makes a `serde_json::Value` of a list of documents. Claims that the document is the array of
/// those items, in their order.
#[verifier::external_body]
pub(crate) fn array_value(items: Vec<Value>) -> (value: Value)
    ensures
        json_of(value) == JsonView::Array(items_said(items@)),
{
    Value::Array(items)
}

/// Makes a `serde_json::Value` of a list of fields, collecting them in a `serde_json::Map`. Claims
/// that the document is the object of those fields.
#[verifier::external_body]
pub(crate) fn object_value(fields: Vec<(String, Value)>) -> (value: Value)
    requires
        distinct_names(fields@),
    ensures
        json_of(value) == JsonView::Object(object_of(fields_said(fields@))),
{
    Value::Object(fields.into_iter().collect())
}

/// How deep the documents may nest that `serde_json` reads.
pub open spec fn read_levels() -> nat {
    127
}

/// Calls `to_string` on a `serde_json::Value`, which writes it in the compact form. Claims that the
/// text is determined by what the document says; that it holds no line feed, as the compact form
/// puts no white space between its parts and escapes the control characters of a text; and that
/// `serde_json` reads a document without numbers back from it, unless it nests too deep to be read.
#[verifier::external_body]
pub(crate) fn write_value(value: &Value) -> (text: String)
    ensures
        text@ == json_written(json_of(*value)),
        !text@.contains('\n'),
        json_of(*value).fits(read_levels()) ==> reads_as(text@, json_of(*value)),
{
    value.to_string()
}

/// The document, one level after the other.
fn into_json(value: Value) -> (doc: Json)
    ensures
        doc@ == json_of(value),
    decreases json_of(value),
{
    match open_value(value) {
        Level::Null => Json::Null,
        Level::Bool(b) => Json::Bool(b),
        Level::Number(text) => Json::Number(text),
        Level::Text(text) => Json::Text(text),
        Level::Array(items) => {
            let ghost said = items_said(items@);
            let mut docs: Vec<Json> = Vec::new();
            for item in it: items
                invariant
                    it.seq() == items@,
                    said == items_said(items@),
                    json_of(value) == JsonView::Array(said),
                    docs@.len() == it.index(),
                    forall|i: int| 0 <= i < docs@.len() ==> (#[trigger] docs@[i])@ == said[i],
            {
                assert(item == items@[it.index()]);
                assert(json_of(item) == said[it.index()]);
                assert(json_of(value)->Array_0 == said);
                docs.push(into_json(item));
            }
            let doc = Json::Array(docs);
            assert(doc@->Array_0 =~= said);
            doc
        },
        Level::Object(fields) => {
            let ghost said = fields_said(fields@);
            let mut docs: Vec<(String, Json)> = Vec::new();
            proof {
                lemma_object_has(said);
            }
            for field in it: fields
                invariant
                    it.seq() == fields@,
                    said == fields_said(fields@),
                    json_of(value) == JsonView::Object(object_of(said)),
                    object_of(said).dom().finite(),
                    forall|i: int|
                        0 <= i < said.len() ==> object_of(said).contains_key(
                            (#[trigger] said[i]).0,
                        ) && object_of(said)[said[i].0] == said[i].1,
                    docs@.len() == it.index(),
                    forall|i: int|
                        0 <= i < docs@.len() ==> (#[trigger] docs@[i]).0@ == said[i].0
                            && docs@[i].1@ == said[i].1,
            {
                let ghost i = it.index();
                assert(field == fields@[i]);
                assert(said[i] == (field.0@, json_of(field.1)));
                assert(json_of(value)->Object_0 == object_of(said));
                let (name, inner) = field;
                docs.push((name, into_json(inner)));
            }
            proof {
                lemma_object(docs);
                assert(fields_of(docs@) =~= said);
            }
            Json::Object(docs)
        },
    }
}

/// Adding a field at the end sets it in the object.
pub proof fn lemma_object_push(
    fields: Seq<(Seq<char>, JsonView)>,
    name: Seq<char>,
    value: JsonView,
)
    ensures
        object_of(fields.push((name, value))) == object_of(fields).insert(name, value),
{
    assert(fields.push((name, value)).drop_last() =~= fields);
}

/// Fields with distinct names are all in the object.
proof fn lemma_object_has(fields: Seq<(Seq<char>, JsonView)>)
    requires
        forall|i: int, j: int|
            0 <= i < j < fields.len() ==> (#[trigger] fields[i]).0 != (#[trigger] fields[j]).0,
    ensures
        object_of(fields).dom().finite(),
        forall|i: int|
            0 <= i < fields.len() ==> object_of(fields).contains_key((#[trigger] fields[i]).0)
                && object_of(fields)[fields[i].0] == fields[i].1,
    decreases fields.len(),
{
    if fields.len() > 0 {
        let rest = fields.drop_last();
        assert forall|i: int, j: int| 0 <= i < j < rest.len() implies (#[trigger] rest[i]).0 != (
        #[trigger] rest[j]).0 by {
            assert(rest[i] == fields[i] && rest[j] == fields[j]);
        }
        lemma_object_has(rest);
        assert forall|i: int| 0 <= i < fields.len() implies object_of(fields).contains_key(
            (#[trigger] fields[i]).0,
        ) && object_of(fields)[fields[i].0] == fields[i].1 by {
            if i < rest.len() {
                assert(rest[i] == fields[i]);
                assert(fields[i].0 != fields[fields.len() - 1].0);
            }
        }
    }
}

/// Reads a document from a text.
pub fn read(text: &str) -> (doc: Result<Json, String>)
    ensures
        match doc {
            Ok(doc) => json_read(text@) == Ok::<JsonView, Seq<char>>(doc@),
            Err(complaint) => json_read(text@) == Err::<JsonView, Seq<char>>(complaint@),
        },
{
    match read_value(text) {
        Ok(value) => Ok(into_json(value)),
        Err(complaint) => Err(complaint),
    }
}

} // verus!
