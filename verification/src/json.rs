//! JSON values: the library's own type, its mathematical content, and reading
//! and writing of JSON text.
use vstd::prelude::*;
use crate::text;

verus! {

/// A JSON number: what it is as an unsigned and as a signed 64-bit integer,
/// where it is one, and its JSON text.
#[derive(Debug, PartialEq)]
pub struct JsonNumber {
    pub unsigned: Option<u64>,
    pub signed: Option<i64>,
    pub text: String,
}

/// A JSON value.
#[derive(Debug, PartialEq)]
pub enum Json {
    Null,
    Bool(bool),
    Number(JsonNumber),
    Str(String),
    Array(Vec<Json>),
    Object(Vec<(String, Json)>),
}

/// The content of a JSON number.
#[verifier::ext_equal]
pub struct NumberView {
    pub unsigned: Option<u64>,
    pub signed: Option<i64>,
    pub text: Seq<char>,
}

/// The content of a JSON value.
#[verifier::ext_equal]
pub enum JsonView {
    Null,
    Bool(bool),
    Number(NumberView),
    Str(Seq<char>),
    Array(Seq<JsonView>),
    Object(Seq<(Seq<char>, JsonView)>),
}

impl View for JsonNumber {
    type V = NumberView;

    open spec fn view(&self) -> NumberView {
        NumberView { unsigned: self.unsigned, signed: self.signed, text: self.text@ }
    }
}

/// What a JSON value stands for.
pub open spec fn json_view(j: Json) -> JsonView
    decreases j,
{
    match j {
        Json::Null => JsonView::Null,
        Json::Bool(b) => JsonView::Bool(b),
        Json::Number(n) => JsonView::Number(n@),
        Json::Str(s) => JsonView::Str(s@),
        Json::Array(v) => JsonView::Array(
            Seq::new(
                v@.len(),
                |i: int|
                    if 0 <= i < v@.len() {
                        json_view(v@[i])
                    } else {
                        JsonView::Null
                    },
            ),
        ),
        Json::Object(v) => JsonView::Object(
            Seq::new(
                v@.len(),
                |i: int|
                    if 0 <= i < v@.len() {
                        (v@[i].0@, json_view(v@[i].1))
                    } else {
                        (Seq::empty(), JsonView::Null)
                    },
            ),
        ),
    }
}

impl View for Json {
    type V = JsonView;

    open spec fn view(&self) -> JsonView {
        json_view(*self)
    }
}

impl DeepView for Json {
    type V = JsonView;

    open spec fn deep_view(&self) -> JsonView {
        json_view(*self)
    }
}

/// The content of an array is the content of its items.
pub proof fn array_content(v: Vec<Json>)
    ensures
        Json::Array(v)@ == JsonView::Array(v.deep_view()),
{
    assert(v.deep_view() =~= Json::Array(v)@->Array_0);
}

/// The content of an object is the content of its members.
pub proof fn object_content(v: Vec<(String, Json)>)
    ensures
        Json::Object(v)@ == JsonView::Object(v.deep_view()),
{
    assert(v.deep_view() =~= Json::Object(v)@->Object_0);
}

/// The value of the first member with a given key.
pub open spec fn lookup(members: Seq<(Seq<char>, JsonView)>, key: Seq<char>) -> Option<JsonView>
    decreases members.len(),
{
    if members.len() == 0 {
        None
    } else if members[0].0 == key {
        Some(members[0].1)
    } else {
        lookup(members.skip(1), key)
    }
}

/// What a list with one more member gives a key: what it gave before, or the new
/// member's value where it gave nothing.
proof fn lookup_of_push(members: Seq<(Seq<char>, JsonView)>, last: (Seq<char>, JsonView), key: Seq<char>)
    ensures
        lookup(members.push(last), key) == match lookup(members, key) {
            Some(v) => Some(v),
            None => if last.0 == key {
                Some(last.1)
            } else {
                None
            },
        },
    decreases members.len(),
{
    let all = members.push(last);
    if members.len() == 0 {
        assert(all.skip(1) =~= Seq::empty());
        reveal_with_fuel(lookup, 2);
    } else {
        assert(all[0] == members[0]);
        assert(all.skip(1) =~= members.skip(1).push(last));
        lookup_of_push(members.skip(1), last, key);
    }
}

/// An object with one more member holds that member, where it held none of that key,
/// and every other member that it held.
pub proof fn with_holds(object: JsonView, key: Seq<char>, value: JsonView, other: Seq<char>)
    requires
        object is Object,
    ensures
        object.with(key, value) is Object,
        object.get(key) is None ==> object.with(key, value).get(key) == Some(value),
        other != key ==> object.with(key, value).get(other) == object.get(other),
{
    lookup_of_push(object->Object_0, (key, value), key);
    lookup_of_push(object->Object_0, (key, value), other);
}

impl JsonView {
    /// The member of an object; nothing for another kind of value.
    pub open spec fn get(self, key: Seq<char>) -> Option<JsonView> {
        match self {
            JsonView::Object(m) => lookup(m, key),
            _ => None,
        }
    }

    /// The member of an object, null where it is missing.
    pub open spec fn at(self, key: Seq<char>) -> JsonView {
        match self.get(key) {
            Some(v) => v,
            None => JsonView::Null,
        }
    }

    pub open spec fn as_str(self) -> Option<Seq<char>> {
        match self {
            JsonView::Str(s) => Some(s),
            _ => None,
        }
    }

    pub open spec fn as_bool(self) -> Option<bool> {
        match self {
            JsonView::Bool(b) => Some(b),
            _ => None,
        }
    }

    pub open spec fn as_u64(self) -> Option<u64> {
        match self {
            JsonView::Number(n) => n.unsigned,
            _ => None,
        }
    }

    pub open spec fn as_i64(self) -> Option<i64> {
        match self {
            JsonView::Number(n) => n.signed,
            _ => None,
        }
    }

    pub open spec fn as_array(self) -> Option<Seq<JsonView>> {
        match self {
            JsonView::Array(a) => Some(a),
            _ => None,
        }
    }

    /// The text of a string member.
    pub open spec fn str_at(self, key: Seq<char>) -> Option<Seq<char>> {
        self.at(key).as_str()
    }

    /// The text of a string member that is not empty.
    pub open spec fn filled(self, key: Seq<char>) -> Option<Seq<char>> {
        match self.str_at(key) {
            Some(s) => if s.len() > 0 {
                Some(s)
            } else {
                None
            },
            None => None,
        }
    }

    /// The object without members.
    pub open spec fn empty_object() -> JsonView {
        JsonView::Object(Seq::empty())
    }

    /// An object with one more member at its end.
    pub open spec fn with(self, key: Seq<char>, v: JsonView) -> JsonView {
        match self {
            JsonView::Object(m) => JsonView::Object(m.push((key, v))),
            _ => self,
        }
    }

    /// An object with one more member at its end, where there is a value for it.
    pub open spec fn with_some(self, key: Seq<char>, v: Option<JsonView>) -> JsonView {
        match v {
            Some(value) => self.with(key, value),
            None => self,
        }
    }

    /// A text, or null where there is none.
    pub open spec fn str_or_null(s: Option<Seq<char>>) -> JsonView {
        match s {
            Some(t) => JsonView::Str(t),
            None => JsonView::Null,
        }
    }

    /// An array of texts.
    pub open spec fn strings(list: Seq<Seq<char>>) -> JsonView {
        JsonView::Array(list.map_values(|s: Seq<char>| JsonView::Str(s)))
    }

    /// An unsigned number.
    pub open spec fn of_u64(n: u64) -> JsonView {
        JsonView::Number(
            NumberView {
                unsigned: Some(n),
                signed: if n <= i64::MAX {
                    Some(n as i64)
                } else {
                    None
                },
                text: text::dec(n as nat),
            },
        )
    }
}

impl JsonView {
    /// A signed number.
    pub open spec fn of_i64(n: i64) -> JsonView {
        if n >= 0 {
            JsonView::of_u64(n as u64)
        } else {
            JsonView::Number(
                NumberView {
                    unsigned: None,
                    signed: Some(n),
                    text: text::dec_signed(n as int),
                },
            )
        }
    }
}

impl JsonNumber {
    /// An owned copy.
    pub fn copy(&self) -> (r: JsonNumber)
        ensures
            r@ == self@,
    {
        JsonNumber { unsigned: self.unsigned, signed: self.signed, text: self.text.clone() }
    }
}

/// The texts among the items, in order.
pub open spec fn texts(items: Seq<JsonView>) -> Seq<Seq<char>>
    decreases items.len(),
{
    if items.len() == 0 {
        Seq::empty()
    } else {
        match items.last().as_str() {
            Some(s) => texts(items.drop_last()).push(s),
            None => texts(items.drop_last()),
        }
    }
}

/// The texts that the items have under a key, in order.
pub open spec fn texts_at(items: Seq<JsonView>, key: Seq<char>) -> Seq<Seq<char>>
    decreases items.len(),
{
    if items.len() == 0 {
        Seq::empty()
    } else {
        match items.last().str_at(key) {
            Some(s) => texts_at(items.drop_last(), key).push(s),
            None => texts_at(items.drop_last(), key),
        }
    }
}

/// Collects the texts among the items.
pub fn collect_texts(items: &Vec<Json>) -> (r: Vec<String>)
    ensures
        r.deep_view() == texts(items.deep_view()),
{
    let mut out: Vec<String> = Vec::new();
    let ghost all = items.deep_view();
    assert(out.deep_view() =~= texts(all.take(0)));
    for i in 0..items.len()
        invariant
            all == items.deep_view(),
            out.deep_view() == texts(all.take(i as int)),
    {
        assert(all.take(i + 1).drop_last() =~= all.take(i as int));
        assert(all.take(i + 1).last() == items@[i as int]@);
        if let Some(s) = items[i].as_str() {
            text::push(&mut out, s.to_owned());
        }
    }
    assert(all.take(all.len() as int) =~= all);
    out
}

/// Collects the texts that the items have under a key.
pub fn collect_texts_at(items: &Vec<Json>, key: &str) -> (r: Vec<String>)
    ensures
        r.deep_view() == texts_at(items.deep_view(), key@),
{
    let mut out: Vec<String> = Vec::new();
    let ghost all = items.deep_view();
    assert(out.deep_view() =~= texts_at(all.take(0), key@));
    for i in 0..items.len()
        invariant
            all == items.deep_view(),
            out.deep_view() == texts_at(all.take(i as int), key@),
    {
        assert(all.take(i + 1).drop_last() =~= all.take(i as int));
        assert(all.take(i + 1).last() == items@[i as int]@);
        if let Some(s) = items[i].str_at(key) {
            text::push(&mut out, s.to_owned());
        }
    }
    assert(all.take(all.len() as int) =~= all);
    out
}

/// Copies of the items of an array.
fn copy_items(v: &Vec<Json>) -> (r: Vec<Json>)
    ensures
        r.deep_view() == v.deep_view(),
    decreases v,
{
    let mut out: Vec<Json> = Vec::new();
    for i in 0..v.len()
        invariant
            out.deep_view() == v.deep_view().take(i as int),
    {
        assert(decreases_to!(v@ => v@[i as int]));
        let ghost before = out.deep_view();
        out.push(v[i].copy());
        assert(out.deep_view() =~= before.push(v.deep_view()[i as int]));
        assert(out.deep_view() =~= v.deep_view().take(i + 1));
    }
    assert(v.deep_view().take(v@.len() as int) =~= v.deep_view());
    out
}

/// Copies of the members of an object.
fn copy_members(v: &Vec<(String, Json)>) -> (r: Vec<(String, Json)>)
    ensures
        r.deep_view() == v.deep_view(),
    decreases v,
{
    let mut out: Vec<(String, Json)> = Vec::new();
    for i in 0..v.len()
        invariant
            out.deep_view() == v.deep_view().take(i as int),
    {
        assert(decreases_to!(v@ => v@[i as int]));
        assert(decreases_to!(v@[i as int] => v@[i as int].1));
        let ghost before = out.deep_view();
        out.push((v[i].0.clone(), v[i].1.copy()));
        assert(out.deep_view() =~= before.push(v.deep_view()[i as int]));
        assert(out.deep_view() =~= v.deep_view().take(i + 1));
    }
    assert(v.deep_view().take(v@.len() as int) =~= v.deep_view());
    out
}

impl Json {
    /// An owned copy.
    pub fn copy(&self) -> (r: Json)
        ensures
            r@ == self@,
        decreases self,
    {
        match self {
            Json::Null => Json::Null,
            Json::Bool(b) => Json::Bool(*b),
            Json::Number(n) => Json::Number(n.copy()),
            Json::Str(s) => Json::Str(s.clone()),
            Json::Array(v) => {
                let out = copy_items(v);
                proof {
                    array_content(out);
                    array_content(*v);
                }
                Json::Array(out)
            },
            Json::Object(v) => {
                let out = copy_members(v);
                proof {
                    object_content(out);
                    object_content(*v);
                }
                Json::Object(out)
            },
        }
    }

    /// The object without members.
    pub fn empty_object() -> (r: Json)
        ensures
            r@ == JsonView::empty_object(),
    {
        let v: Vec<(String, Json)> = Vec::new();
        proof {
            object_content(v);
            assert(v.deep_view() =~= Seq::empty());
        }
        Json::Object(v)
    }

    /// An object with one more member at its end; another kind of value as it is.
    pub fn with(self, key: &str, value: Json) -> (r: Json)
        ensures
            r@ == self@.with(key@, value@),
    {
        match self {
            Json::Object(members) => {
                let mut v = members;
                proof {
                    object_content(v);
                }
                let ghost before = v.deep_view();
                v.push((key.to_owned(), value));
                proof {
                    object_content(v);
                    assert(v.deep_view() =~= before.push((key@, value@)));
                }
                Json::Object(v)
            },
            other => other,
        }
    }

    /// An object with one more member at its end, where there is a value for it.
    pub fn with_some(self, key: &str, value: Option<Json>) -> (r: Json)
        ensures
            r@ == self@.with_some(key@, value.deep_view()),
    {
        match value {
            Some(v) => self.with(key, v),
            None => self,
        }
    }

    /// A text, or null where there is none.
    pub fn str_or_null(s: Option<&str>) -> (r: Json)
        ensures
            r@ == JsonView::str_or_null(s.deep_view()),
    {
        match s {
            Some(t) => Json::of_str(t),
            None => Json::Null,
        }
    }

    /// An array of texts.
    pub fn strings(list: &Vec<String>) -> (r: Json)
        ensures
            r@ == JsonView::strings(list.deep_view()),
    {
        let mut out: Vec<Json> = Vec::new();
        let ghost all = list.deep_view().map_values(|s: Seq<char>| JsonView::Str(s));
        for i in 0..list.len()
            invariant
                all == list.deep_view().map_values(|s: Seq<char>| JsonView::Str(s)),
                out.deep_view() == all.take(i as int),
        {
            let ghost before = out.deep_view();
            out.push(Json::of_str(list[i].as_str()));
            assert(out.deep_view() =~= before.push(all[i as int]));
            assert(out.deep_view() =~= all.take(i + 1));
        }
        assert(all.take(list@.len() as int) =~= all);
        Json::of_vec(out)
    }

    /// A string.
    pub fn of_str(s: &str) -> (r: Json)
        ensures
            r@ == JsonView::Str(s@),
    {
        Json::Str(s.to_owned())
    }

    /// An unsigned number.
    pub fn of_u64(n: u64) -> (r: Json)
        ensures
            r@ == JsonView::of_u64(n),
    {
        let signed: Option<i64> = if n <= i64::MAX as u64 {
            Some(n as i64)
        } else {
            None
        };
        Json::Number(JsonNumber { unsigned: Some(n), signed, text: text::dec_u64(n) })
    }

    /// A signed number.
    pub fn of_i64(n: i64) -> (r: Json)
        ensures
            r@ == JsonView::of_i64(n),
    {
        if n >= 0 {
            Json::of_u64(n as u64)
        } else {
            Json::Number(
                JsonNumber { unsigned: None, signed: Some(n), text: text::dec_i64(n) },
            )
        }
    }

    /// An array.
    pub fn of_vec(v: Vec<Json>) -> (r: Json)
        ensures
            r@ == JsonView::Array(v.deep_view()),
    {
        proof {
            array_content(v);
        }
        Json::Array(v)
    }

    /// An array with one item.
    pub fn single(item: Json) -> (r: Json)
        ensures
            r@ == JsonView::Array(seq![item@]),
    {
        let mut v: Vec<Json> = Vec::new();
        v.push(item);
        proof {
            array_content(v);
            assert(v.deep_view() =~= seq![item@]);
        }
        Json::Array(v)
    }

    /// The member of an object; nothing for another kind of value.
    pub fn get(&self, key: &str) -> (r: Option<&Json>)
        ensures
            r.deep_view() == self@.get(key@),
    {
        match self {
            Json::Object(v) => {
                let mut i: usize = 0;
                proof {
                    object_content(*v);
                    assert(v.deep_view().skip(0) =~= v.deep_view());
                }
                while i < v.len()
                    invariant
                        i <= v@.len(),
                        self@ == JsonView::Object(v.deep_view()),
                        v.deep_view().len() == v@.len(),
                        lookup(v.deep_view(), key@) == lookup(v.deep_view().skip(i as int), key@),
                    decreases v.len() - i,
                {
                    let ghost rest = v.deep_view().skip(i as int);
                    assert(rest[0] == (v@[i as int].0@, v@[i as int].1@));
                    if text::same(v[i].0.as_str(), key) {
                        return Some(&v[i].1);
                    }
                    assert(rest.skip(1) =~= v.deep_view().skip(i + 1));
                    i = i + 1;
                }
                None
            },
            _ => None,
        }
    }

    /// The member of an object, null where it is missing.
    pub fn at(&self, key: &str) -> (r: &Json)
        ensures
            r@ == self@.at(key@),
    {
        match self.get(key) {
            Some(v) => v,
            None => &Json::Null,
        }
    }

    /// The text of a string.
    pub fn as_str(&self) -> (r: Option<&str>)
        ensures
            r.deep_view() == self@.as_str(),
    {
        match self {
            Json::Str(s) => Some(s.as_str()),
            _ => None,
        }
    }

    /// The truth value of a boolean.
    pub fn as_bool(&self) -> (r: Option<bool>)
        ensures
            r == self@.as_bool(),
    {
        match self {
            Json::Bool(b) => Some(*b),
            _ => None,
        }
    }

    /// The value of an unsigned integer.
    pub fn as_u64(&self) -> (r: Option<u64>)
        ensures
            r == self@.as_u64(),
    {
        match self {
            Json::Number(n) => n.unsigned,
            _ => None,
        }
    }

    /// The value of a signed integer.
    pub fn as_i64(&self) -> (r: Option<i64>)
        ensures
            r == self@.as_i64(),
    {
        match self {
            Json::Number(n) => n.signed,
            _ => None,
        }
    }

    /// The items of an array.
    pub fn as_array(&self) -> (r: Option<&Vec<Json>>)
        ensures
            r.deep_view() == self@.as_array(),
    {
        match self {
            Json::Array(v) => {
                proof {
                    array_content(*v);
                }
                Some(v)
            },
            _ => None,
        }
    }

    /// Whether the value is null.
    pub fn is_null(&self) -> (r: bool)
        ensures
            r == (self@ == JsonView::Null),
    {
        match self {
            Json::Null => true,
            _ => false,
        }
    }

    /// The text of a string member.
    pub fn str_at(&self, key: &str) -> (r: Option<&str>)
        ensures
            r.deep_view() == self@.str_at(key@),
    {
        self.at(key).as_str()
    }

    /// The text of a string member that is not empty.
    pub fn filled(&self, key: &str) -> (r: Option<&str>)
        ensures
            r.deep_view() == self@.filled(key@),
    {
        match self.str_at(key) {
            Some(s) => if s.is_empty() {
                None
            } else {
                Some(s)
            },
            None => None,
        }
    }

    /// Whether a member is the given text.
    pub fn is(&self, key: &str, text: &str) -> (r: bool)
        ensures
            r == (self@.str_at(key@) == Some(text@)),
    {
        match self.str_at(key) {
            Some(s) => text::same(s, text),
            None => false,
        }
    }
}

/// A value of `serde_json`, as it is handed in and out of that crate.
#[verifier::external_type_specification]
#[verifier::external_body]
pub struct ExValue(serde_json::Value);

/// The JSON value that `serde_json` reads from a text, or its words on why the text
/// is not JSON.
pub uninterp spec fn reading(text: Seq<char>) -> Result<JsonView, Seq<char>>;

/// The JSON value that `serde_json` reads from bytes, if they are JSON in UTF-8.
pub uninterp spec fn reading_bytes(bytes: Seq<u8>) -> Option<JsonView>;

/// The compact JSON text that `serde_json` writes for a value.
pub uninterp spec fn written(value: JsonView) -> Seq<char>;

/// `serde_json::Value` taken apart into the library's own type, one variant for
/// one variant. A number keeps its integer readings (`Number::as_u64`,
/// `Number::as_i64`) and its text.
#[verifier::external_body]
pub(crate) fn from_value(value: serde_json::Value) -> Json {
    match value {
        serde_json::Value::Null => Json::Null,
        serde_json::Value::Bool(b) => Json::Bool(b),
        serde_json::Value::Number(n) => Json::Number(
            JsonNumber { unsigned: n.as_u64(), signed: n.as_i64(), text: n.to_string() },
        ),
        serde_json::Value::String(s) => Json::Str(s),
        serde_json::Value::Array(a) => Json::Array(a.into_iter().map(from_value).collect()),
        serde_json::Value::Object(o) => Json::Object(
            o.into_iter().map(|(k, v)| (k, from_value(v))).collect(),
        ),
    }
}

/// The library's JSON type put together as a `serde_json::Value`, one variant
/// for one variant. A number is read back from its text.
#[verifier::external_body]
pub(crate) fn to_value(json: &Json) -> serde_json::Value {
    match json {
        Json::Null => serde_json::Value::Null,
        Json::Bool(b) => serde_json::Value::Bool(*b),
        Json::Number(n) => serde_json::from_str(&n.text).unwrap_or_default(),
        Json::Str(s) => serde_json::Value::String(s.clone()),
        Json::Array(a) => serde_json::Value::Array(a.iter().map(to_value).collect()),
        Json::Object(o) => serde_json::Value::Object(
            o.iter().map(|(k, v)| (k.clone(), to_value(v))).collect(),
        ),
    }
}

/// `serde_json::from_str`: the value of a JSON text, or the error in words. The result
/// is named `reading`; which texts are JSON is for that crate to say.
#[verifier::external_body]
pub(crate) fn read_json(text: &str) -> (r: Result<Json, String>)
    ensures
        match r {
            Ok(v) => reading(text@) == Ok::<JsonView, Seq<char>>(v@),
            Err(e) => reading(text@) == Err::<JsonView, Seq<char>>(e@),
        },
{
    serde_json::from_str(text).map(from_value).map_err(|e| e.to_string())
}

/// `serde_json::from_slice`: the value of JSON in bytes. The result is named
/// `reading_bytes`; which bytes are JSON is for that crate to say.
#[verifier::external_body]
pub(crate) fn read_bytes(bytes: &Vec<u8>) -> (r: Option<Json>)
    ensures
        r.deep_view() == reading_bytes(bytes@),
{
    serde_json::from_slice(bytes).ok().map(from_value)
}

/// The JSON value of a text, if the text is JSON.
pub open spec fn parsed(text: Seq<char>) -> Option<JsonView> {
    match reading(text) {
        Ok(v) => Some(v),
        Err(_) => None,
    }
}

/// The JSON value of a text, if the text is JSON.
pub(crate) fn read_text(text: &str) -> (r: Option<Json>)
    ensures
        r.deep_view() == parsed(text@),
{
    match read_json(text) {
        Ok(v) => Some(v),
        Err(_) => None,
    }
}

/// `serde_json::Value::to_string`: the compact JSON text of a value. The result
/// is named `written`.
#[verifier::external_body]
pub(crate) fn write_text(json: &Json) -> (r: String)
    ensures
        r@ == written(json@),
{
    to_value(json).to_string()
}

impl Json {
    /// Reads JSON text.
    pub fn parse(text: &str) -> (r: Option<Json>)
        ensures
            r.deep_view() == parsed(text@),
    {
        read_text(text)
    }

    /// Writes JSON text.
    pub fn write(&self) -> (r: String)
        ensures
            r@ == written(self@),
    {
        write_text(self)
    }
}

} // verus!
