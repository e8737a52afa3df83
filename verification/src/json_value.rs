//! JSON documents read and written through `serde_json`, seen as plain
//! values: a document's top level, with the items of an array and the
//! members of an object as the text `serde_json` writes for each; objects
//! of scalar members and arrays of them are written back.
use vstd::prelude::*;
use serde_json::Value;
use crate::numbers::{parse_i64, spec_parse_i64};
use crate::pi_types::opt_str;

verus! {

/// A JSON scalar as the library reads and writes it.
pub enum JsonScalar {
    Int(i64),
    Str(String),
    Other,
}

pub enum JsonScalarView {
    Int(i64),
    Str(Seq<char>),
    Other,
}

impl View for JsonScalar {
    type V = JsonScalarView;

    open spec fn view(&self) -> JsonScalarView {
        match self {
            JsonScalar::Int(n) => JsonScalarView::Int(*n),
            JsonScalar::Str(s) => JsonScalarView::Str(s@),
            JsonScalar::Other => JsonScalarView::Other,
        }
    }
}

pub open spec fn opt_scalar(o: Option<JsonScalar>) -> Option<JsonScalarView> {
    match o {
        Some(x) => Some(x@),
        None => None,
    }
}

/// A parsed JSON document: a scalar, or the items of an array or the
/// members of an object (in the order `serde_json` keeps them), each as
/// the text `serde_json` writes for it.  A number is kept as its text.
pub enum JsonDoc {
    Null,
    Bool(bool),
    Number(String),
    Str(String),
    Array(Vec<String>),
    Object(Vec<(String, String)>),
}

pub enum JsonDocView {
    Null,
    Bool(bool),
    Number(Seq<char>),
    Str(Seq<char>),
    Array(Seq<Seq<char>>),
    Object(Seq<(Seq<char>, Seq<char>)>),
}

pub open spec fn texts_view(v: Seq<String>) -> Seq<Seq<char>> {
    v.map_values(|s: String| s@)
}

pub open spec fn pairs_view(v: Seq<(String, String)>) -> Seq<(Seq<char>, Seq<char>)> {
    v.map_values(|p: (String, String)| (p.0@, p.1@))
}

impl View for JsonDoc {
    type V = JsonDocView;

    open spec fn view(&self) -> JsonDocView {
        match self {
            JsonDoc::Null => JsonDocView::Null,
            JsonDoc::Bool(b) => JsonDocView::Bool(*b),
            JsonDoc::Number(t) => JsonDocView::Number(t@),
            JsonDoc::Str(s) => JsonDocView::Str(s@),
            JsonDoc::Array(xs) => JsonDocView::Array(texts_view(xs@)),
            JsonDoc::Object(ms) => JsonDocView::Object(pairs_view(ms@)),
        }
    }
}

pub open spec fn opt_doc(o: Option<JsonDoc>) -> Option<JsonDocView> {
    match o {
        Some(d) => Some(d@),
        None => None,
    }
}

/// Name for what `serde_json` reads from `text`: the document and the text
/// `Value::to_string` writes for it, or, when `text` is not JSON, the
/// message (`Display` text) of the error `serde_json` gives.
pub uninterp spec fn json_read(text: Seq<char>) -> Result<(JsonDocView, Seq<char>), Seq<char>>;

/// A parse result by its view.
pub open spec fn read_view(r: Result<(JsonDoc, String), String>) -> Result<(JsonDocView, Seq<char>), Seq<char>> {
    match r {
        Ok((d, t)) => Ok((d@, t@)),
        Err(m) => Err(m@),
    }
}

/// Parses a JSON document (`serde_json::from_str::<Value>`) and writes it
/// back (`Value::to_string`); the items of an array and the members of an
/// object are written back one by one, a number with `Number::to_string`.
/// A failure is returned as the message of `serde_json`'s error.
///
/// Trusted: the result is `json_read(text)`.
#[verifier::external_body]
pub(crate) fn parse_json(text: &str) -> (r: Result<(JsonDoc, String), String>)
    ensures
        read_view(r) == json_read(text@),
{
    let v: Value = match serde_json::from_str(text) {
        Ok(v) => v,
        Err(e) => return Err(e.to_string()),
    };
    let canonical = v.to_string();
    let doc = match v {
        Value::Null => JsonDoc::Null,
        Value::Bool(b) => JsonDoc::Bool(b),
        Value::Number(n) => JsonDoc::Number(n.to_string()),
        Value::String(s) => JsonDoc::Str(s),
        Value::Array(xs) => JsonDoc::Array(xs.iter().map(|x| x.to_string()).collect()),
        Value::Object(m) => JsonDoc::Object(m.iter().map(|(k, v)| (k.clone(), v.to_string())).collect()),
    };
    Ok((doc, canonical))
}

/// The message of the error `serde_json` gives for `text` (empty when
/// `text` is JSON).
pub open spec fn json_error(text: Seq<char>) -> Seq<char> {
    match json_read(text) {
        Ok(_) => Seq::empty(),
        Err(m) => m,
    }
}

/// What `serde_json` reads from `text`, if it is JSON.
pub open spec fn json_doc(text: Seq<char>) -> Option<JsonDocView> {
    match json_read(text) {
        Ok((d, _)) => Some(d),
        Err(_) => None,
    }
}

/// The text `serde_json` writes for the document in `text`, if it is JSON.
pub open spec fn json_canonical(text: Seq<char>) -> Option<Seq<char>> {
    match json_read(text) {
        Ok((_, t)) => Some(t),
        Err(_) => None,
    }
}

/// Reads a JSON document (see `json_doc`).
pub(crate) fn parse_json_doc(text: &str) -> (r: Option<JsonDoc>)
    ensures
        opt_doc(r) == json_doc(text@),
{
    match parse_json(text) {
        Ok((d, _)) => Some(d),
        Err(_) => None,
    }
}

/// The value text of the first member named `key`.
pub open spec fn find_member(ms: Seq<(Seq<char>, Seq<char>)>, key: Seq<char>) -> Option<Seq<char>>
    decreases ms.len(),
{
    if ms.len() == 0 {
        None
    } else if ms[0].0 == key {
        Some(ms[0].1)
    } else {
        find_member(ms.skip(1), key)
    }
}

/// A value's text read as a scalar: a string, a number that is an `i64`
/// (`Value::as_i64`), or `Other`.
pub open spec fn scalar_of(t: Seq<char>) -> JsonScalarView {
    match json_doc(t) {
        Some(JsonDocView::Str(s)) => JsonScalarView::Str(s),
        Some(JsonDocView::Number(n)) => match spec_parse_i64(n) {
            Some(v) => JsonScalarView::Int(v),
            None => JsonScalarView::Other,
        },
        _ => JsonScalarView::Other,
    }
}

/// The member `key` of the JSON object in `text` (`Value::get`): `None`
/// when `text` is not JSON, not an object, or has no such member.
pub open spec fn json_member(text: Seq<char>, key: Seq<char>) -> Option<JsonScalarView> {
    match json_doc(text) {
        Some(JsonDocView::Object(ms)) => match find_member(ms, key) {
            Some(t) => Some(scalar_of(t)),
            None => None,
        },
        _ => None,
    }
}

fn find_member_exec(ms: &Vec<(String, String)>, key: &str) -> (r: Option<usize>)
    ensures
        match r {
            Some(i) => i < ms.len() && find_member(pairs_view(ms@), key@) == Some(ms@[i as int].1@),
            None => find_member(pairs_view(ms@), key@) is None,
        },
{
    let ghost mv = pairs_view(ms@);
    let k = key.to_string();
    let mut i: usize = 0;
    assert(mv.skip(0) =~= mv);
    while i < ms.len()
        invariant
            i <= ms.len(),
            mv == pairs_view(ms@),
            k@ == key@,
            find_member(mv, key@) == find_member(mv.skip(i as int), key@),
        decreases ms.len() - i,
    {
        assert(mv.skip(i as int)[0] == mv[i as int]);
        assert(mv[i as int] == (ms@[i as int].0@, ms@[i as int].1@));
        if ms[i].0 == k {
            return Some(i);
        }
        assert(mv.skip(i as int).skip(1) =~= mv.skip(i + 1));
        i += 1;
    }
    None
}

fn scalar_of_exec(t: &str) -> (r: JsonScalar)
    ensures
        r@ == scalar_of(t@),
{
    match parse_json_doc(t) {
        Some(JsonDoc::Str(s)) => JsonScalar::Str(s),
        Some(JsonDoc::Number(n)) => match parse_i64(n.as_str()) {
            Some(v) => JsonScalar::Int(v),
            None => JsonScalar::Other,
        },
        _ => JsonScalar::Other,
    }
}

/// Reads the member `key` of the JSON document `text` (see `json_member`).
pub fn json_member_of(text: &str, key: &str) -> (r: Option<JsonScalar>)
    ensures
        opt_scalar(r) == json_member(text@, key@),
{
    match parse_json_doc(text) {
        Some(JsonDoc::Object(ms)) => match find_member_exec(&ms, key) {
            Some(i) => Some(scalar_of_exec(ms[i].1.as_str())),
            None => None,
        },
        _ => None,
    }
}

/// Name for the text of the JSON value in `text` after its member `key`
/// is set to the string `value`.
pub uninterp spec fn json_inserted(text: Seq<char>, key: Seq<char>, value: Seq<char>) -> Seq<char>;

/// Sets a string member (`serde_json::from_str::<Value>`, the index
/// assignment of `Value`, then `Value::to_string`); the value must be an
/// object or `null`, which becomes an object.
///
/// Trusted: the result is `json_inserted(text, key, value)`.
#[verifier::external_body]
fn json_insert_of(text: &str, key: &str, value: &str) -> (r: String)
    requires
        json_doc(text@) matches Some(JsonDocView::Object(_)) || json_doc(text@) == Some(JsonDocView::Null),
    ensures
        r@ == json_inserted(text@, key@, value@),
{
    let mut v: serde_json::Value = serde_json::from_str(text).unwrap_or_default();
    v[key] = serde_json::Value::String(value.to_string());
    v.to_string()
}

/// The text of the JSON object in `text` with the string member `key` set
/// to `value`, where `text` holds an object or `null`; `None` for other text.
pub open spec fn json_with_member(text: Seq<char>, key: Seq<char>, value: Seq<char>) -> Option<Seq<char>> {
    if json_doc(text) matches Some(JsonDocView::Object(_)) || json_doc(text) == Some(JsonDocView::Null) {
        Some(json_inserted(text, key, value))
    } else {
        None
    }
}

/// Sets a string member of a JSON object given as text (see `json_with_member`).
pub fn json_set_member(text: &str, key: &str, value: &str) -> (r: Option<String>)
    ensures
        opt_str(r) == json_with_member(text@, key@, value@),
{
    match parse_json_doc(text) {
        Some(JsonDoc::Object(_)) | Some(JsonDoc::Null) => Some(json_insert_of(text, key, value)),
        _ => None,
    }
}

pub open spec fn fields_view(v: Seq<(String, JsonScalar)>) -> Seq<(Seq<char>, JsonScalarView)> {
    v.map_values(|f: (String, JsonScalar)| (f.0@, f.1@))
}

/// Whether no key occurs twice.
pub open spec fn distinct_keys(fields: Seq<(Seq<char>, JsonScalarView)>) -> bool {
    forall|i: int, j: int| 0 <= i < j < fields.len() ==> fields[i].0 != fields[j].0
}

/// Whether `key` is one of the keys.
pub open spec fn has_key(fields: Seq<(Seq<char>, JsonScalarView)>, key: Seq<char>) -> bool {
    exists|i: int| 0 <= i < fields.len() && fields[i].0 == key
}

pub open spec fn objects_view(v: Seq<Vec<(String, JsonScalar)>>) -> Seq<Seq<(Seq<char>, JsonScalarView)>> {
    v.map_values(|o: Vec<(String, JsonScalar)>| fields_view(o@))
}

/// A value the library writes as JSON: a string, an object of scalar
/// members (`Other` is written as `null`), or an array of such objects.
pub enum JsonOut {
    Str(String),
    Object(Vec<(String, JsonScalar)>),
    Array(Vec<Vec<(String, JsonScalar)>>),
}

pub enum JsonOutView {
    Str(Seq<char>),
    Object(Seq<(Seq<char>, JsonScalarView)>),
    Array(Seq<Seq<(Seq<char>, JsonScalarView)>>),
}

impl View for JsonOut {
    type V = JsonOutView;

    open spec fn view(&self) -> JsonOutView {
        match self {
            JsonOut::Str(s) => JsonOutView::Str(s@),
            JsonOut::Object(f) => JsonOutView::Object(fields_view(f@)),
            JsonOut::Array(items) => JsonOutView::Array(objects_view(items@)),
        }
    }
}

/// Name for the text `serde_json` writes for a value (`Value::to_string`
/// of the `Value` built from it; an object is a `serde_json::Map`).
pub uninterp spec fn json_text(v: JsonOutView) -> Seq<char>;

/// Writes a value as JSON text.
///
/// Trusted: the result is `json_text(v)`.  An object's text starts with
/// '{', and when no key occurs twice, reading it back gives each string or
/// integer member, and no member for another key.
#[verifier::external_body]
fn json_write(v: JsonOut) -> (r: String)
    ensures
        r@ == json_text(v@),
        v@ matches JsonOutView::Object(f) ==> r@.len() > 0 && r@[0] == '{',
        v@ matches JsonOutView::Object(f) ==> (distinct_keys(f) ==> forall|i: int|
            0 <= i < f.len() && !(f[i].1 is Other) ==> json_member(r@, #[trigger] f[i].0) == Some(f[i].1)),
        v@ matches JsonOutView::Object(f) ==> (distinct_keys(f) ==> forall|key: Seq<char>|
            !has_key(f, key) ==> (#[trigger] json_member(r@, key)) is None),
{
    let scalar = |v: JsonScalar| match v {
        JsonScalar::Int(n) => Value::from(n),
        JsonScalar::Str(s) => Value::String(s),
        JsonScalar::Other => Value::Null,
    };
    let object = |fields: Vec<(String, JsonScalar)>| Value::Object(fields.into_iter().map(|(k, v)| (k, scalar(v))).collect());
    let value = match v {
        JsonOut::Str(s) => Value::String(s),
        JsonOut::Object(fields) => object(fields),
        JsonOut::Array(items) => Value::Array(items.into_iter().map(object).collect()),
    };
    value.to_string()
}

/// The text of the object with these members.
pub open spec fn json_object(fields: Seq<(Seq<char>, JsonScalarView)>) -> Seq<char> {
    json_text(JsonOutView::Object(fields))
}

/// Writes an object with scalar members (see `json_write`).
pub(crate) fn json_object_of(fields: Vec<(String, JsonScalar)>) -> (r: String)
    ensures
        r@ == json_object(fields_view(fields@)),
        r@.len() > 0 && r@[0] == '{',
        distinct_keys(fields_view(fields@)) ==> forall|i: int|
            0 <= i < fields@.len() && !(fields_view(fields@)[i].1 is Other) ==> json_member(
                r@,
                #[trigger] fields_view(fields@)[i].0,
            ) == Some(fields_view(fields@)[i].1),
        distinct_keys(fields_view(fields@)) ==> forall|key: Seq<char>|
            !has_key(fields_view(fields@), key) ==> (#[trigger] json_member(r@, key)) is None,
{
    json_write(JsonOut::Object(fields))
}

/// The text of an array of such objects.
pub open spec fn json_object_array(items: Seq<Seq<(Seq<char>, JsonScalarView)>>) -> Seq<char> {
    json_text(JsonOutView::Array(items))
}

/// Writes an array of objects with scalar members (see `json_write`).
pub(crate) fn json_object_array_of(items: Vec<Vec<(String, JsonScalar)>>) -> (r: String)
    ensures
        r@ == json_object_array(objects_view(items@)),
{
    json_write(JsonOut::Array(items))
}

/// The JSON string literal of `s`.
pub open spec fn json_string(s: Seq<char>) -> Seq<char> {
    json_text(JsonOutView::Str(s))
}

/// Writes `s` as a JSON string literal (see `json_write`).
pub(crate) fn json_string_of(s: &str) -> (r: String)
    ensures
        r@ == json_string(s@),
{
    json_write(JsonOut::Str(s.to_string()))
}

/// The strings among the values' texts, in order.
pub open spec fn strings_of(items: Seq<Seq<char>>) -> Seq<Seq<char>>
    decreases items.len(),
{
    if items.len() == 0 {
        Seq::empty()
    } else {
        let rest = strings_of(items.drop_last());
        match json_doc(items.last()) {
            Some(JsonDocView::Str(s)) => rest.push(s),
            _ => rest,
        }
    }
}

fn strings_exec(items: &Vec<String>) -> (r: Vec<String>)
    ensures
        texts_view(r@) == strings_of(texts_view(items@)),
{
    let ghost xv = texts_view(items@);
    let mut out: Vec<String> = Vec::new();
    let mut i: usize = 0;
    while i < items.len()
        invariant
            i <= items.len(),
            xv == texts_view(items@),
            texts_view(out@) == strings_of(xv.take(i as int)),
        decreases items.len() - i,
    {
        assert(xv.take(i + 1).drop_last() =~= xv.take(i as int));
        assert(xv.take(i + 1).last() == items@[i as int]@);
        let ghost before = out@;
        match parse_json_doc(items[i].as_str()) {
            Some(JsonDoc::Str(s)) => {
                out.push(s);
                assert(texts_view(out@) =~= texts_view(before).push(out@[before.len() as int]@));
            },
            _ => {},
        }
        i += 1;
    }
    assert(xv.take(items.len() as int) =~= xv);
    out
}

/// The strings of the array member `key` of the JSON object in `text`
/// (items that are not strings are skipped; empty when there is no such array).
pub open spec fn json_string_items(text: Seq<char>, key: Seq<char>) -> Seq<Seq<char>> {
    match json_doc(text) {
        Some(JsonDocView::Object(ms)) => match find_member(ms, key) {
            Some(t) => json_array_strings(t),
            None => Seq::empty(),
        },
        _ => Seq::empty(),
    }
}

/// Reads the strings of an array member of a JSON document (see `json_string_items`).
pub fn json_string_items_of(text: &str, key: &str) -> (r: Vec<String>)
    ensures
        texts_view(r@) == json_string_items(text@, key@),
{
    match parse_json_doc(text) {
        Some(JsonDoc::Object(ms)) => match find_member_exec(&ms, key) {
            Some(i) => json_array_strings_of(ms[i].1.as_str()),
            None => Vec::new(),
        },
        _ => Vec::new(),
    }
}

/// Whether `text` is a JSON object as `serde_json` reads it.
pub open spec fn json_is_object(text: Seq<char>) -> bool {
    json_doc(text) matches Some(JsonDocView::Object(_))
}

/// Whether a JSON document is an object (see `json_is_object`).
pub fn json_is_object_of(text: &str) -> (r: bool)
    ensures
        r == json_is_object(text@),
{
    match parse_json_doc(text) {
        Some(JsonDoc::Object(_)) => true,
        _ => false,
    }
}

/// The strings of the JSON array in `text` (items that are not strings
/// are skipped; empty when `text` is not an array).
pub open spec fn json_array_strings(text: Seq<char>) -> Seq<Seq<char>> {
    match json_doc(text) {
        Some(JsonDocView::Array(xs)) => strings_of(xs),
        _ => Seq::empty(),
    }
}

/// Reads the strings of a JSON array (see `json_array_strings`).
pub fn json_array_strings_of(text: &str) -> (r: Vec<String>)
    ensures
        texts_view(r@) == json_array_strings(text@),
{
    match parse_json_doc(text) {
        Some(JsonDoc::Array(xs)) => strings_exec(&xs),
        _ => Vec::new(),
    }
}

/// The members whose values are strings, in order.
pub open spec fn string_members(ms: Seq<(Seq<char>, Seq<char>)>) -> Seq<(Seq<char>, Seq<char>)>
    decreases ms.len(),
{
    if ms.len() == 0 {
        Seq::empty()
    } else {
        let rest = string_members(ms.drop_last());
        match json_doc(ms.last().1) {
            Some(JsonDocView::Str(s)) => rest.push((ms.last().0, s)),
            _ => rest,
        }
    }
}

/// The members of the JSON object in `text` whose values are strings, in
/// the order `serde_json` keeps them (empty when `text` is not an object).
pub open spec fn json_string_members(text: Seq<char>) -> Seq<(Seq<char>, Seq<char>)> {
    match json_doc(text) {
        Some(JsonDocView::Object(ms)) => string_members(ms),
        _ => Seq::empty(),
    }
}

/// Reads the string members of a JSON object (see `json_string_members`).
pub fn json_string_members_of(text: &str) -> (r: Vec<(String, String)>)
    ensures
        pairs_view(r@) == json_string_members(text@),
{
    let ms = match parse_json_doc(text) {
        Some(JsonDoc::Object(ms)) => ms,
        _ => return Vec::new(),
    };
    let ghost mv = pairs_view(ms@);
    let mut out: Vec<(String, String)> = Vec::new();
    let mut i: usize = 0;
    while i < ms.len()
        invariant
            i <= ms.len(),
            mv == pairs_view(ms@),
            pairs_view(out@) == string_members(mv.take(i as int)),
        decreases ms.len() - i,
    {
        assert(mv.take(i + 1).drop_last() =~= mv.take(i as int));
        assert(mv.take(i + 1).last() == (ms@[i as int].0@, ms@[i as int].1@));
        let ghost before = out@;
        match parse_json_doc(ms[i].1.as_str()) {
            Some(JsonDoc::Str(s)) => {
                let k = ms[i].0.clone();
                out.push((k, s));
                assert(pairs_view(out@) =~= pairs_view(before).push((ms@[i as int].0@, out@[before.len() as int].1@)));
            },
            _ => {},
        }
        i += 1;
    }
    assert(mv.take(ms.len() as int) =~= mv);
    out
}

} // verus!
