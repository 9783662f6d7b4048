//! JSON values, held as `serde_json::Value` and read through a mathematical
//! view of what they contain.

use serde_json::Value;
use vstd::prelude::*;
use vstd::string::*;

verus! {

/// `serde_json::Value`.
#[verifier::external_type_specification]
#[verifier::external_body]
pub struct ExValue(serde_json::Value);

/// What a JSON value contains.
#[verifier::ext_equal]
pub enum JsonView {
    Null,
    Bool(bool),
    Number(NumberView),
    Str(Seq<char>),
    Array(Seq<JsonView>),
    Object(Map<Seq<char>, JsonView>),
}

/// What a JSON number contains.
pub enum NumberView {
    /// A non-negative integer.
    Unsigned(u64),
    /// A negative integer.
    Negative(i64),
    /// Any other number, by the bits of its double-precision value.
    Float(u64),
}

/// The contents of a `serde_json::Value`.
pub uninterp spec fn contents(value: serde_json::Value) -> JsonView;

/// The value that `serde_json::from_str` reads from a text, or the words of
/// its error.
pub uninterp spec fn parsed(text: Seq<char>) -> Result<JsonView, Seq<char>>;

/// The value that bytes of JSON denote, or what `serde_json` says of them.
pub uninterp spec fn parsed_bytes(bytes: Seq<u8>) -> Result<JsonView, Seq<char>>;

/// The compact text that `serde_json::Value::to_string` prints.
pub uninterp spec fn printed(value: JsonView) -> Seq<char>;

/// The contents of a list of values.
pub open spec fn list_contents(values: Seq<Value>) -> Seq<JsonView> {
    Seq::new(values.len(), |i: int| contents(values[i]))
}

/// What an object holds under a key.
pub open spec fn field(value: JsonView, key: Seq<char>) -> Option<JsonView> {
    match value {
        JsonView::Object(m) => if m.contains_key(key) {
            Some(m[key])
        } else {
            None
        },
        _ => None,
    }
}

/// The string a value is, if it is one.
pub open spec fn str_of(value: JsonView) -> Option<Seq<char>> {
    match value {
        JsonView::Str(s) => Some(s),
        _ => None,
    }
}

/// The string an object holds under a key, if it holds one.
pub open spec fn str_field(value: JsonView, key: Seq<char>) -> Option<Seq<char>> {
    match field(value, key) {
        Some(v) => str_of(v),
        None => None,
    }
}

/// The non-negative integer an object holds under a key, if it holds one.
pub open spec fn u64_field(value: JsonView, key: Seq<char>) -> Option<u64> {
    match field(value, key) {
        Some(v) => u64_of(v),
        None => None,
    }
}

/// The non-negative integer a value is, if it is one.
pub open spec fn u64_of(value: JsonView) -> Option<u64> {
    match value {
        JsonView::Number(NumberView::Unsigned(n)) => Some(n),
        _ => None,
    }
}

/// The signed 64-bit integer a value is, if it is one.
pub open spec fn i64_of(value: JsonView) -> Option<i64> {
    match value {
        JsonView::Number(NumberView::Unsigned(n)) => if n <= i64::MAX {
            Some(n as i64)
        } else {
            None
        },
        JsonView::Number(NumberView::Negative(n)) => Some(n),
        _ => None,
    }
}

/// `Value::as_str`: the string, when the value is one.
pub assume_specification[ serde_json::Value::as_str ](value: &serde_json::Value) -> (r: Option<
    &str,
>)
    ensures
        match r {
            Some(s) => contents(*value) == JsonView::Str(s@),
            None => !(contents(*value) is Str),
        },
;

/// `Value::as_bool`: the boolean, when the value is one.
pub assume_specification[ serde_json::Value::as_bool ](value: &serde_json::Value) -> (r: Option<
    bool,
>)
    ensures
        match r {
            Some(b) => contents(*value) == JsonView::Bool(b),
            None => !(contents(*value) is Bool),
        },
;

/// `Value::as_u64`: the number, when the value is a non-negative integer.
pub assume_specification[ serde_json::Value::as_u64 ](value: &serde_json::Value) -> (r: Option<
    u64,
>)
    ensures
        r == u64_of(contents(*value)),
;

/// `Value::as_i64`: the number, when the value is an integer that fits.
pub assume_specification[ serde_json::Value::as_i64 ](value: &serde_json::Value) -> (r: Option<
    i64,
>)
    ensures
        r == i64_of(contents(*value)),
;

/// `Value::as_array`: the elements in order, when the value is an array.
pub assume_specification[ serde_json::Value::as_array ](value: &serde_json::Value) -> (r: Option<
    &Vec<serde_json::Value>,
>)
    ensures
        match r {
            Some(v) => contents(*value) == JsonView::Array(list_contents(v@)),
            None => !(contents(*value) is Array),
        },
;

/// `Value::is_object`: whether the value is an object.
pub assume_specification[ serde_json::Value::is_object ](value: &serde_json::Value) -> (r: bool)
    ensures
        r == (contents(*value) is Object),
;

/// `Value::get` with a string key: the value under the key when the receiver
/// is an object that has it, else nothing.
#[verifier::external_body]
pub(crate) fn get<'a>(value: &'a Value, key: &str) -> (r: Option<&'a Value>)
    ensures
        match r {
            Some(v) => field(contents(*value), key@) == Some(contents(*v)),
            None => field(contents(*value), key@) is None,
        },
{
    value.get(key)
}

/// `Value::clone`: a value with the same contents.
#[verifier::external_body]
pub(crate) fn duplicate(value: &Value) -> (r: Value)
    ensures
        contents(r) == contents(*value),
{
    value.clone()
}

/// `serde_json::from_str` into a `Value`: the value the text denotes, or what
/// the error displays when it is not JSON. Both depend on the text alone.
#[verifier::external_body]
pub(crate) fn parse(text: &str) -> (r: Result<Value, String>)
    ensures
        match r {
            Ok(v) => parsed(text@) == Ok::<JsonView, Seq<char>>(contents(v)),
            Err(e) => parsed(text@) == Err::<JsonView, Seq<char>>(e@),
        },
{
    serde_json::from_str(text).map_err(|err| err.to_string())
}

/// `serde_json::from_slice` into a `Value`: the value the bytes denote, or what
/// the error displays when they are not JSON. Both depend on the bytes alone.
#[verifier::external_body]
pub(crate) fn parse_bytes(bytes: &Vec<u8>) -> (r: Result<Value, String>)
    ensures
        match r {
            Ok(v) => parsed_bytes(bytes@) == Ok::<JsonView, Seq<char>>(contents(v)),
            Err(e) => parsed_bytes(bytes@) == Err::<JsonView, Seq<char>>(e@),
        },
{
    serde_json::from_slice(bytes).map_err(|err| err.to_string())
}

/// `Value::to_string`: the compact text of the value, which depends on its
/// contents alone.
#[verifier::external_body]
pub(crate) fn print(value: &Value) -> (r: String)
    ensures
        r@ == printed(contents(*value)),
{
    value.to_string()
}

/// The variant `Value::Null`.
#[verifier::external_body]
pub(crate) fn null() -> (r: Value)
    ensures
        contents(r) == JsonView::Null,
{
    Value::Null
}

/// The variant `Value::Bool`.
#[verifier::external_body]
pub(crate) fn boolean(b: bool) -> (r: Value)
    ensures
        contents(r) == JsonView::Bool(b),
{
    Value::Bool(b)
}

/// `Value::from` for an unsigned integer.
#[verifier::external_body]
pub(crate) fn unsigned(n: u64) -> (r: Value)
    ensures
        contents(r) == JsonView::Number(NumberView::Unsigned(n)),
{
    Value::from(n)
}

/// `Value::from` for a signed integer.
#[verifier::external_body]
pub(crate) fn integer(n: i64) -> (r: Value)
    ensures
        contents(r) == JsonView::Number(
            if n < 0 {
                NumberView::Negative(n)
            } else {
                NumberView::Unsigned(n as u64)
            },
        ),
{
    Value::from(n)
}

/// The variant `Value::String`.
#[verifier::external_body]
pub(crate) fn string(s: &str) -> (r: Value)
    ensures
        contents(r) == JsonView::Str(s@),
{
    Value::String(s.to_owned())
}

/// The variant `Value::Array`.
#[verifier::external_body]
pub(crate) fn array(values: Vec<Value>) -> (r: Value)
    ensures
        contents(r) == JsonView::Array(list_contents(values@)),
{
    Value::Array(values)
}

/// `serde_json::Map::new`, as a value: the object without members.
#[verifier::external_body]
pub(crate) fn object() -> (r: Value)
    ensures
        contents(r) == JsonView::Object(Map::empty()),
{
    Value::Object(serde_json::Map::new())
}

/// `Value`'s assignment through a string index: the object with that member
/// set. Left out: a receiver that is no object.
#[verifier::external_body]
pub(crate) fn with(value: Value, key: &str, member: Value) -> (r: Value)
    requires
        contents(value) is Object,
    ensures
        contents(r) == JsonView::Object(contents(value)->Object_0.insert(key@, contents(member))),
{
    let mut value = value;
    value[key] = member;
    value
}

/// A string value, or null.
pub fn opt_string(s: &Option<String>) -> (r: Value)
    ensures
        contents(r) == opt_str(crate::text::opt_view(*s)),
{
    match s {
        Some(s) => string(s.as_str()),
        None => null(),
    }
}

/// A string value, or null.
pub open spec fn opt_str(s: Option<Seq<char>>) -> JsonView {
    match s {
        Some(s) => JsonView::Str(s),
        None => JsonView::Null,
    }
}

/// A number, or null.
pub open spec fn opt_num(n: Option<u64>) -> JsonView {
    match n {
        Some(n) => JsonView::Number(NumberView::Unsigned(n)),
        None => JsonView::Null,
    }
}

/// A number value, or null.
pub fn opt_unsigned(n: Option<u64>) -> (r: Value)
    ensures
        contents(r) == opt_num(n),
{
    match n {
        Some(n) => unsigned(n),
        None => null(),
    }
}

/// The string an object holds under a key, if it holds one.
pub fn get_str<'a>(value: &'a Value, key: &str) -> (r: Option<&'a str>)
    ensures
        match r {
            Some(s) => str_field(contents(*value), key@) == Some(s@),
            None => str_field(contents(*value), key@) is None,
        },
{
    match get(value, key) {
        Some(v) => v.as_str(),
        None => None,
    }
}

/// The non-negative integer an object holds under a key, if it holds one.
pub fn get_u64(value: &Value, key: &str) -> (r: Option<u64>)
    ensures
        r == u64_field(contents(*value), key@),
{
    match get(value, key) {
        Some(v) => v.as_u64(),
        None => None,
    }
}

/// An array of strings.
pub fn strings(list: &Vec<String>) -> (r: Value)
    ensures
        contents(r) == JsonView::Array(
            Seq::new(list@.len(), |i: int| JsonView::Str(list@[i]@)),
        ),
{
    let mut out: Vec<Value> = Vec::new();
    let mut i: usize = 0;
    while i < list.len()
        invariant
            i <= list@.len(),
            out@.len() == i,
            forall|j: int| 0 <= j < i ==> contents(#[trigger] out@[j]) == JsonView::Str(list@[j]@),
        decreases list@.len() - i,
    {
        out.push(string(list[i].as_str()));
        i = i + 1;
    }
    assert(list_contents(out@) =~= Seq::new(list@.len(), |i: int| JsonView::Str(list@[i]@)));
    array(out)
}

/// What is there stands as a value of its kind, and what is not is null.
pub proof fn law_absent_values_are_null(s: Seq<char>, n: u64)
    ensures
        opt_str(Some(s)) == JsonView::Str(s),
        opt_str(None) == JsonView::Null,
        opt_num(Some(n)) == JsonView::Number(NumberView::Unsigned(n)),
        opt_num(None) == JsonView::Null,
{
}

/// A field is what an object holds under its key: a key that is not there and a value that
/// is no object hold none, and a value of another kind is no string and no number.
pub proof fn law_fields_are_what_objects_hold(
    m: Map<Seq<char>, JsonView>,
    key: Seq<char>,
    v: JsonView,
    n: u64,
    k: i64,
)
    ensures
        field(JsonView::Object(m.insert(key, v)), key) == Some(v),
        field(JsonView::Object(m.remove(key)), key) is None,
        v !is Object ==> field(v, key) is None,
        v is Str ==> str_of(v) == Some(v->Str_0),
        v !is Str ==> str_of(v) is None,
        u64_of(JsonView::Number(NumberView::Unsigned(n))) == Some(n),
        u64_of(JsonView::Number(NumberView::Negative(k))) is None,
        v !is Number ==> u64_of(v) is None && i64_of(v) is None,
        i64_of(JsonView::Number(NumberView::Negative(k))) == Some(k),
        n <= i64::MAX ==> i64_of(JsonView::Number(NumberView::Unsigned(n))) == Some(n as i64),
        n > i64::MAX ==> i64_of(JsonView::Number(NumberView::Unsigned(n))) is None,
{
}

} // verus!
