//! JSON values as the contracts see them, and the calls into `serde_json`.
use crate::text::{decimal, decimal_text, law_numeral_injective, numeral, numeral_text, views};
use serde_json::Value;
use vstd::prelude::*;
use vstd::string::StringExecFns;

verus! {

/// The content of a JSON value. A number is an integer, negative or not, or a float by its
/// text; the fields of an object carry no order.
pub enum Json {
    Null,
    Bool(bool),
    Unsigned(u64),
    Negative(i64),
    Float(Seq<char>),
    Text(Seq<char>),
    Array(Seq<Json>),
    Object(Map<Seq<char>, Json>),
}

/// `serde_json::Value`, carried as an opaque value.
#[verifier::external_type_specification]
#[verifier::external_body]
pub struct ExValue(serde_json::Value);

/// `serde_json::Map`, carried as an opaque collection.
#[verifier::external_type_specification]
#[verifier::external_body]
#[verifier::reject_recursive_types(K)]
#[verifier::reject_recursive_types(V)]
pub struct ExObject<K, V>(serde_json::Map<K, V>);

/// What a `serde_json::Value` holds.
pub uninterp spec fn json(value: serde_json::Value) -> Json;

/// What a `serde_json::Map` holds: the content of each field under its key.
pub uninterp spec fn fields(
    object: serde_json::Map<String, serde_json::Value>,
) -> Map<Seq<char>, Json>;

/// What each value of a list holds.
pub open spec fn contents(values: Seq<serde_json::Value>) -> Seq<Json> {
    Seq::new(values.len(), |i: int| json(values[i]))
}

/// `Value::as_object` lends the fields of an object, and nothing for any other value.
pub assume_specification[ serde_json::Value::as_object ](value: &serde_json::Value) -> (r: Option<
    &serde_json::Map<String, serde_json::Value>,
>)
    ensures
        match json(*value) {
            Json::Object(entries) => r matches Some(object) && fields(*object) == entries,
            _ => r is None,
        },
;

/// `Value::as_array` lends the items of an array, and nothing for any other value.
pub assume_specification[ serde_json::Value::as_array ](value: &serde_json::Value) -> (r: Option<
    &Vec<serde_json::Value>,
>)
    ensures
        match json(*value) {
            Json::Array(items) => r matches Some(list) && contents(list@) == items,
            _ => r is None,
        },
;

/// `Value::is_null` tells the null value from any other.
pub assume_specification[ serde_json::Value::is_null ](value: &serde_json::Value) -> (r: bool)
    ensures
        r == (json(*value) is Null),
;

/// `Value::as_bool` gives the truth value of a boolean, and nothing for any other value.
pub assume_specification[ serde_json::Value::as_bool ](value: &serde_json::Value) -> (r: Option<
    bool,
>)
    ensures
        r == match json(*value) {
            Json::Bool(truth) => Some(truth),
            _ => None,
        },
;

/// `Value::as_u64` gives an integer that is not negative, and nothing for any other value.
pub assume_specification[ serde_json::Value::as_u64 ](value: &serde_json::Value) -> (r: Option<u64>)
    ensures
        r == match json(*value) {
            Json::Unsigned(n) => Some(n),
            _ => None,
        },
;

/// `Value::as_i64` gives an integer that fits, which every negative one does, and nothing
/// for any other value.
pub assume_specification[ serde_json::Value::as_i64 ](value: &serde_json::Value) -> (r: Option<i64>)
    ensures
        r == match json(*value) {
            Json::Unsigned(n) => if n <= i64::MAX {
                Some(n as i64)
            } else {
                None
            },
            Json::Negative(n) => Some(n),
            _ => None,
        },
;

/// `Value::as_str` lends the text of a string, and nothing for any other value.
pub assume_specification[ serde_json::Value::as_str ](value: &serde_json::Value) -> (r: Option<
    &str,
>)
    ensures
        match json(*value) {
            Json::Text(text) => r matches Some(string) && string@ == text,
            _ => r is None,
        },
;

/// `Clone` for `Value` copies the content.
pub assume_specification[ <serde_json::Value as Clone>::clone ](value: &serde_json::Value) -> (r:
    serde_json::Value)
    ensures
        json(r) == json(*value),
;

/// `Clone` for `Map` copies every field.
pub assume_specification[ <serde_json::Map<String, serde_json::Value> as Clone>::clone ](
    object: &serde_json::Map<String, serde_json::Value>,
) -> (r: serde_json::Map<String, serde_json::Value>)
    ensures
        fields(r) == fields(*object),
;

/// `Map::insert` sets one field and leaves the others; it hands back what stood there.
pub assume_specification[ serde_json::Map::<String, serde_json::Value>::insert ](
    object: &mut serde_json::Map<String, serde_json::Value>,
    k: String,
    v: serde_json::Value,
) -> (r: Option<serde_json::Value>)
    ensures
        fields(*final(object)) == fields(*old(object)).insert(k@, json(v)),
        match r {
            Some(previous) => fields(*old(object)).contains_key(k@) && json(previous) == fields(
                *old(object),
            )[k@],
            None => !fields(*old(object)).contains_key(k@),
        },
;

/// `Map::get` lends the value of a field, or nothing where the object lacks it.
#[verifier::external_body]
pub(crate) fn object_get<'a>(
    object: &'a serde_json::Map<String, Value>,
    key: &str,
) -> (r: Option<&'a Value>)
    ensures
        match r {
            Some(value) => fields(*object).contains_key(key@) && json(*value) == fields(
                *object,
            )[key@],
            None => !fields(*object).contains_key(key@),
        },
{
    object.get(key)
}

/// `Map::keys` yields every key once. In which order depends on the features that
/// `serde_json` was built with, so nothing is said of it.
#[verifier::external_body]
pub(crate) fn object_keys(object: &serde_json::Map<String, Value>) -> (r: Vec<String>)
    ensures
        views(r@).no_duplicates(),
        views(r@).to_set() == fields(*object).dom(),
{
    object.keys().cloned().collect()
}

/// `Value::Object` makes a value of an object's fields.
#[verifier::external_body]
pub(crate) fn object_value(object: serde_json::Map<String, Value>) -> (r: Value)
    ensures
        json(r) == Json::Object(fields(object)),
{
    Value::Object(object)
}

/// The child of a JSON value that a token of a pointer leads to: a field of an object by
/// its key, an item of an array by the decimal numeral of its position.
pub open spec fn child(value: Json, token: Seq<char>) -> Option<Json> {
    match value {
        Json::Object(entries) => if entries.contains_key(token) {
            Some(entries[token])
        } else {
            None
        },
        Json::Array(items) => if exists|i: nat| i < items.len() && token == numeral(i) {
            Some(items[item_position(items, token)])
        } else {
            None
        },
        _ => None,
    }
}

/// The position that a token names in an array.
pub open spec fn item_position(items: Seq<Json>, token: Seq<char>) -> int {
    (choose|i: nat| i < items.len() && token == numeral(i)) as int
}

/// A JSON value with the child that a token leads to replaced.
pub open spec fn with_child(value: Json, token: Seq<char>, replacement: Json) -> Json {
    match value {
        Json::Object(entries) => Json::Object(entries.insert(token, replacement)),
        Json::Array(items) => Json::Array(items.update(item_position(items, token), replacement)),
        _ => value,
    }
}

/// What a path leads to, token by token.
pub open spec fn at_path(value: Json, path: Seq<Seq<char>>) -> Option<Json>
    decreases path.len(),
{
    if path.len() == 0 {
        Some(value)
    } else {
        match child(value, path[0]) {
            Some(next) => at_path(next, path.drop_first()),
            None => None,
        }
    }
}

/// A JSON value with what a path leads to replaced.
pub open spec fn with_path(value: Json, path: Seq<Seq<char>>, replacement: Json) -> Json
    decreases path.len(),
{
    if path.len() == 0 {
        replacement
    } else {
        match child(value, path[0]) {
            Some(next) => with_child(
                value,
                path[0],
                with_path(next, path.drop_first(), replacement),
            ),
            None => value,
        }
    }
}

/// The text of a pointer: every token behind a slash.
pub open spec fn pointer_text(path: Seq<Seq<char>>) -> Seq<char>
    decreases path.len(),
{
    if path.len() == 0 {
        Seq::empty()
    } else {
        seq!['/'] + path[0] + pointer_text(path.drop_first())
    }
}

/// The text is the pointer of a path whose tokens need no escape.
pub open spec fn is_pointer(text: Seq<char>, path: Seq<Seq<char>>) -> bool {
    &&& text == pointer_text(path)
    &&& forall|i: int|
        0 <= i < path.len() ==> !(#[trigger] path[i]).contains('/') && !path[i].contains('~')
}

/// `Value::pointer_mut` lends what a pointer leads to, to be changed in place. A token
/// leads to a field of an object, or to an item of an array by its position written in
/// decimal. Nothing is said of a pointer with escaped tokens.
pub assume_specification<'a, 'b>[ serde_json::Value::pointer_mut ](
    value: &'a mut serde_json::Value,
    pointer: &'b str,
) -> (r: Option<&'a mut serde_json::Value>)
    ensures
        forall|path: Seq<Seq<char>>| #[trigger]
            is_pointer(pointer@, path) ==> match r {
                Some(slot) => at_path(json(*old(value)), path) == Some(json(*slot)) && json(
                    *final(value),
                ) == with_path(json(*old(value)), path, json(*final(slot))),
                None => at_path(json(*old(value)), path) is None && json(*final(value)) == json(
                    *old(value),
                ),
            },
;

/// `Value::as_object_mut` lends the fields of an object, to be changed in place, and
/// nothing for any other value.
pub assume_specification[ serde_json::Value::as_object_mut ](value: &mut serde_json::Value) -> (r:
    Option<&mut serde_json::Map<String, serde_json::Value>>)
    ensures
        match json(*old(value)) {
            Json::Object(entries) => r matches Some(object) && fields(*object) == entries && json(
                *final(value),
            ) == Json::Object(fields(*final(object))),
            _ => r is None && json(*final(value)) == json(*old(value)),
        },
;

/// `Map::entry` with `or_insert` sets a field that the object lacks, and leaves one that
/// it has.
#[verifier::external_body]
pub(crate) fn insert_if_absent(
    object: &mut serde_json::Map<String, Value>,
    key: String,
    value: Value,
)
    ensures
        fields(*final(object)) == if fields(*old(object)).contains_key(key@) {
            fields(*old(object))
        } else {
            fields(*old(object)).insert(key@, json(value))
        },
{
    object.entry(key).or_insert(value);
}

/// `Value::Null` is the null value.
#[verifier::external_body]
pub(crate) fn null_value() -> (r: Value)
    ensures
        json(r) == Json::Null,
{
    Value::Null
}

/// The JSON text of a value.
pub uninterp spec fn json_text(value: serde_json::Value) -> Seq<char>;

/// The text opens like that of a JSON object.
pub open spec fn opens_as_object(text: Seq<char>) -> bool {
    text.len() > 0 && text[0] == '{'
}

/// `Display` for `Value` writes the value as JSON text. The text depends on the order of
/// an object's fields, so it is named by the value and not by its content. That of an
/// object opens with a brace; that of a float is the text by which the float is known.
#[verifier::external_body]
pub(crate) fn value_text(value: &Value) -> (r: String)
    ensures
        r@ == json_text(*value),
        json(*value) is Object ==> opens_as_object(r@),
        json(*value) matches Json::Float(text) ==> r@ == text,
{
    value.to_string()
}

/// The `Debug` form of a text: in quotes, with escapes.
pub uninterp spec fn quoted(text: Seq<char>) -> Seq<char>;

/// `Display` for `serde::de::Unexpected::Str` writes the word `string` and the text in its
/// `Debug` form.
#[verifier::external_body]
fn unexpected_string(text: &str) -> (r: String)
    ensures
        r@ == "string "@ + quoted(text@),
{
    serde::de::Unexpected::Str(text).to_string()
}

/// How a value that is neither an object nor a list is named in an error.
pub open spec fn scalar_name(value: Json) -> Seq<char> {
    match value {
        Json::Null => "null"@,
        Json::Bool(true) => "boolean `true`"@,
        Json::Bool(false) => "boolean `false`"@,
        Json::Unsigned(n) => "integer `"@ + decimal(n as int) + "`"@,
        Json::Negative(n) => "integer `"@ + decimal(n as int) + "`"@,
        Json::Float(text) => "floating point `"@ + text + "`"@,
        Json::Text(text) => "string "@ + quoted(text),
        _ => Seq::empty(),
    }
}

fn between_backticks(name: &str, number: &str) -> (r: String)
    ensures
        r@ == name@ + number@ + "`"@,
{
    let mut text = name.to_owned();
    text.append(number);
    text.append("`");
    text
}

/// How a value that is neither an object nor a list is named in an error.
pub fn scalar_text(value: &Value) -> (r: String)
    requires
        !(json(*value) is Object),
        !(json(*value) is Array),
    ensures
        r@ == scalar_name(json(*value)),
{
    if value.is_null() {
        return "null".to_owned();
    }
    match value.as_bool() {
        Some(true) => {
            return "boolean `true`".to_owned();
        },
        Some(false) => {
            return "boolean `false`".to_owned();
        },
        None => {},
    }
    match value.as_str() {
        Some(text) => {
            return unexpected_string(text);
        },
        None => {},
    }
    match value.as_u64() {
        Some(number) => {
            return between_backticks("integer `", numeral_text(number).as_str());
        },
        None => {},
    }
    match value.as_i64() {
        Some(number) => between_backticks("integer `", decimal_text(number).as_str()),
        None => between_backticks("floating point `", value_text(value).as_str()),
    }
}

pub proof fn lemma_item_position(items: Seq<Json>, token: Seq<char>, i: nat)
    requires
        i < items.len(),
        token == numeral(i),
    ensures
        item_position(items, token) == i,
{
    law_numeral_injective(item_position(items, token) as nat, i);
}

proof fn lemma_replaced_child(value: Json, token: Seq<char>, replacement: Json)
    requires
        child(value, token) is Some,
    ensures
        child(with_child(value, token, replacement), token) == Some(replacement),
{
    match value {
        Json::Array(items) => {
            let i = choose|i: nat| i < items.len() && token == numeral(i);
            lemma_item_position(items, token, i);
            let replaced = items.update(i as int, replacement);
            assert(i < replaced.len() && token == numeral(i));
            lemma_item_position(replaced, token, i);
        },
        _ => {},
    }
}

/// What was put where a path leads is found there.
pub proof fn law_path_leads_to_replacement(value: Json, path: Seq<Seq<char>>, replacement: Json)
    requires
        at_path(value, path) is Some,
    ensures
        at_path(with_path(value, path, replacement), path) == Some(replacement),
    decreases path.len(),
{
    if path.len() > 0 {
        let next = child(value, path[0])->Some_0;
        let rest = path.drop_first();
        law_path_leads_to_replacement(next, rest, replacement);
        lemma_replaced_child(value, path[0], with_path(next, rest, replacement));
    }
}

/// Putting back what a path leads to changes nothing.
pub proof fn law_path_replaced_by_itself(value: Json, path: Seq<Seq<char>>)
    requires
        at_path(value, path) is Some,
    ensures
        with_path(value, path, at_path(value, path)->Some_0) == value,
    decreases path.len(),
{
    if path.len() > 0 {
        let next = child(value, path[0])->Some_0;
        let rest = path.drop_first();
        law_path_replaced_by_itself(next, rest);
        match value {
            Json::Object(entries) => {
                assert(entries.insert(path[0], next) =~= entries);
            },
            Json::Array(items) => {
                let i = choose|i: nat| i < items.len() && path[0] == numeral(i);
                lemma_item_position(items, path[0], i);
                assert(items.update(i as int, next) =~= items);
            },
            _ => {},
        }
    }
}

/// A scalar is named by its kind and its value: an integer by its decimal numeral, a float
/// by its text, a string in quotes.
pub proof fn law_scalars_are_named_by_their_values(value: Value, r: String)
    requires
        !(json(value) is Object),
        !(json(value) is Array),
        call_ensures(scalar_text, (&value,), r),
    ensures
        json(value) is Null ==> r@ == "null"@,
        json(value) matches Json::Bool(truth) ==> r@ == if truth {
            "boolean `true`"@
        } else {
            "boolean `false`"@
        },
        json(value) matches Json::Unsigned(n) ==> r@ == "integer `"@ + decimal(n as int) + "`"@,
        json(value) matches Json::Negative(n) ==> r@ == "integer `"@ + decimal(n as int) + "`"@,
        json(value) matches Json::Float(text) ==> r@ == "floating point `"@ + text + "`"@,
        json(value) matches Json::Text(text) ==> r@ == "string "@ + quoted(text),
{
}

} // verus!
