use serde_json::{Number, Value};
use sglang_openai::names::FieldNames;
use sglang_openai::sampling::{
    merge_preferred, sampling_params_from_value, SamplingParams, SamplingParamsEntry,
    SamplingParamsInput, EXPECTED_SAMPLING_PARAMS,
};

#[derive(Debug, Clone, PartialEq)]
struct Params {
    temperature: f64,
    top_p: f64,
    max_new_tokens: Option<i64>,
}

fn params() -> Params {
    Params {
        temperature: 1.0,
        top_p: 1.0,
        max_new_tokens: None,
    }
}

fn number(value: &Value, field: &str) -> Result<f64, String> {
    value
        .as_f64()
        .ok_or_else(|| format!("invalid value for `{field}`"))
}

impl SamplingParams for Params {
    fn from_value(value: Value) -> Result<Self, String> {
        let mut decoded = params();
        for (field, value) in value.as_object().ok_or("not an object")? {
            match field.as_str() {
                "temperature" | "top_p" | "max_new_tokens" if value.is_null() => {}
                "temperature" => decoded.temperature = number(value, field)?,
                "top_p" => decoded.top_p = number(value, field)?,
                "max_new_tokens" => decoded.max_new_tokens = value.as_i64(),
                _ => return Err(format!("unknown field `{field}`")),
            }
        }
        Ok(decoded)
    }

    fn to_value(&self) -> Result<Value, String> {
        if self.temperature < 0.0 {
            return Err("temperature cannot be encoded".to_string());
        }
        if self.temperature > 100.0 {
            return Ok(Value::Bool(true));
        }
        let mut fields = serde_json::Map::new();
        fields.insert("temperature".into(), float(self.temperature));
        fields.insert("top_p".into(), float(self.top_p));
        fields.insert(
            "max_new_tokens".into(),
            self.max_new_tokens.map_or(Value::Null, Value::from),
        );
        Ok(Value::Object(fields))
    }

    fn has_structural_tag(&self) -> bool {
        false
    }
}

fn float(value: f64) -> Value {
    Value::Number(Number::from_f64(value).unwrap())
}

fn parse(text: &str) -> Value {
    serde_json::from_str(text).unwrap()
}

fn read(text: &str) -> Result<SamplingParamsInput<Params>, String> {
    SamplingParamsInput::deserialize(&parse(text))
}

fn one(input: SamplingParamsInput<Params>) -> SamplingParamsEntry<Params> {
    match input {
        SamplingParamsInput::One(entry) => *entry,
        SamplingParamsInput::Many(_) => panic!("expected scalar params"),
    }
}

fn many(input: SamplingParamsInput<Params>) -> Vec<SamplingParamsEntry<Params>> {
    match input {
        SamplingParamsInput::One(_) => panic!("expected batched params"),
        SamplingParamsInput::Many(entries) => entries,
    }
}

fn keys(entry: &SamplingParamsEntry<Params>) -> Vec<&str> {
    let mut keys: Vec<&str> = entry
        .explicit_fields
        .list()
        .iter()
        .map(String::as_str)
        .collect();
    keys.sort();
    keys
}

#[test]
fn preferred_params_fill_only_omitted_request_fields() {
    let preferred = parse(r#"{"temperature": 0.25, "top_p": 0.75, "max_new_tokens": 4096}"#);
    let mut input = read(r#"{"temperature": 1.0, "top_p": null}"#).unwrap();
    input.apply_preferred(&preferred).unwrap();
    let params = one(input);
    assert_eq!(params.params.temperature, 1.0, "explicit default wins");
    assert_eq!(
        params.params.top_p, 1.0,
        "explicit null keeps the type default"
    );
    assert_eq!(
        params.params.max_new_tokens,
        Some(4096),
        "omitted uses preferred"
    );
}

#[test]
fn preferred_params_apply_to_every_batched_object() {
    let preferred = parse(r#"{"temperature": 0.25, "top_p": 0.75}"#);
    let mut input = read(r#"[{"temperature": 0.5}, {"top_p": 0.9}]"#).unwrap();
    input.apply_preferred(&preferred).unwrap();
    let params = many(input);
    assert_eq!(
        (params[0].params.temperature, params[0].params.top_p),
        (0.5, 0.75)
    );
    assert_eq!(
        (params[1].params.temperature, params[1].params.top_p),
        (0.25, 0.9)
    );
}

#[test]
fn an_object_is_one_entry_with_its_keys() {
    let entry = one(read(r#"{"top_p": null, "temperature": 0.5}"#).unwrap());
    assert_eq!(entry.params.temperature, 0.5);
    assert_eq!(entry.params.top_p, 1.0);
    assert_eq!(keys(&entry), ["temperature", "top_p"]);
    assert_eq!(keys(&one(read("{}").unwrap())), Vec::<&str>::new());
}

#[test]
fn a_list_keeps_the_order_of_its_entries() {
    let entries =
        many(read(r#"[{"temperature": 0.1}, {}, {"max_new_tokens": 3}]"#).unwrap());
    assert_eq!(entries.len(), 3);
    assert_eq!(entries[0].params.temperature, 0.1);
    assert_eq!(entries[1].params, params());
    assert_eq!(entries[2].params.max_new_tokens, Some(3));
    assert_eq!(many(read("[]").unwrap()), vec![]);
}

#[test]
fn neither_an_object_nor_a_list_is_refused() {
    for (text, found) in [
        ("null", "null"),
        ("true", "boolean `true`"),
        ("false", "boolean `false`"),
        ("0", "integer `0`"),
        ("-3", "integer `-3`"),
        ("18446744073709551615", "integer `18446744073709551615`"),
        ("-9223372036854775808", "integer `-9223372036854775808`"),
        ("1.5", "floating point `1.5`"),
        (r#""text""#, r#"string "text""#),
    ] {
        assert_eq!(
            read(text).unwrap_err(),
            format!(
                "invalid type: {found}, expected a sampling_params object, or a list of them \
                 (one per prompt)"
            )
        );
    }
}

struct Nothing;

struct NothingVisitor;

impl<'de> serde::Deserialize<'de> for Nothing {
    fn deserialize<D: serde::Deserializer<'de>>(deserializer: D) -> Result<Self, D::Error> {
        deserializer.deserialize_any(NothingVisitor)
    }
}

impl<'de> serde::de::Visitor<'de> for NothingVisitor {
    type Value = Nothing;

    fn expecting(&self, f: &mut std::fmt::Formatter<'_>) -> std::fmt::Result {
        f.write_str(EXPECTED_SAMPLING_PARAMS)
    }
}

#[test]
fn a_refusal_reads_as_serde_writes_it() {
    for text in [
        "null",
        "true",
        "7",
        "-7",
        "9223372036854775808",
        "1e300",
        "-0.0",
        "100000000000000000000",
        "0.1",
        r#""""#,
        r#""a\"b\n\u00e9\u0007 at line 1 column 2""#,
    ] {
        let serde_error = match serde_json::from_value::<Nothing>(parse(text)) {
            Ok(_) => panic!("nothing can be read"),
            Err(error) => error.to_string(),
        };
        assert_eq!(read(text).unwrap_err(), serde_error);
    }
}

#[test]
fn an_unreadable_entry_keeps_its_message() {
    assert_eq!(
        read(r#"{"temprature": 1.0}"#).unwrap_err(),
        "unknown field `temprature`"
    );
    assert_eq!(
        read(r#"[{}, {"a": 1}, {"b": 1}]"#).unwrap_err(),
        "unknown field `a`"
    );
    assert_eq!(
        read("[{}, 7]").unwrap_err(),
        "sampling_params must be an object"
    );
}

#[test]
fn preferred_parameters_alone_are_one_entry() {
    let entry = one(
        SamplingParamsInput::from_preferred(&parse(r#"{"temperature": 0.25}"#)).unwrap(),
    );
    assert_eq!(entry.params.temperature, 0.25);
    assert_eq!(keys(&entry), ["temperature"]);
    assert_eq!(
        SamplingParamsInput::<Params>::from_preferred(&parse("[{}]")).unwrap_err(),
        "sampling_params must be an object"
    );
}

#[test]
fn preferred_parameters_have_to_be_an_object() {
    let mut input = read(r#"{"temperature": 0.5}"#).unwrap();
    let before = input.clone();
    assert_eq!(
        input.apply_preferred(&parse("[]")).unwrap_err(),
        "preferred_sampling_params must be a JSON object"
    );
    assert_eq!(input, before);
}

#[test]
fn an_entry_that_does_not_encode_stays() {
    let mut input = read(r#"{"temperature": -1.0}"#).unwrap();
    let before = input.clone();
    assert_eq!(
        input.apply_preferred(&parse("{}")).unwrap_err(),
        "temperature cannot be encoded"
    );
    assert_eq!(input, before);

    let mut input = read(r#"{"temperature": 101.0}"#).unwrap();
    assert_eq!(
        input.apply_preferred(&parse("{}")).unwrap_err(),
        "SamplingParams did not serialize as an object"
    );
}

#[test]
fn preferred_parameters_that_do_not_decode_leave_the_entry() {
    let mut input = read(r#"{"temperature": 0.5}"#).unwrap();
    let before = input.clone();
    assert_eq!(
        input.apply_preferred(&parse(r#"{"colour": 1}"#)).unwrap_err(),
        "unknown field `colour`"
    );
    assert_eq!(input, before);
}

#[test]
fn a_failing_entry_stops_the_batch() {
    let preferred = parse(r#"{"top_p": 0.75}"#);
    let mut input =
        read(r#"[{"temperature": 0.5}, {"temperature": -1.0}, {"temperature": 0.6}]"#).unwrap();
    assert_eq!(
        input.apply_preferred(&preferred).unwrap_err(),
        "temperature cannot be encoded"
    );
    let entries = many(input);
    assert_eq!(entries[0].params.top_p, 0.75);
    assert_eq!(entries[1].params.top_p, 1.0);
    assert_eq!(entries[2].params.top_p, 1.0);
}

#[test]
fn applied_fields_count_as_supplied() {
    let preferred = parse(r#"{"top_p": 0.75}"#);
    let mut input = read(r#"{"temperature": 0.5}"#).unwrap();
    input.apply_preferred(&preferred).unwrap();
    assert_eq!(keys(&one(input.clone())), ["temperature", "top_p"]);
    let again = input.clone();
    input
        .apply_preferred(&parse(r#"{"top_p": 0.1, "temperature": 0.1}"#))
        .unwrap();
    assert_eq!(input, again);
}

#[test]
fn entries_are_equal_whatever_the_order_of_their_keys() {
    let left = read(r#"{"temperature": 0.5, "top_p": 0.75}"#).unwrap();
    let right = read(r#"{"top_p": 0.75, "temperature": 0.5}"#).unwrap();
    assert_eq!(left, right);
    assert_ne!(
        read(r#"{"temperature": 1.0}"#).unwrap(),
        read("{}").unwrap(),
        "the supplied keys tell entries apart"
    );
    assert_ne!(
        read(r#"{"temperature": 0.5}"#).unwrap(),
        read(r#"{"temperature": 0.6}"#).unwrap()
    );
}

#[test]
fn only_supplied_fields_override_the_preferred_ones() {
    let preferred = parse(r#"{"a": 1, "b": 2}"#);
    let request = parse(r#"{"b": 20, "c": 30, "d": 40}"#);
    let merged = merge_preferred(
        preferred.as_object().unwrap(),
        request.as_object().unwrap(),
        &FieldNames::of_object(parse(r#"{"e": 0, "c": 0, "b": 0}"#).as_object().unwrap()),
    );
    assert_eq!(Value::Object(merged), parse(r#"{"a": 1, "b": 20, "c": 30}"#));
}

#[test]
fn a_single_object_is_read() {
    let entry: SamplingParamsEntry<Params> =
        sampling_params_from_value(parse(r#"{"max_new_tokens": 8}"#)).unwrap();
    assert_eq!(entry.params.max_new_tokens, Some(8));
    assert_eq!(keys(&entry), ["max_new_tokens"]);
}

#[test]
fn what_was_preferred_first_wins() {
    let mut in_turn = read(r#"{"temperature": 0.5}"#).unwrap();
    let mut at_once = in_turn.clone();
    in_turn
        .apply_preferred(&parse(r#"{"top_p": 0.75}"#))
        .unwrap();
    in_turn
        .apply_preferred(&parse(r#"{"top_p": 0.1, "max_new_tokens": 8}"#))
        .unwrap();
    at_once
        .apply_preferred(&parse(r#"{"top_p": 0.75, "max_new_tokens": 8}"#))
        .unwrap();
    assert_eq!(in_turn, at_once);
    let params = one(in_turn).params;
    assert_eq!(params.top_p, 0.75);
    assert_eq!(params.max_new_tokens, Some(8));
}

#[test]
fn preferred_alone_is_preferred_applied_to_nothing() {
    let preferred = parse(r#"{"temperature": 0.25, "top_p": null}"#);
    let mut applied = read("{}").unwrap();
    applied.apply_preferred(&preferred).unwrap();
    assert_eq!(
        SamplingParamsInput::from_preferred(&preferred).unwrap(),
        applied
    );
    assert_eq!(SamplingParamsInput::deserialize(&preferred).unwrap(), applied);

    let preferred = parse(r#"{"colour": 1}"#);
    let mut refused = read("{}").unwrap();
    assert_eq!(
        SamplingParamsInput::<Params>::from_preferred(&preferred).unwrap_err(),
        refused.apply_preferred(&preferred).unwrap_err()
    );
}

#[test]
fn an_empty_preferred_object_changes_nothing() {
    let mut input = read(r#"{"temperature": 0.5, "top_p": null}"#).unwrap();
    let before = input.clone();
    input.apply_preferred(&parse("{}")).unwrap();
    assert_eq!(input, before);
}

#[test]
fn names_are_a_set() {
    let names = |text: &str| FieldNames::of_object(parse(text).as_object().unwrap());
    let left = names(r#"{"a": 1, "b": 2}"#);
    assert!(left.contains("a"));
    assert!(!left.contains("c"));
    assert_eq!(left.list().len(), 2);
    assert_eq!(left, names(r#"{"b": 3, "a": 4}"#));
    assert_eq!(left, left.clone());
    assert_ne!(left, names(r#"{"a": 1}"#));
    assert_ne!(names(r#"{"a": 1}"#), left);
}

#[test]
fn a_list_gives_each_item_the_entry_it_gives_alone() {
    let items = [r#"{"temperature": 0.5}"#, "{}", r#"{"top_p": null}"#];
    let entries = many(read(&format!("[{}]", items.join(", "))).unwrap());
    assert_eq!(entries.len(), items.len());
    for (entry, item) in entries.into_iter().zip(items) {
        assert_eq!(entry, one(read(item).unwrap()));
    }
    assert_eq!(
        read(r#"[{}, {"a": 1}, {"b": 1}]"#).unwrap_err(),
        read(r#"{"a": 1}"#).unwrap_err()
    );
}
