//! Native sampling input parsing and preferred-default precedence.
use crate::json::{
    contents, fields, json, object_get, object_value, scalar_name, scalar_text, Json,
};
use crate::names::FieldNames;
use crate::text::views;
use serde_json::Value;
use vstd::prelude::*;
use vstd::std_specs::cmp::{PartialEqSpec, PartialEqSpecImpl};
use vstd::string::StringExecFns;

verus! {

/// What a sampling input has to be.
pub const EXPECTED_SAMPLING_PARAMS: &'static str =
    "a sampling_params object, or a list of them (one per prompt)";

/// Typed sampling parameters, decoded from a JSON object and encoded to one.
pub trait SamplingParams: Sized {
    fn from_value(value: Value) -> Result<Self, String>;

    fn to_value(&self) -> Result<Value, String>;

    fn has_structural_tag(&self) -> bool;
}

/// Native request parameters and the keys supplied by the caller. Presence
/// matters when preferred defaults are applied, even for explicit nulls.
#[derive(Debug, Clone)]
pub struct SamplingParamsEntry<P> {
    pub params: P,
    /// The keys that the caller supplied.
    pub explicit_fields: FieldNames,
}

/// The `/generate` body's `sampling_params`: one object (broadcast to every
/// prompt) or a list of them (one per prompt).
#[derive(Debug, Clone, PartialEq)]
pub enum SamplingParamsInput<P> {
    One(Box<SamplingParamsEntry<P>>),
    Many(Vec<SamplingParamsEntry<P>>),
}

/// `outcome` is one that decoding a value with this content may have.
pub open spec fn decodes<P: SamplingParams>(content: Json, outcome: Result<P, String>) -> bool {
    exists|value: Value|
        json(value) == content && call_ensures(P::from_value, (value,), outcome)
}

/// `outcome` is one that encoding the parameters may have.
pub open spec fn encodes<P: SamplingParams>(params: P, outcome: Result<Value, String>) -> bool {
    call_ensures(P::to_value, (&params,), outcome)
}

/// The fields of the preferred object, overridden by those of the request's fields
/// that the caller supplied.
pub open spec fn merged_fields(
    preferred: Map<Seq<char>, Json>,
    request: Map<Seq<char>, Json>,
    explicit: Set<Seq<char>>,
) -> Map<Seq<char>, Json> {
    preferred.union_prefer_right(request.restrict(explicit))
}

/// Two entries are equal where their parameters are and the caller supplied the same
/// keys, in whatever order.
impl<P: PartialEq> PartialEq for SamplingParamsEntry<P> {
    fn eq(&self, other: &Self) -> (r: bool) {
        self.params == other.params && self.explicit_fields == other.explicit_fields
    }
}

impl<P: PartialEq> PartialEqSpecImpl for SamplingParamsEntry<P> {
    open spec fn obeys_eq_spec() -> bool {
        P::obeys_eq_spec()
    }

    open spec fn eq_spec(&self, other: &Self) -> bool {
        self.params.eq_spec(&other.params) && self.explicit_fields@ == other.explicit_fields@
    }
}

/// `outcome` is what reading one parameter object with this content may yield.
pub open spec fn entry_outcome<P: SamplingParams>(
    content: Json,
    outcome: Result<SamplingParamsEntry<P>, String>,
) -> bool {
    match content {
        Json::Object(entries) => match outcome {
            Ok(entry) => {
                &&& decodes::<P>(content, Ok(entry.params))
                &&& entry.explicit_fields@ == entries.dom()
            },
            Err(message) => decodes::<P>(content, Err(message)),
        },
        _ => outcome matches Err(message) && message@ == "sampling_params must be an object"@,
    }
}

/// Reads one parameter object, with the keys that it holds.
pub fn sampling_params_from_value<P: SamplingParams>(value: Value) -> (r: Result<
    SamplingParamsEntry<P>,
    String,
>)
    ensures
        entry_outcome(json(value), r),
{
    let explicit_fields = match value.as_object() {
        Some(object) => FieldNames::of_object(object),
        None => {
            return Err("sampling_params must be an object".to_owned());
        },
    };
    match P::from_value(value) {
        Ok(params) => Ok(SamplingParamsEntry { params, explicit_fields }),
        Err(message) => Err(message),
    }
}

/// The preferred object's fields under those fields of `request` that the caller
/// supplied.
pub fn merge_preferred(
    preferred: &serde_json::Map<String, Value>,
    request: &serde_json::Map<String, Value>,
    explicit_fields: &FieldNames,
) -> (merged: serde_json::Map<String, Value>)
    ensures
        fields(merged) == merged_fields(
            fields(*preferred),
            fields(*request),
            explicit_fields@,
        ),
{
    let mut merged = preferred.clone();
    let supplied = explicit_fields.list();
    let ghost names = views(supplied@);
    let mut i: usize = 0;
    while i < supplied.len()
        invariant
            i <= supplied.len(),
            names == views(supplied@),
            fields(merged) == merged_fields(
                fields(*preferred),
                fields(*request),
                names.take(i as int).to_set(),
            ),
        decreases supplied.len() - i,
    {
        let field = &supplied[i];
        let ghost before = names.take(i as int).to_set();
        let ghost after = names.take(i + 1).to_set();
        proof {
            assert(names.take(i + 1) == names.take(i as int).push(field@));
            assert(after == before.insert(field@)) by {
                assert forall|name: Seq<char>| after.contains(name) == before.insert(
                    field@,
                ).contains(name) by {
                    let shorter = names.take(i as int);
                    let longer = names.take(i + 1);
                    if shorter.contains(name) {
                        let at = choose|at: int| 0 <= at < shorter.len() && shorter[at] == name;
                        assert(longer[at] == name);
                    }
                    assert(longer[i as int] == field@);
                }
            }
        }
        match object_get(request, field.as_str()) {
            Some(value) => {
                merged.insert(field.clone(), value.clone());
                assert(fields(merged) == merged_fields(fields(*preferred), fields(*request), after));
            },
            None => {
                assert(fields(merged) == merged_fields(fields(*preferred), fields(*request), after));
            },
        }
        i += 1;
    }
    assert(names.take(i as int) == names);
    merged
}

/// What applying preferred parameters to `before` may leave in `after` and return.
pub open spec fn preferred_applied<P: SamplingParams>(
    before: SamplingParamsEntry<P>,
    preferred: Json,
    after: SamplingParamsEntry<P>,
    r: Result<(), String>,
) -> bool {
    match preferred {
        Json::Object(defaults) => exists|encoded: Result<Value, String>| #[trigger]
            encodes(before.params, encoded) && match encoded {
                Ok(value) => merge_outcome(before, defaults, json(value), after, r),
                Err(message) => r == Err::<(), String>(message) && after == before,
            },
        _ => {
            &&& r matches Err(message)
            &&& message@ == "preferred_sampling_params must be a JSON object"@
            &&& after == before
        },
    }
}

/// What merging the encoded request into the preferred fields, and decoding the
/// result, may leave in `after` and return.
pub open spec fn merge_outcome<P: SamplingParams>(
    before: SamplingParamsEntry<P>,
    defaults: Map<Seq<char>, Json>,
    request: Json,
    after: SamplingParamsEntry<P>,
    r: Result<(), String>,
) -> bool {
    match request {
        Json::Object(entries) => {
            let merged = Json::Object(merged_fields(defaults, entries, before.explicit_fields@));
            match r {
                Ok(_) => entry_outcome(merged, Ok(after)),
                Err(message) => entry_outcome::<P>(merged, Err(message)) && after == before,
            }
        },
        _ => {
            &&& r matches Err(message)
            &&& message@ == "SamplingParams did not serialize as an object"@
            &&& after == before
        },
    }
}

fn apply_preferred_to_one<P: SamplingParams>(
    params: &mut SamplingParamsEntry<P>,
    preferred: &Value,
) -> (r: Result<(), String>)
    ensures
        preferred_applied(*old(params), json(*preferred), *final(params), r),
{
    let preferred = match preferred.as_object() {
        Some(object) => object,
        None => {
            return Err("preferred_sampling_params must be a JSON object".to_owned());
        },
    };
    let encoded = params.params.to_value();
    assert(encodes(params.params, encoded));
    let request_value = match encoded {
        Ok(value) => value,
        Err(message) => {
            return Err(message);
        },
    };
    let request = match request_value.as_object() {
        Some(object) => object,
        None => {
            return Err("SamplingParams did not serialize as an object".to_owned());
        },
    };
    let merged = merge_preferred(preferred, request, &params.explicit_fields);
    match sampling_params_from_value(object_value(merged)) {
        Ok(entry) => {
            *params = entry;
            Ok(())
        },
        Err(message) => Err(message),
    }
}

/// What reading a list of parameter objects may yield: every entry in order, or the
/// message of the first that fails.
pub open spec fn list_outcome<P: SamplingParams>(
    items: Seq<Json>,
    outcome: Result<Seq<SamplingParamsEntry<P>>, String>,
) -> bool {
    match outcome {
        Ok(entries) => {
            &&& entries.len() == items.len()
            &&& forall|i: int|
                0 <= i < items.len() ==> entry_outcome(#[trigger] items[i], Ok(entries[i]))
        },
        Err(message) => exists|failed: int| #[trigger] first_failure::<P>(items, failed, message),
    }
}

/// Reading the item at `failed` fails with `message`, those before it are read.
pub open spec fn first_failure<P: SamplingParams>(
    items: Seq<Json>,
    failed: int,
    message: String,
) -> bool {
    &&& 0 <= failed < items.len()
    &&& entry_outcome::<P>(items[failed], Err(message))
    &&& forall|i: int| 0 <= i < failed ==> readable::<P>(#[trigger] items[i])
}

/// Reading one parameter object with this content may succeed.
pub open spec fn readable<P: SamplingParams>(content: Json) -> bool {
    exists|entry: SamplingParamsEntry<P>| entry_outcome(content, Ok(entry))
}

fn sampling_params_from_values<P: SamplingParams>(values: &Vec<Value>) -> (r: Result<
    Vec<SamplingParamsEntry<P>>,
    String,
>)
    ensures
        match r {
            Ok(entries) => list_outcome::<P>(contents(values@), Ok(entries@)),
            Err(message) => list_outcome::<P>(contents(values@), Err(message)),
        },
{
    let ghost items = contents(values@);
    let mut entries: Vec<SamplingParamsEntry<P>> = Vec::new();
    let mut i: usize = 0;
    while i < values.len()
        invariant
            i <= values.len(),
            entries.len() == i,
            items == contents(values@),
            forall|k: int| 0 <= k < i ==> entry_outcome(#[trigger] items[k], Ok(entries[k])),
        decreases values.len() - i,
    {
        let outcome = sampling_params_from_value(values[i].clone());
        assert(entry_outcome(items[i as int], outcome));
        match outcome {
            Ok(entry) => {
                entries.push(entry);
            },
            Err(message) => {
                assert(first_failure::<P>(items, i as int, message)) by {
                    assert forall|k: int| 0 <= k < i implies readable::<P>(
                        #[trigger] items[k],
                    ) by {
                        assert(entry_outcome(items[k], Ok(entries[k])));
                    }
                }
                assert(exists|failed: int| first_failure::<P>(items, failed, message));
                let ghost outcome: Result<Seq<SamplingParamsEntry<P>>, String> = Err(message);
                assert(outcome->Err_0 == message);
                assert(list_outcome::<P>(items, outcome));
                return Err(message);
            },
        }
        i += 1;
    }
    Ok(entries)
}

/// The message for a value that is neither an object nor a list: what was found, and what
/// was expected.
pub open spec fn invalid_type(found: Json) -> Seq<char> {
    "invalid type: "@ + scalar_name(found) + ", expected "@ + EXPECTED_SAMPLING_PARAMS@
}

impl<P: SamplingParams> SamplingParamsInput<P> {
    /// Reads the input: an object is one entry, a list is one entry per item, and
    /// the message of the first entry that cannot be read is kept verbatim. Any other
    /// value is an invalid type.
    pub fn deserialize(value: &Value) -> (r: Result<Self, String>)
        ensures
            match json(*value) {
                Json::Object(_) => match r {
                    Ok(SamplingParamsInput::One(entry)) => entry_outcome(json(*value), Ok(*entry)),
                    Ok(SamplingParamsInput::Many(_)) => false,
                    Err(message) => entry_outcome::<P>(json(*value), Err(message)),
                },
                Json::Array(items) => match r {
                    Ok(SamplingParamsInput::One(_)) => false,
                    Ok(SamplingParamsInput::Many(entries)) => list_outcome(items, Ok(entries@)),
                    Err(message) => list_outcome::<P>(items, Err(message)),
                },
                other => r matches Err(message) && message@ == invalid_type(other),
            },
    {
        if value.as_object().is_some() {
            return match sampling_params_from_value(value.clone()) {
                Ok(params) => Ok(SamplingParamsInput::One(Box::new(params))),
                Err(message) => Err(message),
            };
        }
        match value.as_array() {
            Some(values) => match sampling_params_from_values(values) {
                Ok(params) => Ok(SamplingParamsInput::Many(params)),
                Err(message) => Err(message),
            },
            None => {
                let mut message = "invalid type: ".to_owned();
                message.append(scalar_text(value).as_str());
                message.append(", expected ");
                message.append(EXPECTED_SAMPLING_PARAMS);
                Err(message)
            },
        }
    }

    /// Merge launch-time preferred params beneath request params. A request key
    /// wins even when it explicitly carries the type's default or null.
    pub fn apply_preferred(&mut self, preferred: &Value) -> (r: Result<(), String>)
        ensures
            match (*old(self), *final(self)) {
                (SamplingParamsInput::One(before), SamplingParamsInput::One(after)) =>
                    preferred_applied(*before, json(*preferred), *after, r),
                (SamplingParamsInput::Many(before), SamplingParamsInput::Many(after)) =>
                    batch_applied(before@, json(*preferred), after@, r),
                _ => false,
            },
    {
        match self {
            SamplingParamsInput::One(params) => apply_preferred_to_one(&mut **params, preferred),
            SamplingParamsInput::Many(params) => apply_preferred_to_all(params, preferred),
        }
    }

    /// Takes preferred parameters as they are, in place of those of a request.
    pub fn from_preferred(preferred: &Value) -> (r: Result<Self, String>)
        ensures
            match r {
                Ok(SamplingParamsInput::One(entry)) => entry_outcome(json(*preferred), Ok(*entry)),
                Ok(SamplingParamsInput::Many(_)) => false,
                Err(message) => entry_outcome::<P>(json(*preferred), Err(message)),
            },
    {
        match sampling_params_from_value(preferred.clone()) {
            Ok(params) => Ok(SamplingParamsInput::One(Box::new(params))),
            Err(message) => Err(message),
        }
    }
}

/// What applying preferred parameters to a list may leave and return: every entry
/// gets them in turn, up to the first that fails; that one and those behind it stay.
pub open spec fn batch_applied<P: SamplingParams>(
    before: Seq<SamplingParamsEntry<P>>,
    preferred: Json,
    after: Seq<SamplingParamsEntry<P>>,
    r: Result<(), String>,
) -> bool {
    &&& after.len() == before.len()
    &&& match r {
        Ok(_) => forall|i: int|
            0 <= i < before.len() ==> preferred_applied(
                #[trigger] before[i],
                preferred,
                after[i],
                Ok(()),
            ),
        Err(message) => exists|failed: int| #[trigger]
            batch_failed(before, preferred, after, message, failed),
    }
}

/// The entry at `failed` is the first to fail, with `message`.
pub open spec fn batch_failed<P: SamplingParams>(
    before: Seq<SamplingParamsEntry<P>>,
    preferred: Json,
    after: Seq<SamplingParamsEntry<P>>,
    message: String,
    failed: int,
) -> bool {
    &&& 0 <= failed < before.len()
    &&& preferred_applied(before[failed], preferred, after[failed], Err(message))
    &&& forall|i: int|
        0 <= i < failed ==> preferred_applied(#[trigger] before[i], preferred, after[i], Ok(()))
    &&& forall|i: int| failed < i < before.len() ==> after[i] == #[trigger] before[i]
}

fn apply_preferred_to_all<P: SamplingParams>(
    params: &mut Vec<SamplingParamsEntry<P>>,
    preferred: &Value,
) -> (r: Result<(), String>)
    ensures
        batch_applied(old(params)@, json(*preferred), final(params)@, r),
{
    let ghost before = params@;
    let mut i: usize = 0;
    while i < params.len()
        invariant
            i <= params.len(),
            params.len() == before.len(),
            before == old(params)@,
            forall|k: int|
                0 <= k < i ==> preferred_applied(
                    #[trigger] before[k],
                    json(*preferred),
                    params[k],
                    Ok(()),
                ),
            forall|k: int| i <= k < before.len() ==> params[k] == #[trigger] before[k],
        decreases params.len() - i,
    {
        let applied = apply_preferred_to_one(&mut params[i], preferred);
        match applied {
            Ok(_) => {},
            Err(message) => {
                assert(batch_failed(before, json(*preferred), params@, message, i as int));
                return Err(message);
            },
        }
        i += 1;
    }
    Ok(())
}

/// A field that the caller supplied, and that the encoded request carries, comes out
/// of the merge with the request's value, be it a default, a null or anything else.
pub proof fn law_request_field_wins(
    defaults: Map<Seq<char>, Json>,
    request: Map<Seq<char>, Json>,
    explicit: Set<Seq<char>>,
    field: Seq<char>,
)
    requires
        explicit.contains(field),
        request.contains_key(field),
    ensures
        merged_fields(defaults, request, explicit).contains_key(field),
        merged_fields(defaults, request, explicit)[field] == request[field],
{
}

/// A field that the caller omitted, or that the encoded request lacks, comes out of the
/// merge as the preferred parameters have it, present or absent.
pub proof fn law_omitted_field_is_preferred(
    defaults: Map<Seq<char>, Json>,
    request: Map<Seq<char>, Json>,
    explicit: Set<Seq<char>>,
    field: Seq<char>,
)
    requires
        !explicit.contains(field) || !request.contains_key(field),
    ensures
        merged_fields(defaults, request, explicit).contains_key(field) == defaults.contains_key(
            field,
        ),
        defaults.contains_key(field) ==> merged_fields(defaults, request, explicit)[field]
            == defaults[field],
{
}

/// Merging the preferred fields a second time, into what the first merge gave, changes
/// nothing.
pub proof fn law_merge_is_idempotent(
    defaults: Map<Seq<char>, Json>,
    request: Map<Seq<char>, Json>,
    explicit: Set<Seq<char>>,
)
    ensures
        ({
            let merged = merged_fields(defaults, request, explicit);
            merged_fields(defaults, merged, merged.dom()) == merged
        }),
{
    let merged = merged_fields(defaults, request, explicit);
    assert(merged_fields(defaults, merged, merged.dom()) =~= merged);
}

/// Once preferred parameters were applied, every preferred field counts as supplied,
/// next to the fields that the caller supplied and that the request encodes; the
/// parameters decode from an object in which those fields have the request's values.
pub proof fn law_applied_entry<P: SamplingParams>(
    before: SamplingParamsEntry<P>,
    defaults: Map<Seq<char>, Json>,
    after: SamplingParamsEntry<P>,
)
    requires
        preferred_applied(before, Json::Object(defaults), after, Ok(())),
    ensures
        exists|value: Value, request: Map<Seq<char>, Json>|
            {
                &&& #[trigger] encodes(before.params, Ok(value))
                &&& json(value) == Json::Object(request)
                &&& after.explicit_fields@ == defaults.dom().union(
                    before.explicit_fields@.intersect(request.dom()),
                )
                &&& decodes::<P>(
                    Json::Object(#[trigger] merged_fields(defaults, request, before.explicit_fields@)),
                    Ok(after.params),
                )
            },
{
    let encoded = choose|encoded: Result<Value, String>| #[trigger]
        encodes(before.params, encoded) && match encoded {
            Ok(value) => merge_outcome(before, defaults, json(value), after, Ok(())),
            Err(message) => false,
        };
    let value = encoded->Ok_0;
    let request = json(value)->Object_0;
    let merged = merged_fields(defaults, request, before.explicit_fields@);
    assert(merged.dom() =~= defaults.dom().union(before.explicit_fields@.intersect(request.dom())));
    assert(encodes(before.params, Ok(value)));
}

/// What was preferred first wins over what is preferred later: merging two preferred
/// objects in turn is merging the later one with the earlier one put over it.
pub proof fn law_earlier_preferred_wins(
    earlier: Map<Seq<char>, Json>,
    later: Map<Seq<char>, Json>,
    request: Map<Seq<char>, Json>,
    explicit: Set<Seq<char>>,
)
    ensures
        ({
            let merged = merged_fields(earlier, request, explicit);
            merged_fields(later, merged, merged.dom()) == merged_fields(
                later.union_prefer_right(earlier),
                request,
                explicit,
            )
        }),
{
    let merged = merged_fields(earlier, request, explicit);
    assert(merged_fields(later, merged, merged.dom()) =~= merged_fields(
        later.union_prefer_right(earlier),
        request,
        explicit,
    ));
}

/// Where the caller supplied nothing, the merge gives the preferred fields.
pub proof fn law_nothing_supplied(defaults: Map<Seq<char>, Json>, request: Map<Seq<char>, Json>)
    ensures
        merged_fields(defaults, request, Set::empty()) == defaults,
{
    assert(merged_fields(defaults, request, Set::empty()) =~= defaults);
}

/// Two ways to come by an entry have the same outcome: the same parameters and keys, or
/// the same message.
pub open spec fn same_outcome<P>(
    left: Result<SamplingParamsEntry<P>, String>,
    right: Result<SamplingParamsEntry<P>, String>,
) -> bool {
    match (left, right) {
        (Ok(left), Ok(right)) => left.params == right.params && left.explicit_fields@
            == right.explicit_fields@,
        (Err(left), Err(right)) => left@ == right@,
        _ => false,
    }
}

/// Decoding this content has only one outcome.
pub open spec fn decodes_one_way<P: SamplingParams>(content: Json) -> bool {
    forall|left: Result<P, String>, right: Result<P, String>|
        #![trigger decodes(content, left), decodes(content, right)]
        decodes(content, left) && decodes(content, right) ==> match (left, right) {
            (Ok(left), Ok(right)) => left == right,
            (Err(left), Err(right)) => left@ == right@,
            _ => false,
        }
}

/// Encoding these parameters gives an object.
pub open spec fn encodes_as_object<P: SamplingParams>(params: P) -> bool {
    forall|outcome: Result<Value, String>| #[trigger]
        encodes(params, outcome) ==> outcome is Ok && json(outcome->Ok_0) is Object
}

/// Taking preferred parameters as they are agrees with reading an empty object and
/// applying them to it: both succeed with the same entry, or both fail with the same
/// message. `taken` is also what reading the preferred object as a request gives.
pub proof fn law_from_preferred_is_applied_to_nothing<P: SamplingParams>(
    defaults: Map<Seq<char>, Json>,
    empty: SamplingParamsEntry<P>,
    after: SamplingParamsEntry<P>,
    applied: Result<(), String>,
    taken: Result<SamplingParamsEntry<P>, String>,
)
    requires
        entry_outcome(Json::Object(Map::empty()), Ok(empty)),
        encodes_as_object(empty.params),
        decodes_one_way::<P>(Json::Object(defaults)),
        preferred_applied(empty, Json::Object(defaults), after, applied),
        entry_outcome(Json::Object(defaults), taken),
    ensures
        same_outcome(
            match applied {
                Ok(_) => Ok(after),
                Err(message) => Err(message),
            },
            taken,
        ),
{
    let encoded = choose|encoded: Result<Value, String>| #[trigger]
        encodes(empty.params, encoded) && match encoded {
            Ok(value) => merge_outcome(empty, defaults, json(value), after, applied),
            Err(message) => applied == Err::<(), String>(message) && after == empty,
        };
    let request = json(encoded->Ok_0)->Object_0;
    assert(empty.explicit_fields@ =~= Set::empty());
    law_nothing_supplied(defaults, request);
    let outcome: Result<SamplingParamsEntry<P>, String> = match applied {
        Ok(_) => Ok(after),
        Err(message) => Err(message),
    };
    lemma_one_outcome(Json::Object(defaults), outcome, taken);
}

/// The parameters are read and written field by field: `get` is the value of a typed
/// field, `read` what a JSON value makes of it, `default` what it is without one.
pub open spec fn codes_by_field<P: SamplingParams, V>(
    get: spec_fn(P, Seq<char>) -> V,
    read: spec_fn(Seq<char>, Json) -> V,
    default: spec_fn(Seq<char>) -> V,
) -> bool {
    &&& forall|entries: Map<Seq<char>, Json>, params: P, field: Seq<char>|
        #![trigger decodes(Json::Object(entries), Ok(params)), get(params, field)]
        decodes(Json::Object(entries), Ok(params)) ==> get(params, field) == if entries.contains_key(
            field,
        ) {
            read(field, entries[field])
        } else {
            default(field)
        }
    &&& forall|params: P, value: Value, field: Seq<char>|
        #![trigger encodes(params, Ok(value)), get(params, field)]
        encodes(params, Ok(value)) && json(value) is Object && json(
            value,
        )->Object_0.contains_key(field) ==> read(field, json(value)->Object_0[field]) == get(
            params,
            field,
        )
}

/// Encoding these parameters writes a field.
pub open spec fn writes_field<P: SamplingParams>(params: P, field: Seq<char>) -> bool {
    forall|value: Value| #[trigger]
        encodes(params, Ok(value)) && json(value) is Object ==> json(
            value,
        )->Object_0.contains_key(field)
}

/// The value of a typed field after preferred parameters were applied: as before where the
/// caller supplied it, else the preferred one, else the type's default.
pub open spec fn field_after<P: SamplingParams, V>(
    get: spec_fn(P, Seq<char>) -> V,
    read: spec_fn(Seq<char>, Json) -> V,
    default: spec_fn(Seq<char>) -> V,
    before: SamplingParamsEntry<P>,
    defaults: Map<Seq<char>, Json>,
    field: Seq<char>,
) -> V {
    if before.explicit_fields@.contains(field) {
        get(before.params, field)
    } else if defaults.contains_key(field) {
        read(field, defaults[field])
    } else {
        default(field)
    }
}

/// Of parameters that are read and written field by field, a field that the caller
/// supplied keeps its value, be it the type's default or what a null stands for; any
/// other takes the preferred value, or the type's default where there is none.
pub proof fn law_typed_fields<P: SamplingParams, V>(
    get: spec_fn(P, Seq<char>) -> V,
    read: spec_fn(Seq<char>, Json) -> V,
    default: spec_fn(Seq<char>) -> V,
    before: SamplingParamsEntry<P>,
    defaults: Map<Seq<char>, Json>,
    after: SamplingParamsEntry<P>,
    field: Seq<char>,
)
    requires
        codes_by_field(get, read, default),
        preferred_applied(before, Json::Object(defaults), after, Ok(())),
        before.explicit_fields@.contains(field) ==> writes_field(before.params, field),
    ensures
        get(after.params, field) == field_after(get, read, default, before, defaults, field),
        after.explicit_fields@.contains(field) == (before.explicit_fields@.contains(field)
            || defaults.contains_key(field)),
{
    law_applied_entry(before, defaults, after);
    let (value, request) = choose|value: Value, request: Map<Seq<char>, Json>|
        {
            &&& #[trigger] encodes(before.params, Ok(value))
            &&& json(value) == Json::Object(request)
            &&& after.explicit_fields@ == defaults.dom().union(
                before.explicit_fields@.intersect(request.dom()),
            )
            &&& decodes::<P>(
                Json::Object(#[trigger] merged_fields(defaults, request, before.explicit_fields@)),
                Ok(after.params),
            )
        };
    let merged = merged_fields(defaults, request, before.explicit_fields@);
    assert(decodes::<P>(Json::Object(merged), Ok(after.params)));
    assert(encodes(before.params, Ok(value)));
    let after_value = get(after.params, field);
    let before_value = get(before.params, field);
    if before.explicit_fields@.contains(field) {
        assert(request.contains_key(field));
        assert(merged[field] == request[field]);
    }
}

/// An empty preferred object changes no field of an entry as it was read.
pub proof fn law_nothing_preferred<P: SamplingParams, V>(
    get: spec_fn(P, Seq<char>) -> V,
    read: spec_fn(Seq<char>, Json) -> V,
    default: spec_fn(Seq<char>) -> V,
    entries: Map<Seq<char>, Json>,
    before: SamplingParamsEntry<P>,
    after: SamplingParamsEntry<P>,
    field: Seq<char>,
)
    requires
        codes_by_field(get, read, default),
        entry_outcome(Json::Object(entries), Ok(before)),
        preferred_applied(before, Json::Object(Map::empty()), after, Ok(())),
        entries.contains_key(field) ==> writes_field(before.params, field),
    ensures
        get(after.params, field) == get(before.params, field),
{
    law_typed_fields(get, read, default, before, Map::empty(), after, field);
    let before_value = get(before.params, field);
    assert(decodes::<P>(Json::Object(entries), Ok(before.params)));
}

/// Applying two preferred objects in turn gives every typed field the value that it gets
/// from the later object with the earlier one put over it; so applying one object twice
/// is applying it once.
pub proof fn law_applied_in_turn<P: SamplingParams, V>(
    get: spec_fn(P, Seq<char>) -> V,
    read: spec_fn(Seq<char>, Json) -> V,
    default: spec_fn(Seq<char>) -> V,
    before: SamplingParamsEntry<P>,
    earlier: Map<Seq<char>, Json>,
    middle: SamplingParamsEntry<P>,
    later: Map<Seq<char>, Json>,
    after: SamplingParamsEntry<P>,
    at_once: SamplingParamsEntry<P>,
    field: Seq<char>,
)
    requires
        codes_by_field(get, read, default),
        preferred_applied(before, Json::Object(earlier), middle, Ok(())),
        preferred_applied(middle, Json::Object(later), after, Ok(())),
        preferred_applied(
            before,
            Json::Object(later.union_prefer_right(earlier)),
            at_once,
            Ok(()),
        ),
        before.explicit_fields@.contains(field) ==> writes_field(before.params, field),
        middle.explicit_fields@.contains(field) ==> writes_field(middle.params, field),
    ensures
        get(after.params, field) == get(at_once.params, field),
{
    law_typed_fields(get, read, default, before, earlier, middle, field);
    law_typed_fields(get, read, default, middle, later, after, field);
    law_typed_fields(
        get,
        read,
        default,
        before,
        later.union_prefer_right(earlier),
        at_once,
        field,
    );
}

/// A list gives each of its items the entry that the item gives alone: as many entries as
/// items, in their order. `alone` is what reading the item at `i` as one object gives.
pub proof fn law_list_items_are_read_alone<P: SamplingParams>(
    items: Seq<Json>,
    entries: Seq<SamplingParamsEntry<P>>,
    i: int,
    alone: Result<SamplingParamsEntry<P>, String>,
)
    requires
        list_outcome(items, Ok(entries)),
        0 <= i < items.len(),
        decodes_one_way::<P>(items[i]),
        entry_outcome(items[i], alone),
    ensures
        entries.len() == items.len(),
        same_outcome(Ok(entries[i]), alone),
{
    let listed: Result<SamplingParamsEntry<P>, String> = Ok(entries[i]);
    assert(entry_outcome(items[i], listed));
    lemma_one_outcome(items[i], listed, alone);
}

/// A list that cannot be read fails with the message that its first unreadable item gives
/// alone; every item before that one can be read alone.
pub proof fn law_list_fails_as_its_first_unreadable_item<P: SamplingParams>(
    items: Seq<Json>,
    message: String,
)
    requires
        list_outcome::<P>(items, Err(message)),
        forall|i: int| 0 <= i < items.len() ==> decodes_one_way::<P>(#[trigger] items[i]),
    ensures
        exists|failed: int|
            {
                &&& #[trigger] first_failure::<P>(items, failed, message)
                &&& forall|alone: Result<SamplingParamsEntry<P>, String>| #[trigger]
                    entry_outcome(items[failed], alone) ==> same_outcome(Err(message), alone)
                &&& forall|i: int, alone: Result<SamplingParamsEntry<P>, String>|
                    0 <= i < failed && #[trigger] entry_outcome(items[i], alone) ==> alone is Ok
            },
{
    let outcome: Result<Seq<SamplingParamsEntry<P>>, String> = Err(message);
    assert(outcome->Err_0 == message);
    let failed = choose|failed: int| #[trigger] first_failure::<P>(items, failed, message);
    assert(first_failure::<P>(items, failed, message));
    assert forall|alone: Result<SamplingParamsEntry<P>, String>| #[trigger]
        entry_outcome(items[failed], alone) implies same_outcome(Err(message), alone) by {
        lemma_one_outcome(items[failed], Err(message), alone);
    }
    assert forall|i: int, alone: Result<SamplingParamsEntry<P>, String>|
        0 <= i < failed && #[trigger] entry_outcome(items[i], alone) implies alone is Ok by {
        assert(readable::<P>(items[i]));
        let entry = choose|entry: SamplingParamsEntry<P>| entry_outcome(items[i], Ok(entry));
        lemma_one_outcome(items[i], Ok(entry), alone);
    }
}

/// Reading an object whose content decodes in one way only has one outcome.
proof fn lemma_one_outcome<P: SamplingParams>(
    content: Json,
    left: Result<SamplingParamsEntry<P>, String>,
    right: Result<SamplingParamsEntry<P>, String>,
)
    requires
        decodes_one_way::<P>(content),
        entry_outcome(content, left),
        entry_outcome(content, right),
    ensures
        same_outcome(left, right),
{
    if content is Object {
        let left_params: Result<P, String> = match left {
            Ok(entry) => Ok(entry.params),
            Err(message) => Err(message),
        };
        let right_params: Result<P, String> = match right {
            Ok(entry) => Ok(entry.params),
            Err(message) => Err(message),
        };
        assert(decodes(content, left_params));
        assert(decodes(content, right_params));
    }
}

/// Taking preferred parameters that are no object fails, a list of objects included; no
/// premise on the type of the parameters is needed.
pub proof fn law_only_an_object_is_taken<P: SamplingParams>(
    preferred: Json,
    taken: Result<SamplingParamsEntry<P>, String>,
)
    requires
        !(preferred is Object),
        entry_outcome(preferred, taken),
    ensures
        taken matches Err(message) && message@ == "sampling_params must be an object"@,
{
}

/// What holds of the typed fields of one entry holds of those of every entry of a list.
pub proof fn law_typed_fields_of_a_list<P: SamplingParams, V>(
    get: spec_fn(P, Seq<char>) -> V,
    read: spec_fn(Seq<char>, Json) -> V,
    default: spec_fn(Seq<char>) -> V,
    before: Seq<SamplingParamsEntry<P>>,
    defaults: Map<Seq<char>, Json>,
    after: Seq<SamplingParamsEntry<P>>,
    i: int,
    field: Seq<char>,
)
    requires
        codes_by_field(get, read, default),
        batch_applied(before, Json::Object(defaults), after, Ok(())),
        0 <= i < before.len(),
        before[i].explicit_fields@.contains(field) ==> writes_field(before[i].params, field),
    ensures
        after.len() == before.len(),
        get(after[i].params, field) == field_after(get, read, default, before[i], defaults, field),
{
    assert(preferred_applied(before[i], Json::Object(defaults), after[i], Ok(())));
    law_typed_fields(get, read, default, before[i], defaults, after[i], field);
}

/// One parameter object gives the keys that it holds and parameters that decode from a
/// value with just its content, or the decoder's own message; anything else is refused.
pub proof fn law_one_object_is_read<P: SamplingParams>(
    value: Value,
    r: Result<SamplingParamsEntry<P>, String>,
)
    requires
        call_ensures(sampling_params_from_value::<P>, (value,), r),
    ensures
        !(json(value) is Object) ==> r is Err && r->Err_0@ == "sampling_params must be an object"@,
        json(value) is Object && r is Ok ==> (forall|field: Seq<char>| #[trigger]
            r->Ok_0.explicit_fields@.contains(field) == json(value)->Object_0.contains_key(field))
            && exists|same: Value|
            json(same) == json(value) && #[trigger] call_ensures(
                P::from_value,
                (same,),
                Ok(r->Ok_0.params),
            ),
        json(value) is Object && r is Err ==> exists|same: Value|
            json(same) == json(value) && #[trigger] call_ensures(
                P::from_value,
                (same,),
                Err(r->Err_0),
            ),
{
    lemma_entry_in_full(json(value), r);
}

/// What reading one parameter object comes to, in full.
proof fn lemma_entry_in_full<P: SamplingParams>(
    content: Json,
    r: Result<SamplingParamsEntry<P>, String>,
)
    requires
        entry_outcome(content, r),
    ensures
        !(content is Object) ==> r is Err && r->Err_0@ == "sampling_params must be an object"@,
        content is Object && r is Ok ==> (forall|field: Seq<char>| #[trigger]
            r->Ok_0.explicit_fields@.contains(field) == content->Object_0.contains_key(field))
            && exists|same: Value|
            json(same) == content && #[trigger] call_ensures(
                P::from_value,
                (same,),
                Ok(r->Ok_0.params),
            ),
        content is Object && r is Err ==> exists|same: Value|
            json(same) == content && #[trigger] call_ensures(P::from_value, (same,), Err(r->Err_0)),
{
    if content is Object {
        let params: Result<P, String> = match r {
            Ok(entry) => Ok(entry.params),
            Err(message) => Err(message),
        };
        assert(decodes(content, params));
        let same = choose|same: Value|
            json(same) == content && call_ensures(P::from_value, (same,), params);
        assert(json(same) == content && call_ensures(P::from_value, (same,), params));
    }
}

/// An object is read as one entry, with its own keys and with parameters that decode from
/// its content, or fails as its decoding does.
pub proof fn law_an_object_is_one_entry<P: SamplingParams>(
    value: Value,
    r: Result<SamplingParamsInput<P>, String>,
)
    requires
        json(value) is Object,
        call_ensures(SamplingParamsInput::<P>::deserialize, (&value,), r),
    ensures
        r is Ok ==> r->Ok_0 is One && (forall|field: Seq<char>| #[trigger]
            r->Ok_0->One_0.explicit_fields@.contains(field) == json(
                value,
            )->Object_0.contains_key(field)) && exists|same: Value|
            json(same) == json(value) && #[trigger] call_ensures(
                P::from_value,
                (same,),
                Ok(r->Ok_0->One_0.params),
            ),
        r is Err ==> exists|same: Value|
            json(same) == json(value) && #[trigger] call_ensures(
                P::from_value,
                (same,),
                Err(r->Err_0),
            ),
{
    match r {
        Ok(input) => {
            lemma_entry_in_full::<P>(json(value), Ok(*input->One_0));
        },
        Err(message) => {
            lemma_entry_in_full::<P>(json(value), Err(message));
        },
    }
}

/// A list is read as one entry per item, in their order, each with the keys of its own item
/// and with parameters that decode from its own item's content.
pub proof fn law_a_list_is_one_entry_per_item<P: SamplingParams>(
    value: Value,
    r: Result<SamplingParamsInput<P>, String>,
    i: int,
)
    requires
        json(value) is Array,
        r is Ok,
        call_ensures(SamplingParamsInput::<P>::deserialize, (&value,), r),
    ensures
        r->Ok_0 is Many,
        r->Ok_0->Many_0@.len() == json(value)->Array_0.len(),
        0 <= i < json(value)->Array_0.len() ==> {
            &&& json(value)->Array_0[i] is Object
            &&& forall|field: Seq<char>| #[trigger]
                r->Ok_0->Many_0@[i].explicit_fields@.contains(field) == json(
                    value,
                )->Array_0[i]->Object_0.contains_key(field)
            &&& exists|same: Value|
                json(same) == json(value)->Array_0[i] && #[trigger] call_ensures(
                    P::from_value,
                    (same,),
                    Ok(r->Ok_0->Many_0@[i].params),
                )
        },
{
    let items = json(value)->Array_0;
    let entries = r->Ok_0->Many_0@;
    let listed: Result<Seq<SamplingParamsEntry<P>>, String> = Ok(entries);
    assert(list_outcome(items, listed));
    assert(listed->Ok_0 == entries);
    if 0 <= i < items.len() {
        assert(entry_outcome(items[i], Ok(entries[i])));
        lemma_entry_in_full::<P>(items[i], Ok(entries[i]));
    }
}

/// The decoder may accept a value with this content.
pub open spec fn can_decode<P: SamplingParams>(content: Json) -> bool {
    exists|same: Value, params: P|
        json(same) == content && #[trigger] call_ensures(
            P::from_value,
            (same,),
            Ok::<P, String>(params),
        )
}

/// A list fails for an item: one that is no object, or whose decoding fails with the
/// message that comes back; every item before it is an object that can be decoded.
pub proof fn law_a_list_fails_for_an_item<P: SamplingParams>(
    value: Value,
    r: Result<SamplingParamsInput<P>, String>,
)
    requires
        json(value) is Array,
        r is Err,
        call_ensures(SamplingParamsInput::<P>::deserialize, (&value,), r),
    ensures
        exists|failed: int|
            {
                &&& 0 <= failed < json(value)->Array_0.len()
                &&& !(#[trigger] json(value)->Array_0[failed] is Object) ==> r->Err_0@
                    == "sampling_params must be an object"@
                &&& json(value)->Array_0[failed] is Object ==> exists|same: Value|
                    json(same) == json(value)->Array_0[failed] && #[trigger] call_ensures(
                        P::from_value,
                        (same,),
                        Err(r->Err_0),
                    )
                &&& forall|i: int|
                    0 <= i < failed ==> (#[trigger] json(value)->Array_0[i]) is Object
                        && can_decode::<P>(json(value)->Array_0[i])
            },
{
    let items = json(value)->Array_0;
    let message = r->Err_0;
    let outcome: Result<Seq<SamplingParamsEntry<P>>, String> = Err(message);
    assert(list_outcome(items, outcome));
    assert(outcome->Err_0 == message);
    let failed = choose|failed: int| #[trigger] first_failure::<P>(items, failed, message);
    assert(first_failure::<P>(items, failed, message));
    lemma_entry_in_full::<P>(items[failed], Err(message));
    assert forall|i: int| 0 <= i < failed implies (#[trigger] items[i]) is Object && can_decode::<P>(
        items[i],
    ) by {
        assert(readable::<P>(items[i]));
        let entry = choose|entry: SamplingParamsEntry<P>| entry_outcome(items[i], Ok(entry));
        lemma_entry_in_full::<P>(items[i], Ok(entry));
    }
    assert(0 <= failed < items.len());
    assert(!(items[failed] is Object) ==> r->Err_0@ == "sampling_params must be an object"@);
}

/// Any other value is an invalid type, named next to what was expected.
pub proof fn law_scalars_are_invalid<P: SamplingParams>(
    value: Value,
    r: Result<SamplingParamsInput<P>, String>,
    name: String,
)
    requires
        !(json(value) is Object),
        !(json(value) is Array),
        call_ensures(SamplingParamsInput::<P>::deserialize, (&value,), r),
        call_ensures(scalar_text, (&value,), name),
    ensures
        r is Err,
        r->Err_0@ == "invalid type: "@ + name@ + ", expected "@
            + "a sampling_params object, or a list of them (one per prompt)"@,
{
}

/// Preferred parameters are taken as one entry of their own, never as a list.
pub proof fn law_preferred_is_one_entry<P: SamplingParams>(
    preferred: Value,
    r: Result<SamplingParamsInput<P>, String>,
)
    requires
        call_ensures(SamplingParamsInput::<P>::from_preferred, (&preferred,), r),
    ensures
        !(json(preferred) is Object) ==> r is Err && r->Err_0@
            == "sampling_params must be an object"@,
        r is Ok ==> r->Ok_0 is One && (forall|field: Seq<char>| #[trigger]
            r->Ok_0->One_0.explicit_fields@.contains(field) == json(
                preferred,
            )->Object_0.contains_key(field)) && exists|same: Value|
            json(same) == json(preferred) && #[trigger] call_ensures(
                P::from_value,
                (same,),
                Ok(r->Ok_0->One_0.params),
            ),
        json(preferred) is Object && r is Err ==> exists|same: Value|
            json(same) == json(preferred) && #[trigger] call_ensures(
                P::from_value,
                (same,),
                Err(r->Err_0),
            ),
{
    match r {
        Ok(input) => {
            lemma_entry_in_full::<P>(json(preferred), Ok(*input->One_0));
        },
        Err(message) => {
            lemma_entry_in_full::<P>(json(preferred), Err(message));
        },
    }
}

/// Merging takes a field from the request where the caller supplied it and the request has
/// it, and from the preferred fields everywhere else; no field comes from elsewhere.
pub proof fn law_merging_field_by_field(
    preferred: serde_json::Map<String, Value>,
    request: serde_json::Map<String, Value>,
    explicit_fields: FieldNames,
    merged: serde_json::Map<String, Value>,
    field: Seq<char>,
)
    requires
        call_ensures(merge_preferred, (&preferred, &request, &explicit_fields), merged),
    ensures
        explicit_fields@.contains(field) && fields(request).contains_key(field) ==> fields(
            merged,
        ).contains_key(field) && fields(merged)[field] == fields(request)[field],
        !explicit_fields@.contains(field) || !fields(request).contains_key(field) ==> fields(
            merged,
        ).contains_key(field) == fields(preferred).contains_key(field),
        (!explicit_fields@.contains(field) || !fields(request).contains_key(field)) && fields(
            preferred,
        ).contains_key(field) ==> fields(merged)[field] == fields(preferred)[field],
{
}

/// A field of `merged` is the request's where it was supplied and the request has it, and
/// else the preferred one, present or absent.
pub open spec fn merges_field(
    merged: Map<Seq<char>, Json>,
    defaults: Map<Seq<char>, Json>,
    request: Map<Seq<char>, Json>,
    explicit: Set<Seq<char>>,
    field: Seq<char>,
) -> bool {
    if explicit.contains(field) && request.contains_key(field) {
        merged.contains_key(field) && merged[field] == request[field]
    } else {
        &&& merged.contains_key(field) == defaults.contains_key(field)
        &&& defaults.contains_key(field) ==> merged[field] == defaults[field]
    }
}

/// What an entry holds after preferred parameters were applied to it: the keys of the merge
/// and parameters that decode from it, the merge being of the preferred fields and of what
/// the entry's own parameters encode to.
pub open spec fn holds_the_merge<P: SamplingParams>(
    before: SamplingParamsEntry<P>,
    preferred: Json,
    after: SamplingParamsEntry<P>,
) -> bool {
    exists|encoded: Value, merged: Value|
        {
            &&& #[trigger] call_ensures(P::to_value, (&before.params,), Ok(encoded))
            &&& #[trigger] call_ensures(P::from_value, (merged,), Ok(after.params))
            &&& json(encoded) is Object
            &&& json(merged) is Object
            &&& forall|field: Seq<char>| #[trigger]
                merges_field(
                    json(merged)->Object_0,
                    preferred->Object_0,
                    json(encoded)->Object_0,
                    before.explicit_fields@,
                    field,
                )
            &&& forall|field: Seq<char>| #[trigger]
                after.explicit_fields@.contains(field) == json(merged)->Object_0.contains_key(field)
        }
}

/// Why applying preferred parameters to an entry may fail with a message: they are no
/// object, the entry's parameters do not encode, or not to an object, or the merge does not
/// decode.
pub open spec fn fails_with<P: SamplingParams>(
    before: SamplingParamsEntry<P>,
    preferred: Json,
    message: String,
) -> bool {
    if !(preferred is Object) {
        message@ == "preferred_sampling_params must be a JSON object"@
    } else {
        ||| call_ensures(P::to_value, (&before.params,), Err::<Value, String>(message))
        ||| exists|encoded: Value| #[trigger]
            call_ensures(P::to_value, (&before.params,), Ok(encoded)) && !(json(
                encoded,
            ) is Object) && message@ == "SamplingParams did not serialize as an object"@
        ||| exists|encoded: Value, merged: Value|
            {
                &&& #[trigger] call_ensures(P::to_value, (&before.params,), Ok(encoded))
                &&& #[trigger] call_ensures(P::from_value, (merged,), Err::<P, String>(message))
                &&& json(encoded) is Object
                &&& json(merged) is Object
                &&& forall|field: Seq<char>| #[trigger]
                    merges_field(
                        json(merged)->Object_0,
                        preferred->Object_0,
                        json(encoded)->Object_0,
                        before.explicit_fields@,
                        field,
                    )
            }
    }
}

proof fn lemma_applied_in_full<P: SamplingParams>(
    before: SamplingParamsEntry<P>,
    preferred: Json,
    after: SamplingParamsEntry<P>,
    r: Result<(), String>,
)
    requires
        preferred_applied(before, preferred, after, r),
    ensures
        !(preferred is Object) ==> r is Err && r->Err_0@
            == "preferred_sampling_params must be a JSON object"@,
        r is Err ==> after == before && fails_with(before, preferred, r->Err_0),
        r is Ok ==> preferred is Object && holds_the_merge(before, preferred, after),
{
    if preferred is Object {
        let defaults = preferred->Object_0;
        let encoded = choose|encoded: Result<Value, String>| #[trigger]
            encodes(before.params, encoded) && match encoded {
                Ok(value) => merge_outcome(before, defaults, json(value), after, r),
                Err(message) => r == Err::<(), String>(message) && after == before,
            };
        assert(encodes(before.params, encoded));
        if encoded is Ok && json(encoded->Ok_0) is Object {
            let value = encoded->Ok_0;
            let request = json(value)->Object_0;
            let all = merged_fields(defaults, request, before.explicit_fields@);
            let params: Result<P, String> = match r {
                Ok(_) => Ok(after.params),
                Err(message) => Err(message),
            };
            assert(decodes(Json::Object(all), params));
            let merged = choose|merged: Value|
                json(merged) == Json::Object(all) && call_ensures(P::from_value, (merged,), params);
            assert(json(merged) == Json::Object(all) && call_ensures(
                P::from_value,
                (merged,),
                params,
            ));
            assert(call_ensures(P::to_value, (&before.params,), Ok(value)));
            assert forall|field: Seq<char>| #[trigger]
                merges_field(
                    json(merged)->Object_0,
                    defaults,
                    json(value)->Object_0,
                    before.explicit_fields@,
                    field,
                ) by {
                assert(all.contains_key(field) == json(merged)->Object_0.contains_key(field));
            }
        }
    }
}

/// Applying preferred parameters to one entry leaves one entry. Where it succeeds, the entry
/// holds the merge of the preferred fields beneath its own; where it fails, and where the
/// preferred parameters are no object, the entry stays.
pub proof fn law_one_entry_takes_the_preferred<P: SamplingParams>(
    input: &mut SamplingParamsInput<P>,
    preferred: Value,
    r: Result<(), String>,
)
    requires
        *old(input) is One,
        call_ensures(SamplingParamsInput::<P>::apply_preferred, (input, &preferred), r),
    ensures
        *final(input) is One,
        !(json(preferred) is Object) ==> r is Err && r->Err_0@
            == "preferred_sampling_params must be a JSON object"@,
        r is Err ==> *final(input)->One_0 == *old(input)->One_0 && fails_with(
            *old(input)->One_0,
            json(preferred),
            r->Err_0,
        ),
        r is Ok ==> holds_the_merge(*old(input)->One_0, json(preferred), *final(input)->One_0),
{
    lemma_applied_in_full(*old(input)->One_0, json(preferred), *final(input)->One_0, r);
}

/// Applying preferred parameters to a list that succeeds applies them to every entry of it.
pub proof fn law_every_entry_takes_the_preferred<P: SamplingParams>(
    input: &mut SamplingParamsInput<P>,
    preferred: Value,
    r: Result<(), String>,
    i: int,
)
    requires
        *old(input) is Many,
        r is Ok,
        call_ensures(SamplingParamsInput::<P>::apply_preferred, (input, &preferred), r),
    ensures
        *final(input) is Many,
        final(input)->Many_0@.len() == old(input)->Many_0@.len(),
        0 <= i < old(input)->Many_0@.len() ==> holds_the_merge(
            old(input)->Many_0@[i],
            json(preferred),
            final(input)->Many_0@[i],
        ),
{
    let before = old(input)->Many_0@;
    let after = final(input)->Many_0@;
    assert(batch_applied(before, json(preferred), after, r));
    if 0 <= i < before.len() {
        assert(preferred_applied(before[i], json(preferred), after[i], Ok(())));
        lemma_applied_in_full(before[i], json(preferred), after[i], Ok(()));
    }
}

/// Applying preferred parameters to a list that fails has failed for one entry: those before
/// it have taken the preferred parameters, it and those behind it stay.
pub proof fn law_a_failing_entry_stops_the_list<P: SamplingParams>(
    input: &mut SamplingParamsInput<P>,
    preferred: Value,
    r: Result<(), String>,
)
    requires
        *old(input) is Many,
        r is Err,
        call_ensures(SamplingParamsInput::<P>::apply_preferred, (input, &preferred), r),
    ensures
        *final(input) is Many,
        final(input)->Many_0@.len() == old(input)->Many_0@.len(),
        exists|failed: int|
            {
                &&& 0 <= failed < old(input)->Many_0@.len()
                &&& fails_with(
                    #[trigger] old(input)->Many_0@[failed],
                    json(preferred),
                    r->Err_0,
                )
                &&& forall|i: int|
                    0 <= i < failed ==> holds_the_merge(
                        #[trigger] old(input)->Many_0@[i],
                        json(preferred),
                        final(input)->Many_0@[i],
                    )
                &&& forall|i: int|
                    failed <= i < old(input)->Many_0@.len() ==> final(input)->Many_0@[i]
                        == #[trigger] old(input)->Many_0@[i]
            },
{
    let before = old(input)->Many_0@;
    let after = final(input)->Many_0@;
    let message = r->Err_0;
    assert(batch_applied(before, json(preferred), after, r));
    let failed = choose|failed: int| #[trigger]
        batch_failed(before, json(preferred), after, message, failed);
    assert(batch_failed(before, json(preferred), after, message, failed));
    lemma_applied_in_full(before[failed], json(preferred), after[failed], Err(message));
    assert forall|i: int| 0 <= i < failed implies holds_the_merge(
        #[trigger] before[i],
        json(preferred),
        after[i],
    ) by {
        assert(preferred_applied(before[i], json(preferred), after[i], Ok(())));
        lemma_applied_in_full(before[i], json(preferred), after[i], Ok(()));
    }
    assert(before[failed] == after[failed]);
}

/// Applying preferred parameters to one entry succeeds where nothing stands in the way: they
/// are an object, the entry's parameters encode to one, and no merge of the two fails to
/// decode. Where encoding fails, its message comes back.
pub proof fn law_success_is_owed<P: SamplingParams>(
    input: &mut SamplingParamsInput<P>,
    preferred: Value,
    r: Result<(), String>,
)
    requires
        *old(input) is One,
        json(preferred) is Object,
        call_ensures(SamplingParamsInput::<P>::apply_preferred, (input, &preferred), r),
    ensures
        (forall|outcome: Result<Value, String>| #[trigger]
            call_ensures(P::to_value, (&old(input)->One_0.params,), outcome) ==> outcome is Ok
                && json(outcome->Ok_0) is Object) && (forall|
            value: Value,
            outcome: Result<P, String>,
        | #[trigger]
            call_ensures(P::from_value, (value,), outcome) && json(value) is Object
                ==> outcome is Ok) ==> r is Ok,
        (forall|outcome: Result<Value, String>| #[trigger]
            call_ensures(P::to_value, (&old(input)->One_0.params,), outcome) ==> outcome is Err)
            ==> r is Err && call_ensures(
            P::to_value,
            (&old(input)->One_0.params,),
            Err::<Value, String>(r->Err_0),
        ),
{
    let before = *old(input)->One_0;
    let after = *final(input)->One_0;
    let defaults = json(preferred)->Object_0;
    assert(preferred_applied(before, json(preferred), after, r));
    let encoded = choose|encoded: Result<Value, String>| #[trigger]
        encodes(before.params, encoded) && match encoded {
            Ok(value) => merge_outcome(before, defaults, json(value), after, r),
            Err(message) => r == Err::<(), String>(message) && after == before,
        };
    assert(encodes(before.params, encoded));
    assert(call_ensures(P::to_value, (&before.params,), encoded));
    if encoded is Ok && json(encoded->Ok_0) is Object && r is Err {
        let merged = Json::Object(
            merged_fields(defaults, json(encoded->Ok_0)->Object_0, before.explicit_fields@),
        );
        lemma_entry_in_full::<P>(merged, Err(r->Err_0));
    }
}

/// Entries are compared by their parameters and by the sets of their keys.
pub proof fn law_entries_are_compared_by_params_and_keys<P: PartialEq>(
    left: SamplingParamsEntry<P>,
    right: SamplingParamsEntry<P>,
    equal: bool,
)
    requires
        P::obeys_eq_spec(),
        call_ensures(<SamplingParamsEntry<P> as PartialEq>::eq, (&left, &right), equal),
    ensures
        equal <==> left.params.eq_spec(&right.params) && forall|field: Seq<char>| #[trigger]
            left.explicit_fields@.contains(field) == right.explicit_fields@.contains(field),
{
    if forall|field: Seq<char>| #[trigger]
        left.explicit_fields@.contains(field) == right.explicit_fields@.contains(field) {
        assert(left.explicit_fields@ =~= right.explicit_fields@);
    }
}

} // verus!
