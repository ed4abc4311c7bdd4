//! Selecting the records of an object type that satisfy a list of filters.
use vstd::prelude::*;
use crate::date::{instant_before, instant_lt, parse_utc_instant, utc_instant};
use crate::float::{float_eq, float_equal, float_less, float_lt};
use crate::strmap::{lookup, values_of};
use crate::text::{
    contains,
    ends_with,
    lex_lt,
    starts_with,
    text_contains,
    text_ends_with,
    text_equals,
    text_lt,
    text_starts_with,
};
use crate::types::{
    FieldType,
    FieldTypesStore,
    FieldValue,
    FieldValueScalar,
    FieldValueStore,
    FieldValuesStore,
    ObjectTypeStore,
    ReadError,
    ReadInput,
    ReadInputOperation,
    ScalarType,
};

verus! {

// ---------------------------------------------------------------------------------
// What a read computes
// ---------------------------------------------------------------------------------
/// The error for an operation that fields of type `field_type` do not support.
pub open spec fn not_implemented(operation: ReadInputOperation, field_type: ScalarType) -> ReadError {
    ReadError::OperationNotImplemented { operation, field_type }
}

/// The outcome of an ordering operation, given how the field's value (on the left)
/// compares with the filter's value (on the right); the other operations are not
/// supported by fields of type `field_type`.
pub open spec fn ordered_outcome(
    operation: ReadInputOperation,
    field_type: ScalarType,
    less: bool,
    equal: bool,
    greater: bool,
) -> Result<bool, ReadError> {
    match operation {
        ReadInputOperation::Equals => Ok(equal),
        ReadInputOperation::GreaterThan => Ok(greater),
        ReadInputOperation::GreaterThanOrEqualTo => Ok(greater || equal),
        ReadInputOperation::LessThan => Ok(less),
        ReadInputOperation::LessThanOrEqualTo => Ok(less || equal),
        _ => Err(not_implemented(operation, field_type)),
    }
}

/// How a boolean field with value `value` fares against `input`: only `Equals`
/// applies; a filter value that is not a boolean never matches.
pub open spec fn boolean_matches(value: bool, input: ReadInput) -> Result<bool, ReadError> {
    match input.field_value {
        FieldValue::Scalar(Some(FieldValueScalar::Boolean(b))) => match input.input_operation {
            ReadInputOperation::Equals => Ok(value == b),
            _ => Err(not_implemented(input.input_operation, ScalarType::Boolean)),
        },
        _ => Ok(false),
    }
}

/// How a date field with value `value` fares against `input`: the field's date is read
/// first, then the filter's, and the two instants are ordered.
pub open spec fn date_matches(value: String, input: ReadInput) -> Result<bool, ReadError> {
    match utc_instant(value@) {
        None => Err(ReadError::InvalidDate { date: value }),
        Some(v) => match input.field_value {
            FieldValue::Scalar(Some(FieldValueScalar::Date(d))) => match utc_instant(d@) {
                None => Err(ReadError::InvalidDate { date: d }),
                Some(i) => ordered_outcome(
                    input.input_operation,
                    ScalarType::Date,
                    instant_lt(v, i),
                    v == i,
                    instant_lt(i, v),
                ),
            },
            _ => Ok(false),
        },
    }
}

/// How a float field holding the bit pattern `value` fares against `input`.
pub open spec fn float_matches(value: u32, input: ReadInput) -> Result<bool, ReadError> {
    match input.field_value {
        FieldValue::Scalar(Some(FieldValueScalar::Float(f))) => ordered_outcome(
            input.input_operation,
            ScalarType::Float,
            float_lt(value, f),
            float_eq(value, f),
            float_lt(f, value),
        ),
        _ => Ok(false),
    }
}

/// How an integer field with value `value` fares against `input`.
pub open spec fn int_matches(value: i32, input: ReadInput) -> Result<bool, ReadError> {
    match input.field_value {
        FieldValue::Scalar(Some(FieldValueScalar::Int(i))) => ordered_outcome(
            input.input_operation,
            ScalarType::Int,
            value < i,
            value == i,
            value > i,
        ),
        _ => Ok(false),
    }
}

/// How a string field with value `value` fares against `input`: besides the ordering
/// operations, `Contains`, `StartsWith` and `EndsWith` test for a substring.
pub open spec fn string_matches(value: String, input: ReadInput) -> Result<bool, ReadError> {
    match input.field_value {
        FieldValue::Scalar(Some(FieldValueScalar::String(s))) => match input.input_operation {
            ReadInputOperation::Contains => Ok(contains(value@, s@)),
            ReadInputOperation::EndsWith => Ok(ends_with(value@, s@)),
            ReadInputOperation::StartsWith => Ok(starts_with(value@, s@)),
            _ => ordered_outcome(
                input.input_operation,
                ScalarType::String,
                lex_lt(value@, s@),
                value@ == s@,
                lex_lt(s@, value@),
            ),
        },
        _ => Ok(false),
    }
}

/// How a scalar field with value `field_value` fares against `input`. A null field
/// matches exactly an `Equals` filter on a null scalar.
pub open spec fn field_value_matches(field_value: FieldValue, input: ReadInput) -> Result<
    bool,
    ReadError,
> {
    match field_value {
        FieldValue::Scalar(Some(scalar)) => match scalar {
            FieldValueScalar::Boolean(b) => boolean_matches(b, input),
            FieldValueScalar::Date(d) => date_matches(d, input),
            FieldValueScalar::Float(f) => float_matches(f, input),
            FieldValueScalar::Int(i) => int_matches(i, input),
            FieldValueScalar::String(s) => string_matches(s, input),
        },
        FieldValue::Scalar(None) => Ok(
            input.input_operation == ReadInputOperation::Equals && input.field_value
                == FieldValue::Scalar(None),
        ),
        _ => Ok(false),
    }
}

/// `keys` holds the key `key`.
pub open spec fn holds_key(keys: Seq<String>, key: Seq<char>) -> bool {
    exists|i: int| 0 <= i < keys.len() && #[trigger] keys[i]@ == key
}

/// How a to-many relation field fares against `input`: a string filter value matches
/// when it is one of the related keys, and a null filter value matches a null field.
pub open spec fn relation_many_matches(field_value: FieldValue, input: ReadInput) -> Result<
    bool,
    ReadError,
> {
    match (field_value, input.field_value) {
        (FieldValue::RelationMany(Some(rm)), FieldValue::Scalar(Some(scalar))) => match scalar {
            FieldValueScalar::String(s) => Ok(holds_key(rm.relation_primary_keys@, s@)),
            _ => Ok(false),
        },
        (FieldValue::RelationMany(None), FieldValue::Scalar(None)) => Ok(true),
        _ => Ok(false),
    }
}

/// How a to-one relation field fares against `input`: a string filter value matches
/// when it is the related key, and a null filter value matches a null field.
pub open spec fn relation_one_matches(field_value: FieldValue, input: ReadInput) -> Result<
    bool,
    ReadError,
> {
    match (field_value, input.field_value) {
        (FieldValue::RelationOne(Some(ro)), FieldValue::Scalar(Some(scalar))) => match scalar {
            FieldValueScalar::String(s) => Ok(ro.relation_primary_key@ == s@),
            _ => Ok(false),
        },
        (FieldValue::RelationOne(None), FieldValue::Scalar(None)) => Ok(true),
        _ => Ok(false),
    }
}

/// How the record `record`, of an object type with field types `types`, fares against
/// one filter. A filter named `and` or `or` stands for its list of filters.
pub open spec fn input_matches(record: FieldValueStore, types: FieldTypesStore, input: ReadInput) -> Result<
    bool,
    ReadError,
>
    decreases input,
{
    if input.field_name@ == "and"@ {
        inputs_match(record, types, input.and@, false)
    } else if input.field_name@ == "or"@ {
        inputs_match(record, types, input.or@, true)
    } else {
        match (lookup(types@, input.field_name@), lookup(record@, input.field_name@)) {
            (Some(field_type), Some(field_value)) => match field_type {
                FieldType::RelationMany(_) => relation_many_matches(field_value, input),
                FieldType::RelationOne(_) => relation_one_matches(field_value, input),
                _ => field_value_matches(field_value, input),
            },
            _ => Err(ReadError::FieldInformationNotFound { field_name: input.field_name }),
        }
    }
}

/// How the record fares against a list of filters, taken in order: with `or` false all
/// must hold, with `or` true one must. The first filter that decides the outcome ends
/// the walk, and an error before it is the outcome.
pub open spec fn inputs_match(
    record: FieldValueStore,
    types: FieldTypesStore,
    inputs: Seq<ReadInput>,
    or: bool,
) -> Result<bool, ReadError>
    decreases inputs,
{
    if inputs.len() == 0 {
        Ok(!or)
    } else {
        match input_matches(record, types, inputs[0]) {
            Err(e) => Err(e),
            Ok(b) => if b == or {
                Ok(or)
            } else {
                inputs_match(record, types, inputs.drop_first(), or)
            },
        }
    }
}

/// The records among `records` that satisfy all of `inputs`, in order; or the error
/// of the first record whose check fails.
pub open spec fn matching_records(
    records: Seq<FieldValueStore>,
    types: FieldTypesStore,
    inputs: Seq<ReadInput>,
) -> Result<Seq<FieldValueStore>, ReadError>
    decreases records.len(),
{
    if records.len() == 0 {
        Ok(Seq::empty())
    } else {
        match matching_records(records.drop_last(), types, inputs) {
            Err(e) => Err(e),
            Ok(found) => match inputs_match(records.last(), types, inputs, false) {
                Err(e) => Err(e),
                Ok(b) => Ok(
                    if b {
                        found.push(records.last())
                    } else {
                        found
                    },
                ),
            },
        }
    }
}

/// The records that references point at.
pub open spec fn pointed_at(refs: Seq<&FieldValueStore>) -> Seq<FieldValueStore> {
    refs.map_values(|r: &FieldValueStore| *r)
}

// ---------------------------------------------------------------------------------
// The computation
// ---------------------------------------------------------------------------------
/// The error for an operation that fields of type `field_type` do not support.
fn operation_not_implemented(operation: ReadInputOperation, field_type: ScalarType) -> (e: ReadError)
    ensures
        e == not_implemented(operation, field_type),
{
    ReadError::OperationNotImplemented { operation, field_type }
}

/// The outcome of an ordering operation from the comparison of the two values.
pub fn ordered_operation_outcome(
    operation: ReadInputOperation,
    field_type: ScalarType,
    less: bool,
    equal: bool,
    greater: bool,
) -> (r: Result<bool, ReadError>)
    ensures
        r == ordered_outcome(operation, field_type, less, equal, greater),
{
    match operation {
        ReadInputOperation::Equals => Ok(equal),
        ReadInputOperation::GreaterThan => Ok(greater),
        ReadInputOperation::GreaterThanOrEqualTo => Ok(greater || equal),
        ReadInputOperation::LessThan => Ok(less),
        ReadInputOperation::LessThanOrEqualTo => Ok(less || equal),
        _ => Err(operation_not_implemented(operation, field_type)),
    }
}

/// How a boolean field fares against a filter.
pub fn field_value_matches_input_for_type_boolean(
    field_value_scalar_boolean: &bool,
    input: &ReadInput,
) -> (r: Result<bool, ReadError>)
    ensures
        r == boolean_matches(*field_value_scalar_boolean, *input),
{
    match &input.field_value {
        FieldValue::Scalar(Some(FieldValueScalar::Boolean(b))) => match input.input_operation {
            ReadInputOperation::Equals => Ok(*field_value_scalar_boolean == *b),
            _ => Err(operation_not_implemented(input.input_operation, ScalarType::Boolean)),
        },
        _ => Ok(false),
    }
}

/// How a date field, read as the instant `field`, fares against a filter whose date
/// reads as the instant `input` under `operation`.
pub fn instant_matches(operation: ReadInputOperation, field: (i64, u32), input: (i64, u32)) -> (r:
    Result<bool, ReadError>)
    ensures
        r == ordered_outcome(
            operation,
            ScalarType::Date,
            instant_lt(field, input),
            field == input,
            instant_lt(input, field),
        ),
{
    let less = instant_before(field, input);
    let greater = instant_before(input, field);
    let equal = field.0 == input.0 && field.1 == input.1;
    ordered_operation_outcome(operation, ScalarType::Date, less, equal, greater)
}

/// How a date field fares against a filter.
pub fn field_value_matches_input_for_type_date(
    field_value_scalar_date_string: &String,
    input: &ReadInput,
) -> (r: Result<bool, ReadError>)
    ensures
        r == date_matches(*field_value_scalar_date_string, *input),
{
    let field = match parse_utc_instant(field_value_scalar_date_string.as_str()) {
        Ok(t) => t,
        Err(_) => {
            return Err(ReadError::InvalidDate { date: field_value_scalar_date_string.clone() });
        },
    };
    match &input.field_value {
        FieldValue::Scalar(Some(FieldValueScalar::Date(d))) => {
            let wanted = match parse_utc_instant(d.as_str()) {
                Ok(t) => t,
                Err(_) => {
                    return Err(ReadError::InvalidDate { date: d.clone() });
                },
            };
            instant_matches(input.input_operation, field, wanted)
        },
        _ => Ok(false),
    }
}

/// How a float field fares against a filter.
pub fn field_value_matches_input_for_type_float(
    field_value_scalar_float: &u32,
    input: &ReadInput,
) -> (r: Result<bool, ReadError>)
    ensures
        r == float_matches(*field_value_scalar_float, *input),
{
    match &input.field_value {
        FieldValue::Scalar(Some(FieldValueScalar::Float(f))) => {
            let v = *field_value_scalar_float;
            let less = float_less(v, *f);
            let equal = float_equal(v, *f);
            let greater = float_less(*f, v);
            ordered_operation_outcome(input.input_operation, ScalarType::Float, less, equal, greater)
        },
        _ => Ok(false),
    }
}

/// How an integer field fares against a filter.
pub fn field_value_matches_input_for_type_int(field_value_scalar_int: &i32, input: &ReadInput) -> (r:
    Result<bool, ReadError>)
    ensures
        r == int_matches(*field_value_scalar_int, *input),
{
    match &input.field_value {
        FieldValue::Scalar(Some(FieldValueScalar::Int(i))) => {
            let v = *field_value_scalar_int;
            ordered_operation_outcome(input.input_operation, ScalarType::Int, v < *i, v == *i, v > *i)
        },
        _ => Ok(false),
    }
}

/// How a string field fares against a filter.
pub fn field_value_matches_input_for_type_string(
    field_value_scalar_string: &String,
    input: &ReadInput,
) -> (r: Result<bool, ReadError>)
    ensures
        r == string_matches(*field_value_scalar_string, *input),
{
    match &input.field_value {
        FieldValue::Scalar(Some(FieldValueScalar::String(s))) => {
            let v = field_value_scalar_string.as_str();
            let w = s.as_str();
            match input.input_operation {
                ReadInputOperation::Contains => Ok(text_contains(v, w)),
                ReadInputOperation::EndsWith => Ok(text_ends_with(v, w)),
                ReadInputOperation::StartsWith => Ok(text_starts_with(v, w)),
                _ => {
                    let less = text_lt(v, w);
                    let equal = text_equals(v, w);
                    let greater = text_lt(w, v);
                    ordered_operation_outcome(
                        input.input_operation,
                        ScalarType::String,
                        less,
                        equal,
                        greater,
                    )
                },
            }
        },
        _ => Ok(false),
    }
}

/// How a scalar field fares against a filter.
pub fn field_value_matches_input(field_value: &FieldValue, input: &ReadInput) -> (r: Result<
    bool,
    ReadError,
>)
    ensures
        r == field_value_matches(*field_value, *input),
{
    match field_value {
        FieldValue::Scalar(Some(scalar)) => match scalar {
            FieldValueScalar::Boolean(b) => field_value_matches_input_for_type_boolean(b, input),
            FieldValueScalar::Date(d) => field_value_matches_input_for_type_date(d, input),
            FieldValueScalar::Float(f) => field_value_matches_input_for_type_float(f, input),
            FieldValueScalar::Int(i) => field_value_matches_input_for_type_int(i, input),
            FieldValueScalar::String(s) => field_value_matches_input_for_type_string(s, input),
        },
        FieldValue::Scalar(None) => match input.input_operation {
            ReadInputOperation::Equals => match &input.field_value {
                FieldValue::Scalar(None) => Ok(true),
                _ => Ok(false),
            },
            _ => Ok(false),
        },
        _ => Ok(false),
    }
}

/// Whether `keys` holds `key`.
fn keys_hold(keys: &Vec<String>, key: &String) -> (r: bool)
    ensures
        r == holds_key(keys@, key@),
{
    let n = keys.len();
    let mut i: usize = 0;
    while i < n
        invariant
            n == keys@.len(),
            i <= n,
            forall|j: int| 0 <= j < i ==> keys@[j]@ != key@,
        decreases n - i,
    {
        if keys[i] == *key {
            return true;
        }
        i = i + 1;
    }
    false
}

/// How a to-many relation field fares against a filter.
pub fn field_value_relation_many_matches_input(
    field_value_relation_many: &FieldValue,
    input: &ReadInput,
) -> (r: Result<bool, ReadError>)
    ensures
        r == relation_many_matches(*field_value_relation_many, *input),
{
    match (field_value_relation_many, &input.field_value) {
        (FieldValue::RelationMany(Some(rm)), FieldValue::Scalar(Some(scalar))) => match scalar {
            FieldValueScalar::String(s) => Ok(keys_hold(&rm.relation_primary_keys, s)),
            _ => Ok(false),
        },
        (FieldValue::RelationMany(None), FieldValue::Scalar(None)) => Ok(true),
        _ => Ok(false),
    }
}

/// How a to-one relation field fares against a filter.
pub fn field_value_relation_one_matches_input(
    field_value_relation_one: &FieldValue,
    input: &ReadInput,
) -> (r: Result<bool, ReadError>)
    ensures
        r == relation_one_matches(*field_value_relation_one, *input),
{
    match (field_value_relation_one, &input.field_value) {
        (FieldValue::RelationOne(Some(ro)), FieldValue::Scalar(Some(scalar))) => match scalar {
            FieldValueScalar::String(s) => Ok(ro.relation_primary_key == *s),
            _ => Ok(false),
        },
        (FieldValue::RelationOne(None), FieldValue::Scalar(None)) => Ok(true),
        _ => Ok(false),
    }
}

/// How a record fares against one filter.
fn field_value_store_matches_input(
    field_value_store: &FieldValueStore,
    field_types_store: &FieldTypesStore,
    input: &ReadInput,
) -> (r: Result<bool, ReadError>)
    ensures
        r == input_matches(*field_value_store, *field_types_store, *input),
    decreases *input, 0nat,
{
    if text_equals(input.field_name.as_str(), "and") {
        return field_value_store_matches_inputs(
            field_value_store,
            field_types_store,
            &input.and,
            false,
        );
    }
    if text_equals(input.field_name.as_str(), "or") {
        return field_value_store_matches_inputs(
            field_value_store,
            field_types_store,
            &input.or,
            true,
        );
    }
    let field_type_option = field_types_store.get(input.field_name.as_str());
    let field_value_option = field_value_store.get(input.field_name.as_str());
    match (field_type_option, field_value_option) {
        (Some(field_type), Some(field_value)) => match field_type {
            FieldType::RelationMany(_) => field_value_relation_many_matches_input(field_value, input),
            FieldType::RelationOne(_) => field_value_relation_one_matches_input(field_value, input),
            _ => field_value_matches_input(field_value, input),
        },
        _ => Err(ReadError::FieldInformationNotFound { field_name: input.field_name.clone() }),
    }
}

/// How a record fares against a list of filters: with `or` false all must hold, with
/// `or` true one must.
pub fn field_value_store_matches_inputs(
    field_value_store: &FieldValueStore,
    field_types_store: &FieldTypesStore,
    inputs: &Vec<ReadInput>,
    or: bool,
) -> (r: Result<bool, ReadError>)
    ensures
        r == inputs_match(*field_value_store, *field_types_store, inputs@, or),
    decreases inputs@, 1nat,
{
    let n = inputs.len();
    let mut i: usize = 0;
    assert(inputs@.skip(0) =~= inputs@);
    while i < n
        invariant
            n == inputs@.len(),
            i <= n,
            inputs_match(*field_value_store, *field_types_store, inputs@, or) == inputs_match(
                *field_value_store,
                *field_types_store,
                inputs@.skip(i as int),
                or,
            ),
        decreases n - i,
    {
        proof {
            let s = inputs@.skip(i as int);
            assert(s[0] == inputs@[i as int]);
            assert(s.drop_first() =~= inputs@.skip(i + 1));
        }
        let b = match field_value_store_matches_input(field_value_store, field_types_store, &inputs[i]) {
            Ok(b) => b,
            Err(e) => {
                return Err(e);
            },
        };
        if b == or {
            return Ok(or);
        }
        i = i + 1;
    }
    Ok(!or)
}

/// Once the records up to some point give an error, so do all the records.
proof fn lemma_matching_records_error(
    records: Seq<FieldValueStore>,
    types: FieldTypesStore,
    inputs: Seq<ReadInput>,
    j: int,
    e: ReadError,
)
    requires
        0 <= j <= records.len(),
        matching_records(records.take(j), types, inputs) == Err::<Seq<FieldValueStore>, ReadError>(e),
    ensures
        matching_records(records, types, inputs) == Err::<Seq<FieldValueStore>, ReadError>(e),
    decreases records.len() - j,
{
    if j < records.len() {
        assert(records.take(j + 1).drop_last() =~= records.take(j));
        lemma_matching_records_error(records, types, inputs, j + 1, e);
    } else {
        assert(records.take(j) =~= records);
    }
}

/// The records of `field_values_store` that satisfy all of `inputs`, in primary-key
/// order.
pub fn find_field_value_stores_for_inputs<'a>(
    field_values_store: &'a FieldValuesStore,
    field_types_store: &FieldTypesStore,
    inputs: &Vec<ReadInput>,
) -> (r: Result<Vec<&'a FieldValueStore>, ReadError>)
    ensures
        match r {
            Ok(found) => matching_records(values_of(field_values_store@), *field_types_store, inputs@)
                == Ok::<Seq<FieldValueStore>, ReadError>(pointed_at(found@)),
            Err(e) => matching_records(values_of(field_values_store@), *field_types_store, inputs@)
                == Err::<Seq<FieldValueStore>, ReadError>(e),
        },
{
    let ghost records = values_of(field_values_store@);
    let n = field_values_store.len();
    let mut found: Vec<&'a FieldValueStore> = Vec::new();
    let mut i: usize = 0;
    assert(records.take(0) =~= Seq::<FieldValueStore>::empty());
    assert(pointed_at(found@) =~= Seq::<FieldValueStore>::empty());
    while i < n
        invariant
            n == records.len(),
            records == values_of(field_values_store@),
            i <= n,
            matching_records(records.take(i as int), *field_types_store, inputs@) == Ok::<
                Seq<FieldValueStore>,
                ReadError,
            >(pointed_at(found@)),
        decreases n - i,
    {
        let record = field_values_store.value_at(i);
        proof {
            assert(records.take(i + 1).drop_last() =~= records.take(i as int));
            assert(records.take(i + 1).last() == records[i as int]);
        }
        match field_value_store_matches_inputs(record, field_types_store, inputs, false) {
            Ok(b) => {
                if b {
                    let ghost before = found@;
                    found.push(record);
                    assert(pointed_at(found@) =~= pointed_at(before).push(*record));
                }
            },
            Err(e) => {
                proof {
                    lemma_matching_records_error(records, *field_types_store, inputs@, i + 1, e);
                }
                return Err(e);
            },
        }
        i = i + 1;
    }
    assert(records.take(n as int) =~= records);
    Ok(found)
}

/// Reads the records of the object type named `object_type_name` that satisfy all of
/// `inputs`, in primary-key order.
pub fn read<'a>(
    object_type_store: &'a ObjectTypeStore,
    object_type_name: &str,
    inputs: &Vec<ReadInput>,
) -> (r: Result<Vec<&'a FieldValueStore>, ReadError>)
    ensures
        match lookup(object_type_store@, object_type_name@) {
            None => r matches Err(ReadError::ObjectTypeNotFound { object_type_name: name })
                && name@ == object_type_name@,
            Some(object_type) => match r {
                Ok(found) => matching_records(
                    values_of(object_type.field_values_store@),
                    object_type.field_types_store,
                    inputs@,
                ) == Ok::<Seq<FieldValueStore>, ReadError>(pointed_at(found@)),
                Err(e) => matching_records(
                    values_of(object_type.field_values_store@),
                    object_type.field_types_store,
                    inputs@,
                ) == Err::<Seq<FieldValueStore>, ReadError>(e),
            },
        },
{
    match object_type_store.get(object_type_name) {
        Some(object_type) => find_field_value_stores_for_inputs(
            &object_type.field_values_store,
            &object_type.field_types_store,
            inputs,
        ),
        None => Err(
            ReadError::ObjectTypeNotFound {
                object_type_name: <String as vstd::string::StringExecFns>::from_str(object_type_name),
            },
        ),
    }
}

} // verus!
