use sudodb::read::{
    field_value_matches_input,
    field_value_matches_input_for_type_boolean,
    field_value_matches_input_for_type_date,
    field_value_matches_input_for_type_float,
    field_value_matches_input_for_type_int,
    field_value_matches_input_for_type_string,
    field_value_relation_many_matches_input,
    field_value_relation_one_matches_input,
    field_value_store_matches_inputs,
    find_field_value_stores_for_inputs,
    instant_matches,
    ordered_operation_outcome,
    read,
};
use sudodb::strmap::StrMap;
use sudodb::types::{
    FieldType,
    FieldTypeRelationInfo,
    FieldTypesStore,
    FieldValue,
    FieldValueRelationMany,
    FieldValueRelationOne,
    FieldValueScalar,
    FieldValueStore,
    FieldValuesStore,
    ObjectType,
    ObjectTypeStore,
    ReadError,
    ReadInput,
    ReadInputOperation,
    ScalarType,
};

use ReadInputOperation::{
    Contains,
    EndsWith,
    Equals,
    GreaterThan,
    GreaterThanOrEqualTo,
    In,
    LessThan,
    LessThanOrEqualTo,
    StartsWith,
};

const ALL_OPERATIONS: [ReadInputOperation; 9] = [
    Contains,
    EndsWith,
    Equals,
    GreaterThan,
    GreaterThanOrEqualTo,
    In,
    LessThan,
    LessThanOrEqualTo,
    StartsWith,
];

fn scalar(v: FieldValueScalar) -> FieldValue {
    FieldValue::Scalar(Some(v))
}

fn s(v: &str) -> FieldValue {
    scalar(FieldValueScalar::String(v.to_string()))
}

fn int_value(v: i32) -> FieldValue {
    scalar(FieldValueScalar::Int(v))
}

fn float_value(v: f32) -> FieldValue {
    scalar(FieldValueScalar::Float(v.to_bits()))
}

fn bool_value(v: bool) -> FieldValue {
    scalar(FieldValueScalar::Boolean(v))
}

fn date_value(v: &str) -> FieldValue {
    scalar(FieldValueScalar::Date(v.to_string()))
}

fn null_value() -> FieldValue {
    FieldValue::Scalar(None)
}

fn filter(field_name: &str, input_operation: ReadInputOperation, field_value: FieldValue) -> ReadInput {
    ReadInput {
        input_operation,
        field_name: field_name.to_string(),
        field_value,
        and: vec![],
        or: vec![],
    }
}

fn and(inputs: Vec<ReadInput>) -> ReadInput {
    ReadInput { input_operation: Equals, field_name: "and".to_string(), field_value: null_value(), and: inputs, or: vec![] }
}

fn or(inputs: Vec<ReadInput>) -> ReadInput {
    ReadInput { input_operation: Equals, field_name: "or".to_string(), field_value: null_value(), and: vec![], or: inputs }
}

fn relation_info(object_type: &str) -> FieldTypeRelationInfo {
    FieldTypeRelationInfo { object_type: object_type.to_string(), opposing_field_name: None }
}

fn user_types() -> FieldTypesStore {
    let mut types = StrMap::new();
    types.insert("id".to_string(), FieldType::String);
    types.insert("name".to_string(), FieldType::String);
    types.insert("age".to_string(), FieldType::Int);
    types.insert("score".to_string(), FieldType::Float);
    types.insert("active".to_string(), FieldType::Boolean);
    types.insert("born".to_string(), FieldType::Date);
    types.insert("friends".to_string(), FieldType::RelationMany(relation_info("User")));
    types.insert("boss".to_string(), FieldType::RelationOne(relation_info("User")));
    types
}

fn user(
    id: &str,
    name: &str,
    age: i32,
    score: f32,
    active: bool,
    born: &str,
    friends: Option<Vec<&str>>,
    boss: Option<&str>,
) -> FieldValueStore {
    let mut record = StrMap::new();
    record.insert("id".to_string(), s(id));
    record.insert("name".to_string(), s(name));
    record.insert("age".to_string(), int_value(age));
    record.insert("score".to_string(), float_value(score));
    record.insert("active".to_string(), bool_value(active));
    record.insert("born".to_string(), date_value(born));
    record.insert(
        "friends".to_string(),
        FieldValue::RelationMany(friends.map(|keys| FieldValueRelationMany {
            relation_object_type_name: "User".to_string(),
            relation_primary_keys: keys.iter().map(|k| k.to_string()).collect(),
        })),
    );
    record.insert(
        "boss".to_string(),
        FieldValue::RelationOne(boss.map(|k| FieldValueRelationOne {
            relation_object_type_name: "User".to_string(),
            relation_primary_key: k.to_string(),
        })),
    );
    record
}

fn users() -> FieldValuesStore {
    let mut records = StrMap::new();
    // Inserted out of key order on purpose.
    records.insert(
        "3".to_string(),
        user("3", "Carol", 41, 2.5, true, "1980-03-01T00:00:00Z", Some(vec!["1", "2"]), Some("1")),
    );
    records.insert(
        "1".to_string(),
        user("1", "Alice", 30, 7.25, true, "1991-07-15T12:00:00Z", Some(vec![]), None),
    );
    records.insert(
        "2".to_string(),
        user("2", "Bob", 25, -1.0, false, "1996-01-01T00:00:00+02:00", None, Some("3")),
    );
    records
}

fn store() -> ObjectTypeStore {
    let mut store = StrMap::new();
    store.insert(
        "User".to_string(),
        ObjectType {
            object_type_name: "User".to_string(),
            field_values_store: users(),
            field_types_store: user_types(),
        },
    );
    store
}

fn ids(found: &Vec<&FieldValueStore>) -> Vec<String> {
    found
        .iter()
        .map(|record| match record.get("id") {
            Some(FieldValue::Scalar(Some(FieldValueScalar::String(id)))) => id.clone(),
            _ => panic!("record without an id"),
        })
        .collect()
}

fn read_ids(inputs: Vec<ReadInput>) -> Result<Vec<String>, ReadError> {
    let store = store();
    read(&store, "User", &inputs).map(|found| ids(&found))
}

fn strings(v: &[&str]) -> Vec<String> {
    v.iter().map(|x| x.to_string()).collect()
}

// ----------------------------------------------------------------------------------
// read
// ----------------------------------------------------------------------------------

#[test]
fn read_without_filters_returns_every_record_in_key_order() {
    assert_eq!(read_ids(vec![]), Ok(strings(&["1", "2", "3"])));
}

#[test]
fn read_of_a_missing_object_type_fails() {
    let store = store();
    let r = read(&store, "Post", &vec![]);
    assert_eq!(r.map(|f| f.len()), Err(ReadError::ObjectTypeNotFound { object_type_name: "Post".to_string() }));
}

#[test]
fn read_returns_the_records_themselves() {
    let store = store();
    let found = read(&store, "User", &vec![filter("name", Equals, s("Bob"))]).unwrap();
    assert_eq!(found.len(), 1);
    assert_eq!(found[0].get("age"), Some(&int_value(25)));
}

#[test]
fn read_filters_by_string_equality() {
    assert_eq!(read_ids(vec![filter("name", Equals, s("Alice"))]), Ok(strings(&["1"])));
}

#[test]
fn read_filters_by_integer_comparisons() {
    assert_eq!(read_ids(vec![filter("age", GreaterThan, int_value(25))]), Ok(strings(&["1", "3"])));
    assert_eq!(read_ids(vec![filter("age", GreaterThanOrEqualTo, int_value(25))]), Ok(strings(&["1", "2", "3"])));
    assert_eq!(read_ids(vec![filter("age", LessThan, int_value(30))]), Ok(strings(&["2"])));
    assert_eq!(read_ids(vec![filter("age", LessThanOrEqualTo, int_value(30))]), Ok(strings(&["1", "2"])));
    assert_eq!(read_ids(vec![filter("age", Equals, int_value(41))]), Ok(strings(&["3"])));
}

#[test]
fn read_list_of_filters_means_all_of_them() {
    assert_eq!(
        read_ids(vec![filter("age", GreaterThan, int_value(20)), filter("active", Equals, bool_value(true))]),
        Ok(strings(&["1", "3"]))
    );
}

#[test]
fn read_with_or_filter() {
    assert_eq!(
        read_ids(vec![or(vec![filter("name", Equals, s("Bob")), filter("age", Equals, int_value(41))])]),
        Ok(strings(&["2", "3"]))
    );
}

#[test]
fn read_with_nested_and_inside_or() {
    let inputs = vec![or(vec![
        and(vec![filter("age", GreaterThan, int_value(26)), filter("name", StartsWith, s("A"))]),
        filter("name", EndsWith, s("ob")),
    ])];
    assert_eq!(read_ids(inputs), Ok(strings(&["1", "2"])));
}

#[test]
fn read_with_empty_and_matches_everything_and_empty_or_nothing() {
    assert_eq!(read_ids(vec![and(vec![])]), Ok(strings(&["1", "2", "3"])));
    assert_eq!(read_ids(vec![or(vec![])]), Ok(strings(&[])));
}

#[test]
fn read_of_an_unknown_field_fails() {
    assert_eq!(
        read_ids(vec![filter("email", Equals, s("a@b.c"))]),
        Err(ReadError::FieldInformationNotFound { field_name: "email".to_string() })
    );
}

#[test]
fn read_stops_at_a_filter_that_decides() {
    // The first filter already fails for every record, so the unknown field is never looked up.
    assert_eq!(
        read_ids(vec![filter("age", GreaterThan, int_value(100)), filter("email", Equals, s("x"))]),
        Ok(strings(&[]))
    );
    // In an `or`, a filter that holds decides.
    assert_eq!(
        read_ids(vec![or(vec![filter("age", GreaterThan, int_value(0)), filter("email", Equals, s("x"))])]),
        Ok(strings(&["1", "2", "3"]))
    );
}

#[test]
fn read_reports_operation_errors() {
    assert_eq!(
        read_ids(vec![filter("active", GreaterThan, bool_value(true))]),
        Err(ReadError::OperationNotImplemented { operation: GreaterThan, field_type: ScalarType::Boolean })
    );
    assert_eq!(
        read_ids(vec![filter("name", In, s("Alice"))]),
        Err(ReadError::OperationNotImplemented { operation: In, field_type: ScalarType::String })
    );
}

#[test]
fn read_filters_by_date() {
    assert_eq!(read_ids(vec![filter("born", LessThan, date_value("1990-01-01T00:00:00Z"))]), Ok(strings(&["3"])));
    // 1996-01-01T00:00:00+02:00 is 1995-12-31T22:00:00Z.
    assert_eq!(read_ids(vec![filter("born", Equals, date_value("1995-12-31T22:00:00Z"))]), Ok(strings(&["2"])));
    assert_eq!(read_ids(vec![filter("born", GreaterThanOrEqualTo, date_value("1991-07-15 12:00:00Z"))]), Ok(strings(&["1", "2"])));
}

#[test]
fn read_with_unreadable_filter_date_fails() {
    assert_eq!(
        read_ids(vec![filter("born", Equals, date_value("yesterday"))]),
        Err(ReadError::InvalidDate { date: "yesterday".to_string() })
    );
}

#[test]
fn read_filters_by_float() {
    assert_eq!(read_ids(vec![filter("score", GreaterThan, float_value(0.0))]), Ok(strings(&["1", "3"])));
    assert_eq!(read_ids(vec![filter("score", Equals, float_value(2.5))]), Ok(strings(&["3"])));
    assert_eq!(read_ids(vec![filter("score", LessThanOrEqualTo, float_value(-1.0))]), Ok(strings(&["2"])));
}

#[test]
fn read_filters_by_relations() {
    assert_eq!(read_ids(vec![filter("friends", Equals, s("2"))]), Ok(strings(&["3"])));
    assert_eq!(read_ids(vec![filter("friends", Equals, null_value())]), Ok(strings(&["2"])));
    assert_eq!(read_ids(vec![filter("boss", Equals, s("1"))]), Ok(strings(&["3"])));
    assert_eq!(read_ids(vec![filter("boss", Equals, null_value())]), Ok(strings(&["1"])));
}

#[test]
fn find_reports_the_error_of_the_first_failing_record() {
    let mut records: FieldValuesStore = StrMap::new();
    let mut a = StrMap::new();
    a.insert("born".to_string(), date_value("not a date"));
    let mut b = StrMap::new();
    b.insert("born".to_string(), date_value("also not a date"));
    records.insert("b".to_string(), b);
    records.insert("a".to_string(), a);
    let mut types = StrMap::new();
    types.insert("born".to_string(), FieldType::Date);
    let r = find_field_value_stores_for_inputs(&records, &types, &vec![filter("born", Equals, date_value("2000-01-01T00:00:00Z"))]);
    assert_eq!(r.map(|f| f.len()), Err(ReadError::InvalidDate { date: "not a date".to_string() }));
}

#[test]
fn field_missing_from_a_record_fails() {
    let mut record: FieldValueStore = StrMap::new();
    record.insert("name".to_string(), s("x"));
    let types = user_types();
    assert_eq!(
        field_value_store_matches_inputs(&record, &types, &vec![filter("age", Equals, int_value(1))], false),
        Err(ReadError::FieldInformationNotFound { field_name: "age".to_string() })
    );
}

// ----------------------------------------------------------------------------------
// Matching single values
// ----------------------------------------------------------------------------------

#[test]
fn boolean_supports_only_equals() {
    for op in ALL_OPERATIONS {
        let r = field_value_matches_input_for_type_boolean(&true, &filter("b", op, bool_value(true)));
        if op == Equals {
            assert_eq!(r, Ok(true));
        } else {
            assert_eq!(r, Err(ReadError::OperationNotImplemented { operation: op, field_type: ScalarType::Boolean }));
        }
    }
    assert_eq!(field_value_matches_input_for_type_boolean(&true, &filter("b", Equals, bool_value(false))), Ok(false));
    // A filter value of another type, or null, never matches.
    assert_eq!(field_value_matches_input_for_type_boolean(&true, &filter("b", GreaterThan, int_value(1))), Ok(false));
    assert_eq!(field_value_matches_input_for_type_boolean(&true, &filter("b", Equals, null_value())), Ok(false));
}

#[test]
fn int_operations() {
    let f = |op, v| field_value_matches_input_for_type_int(&5, &filter("i", op, int_value(v)));
    assert_eq!(f(Equals, 5), Ok(true));
    assert_eq!(f(Equals, 6), Ok(false));
    assert_eq!(f(GreaterThan, 4), Ok(true));
    assert_eq!(f(GreaterThan, 5), Ok(false));
    assert_eq!(f(GreaterThanOrEqualTo, 5), Ok(true));
    assert_eq!(f(LessThan, 6), Ok(true));
    assert_eq!(f(LessThanOrEqualTo, 4), Ok(false));
    for op in [Contains, EndsWith, In, StartsWith] {
        assert_eq!(f(op, 5), Err(ReadError::OperationNotImplemented { operation: op, field_type: ScalarType::Int }));
    }
    assert_eq!(field_value_matches_input_for_type_int(&5, &filter("i", Equals, s("5"))), Ok(false));
    assert_eq!(field_value_matches_input_for_type_int(&i32::MIN, &filter("i", LessThan, int_value(i32::MAX))), Ok(true));
}

#[test]
fn int_trichotomy_on_samples() {
    for a in [-3, -1, 0, 1, 7] {
        for b in [-3, 0, 2, 7] {
            let holds = |op| field_value_matches_input_for_type_int(&a, &filter("i", op, int_value(b))) == Ok(true);
            let n = [holds(LessThan), holds(Equals), holds(GreaterThan)].iter().filter(|x| **x).count();
            assert_eq!(n, 1);
            assert_eq!(holds(LessThanOrEqualTo), !holds(GreaterThan));
        }
    }
}

#[test]
fn string_operations_agree_with_std() {
    let samples = ["", "a", "ab", "abc", "b", "ba", "Z", "é", "éa", "ä", "日本", "日", "a\u{0}", "abcabc", "bca"];
    for x in samples {
        for y in samples {
            let f = |op| field_value_matches_input_for_type_string(&x.to_string(), &filter("s", op, s(y)));
            assert_eq!(f(Contains), Ok(x.contains(y)), "{} contains {}", x, y);
            assert_eq!(f(StartsWith), Ok(x.starts_with(y)));
            assert_eq!(f(EndsWith), Ok(x.ends_with(y)));
            assert_eq!(f(Equals), Ok(x == y));
            assert_eq!(f(GreaterThan), Ok(x.to_string() > y.to_string()));
            assert_eq!(f(GreaterThanOrEqualTo), Ok(x.to_string() >= y.to_string()));
            assert_eq!(f(LessThan), Ok(x.to_string() < y.to_string()));
            assert_eq!(f(LessThanOrEqualTo), Ok(x.to_string() <= y.to_string()));
            assert_eq!(f(In), Err(ReadError::OperationNotImplemented { operation: In, field_type: ScalarType::String }));
        }
    }
}

#[test]
fn float_operations_agree_with_std() {
    let samples = [
        0.0f32,
        -0.0,
        1.0,
        -1.0,
        1.5,
        f32::MIN_POSITIVE,
        -f32::MIN_POSITIVE,
        1e-45,
        f32::MAX,
        f32::MIN,
        f32::INFINITY,
        f32::NEG_INFINITY,
        f32::NAN,
        -f32::NAN,
    ];
    for x in samples {
        for y in samples {
            let f = |op| field_value_matches_input_for_type_float(&x.to_bits(), &filter("f", op, float_value(y)));
            assert_eq!(f(Equals), Ok(x == y), "{} == {}", x, y);
            assert_eq!(f(GreaterThan), Ok(x > y), "{} > {}", x, y);
            assert_eq!(f(GreaterThanOrEqualTo), Ok(x >= y));
            assert_eq!(f(LessThan), Ok(x < y));
            assert_eq!(f(LessThanOrEqualTo), Ok(x <= y));
            for op in [Contains, EndsWith, In, StartsWith] {
                assert_eq!(f(op), Err(ReadError::OperationNotImplemented { operation: op, field_type: ScalarType::Float }));
            }
        }
    }
}

#[test]
fn float_zeros_are_equal_and_nan_matches_nothing() {
    let eq = |a: f32, b: f32| field_value_matches_input_for_type_float(&a.to_bits(), &filter("f", Equals, float_value(b)));
    assert_eq!(eq(0.0, -0.0), Ok(true));
    assert_eq!(eq(f32::NAN, f32::NAN), Ok(false));
    for op in [Equals, GreaterThan, GreaterThanOrEqualTo, LessThan, LessThanOrEqualTo] {
        let r = field_value_matches_input_for_type_float(&f32::NAN.to_bits(), &filter("f", op, float_value(1.0)));
        assert_eq!(r, Ok(false));
    }
}

#[test]
fn date_operations() {
    let f = |v: &str, op, w: &str| field_value_matches_input_for_type_date(&v.to_string(), &filter("d", op, date_value(w)));
    assert_eq!(f("2020-05-01T10:00:00Z", Equals, "2020-05-01T12:00:00+02:00"), Ok(true));
    assert_eq!(f("2020-05-01T10:00:00Z", GreaterThan, "2020-05-01T09:59:59.999Z"), Ok(true));
    assert_eq!(f("2020-05-01T10:00:00Z", LessThan, "2020-05-01T10:00:00.000000001Z"), Ok(true));
    assert_eq!(f("2020-05-01T10:00:00Z", LessThanOrEqualTo, "2020-05-01T10:00:00Z"), Ok(true));
    assert_eq!(f("2020-05-01T10:00:00Z", GreaterThanOrEqualTo, "2021-01-01T00:00:00Z"), Ok(false));
    for op in [Contains, EndsWith, In, StartsWith] {
        assert_eq!(
            f("2020-05-01T10:00:00Z", op, "2020-05-01T10:00:00Z"),
            Err(ReadError::OperationNotImplemented { operation: op, field_type: ScalarType::Date })
        );
    }
}

#[test]
fn date_field_is_read_before_the_filter() {
    // An unreadable field date fails even when the filter is not a date.
    let r = field_value_matches_input_for_type_date(&"soon".to_string(), &filter("d", Equals, int_value(3)));
    assert_eq!(r, Err(ReadError::InvalidDate { date: "soon".to_string() }));
    let r = field_value_matches_input_for_type_date(&"2020-01-01T00:00:00Z".to_string(), &filter("d", Equals, int_value(3)));
    assert_eq!(r, Ok(false));
    let r = field_value_matches_input_for_type_date(&"2020-01-01T00:00:00Z".to_string(), &filter("d", Equals, date_value("2020-13-01T00:00:00Z")));
    assert_eq!(r, Err(ReadError::InvalidDate { date: "2020-13-01T00:00:00Z".to_string() }));
}

#[test]
fn instants_are_ordered_by_seconds_then_nanoseconds() {
    assert_eq!(instant_matches(LessThan, (10, 999_999_999), (11, 0)), Ok(true));
    assert_eq!(instant_matches(LessThan, (10, 5), (10, 6)), Ok(true));
    assert_eq!(instant_matches(GreaterThan, (-1, 0), (-2, 999)), Ok(true));
    assert_eq!(instant_matches(Equals, (10, 5), (10, 5)), Ok(true));
    assert_eq!(instant_matches(Equals, (10, 5), (10, 6)), Ok(false));
    assert_eq!(instant_matches(GreaterThanOrEqualTo, (10, 5), (10, 5)), Ok(true));
    assert_eq!(instant_matches(LessThanOrEqualTo, (11, 0), (10, 7)), Ok(false));
    assert_eq!(
        instant_matches(StartsWith, (1, 0), (1, 0)),
        Err(ReadError::OperationNotImplemented { operation: StartsWith, field_type: ScalarType::Date })
    );
}

#[test]
fn ordered_outcomes() {
    assert_eq!(ordered_operation_outcome(GreaterThanOrEqualTo, ScalarType::Int, false, true, false), Ok(true));
    assert_eq!(ordered_operation_outcome(LessThanOrEqualTo, ScalarType::Int, false, false, true), Ok(false));
    assert_eq!(
        ordered_operation_outcome(Contains, ScalarType::Float, true, false, false),
        Err(ReadError::OperationNotImplemented { operation: Contains, field_type: ScalarType::Float })
    );
}

#[test]
fn null_scalar_matches_only_equals_null() {
    assert_eq!(field_value_matches_input(&null_value(), &filter("x", Equals, null_value())), Ok(true));
    assert_eq!(field_value_matches_input(&null_value(), &filter("x", Equals, int_value(1))), Ok(false));
    assert_eq!(field_value_matches_input(&null_value(), &filter("x", GreaterThan, null_value())), Ok(false));
    assert_eq!(field_value_matches_input(&null_value(), &filter("x", Equals, FieldValue::RelationOne(None))), Ok(false));
    // Relation values under a scalar field type never match.
    assert_eq!(field_value_matches_input(&FieldValue::RelationMany(None), &filter("x", Equals, null_value())), Ok(false));
}

#[test]
fn scalar_dispatch() {
    assert_eq!(field_value_matches_input(&int_value(3), &filter("x", GreaterThan, int_value(2))), Ok(true));
    assert_eq!(field_value_matches_input(&s("abc"), &filter("x", Contains, s("bc"))), Ok(true));
    assert_eq!(field_value_matches_input(&bool_value(false), &filter("x", Equals, bool_value(false))), Ok(true));
    assert_eq!(field_value_matches_input(&float_value(1.0), &filter("x", LessThan, float_value(2.0))), Ok(true));
    assert_eq!(
        field_value_matches_input(&date_value("2000-01-01T00:00:00Z"), &filter("x", Equals, date_value("2000-01-01T00:00:00Z"))),
        Ok(true)
    );
}

#[test]
fn relation_many_matching() {
    let many = FieldValue::RelationMany(Some(FieldValueRelationMany {
        relation_object_type_name: "T".to_string(),
        relation_primary_keys: strings(&["a", "b"]),
    }));
    let empty = FieldValue::RelationMany(None);
    // The operation plays no part.
    assert_eq!(field_value_relation_many_matches_input(&many, &filter("r", StartsWith, s("b"))), Ok(true));
    assert_eq!(field_value_relation_many_matches_input(&many, &filter("r", Equals, s("c"))), Ok(false));
    assert_eq!(field_value_relation_many_matches_input(&many, &filter("r", Equals, int_value(1))), Ok(false));
    assert_eq!(field_value_relation_many_matches_input(&many, &filter("r", Equals, null_value())), Ok(false));
    assert_eq!(field_value_relation_many_matches_input(&empty, &filter("r", Equals, s("a"))), Ok(false));
    assert_eq!(field_value_relation_many_matches_input(&empty, &filter("r", Equals, null_value())), Ok(true));
    assert_eq!(field_value_relation_many_matches_input(&empty, &filter("r", Equals, FieldValue::RelationMany(None))), Ok(false));
    assert_eq!(field_value_relation_many_matches_input(&s("a"), &filter("r", Equals, s("a"))), Ok(false));
}

#[test]
fn relation_one_matching() {
    let one = FieldValue::RelationOne(Some(FieldValueRelationOne {
        relation_object_type_name: "T".to_string(),
        relation_primary_key: "k".to_string(),
    }));
    let empty = FieldValue::RelationOne(None);
    assert_eq!(field_value_relation_one_matches_input(&one, &filter("r", Equals, s("k"))), Ok(true));
    assert_eq!(field_value_relation_one_matches_input(&one, &filter("r", Equals, s("j"))), Ok(false));
    assert_eq!(field_value_relation_one_matches_input(&one, &filter("r", Equals, null_value())), Ok(false));
    assert_eq!(field_value_relation_one_matches_input(&empty, &filter("r", Equals, null_value())), Ok(true));
    assert_eq!(field_value_relation_one_matches_input(&empty, &filter("r", Equals, s("k"))), Ok(false));
    assert_eq!(field_value_relation_one_matches_input(&int_value(1), &filter("r", Equals, s("k"))), Ok(false));
}

#[test]
fn and_or_lists_on_one_record() {
    let record = user("1", "Alice", 30, 1.0, true, "2000-01-01T00:00:00Z", None, None);
    let types = user_types();
    let yes = filter("age", Equals, int_value(30));
    let no = filter("age", Equals, int_value(31));
    let m = |inputs: Vec<ReadInput>, or_mode: bool| field_value_store_matches_inputs(&record, &types, &inputs, or_mode);
    assert_eq!(m(vec![], false), Ok(true));
    assert_eq!(m(vec![], true), Ok(false));
    assert_eq!(m(vec![filter("age", Equals, int_value(30)), filter("name", Equals, s("Alice"))], false), Ok(true));
    assert_eq!(m(vec![filter("age", Equals, int_value(30)), no], false), Ok(false));
    assert_eq!(m(vec![filter("age", Equals, int_value(31)), yes], true), Ok(true));
    assert_eq!(m(vec![filter("age", Equals, int_value(31)), filter("name", Equals, s("Bob"))], true), Ok(false));
    // An error before the deciding filter is the outcome.
    assert_eq!(
        m(vec![filter("nope", Equals, int_value(1)), filter("age", Equals, int_value(31))], false),
        Err(ReadError::FieldInformationNotFound { field_name: "nope".to_string() })
    );
}

#[test]
fn and_list_is_order_independent_without_errors() {
    let record = user("1", "Alice", 30, 1.0, true, "2000-01-01T00:00:00Z", None, None);
    let types = user_types();
    let a = || filter("age", LessThan, int_value(40));
    let b = || filter("name", Contains, s("lic"));
    let c = || filter("active", Equals, bool_value(false));
    let m = |inputs: Vec<ReadInput>, or_mode: bool| field_value_store_matches_inputs(&record, &types, &inputs, or_mode);
    assert_eq!(m(vec![a(), b(), c()], false), m(vec![c(), a(), b()], false));
    assert_eq!(m(vec![a(), b(), c()], false), Ok(false));
    assert_eq!(m(vec![a(), b(), c()], true), m(vec![c(), b(), a()], true));
    assert_eq!(m(vec![c(), c()], true), Ok(false));
}

// ----------------------------------------------------------------------------------
// Error messages
// ----------------------------------------------------------------------------------

#[test]
fn error_messages() {
    assert_eq!(
        ReadError::OperationNotImplemented { operation: Contains, field_type: ScalarType::Boolean }.message(),
        "Sudodb::read::error - read input operation contains is not implemented for field type boolean"
    );
    assert_eq!(
        ReadError::OperationNotImplemented { operation: GreaterThanOrEqualTo, field_type: ScalarType::Boolean }.message(),
        "Sudodb::read::error - read input operation in is not implemented for field type boolean"
    );
    for op in [GreaterThan, LessThan, LessThanOrEqualTo, In] {
        assert_eq!(
            ReadError::OperationNotImplemented { operation: op, field_type: ScalarType::Boolean }.message(),
            "Sudodb::read::error - read input operation in is not implemented for field type boolean"
        );
    }
    assert_eq!(
        ReadError::OperationNotImplemented { operation: StartsWith, field_type: ScalarType::Boolean }.message(),
        "Sudodb::read::error - read input operation starts with is not implemented for field type date"
    );
    assert_eq!(
        ReadError::OperationNotImplemented { operation: EndsWith, field_type: ScalarType::Boolean }.message(),
        "Sudodb::read::error - read input operation ends with is not implemented for field type boolean"
    );
    assert_eq!(
        ReadError::OperationNotImplemented { operation: GreaterThan, field_type: ScalarType::Int }.message(),
        "Sudodb::read::error - read input operation greater than is not implemented for field type int"
    );
    assert_eq!(
        ReadError::OperationNotImplemented { operation: EndsWith, field_type: ScalarType::Date }.message(),
        "Sudodb::read::error - read input operation ends with is not implemented for field type date"
    );
    assert_eq!(
        ReadError::OperationNotImplemented { operation: In, field_type: ScalarType::String }.message(),
        "Sudodb::read::error - read input operation in is not implemented for field type string"
    );
    assert_eq!(
        ReadError::OperationNotImplemented { operation: StartsWith, field_type: ScalarType::Float }.message(),
        "Sudodb::read::error - read input operation starts with is not implemented for field type float"
    );
    assert_eq!(
        ReadError::FieldInformationNotFound { field_name: "email".to_string() }.message(),
        "Information not found for field email"
    );
    assert_eq!(
        ReadError::ObjectTypeNotFound { object_type_name: "Post".to_string() }.message(),
        "Object type Post not found in database"
    );
}

#[test]
fn date_error_message_is_chronos() {
    let chrono_text = "yesterday".parse::<chrono::DateTime<chrono::Utc>>().unwrap_err().to_string();
    assert_eq!(ReadError::InvalidDate { date: "yesterday".to_string() }.message(), chrono_text);
    assert_eq!(ReadError::InvalidDate { date: "2020-01-01T00:00:00Z".to_string() }.message(), "");
    let r = read_ids(vec![filter("born", Equals, date_value("2020-02-30T00:00:00Z"))]);
    assert_eq!(r.map_err(|e| e.message()), Err("input is out of range".to_string()));
}
