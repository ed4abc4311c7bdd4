//! Properties of reads that hold for all records, filters and stores.
use vstd::prelude::*;
use crate::date::instant_lt;
use crate::float::{float_eq, float_lt, is_nan, order_key};
use crate::read::{
    boolean_matches,
    date_matches,
    relation_many_matches,
    relation_one_matches,
    float_matches,
    input_matches,
    inputs_match,
    int_matches,
    matching_records,
    string_matches,
};
use crate::text::{lex_lt, contains, ends_with, starts_with, lemma_lex_lt_asymmetric, lemma_lex_lt_irreflexive, lemma_lex_lt_total};
use crate::types::{
    FieldValueRelationMany,
    FieldValueRelationOne,
    FieldTypesStore,
    FieldValue,
    FieldValueScalar,
    FieldValueStore,
    ReadError,
    ReadInput,
    ReadInputOperation,
};
use crate::date::utc_instant;
use crate::graphql_text::{concatenated, connection_text, joined, mutation_input, scalar_input_text};

verus! {

/// `input` with its operation replaced by `operation`.
pub open spec fn with_operation(input: ReadInput, operation: ReadInputOperation) -> ReadInput {
    ReadInput { input_operation: operation, ..input }
}

/// Exactly one of the three booleans holds.
pub open spec fn exactly_one(a: bool, b: bool, c: bool) -> bool {
    (a && !b && !c) || (!a && b && !c) || (!a && !b && c)
}

/// A list of filters combined with `and` holds exactly when every filter in it holds.
pub proof fn law_and_list_holds_iff_each_filter_holds(
    record: FieldValueStore,
    types: FieldTypesStore,
    inputs: Seq<ReadInput>,
)
    ensures
        (inputs_match(record, types, inputs, false) == Ok::<bool, ReadError>(true)) <==> (forall|i: int|
            0 <= i < inputs.len() ==> #[trigger] input_matches(record, types, inputs[i]) == Ok::<
                bool,
                ReadError,
            >(true)),
    decreases inputs.len(),
{
    if inputs.len() > 0 {
        let rest = inputs.drop_first();
        law_and_list_holds_iff_each_filter_holds(record, types, rest);
        let head = input_matches(record, types, inputs[0]);
        if forall|i: int|
            0 <= i < inputs.len() ==> #[trigger] input_matches(record, types, inputs[i]) == Ok::<
                bool,
                ReadError,
            >(true) {
            assert(head == Ok::<bool, ReadError>(true));
            assert forall|i: int| 0 <= i < rest.len() implies #[trigger] input_matches(
                record,
                types,
                rest[i],
            ) == Ok::<bool, ReadError>(true) by {
                assert(rest[i] == inputs[i + 1]);
            }
        } else {
            let j = choose|j: int|
                0 <= j < inputs.len() && #[trigger] input_matches(record, types, inputs[j]) != Ok::<
                    bool,
                    ReadError,
                >(true);
            if j > 0 {
                assert(inputs[j] == rest[j - 1]);
            }
        }
    }
}

/// A list of filters combined with `or` fails exactly when every filter in it fails.
pub proof fn law_or_list_fails_iff_each_filter_fails(
    record: FieldValueStore,
    types: FieldTypesStore,
    inputs: Seq<ReadInput>,
)
    ensures
        (inputs_match(record, types, inputs, true) == Ok::<bool, ReadError>(false)) <==> (forall|i: int|
            0 <= i < inputs.len() ==> #[trigger] input_matches(record, types, inputs[i]) == Ok::<
                bool,
                ReadError,
            >(false)),
    decreases inputs.len(),
{
    if inputs.len() > 0 {
        let rest = inputs.drop_first();
        law_or_list_fails_iff_each_filter_fails(record, types, rest);
        let head = input_matches(record, types, inputs[0]);
        if forall|i: int|
            0 <= i < inputs.len() ==> #[trigger] input_matches(record, types, inputs[i]) == Ok::<
                bool,
                ReadError,
            >(false) {
            assert(head == Ok::<bool, ReadError>(false));
            assert forall|i: int| 0 <= i < rest.len() implies #[trigger] input_matches(
                record,
                types,
                rest[i],
            ) == Ok::<bool, ReadError>(false) by {
                assert(rest[i] == inputs[i + 1]);
            }
        } else {
            let j = choose|j: int|
                0 <= j < inputs.len() && #[trigger] input_matches(record, types, inputs[j]) != Ok::<
                    bool,
                    ReadError,
                >(false);
            if j > 0 {
                assert(inputs[j] == rest[j - 1]);
            }
        }
    }
}

/// A list of filters none of which fails with an error gives no error.
proof fn lemma_error_free_list_is_ok(
    record: FieldValueStore,
    types: FieldTypesStore,
    inputs: Seq<ReadInput>,
    or: bool,
)
    requires
        forall|i: int| 0 <= i < inputs.len() ==> #[trigger] input_matches(record, types, inputs[i]) is Ok,
    ensures
        inputs_match(record, types, inputs, or) is Ok,
    decreases inputs.len(),
{
    if inputs.len() > 0 {
        let rest = inputs.drop_first();
        assert forall|i: int| 0 <= i < rest.len() implies #[trigger] input_matches(
            record,
            types,
            rest[i],
        ) is Ok by {
            assert(rest[i] == inputs[i + 1]);
        }
        lemma_error_free_list_is_ok(record, types, rest, or);
        assert(input_matches(record, types, inputs[0]) is Ok);
    }
}

/// When no filter in a list fails with an error, the list combined with `and` is the
/// conjunction of the filters and combined with `or` their disjunction, whatever their
/// order.
pub proof fn law_error_free_lists_are_boolean(
    record: FieldValueStore,
    types: FieldTypesStore,
    inputs: Seq<ReadInput>,
)
    requires
        forall|i: int| 0 <= i < inputs.len() ==> #[trigger] input_matches(record, types, inputs[i]) is Ok,
    ensures
        inputs_match(record, types, inputs, false) == Ok::<bool, ReadError>(
            forall|i: int|
                0 <= i < inputs.len() ==> #[trigger] input_matches(record, types, inputs[i]) == Ok::<
                    bool,
                    ReadError,
                >(true),
        ),
        inputs_match(record, types, inputs, true) == Ok::<bool, ReadError>(
            exists|i: int|
                0 <= i < inputs.len() && #[trigger] input_matches(record, types, inputs[i]) == Ok::<
                    bool,
                    ReadError,
                >(true),
        ),
{
    lemma_error_free_list_is_ok(record, types, inputs, false);
    lemma_error_free_list_is_ok(record, types, inputs, true);
    law_and_list_holds_iff_each_filter_holds(record, types, inputs);
    law_or_list_fails_iff_each_filter_fails(record, types, inputs);
    match inputs_match(record, types, inputs, false) {
        Ok(b) => {
            // The outcome is `Ok(true)` exactly when every filter holds.
            assert(b == forall|i: int|
                0 <= i < inputs.len() ==> #[trigger] input_matches(record, types, inputs[i]) == Ok::<
                    bool,
                    ReadError,
                >(true));
        },
        Err(_) => {},
    }
    match inputs_match(record, types, inputs, true) {
        Ok(b) => {
            if b {
                assert(!forall|i: int|
                    0 <= i < inputs.len() ==> #[trigger] input_matches(record, types, inputs[i])
                        == Ok::<bool, ReadError>(false));
                let i = choose|i: int|
                    0 <= i < inputs.len() && #[trigger] input_matches(record, types, inputs[i])
                        != Ok::<bool, ReadError>(false);
                match input_matches(record, types, inputs[i]) {
                    Ok(c) => {
                        // A filter that does not fail holds.
                        assert(c);
                    },
                    Err(_) => {},
                }
            } else {
                assert forall|i: int| 0 <= i < inputs.len() implies #[trigger] input_matches(
                    record,
                    types,
                    inputs[i],
                ) != Ok::<bool, ReadError>(true) by {}
            }
        },
        Err(_) => {},
    }
}

/// The records that satisfy all of `inputs`.
pub open spec fn satisfies(types: FieldTypesStore, inputs: Seq<ReadInput>) -> spec_fn(
    FieldValueStore,
) -> bool {
    |r: FieldValueStore| inputs_match(r, types, inputs, false) == Ok::<bool, ReadError>(true)
}

/// A read returns exactly the records that satisfy the filters, in store order, when
/// checking no record fails with an error.
pub proof fn law_read_is_a_filter(
    records: Seq<FieldValueStore>,
    types: FieldTypesStore,
    inputs: Seq<ReadInput>,
)
    requires
        forall|i: int| 0 <= i < records.len() ==> #[trigger] inputs_match(records[i], types, inputs, false) is Ok,
    ensures
        matching_records(records, types, inputs) == Ok::<Seq<FieldValueStore>, ReadError>(
            records.filter(satisfies(types, inputs)),
        ),
    decreases records.len(),
{
    reveal(Seq::filter);
    if records.len() > 0 {
        let front = records.drop_last();
        assert forall|i: int| 0 <= i < front.len() implies #[trigger] inputs_match(
            front[i],
            types,
            inputs,
            false,
        ) is Ok by {
            assert(front[i] == records[i]);
        }
        law_read_is_a_filter(front, types, inputs);
        assert(inputs_match(records[records.len() - 1], types, inputs, false) is Ok);
        assert(records.last() == records[records.len() - 1]);
    } else {
        assert(records =~= Seq::<FieldValueStore>::empty());
    }
}

/// Every record a read returns satisfies the filters.
pub proof fn law_read_records_satisfy_filters(
    records: Seq<FieldValueStore>,
    types: FieldTypesStore,
    inputs: Seq<ReadInput>,
    found: Seq<FieldValueStore>,
)
    requires
        matching_records(records, types, inputs) == Ok::<Seq<FieldValueStore>, ReadError>(found),
    ensures
        found.len() <= records.len(),
        forall|i: int|
            0 <= i < found.len() ==> inputs_match(#[trigger] found[i], types, inputs, false) == Ok::<
                bool,
                ReadError,
            >(true),
    decreases records.len(),
{
    if records.len() > 0 {
        let front = records.drop_last();
        match matching_records(front, types, inputs) {
            Ok(f) => {
                law_read_records_satisfy_filters(front, types, inputs, f);
            },
            Err(_) => {},
        }
    }
}

/// With no filters, a read returns every record.
pub proof fn law_no_filters_read_everything(records: Seq<FieldValueStore>, types: FieldTypesStore)
    ensures
        matching_records(records, types, Seq::<ReadInput>::empty()) == Ok::<
            Seq<FieldValueStore>,
            ReadError,
        >(records),
    decreases records.len(),
{
    if records.len() > 0 {
        law_no_filters_read_everything(records.drop_last(), types);
        assert(inputs_match(records.last(), types, Seq::<ReadInput>::empty(), false) == Ok::<
            bool,
            ReadError,
        >(true));
        assert(records.drop_last().push(records.last()) =~= records);
    } else {
        assert(records =~= Seq::<FieldValueStore>::empty());
    }
}

/// For an integer field and an integer filter value, exactly one of `LessThan`,
/// `Equals` and `GreaterThan` holds; `LessThanOrEqualTo` and `GreaterThanOrEqualTo`
/// are each the negation of the opposite strict comparison.
pub proof fn law_int_comparisons_trichotomy(value: i32, input: ReadInput)
    requires
        input.field_value matches FieldValue::Scalar(Some(FieldValueScalar::Int(_))),
    ensures
        exactly_one(
            int_matches(value, with_operation(input, ReadInputOperation::LessThan)) == Ok::<
                bool,
                ReadError,
            >(true),
            int_matches(value, with_operation(input, ReadInputOperation::Equals)) == Ok::<
                bool,
                ReadError,
            >(true),
            int_matches(value, with_operation(input, ReadInputOperation::GreaterThan)) == Ok::<
                bool,
                ReadError,
            >(true),
        ),
        int_matches(value, with_operation(input, ReadInputOperation::LessThanOrEqualTo)) == Ok::<
            bool,
            ReadError,
        >(!(int_matches(value, with_operation(input, ReadInputOperation::GreaterThan)) == Ok::<
            bool,
            ReadError,
        >(true))),
        int_matches(value, with_operation(input, ReadInputOperation::GreaterThanOrEqualTo)) == Ok::<
            bool,
            ReadError,
        >(!(int_matches(value, with_operation(input, ReadInputOperation::LessThan)) == Ok::<
            bool,
            ReadError,
        >(true))),
{
}

/// For a string field and a string filter value, exactly one of `LessThan`, `Equals`
/// and `GreaterThan` holds; `LessThanOrEqualTo` and `GreaterThanOrEqualTo` are each the
/// negation of the opposite strict comparison.
pub proof fn law_string_comparisons_trichotomy(value: String, input: ReadInput)
    requires
        input.field_value matches FieldValue::Scalar(Some(FieldValueScalar::String(_))),
    ensures
        exactly_one(
            string_matches(value, with_operation(input, ReadInputOperation::LessThan)) == Ok::<
                bool,
                ReadError,
            >(true),
            string_matches(value, with_operation(input, ReadInputOperation::Equals)) == Ok::<
                bool,
                ReadError,
            >(true),
            string_matches(value, with_operation(input, ReadInputOperation::GreaterThan)) == Ok::<
                bool,
                ReadError,
            >(true),
        ),
        string_matches(value, with_operation(input, ReadInputOperation::LessThanOrEqualTo)) == Ok::<
            bool,
            ReadError,
        >(!(string_matches(value, with_operation(input, ReadInputOperation::GreaterThan)) == Ok::<
            bool,
            ReadError,
        >(true))),
        string_matches(value, with_operation(input, ReadInputOperation::GreaterThanOrEqualTo))
            == Ok::<bool, ReadError>(
            !(string_matches(value, with_operation(input, ReadInputOperation::LessThan)) == Ok::<
                bool,
                ReadError,
            >(true)),
        ),
{
    if let FieldValue::Scalar(Some(FieldValueScalar::String(s))) = input.field_value {
        lemma_lex_lt_total(value@, s@);
        lemma_lex_lt_asymmetric(value@, s@);
        lemma_lex_lt_irreflexive(value@);
    }
}

/// A string that starts or ends with a filter value contains it.
pub proof fn law_prefix_or_suffix_is_contained(s: Seq<char>, p: Seq<char>)
    requires
        starts_with(s, p) || ends_with(s, p),
    ensures
        contains(s, p),
{
    if starts_with(s, p) {
        assert(s.subrange(0int, 0int + p.len()) =~= s.take(p.len() as int));
        assert(s.subrange(0int, 0int + p.len()) == p);
    } else {
        let i = s.len() - p.len();
        assert(s.subrange(i, i + p.len()) =~= s.skip(i));
        assert(s.subrange(i, i + p.len()) == p);
    }
}

/// For a date field and a date filter value that both read as dates, exactly one of
/// `LessThan`, `Equals` and `GreaterThan` holds.
pub proof fn law_date_comparisons_trichotomy(value: String, input: ReadInput)
    requires
        input.field_value matches FieldValue::Scalar(Some(FieldValueScalar::Date(d))) && utc_instant(
            d@,
        ) is Some,
        utc_instant(value@) is Some,
    ensures
        exactly_one(
            date_matches(value, with_operation(input, ReadInputOperation::LessThan)) == Ok::<
                bool,
                ReadError,
            >(true),
            date_matches(value, with_operation(input, ReadInputOperation::Equals)) == Ok::<
                bool,
                ReadError,
            >(true),
            date_matches(value, with_operation(input, ReadInputOperation::GreaterThan)) == Ok::<
                bool,
                ReadError,
            >(true),
        ),
{
}

/// A field holding a NaN matches no float filter, and a NaN filter value matches no
/// float field.
pub proof fn law_nan_matches_nothing(value: u32, input: ReadInput)
    requires
        input.field_value matches FieldValue::Scalar(Some(FieldValueScalar::Float(f))) && (is_nan(
            value,
        ) || is_nan(f)),
    ensures
        float_matches(value, input) != Ok::<bool, ReadError>(true),
{
}

/// For a float field and a float filter value, neither of them NaN, exactly one of
/// `LessThan`, `Equals` and `GreaterThan` holds (the two zeros are equal).
pub proof fn law_float_comparisons_trichotomy(value: u32, input: ReadInput)
    requires
        input.field_value matches FieldValue::Scalar(Some(FieldValueScalar::Float(f))) && !is_nan(f),
        !is_nan(value),
    ensures
        exactly_one(
            float_matches(value, with_operation(input, ReadInputOperation::LessThan)) == Ok::<
                bool,
                ReadError,
            >(true),
            float_matches(value, with_operation(input, ReadInputOperation::Equals)) == Ok::<
                bool,
                ReadError,
            >(true),
            float_matches(value, with_operation(input, ReadInputOperation::GreaterThan)) == Ok::<
                bool,
                ReadError,
            >(true),
        ),
{
}

/// A date field and a date filter value that both read as dates compare by the whole
/// instants they denote, seconds first and then nanoseconds: `a` is the field's instant
/// and `b` the filter's.
pub proof fn law_dates_compare_by_full_instant(
    value: String,
    d: String,
    input: ReadInput,
    a: (i64, u32),
    b: (i64, u32),
)
    requires
        input.field_value == FieldValue::Scalar(Some(FieldValueScalar::Date(d))),
        utc_instant(value@) == Some(a),
        utc_instant(d@) == Some(b),
    ensures
        date_matches(value, with_operation(input, ReadInputOperation::Equals)) == Ok::<bool, ReadError>(
            a.0 == b.0 && a.1 == b.1,
        ),
        date_matches(value, with_operation(input, ReadInputOperation::LessThan)) == Ok::<bool, ReadError>(
            a.0 < b.0 || (a.0 == b.0 && a.1 < b.1),
        ),
        date_matches(value, with_operation(input, ReadInputOperation::LessThanOrEqualTo)) == Ok::<bool, ReadError>(
            a.0 < b.0 || (a.0 == b.0 && a.1 <= b.1),
        ),
        date_matches(value, with_operation(input, ReadInputOperation::GreaterThan)) == Ok::<bool, ReadError>(
            a.0 > b.0 || (a.0 == b.0 && a.1 > b.1),
        ),
        date_matches(value, with_operation(input, ReadInputOperation::GreaterThanOrEqualTo)) == Ok::<bool, ReadError>(
            a.0 > b.0 || (a.0 == b.0 && a.1 >= b.1),
        ),
{
}

/// A date that reads as a date equals itself, whatever its fraction of a second.
pub proof fn law_date_equals_itself(d: String, input: ReadInput)
    requires
        input.field_value == FieldValue::Scalar(Some(FieldValueScalar::Date(d))),
        input.input_operation == ReadInputOperation::Equals,
        utc_instant(d@) is Some,
    ensures
        date_matches(d, input) == Ok::<bool, ReadError>(true),
{
}

/// Integer filters follow the order of the integers.
pub proof fn law_ints_compare_by_integer_order(value: i32, i: i32, input: ReadInput)
    requires
        input.field_value == FieldValue::Scalar(Some(FieldValueScalar::Int(i))),
    ensures
        int_matches(value, with_operation(input, ReadInputOperation::Equals)) == Ok::<bool, ReadError>(value == i),
        int_matches(value, with_operation(input, ReadInputOperation::LessThan)) == Ok::<bool, ReadError>(value < i),
        int_matches(value, with_operation(input, ReadInputOperation::LessThanOrEqualTo)) == Ok::<bool, ReadError>(value <= i),
        int_matches(value, with_operation(input, ReadInputOperation::GreaterThan)) == Ok::<bool, ReadError>(value > i),
        int_matches(value, with_operation(input, ReadInputOperation::GreaterThanOrEqualTo)) == Ok::<bool, ReadError>(value >= i),
{
}

/// A to-many relation field matches a string filter value exactly when the value is one
/// of its related keys, at whatever position.
pub proof fn law_relation_many_matches_any_related_key(
    rm: FieldValueRelationMany,
    s: String,
    input: ReadInput,
)
    requires
        input.field_value == FieldValue::Scalar(Some(FieldValueScalar::String(s))),
    ensures
        relation_many_matches(FieldValue::RelationMany(Some(rm)), input) == Ok::<bool, ReadError>(
            exists|j: int|
                0 <= j < rm.relation_primary_keys@.len() && #[trigger] rm.relation_primary_keys@[j]@
                    == s@,
        ),
        forall|j: int|
            0 <= j < rm.relation_primary_keys@.len() && #[trigger] rm.relation_primary_keys@[j]@
                == s@ ==> relation_many_matches(FieldValue::RelationMany(Some(rm)), input) == Ok::<
                bool,
                ReadError,
            >(true),
{
}

/// A to-one relation field matches a string filter value exactly when its related key
/// is that value.
pub proof fn law_relation_one_matches_exactly_its_key(
    ro: FieldValueRelationOne,
    s: String,
    input: ReadInput,
)
    requires
        input.field_value == FieldValue::Scalar(Some(FieldValueScalar::String(s))),
    ensures
        relation_one_matches(FieldValue::RelationOne(Some(ro)), input) == Ok::<bool, ReadError>(
            ro.relation_primary_key@ == s@,
        ),
{
}

/// The text of strings written one after another is the text of a first part followed
/// by that of the rest.
proof fn lemma_concatenated_append(a: Seq<Seq<char>>, b: Seq<Seq<char>>)
    ensures
        concatenated(a + b) == concatenated(a) + concatenated(b),
    decreases b.len(),
{
    if b.len() == 0 {
        assert(a + b =~= a);
        assert(concatenated(a) + concatenated(b) =~= concatenated(a));
    } else {
        lemma_concatenated_append(a, b.drop_last());
        assert((a + b).drop_last() =~= a + b.drop_last());
        assert((a + b).last() == b.last());
        assert(concatenated(a) + concatenated(b) =~= concatenated(a) + concatenated(b.drop_last())
            + b.last());
    }
}

/// Strings written one after another contain each of them.
proof fn lemma_concatenated_contains(parts: Seq<Seq<char>>, k: int)
    requires
        0 <= k < parts.len(),
    ensures
        exists|i: int|
            0 <= i && i + parts[k].len() <= concatenated(parts).len() && #[trigger] concatenated(
                parts,
            ).subrange(i, i + parts[k].len()) == parts[k],
{
    let front = parts.take(k);
    let back = parts.skip(k + 1);
    assert(parts =~= front + seq![parts[k]] + back);
    lemma_concatenated_append(front + seq![parts[k]], back);
    lemma_concatenated_append(front, seq![parts[k]]);
    let one = seq![parts[k]];
    assert(one.drop_last() =~= Seq::<Seq<char>>::empty());
    assert(one.last() == parts[k]);
    assert(concatenated(Seq::<Seq<char>>::empty()) == Seq::<char>::empty());
    assert(concatenated(one) == concatenated(one.drop_last()) + one.last());
    assert(concatenated(one) =~= parts[k]);
    let whole = concatenated(parts);
    let i = concatenated(front).len() as int;
    assert(whole == concatenated(front) + parts[k] + concatenated(back));
    assert(whole.subrange(i, i + parts[k].len()) =~= parts[k]);
}

/// The input of a mutation is empty exactly when there are neither connections nor scalar
/// fields, and it holds the text of every connection, `name: { connect: [ids] }` with the
/// ids separated by commas, whatever the scalar fields are.
pub proof fn law_mutation_input_keeps_every_connection(
    connections: Seq<(Seq<char>, Seq<Seq<char>>)>,
    field_names: Seq<Seq<char>>,
    index: nat,
)
    ensures
        (mutation_input(connections, field_names, index).len() == 0) <==> (connections.len() == 0
            && field_names.len() == 0),
        forall|k: int|
            0 <= k < connections.len() ==> contains(
                mutation_input(connections, field_names, index),
                #[trigger] connections[k].0 + ": {\n                        connect: ["@ + joined(
                    connections[k].1,
                    ","@,
                ) + "]\n                    }"@,
            ),
{
    reveal_strlit("(input: {\n                ");
    let cs = connections.map_values(
        |c: (Seq<char>, Seq<Seq<char>>)| connection_text(c.0, c.1),
    );
    let head = "(input: {\n                "@;
    let tail = "\n                "@ + joined(
        field_names.map_values(|f: Seq<char>| scalar_input_text(f, index)),
        "\n                        "@,
    ) + "\n            })"@;
    if connections.len() > 0 || field_names.len() > 0 {
        assert(mutation_input(connections, field_names, index) =~= head + concatenated(cs) + tail);
        assert(head.len() > 0);
    }
    assert forall|k: int| 0 <= k < connections.len() implies contains(
        mutation_input(connections, field_names, index),
        #[trigger] connections[k].0 + ": {\n                        connect: ["@ + joined(
            connections[k].1,
            ","@,
        ) + "]\n                    }"@,
    ) by {
        lemma_concatenated_contains(cs, k);
        let whole = mutation_input(connections, field_names, index);
        let c = concatenated(cs);
        assert(whole =~= head + c + tail);
        let p = cs[k];
        let i = choose|i: int|
            0 <= i && i + p.len() <= c.len() && #[trigger] c.subrange(i, i + p.len()) == p;
        let at = head.len() + i;
        assert(whole.subrange(at, at + p.len()) =~= c.subrange(i, i + p.len()));
    }
}

/// A string filter on a string field: equality and the order are those of the character
/// sequences, and `Contains`, `StartsWith` and `EndsWith` test for the filter value as a
/// substring, a prefix and a suffix.
pub proof fn law_strings_compare_by_characters(value: String, s: String, input: ReadInput)
    requires
        input.field_value == FieldValue::Scalar(Some(FieldValueScalar::String(s))),
    ensures
        string_matches(value, with_operation(input, ReadInputOperation::Equals)) == Ok::<bool, ReadError>(
            value@ == s@,
        ),
        string_matches(value, with_operation(input, ReadInputOperation::LessThan)) == Ok::<bool, ReadError>(
            lex_lt(value@, s@),
        ),
        string_matches(value, with_operation(input, ReadInputOperation::LessThanOrEqualTo)) == Ok::<bool, ReadError>(
            lex_lt(value@, s@) || value@ == s@,
        ),
        string_matches(value, with_operation(input, ReadInputOperation::GreaterThan)) == Ok::<bool, ReadError>(
            lex_lt(s@, value@),
        ),
        string_matches(value, with_operation(input, ReadInputOperation::GreaterThanOrEqualTo)) == Ok::<bool, ReadError>(
            lex_lt(s@, value@) || value@ == s@,
        ),
        string_matches(value, with_operation(input, ReadInputOperation::Contains)) == Ok::<bool, ReadError>(
            contains(value@, s@),
        ),
        string_matches(value, with_operation(input, ReadInputOperation::StartsWith)) == Ok::<bool, ReadError>(
            starts_with(value@, s@),
        ),
        string_matches(value, with_operation(input, ReadInputOperation::EndsWith)) == Ok::<bool, ReadError>(
            ends_with(value@, s@),
        ),
{
}

/// A float filter on a float field compares the numbers the bit patterns hold: never
/// when either is a NaN, and otherwise by their order (the two zeros being equal).
pub proof fn law_floats_compare_by_number(value: u32, f: u32, input: ReadInput)
    requires
        input.field_value == FieldValue::Scalar(Some(FieldValueScalar::Float(f))),
    ensures
        float_matches(value, with_operation(input, ReadInputOperation::Equals)) == Ok::<bool, ReadError>(
            !is_nan(value) && !is_nan(f) && order_key(value) == order_key(f),
        ),
        float_matches(value, with_operation(input, ReadInputOperation::LessThan)) == Ok::<bool, ReadError>(
            !is_nan(value) && !is_nan(f) && order_key(value) < order_key(f),
        ),
        float_matches(value, with_operation(input, ReadInputOperation::LessThanOrEqualTo)) == Ok::<bool, ReadError>(
            !is_nan(value) && !is_nan(f) && order_key(value) <= order_key(f),
        ),
        float_matches(value, with_operation(input, ReadInputOperation::GreaterThan)) == Ok::<bool, ReadError>(
            !is_nan(value) && !is_nan(f) && order_key(value) > order_key(f),
        ),
        float_matches(value, with_operation(input, ReadInputOperation::GreaterThanOrEqualTo)) == Ok::<bool, ReadError>(
            !is_nan(value) && !is_nan(f) && order_key(value) >= order_key(f),
        ),
{
}

/// A boolean filter on a boolean field holds under `Equals` exactly when the two are the
/// same.
pub proof fn law_booleans_match_when_equal(value: bool, b: bool, input: ReadInput)
    requires
        input.field_value == FieldValue::Scalar(Some(FieldValueScalar::Boolean(b))),
    ensures
        boolean_matches(value, with_operation(input, ReadInputOperation::Equals)) == Ok::<
            bool,
            ReadError,
        >(value == b),
{
}

/// A date field that does not read as a date gives an error naming it, whatever the
/// filter.
pub proof fn law_unreadable_field_date_fails(value: String, input: ReadInput)
    requires
        utc_instant(value@) is None,
    ensures
        date_matches(value, input) == Err::<bool, ReadError>(ReadError::InvalidDate { date: value }),
{
}

} // verus!
