//! The GraphQL text that search tests send: the selection of the objects they created,
//! the query that reads them back, and the input of the mutation that creates them.
//! The text is assembled from plain strings: selections, field names and object ids.
use vstd::prelude::*;
use vstd::string::StringExecFns;
use crate::json::{json_quoted, json_value, parse_json, quote_json};
use crate::strmap::{StrMap, inserted};

verus! {

/// The strings of `parts`, with `sep` between each two of them.
pub open spec fn joined(parts: Seq<Seq<char>>, sep: Seq<char>) -> Seq<char>
    decreases parts.len(),
{
    if parts.len() == 0 {
        Seq::empty()
    } else if parts.len() == 1 {
        parts[0]
    } else {
        joined(parts.drop_last(), sep) + sep + parts.last()
    }
}

/// The strings of `parts` one after the other.
pub open spec fn concatenated(parts: Seq<Seq<char>>) -> Seq<char>
    decreases parts.len(),
{
    if parts.len() == 0 {
        Seq::empty()
    } else {
        concatenated(parts.drop_last()) + parts.last()
    }
}

/// The characters of each string.
pub open spec fn texts(v: Seq<String>) -> Seq<Seq<char>> {
    v.map_values(|s: String| s@)
}

/// The strings of `parts` with `sep` between each two of them.
pub fn join_strings(parts: &Vec<String>, sep: &str) -> (r: String)
    ensures
        r@ == joined(texts(parts@), sep@),
{
    let mut r = String::new();
    let n = parts.len();
    let mut i: usize = 0;
    while i < n
        invariant
            n == parts@.len(),
            i <= n,
            r@ == joined(texts(parts@).take(i as int), sep@),
        decreases n - i,
    {
        proof {
            let t = texts(parts@);
            assert(t.take(i + 1).drop_last() =~= t.take(i as int));
            assert(t.take(i + 1).last() == parts@[i as int]@);
        }
        if i > 0 {
            r.append(sep);
        } else {
            proof {
                assert(texts(parts@).take(1) =~= seq![parts@[0]@]);
            }
        }
        r.append(parts[i].as_str());
        i = i + 1;
    }
    assert(texts(parts@).take(n as int) =~= texts(parts@));
    r
}

/// The text of one decimal digit.
pub open spec fn digit_text(d: nat) -> Seq<char> {
    if d == 0 {
        "0"@
    } else if d == 1 {
        "1"@
    } else if d == 2 {
        "2"@
    } else if d == 3 {
        "3"@
    } else if d == 4 {
        "4"@
    } else if d == 5 {
        "5"@
    } else if d == 6 {
        "6"@
    } else if d == 7 {
        "7"@
    } else if d == 8 {
        "8"@
    } else {
        "9"@
    }
}

/// `n` written in decimal, without leading zeros.
pub open spec fn decimal(n: nat) -> Seq<char>
    decreases n,
{
    if n < 10 {
        digit_text(n)
    } else {
        decimal(n / 10) + digit_text(n % 10)
    }
}

fn digit_str(d: usize) -> (r: &'static str)
    requires
        d < 10,
    ensures
        r@ == digit_text(d as nat),
{
    if d == 0 {
        "0"
    } else if d == 1 {
        "1"
    } else if d == 2 {
        "2"
    } else if d == 3 {
        "3"
    } else if d == 4 {
        "4"
    } else if d == 5 {
        "5"
    } else if d == 6 {
        "6"
    } else if d == 7 {
        "7"
    } else if d == 8 {
        "8"
    } else {
        "9"
    }
}

/// `n` written in decimal.
pub fn decimal_text(n: usize) -> (r: String)
    ensures
        r@ == decimal(n as nat),
    decreases n,
{
    if n < 10 {
        String::from_str(digit_str(n))
    } else {
        let mut r = decimal_text(n / 10);
        r.append(digit_str(n % 10));
        r
    }
}

/// The text of a selection without its name: the id, then the scalar selections, then
/// the selections of the related objects.
pub open spec fn selection_body(scalar_selections: Seq<char>, relation_selections: Seq<char>) -> Seq<
    char,
> {
    "{\n            id\n            "@ + scalar_selections + "\n            "@ + relation_selections
        + "\n        }"@
}

/// The selection of created objects under the field `selection_name`, and the query
/// named `query_name` that reads them.
pub open spec fn selection_and_query(
    query_name: Seq<char>,
    selection_name: Seq<char>,
    scalar_selections: Seq<char>,
    relation_selections: Seq<char>,
) -> (Seq<char>, Seq<char>) {
    let body = selection_body(scalar_selections, relation_selections);
    (
        "\n            "@ + selection_name + body + "\n        "@,
        "\n            query {\n                "@ + query_name + body + "\n            }\n        "@,
    )
}

/// The selection of the objects a search test created, and the query that reads them
/// back. The selection is named by the relation field when there is one; it selects the
/// id, the scalar selections of the first object's inputs (one per line), and the
/// selections of the related objects (one per line).
pub fn get_selection(
    query_name: &str,
    relation_field_name_option: Option<String>,
    relation_selections: &Vec<String>,
    first_object_scalar_selections: Option<&Vec<String>>,
) -> (r: (String, String))
    ensures
        (r.0@, r.1@) == selection_and_query(
            query_name@,
            match relation_field_name_option {
                Some(name) => name@,
                None => Seq::empty(),
            },
            match first_object_scalar_selections {
                Some(v) => joined(texts(v@), "\n"@),
                None => Seq::empty(),
            },
            joined(texts(relation_selections@), "\n"@),
        ),
{
    let selection_name = match relation_field_name_option {
        Some(name) => name,
        None => String::new(),
    };
    let relations = join_strings(relation_selections, "\n");
    let scalars = match first_object_scalar_selections {
        Some(v) => join_strings(v, "\n"),
        None => String::new(),
    };
    let mut body = String::from_str("{\n            id\n            ");
    body.append(scalars.as_str());
    body.append("\n            ");
    body.append(relations.as_str());
    body.append("\n        }");
    let mut selection = String::from_str("\n            ");
    selection.append(selection_name.as_str());
    selection.append(body.as_str());
    selection.append("\n        ");
    let mut query = String::from_str("\n            query {\n                ");
    query.append(query_name);
    query.append(body.as_str());
    query.append("\n            }\n        ");
    (selection, query)
}

/// A relation field of a mutation input, connecting the created object to the objects
/// with the given ids.
pub open spec fn connection_text(relation_field_name: Seq<char>, ids: Seq<Seq<char>>) -> Seq<char> {
    relation_field_name + ": {\n                        connect: ["@ + joined(ids, ","@)
        + "]\n                    }"@
}

/// A scalar field of a mutation input, bound to the variable named by the field and the
/// object's index.
pub open spec fn scalar_input_text(field_name: Seq<char>, index: nat) -> Seq<char> {
    field_name + ": $"@ + field_name + decimal(index)
}

/// The input of the mutation that creates the object at `index`: nothing when there are
/// neither relations nor scalar fields, else the connections to the related objects
/// followed by the scalar fields bound to their variables.
pub open spec fn mutation_input(
    connections: Seq<(Seq<char>, Seq<Seq<char>>)>,
    field_names: Seq<Seq<char>>,
    index: nat,
) -> Seq<char> {
    if connections.len() == 0 && field_names.len() == 0 {
        Seq::empty()
    } else {
        "(input: {\n                "@ + concatenated(
            connections.map_values(|c: (Seq<char>, Seq<Seq<char>>)| connection_text(c.0, c.1)),
        ) + "\n                "@ + joined(
            field_names.map_values(|f: Seq<char>| scalar_input_text(f, index)),
            "\n                        "@,
        ) + "\n            })"@
    }
}

/// The connections as plain values: each relation field name with the ids it connects to.
pub open spec fn connections_view(connections: Seq<(String, Vec<String>)>) -> Seq<
    (Seq<char>, Seq<Seq<char>>),
> {
    connections.map_values(|c: (String, Vec<String>)| (c.0@, texts(c.1@)))
}

/// The input of the mutation that creates the object at `index`, from the relation
/// fields with the ids of the objects they connect to, and the names of the scalar fields.
pub fn get_mutation_input(
    connections: &Vec<(String, Vec<String>)>,
    field_names: &Vec<String>,
    index: usize,
) -> (r: String)
    ensures
        r@ == mutation_input(connections_view(connections@), texts(field_names@), index as nat),
{
    if connections.len() == 0 && field_names.len() == 0 {
        return String::new();
    }
    let ghost cv = connections_view(connections@);
    let ghost cs = cv.map_values(|c: (Seq<char>, Seq<Seq<char>>)| connection_text(c.0, c.1));
    let mut linked = String::new();
    let n = connections.len();
    let mut i: usize = 0;
    while i < n
        invariant
            n == connections@.len(),
            cv == connections_view(connections@),
            cs == cv.map_values(|c: (Seq<char>, Seq<Seq<char>>)| connection_text(c.0, c.1)),
            i <= n,
            linked@ == concatenated(cs.take(i as int)),
        decreases n - i,
    {
        let ids = join_strings(&connections[i].1, ",");
        let mut one = String::new();
        one.append(connections[i].0.as_str());
        one.append(": {\n                        connect: [");
        one.append(ids.as_str());
        one.append("]\n                    }");
        proof {
            assert(cs.take(i + 1).drop_last() =~= cs.take(i as int));
            assert(cs.take(i + 1).last() == cs[i as int]);
            assert(cs[i as int] == one@);
        }
        linked.append(one.as_str());
        i = i + 1;
    }
    assert(cs.take(n as int) =~= cs);
    let number = decimal_text(index);
    let mut scalars: Vec<String> = Vec::new();
    let m = field_names.len();
    let mut j: usize = 0;
    while j < m
        invariant
            m == field_names@.len(),
            j <= m,
            number@ == decimal(index as nat),
            scalars@.len() == j,
            forall|k: int|
                0 <= k < j ==> #[trigger] scalars@[k]@ == scalar_input_text(field_names@[k]@, index as nat),
        decreases m - j,
    {
        let mut one = String::new();
        one.append(field_names[j].as_str());
        one.append(": $");
        one.append(field_names[j].as_str());
        one.append(number.as_str());
        scalars.push(one);
        j = j + 1;
    }
    let scalar_text = join_strings(&scalars, "\n                        ");
    assert(texts(scalars@) =~= texts(field_names@).map_values(
        |f: Seq<char>| scalar_input_text(f, index as nat),
    ));
    let mut r = String::from_str("(input: {\n                ");
    r.append(linked.as_str());
    r.append("\n                ");
    r.append(scalar_text.as_str());
    r.append("\n            })");
    r
}


/// A field of an object to create: its name, its GraphQL input type, and its value as
/// JSON text.
pub open spec fn input_fields_view(fields: Seq<Vec<(String, String, String)>>) -> Seq<
    Seq<(Seq<char>, Seq<char>, Seq<char>)>,
> {
    fields.map_values(
        |v: Vec<(String, String, String)>|
            v@.map_values(|f: (String, String, String)| (f.0@, f.1@, f.2@)),
    )
}

/// The names of the fields.
pub open spec fn names_of(fields: Seq<(Seq<char>, Seq<char>, Seq<char>)>) -> Seq<Seq<char>> {
    fields.map_values(|f: (Seq<char>, Seq<char>, Seq<char>)| f.0)
}

/// The declaration of the variable of one field of the object at `index`.
pub open spec fn declaration_text(field: (Seq<char>, Seq<char>, Seq<char>), index: nat) -> Seq<char> {
    "$"@ + field.0 + decimal(index) + ": "@ + field.1 + "!"@
}

/// The variable declarations of the object at `index`, separated by commas.
pub open spec fn object_declarations(fields: Seq<(Seq<char>, Seq<char>, Seq<char>)>, index: nat) -> Seq<
    char,
> {
    joined(
        fields.map_values(|f: (Seq<char>, Seq<char>, Seq<char>)| declaration_text(f, index)),
        ","@,
    )
}

/// The variable declarations of all objects, separated by commas.
pub open spec fn declarations(fields: Seq<Seq<(Seq<char>, Seq<char>, Seq<char>)>>) -> Seq<char> {
    joined(Seq::new(fields.len(), |i: int| object_declarations(fields[i], i as nat)), ","@)
}

/// The creation of the object at `index` within the mutation.
pub open spec fn creation_text(
    object_type_name: Seq<char>,
    index: nat,
    connections: Seq<(Seq<char>, Seq<Seq<char>>)>,
    fields: Seq<(Seq<char>, Seq<char>, Seq<char>)>,
) -> Seq<char> {
    "create"@ + object_type_name + decimal(index) + ": create"@ + object_type_name + mutation_input(
        connections,
        names_of(fields),
        index,
    ) + " { id }"@
}

/// The creations of the first `num_objects` objects, one per line.
pub open spec fn creations(
    object_type_name: Seq<char>,
    num_objects: nat,
    connections: Seq<(Seq<char>, Seq<Seq<char>>)>,
    fields: Seq<Seq<(Seq<char>, Seq<char>, Seq<char>)>>,
) -> Seq<char> {
    joined(
        Seq::new(num_objects, |i: int| creation_text(object_type_name, i as nat, connections, fields[i])),
        "\n"@,
    )
}

/// The text of the mutation that creates the objects.
pub open spec fn mutation_text(
    object_type_name: Seq<char>,
    num_objects: nat,
    connections: Seq<(Seq<char>, Seq<Seq<char>>)>,
    fields: Seq<Seq<(Seq<char>, Seq<char>, Seq<char>)>>,
) -> Seq<char> {
    "\n                    mutation ("@ + declarations(fields) + ") {\n                        "@
        + creations(object_type_name, num_objects, connections, fields)
        + "\n                    }\n                "@
}

/// Each field's variable, named by the field and its object's index, with the field's
/// value; objects in order, fields in order.
pub open spec fn variable_entries(fields: Seq<Seq<(Seq<char>, Seq<char>, Seq<char>)>>) -> Seq<
    (Seq<char>, Seq<char>),
>
    decreases fields.len(),
{
    if fields.len() == 0 {
        Seq::empty()
    } else {
        variable_entries(fields.drop_last()) + variables_of(fields.last(), (fields.len() - 1) as nat)
    }
}

/// The variables of the fields of the object at `index`, each value as the compact JSON
/// text that serde_json writes for it.
pub open spec fn variables_of(fields: Seq<(Seq<char>, Seq<char>, Seq<char>)>, index: nat) -> Seq<
    (Seq<char>, Seq<char>),
> {
    fields.map_values(
        |f: (Seq<char>, Seq<char>, Seq<char>)| (f.0 + decimal(index), json_value(f.2).unwrap()),
    )
}

/// Every field value is JSON text.
pub open spec fn values_are_json(fields: Seq<Seq<(Seq<char>, Seq<char>, Seq<char>)>>) -> bool {
    forall|i: int, j: int|
        0 <= i < fields.len() && 0 <= j < fields[i].len() ==> #[trigger] json_value(fields[i][j].2)
            is Some
}

/// A map holding the entries stored one after the other: a later entry with the same
/// key replaces an earlier one, and keys are in ascending order.
pub open spec fn stored_all(entries: Seq<(Seq<char>, Seq<char>)>) -> Seq<(Seq<char>, Seq<char>)>
    decreases entries.len(),
{
    if entries.len() == 0 {
        Seq::empty()
    } else {
        inserted(stored_all(entries.drop_last()), entries.last().0, entries.last().1)
    }
}

/// The JSON object text of the variables: each variable once, with its last value, in
/// ascending key order.
pub open spec fn variables_text(fields: Seq<Seq<(Seq<char>, Seq<char>, Seq<char>)>>) -> Seq<char> {
    "{"@ + joined(
        stored_all(variable_entries(fields)).map_values(
            |e: (Seq<char>, Seq<char>)| json_quoted(e.0) + ":"@ + e.1,
        ),
        ","@,
    ) + "}"@
}

/// The names of the fields, in order.
fn field_names_of(fields: &Vec<(String, String, String)>) -> (r: Vec<String>)
    ensures
        texts(r@) == names_of(fields@.map_values(|f: (String, String, String)| (f.0@, f.1@, f.2@))),
{
    let mut r: Vec<String> = Vec::new();
    let n = fields.len();
    let mut i: usize = 0;
    while i < n
        invariant
            n == fields@.len(),
            i <= n,
            r@.len() == i,
            forall|j: int| 0 <= j < i ==> #[trigger] r@[j]@ == fields@[j].0@,
        decreases n - i,
    {
        r.push(fields[i].0.clone());
        i = i + 1;
    }
    assert(texts(r@) =~= names_of(fields@.map_values(|f: (String, String, String)| (f.0@, f.1@, f.2@))));
    r
}

/// The variable declarations of the object at `index`.
fn object_declarations_text(fields: &Vec<(String, String, String)>, index: usize) -> (r: String)
    ensures
        r@ == object_declarations(
            fields@.map_values(|f: (String, String, String)| (f.0@, f.1@, f.2@)),
            index as nat,
        ),
{
    let number = decimal_text(index);
    let mut parts: Vec<String> = Vec::new();
    let n = fields.len();
    let mut i: usize = 0;
    while i < n
        invariant
            n == fields@.len(),
            i <= n,
            number@ == decimal(index as nat),
            parts@.len() == i,
            forall|j: int|
                0 <= j < i ==> #[trigger] parts@[j]@ == declaration_text(
                    (fields@[j].0@, fields@[j].1@, fields@[j].2@),
                    index as nat,
                ),
        decreases n - i,
    {
        let mut one = String::from_str("$");
        one.append(fields[i].0.as_str());
        one.append(number.as_str());
        one.append(": ");
        one.append(fields[i].1.as_str());
        one.append("!");
        parts.push(one);
        i = i + 1;
    }
    assert(texts(parts@) =~= fields@.map_values(
        |f: (String, String, String)| (f.0@, f.1@, f.2@),
    ).map_values(|f: (Seq<char>, Seq<char>, Seq<char>)| declaration_text(f, index as nat)));
    join_strings(&parts, ",")
}

/// The entries of a map of strings, with the values as character sequences.
pub open spec fn text_values(s: Seq<(Seq<char>, String)>) -> Seq<(Seq<char>, Seq<char>)> {
    s.map_values(|e: (Seq<char>, String)| (e.0, e.1@))
}

/// Storing a string and then viewing the values as text is storing its text.
proof fn lemma_text_values_inserted(s: Seq<(Seq<char>, String)>, key: Seq<char>, value: String)
    ensures
        text_values(inserted(s, key, value)) == inserted(text_values(s), key, value@),
    decreases s.len(),
{
    if s.len() == 0 {
        assert(text_values(seq![(key, value)]) =~= seq![(key, value@)]);
    } else {
        let t = text_values(s);
        assert(t[0] == (s[0].0, s[0].1@));
        assert(t.drop_first() =~= text_values(s.drop_first()));
        if s[0].0 == key {
            assert(text_values(seq![(key, value)] + s.drop_first()) =~= seq![(key, value@)]
                + t.drop_first());
        } else if crate::text::lex_lt(s[0].0, key) {
            lemma_text_values_inserted(s.drop_first(), key, value);
            assert(text_values(seq![s[0]] + inserted(s.drop_first(), key, value)) =~= seq![t[0]]
                + text_values(inserted(s.drop_first(), key, value)));
        } else {
            assert(text_values(seq![(key, value)] + s) =~= seq![(key, value@)] + t);
        }
    }
}

/// Storing the entries of `a` and then of `b` one after the other.
proof fn lemma_stored_all_push(a: Seq<(Seq<char>, Seq<char>)>, e: (Seq<char>, Seq<char>))
    ensures
        stored_all(a.push(e)) == inserted(stored_all(a), e.0, e.1),
{
    assert(a.push(e).drop_last() =~= a);
}

/// The mutation that creates the first `num_objects` objects and the JSON text of its
/// variables, or nothing when there are no objects to create. `fields` lists, for each
/// object, its fields as (name, GraphQL input type, value as JSON text), and
/// `connections` the relation fields every object connects, with the ids they connect to.
pub fn get_mutation_option(
    fields: &Vec<Vec<(String, String, String)>>,
    object_type_name: &str,
    num_objects: usize,
    connections: &Vec<(String, Vec<String>)>,
) -> (r: Option<(String, String)>)
    requires
        num_objects == 0 || fields@.len() >= num_objects,
        values_are_json(input_fields_view(fields@)),
    ensures
        (r is None) <==> num_objects == 0,
        match r {
            Some((m, v)) => m@ == mutation_text(
                object_type_name@,
                num_objects as nat,
                connections_view(connections@),
                input_fields_view(fields@),
            ) && v@ == variables_text(input_fields_view(fields@)),
            None => true,
        },
{
    if num_objects == 0 {
        return None;
    }
    let ghost fv = input_fields_view(fields@);
    let n = fields.len();
    // The variables, each stored under its name; a later value replaces an earlier one.
    let mut variables: StrMap<String> = StrMap::new();
    let mut i: usize = 0;
    assert(variable_entries(fv.take(0)) =~= Seq::<(Seq<char>, Seq<char>)>::empty());
    while i < n
        invariant
            n == fields@.len(),
            fv == input_fields_view(fields@),
            values_are_json(fv),
            i <= n,
            text_values(variables@) == stored_all(variable_entries(fv.take(i as int))),
        decreases n - i,
    {
        let number = decimal_text(i);
        let object_fields = &fields[i];
        let m = object_fields.len();
        let mut j: usize = 0;
        let ghost before = variable_entries(fv.take(i as int));
        let ghost these = variables_of(fv[i as int], i as nat);
        assert(before + these.take(0) =~= before);
        while j < m
            invariant
                m == object_fields@.len(),
                j <= m,
                number@ == decimal(i as nat),
                these == variables_of(fv[i as int], i as nat),
                fv == input_fields_view(fields@),
                values_are_json(fv),
                object_fields == fields@[i as int],
                i < n,
                n == fields@.len(),
                text_values(variables@) == stored_all(before + these.take(j as int)),
            decreases m - j,
        {
            let mut name = object_fields[j].0.clone();
            name.append(number.as_str());
            let value = match parse_json(object_fields[j].2.as_str()) {
                Some(v) => v,
                None => {
                    proof {
                        assert(fv[i as int][j as int].2 == object_fields@[j as int].2@);
                        assert(json_value(fv[i as int][j as int].2) is Some);
                        assert(false);
                    }
                    return None;
                },
            };
            proof {
                assert(these[j as int] == (name@, value@));
                assert(before + these.take(j + 1) =~= (before + these.take(j as int)).push(
                    these[j as int],
                ));
                lemma_stored_all_push(before + these.take(j as int), these[j as int]);
                lemma_text_values_inserted(variables@, name@, value);
            }
            variables.insert(name, value);
            j = j + 1;
        }
        proof {
            assert(these.take(m as int) =~= these);
            assert(fv.take(i + 1).drop_last() =~= fv.take(i as int));
            assert(fv.take(i + 1).last() == fv[i as int]);
        }
        i = i + 1;
    }
    assert(fv.take(n as int) =~= fv);
    // The JSON object text of the variables.
    let ghost stored = text_values(variables@);
    let k = variables.len();
    let mut members: Vec<String> = Vec::new();
    let mut t: usize = 0;
    while t < k
        invariant
            k == variables@.len(),
            stored == text_values(variables@),
            t <= k,
            members@.len() == t,
            forall|q: int|
                0 <= q < t ==> #[trigger] members@[q]@ == json_quoted(stored[q].0) + ":"@ + stored[q].1,
        decreases k - t,
    {
        let mut one = quote_json(variables.key_at(t).as_str());
        one.append(":");
        one.append(variables.value_at(t).as_str());
        members.push(one);
        t = t + 1;
    }
    assert(texts(members@) =~= stored.map_values(
        |e: (Seq<char>, Seq<char>)| json_quoted(e.0) + ":"@ + e.1,
    ));
    let mut variables_json = String::from_str("{");
    let inner = join_strings(&members, ",");
    variables_json.append(inner.as_str());
    variables_json.append("}");
    // The declarations of all objects.
    let mut declaration_parts: Vec<String> = Vec::new();
    let mut d: usize = 0;
    while d < n
        invariant
            n == fields@.len(),
            fv == input_fields_view(fields@),
            d <= n,
            declaration_parts@.len() == d,
            forall|q: int|
                0 <= q < d ==> #[trigger] declaration_parts@[q]@ == object_declarations(fv[q], q as nat),
        decreases n - d,
    {
        declaration_parts.push(object_declarations_text(&fields[d], d));
        d = d + 1;
    }
    assert(texts(declaration_parts@) =~= Seq::new(
        fv.len(),
        |q: int| object_declarations(fv[q], q as nat),
    ));
    let declarations_text = join_strings(&declaration_parts, ",");
    // The creation of each object.
    let ghost cv = connections_view(connections@);
    let mut creation_parts: Vec<String> = Vec::new();
    let mut c: usize = 0;
    while c < num_objects
        invariant
            num_objects <= n,
            n == fields@.len(),
            fv == input_fields_view(fields@),
            cv == connections_view(connections@),
            c <= num_objects,
            creation_parts@.len() == c,
            forall|q: int|
                0 <= q < c ==> #[trigger] creation_parts@[q]@ == creation_text(
                    object_type_name@,
                    q as nat,
                    cv,
                    fv[q],
                ),
        decreases num_objects - c,
    {
        let names = field_names_of(&fields[c]);
        let input = get_mutation_input(connections, &names, c);
        let mut one = String::from_str("create");
        one.append(object_type_name);
        let number = decimal_text(c);
        one.append(number.as_str());
        one.append(": create");
        one.append(object_type_name);
        one.append(input.as_str());
        one.append(" { id }");
        creation_parts.push(one);
        c = c + 1;
    }
    assert(texts(creation_parts@) =~= Seq::new(
        num_objects as nat,
        |q: int| creation_text(object_type_name@, q as nat, cv, fv[q]),
    ));
    let creations_text = join_strings(&creation_parts, "\n");
    let mut mutation = String::from_str("\n                    mutation (");
    mutation.append(declarations_text.as_str());
    mutation.append(") {\n                        ");
    mutation.append(creations_text.as_str());
    mutation.append("\n                    }\n                ");
    Some((mutation, variables_json))
}

/// The mutation and its variables as `get_mutation_option` gives them, where every field
/// value is JSON text and there are fields for each object to create; `None` otherwise.
pub fn try_get_mutation_option(
    fields: &Vec<Vec<(String, String, String)>>,
    object_type_name: &str,
    num_objects: usize,
    connections: &Vec<(String, Vec<String>)>,
) -> (r: Option<Option<(String, String)>>)
    ensures
        (r is Some) <==> ((num_objects == 0 || fields@.len() >= num_objects) && values_are_json(
            input_fields_view(fields@),
        )),
        match r {
            Some(inner) => ((inner is None) <==> num_objects == 0) && match inner {
                Some((m, v)) => m@ == mutation_text(
                    object_type_name@,
                    num_objects as nat,
                    connections_view(connections@),
                    input_fields_view(fields@),
                ) && v@ == variables_text(input_fields_view(fields@)),
                None => true,
            },
            None => true,
        },
{
    let ghost fv = input_fields_view(fields@);
    if num_objects != 0 && fields.len() < num_objects {
        return None;
    }
    let n = fields.len();
    let mut i: usize = 0;
    while i < n
        invariant
            n == fields@.len(),
            fv == input_fields_view(fields@),
            i <= n,
            forall|a: int, b: int|
                0 <= a < i && 0 <= b < fv[a].len() ==> #[trigger] json_value(fv[a][b].2) is Some,
        decreases n - i,
    {
        let object_fields = &fields[i];
        let m = object_fields.len();
        let mut j: usize = 0;
        while j < m
            invariant
                m == object_fields@.len(),
                object_fields == fields@[i as int],
                fv == input_fields_view(fields@),
                i < n,
                n == fields@.len(),
                j <= m,
                forall|a: int, b: int|
                    0 <= a < i && 0 <= b < fv[a].len() ==> #[trigger] json_value(fv[a][b].2) is Some,
                forall|b: int| 0 <= b < j ==> #[trigger] json_value(fv[i as int][b].2) is Some,
            decreases m - j,
        {
            proof {
                assert(fv[i as int][j as int].2 == object_fields@[j as int].2@);
            }
            if !crate::json::is_json(object_fields[j].2.as_str()) {
                return None;
            }
            j = j + 1;
        }
        i = i + 1;
    }
    Some(get_mutation_option(fields, object_type_name, num_objects, connections))
}

/// The field is not the object's `id`.
pub open spec fn not_id(f: (Seq<char>, Seq<char>, Seq<char>)) -> bool {
    f.0 != "id"@
}

/// The fields of an object to create, without its `id` field (the store assigns ids).
pub fn inputs_without_id(fields: &Vec<(String, String, String)>) -> (r: Vec<(String, String, String)>)
    ensures
        r@.map_values(|f: (String, String, String)| (f.0@, f.1@, f.2@)) == fields@.map_values(
            |f: (String, String, String)| (f.0@, f.1@, f.2@),
        ).filter(|f: (Seq<char>, Seq<char>, Seq<char>)| not_id(f)),
{
    let ghost view = fields@.map_values(|f: (String, String, String)| (f.0@, f.1@, f.2@));
    let ghost keep = |f: (Seq<char>, Seq<char>, Seq<char>)| not_id(f);
    let mut r: Vec<(String, String, String)> = Vec::new();
    let n = fields.len();
    let mut i: usize = 0;
    proof {
        reveal(Seq::filter);
        assert(view.take(0) =~= Seq::<(Seq<char>, Seq<char>, Seq<char>)>::empty());
        assert(r@.map_values(|f: (String, String, String)| (f.0@, f.1@, f.2@)) =~= Seq::<
            (Seq<char>, Seq<char>, Seq<char>),
        >::empty());
    }
    while i < n
        invariant
            n == fields@.len(),
            view == fields@.map_values(|f: (String, String, String)| (f.0@, f.1@, f.2@)),
            keep == (|f: (Seq<char>, Seq<char>, Seq<char>)| not_id(f)),
            i <= n,
            r@.map_values(|f: (String, String, String)| (f.0@, f.1@, f.2@)) == view.take(
                i as int,
            ).filter(keep),
        decreases n - i,
    {
        let ghost before = r@;
        proof {
            reveal(Seq::filter);
            assert(view.take(i + 1).drop_last() =~= view.take(i as int));
            assert(view.take(i + 1).last() == view[i as int]);
        }
        if !crate::text::text_equals(fields[i].0.as_str(), "id") {
            let f = (fields[i].0.clone(), fields[i].1.clone(), fields[i].2.clone());
            r.push(f);
            assert(r@.map_values(|f: (String, String, String)| (f.0@, f.1@, f.2@)) =~= before.map_values(
                |f: (String, String, String)| (f.0@, f.1@, f.2@),
            ).push(view[i as int]));
        }
        i = i + 1;
    }
    assert(view.take(n as int) =~= view);
    r
}

} // verus!
