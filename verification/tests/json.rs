use sudodb::graphql_text::{get_mutation_input, get_mutation_option, inputs_without_id, try_get_mutation_option};
use sudodb::json::{
    get_object_ids, is_json, object_ids, objects_in_response, parse_json, parse_json_array, parse_json_object, quote_json,
};

fn strings(v: &[&str]) -> Vec<String> {
    v.iter().map(|x| x.to_string()).collect()
}

#[test]
fn parses_object_members() {
    let m = parse_json_object(r#"{"b": [1, 2], "a": {"x": "y"}, "c": null}"#).unwrap();
    assert_eq!(
        m,
        vec![
            ("a".to_string(), r#"{"x":"y"}"#.to_string()),
            ("b".to_string(), "[1,2]".to_string()),
            ("c".to_string(), "null".to_string()),
        ]
    );
    assert_eq!(parse_json_object("[1]"), None);
    assert_eq!(parse_json_object("{"), None);
}

#[test]
fn parses_array_elements() {
    assert_eq!(parse_json_array(r#"[1, "two", {"id": "3"}]"#), Some(strings(&["1", "\"two\"", r#"{"id":"3"}"#])));
    assert_eq!(parse_json_array("{}"), None);
    assert_eq!(parse_json_array("not json"), None);
}

#[test]
fn quotes_strings() {
    assert_eq!(quote_json("a\"b\\c\n"), r#""a\"b\\c\n""#);
}

#[test]
fn reads_objects_out_of_a_response() {
    let response = r#"{"data": {"readUser": [{"id": "1", "name": "Alice"}, {"id": "2"}]}}"#;
    assert_eq!(
        objects_in_response(response, "readUser"),
        Some(strings(&[r#"{"id":"1","name":"Alice"}"#, r#"{"id":"2"}"#]))
    );
    assert_eq!(objects_in_response(response, "readPost"), None);
    assert_eq!(objects_in_response(r#"{"errors": []}"#, "readUser"), None);
    assert_eq!(objects_in_response(r#"{"data": {"readUser": 3}}"#, "readUser"), None);
    assert_eq!(objects_in_response("oops", "readUser"), None);
    assert_eq!(objects_in_response(r#"{"data": {"readUser": []}}"#, "readUser"), Some(vec![]));
}

#[test]
fn object_ids_keep_their_json_quoting() {
    let objects = strings(&[r#"{"id":"1","name":"Alice"}"#, r#"{"id":2}"#]);
    assert_eq!(get_object_ids(&objects), strings(&["\"1\"", "2"]));
    assert_eq!(object_ids(&objects), Some(strings(&["\"1\"", "2"])));
    assert_eq!(object_ids(&strings(&[r#"{"id":"1"}"#, r#"{"name":"x"}"#])), None);
    assert_eq!(object_ids(&strings(&["[]"])), None);
    assert_eq!(object_ids(&vec![]), Some(vec![]));
}

/// The mutation and its variables written out with `format!` and serde_json, as a test
/// harness would build them from its own values.
fn expected_mutation(
    fields: &Vec<Vec<(String, String, String)>>,
    object_type_name: &str,
    num_objects: usize,
    connections: &Vec<(String, Vec<String>)>,
) -> (String, String) {
    let mut variables = serde_json::Map::new();
    for (index, object_fields) in fields.iter().enumerate() {
        for (name, _, value) in object_fields {
            variables.insert(format!("{}{}", name, index), serde_json::from_str(value).unwrap());
        }
    }
    let declarations = fields
        .iter()
        .enumerate()
        .map(|(index, object_fields)| {
            object_fields
                .iter()
                .map(|(name, ty, _)| format!("${}{}: {}!", name, index, ty))
                .collect::<Vec<String>>()
                .join(",")
        })
        .collect::<Vec<String>>()
        .join(",");
    let creations = (0..num_objects)
        .map(|index| {
            let names: Vec<String> = fields[index].iter().map(|f| f.0.clone()).collect();
            format!(
                "create{}{}: create{}{} {{ id }}",
                object_type_name,
                index,
                object_type_name,
                get_mutation_input(connections, &names, index)
            )
        })
        .collect::<Vec<String>>()
        .join("\n");
    (
        format!(
            "\n                    mutation ({}) {{\n                        {}\n                    }}\n                ",
            declarations, creations
        ),
        serde_json::Value::Object(variables).to_string(),
    )
}

fn field(name: &str, ty: &str, value: &str) -> (String, String, String) {
    (name.to_string(), ty.to_string(), value.to_string())
}

#[test]
fn no_mutation_without_objects() {
    assert_eq!(get_mutation_option(&vec![], "User", 0, &vec![]), None);
    assert_eq!(get_mutation_option(&vec![vec![field("a", "Int", "1")]], "User", 0, &vec![]), None);
}

#[test]
fn mutation_for_several_objects() {
    let fields = vec![
        vec![field("name", "String", "\"Alice\""), field("age", "Int", "30")],
        vec![field("name", "String", "\"Bob\""), field("age", "Int", "25")],
    ];
    let connections = vec![("friends".to_string(), strings(&["\"7\""]))];
    let r = get_mutation_option(&fields, "User", 2, &connections).unwrap();
    assert_eq!(r, expected_mutation(&fields, "User", 2, &connections));
    assert_eq!(r.1, r#"{"age0":30,"age1":25,"name0":"Alice","name1":"Bob"}"#);
    assert!(r.0.contains("mutation ($name0: String!,$age0: Int!,$name1: String!,$age1: Int!)"));
}

#[test]
fn mutation_with_objects_without_fields() {
    let fields = vec![vec![], vec![field("x", "Float", "1.5")], vec![]];
    let r = get_mutation_option(&fields, "Thing", 3, &vec![]).unwrap();
    assert_eq!(r, expected_mutation(&fields, "Thing", 3, &vec![]));
    assert!(r.0.contains("mutation (,$x1: Float!,)"));
    assert!(r.0.contains("createThing0: createThing { id }"));
}

#[test]
fn later_variable_of_the_same_name_wins() {
    // A field listed twice for one object names the same variable twice.
    let fields = vec![vec![field("a", "Int", "1"), field("a", "Int", "2")], vec![field("a", "Int", "3")]];
    let r = get_mutation_option(&fields, "T", 2, &vec![]).unwrap();
    assert_eq!(r.1, r#"{"a0":2,"a1":3}"#);
    assert_eq!(r, expected_mutation(&fields, "T", 2, &vec![]));
}

#[test]
fn variable_names_are_escaped() {
    let fields = vec![vec![field("q\"", "String", "\"v\"")]];
    let r = get_mutation_option(&fields, "T", 1, &vec![]).unwrap();
    assert_eq!(r.1, r#"{"q\"0":"v"}"#);
}

/// How a character appears inside a JSON string, written out character by character.
fn escape(c: char) -> String {
    match c {
        '"' => "\\\"".to_string(),
        '\\' => "\\\\".to_string(),
        '\u{8}' => "\\b".to_string(),
        '\t' => "\\t".to_string(),
        '\n' => "\\n".to_string(),
        '\u{c}' => "\\f".to_string(),
        '\r' => "\\r".to_string(),
        c if (c as u32) < 0x20 => format!("\\u00{:02x}", c as u32),
        c => c.to_string(),
    }
}

#[test]
fn quoting_escapes_exactly_the_listed_characters() {
    let mut all = String::new();
    for code in 0u32..0x300 {
        if let Some(c) = char::from_u32(code) {
            all.push(c);
            assert_eq!(quote_json(&c.to_string()), format!("\"{}\"", escape(c)), "U+{:04X}", code);
        }
    }
    all.push_str("日本\u{10FFFF}");
    let expected: String = all.chars().map(escape).collect();
    assert_eq!(quote_json(&all), format!("\"{}\"", expected));
}

#[test]
fn values_are_written_compactly() {
    assert_eq!(parse_json("[1, 2,\n 3]"), Some("[1,2,3]".to_string()));
    assert_eq!(parse_json(" \"x\" "), Some("\"x\"".to_string()));
    assert_eq!(parse_json("{\"b\": 1, \"a\": null}"), Some("{\"a\":null,\"b\":1}".to_string()));
    assert_eq!(parse_json("nope"), None);
    assert!(is_json("3.5"));
    assert!(!is_json("{"));
}

#[test]
fn mutation_variables_are_written_compactly() {
    let fields = vec![vec![field("tags", "[String!]", "[ \"a\" ,  \"b\" ]")]];
    let r = get_mutation_option(&fields, "Post", 1, &vec![]).unwrap();
    assert_eq!(r.1, r#"{"tags0":["a","b"]}"#);
    assert_eq!(r, expected_mutation(&fields, "Post", 1, &vec![]));
}

#[test]
fn checked_mutation_option() {
    let good = vec![vec![field("a", "Int", "1")]];
    assert_eq!(try_get_mutation_option(&good, "T", 1, &vec![]), Some(get_mutation_option(&good, "T", 1, &vec![])));
    assert_eq!(try_get_mutation_option(&good, "T", 0, &vec![]), Some(None));
    assert_eq!(try_get_mutation_option(&good, "T", 2, &vec![]), None);
    let bad = vec![vec![field("a", "Int", "1")], vec![field("b", "Int", "one")]];
    assert_eq!(try_get_mutation_option(&bad, "T", 1, &vec![]), None);
}

#[test]
fn id_inputs_are_dropped() {
    let fields = vec![field("id", "ID", "\"1\""), field("name", "String", "\"a\""), field("ids", "Int", "2")];
    assert_eq!(inputs_without_id(&fields), vec![field("name", "String", "\"a\""), field("ids", "Int", "2")]);
    assert_eq!(inputs_without_id(&vec![]), vec![]);
}
