use sudodb::graphql_text::{decimal_text, get_mutation_input, get_selection, join_strings};

fn strings(v: &[&str]) -> Vec<String> {
    v.iter().map(|x| x.to_string()).collect()
}

/// The selection and query written out with `format!`, field by field.
fn expected_selection(
    query_name: &str,
    selection_name: &str,
    scalar_selections: &str,
    relation_selections: &str,
) -> (String, String) {
    let selection_without_name = format!(
        "{{\n            id\n            {}\n            {}\n        }}",
        scalar_selections, relation_selections
    );
    (
        format!("\n            {}{}\n        ", selection_name, selection_without_name),
        format!(
            "\n            query {{\n                {}{}\n            }}\n        ",
            query_name, selection_without_name
        ),
    )
}

#[test]
fn selection_without_relations() {
    let scalars = strings(&["name", "age"]);
    let r = get_selection("readUser", None, &vec![], Some(&scalars));
    assert_eq!(r, expected_selection("readUser", "", "name\nage", ""));
    assert!(r.1.contains("readUser{\n            id\n            name\nage\n"));
}

#[test]
fn selection_named_by_relation_field() {
    let relations = strings(&["\n            friends{ id }\n        ", "posts{ id }"]);
    let r = get_selection("readUser", Some("friends".to_string()), &relations, None);
    assert_eq!(
        r,
        expected_selection("readUser", "friends", "", "\n            friends{ id }\n        \nposts{ id }")
    );
}

#[test]
fn mutation_input_is_empty_without_fields() {
    assert_eq!(get_mutation_input(&vec![], &vec![], 3), "");
}

#[test]
fn mutation_input_with_connections_and_scalars() {
    let connections = vec![
        ("friends".to_string(), strings(&["\"1\"", "\"2\""])),
        ("posts".to_string(), strings(&[])),
    ];
    let fields = strings(&["name", "age"]);
    let r = get_mutation_input(&connections, &fields, 12);
    let connection_text = |name: &str, ids: &str| {
        format!("{}: {{\n                        connect: [{}]\n                    }}", name, ids)
    };
    let expected = format!(
        "(input: {{\n                {}\n                {}\n            }})",
        format!("{}{}", connection_text("friends", "\"1\",\"2\""), connection_text("posts", "")),
        "name: $name12\n                        age: $age12"
    );
    assert_eq!(r, expected);
}

#[test]
fn mutation_input_with_scalars_only() {
    let r = get_mutation_input(&vec![], &strings(&["title"]), 0);
    assert_eq!(r, "(input: {\n                \n                title: $title0\n            })");
}

#[test]
fn decimal_text_matches_std() {
    for n in [0usize, 7, 9, 10, 11, 99, 100, 12345, usize::MAX] {
        assert_eq!(decimal_text(n), n.to_string());
    }
}

#[test]
fn join_strings_matches_std() {
    for parts in [vec![], strings(&["a"]), strings(&["a", "", "bc"])] {
        assert_eq!(join_strings(&parts, ", "), parts.join(", "));
    }
}
