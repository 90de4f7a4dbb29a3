use frosted::declarations::{extract_field, extract_fields, parse_tree};
use frosted::syntax::{str_contains, SyntaxNode};
use frosted::type_expr::{format_type_arguments, reconstruct};
use frosted::types::{CopyWithClassType, ParseError};

fn leaf(kind: &str, text: &str) -> SyntaxNode {
    SyntaxNode::leaf(kind, text)
}

fn node(kind: &str, text: &str, children: Vec<SyntaxNode>) -> SyntaxNode {
    SyntaxNode {
        kind: kind.to_string(),
        text: text.to_string(),
        field: None,
        children,
    }
}

fn with_field(mut n: SyntaxNode, field: &str) -> SyntaxNode {
    n.field = Some(field.to_string());
    n
}

fn ident_list(name: &str) -> SyntaxNode {
    node(
        "initialized_identifier_list",
        name,
        vec![node("initialized_identifier", name, vec![leaf("identifier", name)])],
    )
}

fn decl(children: Vec<SyntaxNode>) -> SyntaxNode {
    node("declaration", "", children)
}

fn class(name: &str, members: Vec<SyntaxNode>) -> SyntaxNode {
    node(
        "class_definition",
        "",
        vec![
            with_field(leaf("identifier", name), "name"),
            with_field(node("class_body", "", members), "body"),
        ],
    )
}

#[test]
fn nullable_node_marks_field_nullable() {
    let d = decl(vec![
        leaf("final_builtin", "final"),
        leaf("type_identifier", "Base"),
        leaf("nullable_type", "?"),
        ident_list("name"),
    ]);
    let f = extract_field(&d).unwrap();
    assert_eq!(f.name_str, "name");
    assert_eq!(f.type_str, "Base");
    assert!(f.is_nullable);
}

#[test]
fn reconstruct_counts_consumed_siblings() {
    let args = node("type_arguments", "<int>", vec![leaf("type_identifier", "int")]);
    let parent = node(
        "declaration",
        "",
        vec![
            leaf("final_builtin", "final"),
            leaf("type_identifier", "List"),
            args,
            leaf("nullable_type", "?"),
        ],
    );
    assert_eq!(reconstruct(&parent, 0), None);
    assert_eq!(reconstruct(&parent, 1), Some(("List<int>?".to_string(), 3)));
    let plain = node(
        "declaration",
        "",
        vec![leaf("type_identifier", "int"), leaf("nullable_type", "?")],
    );
    assert_eq!(reconstruct(&plain, 0), Some(("int?".to_string(), 2)));
    assert_eq!(reconstruct(&plain, 5), None);
}

#[test]
fn type_arguments_are_joined_and_nested() {
    let inner = node("type_arguments", "<int>", vec![leaf("type_identifier", "int")]);
    let args = node(
        "type_arguments",
        "",
        vec![
            leaf("<", "<"),
            leaf("type_identifier", "String"),
            leaf(",", ","),
            leaf("type_identifier", "List"),
            inner,
            leaf("nullable_type", "?"),
            leaf(">", ">"),
        ],
    );
    assert_eq!(format_type_arguments(&args), "String, List<int>?");
    assert_eq!(format_type_arguments(&node("type_arguments", "<>", vec![])), "");
}

#[test]
fn fields_skip_constructors_and_keep_order() {
    let body = node(
        "class_body",
        "",
        vec![
            decl(vec![leaf("type_identifier", "int"), ident_list("a")]),
            decl(vec![node("constant_constructor_signature", "const A()", vec![])]),
            leaf("comment", "// note"),
            decl(vec![
                leaf("type_identifier", "Map"),
                node(
                    "type_arguments",
                    "",
                    vec![
                        leaf("type_identifier", "String"),
                        leaf("type_identifier", "int"),
                        leaf("nullable_type", "?"),
                    ],
                ),
                ident_list("b"),
            ]),
        ],
    );
    let fields = extract_fields(&body);
    let got: Vec<(String, String, bool)> = fields
        .iter()
        .map(|f| (f.name_str.clone(), f.type_str.clone(), f.is_nullable))
        .collect();
    assert_eq!(
        got,
        vec![
            ("a".to_string(), "int".to_string(), false),
            ("b".to_string(), "Map<String, int?>".to_string(), false),
        ]
    );
}

#[test]
fn parse_tree_classifies_and_orders() {
    let root = node(
        "program",
        "",
        vec![
            class("Plain", vec![]),
            leaf("comment", "// +mk:copyWithNullableValue"),
            class("A", vec![decl(vec![leaf("type_identifier", "int"), ident_list("x")])]),
            leaf("comment", "// +mk:copyWith"),
            class("B", vec![]),
        ],
    );
    let classes = parse_tree(&root, "+mk:").unwrap();
    assert_eq!(classes.len(), 2);
    assert_eq!(classes[0].name_str, "A");
    assert_eq!(
        classes[0].copy_with_class_type,
        CopyWithClassType::ExtensionForcingNullableValue
    );
    assert_eq!(classes[0].fields.len(), 1);
    assert_eq!(classes[1].name_str, "B");
    assert_eq!(classes[1].copy_with_class_type, CopyWithClassType::Extension);
}

#[test]
fn parse_tree_rejects_unknown_variant() {
    let root = node(
        "program",
        "",
        vec![
            leaf("comment", "// +mk:copyWith"),
            class("A", vec![]),
            leaf("comment", "// +mk:frozen"),
            class("B", vec![]),
        ],
    );
    match parse_tree(&root, "+mk:") {
        Err(ParseError::UnknownVariant(text)) => assert_eq!(text, "// +mk:frozen"),
        other => panic!("unexpected result {:?}", other),
    }
}

#[test]
fn comment_without_token_is_not_an_annotation() {
    let root = node(
        "program",
        "",
        vec![leaf("comment", "// copyWith"), class("A", vec![])],
    );
    assert!(parse_tree(&root, "+mk:").unwrap().is_empty());
}

#[test]
fn contains_finds_substrings() {
    assert!(str_contains("// +mk:copyWithMixin", "+mk:"));
    assert!(str_contains("abc", ""));
    assert!(!str_contains("+mk", "+mk:"));
}
