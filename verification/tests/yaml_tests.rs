use open_entities::components::Scalar;
use open_entities::tree::Node;
use open_entities::yaml::{
    decode_component, decode_document, decode_entity, find_field, parse_entity_list, ParseError,
    ParseErrorKind, YamlComponent,
};

fn number(value: f64) -> Scalar {
    Scalar { bits: value.to_bits() }
}

fn text(s: &str) -> Node {
    Node::Text(s.to_string())
}

fn entry(key: &str, value: Node) -> (Node, Node) {
    (text(key), value)
}

fn kind_of_error(yaml: &str) -> ParseErrorKind {
    match parse_entity_list(yaml) {
        Ok(_) => panic!("the document was accepted"),
        Err(e) => e.kind,
    }
}

#[test]
fn test_parse_single_entity() {
    let yaml = r#"
entities:
  - name: "test_entity"
    components:
      - type: Position
        data:
          x: 10.0
          y: 20.0
      - type: Velocity
        data:
          vx: 1.5
          vy: 2.5
"#;
    let result = parse_entity_list(yaml).unwrap();
    assert_eq!(result.entities.len(), 1);
    assert_eq!(result.entities[0].name, Some("test_entity".to_string()));
    assert_eq!(result.entities[0].components.len(), 2);
}

#[test]
fn test_parse_marker_components() {
    let yaml = r#"
entities:
  - components:
      - type: Unit
      - type: Vehicle
"#;
    let result = parse_entity_list(yaml).unwrap();
    assert_eq!(result.entities.len(), 1);
    assert_eq!(result.entities[0].components.len(), 2);
}

#[test]
fn test_parse_multiple_entities() {
    let yaml = r#"
entities:
  - name: "entity1"
    components:
      - type: Position
        data:
          x: 0.0
          y: 0.0
  - name: "entity2"
    components:
      - type: Position
        data:
          x: 5.0
          y: 5.0
      - type: Unit
"#;
    let result = parse_entity_list(yaml).unwrap();
    assert_eq!(result.entities.len(), 2);
}

#[test]
fn parsed_components_keep_values_and_order() {
    let yaml = "entities:\n  - name: a\n    components:\n      - type: Velocity\n        data: {vx: 1.5, vy: -2.5}\n      - type: Vehicle\n      - type: Position\n        data: {x: 10.0, y: 20.0}\n      - type: Unit\n";
    let list = parse_entity_list(yaml).unwrap();
    assert_eq!(
        list.entities[0].components,
        vec![
            YamlComponent::Velocity { vx: number(1.5), vy: number(-2.5) },
            YamlComponent::Vehicle,
            YamlComponent::Position { x: number(10.0), y: number(20.0) },
            YamlComponent::Unit,
        ]
    );
}

#[test]
fn whole_numbers_are_numbers() {
    let yaml = "entities:\n  - components:\n      - type: Position\n        data: {x: 3, y: -4}\n";
    let list = parse_entity_list(yaml).unwrap();
    assert_eq!(
        list.entities[0].components,
        vec![YamlComponent::Position { x: number(3.0), y: number(-4.0) }]
    );
    match list.entities[0].components[0] {
        YamlComponent::Position { x, y } => {
            assert_eq!(f64::from_bits(x.bits), 3.0);
            assert_eq!(f64::from_bits(y.bits), -4.0);
        }
        _ => panic!("not a position"),
    }
}

#[test]
fn name_may_be_absent_or_null() {
    let list = parse_entity_list("entities:\n  - components: []\n  - name: ~\n    components: []\n").unwrap();
    assert_eq!(list.entities.len(), 2);
    assert_eq!(list.entities[0].name, None);
    assert_eq!(list.entities[1].name, None);
    assert!(list.entities[0].components.is_empty());
}

#[test]
fn empty_entity_list_is_valid() {
    let list = parse_entity_list("entities: []\n").unwrap();
    assert_eq!(list.entities.len(), 0);
}

#[test]
fn keys_outside_the_schema_are_ignored() {
    let yaml = "version: 3\nentities:\n  - name: a\n    note: hello\n    components:\n      - type: Unit\n        weight: 4\n";
    let list = parse_entity_list(yaml).unwrap();
    assert_eq!(list.entities[0].components, vec![YamlComponent::Unit]);
}

#[test]
fn marker_with_null_data_is_accepted() {
    let list = parse_entity_list("entities:\n  - components:\n      - type: Unit\n        data: ~\n").unwrap();
    assert_eq!(list.entities[0].components, vec![YamlComponent::Unit]);
}

#[test]
fn marker_with_data_is_a_type_mismatch() {
    let yaml = "entities:\n  - components:\n      - type: Vehicle\n        data: {x: 1.0}\n";
    assert_eq!(kind_of_error(yaml), ParseErrorKind::TypeMismatch);
}

#[test]
fn malformed_text_is_a_syntax_error() {
    let e: ParseError = parse_entity_list("entities: [").unwrap_err();
    assert_eq!(e.kind, ParseErrorKind::Syntax);
    assert!(!e.message.is_empty());
    assert_ne!(e.message, "entities: [");
}

#[test]
fn repeated_key_is_a_syntax_error() {
    assert_eq!(kind_of_error("entities: []\nentities: []\n"), ParseErrorKind::Syntax);
}

#[test]
fn missing_entities_is_a_missing_field() {
    assert_eq!(kind_of_error("things: []\n"), ParseErrorKind::MissingField);
}

#[test]
fn missing_components_is_a_missing_field() {
    assert_eq!(kind_of_error("entities:\n  - name: a\n"), ParseErrorKind::MissingField);
}

#[test]
fn missing_type_is_a_missing_field() {
    assert_eq!(
        kind_of_error("entities:\n  - components:\n      - data: {x: 1.0, y: 2.0}\n"),
        ParseErrorKind::MissingField
    );
}

#[test]
fn missing_data_is_a_missing_field() {
    assert_eq!(
        kind_of_error("entities:\n  - components:\n      - type: Velocity\n"),
        ParseErrorKind::MissingField
    );
}

#[test]
fn missing_number_is_a_missing_field() {
    let yaml = "entities:\n  - components:\n      - type: Position\n        data: {x: 1.0}\n";
    let e = parse_entity_list(yaml).unwrap_err();
    assert_eq!(e.kind, ParseErrorKind::MissingField);
    assert_eq!(e.message, "missing field");
}

#[test]
fn text_for_a_number_is_a_type_mismatch() {
    let yaml = "entities:\n  - components:\n      - type: Position\n        data: {x: abc, y: 2.0}\n";
    let e = parse_entity_list(yaml).unwrap_err();
    assert_eq!(e.kind, ParseErrorKind::TypeMismatch);
    assert_eq!(e.message, "invalid type");
}

#[test]
fn wrong_shapes_are_type_mismatches() {
    assert_eq!(kind_of_error("- a\n- b\n"), ParseErrorKind::TypeMismatch);
    assert_eq!(kind_of_error("entities: 5\n"), ParseErrorKind::TypeMismatch);
    assert_eq!(kind_of_error("entities:\n  - 7\n"), ParseErrorKind::TypeMismatch);
    assert_eq!(kind_of_error("entities:\n  - components: yes\n"), ParseErrorKind::TypeMismatch);
    assert_eq!(kind_of_error("entities:\n  - name: 5\n    components: []\n"), ParseErrorKind::TypeMismatch);
    assert_eq!(kind_of_error("entities:\n  - components:\n      - Unit\n"), ParseErrorKind::TypeMismatch);
    assert_eq!(kind_of_error("entities:\n  - components:\n      - type: 5\n"), ParseErrorKind::TypeMismatch);
    assert_eq!(
        kind_of_error("entities:\n  - components:\n      - type: Position\n        data: [1.0, 2.0]\n"),
        ParseErrorKind::TypeMismatch
    );
    assert_eq!(kind_of_error("entities: !things []\n"), ParseErrorKind::TypeMismatch);
}

#[test]
fn unknown_type_is_an_unknown_component_kind() {
    let yaml = "entities:\n  - components:\n      - type: Wheel\n";
    let e = parse_entity_list(yaml).unwrap_err();
    assert_eq!(e.kind, ParseErrorKind::UnknownComponentKind);
    assert_eq!(e.message, "unknown component type");
}

#[test]
fn kinds_are_spelled_exactly() {
    assert_eq!(
        kind_of_error("entities:\n  - components:\n      - type: unit\n"),
        ParseErrorKind::UnknownComponentKind
    );
}

#[test]
fn first_fault_in_document_order_is_reported() {
    let yaml = "entities:\n  - components:\n      - type: Unit\n      - type: Wheel\n  - components:\n      - type: Position\n        data: {x: 1.0}\n";
    let e = parse_entity_list(yaml).unwrap_err();
    assert_eq!(e.kind, ParseErrorKind::UnknownComponentKind);
    assert_eq!(e.entity, Some(0));
    assert_eq!(e.component, Some(1));
    let yaml = "entities:\n  - components:\n      - type: Position\n        data: {x: 1.0}\n      - type: Wheel\n";
    let e = parse_entity_list(yaml).unwrap_err();
    assert_eq!(e.kind, ParseErrorKind::MissingField);
    assert_eq!(e.entity, Some(0));
    assert_eq!(e.component, Some(0));
}

#[test]
fn faults_carry_their_place() {
    let yaml = "entities:\n  - components: []\n  - components:\n      - type: Unit\n  - name: c\n    components:\n      - type: Unit\n      - type: Vehicle\n      - type: Velocity\n        data: {vx: 1.0, vy: fast}\n";
    let e = parse_entity_list(yaml).unwrap_err();
    assert_eq!(e.kind, ParseErrorKind::TypeMismatch);
    assert_eq!(e.entity, Some(2));
    assert_eq!(e.component, Some(2));
    let e = parse_entity_list("entities:\n  - components: []\n  - name: b\n").unwrap_err();
    assert_eq!(e.kind, ParseErrorKind::MissingField);
    assert_eq!(e.entity, Some(1));
    assert_eq!(e.component, None);
    let e = parse_entity_list("things: []\n").unwrap_err();
    assert_eq!(e.entity, None);
    assert_eq!(e.component, None);
    let e = parse_entity_list("entities: [").unwrap_err();
    assert_eq!(e.entity, None);
    assert_eq!(e.component, None);
}

#[test]
fn parsing_twice_gives_the_same_entities() {
    let yaml = "entities:\n  - name: a\n    components:\n      - type: Position\n        data: {x: 1.25, y: 2.0}\n  - components:\n      - type: Unit\n";
    let first = parse_entity_list(yaml).unwrap();
    let second = parse_entity_list(yaml).unwrap();
    assert_eq!(first.entities.len(), second.entities.len());
    for i in 0..first.entities.len() {
        assert_eq!(first.entities[i].name, second.entities[i].name);
        assert_eq!(first.entities[i].components, second.entities[i].components);
    }
    assert_eq!(format!("{:?}", first), format!("{:?}", second));
}

#[test]
fn find_field_takes_the_string_key() {
    let entries = vec![
        (Node::Number(number(1.0)), Node::Bool(true)),
        entry("b", Node::Null),
        entry("a", Node::Bool(false)),
    ];
    assert!(matches!(find_field(&entries, "a"), Some(Node::Bool(false))));
    assert!(matches!(find_field(&entries, "b"), Some(Node::Null)));
    assert!(find_field(&entries, "c").is_none());
}

#[test]
fn decode_component_from_a_tree() {
    let node = Node::Mapping(vec![
        entry("type", text("Velocity")),
        entry("data", Node::Mapping(vec![entry("vy", Node::Number(number(2.0))), entry("vx", Node::Number(number(1.0)))])),
    ]);
    assert_eq!(
        decode_component(&node).unwrap(),
        YamlComponent::Velocity { vx: number(1.0), vy: number(2.0) }
    );
    let node = Node::Mapping(vec![entry("type", text("Position")), entry("data", Node::Mapping(vec![entry("y", Node::Number(number(2.0)))]))]);
    let e = decode_component(&node).unwrap_err();
    assert_eq!(e.kind, ParseErrorKind::MissingField);
    assert_eq!(e.entity, None);
    assert_eq!(e.component, None);
    assert_eq!(decode_component(&Node::Tagged).unwrap_err().kind, ParseErrorKind::TypeMismatch);
}

#[test]
fn decode_entity_from_a_tree() {
    let node = Node::Mapping(vec![
        entry("components", Node::Sequence(vec![Node::Mapping(vec![entry("type", text("Unit"))])])),
        entry("name", text("scout")),
    ]);
    let entity = decode_entity(&node).unwrap();
    assert_eq!(entity.name, Some("scout".to_string()));
    assert_eq!(entity.components, vec![YamlComponent::Unit]);
    assert_eq!(decode_entity(&Node::Null).unwrap_err().kind, ParseErrorKind::TypeMismatch);
    let node = Node::Mapping(vec![entry(
        "components",
        Node::Sequence(vec![Node::Mapping(vec![entry("type", text("Unit"))]), Node::Mapping(vec![entry("type", text("Boat"))])]),
    )]);
    let e = decode_entity(&node).unwrap_err();
    assert_eq!(e.kind, ParseErrorKind::UnknownComponentKind);
    assert_eq!(e.entity, None);
    assert_eq!(e.component, Some(1));
}

#[test]
fn decode_document_from_a_tree() {
    let root = Node::Mapping(vec![entry(
        "entities",
        Node::Sequence(vec![
            Node::Mapping(vec![entry("components", Node::Sequence(vec![]))]),
            Node::Mapping(vec![entry("components", Node::Sequence(vec![Node::Mapping(vec![entry("type", text("Vehicle"))])]))]),
        ]),
    )]);
    let list = decode_document(&root).unwrap();
    assert_eq!(list.entities.len(), 2);
    assert!(list.entities[0].components.is_empty());
    assert_eq!(list.entities[1].components, vec![YamlComponent::Vehicle]);
    let root = Node::Mapping(vec![entry("entities", Node::Bool(true))]);
    assert_eq!(decode_document(&root).unwrap_err().kind, ParseErrorKind::TypeMismatch);
    let root = Node::Mapping(vec![entry(
        "entities",
        Node::Sequence(vec![Node::Mapping(vec![entry("components", Node::Sequence(vec![]))]), Node::Tagged]),
    )]);
    let e = decode_document(&root).unwrap_err();
    assert_eq!(e.kind, ParseErrorKind::TypeMismatch);
    assert_eq!(e.entity, Some(1));
    assert_eq!(e.component, None);
    assert_eq!(e.message, "invalid type");
}

#[test]
fn schema_error_has_its_kind() {
    let e = ParseError::schema(ParseErrorKind::MissingField, Some(2), None);
    assert_eq!(e.kind, ParseErrorKind::MissingField);
    assert_eq!(e.entity, Some(2));
    assert_eq!(e.component, None);
    assert_eq!(e.message, "missing field");
    assert_eq!(ParseError::schema(ParseErrorKind::Syntax, None, None).message, "malformed document");
}
