use deltaq::parser::parse_schema;
use deltaq::render::{arrow_type_to_delta_str, ColumnField, ColumnType, RenderError};
use deltaq::types::{PrimitiveKind, TypeNode};

fn field(name: &str, data_type: ColumnType, nullable: bool) -> ColumnField {
    ColumnField { name: name.to_string(), data_type, nullable }
}

#[test]
fn every_primitive_renders_as_its_keyword() {
    let cases = [
        (PrimitiveKind::String, "string"),
        (PrimitiveKind::Long, "long"),
        (PrimitiveKind::Integer, "int"),
        (PrimitiveKind::Short, "short"),
        (PrimitiveKind::Byte, "byte"),
        (PrimitiveKind::Float, "float"),
        (PrimitiveKind::Double, "double"),
        (PrimitiveKind::Boolean, "boolean"),
        (PrimitiveKind::Binary, "binary"),
        (PrimitiveKind::Date, "date"),
        (PrimitiveKind::Timestamp, "timestamp"),
    ];
    for (kind, keyword) in cases {
        assert_eq!(arrow_type_to_delta_str(&ColumnType::Primitive(kind)).unwrap(), keyword);
    }
}

#[test]
fn decimal_renders_precision_and_scale() {
    assert_eq!(arrow_type_to_delta_str(&ColumnType::Decimal(10, 2)).unwrap(), "decimal(10,2)");
    assert_eq!(arrow_type_to_delta_str(&ColumnType::Decimal(38, 0)).unwrap(), "decimal(38,0)");
    assert_eq!(arrow_type_to_delta_str(&ColumnType::Decimal(5, -3)).unwrap(), "decimal(5,-3)");
    assert_eq!(
        arrow_type_to_delta_str(&ColumnType::Decimal(255, -128)).unwrap(),
        "decimal(255,-128)"
    );
}

#[test]
fn list_renders_as_array() {
    let t = ColumnType::List(Box::new(field(
        "item",
        ColumnType::Primitive(PrimitiveKind::String),
        true,
    )));
    assert_eq!(arrow_type_to_delta_str(&t).unwrap(), "array<string>");
}

#[test]
fn struct_renders_fields_in_order_without_nullability() {
    let t = ColumnType::Struct(vec![
        field("id", ColumnType::Primitive(PrimitiveKind::String), false),
        field("count", ColumnType::Primitive(PrimitiveKind::Integer), true),
    ]);
    assert_eq!(arrow_type_to_delta_str(&t).unwrap(), "struct<id:string,count:int>");
}

#[test]
fn empty_struct_renders_empty_body() {
    let t = ColumnType::Struct(vec![]);
    assert_eq!(arrow_type_to_delta_str(&t).unwrap(), "struct<>");
}

#[test]
fn map_renders_key_and_value() {
    let entries = field(
        "entries",
        ColumnType::Struct(vec![
            field("key", ColumnType::Primitive(PrimitiveKind::String), false),
            field("value", ColumnType::Primitive(PrimitiveKind::Long), true),
        ]),
        false,
    );
    let t = ColumnType::Mapping(Box::new(entries));
    assert_eq!(arrow_type_to_delta_str(&t).unwrap(), "map<string,long>");
}

#[test]
fn nullable_map_key_is_rejected() {
    let entries = field(
        "entries",
        ColumnType::Struct(vec![
            field("key", ColumnType::Primitive(PrimitiveKind::String), true),
            field("value", ColumnType::Primitive(PrimitiveKind::Long), false),
        ]),
        false,
    );
    let t = ColumnType::Mapping(Box::new(entries));
    assert_eq!(arrow_type_to_delta_str(&t).unwrap_err(), RenderError::NonNullableMapKeyViolation);
}

#[test]
fn one_field_map_layout_is_rejected() {
    let entries = field(
        "entries",
        ColumnType::Struct(vec![field("key", ColumnType::Primitive(PrimitiveKind::String), false)]),
        false,
    );
    let t = ColumnType::Mapping(Box::new(entries));
    assert_eq!(arrow_type_to_delta_str(&t).unwrap_err(), RenderError::InvalidMapLayout);
}

#[test]
fn non_struct_map_entries_are_rejected() {
    let entries = field("entries", ColumnType::Primitive(PrimitiveKind::String), false);
    let t = ColumnType::Mapping(Box::new(entries));
    assert_eq!(arrow_type_to_delta_str(&t).unwrap_err(), RenderError::InvalidMapLayout);
}

#[test]
fn dictionary_encoding_is_transparent() {
    let t = ColumnType::Dictionary(Box::new(ColumnType::Primitive(PrimitiveKind::String)));
    assert_eq!(arrow_type_to_delta_str(&t).unwrap(), "string");
}

#[test]
fn unsupported_kind_names_the_kind() {
    let t = ColumnType::Other("Interval".to_string());
    assert_eq!(
        arrow_type_to_delta_str(&t).unwrap_err(),
        RenderError::UnsupportedValueKind("Interval".to_string())
    );
}

#[test]
fn failed_nested_render_fails_the_whole_tree() {
    let t = ColumnType::Struct(vec![
        field("good", ColumnType::Primitive(PrimitiveKind::Integer), false),
        field("bad", ColumnType::Other("Union".to_string()), false),
    ]);
    assert_eq!(
        arrow_type_to_delta_str(&t).unwrap_err(),
        RenderError::UnsupportedValueKind("Union".to_string())
    );
}

#[test]
fn rendered_struct_parses_back() {
    let t = ColumnType::Struct(vec![
        field("id", ColumnType::Primitive(PrimitiveKind::String), false),
        field(
            "tags",
            ColumnType::List(Box::new(field(
                "item",
                ColumnType::Primitive(PrimitiveKind::Integer),
                false,
            ))),
            false,
        ),
    ]);
    let text = arrow_type_to_delta_str(&t).unwrap();
    assert_eq!(text, "struct<id:string,tags:array<int>>");

    let schema = parse_schema(&format!("col:{}", text)).unwrap();
    assert_eq!(schema.len(), 1);
    assert_eq!(
        schema[0].data_type,
        TypeNode::Struct(vec![
            deltaq::types::Field {
                name: "id".to_string(),
                data_type: TypeNode::Primitive(PrimitiveKind::String),
                nullable: false,
            },
            deltaq::types::Field {
                name: "tags".to_string(),
                data_type: TypeNode::Array(
                    Box::new(TypeNode::Primitive(PrimitiveKind::Integer)),
                    false
                ),
                nullable: false,
            },
        ])
    );
}

#[test]
fn rendered_map_parses_back() {
    let entries = field(
        "entries",
        ColumnType::Struct(vec![
            field("key", ColumnType::Primitive(PrimitiveKind::String), false),
            field("value", ColumnType::Primitive(PrimitiveKind::Integer), false),
        ]),
        false,
    );
    let t = ColumnType::Mapping(Box::new(entries));
    let text = arrow_type_to_delta_str(&t).unwrap();
    assert_eq!(text, "map<string,int>");

    let schema = parse_schema(&format!("m:{}", text)).unwrap();
    assert_eq!(
        schema[0].data_type,
        TypeNode::Mapping(
            Box::new(TypeNode::Primitive(PrimitiveKind::String)),
            Box::new(TypeNode::Primitive(PrimitiveKind::Integer)),
            false,
        )
    );
}
