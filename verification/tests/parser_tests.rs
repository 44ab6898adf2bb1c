use deltaq::parser::{parse_schema, ParseErrorKind};
use deltaq::types::{Field, PrimitiveKind, TypeNode};

#[test]
fn test_parse_schema() {
    let schema_str = "name:string, age :int?, salary: double";
    let schema = parse_schema(schema_str).unwrap();
    assert_eq!(schema.len(), 3);
    assert_eq!(schema[0].name, "name");
    assert_eq!(schema[0].data_type, TypeNode::Primitive(PrimitiveKind::String));
    assert_eq!(schema[0].nullable, false);
    assert_eq!(schema[1].name, "age");
    assert_eq!(schema[1].data_type, TypeNode::Primitive(PrimitiveKind::Integer));
    assert_eq!(schema[1].nullable, true);
    assert_eq!(schema[2].name, "salary");
    assert_eq!(schema[2].data_type, TypeNode::Primitive(PrimitiveKind::Double));
    assert_eq!(schema[2].nullable, false);
}

#[test]
fn test_parse_array() {
    let schema_str = "arr_name:array<string>, arr_name2:array<int?>";
    let schema = parse_schema(schema_str).unwrap();

    assert_eq!(schema.len(), 2);
    assert_eq!(schema[0].name, "arr_name");
    assert_eq!(
        schema[0].data_type,
        TypeNode::Array(Box::new(TypeNode::Primitive(PrimitiveKind::String)), false)
    );
    assert_eq!(schema[1].name, "arr_name2");
    assert_eq!(
        schema[1].data_type,
        TypeNode::Array(Box::new(TypeNode::Primitive(PrimitiveKind::Integer)), true)
    );
}

#[test]
fn test_parse_struct() {
    let schema_str = "struct_name: struct<id: string, count: int>";
    let schema = parse_schema(schema_str).unwrap();

    assert_eq!(schema.len(), 1);
    assert_eq!(schema[0].name, "struct_name");
    assert_eq!(
        schema[0].data_type,
        TypeNode::Struct(vec![
            Field {
                name: "id".to_string(),
                data_type: TypeNode::Primitive(PrimitiveKind::String),
                nullable: false,
            },
            Field {
                name: "count".to_string(),
                data_type: TypeNode::Primitive(PrimitiveKind::Integer),
                nullable: false,
            },
        ])
    )
}

#[test]
fn test_parse_map() {
    let schema_str = "map_name: map<string, string>, map_name2: map<string, int?>";
    let schema = parse_schema(schema_str).unwrap();

    assert_eq!(schema.len(), 2);

    assert_eq!(schema[0].name, "map_name");
    assert_eq!(
        schema[0].data_type,
        TypeNode::Mapping(
            Box::new(TypeNode::Primitive(PrimitiveKind::String)),
            Box::new(TypeNode::Primitive(PrimitiveKind::String)),
            false,
        )
    );

    assert_eq!(schema[1].name, "map_name2");
    assert_eq!(
        schema[1].data_type,
        TypeNode::Mapping(
            Box::new(TypeNode::Primitive(PrimitiveKind::String)),
            Box::new(TypeNode::Primitive(PrimitiveKind::Integer)),
            true,
        )
    );
}

fn parse_single(input: &str) -> Field {
    let mut schema = parse_schema(input).unwrap();
    assert_eq!(schema.len(), 1);
    schema.remove(0)
}

#[test]
fn every_primitive_keyword_parses() {
    let cases = [
        ("string", PrimitiveKind::String),
        ("long", PrimitiveKind::Long),
        ("int", PrimitiveKind::Integer),
        ("short", PrimitiveKind::Short),
        ("byte", PrimitiveKind::Byte),
        ("float", PrimitiveKind::Float),
        ("double", PrimitiveKind::Double),
        ("boolean", PrimitiveKind::Boolean),
        ("binary", PrimitiveKind::Binary),
        ("date", PrimitiveKind::Date),
        ("timestamp", PrimitiveKind::Timestamp),
    ];
    for (keyword, kind) in cases {
        let f = parse_single(&format!("f:{}", keyword));
        assert_eq!(f.name, "f");
        assert_eq!(f.data_type, TypeNode::Primitive(kind));
        assert_eq!(f.nullable, false);

        let f = parse_single(&format!("f:{}?", keyword));
        assert_eq!(f.name, "f");
        assert_eq!(f.data_type, TypeNode::Primitive(kind));
        assert_eq!(f.nullable, true);
    }
}

#[test]
fn array_of_string_and_nullable_element() {
    let f = parse_single("arr:array<string>");
    assert_eq!(f.name, "arr");
    assert_eq!(
        f.data_type,
        TypeNode::Array(Box::new(TypeNode::Primitive(PrimitiveKind::String)), false)
    );

    let f = parse_single("arr:array<int?>");
    assert_eq!(
        f.data_type,
        TypeNode::Array(Box::new(TypeNode::Primitive(PrimitiveKind::Integer)), true)
    );
}

#[test]
fn map_with_nullable_value() {
    let f = parse_single("m:map<string,int?>");
    assert_eq!(f.name, "m");
    assert_eq!(
        f.data_type,
        TypeNode::Mapping(
            Box::new(TypeNode::Primitive(PrimitiveKind::String)),
            Box::new(TypeNode::Primitive(PrimitiveKind::Integer)),
            true,
        )
    );
}

#[test]
fn nested_struct_bracket_matching() {
    let f = parse_single("s:struct<a:int,b:struct<c:string>>");
    assert_eq!(f.name, "s");
    match f.data_type {
        TypeNode::Struct(fields) => {
            assert_eq!(fields.len(), 2);
            assert_eq!(fields[0].name, "a");
            assert_eq!(fields[0].data_type, TypeNode::Primitive(PrimitiveKind::Integer));
            assert_eq!(fields[1].name, "b");
            assert_eq!(
                fields[1].data_type,
                TypeNode::Struct(vec![Field {
                    name: "c".to_string(),
                    data_type: TypeNode::Primitive(PrimitiveKind::String),
                    nullable: false,
                }])
            );
        }
        other => panic!("expected a struct, got {:?}", other),
    }
}

#[test]
fn trailing_comma_is_unexpected_end_of_input() {
    let e = parse_schema("name:string,").unwrap_err();
    assert_eq!(e.kind, ParseErrorKind::UnexpectedEndOfInput);
}

#[test]
fn unknown_type_keyword_reports_word_and_offset() {
    let e = parse_schema("a:foo").unwrap_err();
    assert_eq!(e.kind, ParseErrorKind::UnknownTypeKeyword);
    assert_eq!(e.word, "foo");
    assert_eq!(e.offset, Some(2));
}

#[test]
fn unclosed_array_is_unexpected_end_of_input() {
    let e = parse_schema("a:array<string").unwrap_err();
    assert_eq!(e.kind, ParseErrorKind::UnexpectedEndOfInput);
}

#[test]
fn unclosed_struct_is_unmatched_open_bracket() {
    let e = parse_schema("a:struct<b:int").unwrap_err();
    assert_eq!(e.kind, ParseErrorKind::UnmatchedOpenBracket);
}

#[test]
fn missing_colon_is_unexpected_token() {
    let e = parse_schema("name string").unwrap_err();
    assert_eq!(e.kind, ParseErrorKind::UnexpectedToken);
    assert_eq!(e.offset, Some(5));
}

#[test]
fn empty_input_is_unexpected_end_of_input() {
    let e = parse_schema("").unwrap_err();
    assert_eq!(e.kind, ParseErrorKind::UnexpectedEndOfInput);
}

#[test]
fn paren_in_type_position_is_unexpected_token() {
    let e = parse_schema("a:(int)").unwrap_err();
    assert_eq!(e.kind, ParseErrorKind::UnexpectedToken);
    assert_eq!(e.offset, Some(2));
}

#[test]
fn map_key_may_be_composite() {
    let f = parse_single("m:map<array<int>,string>");
    assert_eq!(
        f.data_type,
        TypeNode::Mapping(
            Box::new(TypeNode::Array(
                Box::new(TypeNode::Primitive(PrimitiveKind::Integer)),
                false
            )),
            Box::new(TypeNode::Primitive(PrimitiveKind::String)),
            false,
        )
    );
}

#[test]
fn empty_struct_field_list_is_rejected() {
    let e = parse_schema("s:struct<>").unwrap_err();
    assert_eq!(e.kind, ParseErrorKind::UnexpectedEndOfInput);
}
