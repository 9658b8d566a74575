use anda_kip::{validate_field_name, FieldEntry, FieldType, FieldValue, SchemaError};

#[test]
fn test_field_type_debug() {
    assert_eq!(FieldType::U64.describe(), "U64");
    assert_eq!(FieldType::I64.describe(), "I64");
    assert_eq!(FieldType::F64.describe(), "F64");
    assert_eq!(FieldType::F32.describe(), "F32");
    assert_eq!(FieldType::Bf16.describe(), "Bf16");
    assert_eq!(FieldType::Bytes.describe(), "Bytes");
    assert_eq!(FieldType::Text.describe(), "Text");
    assert_eq!(FieldType::Bool.describe(), "Bool");
    assert_eq!(FieldType::Json.describe(), "Json");

    let array_type = FieldType::Array(vec![FieldType::U64]);
    assert_eq!(array_type.describe(), "Array([U64])");

    let map = vec![("key".to_string(), FieldType::Text)];
    let map_type = FieldType::Dict(map);
    assert_eq!(map_type.describe(), "Map({\"key\": Text})");

    let option_type = FieldType::Nullable(Box::new(FieldType::Bool));
    assert_eq!(option_type.describe(), "Option(Bool)");
}

#[test]
fn describe_nested_types() {
    let t = FieldType::Array(vec![
        FieldType::U64,
        FieldType::Dict(vec![
            ("a\"b".to_string(), FieldType::Nullable(Box::new(FieldType::Text))),
            ("c".to_string(), FieldType::Array(vec![])),
        ]),
    ]);
    assert_eq!(
        t.describe(),
        "Array([U64, Map({\"a\\\"b\": Option(Text), \"c\": Array([])})])"
    );
    assert_eq!(FieldType::Dict(vec![]).describe(), "Map({})");
}

#[test]
fn test_field_entry() {
    let field = FieldEntry::new("user_id".to_string(), FieldType::U64)
        .unwrap()
        .with_required()
        .with_unique()
        .with_idx(1);

    assert_eq!(field.name(), "user_id");
    assert_eq!(field.field_type(), &FieldType::U64);
    assert!(field.required());
    assert!(field.unique());
    assert_eq!(field.idx(), 1);

    let optional_field = FieldEntry::new("optional".to_string(), FieldType::U64).unwrap();
    assert!(!optional_field.required());
    assert!(!optional_field.unique());
    assert_eq!(optional_field.idx(), 0);
    assert_eq!(optional_field.description(), "");
    let described = optional_field.with_description("an optional field".to_string());
    assert_eq!(described.description(), "an optional field");
    assert_eq!(described.name(), "optional");
}

#[test]
fn test_validate_field_name() {
    assert!(validate_field_name("user_id").is_ok());
    assert!(validate_field_name("a").is_ok());
    assert!(validate_field_name("a1").is_ok());
    assert!(validate_field_name("a_1").is_ok());

    assert!(validate_field_name("").is_err());
    assert!(validate_field_name("A").is_err());
    assert!(validate_field_name("user-id").is_err());
    assert!(validate_field_name("user.id").is_err());
    assert!(validate_field_name("user id").is_err());

    let long_name = "a".repeat(65);
    assert!(validate_field_name(&long_name).is_err());
}

#[test]
fn field_name_limits_and_messages() {
    assert!(validate_field_name(&"a".repeat(64)).is_ok());
    assert_eq!(
        validate_field_name(""),
        Err(SchemaError::FieldName("empty string".to_string()))
    );
    assert_eq!(
        validate_field_name(&"a".repeat(65)),
        Err(SchemaError::FieldName("string length 65 exceeds the limit 64".to_string()))
    );
    assert_eq!(
        validate_field_name("user-id"),
        Err(SchemaError::FieldName("Invalid character '-' in \"user-id\"".to_string()))
    );
    assert!(validate_field_name("é").is_err());
    assert!(matches!(
        FieldEntry::new("Bad".to_string(), FieldType::Text),
        Err(SchemaError::FieldName(_))
    ));
}

#[test]
fn test_field_type_validate() {
    let bits = |f: f64| f.to_bits();
    let bits32 = |f: f32| f.to_bits();

    // U64
    assert!(FieldType::U64.validate(&FieldValue::U64(42)).is_ok());
    assert!(FieldType::U64.validate(&FieldValue::I64(42)).is_err());

    // I64
    assert!(FieldType::I64.validate(&FieldValue::I64(-42)).is_ok());
    assert!(FieldType::I64.validate(&FieldValue::U64(42)).is_err());

    // F64
    assert!(FieldType::F64.validate(&FieldValue::F64(bits(3.15))).is_ok());
    assert!(FieldType::F64.validate(&FieldValue::F32(bits32(3.15))).is_err());

    // F32
    assert!(FieldType::F32.validate(&FieldValue::F32(bits32(2.71))).is_ok());
    assert!(FieldType::F32.validate(&FieldValue::F64(bits(2.71))).is_err());

    // Bf16
    let bf = half::bf16::from_f32(1.5).to_bits();
    assert!(FieldType::Bf16.validate(&FieldValue::Bf16(bf)).is_ok());
    assert!(FieldType::Bf16.validate(&FieldValue::F32(bits32(1.5))).is_err());

    // Bytes
    assert!(FieldType::Bytes.validate(&FieldValue::Bytes(vec![1, 2, 3])).is_ok());
    assert!(FieldType::Bytes
        .validate(&FieldValue::Text("bytes".to_string()))
        .is_err());

    // Text
    assert!(FieldType::Text
        .validate(&FieldValue::Text("hello".to_string()))
        .is_ok());
    assert!(FieldType::Text
        .validate(&FieldValue::Bytes(vec![104, 101, 108, 108, 111]))
        .is_err());

    // Bool
    assert!(FieldType::Bool.validate(&FieldValue::Bool(true)).is_ok());
    assert!(FieldType::Bool.validate(&FieldValue::U64(1)).is_err());

    // Array with single type
    let array_type = FieldType::Array(vec![FieldType::U64]);
    let array_val = FieldValue::Array(vec![FieldValue::U64(1), FieldValue::U64(2)]);
    assert!(array_type.validate(&array_val).is_ok());

    let invalid_array_val = FieldValue::Array(vec![
        FieldValue::U64(1),
        FieldValue::Text("invalid".to_string()),
    ]);
    assert!(array_type.validate(&invalid_array_val).is_err());

    // Array with multiple types
    let array_type = FieldType::Array(vec![FieldType::U64, FieldType::Text]);
    let array_val = FieldValue::Array(vec![
        FieldValue::U64(1),
        FieldValue::Text("hello".to_string()),
    ]);
    assert!(array_type.validate(&array_val).is_ok());

    let invalid_array_val = FieldValue::Array(vec![FieldValue::U64(1)]);
    assert!(array_type.validate(&invalid_array_val).is_err());

    // Map
    let map_type = FieldType::Dict(vec![
        ("id".to_string(), FieldType::U64),
        ("name".to_string(), FieldType::Text),
    ]);

    let map_val = FieldValue::Dict(vec![
        ("id".to_string(), FieldValue::U64(1)),
        ("name".to_string(), FieldValue::Text("test".to_string())),
    ]);
    assert!(map_type.validate(&map_val).is_ok());

    let invalid_map_val = FieldValue::Dict(vec![
        ("id".to_string(), FieldValue::Text("invalid".to_string())),
        ("name".to_string(), FieldValue::Text("test".to_string())),
    ]);
    assert!(map_type.validate(&invalid_map_val).is_err());

    // Option (Some)
    let option_type = FieldType::Nullable(Box::new(FieldType::Bool));
    assert!(option_type.validate(&FieldValue::Bool(true)).is_ok());
    assert!(option_type.validate(&FieldValue::Null).is_ok());
    assert!(option_type.validate(&FieldValue::U64(42)).is_err());
}

#[test]
fn validate_maps_and_messages() {
    let map_type = FieldType::Dict(vec![
        ("id".to_string(), FieldType::U64),
        ("note".to_string(), FieldType::Nullable(Box::new(FieldType::Text))),
    ]);
    // a missing key counts as null
    let v = FieldValue::Dict(vec![("id".to_string(), FieldValue::U64(1))]);
    assert!(map_type.validate(&v).is_ok());
    // a missing key whose type is not nullable fails
    let v = FieldValue::Dict(vec![("note".to_string(), FieldValue::Null)]);
    assert_eq!(
        map_type.validate(&v),
        Err(SchemaError::FieldValue(
            "invalid map value at key \"id\", error: expected type U64, got value Null".to_string()
        ))
    );
    // a key the type does not name fails
    let v = FieldValue::Dict(vec![
        ("id".to_string(), FieldValue::U64(1)),
        ("extra".to_string(), FieldValue::Bool(true)),
    ]);
    assert_eq!(
        map_type.validate(&v),
        Err(SchemaError::FieldValue("invalid map key \"extra\"".to_string()))
    );
    let arr = FieldType::Array(vec![FieldType::U64, FieldType::Text]);
    assert_eq!(
        arr.validate(&FieldValue::Array(vec![FieldValue::U64(1)])),
        Err(SchemaError::FieldValue("invalid array length, expected 2, got 1".to_string()))
    );
    assert!(FieldType::Array(vec![]).validate(&FieldValue::Array(vec![FieldValue::Null])).is_ok());
    assert!(FieldType::Json
        .validate(&FieldValue::Json(anda_kip::Json::Null))
        .is_ok());
}

#[test]
fn field_entry_validate() {
    let field = FieldEntry::new("user_id".to_string(), FieldType::U64)
        .unwrap()
        .with_required()
        .with_unique()
        .with_idx(1);
    assert!(field.validate(&FieldValue::U64(42)).is_ok());
    assert!(field.validate(&FieldValue::I64(42)).is_err());
    assert_eq!(
        field.validate(&FieldValue::Null),
        Err(SchemaError::FieldValue(
            "field user_id is required, expected type U64".to_string()
        ))
    );
    assert_eq!(
        field.validate(&FieldValue::Bool(true)),
        Err(SchemaError::FieldValue(
            "field user_id is invalid, error: expected type U64, got value Bool(true)".to_string()
        ))
    );

    let optional_field = FieldEntry::new("optional".to_string(), FieldType::U64).unwrap();
    assert!(optional_field.validate(&FieldValue::Null).is_ok());
}
