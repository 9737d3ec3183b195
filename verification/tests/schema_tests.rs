use auto_doc::json::JsonValue;
use auto_doc::schema::{ConversionError, JsonSchemaConverter, SchemaType, SimplifiedSchema};

fn s(text: &str) -> JsonValue {
    JsonValue::Str(text.to_string())
}

fn n(value: i64) -> JsonValue {
    JsonValue::Int(value)
}

fn arr(items: Vec<JsonValue>) -> JsonValue {
    JsonValue::Array(items)
}

fn obj(pairs: Vec<(&str, JsonValue)>) -> JsonValue {
    JsonValue::Object(pairs.into_iter().map(|(k, v)| (k.to_string(), v)).collect())
}

fn prop<'a>(node: &'a SimplifiedSchema, key: &str) -> &'a SimplifiedSchema {
    let props = node.properties.as_ref().expect("properties present");
    &props.iter().find(|(k, _)| k == key).expect("property present").1
}

fn has_prop(node: &SimplifiedSchema, key: &str) -> bool {
    node.properties
        .as_ref()
        .map(|ps| ps.iter().any(|(k, _)| k == key))
        .unwrap_or(false)
}

#[test]
fn test_simple_string_schema() {
    let json_schema = obj(vec![
        ("type", s("string")),
        ("title", s("Name")),
        ("description", s("A person's name")),
    ]);

    let result: SimplifiedSchema = JsonSchemaConverter::convert(&json_schema).unwrap();

    assert_eq!(result.schema_type, SchemaType::String);
    assert_eq!(result.title, Some("Name".to_string()));
    assert_eq!(result.description, Some("A person's name".to_string()));
}

#[test]
fn test_enum_schema() {
    let json_schema = obj(vec![
        ("type", s("string")),
        ("enum", arr(vec![s("red"), s("green"), s("blue")])),
    ]);

    let result = JsonSchemaConverter::convert(&json_schema).unwrap();

    assert_eq!(result.schema_type, SchemaType::String);
    assert_eq!(result.format, Some("enum".to_string()));
    assert_eq!(
        result.enum_values,
        Some(vec![
            "red".to_string(),
            "green".to_string(),
            "blue".to_string()
        ])
    );
}

#[test]
fn test_object_schema() {
    let json_schema = obj(vec![
        ("type", s("object")),
        (
            "properties",
            obj(vec![
                ("name", obj(vec![("type", s("string"))])),
                ("age", obj(vec![("type", s("integer")), ("minimum", n(0))])),
            ]),
        ),
        ("required", arr(vec![s("name")])),
    ]);

    let result = JsonSchemaConverter::convert(&json_schema).unwrap();

    assert_eq!(result.schema_type, SchemaType::Object);
    assert!(result.properties.is_some());
    assert_eq!(result.required, Some(vec!["name".to_string()]));

    assert!(has_prop(&result, "name"));
    assert!(has_prop(&result, "age"));

    let age_schema = prop(&result, "age");
    assert_eq!(age_schema.schema_type, SchemaType::Integer);
    assert_eq!(age_schema.minimum, Some(0));
}

#[test]
fn test_array_schema() {
    let json_schema = obj(vec![
        ("type", s("array")),
        ("items", obj(vec![("type", s("string"))])),
        ("minItems", n(1)),
        ("maxItems", n(10)),
    ]);

    let result = JsonSchemaConverter::convert(&json_schema).unwrap();

    assert_eq!(result.schema_type, SchemaType::Array);
    assert_eq!(result.min_items, Some("1".to_string()));
    assert_eq!(result.max_items, Some("10".to_string()));
    assert!(result.items.is_some());

    let items = result.items.unwrap();
    assert_eq!(items.schema_type, SchemaType::String);
}

#[test]
fn test_nullable_type() {
    let json_schema = obj(vec![
        ("type", arr(vec![s("string"), s("null")])),
        ("title", s("Optional String")),
    ]);

    let result = JsonSchemaConverter::convert(&json_schema).unwrap();

    assert_eq!(result.schema_type, SchemaType::String);
    assert_eq!(result.title, Some("Optional String".to_string()));
}

#[test]
fn test_simple_ref_resolution() {
    let json_schema = obj(vec![
        ("type", s("object")),
        (
            "properties",
            obj(vec![("user", obj(vec![("$ref", s("#/$defs/person"))]))]),
        ),
        (
            "$defs",
            obj(vec![(
                "person",
                obj(vec![
                    ("type", s("object")),
                    (
                        "properties",
                        obj(vec![("name", obj(vec![("type", s("string"))]))]),
                    ),
                ]),
            )]),
        ),
    ]);

    let result = JsonSchemaConverter::convert(&json_schema).unwrap();

    assert_eq!(result.schema_type, SchemaType::Object);
    let user = prop(&result, "user");
    assert_eq!(user.schema_type, SchemaType::Object);

    assert!(has_prop(user, "name"));
    assert_eq!(prop(user, "name").schema_type, SchemaType::String);
}

#[test]
fn test_ref_resolution() {
    let json_schema = obj(vec![
        ("$schema", s("https://json-schema.org/draft/2020-12/schema")),
        ("type", s("object")),
        (
            "properties",
            obj(vec![(
                "vegetables",
                obj(vec![
                    ("type", s("array")),
                    ("items", obj(vec![("$ref", s("#/$defs/veggie"))])),
                ]),
            )]),
        ),
        (
            "$defs",
            obj(vec![(
                "veggie",
                obj(vec![
                    ("type", s("object")),
                    ("required", arr(vec![s("veggieName"), s("veggieLike")])),
                    (
                        "properties",
                        obj(vec![
                            (
                                "veggieName",
                                obj(vec![
                                    ("type", s("string")),
                                    ("description", s("The name of the vegetable.")),
                                ]),
                            ),
                            (
                                "veggieLike",
                                obj(vec![
                                    ("type", s("boolean")),
                                    ("description", s("Do I like this vegetable?")),
                                ]),
                            ),
                        ]),
                    ),
                ]),
            )]),
        ),
    ]);

    let result = JsonSchemaConverter::convert(&json_schema).unwrap();

    assert_eq!(result.schema_type, SchemaType::Object);

    let vegetables = prop(&result, "vegetables");
    assert_eq!(vegetables.schema_type, SchemaType::Array);

    let items = vegetables.items.as_ref().unwrap();
    assert_eq!(items.schema_type, SchemaType::Object);

    assert!(has_prop(items, "veggieName"));
    assert!(has_prop(items, "veggieLike"));

    assert_eq!(
        items.required,
        Some(vec!["veggieName".to_string(), "veggieLike".to_string()])
    );
}

#[test]
fn test_clean_schema_removes_dollar_fields() {
    let json_schema = obj(vec![
        ("$id", s("https://example.com/test.schema.json")),
        ("$schema", s("https://json-schema.org/draft/2020-12/schema")),
        ("type", s("string")),
        ("title", s("Test Schema")),
    ]);

    let result = JsonSchemaConverter::convert(&json_schema).unwrap();

    assert_eq!(result.schema_type, SchemaType::String);
    assert_eq!(result.title, Some("Test Schema".to_string()));
}

#[test]
fn test_full_example_schema() {
    let json_schema = obj(vec![
        ("$id", s("https://example.com/arrays.schema.json")),
        ("$schema", s("https://json-schema.org/draft/2020-12/schema")),
        ("description", s("Arrays of strings and objects")),
        ("title", s("Arrays")),
        ("type", s("object")),
        (
            "properties",
            obj(vec![
                (
                    "fruits",
                    obj(vec![
                        ("type", s("array")),
                        ("items", obj(vec![("type", s("string"))])),
                    ]),
                ),
                (
                    "vegetables",
                    obj(vec![
                        ("type", s("array")),
                        ("items", obj(vec![("$ref", s("#/$defs/veggie"))])),
                    ]),
                ),
            ]),
        ),
        (
            "$defs",
            obj(vec![(
                "veggie",
                obj(vec![
                    ("type", s("object")),
                    ("required", arr(vec![s("veggieName"), s("veggieLike")])),
                    (
                        "properties",
                        obj(vec![
                            (
                                "veggieName",
                                obj(vec![
                                    ("type", s("string")),
                                    ("description", s("The name of the vegetable.")),
                                ]),
                            ),
                            (
                                "veggieLike",
                                obj(vec![
                                    ("type", s("boolean")),
                                    ("description", s("Do I like this vegetable?")),
                                ]),
                            ),
                        ]),
                    ),
                ]),
            )]),
        ),
    ]);

    let result = JsonSchemaConverter::convert(&json_schema).unwrap();

    assert_eq!(result.schema_type, SchemaType::Object);
    assert_eq!(result.title, Some("Arrays".to_string()));
    assert_eq!(
        result.description,
        Some("Arrays of strings and objects".to_string())
    );

    let fruits = prop(&result, "fruits");
    assert_eq!(fruits.schema_type, SchemaType::Array);
    let fruits_items = fruits.items.as_ref().unwrap();
    assert_eq!(fruits_items.schema_type, SchemaType::String);

    let vegetables = prop(&result, "vegetables");
    assert_eq!(vegetables.schema_type, SchemaType::Array);
    let veggie_items = vegetables.items.as_ref().unwrap();
    assert_eq!(veggie_items.schema_type, SchemaType::Object);

    let veggie_props = veggie_items.properties.as_ref().unwrap();
    assert_eq!(veggie_props.len(), 2);

    let veggie_name = prop(veggie_items, "veggieName");
    assert_eq!(veggie_name.schema_type, SchemaType::String);
    assert_eq!(
        veggie_name.description,
        Some("The name of the vegetable.".to_string())
    );

    let veggie_like = prop(veggie_items, "veggieLike");
    assert_eq!(veggie_like.schema_type, SchemaType::Boolean);
    assert_eq!(
        veggie_like.description,
        Some("Do I like this vegetable?".to_string())
    );

    assert_eq!(
        veggie_items.required,
        Some(vec!["veggieName".to_string(), "veggieLike".to_string()])
    );
}

#[test]
fn one_of_string_enums_merge() {
    let json_schema = obj(vec![(
        "oneOf",
        arr(vec![
            obj(vec![("type", s("string")), ("enum", arr(vec![s("a")]))]),
            obj(vec![("type", s("string")), ("enum", arr(vec![s("b")]))]),
            obj(vec![("type", s("string")), ("enum", arr(vec![s("c")]))]),
        ]),
    )]);

    let result = JsonSchemaConverter::convert(&json_schema).unwrap();

    assert_eq!(result.schema_type, SchemaType::String);
    assert_eq!(result.format, Some("enum".to_string()));
    assert_eq!(
        result.enum_values,
        Some(vec!["a".to_string(), "b".to_string(), "c".to_string()])
    );
}

#[test]
fn unresolved_reference_is_fatal() {
    let json_schema = obj(vec![("$ref", s("#/$defs/missing"))]);
    let result = JsonSchemaConverter::convert(&json_schema);
    assert!(matches!(result, Err(ConversionError::RefResolutionError(_))));
}

#[test]
fn cyclic_reference_is_unresolvable() {
    let json_schema = obj(vec![
        ("$ref", s("#/$defs/a")),
        ("$defs", obj(vec![("a", obj(vec![("$ref", s("#/$defs/a"))]))])),
    ]);
    let result = JsonSchemaConverter::convert(&json_schema);
    assert!(matches!(result, Err(ConversionError::RefResolutionError(_))));
}

#[test]
fn null_type_is_unsupported() {
    let json_schema = obj(vec![("type", s("null"))]);
    let result = JsonSchemaConverter::convert(&json_schema);
    assert!(matches!(result, Err(ConversionError::UnsupportedType(_))));
}

#[test]
fn empty_schema_is_invalid() {
    let json_schema = obj(vec![("$comment", s("nothing else"))]);
    let result = JsonSchemaConverter::convert(&json_schema);
    assert!(matches!(result, Err(ConversionError::InvalidSchema(_))));
}

#[test]
fn missing_type_is_reported() {
    let json_schema = obj(vec![("description", s("typeless"))]);
    let result = JsonSchemaConverter::convert(&json_schema);
    assert!(matches!(result, Err(ConversionError::MissingField(_))));
}

#[test]
fn non_string_enum_value_is_invalid() {
    let json_schema = obj(vec![("type", s("string")), ("enum", arr(vec![s("ok"), n(3)]))]);
    let result = JsonSchemaConverter::convert(&json_schema);
    assert!(matches!(result, Err(ConversionError::InvalidSchema(_))));
}

#[test]
fn all_of_single_entry_converts_directly() {
    let json_schema = obj(vec![(
        "allOf",
        arr(vec![obj(vec![("type", s("integer")), ("minimum", n(2))])]),
    )]);
    let result = JsonSchemaConverter::convert(&json_schema).unwrap();
    assert_eq!(result.schema_type, SchemaType::Integer);
    assert_eq!(result.minimum, Some(2));
}

#[test]
fn string_length_bounds_render_in_decimal() {
    let json_schema = obj(vec![
        ("type", s("string")),
        ("minLength", n(1)),
        ("maxLength", n(255)),
        ("pattern", s("^[a-z]+$")),
    ]);
    let result = JsonSchemaConverter::convert(&json_schema).unwrap();
    assert_eq!(result.min_length, Some("1".to_string()));
    assert_eq!(result.max_length, Some("255".to_string()));
    assert_eq!(result.pattern, Some("^[a-z]+$".to_string()));
}

#[test]
fn collapsed_unions_are_counted() {
    // an all-string-enum union merges losslessly
    let merged = obj(vec![(
        "oneOf",
        arr(vec![
            obj(vec![("type", s("string")), ("enum", arr(vec![s("a")]))]),
            obj(vec![("type", s("string")), ("enum", arr(vec![s("b")]))]),
        ]),
    )]);
    assert_eq!(JsonSchemaConverter::collapsed_unions(&merged), 0);

    // a mixed union collapses to its first branch
    let collapsed = obj(vec![(
        "oneOf",
        arr(vec![
            obj(vec![("type", s("integer"))]),
            obj(vec![("type", s("string"))]),
        ]),
    )]);
    assert_eq!(JsonSchemaConverter::collapsed_unions(&collapsed), 1);

    // losses are counted through object properties and array items
    let nested = obj(vec![
        ("type", s("object")),
        (
            "properties",
            obj(vec![
                ("first", collapsed.clone()),
                (
                    "second",
                    obj(vec![("type", s("array")), ("items", collapsed.clone())]),
                ),
                (
                    "third",
                    obj(vec![(
                        "allOf",
                        arr(vec![
                            obj(vec![("type", s("integer"))]),
                            obj(vec![("type", s("string"))]),
                        ]),
                    )]),
                ),
            ]),
        ),
    ]);
    assert_eq!(JsonSchemaConverter::collapsed_unions(&nested), 3);
}
