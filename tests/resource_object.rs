use docker_models::generic_resources::{
    DiscreteResourceSpec, GenericResource, GenericResources, NamedResourceSpec,
};
use docker_models::json::{to_json_text, DeserializationError, JsonValue};
use docker_models::resource_object::ResourceObject;

fn object(members: Vec<(&str, JsonValue)>) -> JsonValue {
    JsonValue::Object(members.into_iter().map(|(k, v)| (k.to_string(), v)).collect())
}

fn gpu_resources() -> GenericResources {
    GenericResources {
        resources: vec![
            GenericResource {
                named_resource_spec: Some(NamedResourceSpec {
                    kind: Some("GPU".to_string()),
                    value: Some("UUID1".to_string()),
                }),
                discrete_resource_spec: None,
            },
            GenericResource {
                named_resource_spec: None,
                discrete_resource_spec: Some(DiscreteResourceSpec {
                    kind: Some("SSD".to_string()),
                    value: Some(3),
                }),
            },
        ],
    }
}

#[test]
fn new_has_every_field_absent() {
    let r = ResourceObject::new();
    assert_eq!(r.nano_cp_us(), None);
    assert_eq!(r.memory_bytes(), None);
    assert!(r.generic_resources().is_none());
}

#[test]
fn setters_and_getters() {
    let mut r = ResourceObject::new();
    r.set_nano_cp_us(-5);
    r.set_memory_bytes(0);
    r.set_generic_resources(gpu_resources());
    assert_eq!(r.nano_cp_us(), Some(-5));
    assert_eq!(r.memory_bytes(), Some(0));
    assert_eq!(r.generic_resources(), Some(&gpu_resources()));
    r.set_nano_cp_us(7);
    assert_eq!(r.nano_cp_us(), Some(7));
}

#[test]
fn builders_chain() {
    let r = ResourceObject::new()
        .with_nano_cp_us(1)
        .with_memory_bytes(2)
        .with_generic_resources(gpu_resources());
    assert_eq!(r.nano_cp_us(), Some(1));
    assert_eq!(r.memory_bytes(), Some(2));
    assert_eq!(r.generic_resources(), Some(&gpu_resources()));
}

#[test]
fn reset_then_get_is_absent() {
    let mut r = ResourceObject::new()
        .with_nano_cp_us(4000000000)
        .with_memory_bytes(8589934592)
        .with_generic_resources(gpu_resources());
    r.reset_nano_cp_us();
    assert_eq!(r.nano_cp_us(), None);
    assert_eq!(r.memory_bytes(), Some(8589934592));
    r.reset_memory_bytes();
    assert_eq!(r.memory_bytes(), None);
    r.reset_generic_resources();
    assert!(r.generic_resources().is_none());
    r.reset_nano_cp_us();
    assert_eq!(r.nano_cp_us(), None);
}

#[test]
fn empty_descriptor_serializes_to_empty_object() {
    assert_eq!(ResourceObject::new().to_json_string(), "{}");
}

#[test]
fn example_scenario_serializes_in_field_order() {
    let mut r = ResourceObject::new();
    r.set_nano_cp_us(2000000000);
    r.set_memory_bytes(1073741824);
    assert_eq!(
        r.to_json_string(),
        "{\"NanoCPUs\":2000000000,\"MemoryBytes\":1073741824}"
    );
}

#[test]
fn extreme_integers_serialize_exactly() {
    let r = ResourceObject::new()
        .with_nano_cp_us(i64::MIN)
        .with_memory_bytes(i64::MAX);
    assert_eq!(
        r.to_json_string(),
        "{\"NanoCPUs\":-9223372036854775808,\"MemoryBytes\":9223372036854775807}"
    );
}

#[test]
fn generic_resources_serialize_recursively() {
    let r = ResourceObject::new().with_generic_resources(gpu_resources());
    assert_eq!(
        r.to_json_string(),
        "{\"GenericResources\":[{\"NamedResourceSpec\":{\"Kind\":\"GPU\",\"Value\":\"UUID1\"}},\
         {\"DiscreteResourceSpec\":{\"Kind\":\"SSD\",\"Value\":3}}]}"
    );
}

#[test]
fn strings_are_quoted_and_escaped() {
    let v = JsonValue::Str("a\"b\\c\n".to_string());
    assert_eq!(to_json_text(&v), "\"a\\\"b\\\\c\\n\"");
}

#[test]
fn other_values_render_compactly() {
    let v = JsonValue::Array(vec![
        JsonValue::Null,
        JsonValue::Bool(true),
        JsonValue::Bool(false),
        JsonValue::Number("1.5".to_string()),
        JsonValue::Array(vec![]),
        object(vec![]),
    ]);
    assert_eq!(to_json_text(&v), "[null,true,false,1.5,[],{}]");
}

#[test]
fn round_trip_every_combination() {
    for mask in 0..8u8 {
        let mut r = ResourceObject::new();
        if mask & 1 != 0 {
            r.set_nano_cp_us(4000000000);
        }
        if mask & 2 != 0 {
            r.set_memory_bytes(-1);
        }
        if mask & 4 != 0 {
            r.set_generic_resources(gpu_resources());
        }
        let back = ResourceObject::from_json_value(&r.to_json_value()).unwrap();
        assert_eq!(back, r);
    }
}

#[test]
fn missing_and_null_members_read_as_absent() {
    let r = ResourceObject::from_json_value(&object(vec![
        ("NanoCPUs", JsonValue::Null),
        ("GenericResources", JsonValue::Null),
    ]))
    .unwrap();
    assert_eq!(r, ResourceObject::new());
}

#[test]
fn unknown_member_is_ignored() {
    let v = object(vec![
        ("NanoCPUs", JsonValue::Int(4000000000)),
        ("Extra", object(vec![("Deep", JsonValue::Str("x".to_string()))])),
        ("MemoryBytes", JsonValue::Int(8589934592)),
    ]);
    let r = ResourceObject::from_json_value(&v).unwrap();
    assert_eq!(
        r,
        ResourceObject::new()
            .with_nano_cp_us(4000000000)
            .with_memory_bytes(8589934592)
    );
}

#[test]
fn string_where_integer_expected_is_rejected() {
    let v = object(vec![("NanoCPUs", JsonValue::Str("not-a-number".to_string()))]);
    assert_eq!(ResourceObject::from_json_value(&v), Err(DeserializationError));
}

#[test]
fn non_integer_number_is_rejected() {
    let v = object(vec![("MemoryBytes", JsonValue::Number("1.5".to_string()))]);
    assert_eq!(ResourceObject::from_json_value(&v), Err(DeserializationError));
}

#[test]
fn non_object_is_rejected() {
    assert_eq!(
        ResourceObject::from_json_value(&JsonValue::Array(vec![])),
        Err(DeserializationError)
    );
}

#[test]
fn bad_generic_resource_is_rejected() {
    let v = object(vec![(
        "GenericResources",
        JsonValue::Array(vec![object(vec![(
            "DiscreteResourceSpec",
            object(vec![("Value", JsonValue::Str("3".to_string()))]),
        )])]),
    )]);
    assert_eq!(ResourceObject::from_json_value(&v), Err(DeserializationError));
    let not_array = object(vec![("GenericResources", object(vec![]))]);
    assert_eq!(
        ResourceObject::from_json_value(&not_array),
        Err(DeserializationError)
    );
}

#[test]
fn last_repeated_member_wins() {
    let v = object(vec![
        ("NanoCPUs", JsonValue::Int(1)),
        ("NanoCPUs", JsonValue::Int(2)),
    ]);
    let r = ResourceObject::from_json_value(&v).unwrap();
    assert_eq!(r.nano_cp_us(), Some(2));
}
