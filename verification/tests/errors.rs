use capnez_codegen::error::SchemaError;

#[test]
fn messages_name_the_place() {
    assert_eq!(
        SchemaError::UnsupportedType { declaration: "home".to_string(), member: "owner".to_string() }
            .message(),
        "unsupported type in home.owner"
    );
    assert_eq!(
        SchemaError::MissingTypeParameter {
            declaration: "home".to_string(),
            member: "rooms".to_string(),
        }
        .message(),
        "generic type without a type parameter in home.rooms"
    );
    assert_eq!(
        SchemaError::MultiFieldVariant {
            declaration: "Shape".to_string(),
            member: "Rect".to_string(),
        }
        .message(),
        "more than one payload field in variant Shape.Rect"
    );
}

#[test]
fn cycle_message_lists_the_records() {
    assert_eq!(
        SchemaError::CyclicDependency {
            names: vec!["A".to_string(), "B".to_string(), "C".to_string()],
        }
        .message(),
        "circular dependency among records: A -> B -> C"
    );
    assert_eq!(
        SchemaError::CyclicDependency { names: vec!["Node".to_string()] }.message(),
        "circular dependency among records: Node"
    );
}

#[test]
fn outside_failures_carry_their_detail() {
    assert_eq!(
        SchemaError::IOFailure { detail: "schema.capnp: permission denied".to_string() }.message(),
        "input or output failed: schema.capnp: permission denied"
    );
    assert_eq!(
        SchemaError::CompilerHandoffFailure { detail: "exit status 1".to_string() }.message(),
        "schema compiler failed: exit status 1"
    );
}
