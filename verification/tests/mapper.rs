use capnez_codegen::decl::{
    EnumDecl, FieldDecl, HostType, MethodDecl, ParamDecl, StructDecl, TraitDecl, VariantDecl,
};
use capnez_codegen::error::{SchemaError, TypeError};
use capnez_codegen::mapper::{
    extract_generic_ty, map_named, map_ty, mk_enum, mk_interface, mk_struct,
};
use capnez_codegen::registry::StructRegistry;
use capnez_codegen::schema::{
    CapnpEnum, CapnpInterface, CapnpStruct, CapnpType, Field, Method, Param, PrimitiveType,
    Variant,
};

fn named(name: &str) -> HostType {
    HostType::Named { name: name.to_string(), arg: None }
}

fn generic(name: &str, arg: HostType) -> HostType {
    HostType::Named { name: name.to_string(), arg: Some(Box::new(arg)) }
}

fn primitive(p: PrimitiveType) -> CapnpType {
    CapnpType::Primitive(p)
}

#[test]
fn primitives_map_one_to_one() {
    let registry = StructRegistry::new();
    assert_eq!(map_ty(&named("String"), &registry), Ok(primitive(PrimitiveType::Text)));
    assert_eq!(map_ty(&named("u32"), &registry), Ok(primitive(PrimitiveType::UInt32)));
    assert_eq!(map_ty(&named("u64"), &registry), Ok(primitive(PrimitiveType::UInt64)));
    assert_eq!(map_ty(&named("f32"), &registry), Ok(primitive(PrimitiveType::Float32)));
    assert_eq!(map_ty(&named("f64"), &registry), Ok(primitive(PrimitiveType::Float64)));
    assert_eq!(map_ty(&named("bool"), &registry), Ok(primitive(PrimitiveType::Bool)));
}

#[test]
fn primitives_ignore_a_type_argument() {
    let registry = StructRegistry::new();
    assert_eq!(
        map_ty(&generic("u32", HostType::Unsupported), &registry),
        Ok(primitive(PrimitiveType::UInt32))
    );
}

#[test]
fn containers_wrap_their_element() {
    let registry = StructRegistry::new();
    assert_eq!(
        map_ty(&generic("Option", named("u32")), &registry),
        Ok(CapnpType::Optional(Box::new(primitive(PrimitiveType::UInt32))))
    );
    assert_eq!(
        map_ty(&generic("Vec", named("String")), &registry),
        Ok(CapnpType::List(Box::new(primitive(PrimitiveType::Text))))
    );
    assert_eq!(
        map_ty(&HostType::Array(Box::new(named("bool"))), &registry),
        Ok(CapnpType::List(Box::new(primitive(PrimitiveType::Bool))))
    );
}

#[test]
fn containers_nest_without_limit() {
    let registry = StructRegistry::new();
    let ty = generic("Vec", generic("Vec", generic("Option", HostType::Array(Box::new(named("room"))))));
    assert_eq!(
        map_ty(&ty, &registry),
        Ok(CapnpType::List(Box::new(CapnpType::List(Box::new(CapnpType::Optional(Box::new(
            CapnpType::List(Box::new(CapnpType::Struct("Room".to_string())))
        )))))))
    );
}

#[test]
fn container_without_element_is_an_error() {
    let registry = StructRegistry::new();
    assert_eq!(map_ty(&named("Option"), &registry), Err(TypeError::MissingTypeParameter));
    assert_eq!(map_ty(&named("Vec"), &registry), Err(TypeError::MissingTypeParameter));
    assert_eq!(extract_generic_ty(&None, &registry), Err(TypeError::MissingTypeParameter));
    assert_eq!(
        map_ty(&generic("Vec", named("Option")), &registry),
        Err(TypeError::MissingTypeParameter)
    );
}

#[test]
fn unsupported_shapes_are_an_error() {
    let registry = StructRegistry::new();
    assert_eq!(map_ty(&HostType::Unsupported, &registry), Err(TypeError::UnsupportedType));
    assert_eq!(
        map_ty(&generic("Option", HostType::Unsupported), &registry),
        Err(TypeError::UnsupportedType)
    );
    assert_eq!(
        map_ty(&HostType::Array(Box::new(HostType::Unsupported)), &registry),
        Err(TypeError::UnsupportedType)
    );
    assert_eq!(
        extract_generic_ty(&Some(Box::new(HostType::Unsupported)), &registry),
        Err(TypeError::UnsupportedType)
    );
}

#[test]
fn named_types_follow_the_registry() {
    let mut registry = StructRegistry::new();
    registry.register_serde_struct("Information");
    registry.register_serde_struct("Person");
    registry.register_capnp_struct("Person");
    registry.register_capnp_struct("Room");
    assert_eq!(
        map_ty(&named("Information"), &registry),
        Ok(CapnpType::Bytes("Information".to_string()))
    );
    assert_eq!(map_ty(&named("Person"), &registry), Ok(CapnpType::Struct("Person".to_string())));
    assert_eq!(map_ty(&named("Room"), &registry), Ok(CapnpType::Struct("Room".to_string())));
    assert_eq!(map_ty(&named("Later"), &registry), Ok(CapnpType::Struct("Later".to_string())));
}

#[test]
fn named_types_are_looked_up_under_their_schema_name() {
    let mut registry = StructRegistry::new();
    registry.register_serde_struct("ContactInfo");
    assert_eq!(
        map_ty(&named("contact_info"), &registry),
        Ok(CapnpType::Bytes("ContactInfo".to_string()))
    );
    assert_eq!(map_ty(&named("u8"), &registry), Ok(CapnpType::Struct("U8".to_string())));
    assert_eq!(
        map_named("contact_info".to_string(), &registry),
        CapnpType::Struct("contact_info".to_string())
    );
    assert_eq!(
        map_named("ContactInfo".to_string(), &registry),
        CapnpType::Bytes("ContactInfo".to_string())
    );
}

#[test]
fn mk_struct_numbers_fields_by_position() {
    let registry = StructRegistry::new();
    let decl = StructDecl {
        name: "note_book".to_string(),
        attrs: vec![],
        fields: vec![
            FieldDecl { name: "name".to_string(), ty: named("String") },
            FieldDecl { name: "tag_list".to_string(), ty: generic("Vec", named("String")) },
            FieldDecl { name: "meta".to_string(), ty: generic("Option", named("u32")) },
        ],
    };
    assert_eq!(
        mk_struct(&decl, true, &registry),
        Ok(CapnpStruct {
            name: "NoteBook".to_string(),
            fields: vec![
                Field { name: "name".to_string(), id: 0, ty: primitive(PrimitiveType::Text) },
                Field {
                    name: "tagList".to_string(),
                    id: 1,
                    ty: CapnpType::List(Box::new(primitive(PrimitiveType::Text))),
                },
                Field {
                    name: "meta".to_string(),
                    id: 2,
                    ty: CapnpType::Optional(Box::new(primitive(PrimitiveType::UInt32))),
                },
            ],
            has_serde: true,
        })
    );
}

#[test]
fn mk_struct_without_fields() {
    let registry = StructRegistry::new();
    let decl = StructDecl { name: "empty".to_string(), attrs: vec![], fields: vec![] };
    assert_eq!(
        mk_struct(&decl, false, &registry),
        Ok(CapnpStruct { name: "Empty".to_string(), fields: vec![], has_serde: false })
    );
}

#[test]
fn mk_struct_reports_the_first_bad_field() {
    let registry = StructRegistry::new();
    let decl = StructDecl {
        name: "bad_one".to_string(),
        attrs: vec![],
        fields: vec![
            FieldDecl { name: "fine".to_string(), ty: named("u64") },
            FieldDecl { name: "no_elem".to_string(), ty: named("Vec") },
            FieldDecl { name: "odd".to_string(), ty: HostType::Unsupported },
        ],
    };
    assert_eq!(
        mk_struct(&decl, false, &registry),
        Err(SchemaError::MissingTypeParameter {
            declaration: "bad_one".to_string(),
            member: "no_elem".to_string(),
        })
    );
    let decl = StructDecl {
        name: "bad_two".to_string(),
        attrs: vec![],
        fields: vec![
            FieldDecl { name: "odd".to_string(), ty: HostType::Unsupported },
            FieldDecl { name: "no_elem".to_string(), ty: named("Vec") },
        ],
    };
    assert_eq!(
        mk_struct(&decl, false, &registry),
        Err(SchemaError::UnsupportedType {
            declaration: "bad_two".to_string(),
            member: "odd".to_string(),
        })
    );
}

#[test]
fn mk_enum_takes_at_most_one_payload() {
    let registry = StructRegistry::new();
    let decl = EnumDecl {
        name: "device_state".to_string(),
        attrs: vec![],
        variants: vec![
            VariantDecl { name: "Idle".to_string(), payload: vec![] },
            VariantDecl { name: "Error".to_string(), payload: vec![named("u32")] },
        ],
    };
    assert_eq!(
        mk_enum(&decl, &registry),
        Ok(CapnpEnum {
            name: "DeviceState".to_string(),
            variants: vec![
                Variant { name: "idle".to_string(), ty: None },
                Variant { name: "error".to_string(), ty: Some(primitive(PrimitiveType::UInt32)) },
            ],
        })
    );
    let decl = EnumDecl {
        name: "Shape".to_string(),
        attrs: vec![],
        variants: vec![
            VariantDecl { name: "Dot".to_string(), payload: vec![] },
            VariantDecl { name: "Rect".to_string(), payload: vec![named("u32"), named("u32")] },
            VariantDecl { name: "Odd".to_string(), payload: vec![HostType::Unsupported] },
        ],
    };
    assert_eq!(
        mk_enum(&decl, &registry),
        Err(SchemaError::MultiFieldVariant {
            declaration: "Shape".to_string(),
            member: "Rect".to_string(),
        })
    );
}

#[test]
fn mk_enum_reports_a_bad_payload() {
    let registry = StructRegistry::new();
    let decl = EnumDecl {
        name: "Shape".to_string(),
        attrs: vec![],
        variants: vec![VariantDecl { name: "Odd".to_string(), payload: vec![named("Option")] }],
    };
    assert_eq!(
        mk_enum(&decl, &registry),
        Err(SchemaError::MissingTypeParameter {
            declaration: "Shape".to_string(),
            member: "Odd".to_string(),
        })
    );
}

#[test]
fn mk_interface_numbers_methods_by_position() {
    let mut registry = StructRegistry::new();
    registry.register_serde_struct("Blob");
    let decl = TraitDecl {
        name: "hello_world".to_string(),
        attrs: vec![],
        methods: vec![
            MethodDecl {
                name: "say_hello".to_string(),
                params: vec![
                    ParamDecl { name: "the_request".to_string(), ty: named("HelloRequest") },
                    ParamDecl { name: "extra".to_string(), ty: named("Blob") },
                ],
                ret: Some(named("HelloReply")),
            },
            MethodDecl { name: "ping".to_string(), params: vec![], ret: None },
        ],
    };
    assert_eq!(
        mk_interface(&decl, &registry),
        Ok(CapnpInterface {
            name: "HelloWorld".to_string(),
            methods: vec![
                Method {
                    name: "sayHello".to_string(),
                    id: 0,
                    params: vec![
                        Param {
                            name: "theRequest".to_string(),
                            ty: CapnpType::Struct("HelloRequest".to_string()),
                        },
                        Param { name: "extra".to_string(), ty: CapnpType::Bytes("Blob".to_string()) },
                    ],
                    ret: Some(CapnpType::Struct("HelloReply".to_string())),
                },
                Method { name: "ping".to_string(), id: 1, params: vec![], ret: None },
            ],
        })
    );
}

#[test]
fn mk_interface_reports_parameters_before_the_result() {
    let registry = StructRegistry::new();
    let decl = TraitDecl {
        name: "Service".to_string(),
        attrs: vec![],
        methods: vec![MethodDecl {
            name: "call".to_string(),
            params: vec![ParamDecl { name: "x".to_string(), ty: named("Vec") }],
            ret: Some(HostType::Unsupported),
        }],
    };
    assert_eq!(
        mk_interface(&decl, &registry),
        Err(SchemaError::MissingTypeParameter {
            declaration: "Service".to_string(),
            member: "call".to_string(),
        })
    );
    let decl = TraitDecl {
        name: "Service".to_string(),
        attrs: vec![],
        methods: vec![MethodDecl {
            name: "call".to_string(),
            params: vec![ParamDecl { name: "x".to_string(), ty: named("u32") }],
            ret: Some(HostType::Unsupported),
        }],
    };
    assert_eq!(
        mk_interface(&decl, &registry),
        Err(SchemaError::UnsupportedType {
            declaration: "Service".to_string(),
            member: "call".to_string(),
        })
    );
}

#[test]
fn for_member_keeps_the_kind_of_failure() {
    assert_eq!(
        SchemaError::for_member(TypeError::UnsupportedType, &"A".to_string(), &"b".to_string()),
        SchemaError::UnsupportedType { declaration: "A".to_string(), member: "b".to_string() }
    );
    assert_eq!(
        SchemaError::for_member(
            TypeError::MissingTypeParameter,
            &"A".to_string(),
            &"b".to_string()
        ),
        SchemaError::MissingTypeParameter { declaration: "A".to_string(), member: "b".to_string() }
    );
}
