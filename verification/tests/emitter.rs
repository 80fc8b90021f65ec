use capnez_codegen::emitter::{write_params, write_schema};
use capnez_codegen::schema::{
    CapnpEnum, CapnpInterface, CapnpStruct, CapnpType, Field, Method, Param, PrimitiveType,
    Variant,
};

fn primitive(p: PrimitiveType) -> CapnpType {
    CapnpType::Primitive(p)
}

fn field(name: &str, id: usize, ty: CapnpType) -> Field {
    Field { name: name.to_string(), id, ty }
}

#[test]
fn primitives_render_by_keyword() {
    assert_eq!(PrimitiveType::Text.keyword(), "Text");
    assert_eq!(PrimitiveType::UInt32.keyword(), "UInt32");
    assert_eq!(PrimitiveType::UInt64.keyword(), "UInt64");
    assert_eq!(PrimitiveType::Bool.keyword(), "Bool");
    assert_eq!(PrimitiveType::Float32.keyword(), "Float32");
    assert_eq!(PrimitiveType::Float64.keyword(), "Float64");
    assert_eq!(primitive(PrimitiveType::Float64).render(), "Float64");
}

#[test]
fn references_render_by_name() {
    assert_eq!(CapnpType::Struct("Person".to_string()).render(), "Person");
}

#[test]
fn lists_render_around_their_element() {
    let ty = CapnpType::List(Box::new(CapnpType::List(Box::new(CapnpType::Struct(
        "Room".to_string(),
    )))));
    assert_eq!(ty.render(), "List(List(Room))");
}

#[test]
fn opaque_bytes_render_as_byte_list() {
    assert_eq!(CapnpType::Bytes("Information".to_string()).render(), "List(UInt8)");
    assert_eq!(
        CapnpType::List(Box::new(CapnpType::Bytes("Information".to_string()))).render(),
        "List(List(UInt8))"
    );
}

#[test]
fn optional_renders_as_two_branch_union() {
    let ty = CapnpType::Optional(Box::new(primitive(PrimitiveType::UInt32)));
    assert_eq!(ty.render(), "union {\n  value @0 :UInt32;\n  none @1 :Void;\n}");
    let mut out = String::new();
    field("meta", 2, ty).write(&mut out);
    assert_eq!(out, "  meta @2 :union {\n  value @0 :UInt32;\n  none @1 :Void;\n};\n");
}

#[test]
fn write_appends_to_what_is_there() {
    let mut out = String::from("x = ");
    primitive(PrimitiveType::Bool).write(&mut out);
    assert_eq!(out, "x = Bool");
}

#[test]
fn record_renders_its_fields_with_their_ordinals() {
    let s = CapnpStruct {
        name: "Note".to_string(),
        fields: vec![
            field("name", 0, primitive(PrimitiveType::Text)),
            field("tags", 1, CapnpType::List(Box::new(primitive(PrimitiveType::Text)))),
            field("meta", 2, CapnpType::Optional(Box::new(primitive(PrimitiveType::UInt32)))),
        ],
        has_serde: false,
    };
    let mut out = String::new();
    s.write(&mut out);
    assert_eq!(
        out,
        "struct Note {\n  name @0 :Text;\n  tags @1 :List(Text);\n  meta @2 :union {\n  value @0 :UInt32;\n  none @1 :Void;\n};\n}\n\n"
    );
}

#[test]
fn record_renders_the_ordinal_it_is_given() {
    let s = CapnpStruct {
        name: "Sparse".to_string(),
        fields: vec![field("late", 12, primitive(PrimitiveType::Bool))],
        has_serde: true,
    };
    let mut out = String::new();
    s.write(&mut out);
    assert_eq!(out, "struct Sparse {\n  late @12 :Bool;\n}\n\n");
}

#[test]
fn empty_record_renders_empty_braces() {
    let s = CapnpStruct { name: "Nothing".to_string(), fields: vec![], has_serde: false };
    let mut out = String::new();
    s.write(&mut out);
    assert_eq!(out, "struct Nothing {\n}\n\n");
}

#[test]
fn sum_type_without_payload_renders_as_enum() {
    let e = CapnpEnum {
        name: "DeviceKind".to_string(),
        variants: vec![
            Variant { name: "thermostat".to_string(), ty: None },
            Variant { name: "light".to_string(), ty: None },
            Variant { name: "camera".to_string(), ty: None },
            Variant { name: "lock".to_string(), ty: None },
        ],
    };
    assert!(!e.has_payload());
    let mut out = String::new();
    e.write(&mut out);
    assert_eq!(
        out,
        "enum DeviceKind {\n  thermostat @0;\n  light @1;\n  camera @2;\n  lock @3;\n}\n\n"
    );
}

#[test]
fn sum_type_with_a_payload_renders_as_struct() {
    let e = CapnpEnum {
        name: "State".to_string(),
        variants: vec![
            Variant { name: "idle".to_string(), ty: None },
            Variant { name: "error".to_string(), ty: Some(primitive(PrimitiveType::UInt32)) },
        ],
    };
    assert!(e.has_payload());
    let mut out = String::new();
    e.write(&mut out);
    assert_eq!(out, "struct State {\n  idle @0 :Void;\n  error @1 :UInt32;\n}\n\n");
}

#[test]
fn sum_type_without_variants_renders_as_enum() {
    let e = CapnpEnum { name: "Never".to_string(), variants: vec![] };
    assert!(!e.has_payload());
    let mut out = String::new();
    e.write(&mut out);
    assert_eq!(out, "enum Never {\n}\n\n");
}

#[test]
fn variant_lines() {
    let v = Variant { name: "error".to_string(), ty: Some(primitive(PrimitiveType::Text)) };
    let mut out = String::new();
    v.write_field(3, &mut out);
    v.write_tag(4, &mut out);
    assert_eq!(out, "  error @3 :Text;\n  error @4;\n");
}

#[test]
fn parameters_are_separated_by_commas() {
    let mut out = String::from("(");
    write_params(&vec![], &mut out);
    assert_eq!(out, "(");
    write_params(
        &vec![Param { name: "a".to_string(), ty: primitive(PrimitiveType::Text) }],
        &mut out,
    );
    assert_eq!(out, "(a :Text");
    let mut out = String::new();
    write_params(
        &vec![
            Param { name: "a".to_string(), ty: primitive(PrimitiveType::Text) },
            Param { name: "b".to_string(), ty: CapnpType::Struct("B".to_string()) },
            Param { name: "c".to_string(), ty: CapnpType::Bytes("C".to_string()) },
        ],
        &mut out,
    );
    assert_eq!(out, "a :Text, b :B, c :List(UInt8)");
}

#[test]
fn interface_renders_methods_with_their_ordinals() {
    let i = CapnpInterface {
        name: "HelloWorld".to_string(),
        methods: vec![
            Method {
                name: "sayHello".to_string(),
                id: 0,
                params: vec![Param {
                    name: "request".to_string(),
                    ty: CapnpType::Struct("HelloRequest".to_string()),
                }],
                ret: Some(CapnpType::Struct("HelloReply".to_string())),
            },
            Method { name: "ping".to_string(), id: 1, params: vec![], ret: None },
            Method {
                name: "add".to_string(),
                id: 2,
                params: vec![
                    Param { name: "a".to_string(), ty: primitive(PrimitiveType::UInt32) },
                    Param { name: "b".to_string(), ty: primitive(PrimitiveType::UInt32) },
                ],
                ret: Some(primitive(PrimitiveType::UInt64)),
            },
        ],
    };
    let mut out = String::new();
    i.write(&mut out);
    assert_eq!(
        out,
        "interface HelloWorld {\n  sayHello @0 (request :HelloRequest) -> HelloReply;\n  ping @1 ();\n  add @2 (a :UInt32, b :UInt32) -> UInt64;\n}\n\n"
    );
}

#[test]
fn schema_of_nothing_is_the_header() {
    assert_eq!(write_schema(&vec![], &vec![], &vec![]), "@0xabcdefabcdefabcdef;\n\n");
}

#[test]
fn schema_puts_sum_types_first_and_interfaces_last() {
    let kind = CapnpEnum {
        name: "Kind".to_string(),
        variants: vec![Variant { name: "one".to_string(), ty: None }],
    };
    let a = CapnpStruct {
        name: "A".to_string(),
        fields: vec![field("x", 0, primitive(PrimitiveType::Text))],
        has_serde: false,
    };
    let b = CapnpStruct {
        name: "B".to_string(),
        fields: vec![field("a", 0, CapnpType::Struct("A".to_string()))],
        has_serde: false,
    };
    let service = CapnpInterface {
        name: "Service".to_string(),
        methods: vec![Method { name: "run".to_string(), id: 0, params: vec![], ret: None }],
    };
    assert_eq!(
        write_schema(&vec![kind], &vec![&b, &a], &vec![service]),
        "@0xabcdefabcdefabcdef;\n\nenum Kind {\n  one @0;\n}\n\nstruct B {\n  a @0 :A;\n}\n\nstruct A {\n  x @0 :Text;\n}\n\ninterface Service {\n  run @0 ();\n}\n\n"
    );
}
