use capnez_codegen::error::SchemaError;
use capnez_codegen::resolver::{sort_deps, topo_sort};
use capnez_codegen::schema::{
    get_struct_name, is_enum, CapnpEnum, CapnpStruct, CapnpType, Field, PrimitiveType, Variant,
};

fn text() -> CapnpType {
    CapnpType::Primitive(PrimitiveType::Text)
}

fn reference(name: &str) -> CapnpType {
    CapnpType::Struct(name.to_string())
}

fn list(inner: CapnpType) -> CapnpType {
    CapnpType::List(Box::new(inner))
}

fn optional(inner: CapnpType) -> CapnpType {
    CapnpType::Optional(Box::new(inner))
}

fn record(name: &str, types: Vec<CapnpType>) -> CapnpStruct {
    let mut fields = Vec::new();
    for (id, ty) in types.into_iter().enumerate() {
        fields.push(Field { name: format!("f{}", id), id, ty });
    }
    CapnpStruct { name: name.to_string(), fields, has_serde: false }
}

fn cycle_of(names: &[&str]) -> SchemaError {
    SchemaError::CyclicDependency { names: names.iter().map(|n| n.to_string()).collect() }
}

#[test]
fn get_struct_name_looks_through_wrappers() {
    assert_eq!(get_struct_name(&reference("A")), Some("A".to_string()));
    assert_eq!(get_struct_name(&list(reference("A"))), Some("A".to_string()));
    assert_eq!(get_struct_name(&optional(reference("A"))), Some("A".to_string()));
    assert_eq!(
        get_struct_name(&list(optional(list(list(reference("Deep")))))),
        Some("Deep".to_string())
    );
    assert_eq!(get_struct_name(&text()), None);
    assert_eq!(get_struct_name(&list(text())), None);
    assert_eq!(get_struct_name(&CapnpType::Bytes("A".to_string())), None);
    assert_eq!(get_struct_name(&optional(CapnpType::Bytes("A".to_string()))), None);
}

#[test]
fn dependencies_come_once_in_field_order() {
    let s = record(
        "Home",
        vec![
            reference("Person"),
            text(),
            list(reference("Room")),
            reference("SecuritySystem"),
            optional(reference("Person")),
            CapnpType::Bytes("Blob".to_string()),
            list(list(reference("Room"))),
        ],
    );
    assert_eq!(
        s.dependencies(),
        vec!["Person".to_string(), "Room".to_string(), "SecuritySystem".to_string()]
    );
    assert_eq!(record("Leaf", vec![text(), list(text())]).dependencies(), Vec::<String>::new());
}

#[test]
fn referenced_record_comes_first() {
    let structs = vec![record("A", vec![text()]), record("B", vec![reference("A"), text()])];
    assert_eq!(topo_sort(&structs), Ok(vec![0, 1]));
    let structs = vec![record("B", vec![reference("A"), text()]), record("A", vec![text()])];
    assert_eq!(topo_sort(&structs), Ok(vec![1, 0]));
}

#[test]
fn no_records_no_order() {
    assert_eq!(topo_sort(&vec![]), Ok(vec![]));
    assert_eq!(sort_deps(&vec![]), Ok(vec![]));
}

#[test]
fn independent_records_keep_their_order() {
    let structs = vec![record("C", vec![text()]), record("A", vec![]), record("B", vec![text()])];
    assert_eq!(topo_sort(&structs), Ok(vec![0, 1, 2]));
}

#[test]
fn references_are_followed_in_field_order() {
    let structs = vec![
        record(
            "Home",
            vec![reference("Person"), text(), list(reference("Room")), reference("SecuritySystem")],
        ),
        record("Person", vec![text(), reference("ContactInfo")]),
        record("ContactInfo", vec![text(), text()]),
        record("Room", vec![text(), list(reference("Device"))]),
        record("Device", vec![text(), reference("DeviceStatus")]),
        record("DeviceStatus", vec![]),
        record("SecuritySystem", vec![list(reference("Device"))]),
    ];
    assert_eq!(topo_sort(&structs), Ok(vec![2, 1, 5, 4, 3, 6, 0]));
    let sorted = sort_deps(&structs).unwrap();
    let names: Vec<&str> = sorted.iter().map(|s| s.name.as_str()).collect();
    assert_eq!(
        names,
        vec!["ContactInfo", "Person", "DeviceStatus", "Device", "Room", "SecuritySystem", "Home"]
    );
}

#[test]
fn every_reference_points_backwards() {
    let structs = vec![
        record("A", vec![reference("C"), optional(list(reference("E")))]),
        record("B", vec![reference("A"), reference("D")]),
        record("C", vec![list(reference("D"))]),
        record("D", vec![]),
        record("E", vec![reference("D"), reference("C")]),
        record("F", vec![reference("B"), reference("Nowhere")]),
    ];
    let order = topo_sort(&structs).unwrap();
    let mut seen = vec![false; structs.len()];
    for &i in &order {
        for dep in structs[i].dependencies() {
            if let Some(j) = structs.iter().position(|s| s.name == dep) {
                assert!(seen[j], "{} is declared before {}", structs[i].name, dep);
            }
        }
        assert!(!seen[i]);
        seen[i] = true;
    }
    assert!(seen.iter().all(|&s| s));
    assert_eq!(order, vec![3, 2, 4, 0, 1, 5]);
}

#[test]
fn undeclared_names_are_no_dependency() {
    let structs = vec![record("A", vec![reference("Missing"), list(reference("AlsoMissing"))])];
    assert_eq!(topo_sort(&structs), Ok(vec![0]));
}

#[test]
fn opaque_bytes_are_no_dependency() {
    let structs = vec![
        record("A", vec![CapnpType::Bytes("B".to_string())]),
        record("B", vec![CapnpType::Bytes("A".to_string())]),
    ];
    assert_eq!(topo_sort(&structs), Ok(vec![0, 1]));
}

#[test]
fn a_name_refers_to_its_first_record() {
    let structs = vec![
        record("User", vec![reference("Twin")]),
        record("Twin", vec![text()]),
        record("Twin", vec![reference("User")]),
    ];
    assert_eq!(topo_sort(&structs), Ok(vec![1, 0, 2]));
}

#[test]
fn two_records_in_a_cycle_are_rejected() {
    let structs = vec![record("A", vec![reference("B")]), record("B", vec![reference("A")])];
    assert_eq!(topo_sort(&structs), Err(cycle_of(&["A", "B"])));
    assert_eq!(sort_deps(&structs), Err(cycle_of(&["A", "B"])));
}

#[test]
fn a_record_that_holds_itself_is_rejected() {
    let structs = vec![record("Leaf", vec![]), record("Node", vec![list(reference("Node"))])];
    assert_eq!(topo_sort(&structs), Err(cycle_of(&["Node"])));
    let structs = vec![record("Node", vec![optional(reference("Node"))])];
    assert_eq!(topo_sort(&structs), Err(cycle_of(&["Node"])));
}

#[test]
fn the_cycle_names_only_the_records_on_it() {
    let structs = vec![
        record("Entry", vec![reference("A")]),
        record("A", vec![reference("Leaf"), reference("B")]),
        record("B", vec![reference("C")]),
        record("C", vec![reference("A")]),
        record("Leaf", vec![]),
    ];
    assert_eq!(topo_sort(&structs), Err(cycle_of(&["A", "B", "C"])));
}

#[test]
fn is_enum_finds_a_sum_type_by_name() {
    let enums = vec![
        CapnpEnum { name: "DeviceKind".to_string(), variants: vec![] },
        CapnpEnum {
            name: "State".to_string(),
            variants: vec![Variant { name: "idle".to_string(), ty: None }],
        },
    ];
    assert!(is_enum(&enums, "DeviceKind"));
    assert!(is_enum(&enums, "State"));
    assert!(!is_enum(&enums, "state"));
    assert!(!is_enum(&enums, "Device"));
    assert!(!is_enum(&vec![], "State"));
}

#[test]
fn schema_types_can_be_copied() {
    let ty = list(optional(reference("A")));
    assert_eq!(ty.clone(), ty);
    assert_eq!(ty.duplicate(), ty);
}
