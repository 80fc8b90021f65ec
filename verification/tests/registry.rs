use capnez_codegen::registry::{Classification, StructRegistry};

#[test]
fn unknown_names_have_no_flags() {
    let registry = StructRegistry::new();
    assert_eq!(registry.classify("Person"), Classification::Unknown);
    assert!(!registry.is_capnp_struct("Person"));
    assert!(!registry.is_serde_struct("Person"));
}

#[test]
fn schema_native_wins_over_opaque() {
    let mut registry = StructRegistry::new();
    registry.register_serde_struct("Person");
    assert_eq!(registry.classify("Person"), Classification::OpaqueOnly);
    registry.register_capnp_struct("Person");
    assert_eq!(registry.classify("Person"), Classification::SchemaNative);
    assert!(registry.is_capnp_struct("Person"));
    assert!(registry.is_serde_struct("Person"));
}

#[test]
fn the_order_of_registrations_does_not_matter() {
    let mut registry = StructRegistry::new();
    registry.register_capnp_struct("Person");
    registry.register_serde_struct("Person");
    assert_eq!(registry.classify("Person"), Classification::SchemaNative);
}

#[test]
fn registering_merges_flags() {
    let mut registry = StructRegistry::default();
    registry.register("A", true, false);
    registry.register("A", false, false);
    assert!(registry.is_capnp_struct("A"));
    assert!(!registry.is_serde_struct("A"));
    registry.register("A", false, true);
    assert!(registry.is_capnp_struct("A"));
    assert!(registry.is_serde_struct("A"));
    registry.register("B", false, true);
    registry.register("B", false, true);
    assert_eq!(registry.classify("B"), Classification::OpaqueOnly);
    assert_eq!(registry.classify("A"), Classification::SchemaNative);
}

#[test]
fn names_are_kept_apart() {
    let mut registry = StructRegistry::new();
    registry.register_serde_struct("Info");
    registry.register_capnp_struct("Information");
    assert_eq!(registry.classify("Info"), Classification::OpaqueOnly);
    assert_eq!(registry.classify("Information"), Classification::SchemaNative);
    assert_eq!(registry.classify("info"), Classification::Unknown);
    assert_eq!(registry.classify(""), Classification::Unknown);
}

#[test]
fn a_registration_without_flags_classifies_as_unknown() {
    let mut registry = StructRegistry::new();
    registry.register("Ghost", false, false);
    assert_eq!(registry.classify("Ghost"), Classification::Unknown);
}
