use capnez_codegen::decl::{has_attrs, has_capnp_bytes_attr, AttrStyle, Attribute, HostType};

fn attr(name: &str, style: AttrStyle, args: &[&str]) -> Attribute {
    Attribute {
        name: name.to_string(),
        style,
        args: args.iter().map(|a| a.to_string()).collect(),
    }
}

#[test]
fn no_attributes_no_flags() {
    assert_eq!(has_attrs(&vec![]), (false, false));
}

#[test]
fn capnp_marks_for_the_schema() {
    assert_eq!(has_attrs(&vec![attr("capnp", AttrStyle::Path, &[])]), (true, false));
    assert_eq!(has_attrs(&vec![attr("capnp", AttrStyle::List, &["x"])]), (true, false));
}

#[test]
fn serde_attribute_shows_the_serialisation() {
    assert_eq!(has_attrs(&vec![attr("serde", AttrStyle::List, &[])]), (false, true));
}

#[test]
fn derive_counts_only_with_a_serde_trait() {
    assert_eq!(
        has_attrs(&vec![attr("derive", AttrStyle::List, &["Debug", "Clone"])]),
        (false, false)
    );
    assert_eq!(
        has_attrs(&vec![attr("derive", AttrStyle::List, &["Debug", "Serialize"])]),
        (false, true)
    );
    assert_eq!(
        has_attrs(&vec![attr("derive", AttrStyle::List, &["Deserialize"])]),
        (false, true)
    );
    assert_eq!(
        has_attrs(&vec![attr("derive", AttrStyle::Path, &["Serialize"])]),
        (false, false)
    );
    assert_eq!(
        has_attrs(&vec![attr("derive", AttrStyle::NameValue, &["Serialize"])]),
        (false, false)
    );
}

#[test]
fn flags_add_up_over_the_attributes() {
    let attrs = vec![
        attr("doc", AttrStyle::NameValue, &[]),
        attr("derive", AttrStyle::List, &["Serialize", "Deserialize"]),
        attr("capnp", AttrStyle::Path, &[]),
        attr("derive", AttrStyle::List, &["Debug"]),
    ];
    assert_eq!(has_attrs(&attrs), (true, true));
}

#[test]
fn other_names_are_ignored() {
    let attrs = vec![
        attr("capnp_bytes", AttrStyle::Path, &[]),
        attr("Capnp", AttrStyle::Path, &[]),
        attr("serialize", AttrStyle::List, &["Serialize"]),
    ];
    assert_eq!(has_attrs(&attrs), (false, false));
}

#[test]
fn capnp_bytes_must_be_a_bare_path() {
    assert!(has_capnp_bytes_attr(&vec![attr("capnp_bytes", AttrStyle::Path, &[])]));
    assert!(!has_capnp_bytes_attr(&vec![attr("capnp_bytes", AttrStyle::List, &[])]));
    assert!(!has_capnp_bytes_attr(&vec![attr("capnp_bytes", AttrStyle::NameValue, &[])]));
    assert!(!has_capnp_bytes_attr(&vec![attr("capnp", AttrStyle::Path, &[])]));
    assert!(!has_capnp_bytes_attr(&vec![]));
    assert!(has_capnp_bytes_attr(&vec![
        attr("derive", AttrStyle::List, &["Debug"]),
        attr("capnp_bytes", AttrStyle::Path, &[]),
    ]));
}

#[test]
fn host_types_can_be_copied() {
    let ty = HostType::Named {
        name: "Vec".to_string(),
        arg: Some(Box::new(HostType::Array(Box::new(HostType::Named {
            name: "u32".to_string(),
            arg: None,
        })))),
    };
    assert_eq!(ty.clone(), ty);
    assert_eq!(ty.duplicate(), ty);
    assert_eq!(HostType::Unsupported.clone(), HostType::Unsupported);
}
