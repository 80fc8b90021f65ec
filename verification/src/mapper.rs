//! The type mapper: from the types and declarations of the host language
//! to the nodes of the schema.

use vstd::prelude::*;
use vstd::string::*;
use crate::decl::{EnumDecl, EnumDeclView, FieldDeclView, HostType, HostTypeView, MethodDecl,
    MethodDeclView, ParamDeclView, StructDecl, StructDeclView, TraitDecl, TraitDeclView,
    VariantDecl, VariantDeclView};
use crate::error::{member_error, SchemaError, SchemaErrorView, TypeError};
use crate::naming::{camel_name, camel_name_of, pascal_name, pascal_name_of};
use crate::registry::{classification, Classification, StructRegistry};
use crate::schema::{field_views, fields_numbered, method_views, methods_numbered, param_views,
    variant_views, CapnpEnum, CapnpInterface, CapnpStruct, CapnpType, EnumView, Field, FieldView,
    InterfaceView, Method, MethodView, Param, ParamView, PrimitiveType, StructView, TypeView,
    Variant, VariantView};
use crate::text::same_text;
use crate::try_map::{lemma_try_map_fails, lemma_try_map_ok, lemma_try_map_step, try_map};

verus! {

/// The view of the result of mapping a type.
pub open spec fn type_result_view(r: Result<CapnpType, TypeError>) -> Result<TypeView, TypeError> {
    match r {
        Ok(t) => Ok(t@),
        Err(e) => Err(e),
    }
}

/// The schema type wrapped as a list.
pub open spec fn list_of(inner: Result<TypeView, TypeError>) -> Result<TypeView, TypeError> {
    match inner {
        Ok(t) => Ok(TypeView::List(Box::new(t))),
        Err(e) => Err(e),
    }
}

/// The schema type wrapped as an optional.
pub open spec fn optional_of(inner: Result<TypeView, TypeError>) -> Result<TypeView, TypeError> {
    match inner {
        Ok(t) => Ok(TypeView::Optional(Box::new(t))),
        Err(e) => Err(e),
    }
}

/// The schema type of a declared type, given its name in the schema: opaque
/// bytes where the registry knows the name only as opaque-capable, a record
/// reference otherwise. A name that the registry does not know is taken
/// for a record that is declared elsewhere.
pub open spec fn classified_type(
    normal: Seq<char>,
    registry: Map<Seq<char>, (bool, bool)>,
) -> TypeView {
    if classification(registry, normal) == Classification::OpaqueOnly {
        TypeView::Bytes(normal)
    } else {
        TypeView::Struct(normal)
    }
}

/// The schema type of a named type that is neither a primitive nor a
/// container: the name is put in upper camel case and then classified.
pub open spec fn mapped_name(name: Seq<char>, registry: Map<Seq<char>, (bool, bool)>) -> TypeView {
    classified_type(pascal_name_of(name), registry)
}

/// The schema type of a host type.
///
/// * `String` is text; `u32`, `u64`, `f32`, `f64` and `bool` are the
///   primitives of the same width.
/// * `Option` of a type is the optional of its schema type, `Vec` of a type
///   and an array of a type the list of it. `Option` and `Vec` without a
///   type argument are an error.
/// * Any other named type is looked up in the registry.
/// * Any other shape is an error.
pub open spec fn mapped_type(ty: HostTypeView, registry: Map<Seq<char>, (bool, bool)>) -> Result<
    TypeView,
    TypeError,
>
    decreases ty,
{
    match ty {
        HostTypeView::Named { name, arg } => {
            if name == "String"@ {
                Ok(TypeView::Primitive(PrimitiveType::Text))
            } else if name == "u32"@ {
                Ok(TypeView::Primitive(PrimitiveType::UInt32))
            } else if name == "u64"@ {
                Ok(TypeView::Primitive(PrimitiveType::UInt64))
            } else if name == "f32"@ {
                Ok(TypeView::Primitive(PrimitiveType::Float32))
            } else if name == "f64"@ {
                Ok(TypeView::Primitive(PrimitiveType::Float64))
            } else if name == "bool"@ {
                Ok(TypeView::Primitive(PrimitiveType::Bool))
            } else if name == "Option"@ {
                match arg {
                    Some(inner) => optional_of(mapped_type(*inner, registry)),
                    None => Err(TypeError::MissingTypeParameter),
                }
            } else if name == "Vec"@ {
                match arg {
                    Some(inner) => list_of(mapped_type(*inner, registry)),
                    None => Err(TypeError::MissingTypeParameter),
                }
            } else {
                Ok(mapped_name(name, registry))
            }
        },
        HostTypeView::Array(elem) => list_of(mapped_type(*elem, registry)),
        HostTypeView::Unsupported => Err(TypeError::UnsupportedType),
    }
}

/// The shapes of host types that the mapper knows: a named type, where an
/// `Option` or a `Vec` needs a type argument of a known shape, and an array
/// of a known shape.
pub open spec fn is_supported(ty: HostTypeView) -> bool
    decreases ty,
{
    match ty {
        HostTypeView::Named { name, arg } => if name == "Option"@ || name == "Vec"@ {
            match arg {
                Some(inner) => is_supported(*inner),
                None => false,
            }
        } else {
            true
        },
        HostTypeView::Array(elem) => is_supported(*elem),
        HostTypeView::Unsupported => false,
    }
}

/// The names of the two containers are not names of primitives.
proof fn lemma_container_names()
    ensures
        "Option"@ != "String"@,
        "Option"@ != "u32"@,
        "Option"@ != "u64"@,
        "Option"@ != "f32"@,
        "Option"@ != "f64"@,
        "Option"@ != "bool"@,
        "Vec"@ != "String"@,
        "Vec"@ != "u32"@,
        "Vec"@ != "u64"@,
        "Vec"@ != "f32"@,
        "Vec"@ != "f64"@,
        "Vec"@ != "bool"@,
{
    reveal_strlit("Option");
    reveal_strlit("Vec");
    reveal_strlit("String");
    reveal_strlit("u32");
    reveal_strlit("u64");
    reveal_strlit("f32");
    reveal_strlit("f64");
    reveal_strlit("bool");
    assert("Option"@[0] == 'O');
    assert("Vec"@[0] == 'V');
    assert("String"@[0] == 'S');
    assert("u32"@[0] == 'u');
    assert("u64"@[0] == 'u');
    assert("f32"@[0] == 'f');
    assert("f64"@[0] == 'f');
    assert("bool"@[0] == 'b');
}

/// A host type has a schema type exactly if it is of a supported shape,
/// whatever the registry holds.
pub proof fn lemma_mapping_succeeds(ty: HostTypeView, registry: Map<Seq<char>, (bool, bool)>)
    ensures
        mapped_type(ty, registry) is Ok <==> is_supported(ty),
    decreases ty,
{
    lemma_container_names();
    match ty {
        HostTypeView::Named { name, arg } => {
            match arg {
                Some(inner) => {
                    lemma_mapping_succeeds(*inner, registry);
                },
                None => {},
            }
        },
        HostTypeView::Array(elem) => {
            lemma_mapping_succeeds(*elem, registry);
        },
        HostTypeView::Unsupported => {},
    }
}

/// The schema type of the type argument of a container.
pub open spec fn mapped_argument(
    arg: Option<Box<HostTypeView>>,
    registry: Map<Seq<char>, (bool, bool)>,
) -> Result<TypeView, TypeError> {
    match arg {
        Some(inner) => mapped_type(*inner, registry),
        None => Err(TypeError::MissingTypeParameter),
    }
}

/// The view of the type argument of a container.
pub open spec fn argument_view(arg: Option<Box<HostType>>) -> Option<Box<HostTypeView>> {
    match arg {
        Some(inner) => Some(Box::new((*inner)@)),
        None => None,
    }
}

/// Maps a declared type, given its name in the schema, by what the
/// registry says of it.
pub fn map_named(normal: String, registry: &StructRegistry) -> (r: CapnpType)
    ensures
        r@ == classified_type(normal@, registry@),
{
    match registry.classify(normal.as_str()) {
        Classification::OpaqueOnly => CapnpType::Bytes(normal),
        _ => CapnpType::Struct(normal),
    }
}

/// Maps the type argument of an `Option` or a `Vec`.
pub fn extract_generic_ty(arg: &Option<Box<HostType>>, registry: &StructRegistry) -> (r: Result<
    CapnpType,
    TypeError,
>)
    ensures
        type_result_view(r) == mapped_argument(argument_view(*arg), registry@),
    decreases arg,
{
    match arg {
        Some(inner) => map_ty(inner, registry),
        None => Err(TypeError::MissingTypeParameter),
    }
}

/// Maps a host type to its schema type.
pub fn map_ty(ty: &HostType, registry: &StructRegistry) -> (r: Result<CapnpType, TypeError>)
    ensures
        type_result_view(r) == mapped_type(ty@, registry@),
    decreases ty,
{
    match ty {
        HostType::Named { name, arg } => {
            let id = name.as_str();
            if same_text(id, "String") {
                Ok(CapnpType::Primitive(PrimitiveType::Text))
            } else if same_text(id, "u32") {
                Ok(CapnpType::Primitive(PrimitiveType::UInt32))
            } else if same_text(id, "u64") {
                Ok(CapnpType::Primitive(PrimitiveType::UInt64))
            } else if same_text(id, "f32") {
                Ok(CapnpType::Primitive(PrimitiveType::Float32))
            } else if same_text(id, "f64") {
                Ok(CapnpType::Primitive(PrimitiveType::Float64))
            } else if same_text(id, "bool") {
                Ok(CapnpType::Primitive(PrimitiveType::Bool))
            } else if same_text(id, "Option") {
                match extract_generic_ty(arg, registry) {
                    Ok(inner) => Ok(CapnpType::Optional(Box::new(inner))),
                    Err(e) => Err(e),
                }
            } else if same_text(id, "Vec") {
                match extract_generic_ty(arg, registry) {
                    Ok(inner) => Ok(CapnpType::List(Box::new(inner))),
                    Err(e) => Err(e),
                }
            } else {
                Ok(map_named(pascal_name(id), registry))
            }
        },
        HostType::Array(elem) => {
            match map_ty(elem, registry) {
                Ok(inner) => Ok(CapnpType::List(Box::new(inner))),
                Err(e) => Err(e),
            }
        },
        HostType::Unsupported => Err(TypeError::UnsupportedType),
    }
}

/// The field of a record that a field declaration gives: its name in lower
/// camel case, its position as its ordinal, its type mapped.
pub open spec fn built_field(
    declaration: Seq<char>,
    field: FieldDeclView,
    position: nat,
    registry: Map<Seq<char>, (bool, bool)>,
) -> Result<FieldView, SchemaErrorView> {
    match mapped_type(field.ty, registry) {
        Ok(ty) => Ok(FieldView { name: camel_name_of(field.name), id: position, ty }),
        Err(e) => Err(member_error(e, declaration, field.name)),
    }
}

/// [`built_field`] as a function of the position and the declaration.
pub open spec fn field_builder(
    declaration: Seq<char>,
    registry: Map<Seq<char>, (bool, bool)>,
) -> spec_fn(int, FieldDeclView) -> Result<FieldView, SchemaErrorView> {
    |position: int, field: FieldDeclView| built_field(declaration, field, position as nat, registry)
}

/// The record that a struct declaration gives: its name in upper camel
/// case, and its fields in the order of the declaration. The first field
/// whose type cannot be mapped fails the record.
pub open spec fn built_struct(
    decl: StructDeclView,
    has_serde: bool,
    registry: Map<Seq<char>, (bool, bool)>,
) -> Result<StructView, SchemaErrorView> {
    match try_map(decl.fields, field_builder(decl.name, registry)) {
        Ok(fields) => Ok(StructView { name: pascal_name_of(decl.name), fields, has_serde }),
        Err(e) => Err(e),
    }
}

/// The view of the result of building a record.
pub open spec fn struct_result_view(r: Result<CapnpStruct, SchemaError>) -> Result<
    StructView,
    SchemaErrorView,
> {
    match r {
        Ok(s) => Ok(s@),
        Err(e) => Err(e@),
    }
}

/// In a record that was built from a declaration, every field stands where
/// its declaration stands, and its ordinal is that position, whatever its
/// type is.
pub proof fn lemma_ordinals_are_positions(
    decl: StructDeclView,
    has_serde: bool,
    registry: Map<Seq<char>, (bool, bool)>,
)
    requires
        built_struct(decl, has_serde, registry) is Ok,
    ensures
        built_struct(decl, has_serde, registry)->Ok_0.fields.len() == decl.fields.len(),
        fields_numbered(built_struct(decl, has_serde, registry)->Ok_0.fields),
        forall|i: int|
            0 <= i < decl.fields.len() ==> {
                let field = #[trigger] built_struct(decl, has_serde, registry)->Ok_0.fields[i];
                &&& field.id == i
                &&& field.name == camel_name_of(decl.fields[i].name)
                &&& mapped_type(decl.fields[i].ty, registry) == Ok::<TypeView, TypeError>(field.ty)
            },
{
    let f = field_builder(decl.name, registry);
    lemma_try_map_ok(decl.fields, f);
    let fields = try_map(decl.fields, f)->Ok_0;
    assert forall|i: int| 0 <= i < decl.fields.len() implies {
        let field = #[trigger] fields[i];
        &&& field.id == i
        &&& field.name == camel_name_of(decl.fields[i].name)
        &&& mapped_type(decl.fields[i].ty, registry) == Ok::<TypeView, TypeError>(field.ty)
    } by {
        assert(f(i, decl.fields[i]) == Ok::<FieldView, SchemaErrorView>(fields[i]));
    }
}

/// Builds the record of a struct declaration. The name is written in upper
/// camel case, each field name in lower camel case; the ordinal of a field
/// is its position in the declaration. The first field whose type cannot
/// be mapped gives the error, which names the declaration and the field as
/// the host language writes them.
pub fn mk_struct(input: &StructDecl, has_serde: bool, registry: &StructRegistry) -> (r: Result<
    CapnpStruct,
    SchemaError,
>)
    ensures
        struct_result_view(r) == built_struct(input@, has_serde, registry@),
        r matches Ok(s) ==> s.fields.len() == input.fields.len() && fields_numbered(s@.fields),
{
    let name = pascal_name(input.name.as_str());
    let mut fields: Vec<Field> = Vec::new();
    let mut i: usize = 0;
    let ghost f = field_builder(input@.name, registry@);
    proof {
        assert(input@.fields.take(0) =~= Seq::<FieldDeclView>::empty());
        assert(field_views(fields@) =~= Seq::<FieldView>::empty());
    }
    while i < input.fields.len()
        invariant
            i <= input.fields.len(),
            fields.len() == i,
            f == field_builder(input@.name, registry@),
            try_map(input@.fields.take(i as int), f) == Ok::<Seq<FieldView>, SchemaErrorView>(
                field_views(fields@),
            ),
        decreases input.fields.len() - i,
    {
        let decl = &input.fields[i];
        let ghost before = field_views(fields@);
        proof {
            lemma_try_map_step(input@.fields, f, i as int);
            assert(input@.fields[i as int] == decl@);
        }
        match map_ty(&decl.ty, registry) {
            Ok(ty) => {
                fields.push(Field { name: camel_name(decl.name.as_str()), id: i, ty });
                assert(field_views(fields@) =~= before.push(fields@[i as int]@));
            },
            Err(e) => {
                proof {
                    lemma_try_map_fails(input@.fields, f, i as int + 1);
                }
                return Err(SchemaError::for_member(e, &input.name, &decl.name));
            },
        }
        i += 1;
    }
    let built = CapnpStruct { name, fields, has_serde };
    proof {
        assert(input@.fields.take(i as int) =~= input@.fields);
        lemma_ordinals_are_positions(input@, has_serde, registry@);
    }
    Ok(built)
}

/// The variant of a sum type that a variant declaration gives: its name in
/// lower camel case, and the mapped type of its payload if it has one. More
/// than one payload field is an error.
pub open spec fn built_variant(
    declaration: Seq<char>,
    variant: VariantDeclView,
    registry: Map<Seq<char>, (bool, bool)>,
) -> Result<VariantView, SchemaErrorView> {
    if variant.payload.len() == 0 {
        Ok(VariantView { name: camel_name_of(variant.name), ty: None })
    } else if variant.payload.len() == 1 {
        match mapped_type(variant.payload[0], registry) {
            Ok(ty) => Ok(VariantView { name: camel_name_of(variant.name), ty: Some(ty) }),
            Err(e) => Err(member_error(e, declaration, variant.name)),
        }
    } else {
        Err(SchemaErrorView::MultiFieldVariant { declaration, member: variant.name })
    }
}

/// [`built_variant`] as a function of the position and the declaration.
pub open spec fn variant_builder(
    declaration: Seq<char>,
    registry: Map<Seq<char>, (bool, bool)>,
) -> spec_fn(int, VariantDeclView) -> Result<VariantView, SchemaErrorView> {
    |position: int, variant: VariantDeclView| built_variant(declaration, variant, registry)
}

/// The sum type that an enum declaration gives: its name in upper camel
/// case, and its variants in the order of the declaration. The first
/// variant that cannot be built fails the sum type.
pub open spec fn built_enum(decl: EnumDeclView, registry: Map<Seq<char>, (bool, bool)>) -> Result<
    EnumView,
    SchemaErrorView,
> {
    match try_map(decl.variants, variant_builder(decl.name, registry)) {
        Ok(variants) => Ok(EnumView { name: pascal_name_of(decl.name), variants }),
        Err(e) => Err(e),
    }
}

/// The view of the result of building a sum type.
pub open spec fn enum_result_view(r: Result<CapnpEnum, SchemaError>) -> Result<
    EnumView,
    SchemaErrorView,
> {
    match r {
        Ok(e) => Ok(e@),
        Err(e) => Err(e@),
    }
}

/// The view of the result of building a variant.
pub open spec fn variant_result_view(r: Result<Variant, SchemaError>) -> Result<
    VariantView,
    SchemaErrorView,
> {
    match r {
        Ok(v) => Ok(v@),
        Err(e) => Err(e@),
    }
}

/// Builds one variant of a sum type.
fn mk_variant(declaration: &String, variant: &VariantDecl, registry: &StructRegistry) -> (r: Result<
    Variant,
    SchemaError,
>)
    ensures
        variant_result_view(r) == built_variant(declaration@, variant@, registry@),
{
    if variant.payload.len() == 0 {
        Ok(Variant { name: camel_name(variant.name.as_str()), ty: None })
    } else if variant.payload.len() == 1 {
        assert(variant@.payload[0] == variant.payload[0]@);
        match map_ty(&variant.payload[0], registry) {
            Ok(ty) => Ok(Variant { name: camel_name(variant.name.as_str()), ty: Some(ty) }),
            Err(e) => Err(SchemaError::for_member(e, declaration, &variant.name)),
        }
    } else {
        Err(
            SchemaError::MultiFieldVariant {
                declaration: declaration.clone(),
                member: variant.name.clone(),
            },
        )
    }
}

/// Builds the sum type of an enum declaration. The name is written in upper
/// camel case, each variant name in lower camel case. A variant without
/// unnamed fields has no payload, a variant with one has the mapped type of
/// that field, and a variant with more is an error. The first variant that
/// fails gives the error, which names the declaration and the variant as
/// the host language writes them.
pub fn mk_enum(input: &EnumDecl, registry: &StructRegistry) -> (r: Result<CapnpEnum, SchemaError>)
    ensures
        enum_result_view(r) == built_enum(input@, registry@),
{
    let name = pascal_name(input.name.as_str());
    let mut variants: Vec<Variant> = Vec::new();
    let mut i: usize = 0;
    let ghost f = variant_builder(input@.name, registry@);
    proof {
        assert(input@.variants.take(0) =~= Seq::<VariantDeclView>::empty());
        assert(variant_views(variants@) =~= Seq::<VariantView>::empty());
    }
    while i < input.variants.len()
        invariant
            i <= input.variants.len(),
            variants.len() == i,
            f == variant_builder(input@.name, registry@),
            try_map(input@.variants.take(i as int), f) == Ok::<Seq<VariantView>, SchemaErrorView>(
                variant_views(variants@),
            ),
        decreases input.variants.len() - i,
    {
        let decl = &input.variants[i];
        let ghost before = variant_views(variants@);
        proof {
            lemma_try_map_step(input@.variants, f, i as int);
            assert(input@.variants[i as int] == decl@);
        }
        match mk_variant(&input.name, decl, registry) {
            Ok(variant) => {
                variants.push(variant);
                assert(variant_views(variants@) =~= before.push(variants@[i as int]@));
            },
            Err(e) => {
                proof {
                    lemma_try_map_fails(input@.variants, f, i as int + 1);
                }
                return Err(e);
            },
        }
        i += 1;
    }
    proof {
        assert(input@.variants.take(i as int) =~= input@.variants);
    }
    Ok(CapnpEnum { name, variants })
}

/// The parameter that a parameter declaration gives: its name in lower
/// camel case, its type mapped. A failure names the method.
pub open spec fn built_param(
    declaration: Seq<char>,
    method: Seq<char>,
    param: ParamDeclView,
    registry: Map<Seq<char>, (bool, bool)>,
) -> Result<ParamView, SchemaErrorView> {
    match mapped_type(param.ty, registry) {
        Ok(ty) => Ok(ParamView { name: camel_name_of(param.name), ty }),
        Err(e) => Err(member_error(e, declaration, method)),
    }
}

/// [`built_param`] as a function of the position and the declaration.
pub open spec fn param_builder(
    declaration: Seq<char>,
    method: Seq<char>,
    registry: Map<Seq<char>, (bool, bool)>,
) -> spec_fn(int, ParamDeclView) -> Result<ParamView, SchemaErrorView> {
    |position: int, param: ParamDeclView| built_param(declaration, method, param, registry)
}

/// The mapped result type of a method, if the method declares one.
pub open spec fn built_return(
    declaration: Seq<char>,
    method: Seq<char>,
    ret: Option<HostTypeView>,
    registry: Map<Seq<char>, (bool, bool)>,
) -> Result<Option<TypeView>, SchemaErrorView> {
    match ret {
        None => Ok(None),
        Some(ty) => match mapped_type(ty, registry) {
            Ok(mapped) => Ok(Some(mapped)),
            Err(e) => Err(member_error(e, declaration, method)),
        },
    }
}

/// The method that a method declaration gives: its name in lower camel
/// case, its position as its ordinal, its parameters in order and its
/// result type. The parameters are mapped before the result type.
pub open spec fn built_method(
    declaration: Seq<char>,
    method: MethodDeclView,
    position: nat,
    registry: Map<Seq<char>, (bool, bool)>,
) -> Result<MethodView, SchemaErrorView> {
    match try_map(method.params, param_builder(declaration, method.name, registry)) {
        Err(e) => Err(e),
        Ok(params) => match built_return(declaration, method.name, method.ret, registry) {
            Err(e) => Err(e),
            Ok(ret) => Ok(
                MethodView { name: camel_name_of(method.name), id: position, params, ret },
            ),
        },
    }
}

/// [`built_method`] as a function of the position and the declaration.
pub open spec fn method_builder(
    declaration: Seq<char>,
    registry: Map<Seq<char>, (bool, bool)>,
) -> spec_fn(int, MethodDeclView) -> Result<MethodView, SchemaErrorView> {
    |position: int, method: MethodDeclView|
        built_method(declaration, method, position as nat, registry)
}

/// The interface that a trait declaration gives: its name in upper camel
/// case, and its methods in the order of the declaration. The first method
/// that cannot be built fails the interface.
pub open spec fn built_interface(
    decl: TraitDeclView,
    registry: Map<Seq<char>, (bool, bool)>,
) -> Result<InterfaceView, SchemaErrorView> {
    match try_map(decl.methods, method_builder(decl.name, registry)) {
        Ok(methods) => Ok(InterfaceView { name: pascal_name_of(decl.name), methods }),
        Err(e) => Err(e),
    }
}

/// In an interface that was built from a declaration, every method stands
/// where its declaration stands, and its ordinal is that position.
pub proof fn lemma_method_ordinals_are_positions(
    decl: TraitDeclView,
    registry: Map<Seq<char>, (bool, bool)>,
)
    requires
        built_interface(decl, registry) is Ok,
    ensures
        built_interface(decl, registry)->Ok_0.methods.len() == decl.methods.len(),
        methods_numbered(built_interface(decl, registry)->Ok_0.methods),
        forall|i: int|
            0 <= i < decl.methods.len() ==> (#[trigger] built_interface(
                decl,
                registry,
            )->Ok_0.methods[i]).name == camel_name_of(decl.methods[i].name),
{
    let f = method_builder(decl.name, registry);
    lemma_try_map_ok(decl.methods, f);
    let methods = try_map(decl.methods, f)->Ok_0;
    assert forall|i: int| 0 <= i < decl.methods.len() implies {
        let method = #[trigger] methods[i];
        &&& method.id == i
        &&& method.name == camel_name_of(decl.methods[i].name)
    } by {
        assert(f(i, decl.methods[i]) == Ok::<MethodView, SchemaErrorView>(methods[i]));
    }
}

/// The view of the result of building an interface.
pub open spec fn interface_result_view(r: Result<CapnpInterface, SchemaError>) -> Result<
    InterfaceView,
    SchemaErrorView,
> {
    match r {
        Ok(i) => Ok(i@),
        Err(e) => Err(e@),
    }
}

/// The view of the result of building a method.
pub open spec fn method_result_view(r: Result<Method, SchemaError>) -> Result<
    MethodView,
    SchemaErrorView,
> {
    match r {
        Ok(m) => Ok(m@),
        Err(e) => Err(e@),
    }
}

/// Builds one method of an interface, with the ordinal `position`.
fn mk_method(
    declaration: &String,
    method: &MethodDecl,
    position: usize,
    registry: &StructRegistry,
) -> (r: Result<Method, SchemaError>)
    ensures
        method_result_view(r) == built_method(declaration@, method@, position as nat, registry@),
{
    let mut params: Vec<Param> = Vec::new();
    let mut i: usize = 0;
    let ghost f = param_builder(declaration@, method@.name, registry@);
    proof {
        assert(method@.params.take(0) =~= Seq::<ParamDeclView>::empty());
        assert(param_views(params@) =~= Seq::<ParamView>::empty());
    }
    while i < method.params.len()
        invariant
            i <= method.params.len(),
            params.len() == i,
            f == param_builder(declaration@, method@.name, registry@),
            try_map(method@.params.take(i as int), f) == Ok::<Seq<ParamView>, SchemaErrorView>(
                param_views(params@),
            ),
        decreases method.params.len() - i,
    {
        let decl = &method.params[i];
        let ghost before = param_views(params@);
        proof {
            lemma_try_map_step(method@.params, f, i as int);
            assert(method@.params[i as int] == decl@);
        }
        match map_ty(&decl.ty, registry) {
            Ok(ty) => {
                params.push(Param { name: camel_name(decl.name.as_str()), ty });
                assert(param_views(params@) =~= before.push(params@[i as int]@));
            },
            Err(e) => {
                proof {
                    lemma_try_map_fails(method@.params, f, i as int + 1);
                }
                return Err(SchemaError::for_member(e, declaration, &method.name));
            },
        }
        i += 1;
    }
    proof {
        assert(method@.params.take(i as int) =~= method@.params);
    }
    let ret = match &method.ret {
        None => None,
        Some(ty) => match map_ty(ty, registry) {
            Ok(mapped) => Some(mapped),
            Err(e) => {
                return Err(SchemaError::for_member(e, declaration, &method.name));
            },
        },
    };
    Ok(Method { name: camel_name(method.name.as_str()), id: position, params, ret })
}

/// Builds the interface of a trait declaration. The name is written in
/// upper camel case, the names of methods and parameters in lower camel
/// case; the ordinal of a method is its position in the declaration. The
/// first type that cannot be mapped gives the error, which names the
/// declaration and the method as the host language writes them.
pub fn mk_interface(input: &TraitDecl, registry: &StructRegistry) -> (r: Result<
    CapnpInterface,
    SchemaError,
>)
    ensures
        interface_result_view(r) == built_interface(input@, registry@),
        r matches Ok(i) ==> i.methods.len() == input.methods.len() && methods_numbered(
            i@.methods,
        ),
{
    let name = pascal_name(input.name.as_str());
    let mut methods: Vec<Method> = Vec::new();
    let mut i: usize = 0;
    let ghost f = method_builder(input@.name, registry@);
    proof {
        assert(input@.methods.take(0) =~= Seq::<MethodDeclView>::empty());
        assert(method_views(methods@) =~= Seq::<MethodView>::empty());
    }
    while i < input.methods.len()
        invariant
            i <= input.methods.len(),
            methods.len() == i,
            f == method_builder(input@.name, registry@),
            try_map(input@.methods.take(i as int), f) == Ok::<Seq<MethodView>, SchemaErrorView>(
                method_views(methods@),
            ),
        decreases input.methods.len() - i,
    {
        let decl = &input.methods[i];
        let ghost before = method_views(methods@);
        proof {
            lemma_try_map_step(input@.methods, f, i as int);
            assert(input@.methods[i as int] == decl@);
        }
        match mk_method(&input.name, decl, i, registry) {
            Ok(method) => {
                methods.push(method);
                assert(method_views(methods@) =~= before.push(methods@[i as int]@));
            },
            Err(e) => {
                proof {
                    lemma_try_map_fails(input@.methods, f, i as int + 1);
                }
                return Err(e);
            },
        }
        i += 1;
    }
    proof {
        assert(input@.methods.take(i as int) =~= input@.methods);
        lemma_method_ordinals_are_positions(input@, registry@);
    }
    Ok(CapnpInterface { name, methods })
}

} // verus!
