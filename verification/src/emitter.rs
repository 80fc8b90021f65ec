//! The schema emitter: the text of the schema, built piece by piece.

use vstd::prelude::*;
use vstd::string::*;
use crate::mapper::classified_type;
use crate::registry::{classification, Classification};
use crate::resolver::borrowed_views;
use crate::schema::{enum_views, interface_views, param_views, CapnpEnum, CapnpInterface,
    CapnpStruct, CapnpType, EnumView, Field, FieldView, InterfaceView, Method, MethodView, Param,
    ParamView, PrimitiveType, StructView, TypeView, Variant, VariantView};
use crate::text::{concat_all, decimal, lemma_concat_all_push, push_decimal};

verus! {

/// The keyword of a primitive kind.
pub open spec fn keyword_of(p: PrimitiveType) -> Seq<char> {
    match p {
        PrimitiveType::Text => "Text"@,
        PrimitiveType::UInt32 => "UInt32"@,
        PrimitiveType::UInt64 => "UInt64"@,
        PrimitiveType::Bool => "Bool"@,
        PrimitiveType::Float32 => "Float32"@,
        PrimitiveType::Float64 => "Float64"@,
    }
}

/// A type as the schema text writes it: a primitive by its keyword, a
/// record by its name, a list as `List(..)` around its element type, an
/// optional as a union of the value and nothing, and opaque bytes as a
/// list of bytes.
pub open spec fn rendered_type(ty: TypeView) -> Seq<char>
    decreases ty,
{
    match ty {
        TypeView::Primitive(p) => keyword_of(p),
        TypeView::Struct(name) => name,
        TypeView::List(inner) => "List("@ + rendered_type(*inner) + ")"@,
        TypeView::Optional(inner) => "union {\n  value @0 :"@ + rendered_type(*inner)
            + ";\n  none @1 :Void;\n}"@,
        TypeView::Bytes(_) => "List(UInt8)"@,
    }
}

/// The line of a field: its name, its ordinal and its type.
pub open spec fn rendered_field(field: FieldView) -> Seq<char> {
    "  "@ + field.name + " @"@ + decimal(field.id) + " :"@ + rendered_type(field.ty) + ";\n"@
}

/// The declaration of a record.
pub open spec fn rendered_struct(s: StructView) -> Seq<char> {
    "struct "@ + s.name + " {\n"@ + concat_all(
        s.fields.map_values(|f: FieldView| rendered_field(f)),
    ) + "}\n\n"@
}

/// Whether any variant of the sum type carries a payload.
pub open spec fn carries_payload(e: EnumView) -> bool {
    exists|i: int| 0 <= i < e.variants.len() && (#[trigger] e.variants[i]).ty is Some
}

/// The type that a variant has as a field: that of its payload, or `Void`.
pub open spec fn rendered_payload(variant: VariantView) -> Seq<char> {
    match variant.ty {
        Some(ty) => rendered_type(ty),
        None => "Void"@,
    }
}

/// The line of a variant in a sum type that is written as a struct.
pub open spec fn rendered_variant_field(variant: VariantView, position: nat) -> Seq<char> {
    "  "@ + variant.name + " @"@ + decimal(position) + " :"@ + rendered_payload(variant)
        + ";\n"@
}

/// The line of a variant in a sum type that is written as an enum.
pub open spec fn rendered_variant_tag(variant: VariantView, position: nat) -> Seq<char> {
    "  "@ + variant.name + " @"@ + decimal(position) + ";\n"@
}

/// The lines of the variants of a sum type that is written as a struct.
pub open spec fn variant_fields(variants: Seq<VariantView>) -> Seq<Seq<char>> {
    Seq::new(variants.len(), |i: int| rendered_variant_field(variants[i], i as nat))
}

/// The lines of the variants of a sum type that is written as an enum.
pub open spec fn variant_tags(variants: Seq<VariantView>) -> Seq<Seq<char>> {
    Seq::new(variants.len(), |i: int| rendered_variant_tag(variants[i], i as nat))
}

/// The declaration of a sum type. Where any variant carries a payload, the
/// whole type is written as a struct with one field for each variant; where
/// none does, it is written as an enum. Either way a variant has its
/// position as its ordinal.
pub open spec fn rendered_enum(e: EnumView) -> Seq<char> {
    if carries_payload(e) {
        "struct "@ + e.name + " {\n"@ + concat_all(variant_fields(e.variants)) + "}\n\n"@
    } else {
        "enum "@ + e.name + " {\n"@ + concat_all(variant_tags(e.variants)) + "}\n\n"@
    }
}

/// A parameter: its name and its type.
pub open spec fn rendered_param(param: ParamView) -> Seq<char> {
    param.name + " :"@ + rendered_type(param.ty)
}

/// The parameters of a method, separated by a comma and a space.
pub open spec fn rendered_params(params: Seq<ParamView>) -> Seq<char>
    decreases params.len(),
{
    if params.len() == 0 {
        Seq::empty()
    } else if params.len() == 1 {
        rendered_param(params[0])
    } else {
        rendered_params(params.drop_last()) + ", "@ + rendered_param(params.last())
    }
}

/// The arrow and the result type of a method, where it has one.
pub open spec fn rendered_return(ret: Option<TypeView>) -> Seq<char> {
    match ret {
        Some(ty) => " -> "@ + rendered_type(ty),
        None => Seq::empty(),
    }
}

/// The line of a method: its name, its ordinal, its parameters and its
/// result type.
pub open spec fn rendered_method(method: MethodView) -> Seq<char> {
    "  "@ + method.name + " @"@ + decimal(method.id) + " ("@ + rendered_params(method.params)
        + ")"@ + rendered_return(method.ret) + ";\n"@
}

/// The declaration of an interface.
pub open spec fn rendered_interface(i: InterfaceView) -> Seq<char> {
    "interface "@ + i.name + " {\n"@ + concat_all(
        i.methods.map_values(|m: MethodView| rendered_method(m)),
    ) + "}\n\n"@
}

/// The first line of every schema: the identifier of the file.
pub open spec fn schema_header() -> Seq<char> {
    "@0xabcdefabcdefabcdef;\n\n"@
}

/// The text of a schema: the header, then the sum types, then the records
/// in the order given, then the interfaces.
pub open spec fn rendered_schema(
    enums: Seq<EnumView>,
    structs: Seq<StructView>,
    interfaces: Seq<InterfaceView>,
) -> Seq<char> {
    schema_header() + concat_all(enums.map_values(|e: EnumView| rendered_enum(e))) + concat_all(
        structs.map_values(|s: StructView| rendered_struct(s)),
    ) + concat_all(interfaces.map_values(|i: InterfaceView| rendered_interface(i)))
}

/// A type that the registry knows only as opaque-capable is written as a
/// list of bytes, wherever a field refers to it.
pub proof fn lemma_opaque_renders_as_bytes(
    normal: Seq<char>,
    registry: Map<Seq<char>, (bool, bool)>,
)
    requires
        classification(registry, normal) == Classification::OpaqueOnly,
    ensures
        rendered_type(classified_type(normal, registry)) == "List(UInt8)"@,
{
}

/// An optional is written as a union of two branches: the value, with the
/// ordinal 0 and the type of the optional's content, and nothing, with the
/// ordinal 1.
pub proof fn lemma_optional_rendering(inner: TypeView)
    ensures
        rendered_type(TypeView::Optional(Box::new(inner))) == "union {\n  value @0 :"@
            + rendered_type(inner) + ";\n  none @1 :Void;\n}"@,
{
}

impl PrimitiveType {
    /// The keyword of the kind in the schema language.
    pub fn keyword(&self) -> (r: &'static str)
        ensures
            r@ == keyword_of(*self),
    {
        match self {
            PrimitiveType::Text => "Text",
            PrimitiveType::UInt32 => "UInt32",
            PrimitiveType::UInt64 => "UInt64",
            PrimitiveType::Bool => "Bool",
            PrimitiveType::Float32 => "Float32",
            PrimitiveType::Float64 => "Float64",
        }
    }
}

impl CapnpType {
    /// Appends the type to `out` as the schema text writes it.
    pub fn write(&self, out: &mut String)
        ensures
            final(out)@ == old(out)@ + rendered_type(self@),
        decreases self,
    {
        match self {
            CapnpType::Primitive(p) => {
                out.append(p.keyword());
            },
            CapnpType::Struct(name) => {
                out.append(name.as_str());
            },
            CapnpType::List(inner) => {
                out.append("List(");
                inner.write(out);
                out.append(")");
                assert(out@ =~= old(out)@ + rendered_type(self@));
            },
            CapnpType::Optional(inner) => {
                out.append("union {\n  value @0 :");
                inner.write(out);
                out.append(";\n  none @1 :Void;\n}");
                assert(out@ =~= old(out)@ + rendered_type(self@));
            },
            CapnpType::Bytes(_) => {
                out.append("List(UInt8)");
            },
        }
    }

    /// The type as the schema text writes it.
    pub fn render(&self) -> (r: String)
        ensures
            r@ == rendered_type(self@),
    {
        let mut out = String::new();
        self.write(&mut out);
        assert(out@ =~= rendered_type(self@));
        out
    }
}

impl Field {
    /// Appends the line of the field to `out`.
    pub fn write(&self, out: &mut String)
        ensures
            final(out)@ == old(out)@ + rendered_field(self@),
    {
        out.append("  ");
        out.append(self.name.as_str());
        out.append(" @");
        push_decimal(out, self.id);
        out.append(" :");
        self.ty.write(out);
        out.append(";\n");
        assert(out@ =~= old(out)@ + rendered_field(self@));
    }
}

impl CapnpStruct {
    /// Appends the declaration of the record to `out`.
    pub fn write(&self, out: &mut String)
        ensures
            final(out)@ == old(out)@ + rendered_struct(self@),
    {
        let ghost lines = self@.fields.map_values(|f: FieldView| rendered_field(f));
        out.append("struct ");
        out.append(self.name.as_str());
        out.append(" {\n");
        let ghost head = old(out)@ + "struct "@ + self@.name + " {\n"@;
        let mut i: usize = 0;
        proof {
            assert(lines.take(0) =~= Seq::<Seq<char>>::empty());
            assert(out@ =~= head + concat_all(lines.take(0)));
        }
        while i < self.fields.len()
            invariant
                i <= self.fields.len(),
                lines == self@.fields.map_values(|f: FieldView| rendered_field(f)),
                out@ == head + concat_all(lines.take(i as int)),
            decreases self.fields.len() - i,
        {
            let field = &self.fields[i];
            field.write(out);
            proof {
                assert(self@.fields[i as int] == field@);
                assert(lines[i as int] == rendered_field(field@));
                assert(lines.take(i as int + 1) =~= lines.take(i as int).push(lines[i as int]));
                lemma_concat_all_push(lines.take(i as int), lines[i as int]);
                assert(out@ =~= head + concat_all(lines.take(i as int + 1)));
            }
            i += 1;
        }
        out.append("}\n\n");
        proof {
            assert(lines.take(i as int) =~= lines);
            assert(out@ =~= old(out)@ + rendered_struct(self@));
        }
    }
}

impl Variant {
    /// Appends the line that the variant has in a sum type written as a
    /// struct: a field of the payload type, or of `Void`.
    pub fn write_field(&self, position: usize, out: &mut String)
        ensures
            final(out)@ == old(out)@ + rendered_variant_field(self@, position as nat),
    {
        out.append("  ");
        out.append(self.name.as_str());
        out.append(" @");
        push_decimal(out, position);
        out.append(" :");
        match &self.ty {
            Some(ty) => {
                ty.write(out);
            },
            None => {
                out.append("Void");
            },
        }
        out.append(";\n");
        assert(out@ =~= old(out)@ + rendered_variant_field(self@, position as nat));
    }

    /// Appends the line that the variant has in a sum type written as an
    /// enum.
    pub fn write_tag(&self, position: usize, out: &mut String)
        ensures
            final(out)@ == old(out)@ + rendered_variant_tag(self@, position as nat),
    {
        out.append("  ");
        out.append(self.name.as_str());
        out.append(" @");
        push_decimal(out, position);
        out.append(";\n");
        assert(out@ =~= old(out)@ + rendered_variant_tag(self@, position as nat));
    }
}

impl CapnpEnum {
    /// Whether any variant carries a payload.
    pub fn has_payload(&self) -> (r: bool)
        ensures
            r == carries_payload(self@),
    {
        let mut i: usize = 0;
        while i < self.variants.len()
            invariant
                i <= self.variants.len(),
                forall|k: int| 0 <= k < i ==> (#[trigger] self@.variants[k]).ty is None,
            decreases self.variants.len() - i,
        {
            assert(self@.variants[i as int] == self.variants[i as int]@);
            if self.variants[i].ty.is_some() {
                return true;
            }
            i += 1;
        }
        false
    }

    /// Appends the declaration of the sum type to `out`: a struct where any
    /// variant carries a payload, an enum where none does.
    pub fn write(&self, out: &mut String)
        ensures
            final(out)@ == old(out)@ + rendered_enum(self@),
    {
        let as_struct = self.has_payload();
        let ghost lines = if as_struct {
            variant_fields(self@.variants)
        } else {
            variant_tags(self@.variants)
        };
        let ghost opening = if as_struct {
            "struct "@
        } else {
            "enum "@
        };
        if as_struct {
            out.append("struct ");
        } else {
            out.append("enum ");
        }
        out.append(self.name.as_str());
        out.append(" {\n");
        let ghost head = old(out)@ + opening + self@.name + " {\n"@;
        let mut i: usize = 0;
        proof {
            assert(lines.take(0) =~= Seq::<Seq<char>>::empty());
            assert(out@ =~= head + concat_all(lines.take(0)));
        }
        while i < self.variants.len()
            invariant
                i <= self.variants.len(),
                lines.len() == self.variants.len(),
                lines == if as_struct {
                    variant_fields(self@.variants)
                } else {
                    variant_tags(self@.variants)
                },
                out@ == head + concat_all(lines.take(i as int)),
            decreases self.variants.len() - i,
        {
            let variant = &self.variants[i];
            if as_struct {
                variant.write_field(i, out);
            } else {
                variant.write_tag(i, out);
            }
            proof {
                assert(self@.variants[i as int] == variant@);
                assert(lines.take(i as int + 1) =~= lines.take(i as int).push(lines[i as int]));
                lemma_concat_all_push(lines.take(i as int), lines[i as int]);
                assert(out@ =~= head + concat_all(lines.take(i as int + 1)));
            }
            i += 1;
        }
        out.append("}\n\n");
        proof {
            assert(lines.take(i as int) =~= lines);
            assert(out@ =~= old(out)@ + rendered_enum(self@));
        }
    }
}

/// Appends the parameters to `out`, separated by a comma and a space.
pub fn write_params(params: &Vec<Param>, out: &mut String)
    ensures
        final(out)@ == old(out)@ + rendered_params(param_views(params@)),
{
    let ghost all = param_views(params@);
    let mut j: usize = 0;
    proof {
        assert(all.take(0) =~= Seq::<ParamView>::empty());
        assert(out@ =~= old(out)@ + rendered_params(all.take(0)));
    }
    while j < params.len()
        invariant
            j <= params.len(),
            all == param_views(params@),
            out@ == old(out)@ + rendered_params(all.take(j as int)),
        decreases params.len() - j,
    {
        let param = &params[j];
        let ghost sofar = rendered_params(all.take(j as int));
        let ghost upto = all.take(j as int + 1);
        proof {
            assert(upto.drop_last() =~= all.take(j as int));
            assert(upto.last() == param@);
        }
        if j > 0 {
            out.append(", ");
        }
        out.append(param.name.as_str());
        out.append(" :");
        param.ty.write(out);
        proof {
            if j == 0 {
                assert(sofar =~= Seq::<char>::empty());
                assert(upto[0] == param@);
                assert(rendered_params(upto) == rendered_param(param@));
                assert(out@ =~= old(out)@ + rendered_params(upto));
            } else {
                assert(rendered_params(upto) == sofar + ", "@ + rendered_param(param@));
                assert(out@ =~= old(out)@ + rendered_params(upto));
            }
        }
        j += 1;
    }
    proof {
        assert(all.take(j as int) =~= all);
    }
}

impl Method {
    /// Appends the line of the method to `out`.
    pub fn write(&self, out: &mut String)
        ensures
            final(out)@ == old(out)@ + rendered_method(self@),
    {
        out.append("  ");
        out.append(self.name.as_str());
        out.append(" @");
        push_decimal(out, self.id);
        out.append(" (");
        write_params(&self.params, out);
        out.append(")");
        let ghost opened = out@;
        match &self.ret {
            Some(ty) => {
                out.append(" -> ");
                ty.write(out);
            },
            None => {},
        }
        assert(out@ =~= opened + rendered_return(self@.ret));
        out.append(";\n");
        assert(out@ =~= old(out)@ + rendered_method(self@));
    }
}

impl CapnpInterface {
    /// Appends the declaration of the interface to `out`.
    pub fn write(&self, out: &mut String)
        ensures
            final(out)@ == old(out)@ + rendered_interface(self@),
    {
        let ghost lines = self@.methods.map_values(|m: MethodView| rendered_method(m));
        out.append("interface ");
        out.append(self.name.as_str());
        out.append(" {\n");
        let ghost head = old(out)@ + "interface "@ + self@.name + " {\n"@;
        let mut i: usize = 0;
        proof {
            assert(lines.take(0) =~= Seq::<Seq<char>>::empty());
            assert(out@ =~= head + concat_all(lines.take(0)));
        }
        while i < self.methods.len()
            invariant
                i <= self.methods.len(),
                lines == self@.methods.map_values(|m: MethodView| rendered_method(m)),
                out@ == head + concat_all(lines.take(i as int)),
            decreases self.methods.len() - i,
        {
            let method = &self.methods[i];
            method.write(out);
            proof {
                assert(self@.methods[i as int] == method@);
                assert(lines[i as int] == rendered_method(method@));
                assert(lines.take(i as int + 1) =~= lines.take(i as int).push(lines[i as int]));
                lemma_concat_all_push(lines.take(i as int), lines[i as int]);
                assert(out@ =~= head + concat_all(lines.take(i as int + 1)));
            }
            i += 1;
        }
        out.append("}\n\n");
        proof {
            assert(lines.take(i as int) =~= lines);
            assert(out@ =~= old(out)@ + rendered_interface(self@));
        }
    }
}

/// The text of the schema: the header, then every sum type, then every
/// record in the order given, then every interface.
pub fn write_schema(
    enums: &Vec<CapnpEnum>,
    structs: &Vec<&CapnpStruct>,
    interfaces: &Vec<CapnpInterface>,
) -> (r: String)
    ensures
        r@ == rendered_schema(
            enum_views(enums@),
            borrowed_views(structs@),
            interface_views(interfaces@),
        ),
{
    let ghost enum_parts = enum_views(enums@).map_values(|e: EnumView| rendered_enum(e));
    let ghost struct_parts = borrowed_views(structs@).map_values(
        |s: StructView| rendered_struct(s),
    );
    let ghost interface_parts = interface_views(interfaces@).map_values(
        |i: InterfaceView| rendered_interface(i),
    );
    let mut out = String::new();
    out.append("@0xabcdefabcdefabcdef;\n\n");
    let ghost head = schema_header();
    let mut i: usize = 0;
    proof {
        assert(enum_parts.take(0) =~= Seq::<Seq<char>>::empty());
        assert(out@ =~= head + concat_all(enum_parts.take(0)));
    }
    while i < enums.len()
        invariant
            i <= enums.len(),
            enum_parts == enum_views(enums@).map_values(|e: EnumView| rendered_enum(e)),
            out@ == head + concat_all(enum_parts.take(i as int)),
        decreases enums.len() - i,
    {
        enums[i].write(&mut out);
        proof {
            assert(enum_parts[i as int] == rendered_enum(enums[i as int]@));
            assert(enum_parts.take(i as int + 1) =~= enum_parts.take(i as int).push(
                enum_parts[i as int],
            ));
            lemma_concat_all_push(enum_parts.take(i as int), enum_parts[i as int]);
            assert(out@ =~= head + concat_all(enum_parts.take(i as int + 1)));
        }
        i += 1;
    }
    let ghost head = head + concat_all(enum_parts);
    let mut i: usize = 0;
    proof {
        assert(enum_parts.take(enums.len() as int) =~= enum_parts);
        assert(struct_parts.take(0) =~= Seq::<Seq<char>>::empty());
        assert(out@ =~= head + concat_all(struct_parts.take(0)));
    }
    while i < structs.len()
        invariant
            i <= structs.len(),
            struct_parts == borrowed_views(structs@).map_values(
                |s: StructView| rendered_struct(s),
            ),
            out@ == head + concat_all(struct_parts.take(i as int)),
        decreases structs.len() - i,
    {
        structs[i].write(&mut out);
        proof {
            assert(struct_parts[i as int] == rendered_struct(structs[i as int]@));
            assert(struct_parts.take(i as int + 1) =~= struct_parts.take(i as int).push(
                struct_parts[i as int],
            ));
            lemma_concat_all_push(struct_parts.take(i as int), struct_parts[i as int]);
            assert(out@ =~= head + concat_all(struct_parts.take(i as int + 1)));
        }
        i += 1;
    }
    let ghost head = head + concat_all(struct_parts);
    let mut i: usize = 0;
    proof {
        assert(struct_parts.take(structs.len() as int) =~= struct_parts);
        assert(interface_parts.take(0) =~= Seq::<Seq<char>>::empty());
        assert(out@ =~= head + concat_all(interface_parts.take(0)));
    }
    while i < interfaces.len()
        invariant
            i <= interfaces.len(),
            interface_parts == interface_views(interfaces@).map_values(
                |i: InterfaceView| rendered_interface(i),
            ),
            out@ == head + concat_all(interface_parts.take(i as int)),
        decreases interfaces.len() - i,
    {
        interfaces[i].write(&mut out);
        proof {
            assert(interface_parts[i as int] == rendered_interface(interfaces[i as int]@));
            assert(interface_parts.take(i as int + 1) =~= interface_parts.take(i as int).push(
                interface_parts[i as int],
            ));
            lemma_concat_all_push(interface_parts.take(i as int), interface_parts[i as int]);
            assert(out@ =~= head + concat_all(interface_parts.take(i as int + 1)));
        }
        i += 1;
    }
    proof {
        assert(interface_parts.take(interfaces.len() as int) =~= interface_parts);
    }
    out
}

} // verus!
