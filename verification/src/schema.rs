//! The schema nodes: what is written to the schema text, and the
//! mathematical view of each node that the contracts speak of.

use vstd::prelude::*;
use vstd::string::*;
use crate::text::views;

verus! {

/// The primitive kinds of the schema language.
#[derive(Clone, Copy, Debug, PartialEq, Eq, Structural)]
pub enum PrimitiveType {
    Text,
    UInt32,
    UInt64,
    Bool,
    Float32,
    Float64,
}

/// A type as the schema language knows it.
#[derive(Debug, PartialEq, Eq)]
pub enum CapnpType {
    /// One of the primitive kinds.
    Primitive(PrimitiveType),
    /// A reference to a declared record, by its name.
    Struct(String),
    /// A homogeneous sequence.
    List(Box<CapnpType>),
    /// A value that may be absent.
    Optional(Box<CapnpType>),
    /// A named type without a shape of its own in the schema, carried as
    /// raw bytes.
    Bytes(String),
}

/// The view of a [`CapnpType`].
pub ghost enum TypeView {
    Primitive(PrimitiveType),
    Struct(Seq<char>),
    List(Box<TypeView>),
    Optional(Box<TypeView>),
    Bytes(Seq<char>),
}

impl View for CapnpType {
    type V = TypeView;

    open spec fn view(&self) -> TypeView
        decreases self,
    {
        match self {
            CapnpType::Primitive(p) => TypeView::Primitive(*p),
            CapnpType::Struct(name) => TypeView::Struct(name@),
            CapnpType::List(inner) => TypeView::List(Box::new((**inner).view())),
            CapnpType::Optional(inner) => TypeView::Optional(Box::new((**inner).view())),
            CapnpType::Bytes(name) => TypeView::Bytes(name@),
        }
    }
}

impl CapnpType {
    /// A copy of the type.
    pub fn duplicate(&self) -> (r: CapnpType)
        ensures
            r@ == self@,
        decreases self,
    {
        match self {
            CapnpType::Primitive(p) => CapnpType::Primitive(*p),
            CapnpType::Struct(name) => CapnpType::Struct(name.clone()),
            CapnpType::List(inner) => CapnpType::List(Box::new(inner.duplicate())),
            CapnpType::Optional(inner) => CapnpType::Optional(Box::new(inner.duplicate())),
            CapnpType::Bytes(name) => CapnpType::Bytes(name.clone()),
        }
    }
}

impl Clone for CapnpType {
    fn clone(&self) -> (r: CapnpType)
        ensures
            r@ == self@,
    {
        self.duplicate()
    }
}

/// A field of a record.
#[derive(Clone, Debug, PartialEq, Eq)]
pub struct Field {
    pub name: String,
    /// The ordinal: the position of the field in its declaration.
    pub id: usize,
    pub ty: CapnpType,
}

/// The view of a [`Field`].
pub ghost struct FieldView {
    pub name: Seq<char>,
    pub id: nat,
    pub ty: TypeView,
}

impl View for Field {
    type V = FieldView;

    open spec fn view(&self) -> FieldView {
        FieldView { name: self.name@, id: self.id as nat, ty: self.ty@ }
    }
}

/// A record: a named aggregate of fields.
#[derive(Clone, Debug, PartialEq, Eq)]
pub struct CapnpStruct {
    pub name: String,
    pub fields: Vec<Field>,
    /// Whether the declaration also supports the out-of-band serialisation.
    pub has_serde: bool,
}

/// The view of a [`CapnpStruct`].
pub ghost struct StructView {
    pub name: Seq<char>,
    pub fields: Seq<FieldView>,
    pub has_serde: bool,
}

impl View for CapnpStruct {
    type V = StructView;

    open spec fn view(&self) -> StructView {
        StructView {
            name: self.name@,
            fields: field_views(self.fields@),
            has_serde: self.has_serde,
        }
    }
}

/// A variant of a sum type, with the type of its payload if it has one.
#[derive(Clone, Debug, PartialEq, Eq)]
pub struct Variant {
    pub name: String,
    pub ty: Option<CapnpType>,
}

/// The view of a [`Variant`].
pub ghost struct VariantView {
    pub name: Seq<char>,
    pub ty: Option<TypeView>,
}

impl View for Variant {
    type V = VariantView;

    open spec fn view(&self) -> VariantView {
        VariantView {
            name: self.name@,
            ty: type_option_view(self.ty),
        }
    }
}

/// A sum type: exactly one of several named variants.
#[derive(Clone, Debug, PartialEq, Eq)]
pub struct CapnpEnum {
    pub name: String,
    pub variants: Vec<Variant>,
}

/// The view of a [`CapnpEnum`].
pub ghost struct EnumView {
    pub name: Seq<char>,
    pub variants: Seq<VariantView>,
}

impl View for CapnpEnum {
    type V = EnumView;

    open spec fn view(&self) -> EnumView {
        EnumView { name: self.name@, variants: variant_views(self.variants@) }
    }
}

/// A parameter of a method.
#[derive(Clone, Debug, PartialEq, Eq)]
pub struct Param {
    pub name: String,
    pub ty: CapnpType,
}

/// The view of a [`Param`].
pub ghost struct ParamView {
    pub name: Seq<char>,
    pub ty: TypeView,
}

impl View for Param {
    type V = ParamView;

    open spec fn view(&self) -> ParamView {
        ParamView { name: self.name@, ty: self.ty@ }
    }
}

/// A method of an interface.
#[derive(Clone, Debug, PartialEq, Eq)]
pub struct Method {
    pub name: String,
    /// The ordinal: the position of the method in its declaration.
    pub id: usize,
    pub params: Vec<Param>,
    pub ret: Option<CapnpType>,
}

/// The view of a [`Method`].
pub ghost struct MethodView {
    pub name: Seq<char>,
    pub id: nat,
    pub params: Seq<ParamView>,
    pub ret: Option<TypeView>,
}

impl View for Method {
    type V = MethodView;

    open spec fn view(&self) -> MethodView {
        MethodView {
            name: self.name@,
            id: self.id as nat,
            params: param_views(self.params@),
            ret: type_option_view(self.ret),
        }
    }
}

/// A service interface: a named list of methods.
#[derive(Clone, Debug, PartialEq, Eq)]
pub struct CapnpInterface {
    pub name: String,
    pub methods: Vec<Method>,
}

/// The view of a [`CapnpInterface`].
pub ghost struct InterfaceView {
    pub name: Seq<char>,
    pub methods: Seq<MethodView>,
}

impl View for CapnpInterface {
    type V = InterfaceView;

    open spec fn view(&self) -> InterfaceView {
        InterfaceView { name: self.name@, methods: method_views(self.methods@) }
    }
}

/// Every field has its position as its ordinal.
pub open spec fn fields_numbered(fields: Seq<FieldView>) -> bool {
    forall|i: int| 0 <= i < fields.len() ==> (#[trigger] fields[i]).id == i
}

/// Every method has its position as its ordinal.
pub open spec fn methods_numbered(methods: Seq<MethodView>) -> bool {
    forall|i: int| 0 <= i < methods.len() ==> (#[trigger] methods[i]).id == i
}

/// The views of a list of fields.
pub open spec fn field_views(fields: Seq<Field>) -> Seq<FieldView> {
    fields.map_values(|f: Field| f@)
}

/// The views of a list of variants.
pub open spec fn variant_views(variants: Seq<Variant>) -> Seq<VariantView> {
    variants.map_values(|v: Variant| v@)
}

/// The views of a list of parameters.
pub open spec fn param_views(params: Seq<Param>) -> Seq<ParamView> {
    params.map_values(|p: Param| p@)
}

/// The views of a list of methods.
pub open spec fn method_views(methods: Seq<Method>) -> Seq<MethodView> {
    methods.map_values(|m: Method| m@)
}

/// The views of a list of records.
pub open spec fn struct_views(structs: Seq<CapnpStruct>) -> Seq<StructView> {
    structs.map_values(|s: CapnpStruct| s@)
}

/// The views of a list of sum types.
pub open spec fn enum_views(enums: Seq<CapnpEnum>) -> Seq<EnumView> {
    enums.map_values(|e: CapnpEnum| e@)
}

/// The views of a list of interfaces.
pub open spec fn interface_views(interfaces: Seq<CapnpInterface>) -> Seq<InterfaceView> {
    interfaces.map_values(|i: CapnpInterface| i@)
}

/// The view of an optional schema type.
pub open spec fn type_option_view(ty: Option<CapnpType>) -> Option<TypeView> {
    match ty {
        Some(t) => Some(t@),
        None => None,
    }
}

/// The view of an optional name.
pub open spec fn name_view(name: Option<String>) -> Option<Seq<char>> {
    match name {
        Some(n) => Some(n@),
        None => None,
    }
}

/// The record that a type refers to: the name under any number of list and
/// optional wrappers, if a record reference stands there.
pub open spec fn record_name(ty: TypeView) -> Option<Seq<char>>
    decreases ty,
{
    match ty {
        TypeView::Struct(name) => Some(name),
        TypeView::List(inner) => record_name(*inner),
        TypeView::Optional(inner) => record_name(*inner),
        _ => None,
    }
}

/// The names of the records that the fields refer to, each once, in the
/// order in which the fields first mention them.
pub open spec fn dependency_names(fields: Seq<FieldView>) -> Seq<Seq<char>>
    decreases fields.len(),
{
    if fields.len() == 0 {
        Seq::empty()
    } else {
        let before = dependency_names(fields.drop_last());
        match record_name(fields.last().ty) {
            Some(name) => if before.contains(name) {
                before
            } else {
                before.push(name)
            },
            None => before,
        }
    }
}

/// A name is among the dependency names exactly if some field refers to it,
/// and no name is listed twice.
pub proof fn lemma_dependency_names(fields: Seq<FieldView>)
    ensures
        dependency_names(fields).no_duplicates(),
        forall|name: Seq<char>| #[trigger]
            dependency_names(fields).contains(name) <==> exists|k: int|
                0 <= k < fields.len() && #[trigger] record_name(fields[k].ty) == Some(name),
    decreases fields.len(),
{
    if fields.len() > 0 {
        let head = fields.drop_last();
        let before = dependency_names(head);
        let after = dependency_names(fields);
        lemma_dependency_names(head);
        let last = record_name(fields.last().ty);
        assert forall|name: Seq<char>| #[trigger]
            after.contains(name) <==> exists|k: int|
                0 <= k < fields.len() && #[trigger] record_name(fields[k].ty) == Some(
                    name,
                ) by {
            if after.contains(name) {
                if before.contains(name) {
                    let k = choose|k: int|
                        0 <= k < head.len() && #[trigger] record_name(head[k].ty) == Some(name);
                    assert(record_name(fields[k].ty) == Some(name));
                } else {
                    let i = choose|i: int| 0 <= i < after.len() && after[i] == name;
                    assert(last == Some(name));
                    assert(record_name(fields[fields.len() - 1].ty) == Some(name));
                }
            }
            if exists|k: int|
                0 <= k < fields.len() && #[trigger] record_name(fields[k].ty) == Some(name) {
                let k = choose|k: int|
                    0 <= k < fields.len() && #[trigger] record_name(fields[k].ty) == Some(name);
                if k < head.len() {
                    assert(record_name(head[k].ty) == Some(name));
                    assert(before.contains(name));
                    let i = choose|i: int| 0 <= i < before.len() && before[i] == name;
                    assert(after[i] == name);
                } else {
                    assert(last == Some(name));
                    if !before.contains(name) {
                        assert(after[after.len() - 1] == name);
                    }
                }
            }
        }
    }
}

/// Whether `name` is among `names`.
pub fn contains_name(names: &Vec<String>, name: &String) -> (r: bool)
    ensures
        r == views(names@).contains(name@),
{
    let mut i: usize = 0;
    while i < names.len()
        invariant
            i <= names.len(),
            forall|k: int| 0 <= k < i ==> views(names@)[k] != name@,
        decreases names.len() - i,
    {
        if names[i] == *name {
            assert(views(names@)[i as int] == name@);
            return true;
        }
        i += 1;
    }
    false
}

/// The name of the record that `ty` refers to, looking through list and
/// optional wrappers of any depth.
pub fn get_struct_name(ty: &CapnpType) -> (r: Option<String>)
    ensures
        name_view(r) == record_name(ty@),
    decreases ty,
{
    match ty {
        CapnpType::Struct(name) => Some(name.clone()),
        CapnpType::List(inner) => get_struct_name(inner),
        CapnpType::Optional(inner) => get_struct_name(inner),
        _ => None,
    }
}

impl CapnpStruct {
    /// The names of the records that this record refers to, each once, in
    /// the order in which the fields first mention them.
    pub fn dependencies(&self) -> (r: Vec<String>)
        ensures
            views(r@) == dependency_names(self@.fields),
    {
        let mut out: Vec<String> = Vec::new();
        let mut i: usize = 0;
        proof {
            assert(self@.fields.take(0) =~= Seq::<FieldView>::empty());
            assert(views(out@) =~= Seq::<Seq<char>>::empty());
        }
        while i < self.fields.len()
            invariant
                i <= self.fields.len(),
                views(out@) == dependency_names(self@.fields.take(i as int)),
            decreases self.fields.len() - i,
        {
            let ghost before = views(out@);
            proof {
                let upto = self@.fields.take(i as int + 1);
                assert(upto.drop_last() =~= self@.fields.take(i as int));
                assert(upto.last() == self.fields[i as int]@);
            }
            match get_struct_name(&self.fields[i].ty) {
                Some(name) => {
                    if !contains_name(&out, &name) {
                        out.push(name);
                        assert(views(out@) =~= before.push(name@));
                    }
                },
                None => {},
            }
            i += 1;
        }
        proof {
            assert(self@.fields.take(i as int) =~= self@.fields);
        }
        out
    }
}

/// Whether a sum type of the given name is among `enums`.
pub fn is_enum(enums: &Vec<CapnpEnum>, name: &str) -> (r: bool)
    ensures
        r <==> exists|k: int| 0 <= k < enums.len() && #[trigger] enums[k].name@ == name@,
{
    let wanted = name.to_owned();
    let mut i: usize = 0;
    while i < enums.len()
        invariant
            i <= enums.len(),
            wanted@ == name@,
            forall|k: int| 0 <= k < i ==> #[trigger] enums[k].name@ != name@,
        decreases enums.len() - i,
    {
        if enums[i].name == wanted {
            return true;
        }
        i += 1;
    }
    false
}

} // verus!
