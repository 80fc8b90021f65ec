//! The declaration model: what the front end captures from the annotated
//! declarations of the host language, in plain values.

use vstd::prelude::*;
use vstd::string::*;
use crate::text::{same_text, views};

verus! {

/// The type of a field, payload, parameter or result, as the host language
/// writes it.
#[derive(Debug, PartialEq, Eq)]
pub enum HostType {
    /// A type written as a path: the identifier of its last segment, and
    /// its first type argument where the path has one.
    Named { name: String, arg: Option<Box<HostType>> },
    /// A fixed-size array of the given element type.
    Array(Box<HostType>),
    /// Any other shape: a reference, a tuple, a path with a qualified self
    /// type, and so on.
    Unsupported,
}

/// The view of a [`HostType`].
pub ghost enum HostTypeView {
    Named { name: Seq<char>, arg: Option<Box<HostTypeView>> },
    Array(Box<HostTypeView>),
    Unsupported,
}

impl View for HostType {
    type V = HostTypeView;

    open spec fn view(&self) -> HostTypeView
        decreases self,
    {
        match self {
            HostType::Named { name, arg } => HostTypeView::Named {
                name: name@,
                arg: match arg {
                    Some(inner) => Some(Box::new((**inner).view())),
                    None => None,
                },
            },
            HostType::Array(elem) => HostTypeView::Array(Box::new((**elem).view())),
            HostType::Unsupported => HostTypeView::Unsupported,
        }
    }
}

impl HostType {
    /// A copy of the type.
    pub fn duplicate(&self) -> (r: HostType)
        ensures
            r@ == self@,
        decreases self,
    {
        match self {
            HostType::Named { name, arg } => {
                let copied = match arg {
                    Some(inner) => Some(Box::new(inner.duplicate())),
                    None => None,
                };
                HostType::Named { name: name.clone(), arg: copied }
            },
            HostType::Array(elem) => HostType::Array(Box::new(elem.duplicate())),
            HostType::Unsupported => HostType::Unsupported,
        }
    }
}

impl Clone for HostType {
    fn clone(&self) -> (r: HostType)
        ensures
            r@ == self@,
    {
        self.duplicate()
    }
}

/// The view of an optional host type.
pub open spec fn host_type_option_view(ty: Option<HostType>) -> Option<HostTypeView> {
    match ty {
        Some(t) => Some(t@),
        None => None,
    }
}

/// The form in which an attribute is written.
#[derive(Clone, Copy, Debug, PartialEq, Eq, Structural)]
pub enum AttrStyle {
    /// A bare path, as in `#[capnp]`.
    Path,
    /// A path with a list of arguments, as in `#[derive(Debug)]`.
    List,
    /// A path with a value, as in `#[doc = "text"]`.
    NameValue,
}

/// An attribute on a declaration.
#[derive(Clone, Debug, PartialEq, Eq)]
pub struct Attribute {
    /// The identifier of the last segment of the attribute's path.
    pub name: String,
    pub style: AttrStyle,
    /// For a list of paths, the identifier of the last segment of each.
    pub args: Vec<String>,
}

/// The view of an [`Attribute`].
pub ghost struct AttributeView {
    pub name: Seq<char>,
    pub style: AttrStyle,
    pub args: Seq<Seq<char>>,
}

impl View for Attribute {
    type V = AttributeView;

    open spec fn view(&self) -> AttributeView {
        AttributeView { name: self.name@, style: self.style, args: views(self.args@) }
    }
}

/// The views of a list of attributes.
pub open spec fn attribute_views(attrs: Seq<Attribute>) -> Seq<AttributeView> {
    attrs.map_values(|a: Attribute| a@)
}

/// A named field of a struct declaration.
#[derive(Clone, Debug, PartialEq, Eq)]
pub struct FieldDecl {
    pub name: String,
    pub ty: HostType,
}

/// The view of a [`FieldDecl`].
pub ghost struct FieldDeclView {
    pub name: Seq<char>,
    pub ty: HostTypeView,
}

impl View for FieldDecl {
    type V = FieldDeclView;

    open spec fn view(&self) -> FieldDeclView {
        FieldDeclView { name: self.name@, ty: self.ty@ }
    }
}

/// A struct declaration with named fields.
#[derive(Clone, Debug, PartialEq, Eq)]
pub struct StructDecl {
    pub name: String,
    pub attrs: Vec<Attribute>,
    pub fields: Vec<FieldDecl>,
}

/// The view of a [`StructDecl`].
pub ghost struct StructDeclView {
    pub name: Seq<char>,
    pub attrs: Seq<AttributeView>,
    pub fields: Seq<FieldDeclView>,
}

impl View for StructDecl {
    type V = StructDeclView;

    open spec fn view(&self) -> StructDeclView {
        StructDeclView {
            name: self.name@,
            attrs: attribute_views(self.attrs@),
            fields: field_decl_views(self.fields@),
        }
    }
}

/// A variant of an enum declaration, with the types of its unnamed fields.
#[derive(Clone, Debug, PartialEq, Eq)]
pub struct VariantDecl {
    pub name: String,
    pub payload: Vec<HostType>,
}

/// The view of a [`VariantDecl`].
pub ghost struct VariantDeclView {
    pub name: Seq<char>,
    pub payload: Seq<HostTypeView>,
}

impl View for VariantDecl {
    type V = VariantDeclView;

    open spec fn view(&self) -> VariantDeclView {
        VariantDeclView { name: self.name@, payload: host_type_views(self.payload@) }
    }
}

/// An enum declaration.
#[derive(Clone, Debug, PartialEq, Eq)]
pub struct EnumDecl {
    pub name: String,
    pub attrs: Vec<Attribute>,
    pub variants: Vec<VariantDecl>,
}

/// The view of an [`EnumDecl`].
pub ghost struct EnumDeclView {
    pub name: Seq<char>,
    pub attrs: Seq<AttributeView>,
    pub variants: Seq<VariantDeclView>,
}

impl View for EnumDecl {
    type V = EnumDeclView;

    open spec fn view(&self) -> EnumDeclView {
        EnumDeclView {
            name: self.name@,
            attrs: attribute_views(self.attrs@),
            variants: variant_decl_views(self.variants@),
        }
    }
}

/// A parameter of a method signature that binds a plain identifier.
#[derive(Clone, Debug, PartialEq, Eq)]
pub struct ParamDecl {
    pub name: String,
    pub ty: HostType,
}

/// The view of a [`ParamDecl`].
pub ghost struct ParamDeclView {
    pub name: Seq<char>,
    pub ty: HostTypeView,
}

impl View for ParamDecl {
    type V = ParamDeclView;

    open spec fn view(&self) -> ParamDeclView {
        ParamDeclView { name: self.name@, ty: self.ty@ }
    }
}

/// A method signature of a trait declaration.
#[derive(Clone, Debug, PartialEq, Eq)]
pub struct MethodDecl {
    pub name: String,
    pub params: Vec<ParamDecl>,
    /// The declared result type; `None` where the signature names none.
    pub ret: Option<HostType>,
}

/// The view of a [`MethodDecl`].
pub ghost struct MethodDeclView {
    pub name: Seq<char>,
    pub params: Seq<ParamDeclView>,
    pub ret: Option<HostTypeView>,
}

impl View for MethodDecl {
    type V = MethodDeclView;

    open spec fn view(&self) -> MethodDeclView {
        MethodDeclView {
            name: self.name@,
            params: param_decl_views(self.params@),
            ret: host_type_option_view(self.ret),
        }
    }
}

/// A trait declaration.
#[derive(Clone, Debug, PartialEq, Eq)]
pub struct TraitDecl {
    pub name: String,
    pub attrs: Vec<Attribute>,
    pub methods: Vec<MethodDecl>,
}

/// The view of a [`TraitDecl`].
pub ghost struct TraitDeclView {
    pub name: Seq<char>,
    pub attrs: Seq<AttributeView>,
    pub methods: Seq<MethodDeclView>,
}

impl View for TraitDecl {
    type V = TraitDeclView;

    open spec fn view(&self) -> TraitDeclView {
        TraitDeclView {
            name: self.name@,
            attrs: attribute_views(self.attrs@),
            methods: method_decl_views(self.methods@),
        }
    }
}

/// One captured declaration.
#[derive(Clone, Debug, PartialEq, Eq)]
pub enum Item {
    Struct(StructDecl),
    Enum(EnumDecl),
    Trait(TraitDecl),
}

/// The view of an [`Item`].
pub ghost enum ItemView {
    Struct(StructDeclView),
    Enum(EnumDeclView),
    Trait(TraitDeclView),
}

impl View for Item {
    type V = ItemView;

    open spec fn view(&self) -> ItemView {
        match self {
            Item::Struct(s) => ItemView::Struct(s@),
            Item::Enum(e) => ItemView::Enum(e@),
            Item::Trait(t) => ItemView::Trait(t@),
        }
    }
}

/// The views of a list of field declarations.
pub open spec fn field_decl_views(fields: Seq<FieldDecl>) -> Seq<FieldDeclView> {
    fields.map_values(|f: FieldDecl| f@)
}

/// The views of a list of host types.
pub open spec fn host_type_views(types: Seq<HostType>) -> Seq<HostTypeView> {
    types.map_values(|t: HostType| t@)
}

/// The views of a list of variant declarations.
pub open spec fn variant_decl_views(variants: Seq<VariantDecl>) -> Seq<VariantDeclView> {
    variants.map_values(|v: VariantDecl| v@)
}

/// The views of a list of parameter declarations.
pub open spec fn param_decl_views(params: Seq<ParamDecl>) -> Seq<ParamDeclView> {
    params.map_values(|p: ParamDecl| p@)
}

/// The views of a list of method declarations.
pub open spec fn method_decl_views(methods: Seq<MethodDecl>) -> Seq<MethodDeclView> {
    methods.map_values(|m: MethodDecl| m@)
}

/// The views of a list of declarations.
pub open spec fn item_views(items: Seq<Item>) -> Seq<ItemView> {
    items.map_values(|i: Item| i@)
}

/// Whether the attribute marks a declaration for the schema.
pub open spec fn marks_capnp(attr: AttributeView) -> bool {
    attr.name == "capnp"@
}

/// Whether the attribute is a derive list that names one of the two traits
/// of the out-of-band serialisation.
pub open spec fn derives_serde(attr: AttributeView) -> bool {
    &&& attr.name == "derive"@
    &&& attr.style == AttrStyle::List
    &&& exists|j: int|
        0 <= j < attr.args.len() && (#[trigger] attr.args[j] == "Serialize"@ || attr.args[j]
            == "Deserialize"@)
}

/// Whether the attribute shows that the declaration supports the
/// out-of-band serialisation.
pub open spec fn marks_serde(attr: AttributeView) -> bool {
    attr.name == "serde"@ || derives_serde(attr)
}

/// Whether the attribute asks for the declaration to be carried as bytes.
pub open spec fn marks_bytes(attr: AttributeView) -> bool {
    attr.style == AttrStyle::Path && attr.name == "capnp_bytes"@
}

/// What the attributes of a declaration say of it: whether one of them
/// marks it for the schema, and whether one of them shows support for the
/// out-of-band serialisation.
pub open spec fn attr_flags(attrs: Seq<AttributeView>) -> (bool, bool) {
    (
        exists|i: int| 0 <= i < attrs.len() && marks_capnp(#[trigger] attrs[i]),
        exists|i: int| 0 <= i < attrs.len() && marks_serde(#[trigger] attrs[i]),
    )
}

/// The three attribute names that `has_attrs` looks for are different texts.
proof fn lemma_attribute_names_differ()
    ensures
        "capnp"@ != "serde"@,
        "capnp"@ != "derive"@,
        "derive"@ != "serde"@,
{
    reveal_strlit("capnp");
    reveal_strlit("serde");
    reveal_strlit("derive");
    assert("capnp"@[0] == 'c');
    assert("serde"@[0] == 's');
    assert("derive"@[0] == 'd');
}

/// Whether a derive list with these arguments names `Serialize` or
/// `Deserialize`.
fn names_serde_trait(args: &Vec<String>) -> (r: bool)
    ensures
        r <==> exists|j: int|
            0 <= j < args.len() && (#[trigger] views(args@)[j] == "Serialize"@ || views(args@)[j]
                == "Deserialize"@),
{
    let mut j: usize = 0;
    while j < args.len()
        invariant
            j <= args.len(),
            forall|k: int|
                0 <= k < j ==> !(#[trigger] views(args@)[k] == "Serialize"@ || views(args@)[k]
                    == "Deserialize"@),
        decreases args.len() - j,
    {
        if same_text(args[j].as_str(), "Serialize") || same_text(args[j].as_str(), "Deserialize") {
            assert(views(args@)[j as int] == args[j as int]@);
            return true;
        }
        j += 1;
    }
    false
}

/// Reads the attributes of a declaration. The first flag says whether one
/// of them is `capnp`; the second whether one of them is `serde`, or a
/// derive list that names `Serialize` or `Deserialize`.
pub fn has_attrs(attrs: &Vec<Attribute>) -> (r: (bool, bool))
    ensures
        r == attr_flags(attribute_views(attrs@)),
{
    let mut capnp = false;
    let mut serde = false;
    let mut i: usize = 0;
    let ghost all = attribute_views(attrs@);
    while i < attrs.len()
        invariant
            i <= attrs.len(),
            all == attribute_views(attrs@),
            capnp <==> exists|k: int| 0 <= k < i && marks_capnp(#[trigger] all[k]),
            serde <==> exists|k: int| 0 <= k < i && marks_serde(#[trigger] all[k]),
        decreases attrs.len() - i,
    {
        let attr = &attrs[i];
        assert(all[i as int] == attr@);
        let name = attr.name.as_str();
        let mut marks = false;
        if same_text(name, "capnp") {
            capnp = true;
        } else if same_text(name, "serde") {
            marks = true;
        } else if same_text(name, "derive") {
            match attr.style {
                AttrStyle::List => {
                    marks = names_serde_trait(&attr.args);
                },
                _ => {},
            }
        }
        proof {
            lemma_attribute_names_differ();
            if attr.name@ == "derive"@ && attr.style == AttrStyle::List {
                assert(attr@.args == views(attr.args@));
            } else {
                assert(!derives_serde(attr@));
            }
        }
        serde = serde || marks;
        i += 1;
    }
    (capnp, serde)
}

/// Whether one of the attributes is the bare path `capnp_bytes`.
pub fn has_capnp_bytes_attr(attrs: &Vec<Attribute>) -> (r: bool)
    ensures
        r <==> exists|i: int|
            0 <= i < attrs.len() && marks_bytes(#[trigger] attribute_views(attrs@)[i]),
{
    let mut i: usize = 0;
    let ghost all = attribute_views(attrs@);
    while i < attrs.len()
        invariant
            i <= attrs.len(),
            all == attribute_views(attrs@),
            forall|k: int| 0 <= k < i ==> !marks_bytes(#[trigger] all[k]),
        decreases attrs.len() - i,
    {
        let attr = &attrs[i];
        assert(all[i as int] == attr@);
        let bare = match attr.style {
            AttrStyle::Path => true,
            _ => false,
        };
        if bare && same_text(attr.name.as_str(), "capnp_bytes") {
            return true;
        }
        i += 1;
    }
    false
}

} // verus!
