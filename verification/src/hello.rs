//! A small greeting service: two records and an interface, as a worked
//! example of declarations that the generator is run on, and the reply that
//! the service gives.

use vstd::prelude::*;
use vstd::string::*;
use crate::decl::{AttrStyle, Attribute, AttributeView, FieldDecl, FieldDeclView, HostType,
    HostTypeView, Item, ItemView, MethodDecl, MethodDeclView, ParamDecl, ParamDeclView,
    StructDecl, StructDeclView, TraitDecl, TraitDeclView, item_views};
use crate::text::{decimal, push_decimal};

verus! {

/// What a caller tells of itself. The type has no shape of its own in the
/// schema: a request carries it as bytes.
#[derive(Clone, Debug, PartialEq, Eq)]
pub struct Information {
    pub major: String,
    pub age: u32,
}

/// The request of the greeting service.
#[derive(Clone, Debug, PartialEq, Eq)]
pub struct HelloRequest {
    pub name: String,
    pub information: Information,
}

/// The reply of the greeting service.
#[derive(Clone, Debug, PartialEq, Eq)]
pub struct HelloReply {
    pub message: String,
}

/// The greeting service.
pub trait HelloWorld {
    /// Answers a request.
    fn say_hello(request: HelloRequest) -> HelloReply;
}

/// The greeting for a caller of the given name, major and age.
pub open spec fn greeting(name: Seq<char>, major: Seq<char>, age: nat) -> Seq<char> {
    "Hello, "@ + name + "! Your major is "@ + major + " and you are "@ + decimal(age)
        + " years old."@
}

/// The service that greets every caller by name.
pub struct HelloWorldImpl;

impl HelloWorld for HelloWorldImpl {
    fn say_hello(request: HelloRequest) -> (reply: HelloReply)
        ensures
            reply.message@ == greeting(
                request.name@,
                request.information.major@,
                request.information.age as nat,
            ),
    {
        let mut message = String::new();
        message.append("Hello, ");
        message.append(request.name.as_str());
        message.append("! Your major is ");
        message.append(request.information.major.as_str());
        message.append(" and you are ");
        push_decimal(&mut message, request.information.age as usize);
        message.append(" years old.");
        assert(message@ =~= greeting(
            request.name@,
            request.information.major@,
            request.information.age as nat,
        ));
        HelloReply { message }
    }
}

/// The view of a type that is written as a bare name.
pub open spec fn plain_type(name: Seq<char>) -> HostTypeView {
    HostTypeView::Named { name, arg: None }
}

/// The view of the attribute that marks a declaration for the schema.
pub open spec fn capnp_mark() -> AttributeView {
    AttributeView { name: "capnp"@, style: AttrStyle::Path, args: Seq::empty() }
}

/// The view of the attribute that derives the out-of-band serialisation.
pub open spec fn serde_derive() -> AttributeView {
    AttributeView {
        name: "derive"@,
        style: AttrStyle::List,
        args: seq!["Serialize"@, "Deserialize"@],
    }
}

/// The declarations of the greeting service, as a front end captures
/// them from the host language: `Information`, which only derives the
/// out-of-band serialisation; `HelloRequest` and `HelloReply`, which are
/// marked for the schema and derive the serialisation too; and the trait
/// `HelloWorld`, which is marked for the schema.
pub open spec fn declared_items() -> Seq<ItemView> {
    seq![
        ItemView::Struct(
            StructDeclView {
                name: "Information"@,
                attrs: seq![serde_derive()],
                fields: seq![
                    FieldDeclView { name: "major"@, ty: plain_type("String"@) },
                    FieldDeclView { name: "age"@, ty: plain_type("u32"@) },
                ],
            },
        ),
        ItemView::Struct(
            StructDeclView {
                name: "HelloRequest"@,
                attrs: seq![capnp_mark(), serde_derive()],
                fields: seq![
                    FieldDeclView { name: "name"@, ty: plain_type("String"@) },
                    FieldDeclView { name: "information"@, ty: plain_type("Information"@) },
                ],
            },
        ),
        ItemView::Struct(
            StructDeclView {
                name: "HelloReply"@,
                attrs: seq![capnp_mark(), serde_derive()],
                fields: seq![FieldDeclView { name: "message"@, ty: plain_type("String"@) }],
            },
        ),
        ItemView::Trait(
            TraitDeclView {
                name: "HelloWorld"@,
                attrs: seq![capnp_mark()],
                methods: seq![
                    MethodDeclView {
                        name: "say_hello"@,
                        params: seq![
                            ParamDeclView { name: "request"@, ty: plain_type("HelloRequest"@) },
                        ],
                        ret: Some(plain_type("HelloReply"@)),
                    },
                ],
            },
        ),
    ]
}

/// A type that is written as a bare name.
fn plain(name: &str) -> (r: HostType)
    ensures
        r@ == plain_type(name@),
{
    HostType::Named { name: name.to_owned(), arg: None }
}

/// The attribute that marks a declaration for the schema.
fn mark() -> (r: Attribute)
    ensures
        r@ == capnp_mark(),
{
    let r = Attribute { name: "capnp".to_owned(), style: AttrStyle::Path, args: Vec::new() };
    assert(r@.args =~= Seq::<Seq<char>>::empty());
    r
}

/// The attribute that derives the out-of-band serialisation.
fn derive() -> (r: Attribute)
    ensures
        r@ == serde_derive(),
{
    let mut args: Vec<String> = Vec::new();
    args.push("Serialize".to_owned());
    args.push("Deserialize".to_owned());
    let r = Attribute { name: "derive".to_owned(), style: AttrStyle::List, args };
    assert(r@.args =~= seq!["Serialize"@, "Deserialize"@]);
    r
}

/// A field declaration of the given name and bare type.
fn field(name: &str, ty: &str) -> (r: FieldDecl)
    ensures
        r@ == (FieldDeclView { name: name@, ty: plain_type(ty@) }),
{
    FieldDecl { name: name.to_owned(), ty: plain(ty) }
}

/// The declarations of the greeting service, ready for a generation run.
pub fn declarations() -> (r: Vec<Item>)
    ensures
        item_views(r@) == declared_items(),
{
    let mut information_attrs: Vec<Attribute> = Vec::new();
    information_attrs.push(derive());
    let mut information_fields: Vec<FieldDecl> = Vec::new();
    information_fields.push(field("major", "String"));
    information_fields.push(field("age", "u32"));
    let information = StructDecl {
        name: "Information".to_owned(),
        attrs: information_attrs,
        fields: information_fields,
    };
    assert(information@.attrs =~= seq![serde_derive()]);
    assert(information@.fields =~= seq![
        FieldDeclView { name: "major"@, ty: plain_type("String"@) },
        FieldDeclView { name: "age"@, ty: plain_type("u32"@) },
    ]);

    let mut request_attrs: Vec<Attribute> = Vec::new();
    request_attrs.push(mark());
    request_attrs.push(derive());
    let mut request_fields: Vec<FieldDecl> = Vec::new();
    request_fields.push(field("name", "String"));
    request_fields.push(field("information", "Information"));
    let request = StructDecl {
        name: "HelloRequest".to_owned(),
        attrs: request_attrs,
        fields: request_fields,
    };
    assert(request@.attrs =~= seq![capnp_mark(), serde_derive()]);
    assert(request@.fields =~= seq![
        FieldDeclView { name: "name"@, ty: plain_type("String"@) },
        FieldDeclView { name: "information"@, ty: plain_type("Information"@) },
    ]);

    let mut reply_attrs: Vec<Attribute> = Vec::new();
    reply_attrs.push(mark());
    reply_attrs.push(derive());
    let mut reply_fields: Vec<FieldDecl> = Vec::new();
    reply_fields.push(field("message", "String"));
    let reply = StructDecl {
        name: "HelloReply".to_owned(),
        attrs: reply_attrs,
        fields: reply_fields,
    };
    assert(reply@.attrs =~= seq![capnp_mark(), serde_derive()]);
    assert(reply@.fields =~= seq![FieldDeclView { name: "message"@, ty: plain_type("String"@) }]);

    let mut params: Vec<ParamDecl> = Vec::new();
    params.push(ParamDecl { name: "request".to_owned(), ty: plain("HelloRequest") });
    let method = MethodDecl {
        name: "say_hello".to_owned(),
        params,
        ret: Some(plain("HelloReply")),
    };
    assert(method@.params =~= seq![
        ParamDeclView { name: "request"@, ty: plain_type("HelloRequest"@) },
    ]);
    let mut methods: Vec<MethodDecl> = Vec::new();
    methods.push(method);
    let mut service_attrs: Vec<Attribute> = Vec::new();
    service_attrs.push(mark());
    let service = TraitDecl { name: "HelloWorld".to_owned(), attrs: service_attrs, methods };
    assert(service@.attrs =~= seq![capnp_mark()]);
    assert(service@.methods =~= seq![
        MethodDeclView {
            name: "say_hello"@,
            params: seq![ParamDeclView { name: "request"@, ty: plain_type("HelloRequest"@) }],
            ret: Some(plain_type("HelloReply"@)),
        },
    ]);

    let mut items: Vec<Item> = Vec::new();
    items.push(Item::Struct(information));
    items.push(Item::Struct(request));
    items.push(Item::Struct(reply));
    items.push(Item::Trait(service));
    assert(item_views(items@) =~= declared_items());
    items
}

} // verus!
