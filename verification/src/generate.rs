//! A generation run: the registry is filled from all declarations, then
//! the declarations are mapped, the records ordered and the text written.

use vstd::prelude::*;
use vstd::string::*;
use crate::decl::{attr_flags, has_attrs, item_views, EnumDeclView, Item, ItemView,
    StructDeclView, TraitDeclView};
use crate::emitter::{rendered_schema, write_schema};
use crate::error::{SchemaError, SchemaErrorView};
use crate::mapper::{built_enum, built_interface, built_struct, mk_enum, mk_interface, mk_struct};
use crate::naming::{pascal_name, pascal_name_of};
use crate::registry::{registered, StructRegistry};
use crate::resolver::{sort_deps, sorted_records};
use crate::schema::{enum_views, interface_views, struct_views, CapnpEnum, CapnpInterface,
    CapnpStruct, EnumView, InterfaceView, StructView};
use crate::try_map::{lemma_try_map_selected_fails, lemma_try_map_selected_step, try_map};

verus! {

/// The registry after the flags of a declaration were merged into the
/// entry of its name. A declaration with neither flag leaves no trace.
pub open spec fn with_flags(
    registry: Map<Seq<char>, (bool, bool)>,
    name: Seq<char>,
    flags: (bool, bool),
) -> Map<Seq<char>, (bool, bool)> {
    if flags.0 || flags.1 {
        registered(registry, name, flags.0, flags.1)
    } else {
        registry
    }
}

/// The registry after one declaration was scanned. A struct or an enum is
/// registered under its name in upper camel case: as schema-native where it
/// is marked for the schema, as opaque-capable where it supports the
/// out-of-band serialisation. A trait is no type and registers nothing.
pub open spec fn item_registered(
    registry: Map<Seq<char>, (bool, bool)>,
    item: ItemView,
) -> Map<Seq<char>, (bool, bool)> {
    match item {
        ItemView::Struct(s) => with_flags(registry, pascal_name_of(s.name), attr_flags(s.attrs)),
        ItemView::Enum(e) => with_flags(registry, pascal_name_of(e.name), attr_flags(e.attrs)),
        ItemView::Trait(_) => registry,
    }
}

/// The registry after all the declarations were scanned, in order.
pub open spec fn populated(
    registry: Map<Seq<char>, (bool, bool)>,
    items: Seq<ItemView>,
) -> Map<Seq<char>, (bool, bool)>
    decreases items.len(),
{
    if items.len() == 0 {
        registry
    } else {
        item_registered(populated(registry, items.drop_last()), items.last())
    }
}

/// Merges what one declaration says of its type into the registry.
fn register_flags(registry: &mut StructRegistry, name: &String, flags: (bool, bool))
    ensures
        final(registry)@ == with_flags(old(registry)@, pascal_name_of(name@), flags),
{
    if flags.0 || flags.1 {
        let normal = pascal_name(name.as_str());
        registry.register(normal.as_str(), flags.0, flags.1);
    }
}

/// Scans the declarations and registers every struct and enum among them.
/// This is the first of the two passes of a run: it has to be finished for
/// all declarations, of all sources, before any type is mapped, since a
/// field may refer to a type that is declared later.
pub fn register_items(registry: &mut StructRegistry, items: &Vec<Item>)
    ensures
        final(registry)@ == populated(old(registry)@, item_views(items@)),
{
    let ghost all = item_views(items@);
    let mut i: usize = 0;
    proof {
        assert(all.take(0) =~= Seq::<ItemView>::empty());
    }
    while i < items.len()
        invariant
            i <= items.len(),
            all == item_views(items@),
            registry@ == populated(old(registry)@, all.take(i as int)),
        decreases items.len() - i,
    {
        proof {
            assert(all.take(i as int + 1).drop_last() =~= all.take(i as int));
            assert(all.take(i as int + 1).last() == items[i as int]@);
        }
        match &items[i] {
            Item::Struct(s) => {
                let flags = has_attrs(&s.attrs);
                register_flags(registry, &s.name, flags);
            },
            Item::Enum(e) => {
                let flags = has_attrs(&e.attrs);
                register_flags(registry, &e.name, flags);
            },
            Item::Trait(_) => {},
        }
        i += 1;
    }
    proof {
        assert(all.take(i as int) =~= all);
    }
}

/// Selects the struct declarations that are marked for the schema.
pub open spec fn marked_struct() -> spec_fn(ItemView) -> Option<StructDeclView> {
    |item: ItemView|
        match item {
            ItemView::Struct(s) => if attr_flags(s.attrs).0 {
                Some(s)
            } else {
                None
            },
            _ => None,
        }
}

/// Selects the enum declarations that are marked for the schema.
pub open spec fn marked_enum() -> spec_fn(ItemView) -> Option<EnumDeclView> {
    |item: ItemView|
        match item {
            ItemView::Enum(e) => if attr_flags(e.attrs).0 {
                Some(e)
            } else {
                None
            },
            _ => None,
        }
}

/// Selects the trait declarations that are marked for the schema.
pub open spec fn marked_trait() -> spec_fn(ItemView) -> Option<TraitDeclView> {
    |item: ItemView|
        match item {
            ItemView::Trait(t) => if attr_flags(t.attrs).0 {
                Some(t)
            } else {
                None
            },
            _ => None,
        }
}

/// [`built_struct`] as a function of the position and the declaration.
pub open spec fn struct_builder(registry: Map<Seq<char>, (bool, bool)>) -> spec_fn(
    int,
    StructDeclView,
) -> Result<StructView, SchemaErrorView> {
    |position: int, s: StructDeclView| built_struct(s, attr_flags(s.attrs).1, registry)
}

/// [`built_enum`] as a function of the position and the declaration.
pub open spec fn enum_builder(registry: Map<Seq<char>, (bool, bool)>) -> spec_fn(
    int,
    EnumDeclView,
) -> Result<EnumView, SchemaErrorView> {
    |position: int, e: EnumDeclView| built_enum(e, registry)
}

/// [`built_interface`] as a function of the position and the declaration.
pub open spec fn interface_builder(registry: Map<Seq<char>, (bool, bool)>) -> spec_fn(
    int,
    TraitDeclView,
) -> Result<InterfaceView, SchemaErrorView> {
    |position: int, t: TraitDeclView| built_interface(t, registry)
}

/// The records of the declarations: one for each struct that is marked for
/// the schema, in the order of the declarations. The first struct that
/// cannot be built fails the whole.
pub open spec fn collected_structs(
    items: Seq<ItemView>,
    registry: Map<Seq<char>, (bool, bool)>,
) -> Result<Seq<StructView>, SchemaErrorView> {
    try_map(items.filter_map(marked_struct()), struct_builder(registry))
}

/// The sum types of the declarations: one for each enum that is marked for
/// the schema, in the order of the declarations. The first enum that
/// cannot be built fails the whole.
pub open spec fn collected_enums(
    items: Seq<ItemView>,
    registry: Map<Seq<char>, (bool, bool)>,
) -> Result<Seq<EnumView>, SchemaErrorView> {
    try_map(items.filter_map(marked_enum()), enum_builder(registry))
}

/// The interfaces of the declarations: one for each trait that is marked
/// for the schema, in the order of the declarations. The first trait that
/// cannot be built fails the whole.
pub open spec fn collected_interfaces(
    items: Seq<ItemView>,
    registry: Map<Seq<char>, (bool, bool)>,
) -> Result<Seq<InterfaceView>, SchemaErrorView> {
    try_map(items.filter_map(marked_trait()), interface_builder(registry))
}

/// The view of the result of collecting records.
pub open spec fn structs_result_view(r: Result<Vec<CapnpStruct>, SchemaError>) -> Result<
    Seq<StructView>,
    SchemaErrorView,
> {
    match r {
        Ok(structs) => Ok(struct_views(structs@)),
        Err(e) => Err(e@),
    }
}

/// The view of the result of collecting sum types.
pub open spec fn enums_result_view(r: Result<Vec<CapnpEnum>, SchemaError>) -> Result<
    Seq<EnumView>,
    SchemaErrorView,
> {
    match r {
        Ok(enums) => Ok(enum_views(enums@)),
        Err(e) => Err(e@),
    }
}

/// The view of the result of collecting interfaces.
pub open spec fn interfaces_result_view(r: Result<Vec<CapnpInterface>, SchemaError>) -> Result<
    Seq<InterfaceView>,
    SchemaErrorView,
> {
    match r {
        Ok(interfaces) => Ok(interface_views(interfaces@)),
        Err(e) => Err(e@),
    }
}

/// Builds the record of every struct declaration that is marked for the
/// schema, in the order of the declarations. The registry is the one that
/// the first pass has filled.
pub fn collect_structs(items: &Vec<Item>, registry: &StructRegistry) -> (r: Result<
    Vec<CapnpStruct>,
    SchemaError,
>)
    ensures
        structs_result_view(r) == collected_structs(item_views(items@), registry@),
{
    let ghost all = item_views(items@);
    let ghost select = marked_struct();
    let ghost f = struct_builder(registry@);
    let mut structs: Vec<CapnpStruct> = Vec::new();
    let mut i: usize = 0;
    proof {
        assert(all.take(0) =~= Seq::<ItemView>::empty());
        assert(struct_views(structs@) =~= Seq::<StructView>::empty());
    }
    while i < items.len()
        invariant
            i <= items.len(),
            all == item_views(items@),
            select == marked_struct(),
            f == struct_builder(registry@),
            try_map(all.take(i as int).filter_map(select), f) == Ok::<
                Seq<StructView>,
                SchemaErrorView,
            >(struct_views(structs@)),
        decreases items.len() - i,
    {
        let ghost before = struct_views(structs@);
        proof {
            lemma_try_map_selected_step(all, select, f, i as int);
            assert(all[i as int] == items[i as int]@);
        }
        match &items[i] {
            Item::Struct(s) => {
                let flags = has_attrs(&s.attrs);
                if flags.0 {
                    match mk_struct(s, flags.1, registry) {
                        Ok(built) => {
                            structs.push(built);
                            assert(struct_views(structs@) =~= before.push(
                                structs@[structs.len() - 1]@,
                            ));
                        },
                        Err(e) => {
                            proof {
                                lemma_try_map_selected_fails(all, select, f, i as int + 1);
                            }
                            return Err(e);
                        },
                    }
                }
            },
            _ => {},
        }
        i += 1;
    }
    proof {
        assert(all.take(i as int) =~= all);
    }
    Ok(structs)
}

/// Builds the sum type of every enum declaration that is marked for the
/// schema, in the order of the declarations.
pub fn collect_enums(items: &Vec<Item>, registry: &StructRegistry) -> (r: Result<
    Vec<CapnpEnum>,
    SchemaError,
>)
    ensures
        enums_result_view(r) == collected_enums(item_views(items@), registry@),
{
    let ghost all = item_views(items@);
    let ghost select = marked_enum();
    let ghost f = enum_builder(registry@);
    let mut enums: Vec<CapnpEnum> = Vec::new();
    let mut i: usize = 0;
    proof {
        assert(all.take(0) =~= Seq::<ItemView>::empty());
        assert(enum_views(enums@) =~= Seq::<EnumView>::empty());
    }
    while i < items.len()
        invariant
            i <= items.len(),
            all == item_views(items@),
            select == marked_enum(),
            f == enum_builder(registry@),
            try_map(all.take(i as int).filter_map(select), f) == Ok::<
                Seq<EnumView>,
                SchemaErrorView,
            >(enum_views(enums@)),
        decreases items.len() - i,
    {
        let ghost before = enum_views(enums@);
        proof {
            lemma_try_map_selected_step(all, select, f, i as int);
            assert(all[i as int] == items[i as int]@);
        }
        match &items[i] {
            Item::Enum(e) => {
                let flags = has_attrs(&e.attrs);
                if flags.0 {
                    match mk_enum(e, registry) {
                        Ok(built) => {
                            enums.push(built);
                            assert(enum_views(enums@) =~= before.push(enums@[enums.len() - 1]@));
                        },
                        Err(e) => {
                            proof {
                                lemma_try_map_selected_fails(all, select, f, i as int + 1);
                            }
                            return Err(e);
                        },
                    }
                }
            },
            _ => {},
        }
        i += 1;
    }
    proof {
        assert(all.take(i as int) =~= all);
    }
    Ok(enums)
}

/// Builds the interface of every trait declaration that is marked for the
/// schema, in the order of the declarations.
pub fn collect_interfaces(items: &Vec<Item>, registry: &StructRegistry) -> (r: Result<
    Vec<CapnpInterface>,
    SchemaError,
>)
    ensures
        interfaces_result_view(r) == collected_interfaces(item_views(items@), registry@),
{
    let ghost all = item_views(items@);
    let ghost select = marked_trait();
    let ghost f = interface_builder(registry@);
    let mut interfaces: Vec<CapnpInterface> = Vec::new();
    let mut i: usize = 0;
    proof {
        assert(all.take(0) =~= Seq::<ItemView>::empty());
        assert(interface_views(interfaces@) =~= Seq::<InterfaceView>::empty());
    }
    while i < items.len()
        invariant
            i <= items.len(),
            all == item_views(items@),
            select == marked_trait(),
            f == interface_builder(registry@),
            try_map(all.take(i as int).filter_map(select), f) == Ok::<
                Seq<InterfaceView>,
                SchemaErrorView,
            >(interface_views(interfaces@)),
        decreases items.len() - i,
    {
        let ghost before = interface_views(interfaces@);
        proof {
            lemma_try_map_selected_step(all, select, f, i as int);
            assert(all[i as int] == items[i as int]@);
        }
        match &items[i] {
            Item::Trait(t) => {
                let flags = has_attrs(&t.attrs);
                if flags.0 {
                    match mk_interface(t, registry) {
                        Ok(built) => {
                            interfaces.push(built);
                            assert(interface_views(interfaces@) =~= before.push(
                                interfaces@[interfaces.len() - 1]@,
                            ));
                        },
                        Err(e) => {
                            proof {
                                lemma_try_map_selected_fails(all, select, f, i as int + 1);
                            }
                            return Err(e);
                        },
                    }
                }
            },
            _ => {},
        }
        i += 1;
    }
    proof {
        assert(all.take(i as int) =~= all);
    }
    Ok(interfaces)
}

/// The declarations of a run after mapping: the records, the sum types and
/// the interfaces, each kind in the order of its declarations.
#[derive(Clone, Debug, PartialEq, Eq)]
pub struct Schema {
    pub structs: Vec<CapnpStruct>,
    pub enums: Vec<CapnpEnum>,
    pub interfaces: Vec<CapnpInterface>,
}

/// The view of a [`Schema`].
pub ghost struct SchemaView {
    pub structs: Seq<StructView>,
    pub enums: Seq<EnumView>,
    pub interfaces: Seq<InterfaceView>,
}

impl View for Schema {
    type V = SchemaView;

    open spec fn view(&self) -> SchemaView {
        SchemaView {
            structs: struct_views(self.structs@),
            enums: enum_views(self.enums@),
            interfaces: interface_views(self.interfaces@),
        }
    }
}

/// What the declarations give after mapping, or the failure of the
/// mapping. The registry is filled from all the declarations first. Then
/// the records, the sum types and the interfaces are built, in this order;
/// the first that fails gives the error.
pub open spec fn collected(items: Seq<ItemView>) -> Result<SchemaView, SchemaErrorView> {
    let registry = populated(Map::empty(), items);
    match collected_structs(items, registry) {
        Err(e) => Err(e),
        Ok(structs) => match collected_enums(items, registry) {
            Err(e) => Err(e),
            Ok(enums) => match collected_interfaces(items, registry) {
                Err(e) => Err(e),
                Ok(interfaces) => Ok(SchemaView { structs, enums, interfaces }),
            },
        },
    }
}

/// The text of the schema: the records are put in their declaration order
/// and everything is rendered. Records that refer to each other in a cycle
/// give an error, and no text.
pub open spec fn written(schema: SchemaView) -> Result<Seq<char>, SchemaErrorView> {
    match sorted_records(schema.structs) {
        Err(e) => Err(e),
        Ok(sorted) => Ok(rendered_schema(schema.enums, sorted, schema.interfaces)),
    }
}

/// The schema text of the declarations, or the failure of the run: the
/// declarations are mapped, and what they give is written.
pub open spec fn generated(items: Seq<ItemView>) -> Result<Seq<char>, SchemaErrorView> {
    match collected(items) {
        Err(e) => Err(e),
        Ok(schema) => written(schema),
    }
}

/// The view of the result of mapping the declarations.
pub open spec fn schema_result_view(r: Result<Schema, SchemaError>) -> Result<
    SchemaView,
    SchemaErrorView,
> {
    match r {
        Ok(schema) => Ok(schema@),
        Err(e) => Err(e@),
    }
}

/// Two runs on declarations with the same views end alike: with the same
/// text, character for character, or with the same error. Nothing but the
/// declarations goes into a run.
pub proof fn lemma_generation_repeats(first: Vec<Item>, second: Vec<Item>)
    requires
        item_views(first@) == item_views(second@),
    ensures
        generated(item_views(first@)) == generated(item_views(second@)),
{
}

/// The view of the result of a run.
pub open spec fn text_result_view(r: Result<String, SchemaError>) -> Result<
    Seq<char>,
    SchemaErrorView,
> {
    match r {
        Ok(text) => Ok(text@),
        Err(e) => Err(e@),
    }
}

/// Maps the declarations of all sources: fills a registry from them, then
/// builds the records, the sum types and the interfaces.
pub fn collect(items: &Vec<Item>) -> (r: Result<Schema, SchemaError>)
    ensures
        schema_result_view(r) == collected(item_views(items@)),
{
    let mut registry = StructRegistry::new();
    register_items(&mut registry, items);
    let structs = match collect_structs(items, &registry) {
        Ok(structs) => structs,
        Err(e) => {
            return Err(e);
        },
    };
    let enums = match collect_enums(items, &registry) {
        Ok(enums) => enums,
        Err(e) => {
            return Err(e);
        },
    };
    let interfaces = match collect_interfaces(items, &registry) {
        Ok(interfaces) => interfaces,
        Err(e) => {
            return Err(e);
        },
    };
    Ok(Schema { structs, enums, interfaces })
}

impl Schema {
    /// The text of the schema: the header, the sum types, the records in
    /// their declaration order, and the interfaces. Where records refer to
    /// each other in a cycle there is no text, and the error names them.
    pub fn write(&self) -> (r: Result<String, SchemaError>)
        ensures
            text_result_view(r) == written(self@),
    {
        let sorted = match sort_deps(&self.structs) {
            Ok(sorted) => sorted,
            Err(e) => {
                return Err(e);
            },
        };
        Ok(write_schema(&self.enums, &sorted, &self.interfaces))
    }
}

/// Runs the generation on the declarations of all sources and gives the
/// text of the schema. Any failure ends the run without a text.
pub fn generate_schema(items: &Vec<Item>) -> (r: Result<String, SchemaError>)
    ensures
        text_result_view(r) == generated(item_views(items@)),
{
    match collect(items) {
        Ok(schema) => schema.write(),
        Err(e) => Err(e),
    }
}

} // verus!
