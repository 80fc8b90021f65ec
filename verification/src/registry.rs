//! The type registry: which declared type names have a shape of their own
//! in the schema, and which can be carried as opaque bytes.

use vstd::prelude::*;
use vstd::string::*;

verus! {

/// How a type name is to be treated where a field refers to it.
#[derive(Clone, Copy, Debug, PartialEq, Eq, Structural)]
pub enum Classification {
    /// The type has a shape of its own in the schema.
    SchemaNative,
    /// The type is only known to the out-of-band serialisation.
    OpaqueOnly,
    /// Nothing was registered under the name.
    Unknown,
}

/// The flags registered under a name: whether the type is schema-native,
/// and whether it is opaque-capable. A name that was never registered has
/// neither.
pub open spec fn flags_of(registry: Map<Seq<char>, (bool, bool)>, name: Seq<char>) -> (bool, bool) {
    if registry.contains_key(name) {
        registry[name]
    } else {
        (false, false)
    }
}

/// The classification of a name. Where both flags are set, schema-native
/// wins.
pub open spec fn classification(
    registry: Map<Seq<char>, (bool, bool)>,
    name: Seq<char>,
) -> Classification {
    let flags = flags_of(registry, name);
    if flags.0 {
        Classification::SchemaNative
    } else if flags.1 {
        Classification::OpaqueOnly
    } else {
        Classification::Unknown
    }
}

/// The registry after one more registration: the new flags are merged into
/// the flags that the name already has, each by logical or.
pub open spec fn registered(
    registry: Map<Seq<char>, (bool, bool)>,
    name: Seq<char>,
    is_schema_native: bool,
    is_opaque_capable: bool,
) -> Map<Seq<char>, (bool, bool)> {
    let flags = flags_of(registry, name);
    registry.insert(name, (flags.0 || is_schema_native, flags.1 || is_opaque_capable))
}

/// A name classifies as schema-native exactly if it has the first flag, and
/// as opaque-only exactly if it has the second flag alone. So a name that
/// was registered both ways is schema-native, in whichever order the two
/// registrations came.
pub proof fn lemma_registry_precedence(registry: Map<Seq<char>, (bool, bool)>, name: Seq<char>)
    ensures
        classification(registry, name) == Classification::SchemaNative <==> flags_of(
            registry,
            name,
        ).0,
        classification(registry, name) == Classification::OpaqueOnly <==> !flags_of(
            registry,
            name,
        ).0 && flags_of(registry, name).1,
        classification(
            registered(registered(registry, name, true, false), name, false, true),
            name,
        ) == Classification::SchemaNative,
        classification(
            registered(registered(registry, name, false, true), name, true, false),
            name,
        ) == Classification::SchemaNative,
        !flags_of(registry, name).0 ==> classification(
            registered(registry, name, false, true),
            name,
        ) == Classification::OpaqueOnly,
{
}

/// A registration never clears a flag, and touches no other name.
pub proof fn lemma_registration_merges(
    registry: Map<Seq<char>, (bool, bool)>,
    name: Seq<char>,
    is_schema_native: bool,
    is_opaque_capable: bool,
    other: Seq<char>,
)
    ensures
        flags_of(registered(registry, name, is_schema_native, is_opaque_capable), name) == (
            flags_of(registry, name).0 || is_schema_native,
            flags_of(registry, name).1 || is_opaque_capable,
        ),
        other != name ==> flags_of(
            registered(registry, name, is_schema_native, is_opaque_capable),
            other,
        ) == flags_of(registry, other),
{
}

struct Entry {
    name: String,
    native: bool,
    opaque: bool,
}

/// A lookup table from type names to their two flags, built for one run.
pub struct StructRegistry {
    entries: Vec<Entry>,
}

impl View for StructRegistry {
    type V = Map<Seq<char>, (bool, bool)>;

    closed spec fn view(&self) -> Map<Seq<char>, (bool, bool)> {
        Map::new(
            |name: Seq<char>|
                exists|i: int| 0 <= i < self.entries.len() && self.entries[i].name@ == name,
            |name: Seq<char>|
                {
                    let i = choose|i: int|
                        0 <= i < self.entries.len() && self.entries[i].name@ == name;
                    (self.entries[i].native, self.entries[i].opaque)
                },
        )
    }
}

impl StructRegistry {
    /// No name has two entries.
    #[verifier::type_invariant]
    spec fn names_distinct(self) -> bool {
        forall|i: int, j: int|
            0 <= i < j < self.entries.len() ==> self.entries[i].name@ != self.entries[j].name@
    }

    /// An empty registry.
    pub fn new() -> (r: StructRegistry)
        ensures
            r@ == Map::<Seq<char>, (bool, bool)>::empty(),
    {
        let r = StructRegistry { entries: Vec::new() };
        assert(r@ =~= Map::<Seq<char>, (bool, bool)>::empty());
        r
    }

    /// The position of the entry for `name`, if there is one.
    fn find(&self, name: &String) -> (r: Option<usize>)
        ensures
            match r {
                Some(i) => i < self.entries.len() && self.entries[i as int].name@ == name@,
                None => forall|i: int| 0 <= i < self.entries.len() ==> self.entries[i].name@ != name@,
            },
    {
        let mut i: usize = 0;
        while i < self.entries.len()
            invariant
                i <= self.entries.len(),
                forall|k: int| 0 <= k < i ==> self.entries[k].name@ != name@,
            decreases self.entries.len() - i,
        {
            if self.entries[i].name == *name {
                return Some(i);
            }
            i += 1;
        }
        None
    }

    /// The two flags registered under `name`.
    fn flags(&self, name: &str) -> (r: (bool, bool))
        ensures
            r == flags_of(self@, name@),
    {
        proof {
            use_type_invariant(self);
        }
        let key = name.to_owned();
        match self.find(&key) {
            Some(i) => {
                assert(self@.contains_key(name@));
                (self.entries[i].native, self.entries[i].opaque)
            },
            None => (false, false),
        }
    }

    /// Merges the flags into the entry for `name`, making the entry if the
    /// name is new. A flag that is set stays set.
    pub fn register(&mut self, name: &str, is_schema_native: bool, is_opaque_capable: bool)
        ensures
            final(self)@ == registered(old(self)@, name@, is_schema_native, is_opaque_capable),
    {
        proof {
            use_type_invariant(&*self);
        }
        let key = name.to_owned();
        let ghost before = *self;
        match self.find(&key) {
            Some(i) => {
                assert(before@.contains_key(name@));
                let entry = Entry {
                    name: key,
                    native: self.entries[i].native || is_schema_native,
                    opaque: self.entries[i].opaque || is_opaque_capable,
                };
                let mut entries: Vec<Entry> = Vec::new();
                core::mem::swap(&mut self.entries, &mut entries);
                entries.set(i, entry);
                self.entries = entries;
                assert forall|k: int| 0 <= k < self.entries.len() implies (
                self.entries[k].name@ == before.entries[k].name@) by {}
                assert(self@ =~= registered(
                    before@,
                    name@,
                    is_schema_native,
                    is_opaque_capable,
                )) by {
                    assert forall|n: Seq<char>| self@.contains_key(n) implies before@.insert(
                        name@,
                        (false, false),
                    ).contains_key(n) by {
                        let k = choose|k: int|
                            0 <= k < self.entries.len() && self.entries[k].name@ == n;
                        assert(before.entries[k].name@ == n);
                    }
                    assert forall|n: Seq<char>| before@.contains_key(n) implies self@.contains_key(
                        n,
                    ) by {
                        let k = choose|k: int|
                            0 <= k < before.entries.len() && before.entries[k].name@ == n;
                        assert(self.entries[k].name@ == n);
                    }
                }
            },
            None => {
                assert(!before@.contains_key(name@));
                let entry = Entry { name: key, native: is_schema_native, opaque: is_opaque_capable };
                let mut entries: Vec<Entry> = Vec::new();
                core::mem::swap(&mut self.entries, &mut entries);
                entries.push(entry);
                self.entries = entries;
                assert forall|k: int| 0 <= k < before.entries.len() implies (self.entries[k]
                    == before.entries[k]) by {}
                assert(self@ =~= registered(
                    before@,
                    name@,
                    is_schema_native,
                    is_opaque_capable,
                )) by {
                    assert(self.entries[before.entries.len() as int].name@ == name@);
                    assert forall|n: Seq<char>| before@.contains_key(n) implies self@.contains_key(
                        n,
                    ) by {
                        let k = choose|k: int|
                            0 <= k < before.entries.len() && before.entries[k].name@ == n;
                        assert(self.entries[k].name@ == n);
                    }
                    assert forall|n: Seq<char>| self@.contains_key(n) && n != name@ implies (
                    before@.contains_key(n)) by {
                        let k = choose|k: int|
                            0 <= k < self.entries.len() && self.entries[k].name@ == n;
                        assert(before.entries[k].name@ == n);
                    }
                }
            },
        }
    }

    /// Registers `name` as supporting the out-of-band serialisation.
    pub fn register_serde_struct(&mut self, name: &str)
        ensures
            final(self)@ == registered(old(self)@, name@, false, true),
    {
        self.register(name, false, true);
    }

    /// Registers `name` as having a shape of its own in the schema.
    pub fn register_capnp_struct(&mut self, name: &str)
        ensures
            final(self)@ == registered(old(self)@, name@, true, false),
    {
        self.register(name, true, false);
    }

    /// Whether `name` was registered as supporting the out-of-band
    /// serialisation.
    pub fn is_serde_struct(&self, name: &str) -> (r: bool)
        ensures
            r == flags_of(self@, name@).1,
    {
        self.flags(name).1
    }

    /// Whether `name` was registered as having a shape of its own in the
    /// schema.
    pub fn is_capnp_struct(&self, name: &str) -> (r: bool)
        ensures
            r == flags_of(self@, name@).0,
    {
        self.flags(name).0
    }

    /// The classification of `name`.
    pub fn classify(&self, name: &str) -> (r: Classification)
        ensures
            r == classification(self@, name@),
    {
        let flags = self.flags(name);
        if flags.0 {
            Classification::SchemaNative
        } else if flags.1 {
            Classification::OpaqueOnly
        } else {
            Classification::Unknown
        }
    }
}

impl Default for StructRegistry {
    fn default() -> (r: StructRegistry)
        ensures
            r@ == Map::<Seq<char>, (bool, bool)>::empty(),
    {
        StructRegistry::new()
    }
}

} // verus!
