//! The finishing touch on the bindings that the schema compiler writes:
//! every record that supports the out-of-band serialisation gets the
//! derives for it, behind a feature.

use vstd::prelude::*;
use vstd::string::*;
use crate::schema::{struct_views, CapnpStruct, StructView};

verus! {

/// Whether `pattern` stands at the very start of `text`.
pub open spec fn starts_with(text: Seq<char>, pattern: Seq<char>) -> bool {
    pattern.len() <= text.len() && text.take(pattern.len() as int) == pattern
}

/// The text in which every match of `from` is replaced by `to`. The
/// matches are looked for from the left, and a match begins only where the
/// match before it has ended. An empty pattern matches nowhere.
pub open spec fn replaced_all(text: Seq<char>, from: Seq<char>, to: Seq<char>) -> Seq<char>
    decreases text.len(),
{
    if from.len() == 0 || text.len() == 0 {
        text
    } else if starts_with(text, from) {
        to + replaced_all(text.skip(from.len() as int), from, to)
    } else {
        seq![text[0]] + replaced_all(text.skip(1), from, to)
    }
}

/// The characters of a text.
fn chars_of(text: &str) -> (r: Vec<char>)
    ensures
        r@ == text@,
{
    let mut out: Vec<char> = Vec::new();
    for c in it: text.chars()
        invariant
            it.seq() == text@,
            out@ == text@.take(it.index() as int),
    {
        out.push(c);
        assert(text@.take(it.index() as int + 1) =~= text@.take(it.index() as int).push(c));
    }
    assert(text@.take(text@.len() as int) =~= text@);
    out
}

/// Whether `pattern` stands in `text` at the position `at`.
fn stands_at(text: &Vec<char>, pattern: &Vec<char>, at: usize) -> (r: bool)
    requires
        at <= text.len(),
    ensures
        r == starts_with(text@.skip(at as int), pattern@),
{
    let rest = text.len() - at;
    if pattern.len() > rest {
        return false;
    }
    let ghost tail = text@.skip(at as int);
    let mut j: usize = 0;
    while j < pattern.len()
        invariant
            j <= pattern.len(),
            pattern.len() <= text.len() - at,
            tail == text@.skip(at as int),
            forall|k: int| 0 <= k < j ==> tail[k] == pattern[k],
        decreases pattern.len() - j,
    {
        if text[at + j] != pattern[j] {
            assert(tail.take(pattern.len() as int)[j as int] != pattern[j as int]);
            return false;
        }
        j += 1;
    }
    assert(tail.take(pattern.len() as int) =~= pattern@);
    true
}

/// The text with every match of `from` replaced by `to`.
pub fn replace_all(text: &str, from: &str, to: &str) -> (r: String)
    ensures
        r@ == replaced_all(text@, from@, to@),
{
    let source = chars_of(text);
    let pattern = chars_of(from);
    let mut out = String::new();
    if pattern.len() == 0 {
        out.append(text);
        assert(out@ =~= text@);
        return out;
    }
    let mut i: usize = 0;
    proof {
        assert(source@.skip(0) =~= source@);
        assert(out@ + replaced_all(source@, from@, to@) =~= replaced_all(text@, from@, to@));
    }
    while i < source.len()
        invariant
            i <= source.len(),
            source@ == text@,
            pattern@ == from@,
            pattern.len() > 0,
            replaced_all(text@, from@, to@) == out@ + replaced_all(
                source@.skip(i as int),
                from@,
                to@,
            ),
        decreases source.len() - i,
    {
        let ghost tail = source@.skip(i as int);
        let ghost before = out@;
        if stands_at(&source, &pattern, i) {
            out.append(to);
            proof {
                assert(tail.skip(pattern.len() as int) =~= source@.skip(i as int + pattern.len()));
                assert(before + (to@ + replaced_all(tail.skip(pattern.len() as int), from@, to@))
                    =~= out@ + replaced_all(tail.skip(pattern.len() as int), from@, to@));
            }
            i += pattern.len();
        } else {
            out.push(source[i]);
            proof {
                assert(tail[0] == source[i as int]);
                assert(tail.skip(1) =~= source@.skip(i as int + 1));
                assert(before + (seq![tail[0]] + replaced_all(tail.skip(1), from@, to@)) =~= out@
                    + replaced_all(tail.skip(1), from@, to@));
            }
            i += 1;
        }
    }
    proof {
        assert(source@.skip(i as int) =~= Seq::<char>::empty());
        assert(out@ + Seq::<char>::empty() =~= out@);
    }
    out
}

/// The import that the derives need.
pub open spec fn serde_import() -> Seq<char> {
    "#[cfg(feature = \"serde\")]\nuse serde::{Serialize, Deserialize};\n\n"@
}

/// The line that derives the out-of-band serialisation.
pub open spec fn serde_derive_line() -> Seq<char> {
    "#[cfg_attr(feature = \"serde\", derive(Serialize, Deserialize))]\n"@
}

/// How the bindings open the declaration of a record.
pub open spec fn struct_opening(name: Seq<char>) -> Seq<char> {
    "pub struct "@ + name
}

/// The bindings with the derive line put before the declaration of the
/// record of the given name, and an empty line between the two.
pub open spec fn derive_added(code: Seq<char>, name: Seq<char>) -> Seq<char> {
    replaced_all(code, struct_opening(name), serde_derive_line() + "\n"@ + struct_opening(name))
}

/// The bindings with the derive line added for every record that supports
/// the out-of-band serialisation, one record after the other.
pub open spec fn derives_added(code: Seq<char>, structs: Seq<StructView>) -> Seq<char>
    decreases structs.len(),
{
    if structs.len() == 0 {
        code
    } else {
        let before = derives_added(code, structs.drop_last());
        if structs.last().has_serde {
            derive_added(before, structs.last().name)
        } else {
            before
        }
    }
}

/// Whether any record supports the out-of-band serialisation.
pub open spec fn any_serde(structs: Seq<StructView>) -> bool {
    exists|i: int| 0 <= i < structs.len() && (#[trigger] structs[i]).has_serde
}

/// The finished bindings: the import goes first if any record needs it,
/// then the derive lines are added.
pub open spec fn annotated(code: Seq<char>, structs: Seq<StructView>) -> Seq<char> {
    if any_serde(structs) {
        derives_added(serde_import() + code, structs)
    } else {
        derives_added(code, structs)
    }
}

/// Whether any record supports the out-of-band serialisation.
pub fn uses_serde(structs: &Vec<CapnpStruct>) -> (r: bool)
    ensures
        r == any_serde(struct_views(structs@)),
{
    let mut i: usize = 0;
    while i < structs.len()
        invariant
            i <= structs.len(),
            forall|k: int| 0 <= k < i ==> !(#[trigger] struct_views(structs@)[k]).has_serde,
        decreases structs.len() - i,
    {
        assert(struct_views(structs@)[i as int] == structs[i as int]@);
        if structs[i].has_serde {
            return true;
        }
        i += 1;
    }
    false
}

/// Puts the derive line before the declaration of the record `name`.
pub fn add_derive(code: &str, name: &str) -> (r: String)
    ensures
        r@ == derive_added(code@, name@),
{
    let mut from = String::new();
    from.append("pub struct ");
    from.append(name);
    let mut to = String::new();
    to.append("#[cfg_attr(feature = \"serde\", derive(Serialize, Deserialize))]\n");
    to.append("\n");
    to.append("pub struct ");
    to.append(name);
    proof {
        assert(from@ =~= struct_opening(name@));
        assert(to@ =~= serde_derive_line() + "\n"@ + struct_opening(name@));
    }
    replace_all(code, from.as_str(), to.as_str())
}

/// Finishes the bindings that the schema compiler wrote for the records.
/// Where any record supports the out-of-band serialisation, the import for
/// it is put first; then each such record, in order, gets its derive line.
/// Bindings of records without that support are returned as they are.
pub fn annotate_bindings(code: &str, structs: &Vec<CapnpStruct>) -> (r: String)
    ensures
        r@ == annotated(code@, struct_views(structs@)),
{
    let ghost all = struct_views(structs@);
    let mut out = String::new();
    if uses_serde(structs) {
        out.append("#[cfg(feature = \"serde\")]\nuse serde::{Serialize, Deserialize};\n\n");
    }
    out.append(code);
    let ghost start = out@;
    let mut i: usize = 0;
    proof {
        assert(all.take(0) =~= Seq::<StructView>::empty());
        assert(start =~= if any_serde(all) {
            serde_import() + code@
        } else {
            code@
        });
    }
    while i < structs.len()
        invariant
            i <= structs.len(),
            all == struct_views(structs@),
            out@ == derives_added(start, all.take(i as int)),
        decreases structs.len() - i,
    {
        proof {
            assert(all.take(i as int + 1).drop_last() =~= all.take(i as int));
            assert(all.take(i as int + 1).last() == structs[i as int]@);
        }
        if structs[i].has_serde {
            out = add_derive(out.as_str(), structs[i].name.as_str());
        }
        i += 1;
    }
    proof {
        assert(all.take(i as int) =~= all);
    }
    out
}

} // verus!
