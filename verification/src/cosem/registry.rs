//! Looking a class up.

use vstd::prelude::*;

use super::class::ClassDescriptor;
use super::classes::{DETAILED, NAMED};
#[allow(unused_imports)]
use super::class::{AttributeInfo, ClassV, MethodInfo};
#[allow(unused_imports)]
use super::classes::{detailed, named};
#[allow(unused_imports)]
use super::laws::law_numbers_find_their_own;

verus! {

/// How many interface classes carry full attribute and method tables.
pub const DETAILED_CLASS_COUNT: usize = 25;

/// How many carry a class id, a version and a name, and nothing more.
///
/// Refusing to name a class the crate has no attribute table for would help nobody: a
/// translator that can say *what an object is* is useful even when it cannot label every
/// field of it.
pub const NAMED_CLASS_COUNT: usize = 77;

/// How many interface classes the registry knows at either depth.
pub const CLASS_COUNT: usize = 102;

/// The classes that the registry knows, by their place: the detailed ones first.
pub open spec fn entry(i: int) -> ClassV {
    if i < DETAILED_CLASS_COUNT {
        detailed(i)
    } else {
        named(i - DETAILED_CLASS_COUNT)
    }
}

/// The first place from one on that holds a class, of a version where one is asked for; the
/// number of places where none does.
pub open spec fn place(class_id: u16, version: Option<u8>, from: int) -> int
    decreases CLASS_COUNT - from,
{
    if from >= CLASS_COUNT {
        CLASS_COUNT as int
    } else if entry(from).class_id == class_id && (version matches Some(v) ==> entry(from).version
        == v) {
        from
    } else {
        place(class_id, version, from + 1)
    }
}

/// The first entry for a class, of a version where one is asked for.
pub open spec fn found(class_id: u16, version: Option<u8>) -> Option<ClassV> {
    let i = place(class_id, version, 0);
    if i < CLASS_COUNT {
        Some(entry(i))
    } else {
        None
    }
}

/// The entry that describes a class and version: that version's, or the first of the class
/// where there is none.
pub open spec fn described(class_id: u16, version: u8) -> Option<ClassV> {
    match found(class_id, Some(version)) {
        Some(c) => Some(c),
        None => found(class_id, None),
    }
}

/// What a descriptor that may be missing is.
pub open spec fn class_view(c: Option<ClassDescriptor>) -> Option<ClassV> {
    match c {
        Some(c) => Some(c@),
        None => None,
    }
}

/// Every class the registry knows, detailed ones first.
#[must_use]
pub fn all() -> (r: Vec<ClassDescriptor>)
    ensures
        r@.len() == CLASS_COUNT,
        forall|i: int| 0 <= i < CLASS_COUNT ==> (#[trigger] r@[i])@ == entry(i),
{
    let mut all = DETAILED();
    let named = NAMED();
    let mut i: usize = 0;
    while i < named.len()
        invariant
            i <= named@.len() == 77,
            all@.len() == 25 + i,
            forall|k: int| 0 <= k < all@.len() ==> (#[trigger] all@[k])@ == entry(k),
            forall|k: int| 0 <= k < 77 ==> (#[trigger] named@[k])@ == self::named(k),
        decreases named@.len() - i,
    {
        all.push(named[i]);
        i += 1;
    }
    all
}

/// The first entry for a class, of a version where one is asked for.
fn find(class_id: u16, version: Option<u8>) -> (r: Option<ClassDescriptor>)
    ensures
        class_view(r) == found(class_id, version),
{
    let all = all();
    let mut i: usize = 0;
    while i < all.len()
        invariant
            i <= all@.len() == CLASS_COUNT,
            forall|k: int| 0 <= k < CLASS_COUNT ==> (#[trigger] all@[k])@ == entry(k),
            place(class_id, version, i as int) == place(class_id, version, 0),
        decreases all@.len() - i,
    {
        let c = all[i];
        let wanted = match version {
            Some(v) => c.version == v,
            None => true,
        };
        if c.class_id == class_id && wanted {
            return Some(c);
        }
        i += 1;
    }
    None
}

/// The descriptor for a class and version.
///
/// A version this crate does not have falls back to any version of the same class, so a
/// translator can still name a `Register` version 1 that a future edition adds. The
/// caller can tell the difference: [`ClassDescriptor::version`] says which version the
/// answer describes.
#[must_use]
pub fn describe(class_id: u16, version: u8) -> (r: Option<ClassDescriptor>)
    ensures
        match r {
            Some(c) => described(class_id, version) == Some(c@),
            None => described(class_id, version) is None,
        },
{
    match exact(class_id, version) {
        Some(c) => Some(c),
        None => any_version(class_id),
    }
}

/// The descriptor for exactly this class and version.
#[must_use]
pub fn exact(class_id: u16, version: u8) -> (r: Option<ClassDescriptor>)
    ensures
        class_view(r) == found(class_id, Some(version)),
{
    find(class_id, Some(version))
}

/// Any tabulated version of this class.
#[must_use]
pub fn any_version(class_id: u16) -> (r: Option<ClassDescriptor>)
    ensures
        class_view(r) == found(class_id, None),
{
    find(class_id, None)
}

/// The class name, or `None` when the class is not in the registry at all.
#[must_use]
pub fn class_name(class_id: u16) -> (r: Option<&'static str>)
    ensures
        r == (match found(class_id, None) {
            Some(c) => Some(c.name),
            None => None,
        }),
{
    match any_version(class_id) {
        Some(c) => Some(c.name),
        None => None,
    }
}

/// The name of an attribute, for a translator.
///
/// Attribute 1 is the logical name for every class, so it is answered even when only
/// the class name is tabulated.
#[must_use]
pub fn attribute_name(class_id: u16, version: u8, index: i8) -> (r: Option<&'static str>)
    ensures
        r == (if index == 1 {
            Some("logical_name")
        } else {
            match described(class_id, version) {
                Some(c) => match c.attribute(index) {
                    Some(a) => Some(a.name),
                    None => None,
                },
                None => None,
            }
        }),
{
    if index == 1 {
        return Some("logical_name");
    }
    match describe(class_id, version) {
        Some(c) => match c.attribute(index) {
            Some(a) => Some(a.name),
            None => None,
        },
        None => None,
    }
}

/// The name of a method, for a translator.
#[must_use]
pub fn method_name(class_id: u16, version: u8, index: i8) -> (r: Option<&'static str>)
    ensures
        r == (match described(class_id, version) {
            Some(c) => match c.method(index) {
                Some(m) => Some(m.name),
                None => None,
            },
            None => None,
        }),
{
    match describe(class_id, version) {
        Some(c) => match c.method(index) {
            Some(m) => Some(m.name),
            None => None,
        },
        None => None,
    }
}

/// No two entries describe the same class.
#[verifier::rlimit(40)]
pub proof fn law_entries_are_unique(i: int, j: int)
    requires
        0 <= i < CLASS_COUNT,
        0 <= j < CLASS_COUNT,
        entry(i).class_id == entry(j).class_id,
    ensures
        i == j,
{
}

/// The entries with an attribute table are the first ones, and no others.
pub proof fn law_depths(i: int)
    requires
        0 <= i < CLASS_COUNT,
    ensures
        (entry(i).attributes.len() == 0) == (DETAILED_CLASS_COUNT <= i),
{
}

/// Whether indices ascend, from one on.
pub open spec fn ascending_attributes(s: Seq<AttributeInfo>) -> bool {
    &&& forall|k: int| 0 <= k < s.len() ==> (#[trigger] s[k]).index >= 1
    &&& forall|k: int, l: int| 0 <= k < l < s.len() ==> (#[trigger] s[k]).index < (#[trigger] s[l]).index
}

/// Whether indices ascend, from one on.
pub open spec fn ascending_methods(s: Seq<MethodInfo>) -> bool {
    &&& forall|k: int| 0 <= k < s.len() ==> (#[trigger] s[k]).index >= 1
    &&& forall|k: int, l: int| 0 <= k < l < s.len() ==> (#[trigger] s[k]).index < (#[trigger] s[l]).index
}

/// The attributes and the methods of every class are listed in ascending order, each once;
/// and the first attribute of a class whose attributes are listed is its logical name.
pub proof fn law_indices_ascend(i: int)
    requires
        0 <= i < CLASS_COUNT,
    ensures
        ascending_attributes(entry(i).attributes),
        ascending_methods(entry(i).methods),
        i < DETAILED_CLASS_COUNT ==> entry(i).attributes[0].index == 1
            && entry(i).attributes[0].name == "logical_name",
{
}

/// A place that was found holds what was asked for.
proof fn lemma_place(class_id: u16, version: Option<u8>, from: int)
    requires
        0 <= from <= CLASS_COUNT,
    ensures
        ({
            let i = place(class_id, version, from);
            &&& from <= i <= CLASS_COUNT
            &&& i < CLASS_COUNT ==> entry(i).class_id == class_id && (version matches Some(v)
                ==> entry(i).version == v)
            &&& forall|k: int|
                from <= k < i ==> !((#[trigger] entry(k)).class_id == class_id && (
                version matches Some(v) ==> entry(k).version == v))
        }),
    decreases CLASS_COUNT - from,
{
    if from < CLASS_COUNT {
        lemma_place(class_id, version, from + 1);
    }
}

/// A description is always of the class that was asked for.
pub proof fn law_description_is_of_the_class(class_id: u16, version: u8)
    ensures
        described(class_id, version) matches Some(c) ==> c.class_id == class_id,
        found(class_id, Some(version)) matches Some(c) ==> c.version == version,
{
    lemma_place(class_id, Some(version), 0);
    lemma_place(class_id, None, 0);
}

/// Every class that the registry knows is described, whatever version is asked for; and the
/// description says which version it describes.
pub proof fn law_known_classes_are_described(i: int, version: u8)
    requires
        0 <= i < CLASS_COUNT,
    ensures
        described(entry(i).class_id, version) == Some(entry(i)),
        (found(entry(i).class_id, Some(version)) is Some) == (entry(i).version == version),
{
    let class_id = entry(i).class_id;
    lemma_place(class_id, Some(version), 0);
    lemma_place(class_id, None, 0);
    let j = place(class_id, None, 0);
    assert(j <= i);
    law_entries_are_unique(i, j);
    let k = place(class_id, Some(version), 0);
    if k < CLASS_COUNT {
        law_entries_are_unique(i, k);
    }
}

/// What a translator is told: attribute 1 is the logical name of any object; any other is
/// named as the description of its class says, of the very version where that is known; and
/// the class itself as its first entry does.
pub proof fn law_translator_is_told(class_id: u16, version: u8, index: i8)
    ensures
        forall|r: Option<&'static str>|
            #![trigger call_ensures(attribute_name, (class_id, version, index), r)]
            call_ensures(attribute_name, (class_id, version, index), r) ==> if index == 1 {
                r == Some("logical_name")
            } else {
                match described(class_id, version) {
                    None => r is None,
                    Some(c) => match c.attribute(index) {
                        None => r is None,
                        Some(a) => r == Some(a.name) && a.index == index,
                    },
                }
            },
        forall|r: Option<&'static str>|
            #![trigger call_ensures(method_name, (class_id, version, index), r)]
            call_ensures(method_name, (class_id, version, index), r) ==> match described(
                class_id,
                version,
            ) {
                None => r is None,
                Some(c) => match c.method(index) {
                    None => r is None,
                    Some(m) => r == Some(m.name) && m.index == index,
                },
            },
        forall|r: Option<&'static str>|
            #![trigger call_ensures(class_name, (class_id,), r)]
            call_ensures(class_name, (class_id,), r) ==> match described(class_id, version) {
                None => r is None,
                Some(c) => found(class_id, None) matches Some(f) && r == Some(f.name) && f.class_id
                    == class_id,
            },
        forall|r: Option<ClassDescriptor>|
            #![trigger call_ensures(describe, (class_id, version), r)]
            call_ensures(describe, (class_id, version), r) ==> match r {
                Some(c) => c.class_id == class_id && described(class_id, version) == Some(c@) && (
                found(class_id, Some(version)) is Some ==> c.version == version),
                None => found(class_id, None) is None,
            },
{
    law_description_is_of_the_class(class_id, version);
    lemma_place(class_id, None, 0);
    lemma_place(class_id, Some(version), 0);
    if let Some(c) = described(class_id, version) {
        law_numbers_find_their_own(c.attributes, c.methods, index);
    }
}

} // verus!
