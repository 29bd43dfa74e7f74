//! What rights allow, what an object list says, and what names stand for.

use vstd::prelude::*;

#[allow(unused_imports)]
use super::access::{
    access_byte, access_of, entry_of, right_of, rights_of, AssociationVersion, AttributeAccess,
    AttributeRight, EntryV, MethodAccess,
};
#[allow(unused_imports)]
use super::class::{attribute_in, method_in, AttributeInfo, MethodInfo};
#[allow(unused_imports)]
use super::sn::{first_target, ShortName};
#[allow(unused_imports)]
use crate::axdr::data::{p_data, p_nth, BitV, Data, DataV};
#[allow(unused_imports)]
use crate::codec::{Cursor, Error};

verus! {

/// What the flags of a right say: an attribute may be read by the lowest and written by the
/// next; a request for it has to be protected by any of the next three; and a method may be
/// invoked by the lowest.
pub proof fn law_rights_are_flags(b: u8)
    ensures
        AttributeAccess(b).can_read() == (b % 2 == 1),
        AttributeAccess(b).can_write() == (b / 2 % 2 == 1),
        AttributeAccess(b).requires_protection() == (b / 4 % 8 != 0),
        MethodAccess(b).can_invoke() == (b % 2 == 1),
        AttributeAccess::from_bits_truncate(b).0 == b,
        AttributeAccess::empty().0 == 0,
        MethodAccess::empty().0 == 0,
{
    assert({
        &&& (b & 0x01 == 0x01) == (b % 2 == 1)
        &&& (b & 0x02 == 0x02) == (b / 2 % 2 == 1)
        &&& (b & (0x04u8 | 0x08u8 | 0x10u8) != 0) == (b / 4 % 8 != 0)
        &&& b & 0xFF == b
    }) by (bit_vector);
}

/// What the older modes allow, one by one: reading, writing, both, and the same three with a
/// protected request; and for a method, invoking without and with one. No other mode allows
/// anything.
pub proof fn law_older_modes(mode: u8)
    ensures
        AttributeAccess::from_legacy(mode).can_read() == (mode == 1 || mode == 3 || mode == 4
            || mode == 6),
        AttributeAccess::from_legacy(mode).can_write() == (mode == 2 || mode == 3 || mode == 5
            || mode == 6),
        AttributeAccess::from_legacy(mode).requires_protection() == (4 <= mode <= 6),
        MethodAccess::from_legacy(mode).can_invoke() == (mode == 1 || mode == 2),
        MethodAccess::from_legacy(mode).0 == if mode == 1 {
            0x01u8
        } else if mode == 2 {
            0x05u8
        } else {
            0u8
        },
{
    assert({
        &&& 0x01u8 | 0x02u8 == 0x03u8
        &&& 0x01u8 | 0x04u8 == 0x05u8
        &&& 0x02u8 | 0x04u8 == 0x06u8
        &&& 0x03u8 | 0x04u8 == 0x07u8
    }) by (bit_vector);
    law_rights_are_flags(AttributeAccess::from_legacy(mode).0);
    law_rights_are_flags(MethodAccess::from_legacy(mode).0);
}

/// In an object list of the third version a mode is a bit string, and its one byte holds the
/// flags as they are; in an older one it is a number that stands for them.
pub proof fn law_modes_are_read_by_version(b: BitV, n: u8)
    requires
        b.bits == 8,
        b.bytes.len() == 1,
    ensures
        access_of(DataV::BitString(b), AssociationVersion::V3).0 == b.bytes[0],
        access_of(DataV::Unsigned(n), AssociationVersion::V3).0 == n,
        access_of(DataV::Enum(n), AssociationVersion::Legacy) == AttributeAccess::from_legacy(n),
        access_of(DataV::Unsigned(n), AssociationVersion::Legacy) == AttributeAccess::from_legacy(
            n,
        ),
        access_of(DataV::BitString(b), AssociationVersion::Legacy).0 == 0,
{
    let x = b.bytes[0];
    reveal_with_fuel(BitV::number, 9);
    assert({
        &&& n & 0xFF == n
        &&& x & 0xFF == x
        &&& x as u32 >> 0u32 == x as u32
        &&& x == (if x & (0x80u8 >> 0u8) != 0 { 128u8 } else { 0u8 })
            + (if x & (0x80u8 >> 1u8) != 0 { 64u8 } else { 0u8 })
            + (if x & (0x80u8 >> 2u8) != 0 { 32u8 } else { 0u8 })
            + (if x & (0x80u8 >> 3u8) != 0 { 16u8 } else { 0u8 })
            + (if x & (0x80u8 >> 4u8) != 0 { 8u8 } else { 0u8 })
            + (if x & (0x80u8 >> 5u8) != 0 { 4u8 } else { 0u8 })
            + (if x & (0x80u8 >> 6u8) != 0 { 2u8 } else { 0u8 })
            + (if x & (0x80u8 >> 7u8) != 0 { 1u8 } else { 0u8 })
    }) by (bit_vector);
    assert(b.number(8) == x);
}

/// What an entry of an object list says: the class, the version and the name that stand in
/// it, in that order, and the rights behind them if there are any.
pub proof fn law_entry_says(d: DataV)
    ensures
        entry_of(d) matches Ok(e) ==> {
            &&& d matches DataV::Structure(s)
            &&& s.item(0) matches Ok(c)
            &&& s.item(1) matches Ok(v)
            &&& s.item(2) matches Ok(n)
            &&& c.integer() == Some(e.class_id as int)
            &&& v.integer() == Some(e.version as int)
            &&& n.string() == Some(e.logical_name)
            &&& e.logical_name.len() == 6
            &&& e.access_rights == match s.item(3) {
                Ok(r) => Some(r),
                Err(_) => None,
            }
        },
        d matches DataV::Structure(s)
            ==> (s.item(0) is Ok && s.item(1) is Ok && s.item(2) is Ok && (
        s.item(0)->Ok_0.integer() matches Some(c) && 0 <= c <= 0xFFFF) && (
        s.item(1)->Ok_0.integer() matches Some(v) && 0 <= v <= 0xFF) && (
        s.item(2)->Ok_0.string() matches Some(n) && n.len() == 6) ==> entry_of(d) is Ok),
{
}

/// What a right of an object list says: the attribute, what may be done with it, and whether
/// parts of it can be asked for.
pub proof fn law_right_says(d: DataV, version: AssociationVersion)
    ensures
        right_of(d, version) matches Ok(r) ==> {
            &&& d matches DataV::Structure(s)
            &&& s.item(0) matches Ok(id)
            &&& s.item(1) matches Ok(mode)
            &&& id.integer() == Some(r.attribute_id as int)
            &&& r.access == access_of(mode, version)
            &&& r.has_selectors == (s.item(2) is Ok && !(s.item(2)->Ok_0 is Null))
        },
{
}

proof fn lemma_rights_in_order(c: Cursor, n: nat, depth: nat, version: AssociationVersion, i: nat)
    requires
        rights_of(c, n, depth, version) is Ok,
        i < n,
    ensures
        rights_of(c, n, depth, version)->Ok_0.len() == n,
        p_nth(c, i, depth) matches Ok((v, _)) && right_of(v, version)
            == Ok::<AttributeRight, Error>(
            rights_of(c, n, depth, version)->Ok_0[i as int],
        ),
    decreases n,
{
    let (v, d) = p_data(c, depth)->Ok_0;
    let rest = rights_of(d, (n - 1) as nat, depth, version);
    if i > 0 {
        lemma_rights_in_order(d, (n - 1) as nat, depth, version, (i - 1) as nat);
    } else if n > 1 {
        lemma_rights_in_order(d, (n - 1) as nat, depth, version, 0);
    }
}

/// The rights of an object list entry are those of its list, one by one and in order; an
/// entry without a list has none.
pub proof fn law_rights_are_in_order(e: EntryV, version: AssociationVersion, i: nat)
    requires
        e.rights(version) is Ok,
    ensures
        match e.access_rights {
            Some(DataV::Structure(s)) => match s.item(0) {
                Ok(DataV::Array(list)) => {
                    &&& e.rights(version)->Ok_0.len() == list.count
                    &&& i < list.count ==> (list.item(i) matches Ok(v) && right_of(v, version)
                        == Ok::<AttributeRight, Error>(e.rights(version)->Ok_0[i as int]))
                },
                _ => e.rights(version)->Ok_0.len() == 0,
            },
            _ => e.rights(version)->Ok_0.len() == 0,
        },
{
    if let Some(list) = e.right_list() {
        if list.count > 0 {
            lemma_rights_in_order(list.start(), list.count, list.depth as nat, version, 0);
        }
        if i < list.count {
            lemma_rights_in_order(list.start(), list.count, list.depth as nat, version, i);
        }
    }
}

/// Short names are eight apart: the attributes from the base name on, and the methods from
/// where they begin, each as many as the object has and no further than there are names.
pub proof fn law_short_names_are_eight_apart(o: ShortName, i: i8)
    ensures
        o.attribute_name(i) is Some <==> 1 <= i <= o.attributes && o.base + 8 * (i - 1) <= 0xFFFF,
        o.attribute_name(i) matches Some(n) ==> n == o.base + 8 * (i - 1),
        o.method_name(i) is Some <==> 1 <= i <= o.methods && o.method_offset is Some && o.base
            + o.method_offset->0 + 8 * (i - 1) <= 0xFFFF,
        o.method_name(i) matches Some(n) ==> n == o.base + o.method_offset->0 + 8 * (i - 1),
{
}

/// A name belongs to the first object of a table that has it, and to none where none has.
pub proof fn law_first_owner_answers(objects: Seq<ShortName>, name: u16, i: int)
    ensures
        0 <= i < objects.len() && objects[i].target(name) is Some && (forall|j: int|
            0 <= j < i ==> (#[trigger] objects[j]).target(name) is None) ==> first_target(
            objects,
            name,
        ) == objects[i].target(name),
        (forall|j: int| 0 <= j < objects.len() ==> (#[trigger] objects[j]).target(name) is None)
            ==> first_target(objects, name) is None,
    decreases objects.len(),
{
    if objects.len() > 0 {
        let rest = objects.skip(1);
        law_first_owner_answers(rest, name, i - 1);
        assert forall|j: int| 0 <= j < rest.len() implies rest[j] == objects[j + 1] by {}
        if objects[0].target(name) is None && 0 < i && i < objects.len() && (forall|j: int|
            0 <= j < i ==> (#[trigger] objects[j]).target(name) is None) {
            assert forall|j: int| 0 <= j < i - 1 implies (#[trigger] rest[j]).target(
                name,
            ) is None by {
                assert(objects[j + 1].target(name) is None);
            }
        }
        if forall|j: int| 0 <= j < objects.len() ==> (#[trigger] objects[j]).target(name) is None {
            assert(objects[0].target(name) is None);
            assert forall|j: int| 0 <= j < rest.len() implies (#[trigger] rest[j]).target(
                name,
            ) is None by {
                assert(objects[j + 1].target(name) is None);
            }
        }
    }
}

/// An attribute or a method of a class is found by its number: one that is found has it, and
/// one that is there is found.
pub proof fn law_numbers_find_their_own(a: Seq<AttributeInfo>, m: Seq<MethodInfo>, index: i8)
    ensures
        attribute_in(a, index) matches Some(x) ==> x.index == index && a.contains(x),
        attribute_in(a, index) is None ==> forall|i: int|
            0 <= i < a.len() ==> (#[trigger] a[i]).index != index,
        method_in(m, index) matches Some(x) ==> x.index == index && m.contains(x),
        method_in(m, index) is None ==> forall|i: int|
            0 <= i < m.len() ==> (#[trigger] m[i]).index != index,
    decreases a.len() + m.len(),
{
    if a.len() > 0 {
        let rest = a.skip(1);
        law_numbers_find_their_own(rest, Seq::empty(), index);
        assert(a[0] == a[0]);
        assert forall|i: int| 0 <= i < a.len() && i > 0 implies (#[trigger] a[i])
            == rest[i - 1] by {}
        if let Some(x) = attribute_in(rest, index) {
            let i = choose|i: int| 0 <= i < rest.len() && rest[i] == x;
            assert(a[i + 1] == x);
        }
        assert(a.contains(a[0]));
    }
    if m.len() > 0 {
        let rest = m.skip(1);
        law_numbers_find_their_own(Seq::empty(), rest, index);
        assert(m.contains(m[0]));
        assert forall|i: int| 0 <= i < m.len() && i > 0 implies (#[trigger] m[i])
            == rest[i - 1] by {}
        if let Some(x) = method_in(rest, index) {
            let i = choose|i: int| 0 <= i < rest.len() && rest[i] == x;
            assert(m[i + 1] == x);
        }
    }
}

/// The byte of a mode is the first of its bit string, or the number that it is.
pub proof fn law_mode_byte(d: Data<'_>)
    ensures
        forall|r: Option<u8>|
            #![trigger call_ensures(access_byte, (&d,), r)]
            call_ensures(access_byte, (&d,), r) ==> match d@ {
                DataV::BitString(b) => if b.bytes.len() == 0 {
                    r is None
                } else {
                    r == Some(b.bytes[0])
                },
                DataV::Unsigned(n) | DataV::Enum(n) => r == Some(n),
                DataV::OctetString(_) | DataV::Null | DataV::Boolean(_) => r is None,
                _ => true,
            },
{
}

/// The flags by their places, and how rights are put together and compared: together they have
/// what either has, one covers another where it has all of it, and two meet where they share
/// something.
pub proof fn law_rights_combine(a: u8, b: u8, f: u8)
    requires
        f == 1 || f == 2 || f == 4 || f == 8 || f == 16 || f == 32 || f == 64 || f == 128,
    ensures
        AttributeAccess::READ().0 == 1 && AttributeAccess::WRITE().0 == 2,
        AttributeAccess::AUTHENTICATED_REQUEST().0 == 4 && AttributeAccess::ENCRYPTED_REQUEST().0
            == 8 && AttributeAccess::DIGITALLY_SIGNED_REQUEST().0 == 16,
        AttributeAccess::AUTHENTICATED_RESPONSE().0 == 32
            && AttributeAccess::ENCRYPTED_RESPONSE().0 == 64
            && AttributeAccess::DIGITALLY_SIGNED_RESPONSE().0 == 128,
        MethodAccess::ACCESS().0 == 1,
        MethodAccess::AUTHENTICATED_REQUEST().0 == 4 && MethodAccess::ENCRYPTED_REQUEST().0 == 8
            && MethodAccess::DIGITALLY_SIGNED_REQUEST().0 == 16,
        MethodAccess::AUTHENTICATED_RESPONSE().0 == 32 && MethodAccess::ENCRYPTED_RESPONSE().0
            == 64 && MethodAccess::DIGITALLY_SIGNED_RESPONSE().0 == 128,
        AttributeAccess(a).contains(AttributeAccess(f)) == (a / f % 2 == 1),
        AttributeAccess(a).union(AttributeAccess(b)).contains(AttributeAccess(f)) == (
        AttributeAccess(a).contains(AttributeAccess(f)) || AttributeAccess(b).contains(
            AttributeAccess(f),
        )),
        AttributeAccess(a).intersects(AttributeAccess(f)) == AttributeAccess(a).contains(
            AttributeAccess(f),
        ),
        AttributeAccess(a).contains(AttributeAccess(b)) && AttributeAccess(b).contains(
            AttributeAccess(f),
        ) ==> AttributeAccess(a).contains(AttributeAccess(f)),
        AttributeAccess(a).contains(AttributeAccess(f)) && AttributeAccess(b).contains(
            AttributeAccess(f),
        ) ==> AttributeAccess(a).intersects(AttributeAccess(b)),
        MethodAccess(a).contains(MethodAccess(f)) == (a / f % 2 == 1),
        MethodAccess(a).union(MethodAccess(b)).contains(MethodAccess(f)) == (MethodAccess(
            a,
        ).contains(MethodAccess(f)) || MethodAccess(b).contains(MethodAccess(f))),
        MethodAccess(a).contains(MethodAccess(f)) && MethodAccess(b).contains(MethodAccess(f))
            ==> MethodAccess(a).intersects(MethodAccess(b)),
{
    assert({
        &&& (a & f == f) == (a / f % 2 == 1)
        &&& ((a | b) & f == f) == (a & f == f || b & f == f)
        &&& (a & f != 0) == (a & f == f)
        &&& a & b == b && b & f == f ==> a & f == f
        &&& a & f == f && b & f == f ==> a & b != 0
    }) by (bit_vector)
        requires
            f == 1 || f == 2 || f == 4 || f == 8 || f == 16 || f == 32 || f == 64 || f == 128,
    ;
}

} // verus!
