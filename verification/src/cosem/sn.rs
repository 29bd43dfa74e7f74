//! Mapping short names onto objects.
//!
//! A short name is a sixteen-bit number standing for one attribute or one method of one
//! object, counted from that object's **base name** — which the meter publishes in its
//! own `Association SN` object list, so neither end has to know it in advance.
//!
//! Half the mapping is a formula and half is a table:
//!
//! * **Attributes.** Attribute *n* of an object based at `x` is `x + (n − 1) × 8`.
//! * **Methods.** Each interface class states its own method offset. `Register` has three
//!   attributes and puts `reset` at `x + 0x28` — not "after the attributes", and not any
//!   function of the attribute count.
//!
//! So [`ShortName::with_methods`] takes the offset as a value, and a class whose offset is
//! unknown has no addressable methods. The parties who need it already have it: a meter
//! knows its own, and a client reads base names off the meter. Invoking the wrong method
//! is worse than invoking none.

use vstd::prelude::*;

use crate::obis::Obis;

verus! {

/// How far apart consecutive attributes of one object sit.
pub const ATTRIBUTE_STRIDE: u16 = 8;

/// What a short name turned out to address.
#[derive(Debug, Clone, Copy, PartialEq, Eq)]
pub enum ShortNameTarget {
    /// An attribute of the object.
    Attribute {
        /// The object's class.
        class_id: u16,
        /// The object's logical name.
        logical_name: Obis,
        /// Which attribute, counting from one.
        attribute_id: i8,
    },
    /// A method of the object.
    Method {
        /// The object's class.
        class_id: u16,
        /// The object's logical name.
        logical_name: Obis,
        /// Which method, counting from one.
        method_id: i8,
    },
}

/// One object's short-name mapping.
///
/// A store keeps a table of these — one per object it exposes to a short-name
/// association — and answers by scanning it with [`resolve`].
#[derive(Debug, Clone, Copy, PartialEq, Eq)]
pub struct ShortName {
    /// The object's base name — the short name of its attribute 1, the logical name.
    pub base: u16,
    /// The object's class.
    pub class_id: u16,
    /// The object's logical name.
    pub logical_name: Obis,
    /// Where this class's methods start, as an offset from `base`.
    ///
    /// `None` for a class with no methods, and for one whose offset the caller does not
    /// know — its methods are then not addressable, which beats invoking the wrong one.
    pub method_offset: Option<u16>,
    /// How many attributes the class has, so a name past the last one is refused.
    pub attributes: u8,
    /// How many methods the class has.
    pub methods: u8,
}

/// A name, where it is one.
pub open spec fn in_range(name: int) -> Option<u16> {
    if name <= u16::MAX {
        Some(name as u16)
    } else {
        None
    }
}

impl ShortName {
    /// The short name of an attribute.
    pub open spec fn attribute_name(self, index: i8) -> Option<u16> {
        if 1 <= index <= self.attributes {
            in_range(self.base + (index - 1) * ATTRIBUTE_STRIDE)
        } else {
            None
        }
    }

    /// The short name of a method.
    pub open spec fn method_name(self, index: i8) -> Option<u16> {
        match self.method_offset {
            Some(offset) => if 1 <= index <= self.methods {
                in_range(self.base + offset + (index - 1) * ATTRIBUTE_STRIDE)
            } else {
                None
            },
            None => None,
        }
    }

    /// What a name addresses. Numbers count from one, and 127 is the last there is.
    pub open spec fn target(self, name: u16) -> Option<ShortNameTarget> {
        let offset = name - self.base;
        if offset < 0 || offset % 8 != 0 {
            None
        } else if self.method_offset matches Some(m) && offset >= m {
            let step = (offset - self.method_offset->0) / 8;
            if step < 0x7F && step < self.methods {
                Some(
                    ShortNameTarget::Method {
                        class_id: self.class_id,
                        logical_name: self.logical_name,
                        method_id: (step + 1) as i8,
                    },
                )
            } else {
                None
            }
        } else if offset / 8 < 0x7F && offset / 8 < self.attributes {
            Some(
                ShortNameTarget::Attribute {
                    class_id: self.class_id,
                    logical_name: self.logical_name,
                    attribute_id: (offset / 8 + 1) as i8,
                },
            )
        } else {
            None
        }
    }

    /// An object at `base`, of class `class_id`, with `attributes` attributes and no
    /// methods addressable.
    ///
    /// The counts are not optional. An offset given without a count would let a name far
    /// past the object's end resolve to "method 32" — a wrong answer that looks like a
    /// right one.
    #[must_use]
    #[verifier::allow_in_spec]
    pub fn new(base: u16, class_id: u16, logical_name: Obis, attributes: u8) -> Self
        returns
            (ShortName {
                base,
                class_id,
                logical_name,
                method_offset: None,
                attributes,
                methods: 0,
            }),
    {
        ShortName { base, class_id, logical_name, method_offset: None, attributes, methods: 0 }
    }

    /// Where this class's methods start, relative to the base name, and how many it has.
    ///
    /// The offset is the class's own; see the module documentation.
    #[must_use]
    #[verifier::allow_in_spec]
    pub fn with_methods(self, offset: u16, count: u8) -> Self
        returns
            (ShortName { method_offset: Some(offset), methods: count, ..self }),
    {
        ShortName { method_offset: Some(offset), methods: count, ..self }
    }

    /// The short name of attribute `index`, counting from one.
    #[must_use]
    pub fn attribute(&self, index: i8) -> (r: Option<u16>)
        ensures
            r == self.attribute_name(index),
    {
        if index < 1 || index as u8 > self.attributes {
            return None;
        }
        let offset: u16 = (index as u16 - 1) * ATTRIBUTE_STRIDE;
        self.base.checked_add(offset)
    }

    /// The short name of method `index`, counting from one.
    ///
    /// `None` when this object's method offset is not known, which is the answer that
    /// keeps a guess off the wire.
    #[must_use]
    pub fn method(&self, index: i8) -> (r: Option<u16>)
        ensures
            r == self.method_name(index),
    {
        let method_offset = match self.method_offset {
            Some(m) => m,
            None => {
                return None;
            },
        };
        if index < 1 || index as u8 > self.methods {
            return None;
        }
        let steps: u16 = (index as u16 - 1) * ATTRIBUTE_STRIDE;
        match steps.checked_add(method_offset) {
            Some(offset) => self.base.checked_add(offset),
            None => None,
        }
    }

    /// What `name` addresses in this object, if anything.
    ///
    /// `None` when the name is below the base, past the end, or off the eight-byte grid.
    /// Numbers count from one and end at 127, so no name further on is anything's. All of
    /// these mean "not this object" rather than "malformed", so a store scanning a
    /// table moves on to the next entry.
    #[must_use]
    pub fn resolve(&self, name: u16) -> (r: Option<ShortNameTarget>)
        ensures
            r == self.target(name),
    {
        if name < self.base {
            return None;
        }
        let offset: u16 = name - self.base;
        if offset % ATTRIBUTE_STRIDE != 0 {
            return None;
        }
        // The method block wins where the two could overlap, because a class that states
        // a method offset has stated where its attributes stop.

        if let Some(method_offset) = self.method_offset {
            if offset >= method_offset {
                let step: u16 = (offset - method_offset) / ATTRIBUTE_STRIDE;
                if step < 0x7F && (step as u8) < self.methods {
                    return Some(
                        ShortNameTarget::Method {
                            class_id: self.class_id,
                            logical_name: self.logical_name,
                            method_id: step as i8 + 1,
                        },
                    );
                }
                return None;
            }
        }
        let step: u16 = offset / ATTRIBUTE_STRIDE;
        if step >= 0x7F || (step as u8) >= self.attributes {
            return None;
        }
        Some(
            ShortNameTarget::Attribute {
                class_id: self.class_id,
                logical_name: self.logical_name,
                attribute_id: step as i8 + 1,
            },
        )
    }
}

/// What the first of a run of objects that owns a name has under it.
pub open spec fn first_target(objects: Seq<ShortName>, name: u16) -> Option<ShortNameTarget>
    decreases objects.len(),
{
    if objects.len() == 0 {
        None
    } else if objects[0].target(name) is Some {
        objects[0].target(name)
    } else {
        first_target(objects.skip(1), name)
    }
}

/// Find which of `objects` owns `name`.
///
/// A linear scan: short-name devices are the small ones, and a table of thirty entries is
/// cheaper to walk than to index.
#[must_use]
pub fn resolve(objects: &[ShortName], name: u16) -> (r: Option<ShortNameTarget>)
    ensures
        r == first_target(objects@, name),
{
    let mut i: usize = 0;
    assert(objects@.skip(0) =~= objects@);
    while i < objects.len()
        invariant
            i <= objects@.len(),
            first_target(objects@, name) == first_target(objects@.skip(i as int), name),
        decreases objects@.len() - i,
    {
        assert(objects@.skip(i as int)[0] == objects@[i as int]);
        assert(objects@.skip(i as int).skip(1) =~= objects@.skip(i + 1));
        if let Some(t) = objects[i].resolve(name) {
            return Some(t);
        }
        i += 1;
    }
    None
}

/// Resolving is the inverse of naming: the name of an attribute addresses that attribute.
/// Where the object has methods, the attribute has to lie before them, because the method
/// block wins where the two overlap.
pub proof fn law_attribute_names_resolve(o: ShortName, index: i8)
    requires
        o.attribute_name(index) is Some,
        o.method_offset matches Some(m) ==> (index - 1) * 8 < m,
    ensures
        o.target(o.attribute_name(index)->0) == Some(
            ShortNameTarget::Attribute {
                class_id: o.class_id,
                logical_name: o.logical_name,
                attribute_id: index,
            },
        ),
{
}

/// Resolving is the inverse of naming: the name of a method addresses that method. The
/// methods have to lie on the same grid as the attributes.
pub proof fn law_method_names_resolve(o: ShortName, index: i8)
    requires
        o.method_name(index) is Some,
        o.method_offset->0 % 8 == 0,
    ensures
        o.target(o.method_name(index)->0) == Some(
            ShortNameTarget::Method {
                class_id: o.class_id,
                logical_name: o.logical_name,
                method_id: index,
            },
        ),
{
}

/// Naming is the inverse of resolving: what a name addresses is numbered from one, belongs to
/// the object and has that name. For a method, the methods have to lie on the same grid as
/// the attributes.
pub proof fn law_resolved_names_are_names(o: ShortName, name: u16)
    ensures
        o.target(name) matches Some(ShortNameTarget::Attribute {
            class_id,
            logical_name,
            attribute_id,
        }) ==> attribute_id >= 1 && o.attribute_name(attribute_id) == Some(name) && class_id
            == o.class_id && logical_name == o.logical_name,
        o.method_offset matches Some(m) && m % 8 == 0 ==> (o.target(name) matches Some(
            ShortNameTarget::Method { class_id, logical_name, method_id },
        ) ==> method_id >= 1 && o.method_name(method_id) == Some(name) && class_id == o.class_id
            && logical_name == o.logical_name),
        o.method_offset is None ==> !(o.target(name) matches Some(ShortNameTarget::Method { .. })),
{
}

/// No two attributes of an object have the same name, nor two methods.
pub proof fn law_names_differ(o: ShortName, i: i8, j: i8)
    requires
        i != j,
    ensures
        o.attribute_name(i) is Some ==> o.attribute_name(i) != o.attribute_name(j),
        o.method_name(i) is Some ==> o.method_name(i) != o.method_name(j),
{
}

} // verus!
