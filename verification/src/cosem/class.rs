//! Interface classes: what an object is.

use vstd::prelude::*;

use super::registry::describe;
use crate::obis::Obis;
#[allow(unused_imports)]
use super::registry::described;

verus! {

/// The data type an attribute holds, as its class description gives it.
///
/// [`AttrType::Any`] is for attributes whose type depends on the object — a `Data`
/// object's value, a register's value — and for the ones this crate has not tabulated.
#[derive(Debug, Clone, Copy, PartialEq, Eq)]
#[non_exhaustive]
#[allow(missing_docs)]
pub enum AttrType {
    Any,
    OctetString,
    VisibleString,
    Utf8String,
    Boolean,
    BitString,
    Integer,
    Long,
    DoubleLong,
    Long64,
    Unsigned,
    LongUnsigned,
    DoubleLongUnsigned,
    Long64Unsigned,
    Enum,
    Float32,
    Float64,
    DateTime,
    Date,
    Time,
    Array,
    Structure,
    /// The `scaler_unit` structure: an integer exponent and a unit enumeration.
    ScalerUnit,
    /// A six-byte octet string holding a logical name.
    ObisCode,
}

/// What an association may do with an attribute, before access rights narrow it.
#[derive(Debug, Clone, Copy, PartialEq, Eq)]
pub enum DefaultAccess {
    /// Readable only.
    Read,
    /// Readable and writable.
    ReadWrite,
    /// Writable only.
    Write,
}

/// One attribute of a class.
#[derive(Debug, Clone, Copy, PartialEq, Eq)]
pub struct AttributeInfo {
    /// The attribute index, counting from 1.
    pub index: i8,
    /// Its name.
    pub name: &'static str,
    /// Its type.
    pub ty: AttrType,
    /// What the class definition allows.
    pub access: DefaultAccess,
}

/// One method of a class.
#[derive(Debug, Clone, Copy, PartialEq, Eq)]
pub struct MethodInfo {
    /// The method index, counting from 1.
    pub index: i8,
    /// Its name.
    pub name: &'static str,
}

/// An attribute, by its place, its name, its type and what may be done with it.
pub open spec fn attribute(
    index: i8,
    name: &'static str,
    ty: AttrType,
    access: DefaultAccess,
) -> AttributeInfo {
    AttributeInfo { index, name, ty, access }
}

/// A method, by its place and its name.
pub open spec fn method(index: i8, name: &'static str) -> MethodInfo {
    MethodInfo { index, name }
}

/// What a class is.
#[verifier::ext_equal]
pub struct ClassV {
    /// The class identifier.
    pub class_id: u16,
    /// The version.
    pub version: u8,
    /// The class name.
    pub name: &'static str,
    /// Its attributes.
    pub attributes: Seq<AttributeInfo>,
    /// Its methods.
    pub methods: Seq<MethodInfo>,
}

impl ClassV {
    /// The first attribute with an index.
    pub open spec fn attribute(self, index: i8) -> Option<AttributeInfo> {
        attribute_in(self.attributes, index)
    }

    /// The first method with an index.
    pub open spec fn method(self, index: i8) -> Option<MethodInfo> {
        method_in(self.methods, index)
    }
}

/// The first attribute of some with an index.
pub open spec fn attribute_in(s: Seq<AttributeInfo>, index: i8) -> Option<AttributeInfo>
    decreases s.len(),
{
    if s.len() == 0 {
        None
    } else if s[0].index == index {
        Some(s[0])
    } else {
        attribute_in(s.skip(1), index)
    }
}

/// The first method of some with an index.
pub open spec fn method_in(s: Seq<MethodInfo>, index: i8) -> Option<MethodInfo>
    decreases s.len(),
{
    if s.len() == 0 {
        None
    } else if s[0].index == index {
        Some(s[0])
    } else {
        method_in(s.skip(1), index)
    }
}

/// A class as data: what a translator prints and what a generic server hosts.
#[derive(Debug, Clone, Copy, PartialEq, Eq)]
pub struct ClassDescriptor {
    /// The class identifier.
    pub class_id: u16,
    /// The version this descriptor describes.
    pub version: u8,
    /// The class name.
    pub name: &'static str,
    /// Its attributes. Empty when only the class name is tabulated.
    pub attributes: &'static [AttributeInfo],
    /// Its methods.
    pub methods: &'static [MethodInfo],
}

impl View for ClassDescriptor {
    type V = ClassV;

    open spec fn view(&self) -> ClassV {
        ClassV {
            class_id: self.class_id,
            version: self.version,
            name: self.name,
            attributes: self.attributes@,
            methods: self.methods@,
        }
    }
}

impl ClassDescriptor {
    /// The attribute with this index.
    #[must_use]
    pub fn attribute(&self, index: i8) -> (r: Option<&'static AttributeInfo>)
        ensures
            match r {
                Some(a) => self@.attribute(index) == Some(*a),
                None => self@.attribute(index) is None,
            },
    {
        let mut i: usize = 0;
        let all: &'static [AttributeInfo] = self.attributes;
        assert(all@.skip(0) =~= all@);
        while i < all.len()
            invariant
                i <= all.len(),
                all@ == self@.attributes,
                attribute_in(all@.skip(i as int), index) == self@.attribute(index),
            decreases all.len() - i,
        {
            assert(all@.skip(i as int).skip(1) =~= all@.skip(i + 1));
            if all[i].index == index {
                return Some(&all[i]);
            }
            i += 1;
        }
        None
    }

    /// The method with this index.
    #[must_use]
    pub fn method(&self, index: i8) -> (r: Option<&'static MethodInfo>)
        ensures
            match r {
                Some(m) => self@.method(index) == Some(*m),
                None => self@.method(index) is None,
            },
    {
        let mut i: usize = 0;
        let all: &'static [MethodInfo] = self.methods;
        assert(all@.skip(0) =~= all@);
        while i < all.len()
            invariant
                i <= all.len(),
                all@ == self@.methods,
                method_in(all@.skip(i as int), index) == self@.method(index),
            decreases all.len() - i,
        {
            assert(all@.skip(i as int).skip(1) =~= all@.skip(i + 1));
            if all[i].index == index {
                return Some(&all[i]);
            }
            i += 1;
        }
        None
    }

    /// True when only the class name is known, not its attributes.
    #[must_use]
    pub fn is_name_only(&self) -> (r: bool)
        ensures
            r == (self@.attributes.len() == 0),
    {
        self.attributes.len() == 0
    }
}

/// A COSEM interface class, as a type.
///
/// The version is part of the type, not a runtime field: `AssociationLn` version 3
/// encodes its access rights differently from version 2, and a client that treats them
/// as one type reads the wrong thing out of the object list.
pub trait InterfaceClass {
    /// The class identifier.
    const CLASS_ID: u16;

    /// The version this type implements.
    const VERSION: u8;

    /// The class name.
    const NAME: &'static str;

    /// What the class is.
    spec fn class() -> ClassV;

    /// The runtime descriptor for this class.
    fn descriptor() -> (r: ClassDescriptor)
        ensures
            r@ == Self::class(),
            r.class_id == Self::CLASS_ID,
            r.version == Self::VERSION,
            r.name == Self::NAME,
    ;
}

/// An object as a client sees it in an association's object list.
#[derive(Debug, Clone, Copy, PartialEq, Eq)]
pub struct ObjectRef {
    /// Which class.
    pub class_id: u16,
    /// Which version of it the server implements.
    pub version: u8,
    /// The object's logical name.
    pub logical_name: Obis,
}

impl ObjectRef {
    /// An object reference.
    #[must_use]
    pub fn new(class_id: u16, version: u8, logical_name: Obis) -> (r: Self)
        ensures
            r.class_id == class_id,
            r.version == version,
            r.logical_name == logical_name,
    {
        ObjectRef { class_id, version, logical_name }
    }

    /// The descriptor for this object's class, when the registry has one.
    #[must_use]
    pub fn describe(&self) -> (r: Option<ClassDescriptor>)
        ensures
            match r {
                Some(c) => described(self.class_id, self.version) == Some(c@),
                None => described(self.class_id, self.version) is None,
            },
    {
        describe(self.class_id, self.version)
    }
}

} // verus!
