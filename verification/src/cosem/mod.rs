//! The COSEM object model: interface classes, access rights, profiles.
//!
//! The object model describes what a meter *is*; the application layer describes how to ask
//! it. Keeping them apart is what lets the same model serve a server that hosts objects and
//! a client that reads them.

pub mod access;
pub mod class;
pub mod classes;
pub mod laws;
pub mod profile;
pub mod registry;
pub mod sn;
pub mod tables;

pub use access::{
    AssociationVersion, AttributeAccess, AttributeRight, MethodAccess, MethodRight, ObjectListEntry,
};
pub use class::{
    AttrType, AttributeInfo, ClassDescriptor, DefaultAccess, InterfaceClass, MethodInfo, ObjectRef,
};
pub use profile::{CaptureObject, EntryDescriptor, ProfileBuffer, RangeDescriptor, MAX_COLUMNS};
pub use registry::{
    attribute_name, class_name, describe, method_name, CLASS_COUNT, DETAILED_CLASS_COUNT,
    NAMED_CLASS_COUNT,
};
pub use sn::{ShortName, ShortNameTarget};
