//! DLMS/COSEM: the data model, the wire formats, the protection and the two ends of an
//! association, each stated as a contract and proved.
//!
//! * [`codec`] is the cursor every decoder reads through and the sink every encoder
//!   writes to, and [`fixed`] a sink that owns its buffer; [`ber`] and [`axdr`] are the two encodings built on it.
//! * [`obis`] and [`cosem`] are the object model: how objects are named, what they are and
//!   what may be done with them.
//! * [`acse`] opens and closes an association; [`xdlms`] holds the services that run inside
//!   one.
//! * [`security`] protects what is sent, and refuses what was sent before.
//! * [`client`] and [`server`] are the two ends. Neither opens a connection: they turn bytes
//!   into bytes. [`exchange`] states that they understand each other.

pub mod acse;
pub mod axdr;
pub mod ber;
pub mod bytes;
pub mod client;
pub mod codec;
pub mod cosem;
pub mod exchange;
pub mod fixed;
pub mod obis;
pub mod security;
pub mod server;
pub mod text;
pub mod xdlms;

pub use codec::{Error, ErrorKind, Reader, Result, SliceWriter, Writer};
pub use obis::Obis;
pub use xdlms::Apdu;
