//! xDLMS — the services, and how they are written.

pub mod apdu;
pub mod ciphering;
pub mod ids;
pub mod initiate;
pub mod laws;
pub mod list;
pub mod result;
pub mod service;
pub mod tag;
pub mod wire;

pub use apdu::Apdu;
pub use ciphering::{
    CipheredService, GeneralCiphering, GeneralGloCiphering, KeyInfo, SecurityControl,
};
pub use ids::{InvokeId, LongInvokeId, OptionalDateTime};
pub use initiate::{
    Conformance, InitiateRequest, InitiateResponse, CURRENT_ASSOCIATION_SN, DLMS_VERSION,
    VAA_NAME_LN,
};
pub use result::{ActionResult, DataAccessResult, ExceptionResponse, ServiceError, StateError};
pub use service::{
    AccessRequest, AccessRequestSpecification, AccessResponse, AccessResponseSpecification,
    ActionRequest, ActionResponse, ActionResponseWithOptionalData, AttributeDescriptor,
    AttributeDescriptorWithSelection, BlockResult, DataBlockG, DataBlockSA, DataNotification,
    GetDataResult, GetRequest, GetResponse, MethodDescriptor, ReadRequest, ReadResponse, ReadResult,
    SelectiveAccess, SetRequest, SetResponse, UnconfirmedWriteRequest, VariableAccess, WriteRequest,
    WriteResponse, WriteResult, MAX_ACCESS_ITEMS,
};
pub use tag::{ApduTag, Protection};
