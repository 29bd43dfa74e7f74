//! The tags that say what an APDU is.

use vstd::prelude::*;

verus! {

/// Which key set a ciphered tag names.
#[derive(Debug, Clone, Copy, PartialEq, Eq, Structural)]
pub enum Protection {
    /// `glo-`: the global key set.
    Global,
    /// `ded-`: the key of the association.
    Dedicated,
}

/// What an APDU is.
#[derive(Debug, Clone, Copy, PartialEq, Eq, Structural)]
pub enum ApduTag {
    /// `initiate-request`.
    InitiateRequest,
    /// `read-request`.
    ReadRequest,
    /// `write-request`.
    WriteRequest,
    /// `initiate-response`.
    InitiateResponse,
    /// `read-response`.
    ReadResponse,
    /// `write-response`.
    WriteResponse,
    /// `confirmed-service-error`.
    ConfirmedServiceError,
    /// `unconfirmed-write-request`.
    UnconfirmedWriteRequest,
    /// `information-report`.
    InformationReport,
    /// `data-notification`.
    DataNotification,
    /// `glo-initiate-request`.
    GloInitiateRequest,
    /// `glo-read-request`.
    GloReadRequest,
    /// `glo-write-request`.
    GloWriteRequest,
    /// `glo-initiate-response`.
    GloInitiateResponse,
    /// `glo-read-response`.
    GloReadResponse,
    /// `glo-write-response`.
    GloWriteResponse,
    /// `glo-confirmed-service-error`.
    GloConfirmedServiceError,
    /// `glo-unconfirmed-write-request`.
    GloUnconfirmedWriteRequest,
    /// `glo-information-report`.
    GloInformationReport,
    /// `ded-read-request`.
    DedReadRequest,
    /// `ded-write-request`.
    DedWriteRequest,
    /// `ded-read-response`.
    DedReadResponse,
    /// `ded-write-response`.
    DedWriteResponse,
    /// `ded-confirmed-service-error`.
    DedConfirmedServiceError,
    /// `ded-unconfirmed-write-request`.
    DedUnconfirmedWriteRequest,
    /// `ded-information-report`.
    DedInformationReport,
    /// The association request.
    Aarq,
    /// The answer to an association request.
    Aare,
    /// The release request.
    ReleaseRequest,
    /// The answer to a release request.
    ReleaseResponse,
    /// `get-request`.
    GetRequest,
    /// `set-request`.
    SetRequest,
    /// `event-notification-request`.
    EventNotification,
    /// `action-request`.
    ActionRequest,
    /// `get-response`.
    GetResponse,
    /// `set-response`.
    SetResponse,
    /// `action-response`.
    ActionResponse,
    /// `glo-get-request`.
    GloGetRequest,
    /// `glo-set-request`.
    GloSetRequest,
    /// `glo-event-notification-request`.
    GloEventNotification,
    /// `glo-action-request`.
    GloActionRequest,
    /// `glo-get-response`.
    GloGetResponse,
    /// `glo-set-response`.
    GloSetResponse,
    /// `glo-action-response`.
    GloActionResponse,
    /// `ded-get-request`.
    DedGetRequest,
    /// `ded-set-request`.
    DedSetRequest,
    /// `ded-event-notification-request`.
    DedEventNotification,
    /// `ded-action-request`.
    DedActionRequest,
    /// `ded-get-response`.
    DedGetResponse,
    /// `ded-set-response`.
    DedSetResponse,
    /// `ded-action-response`.
    DedActionResponse,
    /// `exception-response`.
    ExceptionResponse,
    /// `access-request`.
    AccessRequest,
    /// `access-response`.
    AccessResponse,
    /// `general-glo-ciphering`.
    GeneralGloCiphering,
    /// `general-ded-ciphering`.
    GeneralDedCiphering,
    /// `general-ciphering`.
    GeneralCiphering,
    /// `general-signing`.
    GeneralSigning,
    /// `general-block-transfer`.
    GeneralBlockTransfer,
}

/// What a tag byte stands for.
#[verifier::opaque]
pub open spec fn tag_of(v: u8) -> Option<ApduTag> {
    match v {
        0x01 => Some(ApduTag::InitiateRequest),
        0x05 => Some(ApduTag::ReadRequest),
        0x06 => Some(ApduTag::WriteRequest),
        0x08 => Some(ApduTag::InitiateResponse),
        0x0C => Some(ApduTag::ReadResponse),
        0x0D => Some(ApduTag::WriteResponse),
        0x0E => Some(ApduTag::ConfirmedServiceError),
        0x16 => Some(ApduTag::UnconfirmedWriteRequest),
        0x18 => Some(ApduTag::InformationReport),
        0x0F => Some(ApduTag::DataNotification),
        0x21 => Some(ApduTag::GloInitiateRequest),
        0x25 => Some(ApduTag::GloReadRequest),
        0x26 => Some(ApduTag::GloWriteRequest),
        0x28 => Some(ApduTag::GloInitiateResponse),
        0x2C => Some(ApduTag::GloReadResponse),
        0x2D => Some(ApduTag::GloWriteResponse),
        0x2E => Some(ApduTag::GloConfirmedServiceError),
        0x36 => Some(ApduTag::GloUnconfirmedWriteRequest),
        0x38 => Some(ApduTag::GloInformationReport),
        0x45 => Some(ApduTag::DedReadRequest),
        0x46 => Some(ApduTag::DedWriteRequest),
        0x4C => Some(ApduTag::DedReadResponse),
        0x4D => Some(ApduTag::DedWriteResponse),
        0x4E => Some(ApduTag::DedConfirmedServiceError),
        0x56 => Some(ApduTag::DedUnconfirmedWriteRequest),
        0x58 => Some(ApduTag::DedInformationReport),
        0x60 => Some(ApduTag::Aarq),
        0x61 => Some(ApduTag::Aare),
        0x62 => Some(ApduTag::ReleaseRequest),
        0x63 => Some(ApduTag::ReleaseResponse),
        0xC0 => Some(ApduTag::GetRequest),
        0xC1 => Some(ApduTag::SetRequest),
        0xC2 => Some(ApduTag::EventNotification),
        0xC3 => Some(ApduTag::ActionRequest),
        0xC4 => Some(ApduTag::GetResponse),
        0xC5 => Some(ApduTag::SetResponse),
        0xC7 => Some(ApduTag::ActionResponse),
        0xC8 => Some(ApduTag::GloGetRequest),
        0xC9 => Some(ApduTag::GloSetRequest),
        0xCA => Some(ApduTag::GloEventNotification),
        0xCB => Some(ApduTag::GloActionRequest),
        0xCC => Some(ApduTag::GloGetResponse),
        0xCD => Some(ApduTag::GloSetResponse),
        0xCF => Some(ApduTag::GloActionResponse),
        0xD0 => Some(ApduTag::DedGetRequest),
        0xD1 => Some(ApduTag::DedSetRequest),
        0xD2 => Some(ApduTag::DedEventNotification),
        0xD3 => Some(ApduTag::DedActionRequest),
        0xD4 => Some(ApduTag::DedGetResponse),
        0xD5 => Some(ApduTag::DedSetResponse),
        0xD7 => Some(ApduTag::DedActionResponse),
        0xD8 => Some(ApduTag::ExceptionResponse),
        0xD9 => Some(ApduTag::AccessRequest),
        0xDA => Some(ApduTag::AccessResponse),
        0xDB => Some(ApduTag::GeneralGloCiphering),
        0xDC => Some(ApduTag::GeneralDedCiphering),
        0xDD => Some(ApduTag::GeneralCiphering),
        0xDF => Some(ApduTag::GeneralSigning),
        0xE0 => Some(ApduTag::GeneralBlockTransfer),
        _ => None,
    }
}

/// The plain tag of a ciphered one, and the key set that it names.
#[verifier::opaque]
pub open spec fn plain_of(t: ApduTag) -> Option<(Protection, ApduTag)> {
    match t {
        ApduTag::GloInitiateRequest => Some((Protection::Global, ApduTag::InitiateRequest)),
        ApduTag::GloReadRequest => Some((Protection::Global, ApduTag::ReadRequest)),
        ApduTag::GloWriteRequest => Some((Protection::Global, ApduTag::WriteRequest)),
        ApduTag::GloInitiateResponse => Some((Protection::Global, ApduTag::InitiateResponse)),
        ApduTag::GloReadResponse => Some((Protection::Global, ApduTag::ReadResponse)),
        ApduTag::GloWriteResponse => Some((Protection::Global, ApduTag::WriteResponse)),
        ApduTag::GloConfirmedServiceError => Some(
            (Protection::Global, ApduTag::ConfirmedServiceError),
        ),
        ApduTag::GloUnconfirmedWriteRequest => Some(
            (Protection::Global, ApduTag::UnconfirmedWriteRequest),
        ),
        ApduTag::GloInformationReport => Some((Protection::Global, ApduTag::InformationReport)),
        ApduTag::DedReadRequest => Some((Protection::Dedicated, ApduTag::ReadRequest)),
        ApduTag::DedWriteRequest => Some((Protection::Dedicated, ApduTag::WriteRequest)),
        ApduTag::DedReadResponse => Some((Protection::Dedicated, ApduTag::ReadResponse)),
        ApduTag::DedWriteResponse => Some((Protection::Dedicated, ApduTag::WriteResponse)),
        ApduTag::DedConfirmedServiceError => Some(
            (Protection::Dedicated, ApduTag::ConfirmedServiceError),
        ),
        ApduTag::DedUnconfirmedWriteRequest => Some(
            (Protection::Dedicated, ApduTag::UnconfirmedWriteRequest),
        ),
        ApduTag::DedInformationReport => Some((Protection::Dedicated, ApduTag::InformationReport)),
        ApduTag::GloGetRequest => Some((Protection::Global, ApduTag::GetRequest)),
        ApduTag::GloSetRequest => Some((Protection::Global, ApduTag::SetRequest)),
        ApduTag::GloEventNotification => Some((Protection::Global, ApduTag::EventNotification)),
        ApduTag::GloActionRequest => Some((Protection::Global, ApduTag::ActionRequest)),
        ApduTag::GloGetResponse => Some((Protection::Global, ApduTag::GetResponse)),
        ApduTag::GloSetResponse => Some((Protection::Global, ApduTag::SetResponse)),
        ApduTag::GloActionResponse => Some((Protection::Global, ApduTag::ActionResponse)),
        ApduTag::DedGetRequest => Some((Protection::Dedicated, ApduTag::GetRequest)),
        ApduTag::DedSetRequest => Some((Protection::Dedicated, ApduTag::SetRequest)),
        ApduTag::DedEventNotification => Some((Protection::Dedicated, ApduTag::EventNotification)),
        ApduTag::DedActionRequest => Some((Protection::Dedicated, ApduTag::ActionRequest)),
        ApduTag::DedGetResponse => Some((Protection::Dedicated, ApduTag::GetResponse)),
        ApduTag::DedSetResponse => Some((Protection::Dedicated, ApduTag::SetResponse)),
        ApduTag::DedActionResponse => Some((Protection::Dedicated, ApduTag::ActionResponse)),
        _ => None,
    }
}

/// The ciphered tag of a plain one under a key set.
#[verifier::opaque]
pub open spec fn ciphered_of(t: ApduTag, p: Protection) -> Option<ApduTag> {
    match (t, p) {
        (ApduTag::InitiateRequest, Protection::Global) => Some(ApduTag::GloInitiateRequest),
        (ApduTag::ReadRequest, Protection::Global) => Some(ApduTag::GloReadRequest),
        (ApduTag::WriteRequest, Protection::Global) => Some(ApduTag::GloWriteRequest),
        (ApduTag::InitiateResponse, Protection::Global) => Some(ApduTag::GloInitiateResponse),
        (ApduTag::ReadResponse, Protection::Global) => Some(ApduTag::GloReadResponse),
        (ApduTag::WriteResponse, Protection::Global) => Some(ApduTag::GloWriteResponse),
        (ApduTag::ConfirmedServiceError, Protection::Global) => Some(
            ApduTag::GloConfirmedServiceError,
        ),
        (ApduTag::UnconfirmedWriteRequest, Protection::Global) => Some(
            ApduTag::GloUnconfirmedWriteRequest,
        ),
        (ApduTag::InformationReport, Protection::Global) => Some(ApduTag::GloInformationReport),
        (ApduTag::ReadRequest, Protection::Dedicated) => Some(ApduTag::DedReadRequest),
        (ApduTag::WriteRequest, Protection::Dedicated) => Some(ApduTag::DedWriteRequest),
        (ApduTag::ReadResponse, Protection::Dedicated) => Some(ApduTag::DedReadResponse),
        (ApduTag::WriteResponse, Protection::Dedicated) => Some(ApduTag::DedWriteResponse),
        (ApduTag::ConfirmedServiceError, Protection::Dedicated) => Some(
            ApduTag::DedConfirmedServiceError,
        ),
        (ApduTag::UnconfirmedWriteRequest, Protection::Dedicated) => Some(
            ApduTag::DedUnconfirmedWriteRequest,
        ),
        (ApduTag::InformationReport, Protection::Dedicated) => Some(ApduTag::DedInformationReport),
        (ApduTag::GetRequest, Protection::Global) => Some(ApduTag::GloGetRequest),
        (ApduTag::SetRequest, Protection::Global) => Some(ApduTag::GloSetRequest),
        (ApduTag::EventNotification, Protection::Global) => Some(ApduTag::GloEventNotification),
        (ApduTag::ActionRequest, Protection::Global) => Some(ApduTag::GloActionRequest),
        (ApduTag::GetResponse, Protection::Global) => Some(ApduTag::GloGetResponse),
        (ApduTag::SetResponse, Protection::Global) => Some(ApduTag::GloSetResponse),
        (ApduTag::ActionResponse, Protection::Global) => Some(ApduTag::GloActionResponse),
        (ApduTag::GetRequest, Protection::Dedicated) => Some(ApduTag::DedGetRequest),
        (ApduTag::SetRequest, Protection::Dedicated) => Some(ApduTag::DedSetRequest),
        (ApduTag::EventNotification, Protection::Dedicated) => Some(ApduTag::DedEventNotification),
        (ApduTag::ActionRequest, Protection::Dedicated) => Some(ApduTag::DedActionRequest),
        (ApduTag::GetResponse, Protection::Dedicated) => Some(ApduTag::DedGetResponse),
        (ApduTag::SetResponse, Protection::Dedicated) => Some(ApduTag::DedSetResponse),
        (ApduTag::ActionResponse, Protection::Dedicated) => Some(ApduTag::DedActionResponse),
        _ => None,
    }
}

impl ApduTag {
    /// The byte.
    pub open spec fn code(self) -> u8 {
        match self {
            ApduTag::InitiateRequest => 0x01,
            ApduTag::ReadRequest => 0x05,
            ApduTag::WriteRequest => 0x06,
            ApduTag::InitiateResponse => 0x08,
            ApduTag::ReadResponse => 0x0C,
            ApduTag::WriteResponse => 0x0D,
            ApduTag::ConfirmedServiceError => 0x0E,
            ApduTag::UnconfirmedWriteRequest => 0x16,
            ApduTag::InformationReport => 0x18,
            ApduTag::DataNotification => 0x0F,
            ApduTag::GloInitiateRequest => 0x21,
            ApduTag::GloReadRequest => 0x25,
            ApduTag::GloWriteRequest => 0x26,
            ApduTag::GloInitiateResponse => 0x28,
            ApduTag::GloReadResponse => 0x2C,
            ApduTag::GloWriteResponse => 0x2D,
            ApduTag::GloConfirmedServiceError => 0x2E,
            ApduTag::GloUnconfirmedWriteRequest => 0x36,
            ApduTag::GloInformationReport => 0x38,
            ApduTag::DedReadRequest => 0x45,
            ApduTag::DedWriteRequest => 0x46,
            ApduTag::DedReadResponse => 0x4C,
            ApduTag::DedWriteResponse => 0x4D,
            ApduTag::DedConfirmedServiceError => 0x4E,
            ApduTag::DedUnconfirmedWriteRequest => 0x56,
            ApduTag::DedInformationReport => 0x58,
            ApduTag::Aarq => 0x60,
            ApduTag::Aare => 0x61,
            ApduTag::ReleaseRequest => 0x62,
            ApduTag::ReleaseResponse => 0x63,
            ApduTag::GetRequest => 0xC0,
            ApduTag::SetRequest => 0xC1,
            ApduTag::EventNotification => 0xC2,
            ApduTag::ActionRequest => 0xC3,
            ApduTag::GetResponse => 0xC4,
            ApduTag::SetResponse => 0xC5,
            ApduTag::ActionResponse => 0xC7,
            ApduTag::GloGetRequest => 0xC8,
            ApduTag::GloSetRequest => 0xC9,
            ApduTag::GloEventNotification => 0xCA,
            ApduTag::GloActionRequest => 0xCB,
            ApduTag::GloGetResponse => 0xCC,
            ApduTag::GloSetResponse => 0xCD,
            ApduTag::GloActionResponse => 0xCF,
            ApduTag::DedGetRequest => 0xD0,
            ApduTag::DedSetRequest => 0xD1,
            ApduTag::DedEventNotification => 0xD2,
            ApduTag::DedActionRequest => 0xD3,
            ApduTag::DedGetResponse => 0xD4,
            ApduTag::DedSetResponse => 0xD5,
            ApduTag::DedActionResponse => 0xD7,
            ApduTag::ExceptionResponse => 0xD8,
            ApduTag::AccessRequest => 0xD9,
            ApduTag::AccessResponse => 0xDA,
            ApduTag::GeneralGloCiphering => 0xDB,
            ApduTag::GeneralDedCiphering => 0xDC,
            ApduTag::GeneralCiphering => 0xDD,
            ApduTag::GeneralSigning => 0xDF,
            ApduTag::GeneralBlockTransfer => 0xE0,
        }
    }

    /// The byte.
    #[must_use]
    pub fn as_u8(self) -> (r: u8)
        ensures
            r == self.code(),
    {
        match self {
            ApduTag::InitiateRequest => 0x01,
            ApduTag::ReadRequest => 0x05,
            ApduTag::WriteRequest => 0x06,
            ApduTag::InitiateResponse => 0x08,
            ApduTag::ReadResponse => 0x0C,
            ApduTag::WriteResponse => 0x0D,
            ApduTag::ConfirmedServiceError => 0x0E,
            ApduTag::UnconfirmedWriteRequest => 0x16,
            ApduTag::InformationReport => 0x18,
            ApduTag::DataNotification => 0x0F,
            ApduTag::GloInitiateRequest => 0x21,
            ApduTag::GloReadRequest => 0x25,
            ApduTag::GloWriteRequest => 0x26,
            ApduTag::GloInitiateResponse => 0x28,
            ApduTag::GloReadResponse => 0x2C,
            ApduTag::GloWriteResponse => 0x2D,
            ApduTag::GloConfirmedServiceError => 0x2E,
            ApduTag::GloUnconfirmedWriteRequest => 0x36,
            ApduTag::GloInformationReport => 0x38,
            ApduTag::DedReadRequest => 0x45,
            ApduTag::DedWriteRequest => 0x46,
            ApduTag::DedReadResponse => 0x4C,
            ApduTag::DedWriteResponse => 0x4D,
            ApduTag::DedConfirmedServiceError => 0x4E,
            ApduTag::DedUnconfirmedWriteRequest => 0x56,
            ApduTag::DedInformationReport => 0x58,
            ApduTag::Aarq => 0x60,
            ApduTag::Aare => 0x61,
            ApduTag::ReleaseRequest => 0x62,
            ApduTag::ReleaseResponse => 0x63,
            ApduTag::GetRequest => 0xC0,
            ApduTag::SetRequest => 0xC1,
            ApduTag::EventNotification => 0xC2,
            ApduTag::ActionRequest => 0xC3,
            ApduTag::GetResponse => 0xC4,
            ApduTag::SetResponse => 0xC5,
            ApduTag::ActionResponse => 0xC7,
            ApduTag::GloGetRequest => 0xC8,
            ApduTag::GloSetRequest => 0xC9,
            ApduTag::GloEventNotification => 0xCA,
            ApduTag::GloActionRequest => 0xCB,
            ApduTag::GloGetResponse => 0xCC,
            ApduTag::GloSetResponse => 0xCD,
            ApduTag::GloActionResponse => 0xCF,
            ApduTag::DedGetRequest => 0xD0,
            ApduTag::DedSetRequest => 0xD1,
            ApduTag::DedEventNotification => 0xD2,
            ApduTag::DedActionRequest => 0xD3,
            ApduTag::DedGetResponse => 0xD4,
            ApduTag::DedSetResponse => 0xD5,
            ApduTag::DedActionResponse => 0xD7,
            ApduTag::ExceptionResponse => 0xD8,
            ApduTag::AccessRequest => 0xD9,
            ApduTag::AccessResponse => 0xDA,
            ApduTag::GeneralGloCiphering => 0xDB,
            ApduTag::GeneralDedCiphering => 0xDC,
            ApduTag::GeneralCiphering => 0xDD,
            ApduTag::GeneralSigning => 0xDF,
            ApduTag::GeneralBlockTransfer => 0xE0,
        }
    }

    /// From the byte.
    #[must_use]
    pub fn from_u8(v: u8) -> (r: Option<Self>)
        ensures
            r == tag_of(v),
    {
        proof {
            reveal(tag_of);
        }
        match v {
            0x01 => Some(ApduTag::InitiateRequest),
            0x05 => Some(ApduTag::ReadRequest),
            0x06 => Some(ApduTag::WriteRequest),
            0x08 => Some(ApduTag::InitiateResponse),
            0x0C => Some(ApduTag::ReadResponse),
            0x0D => Some(ApduTag::WriteResponse),
            0x0E => Some(ApduTag::ConfirmedServiceError),
            0x16 => Some(ApduTag::UnconfirmedWriteRequest),
            0x18 => Some(ApduTag::InformationReport),
            0x0F => Some(ApduTag::DataNotification),
            0x21 => Some(ApduTag::GloInitiateRequest),
            0x25 => Some(ApduTag::GloReadRequest),
            0x26 => Some(ApduTag::GloWriteRequest),
            0x28 => Some(ApduTag::GloInitiateResponse),
            0x2C => Some(ApduTag::GloReadResponse),
            0x2D => Some(ApduTag::GloWriteResponse),
            0x2E => Some(ApduTag::GloConfirmedServiceError),
            0x36 => Some(ApduTag::GloUnconfirmedWriteRequest),
            0x38 => Some(ApduTag::GloInformationReport),
            0x45 => Some(ApduTag::DedReadRequest),
            0x46 => Some(ApduTag::DedWriteRequest),
            0x4C => Some(ApduTag::DedReadResponse),
            0x4D => Some(ApduTag::DedWriteResponse),
            0x4E => Some(ApduTag::DedConfirmedServiceError),
            0x56 => Some(ApduTag::DedUnconfirmedWriteRequest),
            0x58 => Some(ApduTag::DedInformationReport),
            0x60 => Some(ApduTag::Aarq),
            0x61 => Some(ApduTag::Aare),
            0x62 => Some(ApduTag::ReleaseRequest),
            0x63 => Some(ApduTag::ReleaseResponse),
            0xC0 => Some(ApduTag::GetRequest),
            0xC1 => Some(ApduTag::SetRequest),
            0xC2 => Some(ApduTag::EventNotification),
            0xC3 => Some(ApduTag::ActionRequest),
            0xC4 => Some(ApduTag::GetResponse),
            0xC5 => Some(ApduTag::SetResponse),
            0xC7 => Some(ApduTag::ActionResponse),
            0xC8 => Some(ApduTag::GloGetRequest),
            0xC9 => Some(ApduTag::GloSetRequest),
            0xCA => Some(ApduTag::GloEventNotification),
            0xCB => Some(ApduTag::GloActionRequest),
            0xCC => Some(ApduTag::GloGetResponse),
            0xCD => Some(ApduTag::GloSetResponse),
            0xCF => Some(ApduTag::GloActionResponse),
            0xD0 => Some(ApduTag::DedGetRequest),
            0xD1 => Some(ApduTag::DedSetRequest),
            0xD2 => Some(ApduTag::DedEventNotification),
            0xD3 => Some(ApduTag::DedActionRequest),
            0xD4 => Some(ApduTag::DedGetResponse),
            0xD5 => Some(ApduTag::DedSetResponse),
            0xD7 => Some(ApduTag::DedActionResponse),
            0xD8 => Some(ApduTag::ExceptionResponse),
            0xD9 => Some(ApduTag::AccessRequest),
            0xDA => Some(ApduTag::AccessResponse),
            0xDB => Some(ApduTag::GeneralGloCiphering),
            0xDC => Some(ApduTag::GeneralDedCiphering),
            0xDD => Some(ApduTag::GeneralCiphering),
            0xDF => Some(ApduTag::GeneralSigning),
            0xE0 => Some(ApduTag::GeneralBlockTransfer),
            _ => None,
        }
    }

    /// The ciphered tag of this service under a key set, where it has one.
    #[must_use]
    pub fn protected_as(self, protection: Protection) -> (r: Option<Self>)
        ensures
            r == ciphered_of(self, protection),
    {
        proof {
            reveal(ciphered_of);
        }
        match (self, protection) {
            (ApduTag::InitiateRequest, Protection::Global) => Some(ApduTag::GloInitiateRequest),
            (ApduTag::ReadRequest, Protection::Global) => Some(ApduTag::GloReadRequest),
            (ApduTag::WriteRequest, Protection::Global) => Some(ApduTag::GloWriteRequest),
            (ApduTag::InitiateResponse, Protection::Global) => Some(ApduTag::GloInitiateResponse),
            (ApduTag::ReadResponse, Protection::Global) => Some(ApduTag::GloReadResponse),
            (ApduTag::WriteResponse, Protection::Global) => Some(ApduTag::GloWriteResponse),
            (ApduTag::ConfirmedServiceError, Protection::Global) => Some(
                ApduTag::GloConfirmedServiceError,
            ),
            (ApduTag::UnconfirmedWriteRequest, Protection::Global) => Some(
                ApduTag::GloUnconfirmedWriteRequest,
            ),
            (ApduTag::InformationReport, Protection::Global) => Some(ApduTag::GloInformationReport),
            (ApduTag::ReadRequest, Protection::Dedicated) => Some(ApduTag::DedReadRequest),
            (ApduTag::WriteRequest, Protection::Dedicated) => Some(ApduTag::DedWriteRequest),
            (ApduTag::ReadResponse, Protection::Dedicated) => Some(ApduTag::DedReadResponse),
            (ApduTag::WriteResponse, Protection::Dedicated) => Some(ApduTag::DedWriteResponse),
            (ApduTag::ConfirmedServiceError, Protection::Dedicated) => Some(
                ApduTag::DedConfirmedServiceError,
            ),
            (ApduTag::UnconfirmedWriteRequest, Protection::Dedicated) => Some(
                ApduTag::DedUnconfirmedWriteRequest,
            ),
            (ApduTag::InformationReport, Protection::Dedicated) => Some(
                ApduTag::DedInformationReport,
            ),
            (ApduTag::GetRequest, Protection::Global) => Some(ApduTag::GloGetRequest),
            (ApduTag::SetRequest, Protection::Global) => Some(ApduTag::GloSetRequest),
            (ApduTag::EventNotification, Protection::Global) => Some(ApduTag::GloEventNotification),
            (ApduTag::ActionRequest, Protection::Global) => Some(ApduTag::GloActionRequest),
            (ApduTag::GetResponse, Protection::Global) => Some(ApduTag::GloGetResponse),
            (ApduTag::SetResponse, Protection::Global) => Some(ApduTag::GloSetResponse),
            (ApduTag::ActionResponse, Protection::Global) => Some(ApduTag::GloActionResponse),
            (ApduTag::GetRequest, Protection::Dedicated) => Some(ApduTag::DedGetRequest),
            (ApduTag::SetRequest, Protection::Dedicated) => Some(ApduTag::DedSetRequest),
            (ApduTag::EventNotification, Protection::Dedicated) => Some(
                ApduTag::DedEventNotification,
            ),
            (ApduTag::ActionRequest, Protection::Dedicated) => Some(ApduTag::DedActionRequest),
            (ApduTag::GetResponse, Protection::Dedicated) => Some(ApduTag::DedGetResponse),
            (ApduTag::SetResponse, Protection::Dedicated) => Some(ApduTag::DedSetResponse),
            (ApduTag::ActionResponse, Protection::Dedicated) => Some(ApduTag::DedActionResponse),
            _ => None,
        }
    }

    /// The key set that a ciphered tag names and the service inside, `None` for a tag that
    /// is not a ciphered one.
    #[must_use]
    pub fn unprotect(self) -> (r: Option<(Protection, Self)>)
        ensures
            r == plain_of(self),
    {
        proof {
            reveal(plain_of);
        }
        match self {
            ApduTag::GloInitiateRequest => Some((Protection::Global, ApduTag::InitiateRequest)),
            ApduTag::GloReadRequest => Some((Protection::Global, ApduTag::ReadRequest)),
            ApduTag::GloWriteRequest => Some((Protection::Global, ApduTag::WriteRequest)),
            ApduTag::GloInitiateResponse => Some((Protection::Global, ApduTag::InitiateResponse)),
            ApduTag::GloReadResponse => Some((Protection::Global, ApduTag::ReadResponse)),
            ApduTag::GloWriteResponse => Some((Protection::Global, ApduTag::WriteResponse)),
            ApduTag::GloConfirmedServiceError => Some(
                (Protection::Global, ApduTag::ConfirmedServiceError),
            ),
            ApduTag::GloUnconfirmedWriteRequest => Some(
                (Protection::Global, ApduTag::UnconfirmedWriteRequest),
            ),
            ApduTag::GloInformationReport => Some((Protection::Global, ApduTag::InformationReport)),
            ApduTag::DedReadRequest => Some((Protection::Dedicated, ApduTag::ReadRequest)),
            ApduTag::DedWriteRequest => Some((Protection::Dedicated, ApduTag::WriteRequest)),
            ApduTag::DedReadResponse => Some((Protection::Dedicated, ApduTag::ReadResponse)),
            ApduTag::DedWriteResponse => Some((Protection::Dedicated, ApduTag::WriteResponse)),
            ApduTag::DedConfirmedServiceError => Some(
                (Protection::Dedicated, ApduTag::ConfirmedServiceError),
            ),
            ApduTag::DedUnconfirmedWriteRequest => Some(
                (Protection::Dedicated, ApduTag::UnconfirmedWriteRequest),
            ),
            ApduTag::DedInformationReport => Some(
                (Protection::Dedicated, ApduTag::InformationReport),
            ),
            ApduTag::GloGetRequest => Some((Protection::Global, ApduTag::GetRequest)),
            ApduTag::GloSetRequest => Some((Protection::Global, ApduTag::SetRequest)),
            ApduTag::GloEventNotification => Some((Protection::Global, ApduTag::EventNotification)),
            ApduTag::GloActionRequest => Some((Protection::Global, ApduTag::ActionRequest)),
            ApduTag::GloGetResponse => Some((Protection::Global, ApduTag::GetResponse)),
            ApduTag::GloSetResponse => Some((Protection::Global, ApduTag::SetResponse)),
            ApduTag::GloActionResponse => Some((Protection::Global, ApduTag::ActionResponse)),
            ApduTag::DedGetRequest => Some((Protection::Dedicated, ApduTag::GetRequest)),
            ApduTag::DedSetRequest => Some((Protection::Dedicated, ApduTag::SetRequest)),
            ApduTag::DedEventNotification => Some(
                (Protection::Dedicated, ApduTag::EventNotification),
            ),
            ApduTag::DedActionRequest => Some((Protection::Dedicated, ApduTag::ActionRequest)),
            ApduTag::DedGetResponse => Some((Protection::Dedicated, ApduTag::GetResponse)),
            ApduTag::DedSetResponse => Some((Protection::Dedicated, ApduTag::SetResponse)),
            ApduTag::DedActionResponse => Some((Protection::Dedicated, ApduTag::ActionResponse)),
            _ => None,
        }
    }
}

/// Every tag is found again by its byte, and no byte stands for two.
pub proof fn law_tag_round_trip(t: ApduTag, v: u8)
    ensures
        tag_of(t.code()) == Some(t),
        tag_of(v) matches Some(u) ==> u.code() == v,
{
    reveal(tag_of);
}

/// A ciphered tag names the service that it was made from and the key set, and no tag is
/// both plain and ciphered.
pub proof fn law_ciphered_tags(t: ApduTag, p: Protection)
    ensures
        ciphered_of(t, p) matches Some(u) ==> plain_of(u) == Some((p, t)) && plain_of(t) is None,
        plain_of(t) matches Some((q, u)) ==> ciphered_of(u, q) == Some(t),
{
    reveal(ciphered_of);
    reveal(plain_of);
}

} // verus!
