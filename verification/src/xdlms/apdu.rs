//! The APDUs that the engines exchange.

use vstd::prelude::*;

use super::ciphering::CipheredService;
use super::result::ExceptionResponse;
use super::service::{
    AccessRequest, AccessResponse, ActionRequest, ActionResponse, DataNotification, GetRequest,
    GetResponse, ReadRequest, ReadResponse, SetRequest, SetResponse, UnconfirmedWriteRequest,
    WriteRequest, WriteResponse,
};
use super::tag::{ApduTag, Protection};
use crate::acse::Rlre;
use crate::codec::{Decode, Encode, Error, ErrorKind, Reader, Result, Writer};
#[allow(unused_imports)]
use super::ciphering::CipheredServiceV;
#[allow(unused_imports)]
use super::service::{
    AccessRequestV, AccessResponseV, ActionRequestV, ActionResponseV, DataNotificationV,
    GetRequestV, GetResponseV, ReadRequestV, ReadResponseV, SetRequestV, SetResponseV,
    UnconfirmedWriteRequestV, WriteRequestV, WriteResponseV,
};
#[allow(unused_imports)]
use super::tag::{ciphered_of, plain_of, tag_of};
#[allow(unused_imports)]
use crate::acse::{p_release_apdu, ReleaseV};
#[allow(unused_imports)]
use crate::ber::enc_tlv;
#[allow(unused_imports)]
use crate::codec::{appended, err_before, lemma_then, length_fits, p_u8, Cursor};

verus! {

/// An APDU, its tag included.
#[verifier::ext_equal]
pub enum ApduV {
    /// A read by short name.
    ReadRequest(ReadRequestV),
    /// A write by short name.
    WriteRequest(WriteRequestV),
    /// The answer to a read by short name.
    ReadResponse(ReadResponseV),
    /// The answer to a write by short name.
    WriteResponse(WriteResponseV),
    /// A value sent of the meter's own accord.
    DataNotification(DataNotificationV),
    /// A write by short name without an answer.
    UnconfirmedWriteRequest(UnconfirmedWriteRequestV),
    /// A read.
    GetRequest(GetRequestV),
    /// A write.
    SetRequest(SetRequestV),
    /// An invocation.
    ActionRequest(ActionRequestV),
    /// The answer to a read.
    GetResponse(GetResponseV),
    /// The answer to a write.
    SetResponse(SetResponseV),
    /// The answer to an invocation.
    ActionResponse(ActionResponseV),
    /// Reads, writes and invocations in one exchange.
    AccessRequest(AccessRequestV),
    /// The answer to those.
    AccessResponse(AccessResponseV),
    /// The refusal of an APDU.
    ExceptionResponse(ExceptionResponse),
    /// The confirmation of a release.
    Rlre(ReleaseV),
    /// A protected service. Its security header can be read without a key.
    Ciphered {
        /// Which key set.
        protection: Protection,
        /// The service that is protected.
        service: ApduTag,
        /// The security header and the payload.
        body: CipheredServiceV,
    },
}

/// An APDU, its tag included.
#[derive(Debug, Clone, PartialEq)]
pub enum Apdu<'a> {
    /// A read by short name.
    ReadRequest(ReadRequest<'a>),
    /// A write by short name.
    WriteRequest(WriteRequest<'a>),
    /// The answer to a read by short name.
    ReadResponse(ReadResponse<'a>),
    /// The answer to a write by short name.
    WriteResponse(WriteResponse),
    /// A value sent of the meter's own accord.
    DataNotification(DataNotification<'a>),
    /// A write by short name without an answer.
    UnconfirmedWriteRequest(UnconfirmedWriteRequest<'a>),
    /// A read.
    GetRequest(GetRequest<'a>),
    /// A write.
    SetRequest(SetRequest<'a>),
    /// An invocation.
    ActionRequest(ActionRequest<'a>),
    /// The answer to a read.
    GetResponse(GetResponse<'a>),
    /// The answer to a write.
    SetResponse(SetResponse),
    /// The answer to an invocation.
    ActionResponse(ActionResponse<'a>),
    /// Reads, writes and invocations in one exchange.
    AccessRequest(AccessRequest<'a>),
    /// The answer to those.
    AccessResponse(AccessResponse<'a>),
    /// The refusal of an APDU.
    ExceptionResponse(ExceptionResponse),
    /// The confirmation of a release.
    Rlre(Rlre<'a>),
    /// A protected service. Its security header can be read without a key.
    Ciphered {
        /// Which key set.
        protection: Protection,
        /// The service that is protected.
        service: ApduTag,
        /// The security header and the payload.
        body: CipheredService<'a>,
    },
}

impl<'a> View for Apdu<'a> {
    type V = ApduV;

    open spec fn view(&self) -> ApduV {
        match *self {
            Apdu::ReadRequest(v) => ApduV::ReadRequest(v@),
            Apdu::WriteRequest(v) => ApduV::WriteRequest(v@),
            Apdu::ReadResponse(v) => ApduV::ReadResponse(v@),
            Apdu::WriteResponse(v) => ApduV::WriteResponse(v@),
            Apdu::DataNotification(v) => ApduV::DataNotification(v@),
            Apdu::UnconfirmedWriteRequest(v) => ApduV::UnconfirmedWriteRequest(v@),
            Apdu::GetRequest(v) => ApduV::GetRequest(v@),
            Apdu::SetRequest(v) => ApduV::SetRequest(v@),
            Apdu::ActionRequest(v) => ApduV::ActionRequest(v@),
            Apdu::GetResponse(v) => ApduV::GetResponse(v@),
            Apdu::SetResponse(v) => ApduV::SetResponse(v@),
            Apdu::ActionResponse(v) => ApduV::ActionResponse(v@),
            Apdu::AccessRequest(v) => ApduV::AccessRequest(v@),
            Apdu::AccessResponse(v) => ApduV::AccessResponse(v@),
            Apdu::ExceptionResponse(v) => ApduV::ExceptionResponse(v),
            Apdu::Rlre(v) => ApduV::Rlre(v@),
            Apdu::Ciphered { protection, service, body } => ApduV::Ciphered {
                protection,
                service,
                body: body@,
            },
        }
    }
}

impl ApduV {
    /// The encoding.
    #[verifier::opaque]
    pub open spec fn enc(self) -> Seq<u8> {
        match self {
            ApduV::ReadRequest(v) => seq![0x05u8] + v.enc(),
            ApduV::WriteRequest(v) => seq![0x06u8] + v.enc(),
            ApduV::ReadResponse(v) => seq![0x0Cu8] + v.enc(),
            ApduV::WriteResponse(v) => seq![0x0Du8] + v.enc(),
            ApduV::DataNotification(v) => seq![0x0Fu8] + v.enc(),
            ApduV::UnconfirmedWriteRequest(v) => seq![0x16u8] + v.enc(),
            ApduV::GetRequest(v) => seq![0xC0u8] + v.enc(),
            ApduV::SetRequest(v) => seq![0xC1u8] + v.enc(),
            ApduV::ActionRequest(v) => seq![0xC3u8] + v.enc(),
            ApduV::GetResponse(v) => seq![0xC4u8] + v.enc(),
            ApduV::SetResponse(v) => seq![0xC5u8] + v.enc(),
            ApduV::ActionResponse(v) => seq![0xC7u8] + v.enc(),
            ApduV::AccessRequest(v) => seq![0xD9u8] + v.enc(),
            ApduV::AccessResponse(v) => seq![0xDAu8] + v.enc(),
            ApduV::ExceptionResponse(v) => seq![0xD8u8] + v.enc(),
            ApduV::Rlre(v) => enc_tlv(0x63, v.fields()),
            ApduV::Ciphered { protection, service, body } => match ciphered_of(
                service,
                protection,
            ) {
                Some(t) => seq![t.code()] + body.enc(),
                None => Seq::empty(),
            },
        }
    }

    /// Whether there is one.
    pub open spec fn fits(self) -> bool {
        match self {
            ApduV::ReadRequest(v) => v.fits(),
            ApduV::WriteRequest(v) => v.fits(),
            ApduV::ReadResponse(v) => v.fits(),
            ApduV::WriteResponse(v) => v.fits(),
            ApduV::DataNotification(v) => v.fits(),
            ApduV::UnconfirmedWriteRequest(v) => v.fits(),
            ApduV::GetRequest(v) => v.fits(),
            ApduV::SetRequest(v) => v.fits(),
            ApduV::ActionRequest(v) => v.fits(),
            ApduV::GetResponse(v) => v.fits(),
            ApduV::SetResponse(v) => v.fits(),
            ApduV::ActionResponse(v) => v.fits(),
            ApduV::AccessRequest(v) => v.fits(),
            ApduV::AccessResponse(v) => v.fits(),
            ApduV::ExceptionResponse(_) => true,
            ApduV::Rlre(v) => v.fits() && length_fits(v.fields().len()),
            ApduV::Ciphered { protection, service, body } => ciphered_of(
                service,
                protection,
            ) is Some && body.fits(),
        }
    }

    /// What stands at a cursor.
    #[verifier::opaque]
    pub open spec fn p(c: Cursor) -> Result<(ApduV, Cursor)> {
        match p_u8(c) {
            Err(e) => Err(e),
            Ok((tag, c0)) => if tag == 0x05 {
                match ReadRequestV::p(c0) {
                    Err(e) => Err(e),
                    Ok((v, c1)) => Ok((ApduV::ReadRequest(v), c1)),
                }
            } else if tag == 0x06 {
                match WriteRequestV::p(c0) {
                    Err(e) => Err(e),
                    Ok((v, c1)) => Ok((ApduV::WriteRequest(v), c1)),
                }
            } else if tag == 0x0C {
                match ReadResponseV::p(c0) {
                    Err(e) => Err(e),
                    Ok((v, c1)) => Ok((ApduV::ReadResponse(v), c1)),
                }
            } else if tag == 0x0D {
                match WriteResponseV::p(c0) {
                    Err(e) => Err(e),
                    Ok((v, c1)) => Ok((ApduV::WriteResponse(v), c1)),
                }
            } else if tag == 0x0F {
                match DataNotificationV::p(c0) {
                    Err(e) => Err(e),
                    Ok((v, c1)) => Ok((ApduV::DataNotification(v), c1)),
                }
            } else if tag == 0x16 {
                match UnconfirmedWriteRequestV::p(c0) {
                    Err(e) => Err(e),
                    Ok((v, c1)) => Ok((ApduV::UnconfirmedWriteRequest(v), c1)),
                }
            } else if tag == 0xC0 {
                match GetRequestV::p(c0) {
                    Err(e) => Err(e),
                    Ok((v, c1)) => Ok((ApduV::GetRequest(v), c1)),
                }
            } else if tag == 0xC1 {
                match SetRequestV::p(c0) {
                    Err(e) => Err(e),
                    Ok((v, c1)) => Ok((ApduV::SetRequest(v), c1)),
                }
            } else if tag == 0xC3 {
                match ActionRequestV::p(c0) {
                    Err(e) => Err(e),
                    Ok((v, c1)) => Ok((ApduV::ActionRequest(v), c1)),
                }
            } else if tag == 0xC4 {
                match GetResponseV::p(c0) {
                    Err(e) => Err(e),
                    Ok((v, c1)) => Ok((ApduV::GetResponse(v), c1)),
                }
            } else if tag == 0xC5 {
                match SetResponseV::p(c0) {
                    Err(e) => Err(e),
                    Ok((v, c1)) => Ok((ApduV::SetResponse(v), c1)),
                }
            } else if tag == 0xC7 {
                match ActionResponseV::p(c0) {
                    Err(e) => Err(e),
                    Ok((v, c1)) => Ok((ApduV::ActionResponse(v), c1)),
                }
            } else if tag == 0xD9 {
                match AccessRequestV::p(c0) {
                    Err(e) => Err(e),
                    Ok((v, c1)) => Ok((ApduV::AccessRequest(v), c1)),
                }
            } else if tag == 0xDA {
                match AccessResponseV::p(c0) {
                    Err(e) => Err(e),
                    Ok((v, c1)) => Ok((ApduV::AccessResponse(v), c1)),
                }
            } else if tag == 0xD8 {
                match ExceptionResponse::p(c0) {
                    Err(e) => Err(e),
                    Ok((v, c1)) => Ok((ApduV::ExceptionResponse(v), c1)),
                }
            } else if tag == 0x63 {
                match p_release_apdu(c, 0x63) {
                    Err(e) => Err(e),
                    Ok((v, d)) => Ok((ApduV::Rlre(v), d)),
                }
            } else if ciphered_tag(tag) is Some {
                match CipheredServiceV::p(c0) {
                    Err(e) => Err(e),
                    Ok((body, c1)) => {
                        let (protection, service) = ciphered_tag(tag)->0;
                        Ok((ApduV::Ciphered { protection, service, body }, c1))
                    },
                }
            } else {
                Err(err_before(ErrorKind::InvalidTag(tag), c0.at(), 1))
            },
        }
    }

    /// The tag it is sent under.
    pub open spec fn tag(self) -> ApduTag {
        match self {
            ApduV::ReadRequest(_) => ApduTag::ReadRequest,
            ApduV::WriteRequest(_) => ApduTag::WriteRequest,
            ApduV::ReadResponse(_) => ApduTag::ReadResponse,
            ApduV::WriteResponse(_) => ApduTag::WriteResponse,
            ApduV::DataNotification(_) => ApduTag::DataNotification,
            ApduV::UnconfirmedWriteRequest(_) => ApduTag::UnconfirmedWriteRequest,
            ApduV::GetRequest(_) => ApduTag::GetRequest,
            ApduV::SetRequest(_) => ApduTag::SetRequest,
            ApduV::ActionRequest(_) => ApduTag::ActionRequest,
            ApduV::GetResponse(_) => ApduTag::GetResponse,
            ApduV::SetResponse(_) => ApduTag::SetResponse,
            ApduV::ActionResponse(_) => ApduTag::ActionResponse,
            ApduV::AccessRequest(_) => ApduTag::AccessRequest,
            ApduV::AccessResponse(_) => ApduTag::AccessResponse,
            ApduV::ExceptionResponse(_) => ApduTag::ExceptionResponse,
            ApduV::Rlre(_) => ApduTag::ReleaseResponse,
            ApduV::Ciphered { protection, service, .. } => match ciphered_of(service, protection) {
                Some(t) => t,
                None => service,
            },
        }
    }
}

/// The key set and the service that a ciphered tag names.
pub open spec fn ciphered_tag(tag: u8) -> Option<(Protection, ApduTag)> {
    match tag_of(tag) {
        Some(t) => plain_of(t),
        None => None,
    }
}

impl<'a> Apdu<'a> {
    /// The tag it is sent under. A protected service that has no tag of its own goes by the
    /// tag of the service.
    #[must_use]
    pub fn tag(&self) -> (r: ApduTag)
        ensures
            r == self@.tag(),
    {
        match self {
            Apdu::ReadRequest(_) => ApduTag::ReadRequest,
            Apdu::WriteRequest(_) => ApduTag::WriteRequest,
            Apdu::ReadResponse(_) => ApduTag::ReadResponse,
            Apdu::WriteResponse(_) => ApduTag::WriteResponse,
            Apdu::DataNotification(_) => ApduTag::DataNotification,
            Apdu::UnconfirmedWriteRequest(_) => ApduTag::UnconfirmedWriteRequest,
            Apdu::GetRequest(_) => ApduTag::GetRequest,
            Apdu::SetRequest(_) => ApduTag::SetRequest,
            Apdu::ActionRequest(_) => ApduTag::ActionRequest,
            Apdu::GetResponse(_) => ApduTag::GetResponse,
            Apdu::SetResponse(_) => ApduTag::SetResponse,
            Apdu::ActionResponse(_) => ApduTag::ActionResponse,
            Apdu::AccessRequest(_) => ApduTag::AccessRequest,
            Apdu::AccessResponse(_) => ApduTag::AccessResponse,
            Apdu::ExceptionResponse(_) => ApduTag::ExceptionResponse,
            Apdu::Rlre(_) => ApduTag::ReleaseResponse,
            Apdu::Ciphered { protection, service, .. } => match service.protected_as(*protection) {
                Some(t) => t,
                None => *service,
            },
        }
    }

    /// True when a key is needed to read what it carries.
    #[must_use]
    pub fn is_protected(&self) -> (r: bool)
        ensures
            r == self@ is Ciphered,
    {
        matches!(self, Apdu::Ciphered { .. })
    }
}

/// Append a tag, and a value behind it.
fn write_tagged<W: Writer, B: Encode>(w: &mut W, tag: u8, body: &B) -> (r: Result<()>)
    ensures
        appended(
            old(w).sink(),
            final(w).sink(),
            seq![tag] + body.enc(),
            body.encodable(),
            r,
        ),
{
    let ghost w0 = w.sink();
    w.write_u8(tag)?;
    let ghost w1 = w.sink();
    let r = body.encode(w);
    proof {
        lemma_then(w0, w1, w.sink(), seq![tag], body.enc(), body.encodable(), r);
    }
    r
}

impl<'a> Encode for Apdu<'a> {
    open spec fn enc(&self) -> Seq<u8> {
        self@.enc()
    }

    open spec fn encodable(&self) -> bool {
        self@.fits()
    }

    fn encode<W: Writer>(&self, w: &mut W) -> (r: Result<()>) {
        proof {
            reveal(ApduV::enc);
            assert(self.enc() == self@.enc() && self.encodable() == self@.fits());
        }
        match self {
            Apdu::ReadRequest(v) => write_tagged(w, 0x05, v),
            Apdu::WriteRequest(v) => write_tagged(w, 0x06, v),
            Apdu::ReadResponse(v) => write_tagged(w, 0x0C, v),
            Apdu::WriteResponse(v) => write_tagged(w, 0x0D, v),
            Apdu::DataNotification(v) => write_tagged(w, 0x0F, v),
            Apdu::UnconfirmedWriteRequest(v) => write_tagged(w, 0x16, v),
            Apdu::GetRequest(v) => write_tagged(w, 0xC0, v),
            Apdu::SetRequest(v) => write_tagged(w, 0xC1, v),
            Apdu::ActionRequest(v) => write_tagged(w, 0xC3, v),
            Apdu::GetResponse(v) => write_tagged(w, 0xC4, v),
            Apdu::SetResponse(v) => write_tagged(w, 0xC5, v),
            Apdu::ActionResponse(v) => write_tagged(w, 0xC7, v),
            Apdu::AccessRequest(v) => write_tagged(w, 0xD9, v),
            Apdu::AccessResponse(v) => write_tagged(w, 0xDA, v),
            Apdu::ExceptionResponse(v) => write_tagged(w, 0xD8, v),
            Apdu::Rlre(v) => v.encode(w),
            Apdu::Ciphered { protection, service, body } => {
                match service.protected_as(*protection) {
                    Some(t) => write_tagged(w, t.as_u8(), body),
                    None => Err(Error::new(ErrorKind::InvalidLength, w.written())),
                }
            },
        }
    }
}

impl<'a> Decode<'a> for Apdu<'a> {
    open spec fn parse(c: Cursor) -> Result<(ApduV, Cursor)> {
        ApduV::p(c)
    }

    fn decode(r: &mut Reader<'a>) -> (res: Result<Self>) {
        proof {
            reveal(ApduV::p);
            assert(Self::parse(r@) == ApduV::p(r@));
        }
        let mut whole = r.clone();
        let tag = r.u8()?;
        match tag {
            0x05 => {
                let v = ReadRequest::decode(r)?;
                Ok(Apdu::ReadRequest(v))
            },
            0x06 => {
                let v = WriteRequest::decode(r)?;
                Ok(Apdu::WriteRequest(v))
            },
            0x0C => {
                let v = ReadResponse::decode(r)?;
                Ok(Apdu::ReadResponse(v))
            },
            0x0D => {
                let v = WriteResponse::decode(r)?;
                Ok(Apdu::WriteResponse(v))
            },
            0x0F => {
                let v = DataNotification::decode(r)?;
                Ok(Apdu::DataNotification(v))
            },
            0x16 => {
                let v = UnconfirmedWriteRequest::decode(r)?;
                Ok(Apdu::UnconfirmedWriteRequest(v))
            },
            0xC0 => {
                let v = GetRequest::decode(r)?;
                Ok(Apdu::GetRequest(v))
            },
            0xC1 => {
                let v = SetRequest::decode(r)?;
                Ok(Apdu::SetRequest(v))
            },
            0xC3 => {
                let v = ActionRequest::decode(r)?;
                Ok(Apdu::ActionRequest(v))
            },
            0xC4 => {
                let v = GetResponse::decode(r)?;
                Ok(Apdu::GetResponse(v))
            },
            0xC5 => {
                let v = SetResponse::decode(r)?;
                Ok(Apdu::SetResponse(v))
            },
            0xC7 => {
                let v = ActionResponse::decode(r)?;
                Ok(Apdu::ActionResponse(v))
            },
            0xD9 => {
                let v = AccessRequest::decode(r)?;
                Ok(Apdu::AccessRequest(v))
            },
            0xDA => {
                let v = AccessResponse::decode(r)?;
                Ok(Apdu::AccessResponse(v))
            },
            0xD8 => {
                let v = ExceptionResponse::decode(r)?;
                Ok(Apdu::ExceptionResponse(v))
            },
            0x63 => {
                let v = Rlre::decode(&mut whole)?;
                *r = whole;
                Ok(Apdu::Rlre(v))
            },
            _ => {
                let plain = match ApduTag::from_u8(tag) {
                    Some(t) => t.unprotect(),
                    None => None,
                };
                match plain {
                    Some((protection, service)) => {
                        let body = CipheredService::decode(r)?;
                        Ok(Apdu::Ciphered { protection, service, body })
                    },
                    None => Err(r.err_back(ErrorKind::InvalidTag(tag), 1)),
                }
            },
        }
    }
}

} // verus!
