//! What both ends of an association say they can do.

use vstd::prelude::*;

use super::list::{read_flag, read_i8, read_u16};
use crate::codec::{Decode, Encode, Error, ErrorKind, Reader, Result, Writer};
#[allow(unused_imports)]
use super::list::{p_flag, p_i8, p_u16};
#[allow(unused_imports)]
use crate::bytes::{be_bytes, lemma_be_nat_bound, lemma_pow256};
#[allow(unused_imports)]
use crate::codec::{
    appended, decoded, enc_prefixed, err_before, length_fits, p_be, p_length_prefixed, p_take,
    p_u8, Cursor,
};

verus! {

/// The version of DLMS that this crate speaks.
pub const DLMS_VERSION: u8 = 6;

/// The variable-access name of a logical-name association.
pub const VAA_NAME_LN: u16 = 0x0007;

/// The base name of the current short-name association object.
pub const CURRENT_ASSOCIATION_SN: u16 = 0xFA00;

/// What one end can do, or both have agreed on: 24 flags.
#[derive(Debug, Clone, Copy, PartialEq, Eq, Structural)]
pub struct Conformance(pub u32);

#[allow(non_snake_case)]
impl Conformance {
    /// General protection.
    #[must_use]
    #[verifier::allow_in_spec]
    pub fn GENERAL_PROTECTION() -> Self
        returns
            Conformance(0x400000),
    {
        Conformance(0x400000)
    }

    /// General block transfer.
    #[must_use]
    #[verifier::allow_in_spec]
    pub fn GENERAL_BLOCK_TRANSFER() -> Self
        returns
            Conformance(0x200000),
    {
        Conformance(0x200000)
    }

    /// Reading by short name.
    #[must_use]
    #[verifier::allow_in_spec]
    pub fn READ() -> Self
        returns
            Conformance(0x100000),
    {
        Conformance(0x100000)
    }

    /// Writing by short name.
    #[must_use]
    #[verifier::allow_in_spec]
    pub fn WRITE() -> Self
        returns
            Conformance(0x080000),
    {
        Conformance(0x080000)
    }

    /// Writing by short name without an answer.
    #[must_use]
    #[verifier::allow_in_spec]
    pub fn UNCONFIRMED_WRITE() -> Self
        returns
            Conformance(0x040000),
    {
        Conformance(0x040000)
    }

    /// Delta values.
    #[must_use]
    #[verifier::allow_in_spec]
    pub fn DELTA_VALUE_ENCODING() -> Self
        returns
            Conformance(0x020000),
    {
        Conformance(0x020000)
    }

    /// Writing all attributes at once.
    #[must_use]
    #[verifier::allow_in_spec]
    pub fn ATTRIBUTE_0_WITH_SET() -> Self
        returns
            Conformance(0x008000),
    {
        Conformance(0x008000)
    }

    /// Priorities.
    #[must_use]
    #[verifier::allow_in_spec]
    pub fn PRIORITY_MGMT() -> Self
        returns
            Conformance(0x004000),
    {
        Conformance(0x004000)
    }

    /// Reading all attributes at once.
    #[must_use]
    #[verifier::allow_in_spec]
    pub fn ATTRIBUTE_0_WITH_GET() -> Self
        returns
            Conformance(0x002000),
    {
        Conformance(0x002000)
    }

    /// Long reads.
    #[must_use]
    #[verifier::allow_in_spec]
    pub fn BLOCK_TRANSFER_WITH_GET_OR_READ() -> Self
        returns
            Conformance(0x001000),
    {
        Conformance(0x001000)
    }

    /// Long writes.
    #[must_use]
    #[verifier::allow_in_spec]
    pub fn BLOCK_TRANSFER_WITH_SET_OR_WRITE() -> Self
        returns
            Conformance(0x000800),
    {
        Conformance(0x000800)
    }

    /// Long invocations.
    #[must_use]
    #[verifier::allow_in_spec]
    pub fn BLOCK_TRANSFER_WITH_ACTION() -> Self
        returns
            Conformance(0x000400),
    {
        Conformance(0x000400)
    }

    /// Several attributes at once.
    #[must_use]
    #[verifier::allow_in_spec]
    pub fn MULTIPLE_REFERENCES() -> Self
        returns
            Conformance(0x000200),
    {
        Conformance(0x000200)
    }

    /// Information reports.
    #[must_use]
    #[verifier::allow_in_spec]
    pub fn INFORMATION_REPORT() -> Self
        returns
            Conformance(0x000100),
    {
        Conformance(0x000100)
    }

    /// Data notifications.
    #[must_use]
    #[verifier::allow_in_spec]
    pub fn DATA_NOTIFICATION() -> Self
        returns
            Conformance(0x000080),
    {
        Conformance(0x000080)
    }

    /// The access service.
    #[must_use]
    #[verifier::allow_in_spec]
    pub fn ACCESS() -> Self
        returns
            Conformance(0x000040),
    {
        Conformance(0x000040)
    }

    /// Parameterized access.
    #[must_use]
    #[verifier::allow_in_spec]
    pub fn PARAMETERIZED_ACCESS() -> Self
        returns
            Conformance(0x000020),
    {
        Conformance(0x000020)
    }

    /// Reading.
    #[must_use]
    #[verifier::allow_in_spec]
    pub fn GET() -> Self
        returns
            Conformance(0x000010),
    {
        Conformance(0x000010)
    }

    /// Writing.
    #[must_use]
    #[verifier::allow_in_spec]
    pub fn SET() -> Self
        returns
            Conformance(0x000008),
    {
        Conformance(0x000008)
    }

    /// Parts of attributes.
    #[must_use]
    #[verifier::allow_in_spec]
    pub fn SELECTIVE_ACCESS() -> Self
        returns
            Conformance(0x000004),
    {
        Conformance(0x000004)
    }

    /// Event notifications.
    #[must_use]
    #[verifier::allow_in_spec]
    pub fn EVENT_NOTIFICATION() -> Self
        returns
            Conformance(0x000002),
    {
        Conformance(0x000002)
    }

    /// Invoking.
    #[must_use]
    #[verifier::allow_in_spec]
    pub fn ACTION() -> Self
        returns
            Conformance(0x000001),
    {
        Conformance(0x000001)
    }

    /// What a client proposes unless told otherwise: general protection, long transfers,
    /// several attributes at once, the access service, reading, writing, parts of
    /// attributes and invoking.
    #[must_use]
    #[verifier::allow_in_spec]
    pub fn CLIENT_DEFAULT() -> Self
        returns
            Conformance(0x401E5D),
    {
        Conformance(0x401E5D)
    }

    /// What a server can do unless told otherwise: general protection, long transfers,
    /// several attributes at once, the access service, reading, writing, parts of
    /// attributes and invoking.
    #[must_use]
    #[verifier::allow_in_spec]
    pub fn SERVER_DEFAULT() -> Self
        returns
            Conformance(0x401E5D),
    {
        Conformance(0x401E5D)
    }
}

impl Conformance {
    /// Nothing at all.
    #[must_use]
    #[verifier::allow_in_spec]
    pub fn empty() -> Self
        returns
            Conformance(0),
    {
        Conformance(0)
    }

    /// Whether every flag of `other` is set.
    #[must_use]
    #[verifier::allow_in_spec]
    pub fn contains(self, other: Conformance) -> bool
        returns
            self.0 & other.0 == other.0,
    {
        self.0 & other.0 == other.0
    }

    /// What both ends can do.
    #[must_use]
    #[verifier::allow_in_spec]
    pub fn negotiate(self, other: Conformance) -> Self
        returns
            Conformance(self.0 & other.0),
    {
        Conformance(self.0 & other.0)
    }

    /// Refuse what was not agreed.
    ///
    /// # Errors
    /// [`ErrorKind::Unsupported`] when a flag of `required` is not set.
    pub fn require(self, required: Conformance) -> (r: Result<()>)
        ensures
            r is Ok == self.contains(required),
            r matches Err(e) ==> e == (Error { kind: ErrorKind::Unsupported, offset: 0 }),
    {
        if self.contains(required) {
            Ok(())
        } else {
            Err(Error::new(ErrorKind::Unsupported, 0))
        }
    }

    /// What stands at a cursor: the tag and length of the conformance block, no unused
    /// bits, and three bytes of flags.
    pub open spec fn p(c: Cursor) -> Result<(Conformance, Cursor)> {
        match p_take(c, 4) {
            Err(e) => Err(e),
            Ok((head, d)) => if head != seq![0x5Fu8, 0x1F, 0x04, 0x00] {
                Err(err_before(ErrorKind::InvalidValue, d.at(), 4))
            } else {
                match p_be(d, 3) {
                    Err(e) => Err(e),
                    Ok((n, f)) => Ok((Conformance(n as u32), f)),
                }
            },
        }
    }

    /// The encoding.
    pub open spec fn enc(self) -> Seq<u8> {
        seq![0x5Fu8, 0x1F, 0x04, 0x00] + be_bytes(self.0 as nat, 3)
    }

    fn read(r: &mut Reader<'_>) -> (res: Result<Self>)
        ensures
            decoded(Conformance::p(old(r)@), old(r)@, final(r)@, res),
    {
        let head = r.take(4)?;
        if head[0] != 0x5F || head[1] != 0x1F || head[2] != 0x04 || head[3] != 0x00 {
            return Err(r.err_back(ErrorKind::InvalidValue, 4));
        }
        assert(head@ =~= seq![0x5Fu8, 0x1F, 0x04, 0x00]);
        let bits = r.take(3)?;
        proof {
            lemma_be_nat_bound(bits@);
            lemma_pow256();
        }
        Ok(Conformance(crate::bytes::be_value(bits) as u32))
    }

    fn write<W: Writer>(self, w: &mut W) -> (r: Result<()>)
        ensures
            appended(old(w).sink(), final(w).sink(), self.enc(), true, r),
    {
        let b = crate::bytes::be4(self.0);
        let bytes: [u8; 7] = [0x5F, 0x1F, 0x04, 0x00, b[1], b[2], b[3]];
        proof {
            crate::bytes::lemma_be_bytes_suffix(self.0 as nat, 4, 3);
            assert(bytes@ =~= seq![0x5Fu8, 0x1F, 0x04, 0x00] + b@.subrange(1, 4));
        }
        w.write_bytes(bytes.as_slice())
    }
}

/// The octet string at a cursor that may be missing.
pub open spec fn p_opt_octets(c: Cursor) -> Result<(Option<Seq<u8>>, Cursor)> {
    match p_u8(c) {
        Err(e) => Err(e),
        Ok((flag, d)) => if flag == 0 {
            Ok((None, d))
        } else if flag == 1 {
            match p_length_prefixed(d) {
                Ok((s, f)) => Ok((Some(s), f)),
                Err(e) => Err(e),
            }
        } else {
            Err(err_before(ErrorKind::InvalidValue, d.at(), 1))
        },
    }
}

/// The signed byte at a cursor that may be missing.
pub open spec fn p_opt_i8(c: Cursor) -> Result<(Option<i8>, Cursor)> {
    match p_u8(c) {
        Err(e) => Err(e),
        Ok((flag, d)) => if flag == 0 {
            Ok((None, d))
        } else if flag == 1 {
            match p_i8(d) {
                Ok((v, f)) => Ok((Some(v), f)),
                Err(e) => Err(e),
            }
        } else {
            Err(err_before(ErrorKind::InvalidValue, d.at(), 1))
        },
    }
}

/// The boolean at a cursor that is true where it is missing.
pub open spec fn p_default_true(c: Cursor) -> Result<(bool, Cursor)> {
    match p_u8(c) {
        Err(e) => Err(e),
        Ok((flag, d)) => if flag == 0 {
            Ok((true, d))
        } else if flag == 1 {
            p_flag(d)
        } else {
            Err(err_before(ErrorKind::InvalidValue, d.at(), 1))
        },
    }
}

/// What an octet string that may be missing is.
pub open spec fn octets_view(o: Option<&[u8]>) -> Option<Seq<u8>> {
    match o {
        Some(s) => Some(s@),
        None => None,
    }
}

/// The encoding of an octet string that may be missing.
pub open spec fn enc_opt_octets(o: Option<Seq<u8>>) -> Seq<u8> {
    match o {
        Some(s) => seq![1u8] + enc_prefixed(s),
        None => seq![0u8],
    }
}

/// The encoding of a signed byte that may be missing.
pub open spec fn enc_opt_i8(o: Option<i8>) -> Seq<u8> {
    match o {
        Some(v) => seq![1u8, v as u8],
        None => seq![0u8],
    }
}

/// The encoding of a boolean that is left out where it is true.
pub open spec fn enc_default_true(b: bool) -> Seq<u8> {
    if b {
        seq![0u8]
    } else {
        seq![1u8, 0u8]
    }
}

fn read_opt_octets<'a>(r: &mut Reader<'a>) -> (res: Result<Option<&'a [u8]>>)
    ensures
        final(r)@.same_input(old(r)@),
        match res {
            Ok(o) => p_opt_octets(old(r)@) == Ok::<(Option<Seq<u8>>, Cursor), Error>(
                (octets_view(o), final(r)@),
            ),
            Err(e) => p_opt_octets(old(r)@) == Err::<(Option<Seq<u8>>, Cursor), Error>(e),
        },
{
    let flag = r.u8()?;
    if flag == 0 {
        Ok(None)
    } else if flag == 1 {
        Ok(Some(r.length_prefixed()?))
    } else {
        Err(r.err_back(ErrorKind::InvalidValue, 1))
    }
}

fn read_opt_i8(r: &mut Reader<'_>) -> (res: Result<Option<i8>>)
    ensures
        decoded(p_opt_i8(old(r)@), old(r)@, final(r)@, res),
{
    let flag = r.u8()?;
    if flag == 0 {
        Ok(None)
    } else if flag == 1 {
        Ok(Some(read_i8(r)?))
    } else {
        Err(r.err_back(ErrorKind::InvalidValue, 1))
    }
}

fn read_default_true(r: &mut Reader<'_>) -> (res: Result<bool>)
    ensures
        decoded(p_default_true(old(r)@), old(r)@, final(r)@, res),
{
    let flag = r.u8()?;
    if flag == 0 {
        Ok(true)
    } else if flag == 1 {
        read_flag(r)
    } else {
        Err(r.err_back(ErrorKind::InvalidValue, 1))
    }
}

fn write_opt_octets<W: Writer>(w: &mut W, o: Option<&[u8]>) -> (r: Result<()>)
    ensures
        appended(
            old(w).sink(),
            final(w).sink(),
            enc_opt_octets(octets_view(o)),
            o matches Some(s) ==> length_fits(s@.len()),
            r,
        ),
{
    let ghost w0 = w.sink().bytes;
    match o {
        Some(s) => {
            w.write_u8(1)?;
            w.write_length_prefixed(s)?;
            assert(w.sink().bytes =~= w0 + enc_opt_octets(octets_view(o)));
            Ok(())
        },
        None => w.write_u8(0),
    }
}

fn write_opt_i8<W: Writer>(w: &mut W, o: Option<i8>) -> (r: Result<()>)
    ensures
        appended(old(w).sink(), final(w).sink(), enc_opt_i8(o), true, r),
{
    let ghost w0 = w.sink().bytes;
    match o {
        Some(v) => {
            w.write_u8(1)?;
            w.write_u8(v as u8)?;
            assert(w.sink().bytes =~= w0 + enc_opt_i8(o));
            Ok(())
        },
        None => w.write_u8(0),
    }
}

fn write_default_true<W: Writer>(w: &mut W, b: bool) -> (r: Result<()>)
    ensures
        appended(old(w).sink(), final(w).sink(), enc_default_true(b), true, r),
{
    let ghost w0 = w.sink().bytes;
    if b {
        w.write_u8(0)
    } else {
        w.write_u8(1)?;
        w.write_u8(0)?;
        assert(w.sink().bytes =~= w0 + enc_default_true(b));
        Ok(())
    }
}

/// What the client proposes.
#[verifier::ext_equal]
pub struct InitiateRequestV {
    /// A key for this association only. Delivered under the global key set.
    pub dedicated_key: Option<Seq<u8>>,
    /// Whether the server may answer.
    pub response_allowed: bool,
    /// Not used.
    pub proposed_quality_of_service: Option<i8>,
    /// The version of DLMS.
    pub proposed_dlms_version: u8,
    /// What the client can do.
    pub proposed_conformance: Conformance,
    /// The largest APDU that the client accepts; zero for no limit.
    pub client_max_receive_pdu_size: u16,
}

/// What the client proposes.
#[derive(Debug, Clone, Copy, PartialEq)]
pub struct InitiateRequest<'a> {
    /// A key for this association only. Delivered under the global key set.
    pub dedicated_key: Option<&'a [u8]>,
    /// Whether the server may answer.
    pub response_allowed: bool,
    /// Not used.
    pub proposed_quality_of_service: Option<i8>,
    /// The version of DLMS.
    pub proposed_dlms_version: u8,
    /// What the client can do.
    pub proposed_conformance: Conformance,
    /// The largest APDU that the client accepts; zero for no limit.
    pub client_max_receive_pdu_size: u16,
}

impl<'a> View for InitiateRequest<'a> {
    type V = InitiateRequestV;

    open spec fn view(&self) -> InitiateRequestV {
        InitiateRequestV {
            dedicated_key: octets_view(self.dedicated_key),
            response_allowed: self.response_allowed,
            proposed_quality_of_service: self.proposed_quality_of_service,
            proposed_dlms_version: self.proposed_dlms_version,
            proposed_conformance: self.proposed_conformance,
            client_max_receive_pdu_size: self.client_max_receive_pdu_size,
        }
    }
}

impl InitiateRequestV {
    /// The encoding.
    pub open spec fn enc(self) -> Seq<u8> {
        enc_opt_octets(self.dedicated_key)
            + enc_default_true(self.response_allowed)
            + enc_opt_i8(self.proposed_quality_of_service)
            + seq![self.proposed_dlms_version]
            + self.proposed_conformance.enc()
            + be_bytes(self.client_max_receive_pdu_size as nat, 2)
    }

    /// Whether there is one.
    pub open spec fn fits(self) -> bool {
        (self.dedicated_key matches Some(s) ==> length_fits(s.len()))
    }

    /// What stands at a cursor.
    pub open spec fn p(c: Cursor) -> Result<(InitiateRequestV, Cursor)> {
        match p_opt_octets(c) {
            Err(e) => Err(e),
            Ok((dedicated_key, c1)) => match p_default_true(c1) {
                Err(e) => Err(e),
                Ok((response_allowed, c2)) => match p_opt_i8(c2) {
                    Err(e) => Err(e),
                    Ok((proposed_quality_of_service, c3)) => match p_u8(c3) {
                        Err(e) => Err(e),
                        Ok((proposed_dlms_version, c4)) => match Conformance::p(c4) {
                            Err(e) => Err(e),
                            Ok((proposed_conformance, c5)) => match p_u16(c5) {
                                Err(e) => Err(e),
                                Ok((client_max_receive_pdu_size, c6)) => Ok(
                                    (
                                        InitiateRequestV {
                                            dedicated_key,
                                            response_allowed,
                                            proposed_quality_of_service,
                                            proposed_dlms_version,
                                            proposed_conformance,
                                            client_max_receive_pdu_size,
                                        },
                                        c6,
                                    ),
                                ),
                            },
                        },
                    },
                },
            },
        }
    }
}

impl<'a> Encode for InitiateRequest<'a> {
    open spec fn enc(&self) -> Seq<u8> {
        self@.enc()
    }

    open spec fn encodable(&self) -> bool {
        self@.fits()
    }

    #[verifier::rlimit(40)]
    fn encode<W: Writer>(&self, w: &mut W) -> (r: Result<()>) {
        let ghost w0 = w.sink().bytes;
        write_opt_octets(w, self.dedicated_key)?;
        write_default_true(w, self.response_allowed)?;
        write_opt_i8(w, self.proposed_quality_of_service)?;
        w.write_u8(self.proposed_dlms_version)?;
        self.proposed_conformance.write(w)?;
        w.write_u16(self.client_max_receive_pdu_size)?;
        assert(w.sink().bytes =~= w0 + self@.enc());
        Ok(())
    }
}

impl<'a> Decode<'a> for InitiateRequest<'a> {
    open spec fn parse(c: Cursor) -> Result<(InitiateRequestV, Cursor)> {
        InitiateRequestV::p(c)
    }

    fn decode(r: &mut Reader<'a>) -> (res: Result<Self>) {
        let dedicated_key = read_opt_octets(r)?;
        let response_allowed = read_default_true(r)?;
        let proposed_quality_of_service = read_opt_i8(r)?;
        let proposed_dlms_version = r.u8()?;
        let proposed_conformance = Conformance::read(r)?;
        let client_max_receive_pdu_size = read_u16(r)?;
        Ok(InitiateRequest {
            dedicated_key,
            response_allowed,
            proposed_quality_of_service,
            proposed_dlms_version,
            proposed_conformance,
            client_max_receive_pdu_size,
        })
    }
}

/// What the server agrees to.
#[verifier::ext_equal]
pub struct InitiateResponseV {
    /// Not used.
    pub negotiated_quality_of_service: Option<i8>,
    /// The version of DLMS.
    pub negotiated_dlms_version: u8,
    /// What both ends can do.
    pub negotiated_conformance: Conformance,
    /// The largest APDU that the server accepts.
    pub server_max_receive_pdu_size: u16,
    /// The name from which a client reads the referencing back.
    pub vaa_name: u16,
}

/// What the server agrees to.
#[derive(Debug, Clone, Copy, PartialEq)]
pub struct InitiateResponse {
    /// Not used.
    pub negotiated_quality_of_service: Option<i8>,
    /// The version of DLMS.
    pub negotiated_dlms_version: u8,
    /// What both ends can do.
    pub negotiated_conformance: Conformance,
    /// The largest APDU that the server accepts.
    pub server_max_receive_pdu_size: u16,
    /// The name from which a client reads the referencing back.
    pub vaa_name: u16,
}

impl View for InitiateResponse {
    type V = InitiateResponseV;

    open spec fn view(&self) -> InitiateResponseV {
        InitiateResponseV {
            negotiated_quality_of_service: self.negotiated_quality_of_service,
            negotiated_dlms_version: self.negotiated_dlms_version,
            negotiated_conformance: self.negotiated_conformance,
            server_max_receive_pdu_size: self.server_max_receive_pdu_size,
            vaa_name: self.vaa_name,
        }
    }
}

impl InitiateResponseV {
    /// The encoding.
    pub open spec fn enc(self) -> Seq<u8> {
        enc_opt_i8(self.negotiated_quality_of_service)
            + seq![self.negotiated_dlms_version]
            + self.negotiated_conformance.enc()
            + be_bytes(self.server_max_receive_pdu_size as nat, 2)
            + be_bytes(self.vaa_name as nat, 2)
    }

    /// Whether there is one.
    pub open spec fn fits(self) -> bool {
        true
    }

    /// What stands at a cursor.
    pub open spec fn p(c: Cursor) -> Result<(InitiateResponseV, Cursor)> {
        match p_opt_i8(c) {
            Err(e) => Err(e),
            Ok((negotiated_quality_of_service, c1)) => match p_u8(c1) {
                Err(e) => Err(e),
                Ok((negotiated_dlms_version, c2)) => match Conformance::p(c2) {
                    Err(e) => Err(e),
                    Ok((negotiated_conformance, c3)) => match p_u16(c3) {
                        Err(e) => Err(e),
                        Ok((server_max_receive_pdu_size, c4)) => match p_u16(c4) {
                            Err(e) => Err(e),
                            Ok((vaa_name, c5)) => Ok(
                                (
                                    InitiateResponseV {
                                        negotiated_quality_of_service,
                                        negotiated_dlms_version,
                                        negotiated_conformance,
                                        server_max_receive_pdu_size,
                                        vaa_name,
                                    },
                                    c5,
                                ),
                            ),
                        },
                    },
                },
            },
        }
    }
}

impl Encode for InitiateResponse {
    open spec fn enc(&self) -> Seq<u8> {
        self@.enc()
    }

    open spec fn encodable(&self) -> bool {
        self@.fits()
    }

    fn encode<W: Writer>(&self, w: &mut W) -> (r: Result<()>) {
        let ghost w0 = w.sink().bytes;
        write_opt_i8(w, self.negotiated_quality_of_service)?;
        w.write_u8(self.negotiated_dlms_version)?;
        self.negotiated_conformance.write(w)?;
        w.write_u16(self.server_max_receive_pdu_size)?;
        w.write_u16(self.vaa_name)?;
        assert(w.sink().bytes =~= w0 + self@.enc());
        Ok(())
    }
}

impl<'a> Decode<'a> for InitiateResponse {
    open spec fn parse(c: Cursor) -> Result<(InitiateResponseV, Cursor)> {
        InitiateResponseV::p(c)
    }

    fn decode(r: &mut Reader<'a>) -> (res: Result<Self>) {
        let negotiated_quality_of_service = read_opt_i8(r)?;
        let negotiated_dlms_version = r.u8()?;
        let negotiated_conformance = Conformance::read(r)?;
        let server_max_receive_pdu_size = read_u16(r)?;
        let vaa_name = read_u16(r)?;
        Ok(InitiateResponse {
            negotiated_quality_of_service,
            negotiated_dlms_version,
            negotiated_conformance,
            server_max_receive_pdu_size,
            vaa_name,
        })
    }
}

impl<'a> Default for InitiateRequest<'a> {
    fn default() -> (r: Self)
        ensures
            r@ == (InitiateRequestV {
                dedicated_key: None,
                response_allowed: true,
                proposed_quality_of_service: None,
                proposed_dlms_version: DLMS_VERSION,
                proposed_conformance: Conformance(0),
                client_max_receive_pdu_size: 0,
            }),
    {
        InitiateRequest {
            dedicated_key: None,
            response_allowed: true,
            proposed_quality_of_service: None,
            proposed_dlms_version: DLMS_VERSION,
            proposed_conformance: Conformance(0),
            client_max_receive_pdu_size: 0,
        }
    }
}

impl Default for InitiateResponse {
    fn default() -> (r: Self)
        ensures
            r@ == (InitiateResponseV {
                negotiated_quality_of_service: None,
                negotiated_dlms_version: DLMS_VERSION,
                negotiated_conformance: Conformance(0),
                server_max_receive_pdu_size: 0,
                vaa_name: VAA_NAME_LN,
            }),
    {
        InitiateResponse {
            negotiated_quality_of_service: None,
            negotiated_dlms_version: DLMS_VERSION,
            negotiated_conformance: Conformance(0),
            server_max_receive_pdu_size: 0,
            vaa_name: VAA_NAME_LN,
        }
    }
}

impl InitiateResponse {
    /// Refuse a version that this crate does not speak.
    ///
    /// # Errors
    /// [`ErrorKind::Unsupported`] for any version but [`DLMS_VERSION`].
    pub fn check_version(&self) -> (r: Result<()>)
        ensures
            r is Ok == (self@.negotiated_dlms_version == DLMS_VERSION),
            r matches Err(e) ==> e == (Error { kind: ErrorKind::Unsupported, offset: 0 }),
    {
        if self.negotiated_dlms_version == DLMS_VERSION {
            Ok(())
        } else {
            Err(Error::new(ErrorKind::Unsupported, 0))
        }
    }
}

} // verus!
