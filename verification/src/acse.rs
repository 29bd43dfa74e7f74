//! ACSE — establishing and releasing an application association.
//!
//! The AARQ/AARE exchange decides four things at once: which application context (so,
//! whether the association is ciphered and whether it uses logical or short names),
//! which authentication mechanism, what each side's system title is, and — inside the
//! user-information field, in A-XDR — what services and PDU sizes both sides accept.
//!
//! Each of those is a typed field here, and an unknown value is kept rather than
//! defaulted.

use vstd::prelude::*;

use crate::ber::{iter_tlv, read_tlv, write_constructed, write_tlv, Octets, Tlv};
use crate::codec::{Decode, Encode, Error, ErrorKind, Reader, Result, Writer};
#[allow(unused_imports)]
use crate::ber::{enc_tlv, law_tlv_round_trip, lemma_tlv_adv, p_tlv, TlvV};
#[allow(unused_imports)]
use crate::codec::{appended, enc_length, lemma_then, length_fits, Cursor};

verus! {

/// How objects are addressed.
#[derive(Debug, Clone, Copy, PartialEq, Eq, Structural)]
pub enum Referencing {
    /// By OBIS code.
    LogicalName,
    /// By base name.
    ShortName,
}

/// Which naming and protection the association uses.
#[derive(Debug, Clone, Copy, PartialEq, Eq, Structural)]
pub enum ApplicationContext {
    /// Logical-name referencing, no ciphering.
    LogicalName,
    /// Short-name referencing, no ciphering.
    ShortName,
    /// Logical-name referencing with ciphering.
    LogicalNameCiphered,
    /// Short-name referencing with ciphering.
    ShortNameCiphered,
    /// A context this crate does not know, kept so the refusal can name it.
    Other(u8),
}

impl ApplicationContext {
    /// The final arc of the object identifier.
    #[must_use]
    #[verifier::allow_in_spec]
    pub fn arc(self) -> u8
        returns
            (match self {
                Self::LogicalName => 1,
                Self::ShortName => 2,
                Self::LogicalNameCiphered => 3,
                Self::ShortNameCiphered => 4,
                Self::Other(v) => v,
            }),
    {
        match self {
            Self::LogicalName => 1,
            Self::ShortName => 2,
            Self::LogicalNameCiphered => 3,
            Self::ShortNameCiphered => 4,
            Self::Other(v) => v,
        }
    }

    /// From the final arc.
    #[must_use]
    #[verifier::allow_in_spec]
    pub fn from_arc(v: u8) -> Self
        returns
            (match v {
                1 => Self::LogicalName,
                2 => Self::ShortName,
                3 => Self::LogicalNameCiphered,
                4 => Self::ShortNameCiphered,
                other => Self::Other(other),
            }),
    {
        match v {
            1 => Self::LogicalName,
            2 => Self::ShortName,
            3 => Self::LogicalNameCiphered,
            4 => Self::ShortNameCiphered,
            other => Self::Other(other),
        }
    }

    /// True when the association protects its APDUs.
    #[must_use]
    #[verifier::allow_in_spec]
    pub fn is_ciphered(self) -> bool
        returns
            self is LogicalNameCiphered || self is ShortNameCiphered,
    {
        matches!(self, Self::LogicalNameCiphered | Self::ShortNameCiphered)
    }

    /// True when objects are addressed by logical name.
    #[must_use]
    #[verifier::allow_in_spec]
    pub fn is_logical_name(self) -> bool
        returns
            self is LogicalName || self is LogicalNameCiphered,
    {
        matches!(self, Self::LogicalName | Self::LogicalNameCiphered)
    }

    /// The same context with ciphering switched on or off.
    #[must_use]
    #[verifier::allow_in_spec]
    pub fn with_ciphering(self, ciphered: bool) -> Self
        returns
            (match (self.is_logical_name(), ciphered) {
                (true, false) => Self::LogicalName,
                (true, true) => Self::LogicalNameCiphered,
                (false, false) => Self::ShortName,
                (false, true) => Self::ShortNameCiphered,
            }),
    {
        match (self.is_logical_name(), ciphered) {
            (true, false) => Self::LogicalName,
            (true, true) => Self::LogicalNameCiphered,
            (false, false) => Self::ShortName,
            (false, true) => Self::ShortNameCiphered,
        }
    }

    /// The context for a way of addressing objects, ciphered or not.
    #[must_use]
    #[verifier::allow_in_spec]
    pub fn for_referencing(referencing: Referencing, ciphered: bool) -> Self
        returns
            (match referencing {
                Referencing::LogicalName => Self::LogicalName,
                Referencing::ShortName => Self::ShortName,
            }).with_ciphering(ciphered),
    {
        match referencing {
            Referencing::LogicalName => Self::LogicalName.with_ciphering(ciphered),
            Referencing::ShortName => Self::ShortName.with_ciphering(ciphered),
        }
    }

    /// How this context addresses objects. `None` for one this crate does not know.
    #[must_use]
    #[verifier::allow_in_spec]
    pub fn referencing(self) -> Option<Referencing>
        returns
            (match self {
                Self::LogicalName | Self::LogicalNameCiphered => Some(Referencing::LogicalName),
                Self::ShortName | Self::ShortNameCiphered => Some(Referencing::ShortName),
                Self::Other(_) => None,
            }),
    {
        match self {
            Self::LogicalName | Self::LogicalNameCiphered => Some(Referencing::LogicalName),
            Self::ShortName | Self::ShortNameCiphered => Some(Referencing::ShortName),
            Self::Other(_) => None,
        }
    }
}

/// How the client proves who it is.
#[derive(Debug, Clone, Copy, PartialEq, Eq, Structural)]
pub enum AuthMechanism {
    /// No authentication. The public client.
    Lowest,
    /// Low level security: the password is sent in the AARQ.
    Low,
    /// High level security, manufacturer-specific. Not implemented by this crate.
    HighManufacturer,
    /// High level security using MD5. Obsolete.
    HighMd5,
    /// High level security using SHA-1. Obsolete.
    HighSha1,
    /// High level security using GMAC — the mechanism in general use.
    HighGmac,
    /// High level security using SHA-256.
    HighSha256,
    /// High level security using ECDSA.
    HighEcdsa,
    /// A mechanism this crate does not know.
    Other(u8),
}

impl AuthMechanism {
    /// The final arc of the object identifier.
    #[must_use]
    #[verifier::allow_in_spec]
    pub fn arc(self) -> u8
        returns
            (match self {
                Self::Lowest => 0,
                Self::Low => 1,
                Self::HighManufacturer => 2,
                Self::HighMd5 => 3,
                Self::HighSha1 => 4,
                Self::HighGmac => 5,
                Self::HighSha256 => 6,
                Self::HighEcdsa => 7,
                Self::Other(v) => v,
            }),
    {
        match self {
            Self::Lowest => 0,
            Self::Low => 1,
            Self::HighManufacturer => 2,
            Self::HighMd5 => 3,
            Self::HighSha1 => 4,
            Self::HighGmac => 5,
            Self::HighSha256 => 6,
            Self::HighEcdsa => 7,
            Self::Other(v) => v,
        }
    }

    /// From the final arc.
    #[must_use]
    #[verifier::allow_in_spec]
    pub fn from_arc(v: u8) -> Self
        returns
            (match v {
                0 => Self::Lowest,
                1 => Self::Low,
                2 => Self::HighManufacturer,
                3 => Self::HighMd5,
                4 => Self::HighSha1,
                5 => Self::HighGmac,
                6 => Self::HighSha256,
                7 => Self::HighEcdsa,
                other => Self::Other(other),
            }),
    {
        match v {
            0 => Self::Lowest,
            1 => Self::Low,
            2 => Self::HighManufacturer,
            3 => Self::HighMd5,
            4 => Self::HighSha1,
            5 => Self::HighGmac,
            6 => Self::HighSha256,
            7 => Self::HighEcdsa,
            other => Self::Other(other),
        }
    }

    /// True when the mechanism needs the two extra passes that exchange challenges.
    #[must_use]
    #[verifier::allow_in_spec]
    pub fn is_high_level(self) -> bool
        returns
            !(self is Lowest || self is Low),
    {
        !matches!(self, Self::Lowest | Self::Low)
    }
}

/// Whether the server accepted the association.
#[derive(Debug, Clone, Copy, PartialEq, Eq, Structural)]
pub enum AssociationResult {
    /// Accepted.
    Accepted,
    /// Refused, and asking again will not help.
    RejectedPermanent,
    /// Refused for now.
    RejectedTransient,
    /// A value this crate does not know.
    Other(u8),
}

impl AssociationResult {
    /// The wire value.
    #[must_use]
    #[verifier::allow_in_spec]
    pub fn as_u8(self) -> u8
        returns
            (match self {
                Self::Accepted => 0,
                Self::RejectedPermanent => 1,
                Self::RejectedTransient => 2,
                Self::Other(v) => v,
            }),
    {
        match self {
            Self::Accepted => 0,
            Self::RejectedPermanent => 1,
            Self::RejectedTransient => 2,
            Self::Other(v) => v,
        }
    }

    /// From the wire value.
    #[must_use]
    #[verifier::allow_in_spec]
    pub fn from_u8(v: u8) -> Self
        returns
            (match v {
                0 => Self::Accepted,
                1 => Self::RejectedPermanent,
                2 => Self::RejectedTransient,
                other => Self::Other(other),
            }),
    {
        match v {
            0 => Self::Accepted,
            1 => Self::RejectedPermanent,
            2 => Self::RejectedTransient,
            other => Self::Other(other),
        }
    }
}

/// Why the server answered as it did.
#[derive(Debug, Clone, Copy, PartialEq, Eq, Structural)]
pub enum Diagnostic {
    /// Attributed to the peer application.
    User(UserDiagnostic),
    /// Attributed to the association-control service itself.
    Provider(u8),
}

/// The `acse-service-user` diagnostics that matter in DLMS.
#[derive(Debug, Clone, Copy, PartialEq, Eq, Structural)]
#[non_exhaustive]
pub enum UserDiagnostic {
    /// No diagnostic; the association was accepted.
    Null,
    /// No reason given.
    NoReasonGiven,
    /// The proposed application context is not supported — usually a client asking for
    /// ciphering from a meter that has none, or short names from a logical-name meter.
    ApplicationContextNameNotSupported,
    /// The mechanism name is not one the server knows.
    AuthenticationMechanismNameNotRecognised,
    /// The server requires a mechanism name and none was offered.
    AuthenticationMechanismNameRequired,
    /// The credentials were wrong.
    AuthenticationFailure,
    /// The server requires authentication for this association.
    AuthenticationRequired,
    /// A value this crate does not name.
    Other(u8),
}

impl UserDiagnostic {
    /// The wire value.
    #[must_use]
    #[verifier::allow_in_spec]
    pub fn as_u8(self) -> u8
        returns
            (match self {
                Self::Null => 0,
                Self::NoReasonGiven => 1,
                Self::ApplicationContextNameNotSupported => 2,
                Self::AuthenticationMechanismNameNotRecognised => 11,
                Self::AuthenticationMechanismNameRequired => 12,
                Self::AuthenticationFailure => 13,
                Self::AuthenticationRequired => 14,
                Self::Other(v) => v,
            }),
    {
        match self {
            Self::Null => 0,
            Self::NoReasonGiven => 1,
            Self::ApplicationContextNameNotSupported => 2,
            Self::AuthenticationMechanismNameNotRecognised => 11,
            Self::AuthenticationMechanismNameRequired => 12,
            Self::AuthenticationFailure => 13,
            Self::AuthenticationRequired => 14,
            Self::Other(v) => v,
        }
    }

    /// From the wire value.
    #[must_use]
    #[verifier::allow_in_spec]
    pub fn from_u8(v: u8) -> Self
        returns
            (match v {
                0 => Self::Null,
                1 => Self::NoReasonGiven,
                2 => Self::ApplicationContextNameNotSupported,
                11 => Self::AuthenticationMechanismNameNotRecognised,
                12 => Self::AuthenticationMechanismNameRequired,
                13 => Self::AuthenticationFailure,
                14 => Self::AuthenticationRequired,
                other => Self::Other(other),
            }),
    {
        match v {
            0 => Self::Null,
            1 => Self::NoReasonGiven,
            2 => Self::ApplicationContextNameNotSupported,
            11 => Self::AuthenticationMechanismNameNotRecognised,
            12 => Self::AuthenticationMechanismNameRequired,
            13 => Self::AuthenticationFailure,
            14 => Self::AuthenticationRequired,
            other => Self::Other(other),
        }
    }
}

/// Why an association is being released.
#[derive(Debug, Clone, Copy, PartialEq, Eq, Structural)]
pub enum ReleaseReason {
    /// The client is finished.
    Normal,
    /// The client wants the association released urgently.
    Urgent,
    /// The client is not saying.
    UserDefined,
    /// A value this crate does not know.
    Other(u8),
}

impl ReleaseReason {
    /// The wire value.
    #[must_use]
    #[verifier::allow_in_spec]
    pub fn as_u8(self) -> u8
        returns
            (match self {
                Self::Normal => 0,
                Self::Urgent => 1,
                Self::UserDefined => 30,
                Self::Other(v) => v,
            }),
    {
        match self {
            Self::Normal => 0,
            Self::Urgent => 1,
            Self::UserDefined => 30,
            Self::Other(v) => v,
        }
    }

    /// From the wire value.
    #[must_use]
    #[verifier::allow_in_spec]
    pub fn from_u8(v: u8) -> Self
        returns
            (match v {
                0 => Self::Normal,
                1 => Self::Urgent,
                30 => Self::UserDefined,
                other => Self::Other(other),
            }),
    {
        match v {
            0 => Self::Normal,
            1 => Self::Urgent,
            30 => Self::UserDefined,
            other => Self::Other(other),
        }
    }
}

/// The values that an octet string field stands for.
pub open spec fn octets(o: Option<&[u8]>) -> Option<Seq<u8>> {
    match o {
        Some(s) => Some(s@),
        None => None,
    }
}

/// The contents of the object identifier `2.16.756.5.8.<branch>.<arc>`.
pub open spec fn oid_bytes(branch: u8, arc: u8) -> Seq<u8> {
    seq![0x60, 0x85, 0x74, 0x05, 0x08, branch, arc]
}

/// The final arc of the contents of an object identifier: seven bytes, the first five of
/// which are those that every DLMS name starts with.
pub open spec fn arc_of(value: Seq<u8>, offset: usize) -> Result<u8> {
    if value.len() == 7 && value.subrange(0, 5) == seq![0x60u8, 0x85, 0x74, 0x05, 0x08] {
        Ok(value[6])
    } else {
        Err(Error { kind: ErrorKind::InvalidValue, offset })
    }
}

/// The final arc of an object identifier inside an explicitly tagged container.
pub open spec fn explicit_arc(t: TlvV) -> Result<u8> {
    match p_tlv(t.start()) {
        Err(e) => Err(e),
        Ok((i, _)) => if i.tag != 0x06 {
            Err(Error { kind: ErrorKind::InvalidTag(i.tag), offset: i.offset })
        } else {
            arc_of(i.value, i.offset)
        },
    }
}

/// The octets that a field holds: the field's own contents where it is primitive, those of
/// the one TLV of tag `expected` inside it where it is constructed.
pub open spec fn inner_of(t: TlvV, expected: u8) -> Result<Seq<u8>> {
    if t.tag & 0x20 == 0 {
        Ok(t.value)
    } else {
        match p_tlv(t.start()) {
            Err(e) => Err(e),
            Ok((i, _)) => if i.tag != expected {
                Err(Error { kind: ErrorKind::InvalidTag(i.tag), offset: i.offset })
            } else {
                Ok(i.value)
            },
        }
    }
}

/// The most significant bit of the first content byte of a bit string.
pub open spec fn top_bit(value: Seq<u8>) -> bool {
    value.len() > 1 && value[1] & 0x80 != 0
}

/// One TLV of tag `inner` inside one of tag `outer`, where there is something to put there.
pub open spec fn wrapped(outer: u8, inner: u8, o: Option<Seq<u8>>) -> Seq<u8> {
    match o {
        Some(s) => enc_tlv(outer, enc_tlv(inner, s)),
        None => Seq::empty(),
    }
}

/// Whether such a field has an encoding.
pub open spec fn wrapped_fits(inner: u8, o: Option<Seq<u8>>) -> bool {
    match o {
        Some(s) => length_fits(s.len()) && length_fits(enc_tlv(inner, s).len()),
        None => true,
    }
}

/// The application context field.
pub open spec fn enc_context(o: Option<ApplicationContext>) -> Seq<u8> {
    match o {
        Some(ctx) => enc_tlv(0xA1, enc_tlv(0x06, oid_bytes(1, ctx.arc()))),
        None => Seq::empty(),
    }
}

/// The mechanism name field.
pub open spec fn enc_mechanism(tag: u8, o: Option<AuthMechanism>) -> Seq<u8> {
    match o {
        Some(m) => enc_tlv(tag, oid_bytes(2, m.arc())),
        None => Seq::empty(),
    }
}

/// The requirements field.
pub open spec fn enc_requirements(tag: u8, on: bool) -> Seq<u8> {
    if on {
        enc_tlv(tag, seq![0x07u8, 0x80])
    } else {
        Seq::empty()
    }
}

/// `2.16.756.5.8.<branch>.<arc>` as BER contents.
#[must_use]
pub fn oid(branch: u8, arc: u8) -> (r: [u8; 7])
    ensures
        r@ == oid_bytes(branch, arc),
{
    let r = [0x60, 0x85, 0x74, 0x05, 0x08, branch, arc];
    assert(r@ =~= oid_bytes(branch, arc));
    r
}

/// The final arc of an object identifier inside an explicitly tagged container.
fn oid_arc(tlv: &Tlv<'_>) -> (r: Result<u8>)
    ensures
        r == explicit_arc(tlv@),
{
    let mut inner_reader = tlv.reader();
    let inner = read_tlv(&mut inner_reader)?;
    if inner.tag != 0x06 {
        return Err(Error::new(ErrorKind::InvalidTag(inner.tag), inner.offset));
    }
    check_oid_prefix(inner.value, inner.offset)
}

/// The final arc of an implicitly tagged object identifier.
fn implicit_oid_arc(tlv: &Tlv<'_>) -> (r: Result<u8>)
    ensures
        r == arc_of(tlv@.value, tlv@.offset),
{
    check_oid_prefix(tlv.value, tlv.offset)
}

fn check_oid_prefix(value: &[u8], offset: usize) -> (r: Result<u8>)
    ensures
        r == arc_of(value@, offset),
{
    if value.len() != 7 || !(value[0] == 0x60 && value[1] == 0x85 && value[2] == 0x74 && value[3]
        == 0x05 && value[4] == 0x08) {
        proof {
            if value@.len() == 7 {
                let p = value@.subrange(0, 5);
                assert(p[0] == value@[0] && p[1] == value@[1] && p[2] == value@[2] && p[3]
                    == value@[3] && p[4] == value@[4]);
            }
        }
        return Err(Error::new(ErrorKind::InvalidValue, offset));
    }
    assert(value@.subrange(0, 5) =~= seq![0x60u8, 0x85, 0x74, 0x05, 0x08]);
    Ok(value[6])
}

/// The contents of a single TLV of tag `expected` inside `tlv`.
fn inner_octets<'a>(tlv: &Tlv<'a>, expected: u8) -> (r: Result<&'a [u8]>)
    ensures
        match r {
            Ok(s) => inner_of(tlv@, expected) == Ok::<Seq<u8>, Error>(s@),
            Err(e) => inner_of(tlv@, expected) == Err::<Seq<u8>, Error>(e),
        },
{
    if !tlv.is_constructed() {
        // An implicit octet string: the contents are the value itself.
        return Ok(tlv.value);
    }
    let mut inner_reader = tlv.reader();
    let inner = read_tlv(&mut inner_reader)?;
    if inner.tag != expected {
        return Err(Error::new(ErrorKind::InvalidTag(inner.tag), inner.offset));
    }
    Ok(inner.value)
}

/// The `authentication` bit of an ACSE-requirements BIT STRING.
///
/// A BER bit string is `[unused-bit-count, content…]`, and bit 0 — `authentication` — is
/// the most significant bit of the first content byte, however many bytes follow it.
#[must_use]
pub fn authentication_bit(value: &[u8]) -> (r: bool)
    ensures
        r == top_bit(value@),
{
    value.len() > 1 && value[1] & 0x80 != 0
}

fn write_wrapped<W: Writer>(w: &mut W, outer: u8, inner: u8, o: Option<&[u8]>) -> (r: Result<()>)
    ensures
        appended(
            old(w).sink(),
            final(w).sink(),
            wrapped(outer, inner, octets(o)),
            wrapped_fits(inner, octets(o)),
            r,
        ),
{
    match o {
        Some(s) => write_constructed(w, outer, &Octets { tag: inner, value: s }),
        None => {
            assert(w.sink().bytes =~= w.sink().bytes + Seq::<u8>::empty());
            Ok(())
        },
    }
}

fn write_context<W: Writer>(w: &mut W, o: Option<ApplicationContext>) -> (r: Result<()>)
    ensures
        appended(old(w).sink(), final(w).sink(), enc_context(o), true, r),
{
    match o {
        Some(ctx) => {
            let name = oid(1, ctx.arc());
            write_constructed(w, 0xA1, &Octets { tag: 0x06, value: name.as_slice() })
        },
        None => {
            assert(w.sink().bytes =~= w.sink().bytes + Seq::<u8>::empty());
            Ok(())
        },
    }
}

fn write_mechanism<W: Writer>(w: &mut W, tag: u8, o: Option<AuthMechanism>) -> (r: Result<()>)
    ensures
        appended(old(w).sink(), final(w).sink(), enc_mechanism(tag, o), true, r),
{
    match o {
        Some(m) => {
            let name = oid(2, m.arc());
            write_tlv(w, tag, name.as_slice())
        },
        None => {
            assert(w.sink().bytes =~= w.sink().bytes + Seq::<u8>::empty());
            Ok(())
        },
    }
}

fn write_requirements<W: Writer>(w: &mut W, tag: u8, on: bool) -> (r: Result<()>)
    ensures
        appended(old(w).sink(), final(w).sink(), enc_requirements(tag, on), true, r),
{
    if on {
        let bits: [u8; 2] = [0x07, 0x80];
        assert(bits@ =~= seq![0x07u8, 0x80]);
        write_tlv(w, tag, bits.as_slice())
    } else {
        assert(w.sink().bytes =~= w.sink().bytes + Seq::<u8>::empty());
        Ok(())
    }
}

/// What an association request holds.
#[verifier::ext_equal]
pub struct AarqV {
    /// Which naming and protection.
    pub application_context: Option<ApplicationContext>,
    /// The server's system title.
    pub called_ap_title: Option<Seq<u8>>,
    /// The client's system title.
    pub calling_ap_title: Option<Seq<u8>>,
    /// A key set selector.
    pub calling_ae_qualifier: Option<Seq<u8>>,
    /// Whether authentication is used.
    pub sender_acse_requirements: bool,
    /// Which authentication mechanism.
    pub mechanism_name: Option<AuthMechanism>,
    /// The password or the challenge.
    pub calling_authentication_value: Option<Seq<u8>>,
    /// The InitiateRequest.
    pub user_information: Option<Seq<u8>>,
}

impl AarqV {
    /// The request with no field in it.
    pub open spec fn blank() -> AarqV {
        AarqV {
            application_context: None,
            called_ap_title: None,
            calling_ap_title: None,
            calling_ae_qualifier: None,
            sender_acse_requirements: false,
            mechanism_name: None,
            calling_authentication_value: None,
            user_information: None,
        }
    }

    /// The request with one more field read into it. A field this crate does not know
    /// changes nothing.
    pub open spec fn with(self, t: TlvV) -> Result<AarqV> {
        match t.number() {
            Some(1) => match explicit_arc(t) {
                Ok(a) => Ok(
                    AarqV { application_context: Some(ApplicationContext::from_arc(a)), ..self },
                ),
                Err(e) => Err(e),
            },
            Some(2) => match inner_of(t, 0x04) {
                Ok(s) => Ok(AarqV { called_ap_title: Some(s), ..self }),
                Err(e) => Err(e),
            },
            Some(6) => match inner_of(t, 0x04) {
                Ok(s) => Ok(AarqV { calling_ap_title: Some(s), ..self }),
                Err(e) => Err(e),
            },
            Some(7) => match inner_of(t, 0x04) {
                Ok(s) => Ok(AarqV { calling_ae_qualifier: Some(s), ..self }),
                Err(e) => Err(e),
            },
            Some(10) => Ok(AarqV { sender_acse_requirements: top_bit(t.value), ..self }),
            Some(11) => match arc_of(t.value, t.offset) {
                Ok(a) => Ok(AarqV { mechanism_name: Some(AuthMechanism::from_arc(a)), ..self }),
                Err(e) => Err(e),
            },
            Some(12) => match inner_of(t, 0x80) {
                Ok(s) => Ok(AarqV { calling_authentication_value: Some(s), ..self }),
                Err(e) => Err(e),
            },
            Some(30) => match inner_of(t, 0x04) {
                Ok(s) => Ok(AarqV { user_information: Some(s), ..self }),
                Err(e) => Err(e),
            },
            _ => Ok(self),
        }
    }

    /// The fields that say who is speaking to whom.
    pub open spec fn names(self) -> Seq<u8> {
        enc_context(self.application_context) + wrapped(0xA2, 0x04, self.called_ap_title) + wrapped(
            0xA6,
            0x04,
            self.calling_ap_title,
        ) + wrapped(0xA7, 0x04, self.calling_ae_qualifier)
    }

    /// The fields that say what is asked for, and on whose credentials.
    pub open spec fn credentials(self) -> Seq<u8> {
        enc_requirements(0x8A, self.sender_acse_requirements) + enc_mechanism(
            0x8B,
            self.mechanism_name,
        ) + wrapped(0xAC, 0x80, self.calling_authentication_value) + wrapped(
            0xBE,
            0x04,
            self.user_information,
        )
    }

    /// The fields, in the order in which they are written.
    pub open spec fn fields(self) -> Seq<u8> {
        self.names() + self.credentials()
    }

    /// Whether every field has an encoding.
    pub open spec fn fits(self) -> bool {
        &&& wrapped_fits(0x04, self.called_ap_title)
        &&& wrapped_fits(0x04, self.calling_ap_title)
        &&& wrapped_fits(0x04, self.calling_ae_qualifier)
        &&& wrapped_fits(0x80, self.calling_authentication_value)
        &&& wrapped_fits(0x04, self.user_information)
    }

    /// The whole APDU.
    pub open spec fn enc(self) -> Seq<u8> {
        enc_tlv(0x60, self.fields())
    }

    /// Whether it can be written.
    pub open spec fn encodable(self) -> bool {
        self.fits() && length_fits(self.fields().len())
    }

    /// Whether the context and the mechanism are named by the variant that stands for them.
    pub open spec fn canonical(self) -> bool {
        &&& self.application_context matches Some(c) ==> ApplicationContext::from_arc(c.arc()) == c
        &&& self.mechanism_name matches Some(m) ==> AuthMechanism::from_arc(m.arc()) == m
    }
}

/// All the fields from a cursor on, read into a request.
#[verifier::opaque]
pub open spec fn p_aarq(c: Cursor, acc: AarqV) -> Result<AarqV>
    decreases c.left(),
{
    if c.left() <= 0 {
        Ok(acc)
    } else {
        match p_tlv(c) {
            Err(e) => Err(e),
            Ok((t, d)) => match acc.with(t) {
                Err(e) => Err(e),
                Ok(a) => if c.pos < d.pos && d.buf == c.buf {
                    p_aarq(d, a)
                } else {
                    Ok(a)
                },
            },
        }
    }
}

/// The client's association request.
#[derive(Debug, Clone, Copy, PartialEq, Eq)]
pub struct Aarq<'a> {
    /// Which naming and protection.
    pub application_context: Option<ApplicationContext>,
    /// The server's system title, when the client names it.
    pub called_ap_title: Option<&'a [u8]>,
    /// The client's system title. Required for GMAC and for any ciphered context,
    /// because it is half of every nonce the client will use.
    pub calling_ap_title: Option<&'a [u8]>,
    /// A qualifier some profiles use to select a key set.
    pub calling_ae_qualifier: Option<&'a [u8]>,
    /// The ACSE requirements bit string; `0x0780` means "authentication used".
    pub sender_acse_requirements: bool,
    /// Which authentication mechanism.
    pub mechanism_name: Option<AuthMechanism>,
    /// The password for low level security, or the client's challenge for high level.
    pub calling_authentication_value: Option<&'a [u8]>,
    /// The xDLMS InitiateRequest, ciphered when the context says so.
    pub user_information: Option<&'a [u8]>,
}

impl<'a> View for Aarq<'a> {
    type V = AarqV;

    open spec fn view(&self) -> AarqV {
        AarqV {
            application_context: self.application_context,
            called_ap_title: octets(self.called_ap_title),
            calling_ap_title: octets(self.calling_ap_title),
            calling_ae_qualifier: octets(self.calling_ae_qualifier),
            sender_acse_requirements: self.sender_acse_requirements,
            mechanism_name: self.mechanism_name,
            calling_authentication_value: octets(self.calling_authentication_value),
            user_information: octets(self.user_information),
        }
    }
}

impl<'a> Default for Aarq<'a> {
    fn default() -> (r: Self)
        ensures
            r@ == AarqV::blank(),
    {
        Aarq {
            application_context: None,
            called_ap_title: None,
            calling_ap_title: None,
            calling_ae_qualifier: None,
            sender_acse_requirements: false,
            mechanism_name: None,
            calling_authentication_value: None,
            user_information: None,
        }
    }
}

/// The fields of a request, as the contents of its outer TLV.
struct AarqFields<'b, 'a>(&'b Aarq<'a>);

impl<'b, 'a> Encode for AarqFields<'b, 'a> {
    closed spec fn enc(&self) -> Seq<u8> {
        self.0@.fields()
    }

    closed spec fn encodable(&self) -> bool {
        self.0@.fits()
    }

    #[verifier::rlimit(60)]
    fn encode<W: Writer>(&self, w: &mut W) -> (r: Result<()>) {
        let ghost w0 = w.sink().bytes;
        self.0.write_names(w)?;
        self.0.write_credentials(w)?;
        assert(w.sink().bytes =~= w0 + self.0@.fields());
        Ok(())
    }
}

impl<'a> Encode for Aarq<'a> {
    open spec fn enc(&self) -> Seq<u8> {
        enc_tlv(0x60, self@.fields())
    }

    open spec fn encodable(&self) -> bool {
        self@.fits() && length_fits(self@.fields().len())
    }

    fn encode<W: Writer>(&self, w: &mut W) -> (r: Result<()>) {
        write_constructed(w, 0x60, &AarqFields(self))
    }
}

impl<'a> Aarq<'a> {
    fn write_called<W: Writer>(&self, w: &mut W) -> (r: Result<()>)
        ensures
            appended(
                old(w).sink(),
                final(w).sink(),
                enc_context(self@.application_context) + wrapped(
                    0xA2,
                    0x04,
                    self@.called_ap_title,
                ),
                wrapped_fits(0x04, self@.called_ap_title),
                r,
            ),
    {
        let ghost w0 = w.sink();
        write_context(w, self.application_context)?;
        let ghost w1 = w.sink();
        let r = write_wrapped(w, 0xA2, 0x04, self.called_ap_title);
        proof {
            lemma_then(
                w0,
                w1,
                w.sink(),
                enc_context(self@.application_context),
                wrapped(0xA2, 0x04, self@.called_ap_title),
                wrapped_fits(0x04, self@.called_ap_title),
                r,
            );
        }
        r
    }

    fn write_calling<W: Writer>(&self, w: &mut W) -> (r: Result<()>)
        ensures
            appended(
                old(w).sink(),
                final(w).sink(),
                wrapped(0xA6, 0x04, self@.calling_ap_title) + wrapped(
                    0xA7,
                    0x04,
                    self@.calling_ae_qualifier,
                ),
                wrapped_fits(0x04, self@.calling_ap_title) && wrapped_fits(
                    0x04,
                    self@.calling_ae_qualifier,
                ),
                r,
            ),
    {
        let ghost w0 = w.sink();
        write_wrapped(w, 0xA6, 0x04, self.calling_ap_title)?;
        let ghost w1 = w.sink();
        let r = write_wrapped(w, 0xA7, 0x04, self.calling_ae_qualifier);
        proof {
            lemma_then(
                w0,
                w1,
                w.sink(),
                wrapped(0xA6, 0x04, self@.calling_ap_title),
                wrapped(0xA7, 0x04, self@.calling_ae_qualifier),
                wrapped_fits(0x04, self@.calling_ae_qualifier),
                r,
            );
        }
        r
    }

    fn write_names<W: Writer>(&self, w: &mut W) -> (r: Result<()>)
        ensures
            appended(
                old(w).sink(),
                final(w).sink(),
                self@.names(),
                wrapped_fits(0x04, self@.called_ap_title) && wrapped_fits(
                    0x04,
                    self@.calling_ap_title,
                ) && wrapped_fits(0x04, self@.calling_ae_qualifier),
                r,
            ),
    {
        let ghost a = enc_context(self@.application_context) + wrapped(
            0xA2,
            0x04,
            self@.called_ap_title,
        );
        let ghost b = wrapped(0xA6, 0x04, self@.calling_ap_title) + wrapped(
            0xA7,
            0x04,
            self@.calling_ae_qualifier,
        );
        assert(self@.names() =~= a + b);
        let ghost w0 = w.sink();
        self.write_called(w)?;
        let ghost w1 = w.sink();
        let r = self.write_calling(w);
        proof {
            lemma_then(
                w0,
                w1,
                w.sink(),
                a,
                b,
                wrapped_fits(0x04, self@.calling_ap_title) && wrapped_fits(
                    0x04,
                    self@.calling_ae_qualifier,
                ),
                r,
            );
        }
        r
    }

    #[verifier::rlimit(60)]
    fn write_credentials<W: Writer>(&self, w: &mut W) -> (r: Result<()>)
        ensures
            appended(
                old(w).sink(),
                final(w).sink(),
                self@.credentials(),
                wrapped_fits(0x80, self@.calling_authentication_value) && wrapped_fits(
                    0x04,
                    self@.user_information,
                ),
                r,
            ),
    {
        let ghost w0 = w.sink().bytes;
        write_requirements(w, 0x8A, self.sender_acse_requirements)?;
        write_mechanism(w, 0x8B, self.mechanism_name)?;
        write_wrapped(w, 0xAC, 0x80, self.calling_authentication_value)?;
        write_wrapped(w, 0xBE, 0x04, self.user_information)?;
        assert(w.sink().bytes =~= w0 + self@.credentials());
        Ok(())
    }

    /// Read one field.
    fn field(&mut self, tlv: &Tlv<'a>) -> (r: Result<()>)
        ensures
            match r {
                Ok(()) => old(self)@.with(tlv@) == Ok::<AarqV, Error>(final(self)@),
                Err(e) => old(self)@.with(tlv@) == Err::<AarqV, Error>(e),
            },
    {
        match tlv.context_number() {
            Some(1) => self.application_context = Some(ApplicationContext::from_arc(oid_arc(tlv)?)),
            Some(2) => self.called_ap_title = Some(inner_octets(tlv, 0x04)?),
            Some(6) => self.calling_ap_title = Some(inner_octets(tlv, 0x04)?),
            Some(7) => self.calling_ae_qualifier = Some(inner_octets(tlv, 0x04)?),
            Some(10) => self.sender_acse_requirements = authentication_bit(tlv.value),
            Some(11) => self.mechanism_name = Some(AuthMechanism::from_arc(implicit_oid_arc(tlv)?)),
            Some(12) => self.calling_authentication_value = Some(inner_octets(tlv, 0x80)?),
            Some(30) => self.user_information = Some(inner_octets(tlv, 0x04)?),
            _ => {},
        }
        Ok(())
    }
}

impl<'a> Decode<'a> for Aarq<'a> {
    open spec fn parse(c: Cursor) -> Result<(AarqV, Cursor)> {
        match p_tlv(c) {
            Err(e) => Err(e),
            Ok((t, d)) => if t.tag != 0x60 {
                Err(Error { kind: ErrorKind::InvalidTag(t.tag), offset: t.offset })
            } else {
                match p_aarq(t.start(), AarqV::blank()) {
                    Err(e) => Err(e),
                    Ok(v) => Ok((v, d)),
                }
            },
        }
    }

    #[verifier::loop_isolation(false)]
    fn decode(r: &mut Reader<'a>) -> (res: Result<Self>) {
        let outer = read_tlv(r)?;
        if outer.tag != 0x60 {
            return Err(Error::new(ErrorKind::InvalidTag(outer.tag), outer.offset));
        }
        let mut out = Aarq::default();
        let mut it = iter_tlv(outer.value, outer.offset);
        loop
            invariant
                p_aarq(outer@.start(), AarqV::blank()) == p_aarq(it.cursor(), out@),
                it.cursor().wf(),
            decreases it.cursor().left(),
        {
            proof {
                reveal(p_aarq);
                lemma_tlv_adv(it.cursor());
            }
            match it.next() {
                Some(tlv) => out.field(&tlv?)?,
                None => return Ok(out),
            }
        }
    }
}

/// What an answer to an association request holds.
#[verifier::ext_equal]
pub struct AareV {
    /// Which naming and protection.
    pub application_context: Option<ApplicationContext>,
    /// Accepted or refused.
    pub result: AssociationResult,
    /// Why.
    pub diagnostic: Diagnostic,
    /// The server's system title.
    pub responding_ap_title: Option<Seq<u8>>,
    /// Whether authentication is used.
    pub responder_acse_requirements: bool,
    /// Which authentication mechanism.
    pub mechanism_name: Option<AuthMechanism>,
    /// The challenge.
    pub responding_authentication_value: Option<Seq<u8>>,
    /// The InitiateResponse, or the reason that there is none.
    pub user_information: Option<Seq<u8>>,
}

/// The result that a field holds.
pub open spec fn result_of(t: TlvV) -> Result<AssociationResult> {
    match p_tlv(t.start()) {
        Err(e) => Err(e),
        Ok((i, _)) => match i.byte() {
            Err(e) => Err(e),
            Ok(v) => Ok(AssociationResult::from_u8(v)),
        },
    }
}

/// The diagnostic that a field holds.
pub open spec fn diagnostic_of(t: TlvV) -> Result<Diagnostic> {
    match p_tlv(t.start()) {
        Err(e) => Err(e),
        Ok((i, _)) => match p_tlv(i.start()) {
            Err(e) => Err(e),
            Ok((j, _)) => match j.byte() {
                Err(e) => Err(e),
                Ok(v) => if i.number() == Some(1u8) {
                    Ok(Diagnostic::User(UserDiagnostic::from_u8(v)))
                } else {
                    Ok(Diagnostic::Provider(v))
                },
            },
        },
    }
}

/// The contents of the diagnostic field.
pub open spec fn enc_diagnostic(d: Diagnostic) -> Seq<u8> {
    match d {
        Diagnostic::User(u) => enc_tlv(0xA1, enc_tlv(0x02, seq![u.as_u8()])),
        Diagnostic::Provider(p) => enc_tlv(0xA2, enc_tlv(0x02, seq![p])),
    }
}

impl AareV {
    /// The answer before any field has been read: accepted, and nothing else said.
    pub open spec fn blank() -> AareV {
        AareV {
            application_context: None,
            result: AssociationResult::Accepted,
            diagnostic: Diagnostic::User(UserDiagnostic::Null),
            responding_ap_title: None,
            responder_acse_requirements: false,
            mechanism_name: None,
            responding_authentication_value: None,
            user_information: None,
        }
    }

    /// The answer with one more field read into it. A field this crate does not know
    /// changes nothing.
    pub open spec fn with(self, t: TlvV) -> Result<AareV> {
        match t.number() {
            Some(1) => match explicit_arc(t) {
                Ok(a) => Ok(
                    AareV { application_context: Some(ApplicationContext::from_arc(a)), ..self },
                ),
                Err(e) => Err(e),
            },
            Some(2) => match result_of(t) {
                Ok(result) => Ok(AareV { result, ..self }),
                Err(e) => Err(e),
            },
            Some(3) => match diagnostic_of(t) {
                Ok(diagnostic) => Ok(AareV { diagnostic, ..self }),
                Err(e) => Err(e),
            },
            Some(4) => match inner_of(t, 0x04) {
                Ok(s) => Ok(AareV { responding_ap_title: Some(s), ..self }),
                Err(e) => Err(e),
            },
            Some(8) => Ok(AareV { responder_acse_requirements: top_bit(t.value), ..self }),
            Some(9) => match arc_of(t.value, t.offset) {
                Ok(a) => Ok(AareV { mechanism_name: Some(AuthMechanism::from_arc(a)), ..self }),
                Err(e) => Err(e),
            },
            Some(10) => match inner_of(t, 0x80) {
                Ok(s) => Ok(AareV { responding_authentication_value: Some(s), ..self }),
                Err(e) => Err(e),
            },
            Some(30) => match inner_of(t, 0x04) {
                Ok(s) => Ok(AareV { user_information: Some(s), ..self }),
                Err(e) => Err(e),
            },
            _ => Ok(self),
        }
    }

    /// The fields that say how the request was answered.
    pub open spec fn verdict(self) -> Seq<u8> {
        enc_context(self.application_context) + enc_tlv(
            0xA2,
            enc_tlv(0x02, seq![self.result.as_u8()]),
        ) + enc_tlv(0xA3, enc_diagnostic(self.diagnostic)) + wrapped(
            0xA4,
            0x04,
            self.responding_ap_title,
        )
    }

    /// The fields that say what the server offers in turn.
    pub open spec fn credentials(self) -> Seq<u8> {
        enc_requirements(0x88, self.responder_acse_requirements) + enc_mechanism(
            0x89,
            self.mechanism_name,
        ) + wrapped(0xAA, 0x80, self.responding_authentication_value) + wrapped(
            0xBE,
            0x04,
            self.user_information,
        )
    }

    /// The fields, in the order in which they are written.
    pub open spec fn fields(self) -> Seq<u8> {
        self.verdict() + self.credentials()
    }

    /// Whether every field has an encoding.
    pub open spec fn fits(self) -> bool {
        &&& wrapped_fits(0x04, self.responding_ap_title)
        &&& wrapped_fits(0x80, self.responding_authentication_value)
        &&& wrapped_fits(0x04, self.user_information)
    }

    /// The whole APDU.
    pub open spec fn enc(self) -> Seq<u8> {
        enc_tlv(0x61, self.fields())
    }

    /// Whether it can be written.
    pub open spec fn encodable(self) -> bool {
        self.fits() && length_fits(self.fields().len())
    }

    /// Whether each value is named by the variant that stands for it.
    pub open spec fn canonical(self) -> bool {
        &&& self.application_context matches Some(c) ==> ApplicationContext::from_arc(c.arc()) == c
        &&& AssociationResult::from_u8(self.result.as_u8()) == self.result
        &&& self.diagnostic matches Diagnostic::User(u) ==> UserDiagnostic::from_u8(u.as_u8()) == u
        &&& self.mechanism_name matches Some(m) ==> AuthMechanism::from_arc(m.arc()) == m
    }
}

/// All the fields from a cursor on, read into an answer.
#[verifier::opaque]
pub open spec fn p_aare(c: Cursor, acc: AareV) -> Result<AareV>
    decreases c.left(),
{
    if c.left() <= 0 {
        Ok(acc)
    } else {
        match p_tlv(c) {
            Err(e) => Err(e),
            Ok((t, d)) => match acc.with(t) {
                Err(e) => Err(e),
                Ok(a) => if c.pos < d.pos && d.buf == c.buf {
                    p_aare(d, a)
                } else {
                    Ok(a)
                },
            },
        }
    }
}

/// The server's answer.
#[derive(Debug, Clone, Copy, PartialEq, Eq)]
pub struct Aare<'a> {
    /// Which naming and protection the server agrees to.
    pub application_context: Option<ApplicationContext>,
    /// Accepted or refused.
    pub result: AssociationResult,
    /// Why.
    pub diagnostic: Diagnostic,
    /// The server's system title. Required for a ciphered association, because it is
    /// half of every nonce the server will use.
    pub responding_ap_title: Option<&'a [u8]>,
    /// The ACSE requirements bit string.
    pub responder_acse_requirements: bool,
    /// Which authentication mechanism the server will use.
    pub mechanism_name: Option<AuthMechanism>,
    /// The server's challenge for high level security.
    pub responding_authentication_value: Option<&'a [u8]>,
    /// The xDLMS InitiateResponse, or a ConfirmedServiceError when the association was
    /// refused for an xDLMS reason.
    pub user_information: Option<&'a [u8]>,
}

impl<'a> View for Aare<'a> {
    type V = AareV;

    open spec fn view(&self) -> AareV {
        AareV {
            application_context: self.application_context,
            result: self.result,
            diagnostic: self.diagnostic,
            responding_ap_title: octets(self.responding_ap_title),
            responder_acse_requirements: self.responder_acse_requirements,
            mechanism_name: self.mechanism_name,
            responding_authentication_value: octets(self.responding_authentication_value),
            user_information: octets(self.user_information),
        }
    }
}

impl<'a> Default for Aare<'a> {
    fn default() -> (r: Self)
        ensures
            r@ == AareV::blank(),
    {
        Aare {
            application_context: None,
            result: AssociationResult::Accepted,
            diagnostic: Diagnostic::User(UserDiagnostic::Null),
            responding_ap_title: None,
            responder_acse_requirements: false,
            mechanism_name: None,
            responding_authentication_value: None,
            user_information: None,
        }
    }
}

/// The one TLV inside the diagnostic field.
struct DiagnosticField(Diagnostic);

impl Encode for DiagnosticField {
    closed spec fn enc(&self) -> Seq<u8> {
        enc_diagnostic(self.0)
    }

    closed spec fn encodable(&self) -> bool {
        true
    }

    fn encode<W: Writer>(&self, w: &mut W) -> (r: Result<()>) {
        match self.0 {
            Diagnostic::User(d) => {
                let value: [u8; 1] = [d.as_u8()];
                assert(value@ =~= seq![d.as_u8()]);
                write_constructed(w, 0xA1, &Octets { tag: 0x02, value: value.as_slice() })
            },
            Diagnostic::Provider(d) => {
                let value: [u8; 1] = [d];
                assert(value@ =~= seq![d]);
                write_constructed(w, 0xA2, &Octets { tag: 0x02, value: value.as_slice() })
            },
        }
    }
}

/// The fields of an answer, as the contents of its outer TLV.
struct AareFields<'b, 'a>(&'b Aare<'a>);

impl<'b, 'a> Encode for AareFields<'b, 'a> {
    closed spec fn enc(&self) -> Seq<u8> {
        self.0@.fields()
    }

    closed spec fn encodable(&self) -> bool {
        self.0@.fits()
    }

    #[verifier::rlimit(60)]
    fn encode<W: Writer>(&self, w: &mut W) -> (r: Result<()>) {
        let ghost w0 = w.sink().bytes;
        self.0.write_verdict(w)?;
        self.0.write_credentials(w)?;
        assert(w.sink().bytes =~= w0 + self.0@.fields());
        Ok(())
    }
}

impl<'a> Encode for Aare<'a> {
    open spec fn enc(&self) -> Seq<u8> {
        enc_tlv(0x61, self@.fields())
    }

    open spec fn encodable(&self) -> bool {
        self@.fits() && length_fits(self@.fields().len())
    }

    fn encode<W: Writer>(&self, w: &mut W) -> (r: Result<()>) {
        write_constructed(w, 0x61, &AareFields(self))
    }
}

impl<'a> Aare<'a> {
    /// True when the server accepted.
    #[must_use]
    pub fn is_accepted(&self) -> (r: bool)
        ensures
            r == (self@.result is Accepted),
    {
        matches!(self.result, AssociationResult::Accepted)
    }

    #[verifier::rlimit(60)]
    fn write_verdict<W: Writer>(&self, w: &mut W) -> (r: Result<()>)
        ensures
            appended(
                old(w).sink(),
                final(w).sink(),
                self@.verdict(),
                wrapped_fits(0x04, self@.responding_ap_title),
                r,
            ),
    {
        let ghost w0 = w.sink().bytes;
        write_context(w, self.application_context)?;
        let value: [u8; 1] = [self.result.as_u8()];
        assert(value@ =~= seq![self.result.as_u8()]);
        write_constructed(w, 0xA2, &Octets { tag: 0x02, value: value.as_slice() })?;
        assert(enc_diagnostic(self.diagnostic).len() < 100);
        write_constructed(w, 0xA3, &DiagnosticField(self.diagnostic))?;
        write_wrapped(w, 0xA4, 0x04, self.responding_ap_title)?;
        assert(w.sink().bytes =~= w0 + self@.verdict());
        Ok(())
    }

    #[verifier::rlimit(60)]
    fn write_credentials<W: Writer>(&self, w: &mut W) -> (r: Result<()>)
        ensures
            appended(
                old(w).sink(),
                final(w).sink(),
                self@.credentials(),
                wrapped_fits(0x80, self@.responding_authentication_value) && wrapped_fits(
                    0x04,
                    self@.user_information,
                ),
                r,
            ),
    {
        let ghost w0 = w.sink().bytes;
        write_requirements(w, 0x88, self.responder_acse_requirements)?;
        write_mechanism(w, 0x89, self.mechanism_name)?;
        write_wrapped(w, 0xAA, 0x80, self.responding_authentication_value)?;
        write_wrapped(w, 0xBE, 0x04, self.user_information)?;
        assert(w.sink().bytes =~= w0 + self@.credentials());
        Ok(())
    }

    /// Read one field.
    fn field(&mut self, tlv: &Tlv<'a>) -> (r: Result<()>)
        ensures
            match r {
                Ok(()) => old(self)@.with(tlv@) == Ok::<AareV, Error>(final(self)@),
                Err(e) => old(self)@.with(tlv@) == Err::<AareV, Error>(e),
            },
    {
        match tlv.context_number() {
            Some(1) => self.application_context = Some(ApplicationContext::from_arc(oid_arc(tlv)?)),
            Some(2) => {
                let mut contents = tlv.reader();
                let inner = read_tlv(&mut contents)?;
                self.result = AssociationResult::from_u8(inner.as_u8()?);
            },
            Some(3) => {
                let mut contents = tlv.reader();
                let inner = read_tlv(&mut contents)?;
                let mut deeper = inner.reader();
                let value = read_tlv(&mut deeper)?.as_u8()?;
                self.diagnostic = match inner.context_number() {
                    Some(1) => Diagnostic::User(UserDiagnostic::from_u8(value)),
                    _ => Diagnostic::Provider(value),
                };
            },
            Some(4) => self.responding_ap_title = Some(inner_octets(tlv, 0x04)?),
            Some(8) => self.responder_acse_requirements = authentication_bit(tlv.value),
            Some(9) => self.mechanism_name = Some(AuthMechanism::from_arc(implicit_oid_arc(tlv)?)),
            Some(10) => self.responding_authentication_value = Some(inner_octets(tlv, 0x80)?),
            Some(30) => self.user_information = Some(inner_octets(tlv, 0x04)?),
            _ => {},
        }
        Ok(())
    }
}

impl<'a> Decode<'a> for Aare<'a> {
    open spec fn parse(c: Cursor) -> Result<(AareV, Cursor)> {
        match p_tlv(c) {
            Err(e) => Err(e),
            Ok((t, d)) => if t.tag != 0x61 {
                Err(Error { kind: ErrorKind::InvalidTag(t.tag), offset: t.offset })
            } else {
                match p_aare(t.start(), AareV::blank()) {
                    Err(e) => Err(e),
                    Ok(v) => Ok((v, d)),
                }
            },
        }
    }

    #[verifier::loop_isolation(false)]
    fn decode(r: &mut Reader<'a>) -> (res: Result<Self>) {
        let outer = read_tlv(r)?;
        if outer.tag != 0x61 {
            return Err(Error::new(ErrorKind::InvalidTag(outer.tag), outer.offset));
        }
        let mut out = Aare::default();
        let mut it = iter_tlv(outer.value, outer.offset);
        loop
            invariant
                p_aare(outer@.start(), AareV::blank()) == p_aare(it.cursor(), out@),
                it.cursor().wf(),
            decreases it.cursor().left(),
        {
            proof {
                reveal(p_aare);
                lemma_tlv_adv(it.cursor());
            }
            match it.next() {
                Some(tlv) => out.field(&tlv?)?,
                None => return Ok(out),
            }
        }
    }
}

/// What a release request or its confirmation holds.
#[verifier::ext_equal]
pub struct ReleaseV {
    /// Why.
    pub reason: Option<ReleaseReason>,
    /// A ciphered initiate PDU.
    pub user_information: Option<Seq<u8>>,
}

impl ReleaseV {
    /// The release with no field in it.
    pub open spec fn blank() -> ReleaseV {
        ReleaseV { reason: None, user_information: None }
    }

    /// The release with one more field read into it. A field this crate does not know
    /// changes nothing.
    pub open spec fn with(self, t: TlvV) -> Result<ReleaseV> {
        match t.number() {
            Some(0) => match t.byte() {
                Ok(v) => Ok(ReleaseV { reason: Some(ReleaseReason::from_u8(v)), ..self }),
                Err(e) => Err(e),
            },
            Some(30) => match inner_of(t, 0x04) {
                Ok(s) => Ok(ReleaseV { user_information: Some(s), ..self }),
                Err(e) => Err(e),
            },
            _ => Ok(self),
        }
    }

    /// The fields, in the order in which they are written.
    pub open spec fn fields(self) -> Seq<u8> {
        enc_reason(self.reason) + wrapped(0xBE, 0x04, self.user_information)
    }

    /// Whether every field has an encoding.
    pub open spec fn fits(self) -> bool {
        wrapped_fits(0x04, self.user_information)
    }

    /// Whether the reason is named by the variant that stands for it.
    pub open spec fn canonical(self) -> bool {
        self.reason matches Some(v) ==> ReleaseReason::from_u8(v.as_u8()) == v
    }
}

/// The reason field.
pub open spec fn enc_reason(o: Option<ReleaseReason>) -> Seq<u8> {
    match o {
        Some(v) => enc_tlv(0x80, seq![v.as_u8()]),
        None => Seq::empty(),
    }
}

/// All the fields from a cursor on, read into a release.
#[verifier::opaque]
pub open spec fn p_release(c: Cursor, acc: ReleaseV) -> Result<ReleaseV>
    decreases c.left(),
{
    if c.left() <= 0 {
        Ok(acc)
    } else {
        match p_tlv(c) {
            Err(e) => Err(e),
            Ok((t, d)) => match acc.with(t) {
                Err(e) => Err(e),
                Ok(a) => if c.pos < d.pos && d.buf == c.buf {
                    p_release(d, a)
                } else {
                    Ok(a)
                },
            },
        }
    }
}

/// What a release of the given tag at a cursor decodes to.
pub open spec fn p_release_apdu(c: Cursor, tag: u8) -> Result<(ReleaseV, Cursor)> {
    match p_tlv(c) {
        Err(e) => Err(e),
        Ok((t, d)) => if t.tag != tag {
            Err(Error { kind: ErrorKind::InvalidTag(t.tag), offset: t.offset })
        } else {
            match p_release(t.start(), ReleaseV::blank()) {
                Err(e) => Err(e),
                Ok(v) => Ok((v, d)),
            }
        },
    }
}

/// The fields that both release APDUs have.
struct Release<'a> {
    reason: Option<ReleaseReason>,
    user_information: Option<&'a [u8]>,
}

impl<'a> View for Release<'a> {
    type V = ReleaseV;

    closed spec fn view(&self) -> ReleaseV {
        ReleaseV { reason: self.reason, user_information: octets(self.user_information) }
    }
}

impl<'a> Encode for Release<'a> {
    closed spec fn enc(&self) -> Seq<u8> {
        self@.fields()
    }

    closed spec fn encodable(&self) -> bool {
        self@.fits()
    }

    fn encode<W: Writer>(&self, w: &mut W) -> (r: Result<()>) {
        let ghost w0 = w.sink().bytes;
        if let Some(reason) = self.reason {
            let value: [u8; 1] = [reason.as_u8()];
            assert(value@ =~= seq![reason.as_u8()]);
            write_tlv(w, 0x80, value.as_slice())?;
        }
        assert(w.sink().bytes =~= w0 + enc_reason(self.reason));
        write_wrapped(w, 0xBE, 0x04, self.user_information)?;
        assert(w.sink().bytes =~= w0 + self@.fields());
        Ok(())
    }
}

impl<'a> Release<'a> {
    /// Read one field.
    fn field(&mut self, tlv: &Tlv<'a>) -> (r: Result<()>)
        ensures
            match r {
                Ok(()) => old(self)@.with(tlv@) == Ok::<ReleaseV, Error>(final(self)@),
                Err(e) => old(self)@.with(tlv@) == Err::<ReleaseV, Error>(e),
            },
    {
        match tlv.context_number() {
            Some(0) => self.reason = Some(ReleaseReason::from_u8(tlv.as_u8()?)),
            Some(30) => self.user_information = Some(inner_octets(tlv, 0x04)?),
            _ => {},
        }
        Ok(())
    }

    #[verifier::loop_isolation(false)]
    fn decode(r: &mut Reader<'a>, tag: u8) -> (res: Result<Self>)
        ensures
            final(r)@.same_input(old(r)@),
            match res {
                Ok(v) => p_release_apdu(old(r)@, tag) == Ok::<(ReleaseV, Cursor), Error>(
                    (v@, final(r)@),
                ),
                Err(e) => p_release_apdu(old(r)@, tag) == Err::<(ReleaseV, Cursor), Error>(e),
            },
    {
        let outer = read_tlv(r)?;
        if outer.tag != tag {
            return Err(Error::new(ErrorKind::InvalidTag(outer.tag), outer.offset));
        }
        let mut out = Release { reason: None, user_information: None };
        let mut it = iter_tlv(outer.value, outer.offset);
        loop
            invariant
                p_release(outer@.start(), ReleaseV::blank()) == p_release(it.cursor(), out@),
                it.cursor().wf(),
            decreases it.cursor().left(),
        {
            proof {
                reveal(p_release);
                lemma_tlv_adv(it.cursor());
            }
            match it.next() {
                Some(tlv) => out.field(&tlv?)?,
                None => return Ok(out),
            }
        }
    }
}

/// The client asks to release the association.
#[derive(Debug, Clone, Copy, PartialEq, Eq)]
pub struct Rlrq<'a> {
    /// Why, when given.
    pub reason: Option<ReleaseReason>,
    /// A ciphered InitiateRequest, when the profile requires the release to be
    /// protected too.
    pub user_information: Option<&'a [u8]>,
}

impl<'a> View for Rlrq<'a> {
    type V = ReleaseV;

    open spec fn view(&self) -> ReleaseV {
        ReleaseV { reason: self.reason, user_information: octets(self.user_information) }
    }
}

impl<'a> Default for Rlrq<'a> {
    fn default() -> (r: Self)
        ensures
            r@ == ReleaseV::blank(),
    {
        Rlrq { reason: None, user_information: None }
    }
}

impl<'a> Encode for Rlrq<'a> {
    open spec fn enc(&self) -> Seq<u8> {
        enc_tlv(0x62, self@.fields())
    }

    open spec fn encodable(&self) -> bool {
        self@.fits() && length_fits(self@.fields().len())
    }

    fn encode<W: Writer>(&self, w: &mut W) -> (r: Result<()>) {
        let fields = Release { reason: self.reason, user_information: self.user_information };
        write_constructed(w, 0x62, &fields)
    }
}

impl<'a> Decode<'a> for Rlrq<'a> {
    open spec fn parse(c: Cursor) -> Result<(ReleaseV, Cursor)> {
        p_release_apdu(c, 0x62)
    }

    fn decode(r: &mut Reader<'a>) -> (res: Result<Self>) {
        let fields = Release::decode(r, 0x62)?;
        Ok(Rlrq { reason: fields.reason, user_information: fields.user_information })
    }
}

/// The server confirms the release.
#[derive(Debug, Clone, Copy, PartialEq, Eq)]
pub struct Rlre<'a> {
    /// Why, when given.
    pub reason: Option<ReleaseReason>,
    /// A ciphered InitiateResponse, when the profile requires it.
    pub user_information: Option<&'a [u8]>,
}

impl<'a> View for Rlre<'a> {
    type V = ReleaseV;

    open spec fn view(&self) -> ReleaseV {
        ReleaseV { reason: self.reason, user_information: octets(self.user_information) }
    }
}

impl<'a> Default for Rlre<'a> {
    fn default() -> (r: Self)
        ensures
            r@ == ReleaseV::blank(),
    {
        Rlre { reason: None, user_information: None }
    }
}

impl<'a> Encode for Rlre<'a> {
    open spec fn enc(&self) -> Seq<u8> {
        enc_tlv(0x63, self@.fields())
    }

    open spec fn encodable(&self) -> bool {
        self@.fits() && length_fits(self@.fields().len())
    }

    fn encode<W: Writer>(&self, w: &mut W) -> (r: Result<()>) {
        let fields = Release { reason: self.reason, user_information: self.user_information };
        write_constructed(w, 0x63, &fields)
    }
}

impl<'a> Decode<'a> for Rlre<'a> {
    open spec fn parse(c: Cursor) -> Result<(ReleaseV, Cursor)> {
        p_release_apdu(c, 0x63)
    }

    fn decode(r: &mut Reader<'a>) -> (res: Result<Self>) {
        let fields = Release::decode(r, 0x63)?;
        Ok(Rlre { reason: fields.reason, user_information: fields.user_information })
    }
}

/// Four parts and what follows them, taken one at a time from the left.
proof fn lemma_regroup(a: Seq<u8>, b: Seq<u8>, c: Seq<u8>, d: Seq<u8>, tail: Seq<u8>)
    ensures
        a + b + c + d + tail == a + (b + (c + (d + tail))),
{
    assert(a + b + c + d + tail =~= a + (b + (c + (d + tail))));
}

/// What the identifier octets of the association APDUs are made of.
proof fn lemma_tags()
    ensures
        0xA1u8 & 0xC0 == 0x80 && 0xA1u8 & 0x1F == 1 && 0xA1u8 & 0x20 != 0,
        0xA2u8 & 0xC0 == 0x80 && 0xA2u8 & 0x1F == 2 && 0xA2u8 & 0x20 != 0,
        0xA3u8 & 0xC0 == 0x80 && 0xA3u8 & 0x1F == 3 && 0xA3u8 & 0x20 != 0,
        0xA4u8 & 0xC0 == 0x80 && 0xA4u8 & 0x1F == 4 && 0xA4u8 & 0x20 != 0,
        0xA6u8 & 0xC0 == 0x80 && 0xA6u8 & 0x1F == 6 && 0xA6u8 & 0x20 != 0,
        0xA7u8 & 0xC0 == 0x80 && 0xA7u8 & 0x1F == 7 && 0xA7u8 & 0x20 != 0,
        0xAAu8 & 0xC0 == 0x80 && 0xAAu8 & 0x1F == 10 && 0xAAu8 & 0x20 != 0,
        0xACu8 & 0xC0 == 0x80 && 0xACu8 & 0x1F == 12 && 0xACu8 & 0x20 != 0,
        0xBEu8 & 0xC0 == 0x80 && 0xBEu8 & 0x1F == 30 && 0xBEu8 & 0x20 != 0,
        0x88u8 & 0xC0 == 0x80 && 0x88u8 & 0x1F == 8 && 0x88u8 & 0x20 == 0,
        0x89u8 & 0xC0 == 0x80 && 0x89u8 & 0x1F == 9 && 0x89u8 & 0x20 == 0,
        0x8Au8 & 0xC0 == 0x80 && 0x8Au8 & 0x1F == 10 && 0x8Au8 & 0x20 == 0,
        0x8Bu8 & 0xC0 == 0x80 && 0x8Bu8 & 0x1F == 11 && 0x8Bu8 & 0x20 == 0,
        0x80u8 & 0xC0 == 0x80 && 0x80u8 & 0x1F == 0 && 0x80u8 & 0x20 == 0,
        0x60u8 & 0x1F != 0x1F,
        0x61u8 & 0x1F != 0x1F,
        0x62u8 & 0x1F != 0x1F,
        0x63u8 & 0x1F != 0x1F,
        0x06u8 & 0x1F != 0x1F,
        0x04u8 & 0x1F != 0x1F,
        0x02u8 & 0x1F != 0x1F,
        0x80u8 & 0x80 != 0,
{
    assert(
            (0xA1u8 & 0xC0 == 0x80 && 0xA1u8 & 0x1F == 1 && 0xA1u8 & 0x20 != 0)
            && (0xA2u8 & 0xC0 == 0x80 && 0xA2u8 & 0x1F == 2 && 0xA2u8 & 0x20 != 0)
            && (0xA3u8 & 0xC0 == 0x80 && 0xA3u8 & 0x1F == 3 && 0xA3u8 & 0x20 != 0)
            && (0xA4u8 & 0xC0 == 0x80 && 0xA4u8 & 0x1F == 4 && 0xA4u8 & 0x20 != 0)
            && (0xA6u8 & 0xC0 == 0x80 && 0xA6u8 & 0x1F == 6 && 0xA6u8 & 0x20 != 0)
            && (0xA7u8 & 0xC0 == 0x80 && 0xA7u8 & 0x1F == 7 && 0xA7u8 & 0x20 != 0)
            && (0xAAu8 & 0xC0 == 0x80 && 0xAAu8 & 0x1F == 10 && 0xAAu8 & 0x20 != 0)
            && (0xACu8 & 0xC0 == 0x80 && 0xACu8 & 0x1F == 12 && 0xACu8 & 0x20 != 0)
            && (0xBEu8 & 0xC0 == 0x80 && 0xBEu8 & 0x1F == 30 && 0xBEu8 & 0x20 != 0)
            && (0x88u8 & 0xC0 == 0x80 && 0x88u8 & 0x1F == 8 && 0x88u8 & 0x20 == 0)
            && (0x89u8 & 0xC0 == 0x80 && 0x89u8 & 0x1F == 9 && 0x89u8 & 0x20 == 0)
            && (0x8Au8 & 0xC0 == 0x80 && 0x8Au8 & 0x1F == 10 && 0x8Au8 & 0x20 == 0)
            && (0x8Bu8 & 0xC0 == 0x80 && 0x8Bu8 & 0x1F == 11 && 0x8Bu8 & 0x20 == 0)
            && (0x80u8 & 0xC0 == 0x80 && 0x80u8 & 0x1F == 0 && 0x80u8 & 0x20 == 0)
            && (0x60u8 & 0x1F != 0x1F)
            && (0x61u8 & 0x1F != 0x1F)
            && (0x62u8 & 0x1F != 0x1F)
            && (0x63u8 & 0x1F != 0x1F)
            && (0x06u8 & 0x1F != 0x1F)
            && (0x04u8 & 0x1F != 0x1F)
            && (0x02u8 & 0x1F != 0x1F)
            && (0x80u8 & 0x80 != 0)
    ) by (bit_vector);
}

/// A field that holds one TLV gives back the octets of that TLV.
proof fn lemma_inner(outer: u8, inner: u8, s: Seq<u8>, offset: usize)
    requires
        outer & 0x20 != 0,
        inner & 0x1F != 0x1F,
        length_fits(s.len()),
    ensures
        inner_of(TlvV { tag: outer, value: enc_tlv(inner, s), offset }, inner) == Ok::<Seq<u8>, Error>(
            s,
        ),
{
    let t = TlvV { tag: outer, value: enc_tlv(inner, s), offset };
    assert(t.start().peek(t.value.len()) =~= enc_tlv(inner, s));
    law_tlv_round_trip(t.start(), inner, s);
}

/// An object identifier gives back its final arc.
proof fn lemma_arc(branch: u8, arc: u8, tag: u8, offset: usize)
    ensures
        arc_of(oid_bytes(branch, arc), offset) == Ok::<u8, Error>(arc),
        explicit_arc(
            TlvV { tag, value: enc_tlv(0x06, oid_bytes(branch, arc)), offset },
        ) == Ok::<u8, Error>(arc),
{
    lemma_tags();
    assert(oid_bytes(branch, arc).subrange(0, 5) =~= seq![0x60u8, 0x85, 0x74, 0x05, 0x08]);
    let t = TlvV { tag, value: enc_tlv(0x06, oid_bytes(branch, arc)), offset };
    assert(t.start().peek(t.value.len()) =~= t.value);
    law_tlv_round_trip(t.start(), 0x06, oid_bytes(branch, arc));
}

/// One byte inside two TLVs gives back the byte.
proof fn lemma_byte(c: Cursor, tag: u8, v: u8)
    requires
        c.wf(),
        tag & 0x1F != 0x1F,
        c.rest() == enc_tlv(tag, seq![v]),
    ensures
        p_tlv(c) matches Ok((t, _)) && t.tag == tag && t.value == seq![v] && t.byte() == Ok::<
            u8,
            Error,
        >(v),
{
    assert(c.peek(enc_tlv(tag, seq![v]).len()) =~= c.rest());
    law_tlv_round_trip(c, tag, seq![v]);
}

/// A diagnostic reads back from its field.
proof fn lemma_diagnostic(d: Diagnostic, tag: u8, offset: usize)
    requires
        d matches Diagnostic::User(u) ==> UserDiagnostic::from_u8(u.as_u8()) == u,
    ensures
        diagnostic_of(TlvV { tag, value: enc_diagnostic(d), offset }) == Ok::<Diagnostic, Error>(d),
{
    lemma_tags();
    let t = TlvV { tag, value: enc_diagnostic(d), offset };
    let (itag, v) = match d {
        Diagnostic::User(u) => (0xA1u8, u.as_u8()),
        Diagnostic::Provider(p) => (0xA2u8, p),
    };
    let inside = enc_tlv(0x02, seq![v]);
    assert(t.start().peek(t.value.len()) =~= enc_tlv(itag, inside));
    law_tlv_round_trip(t.start(), itag, inside);
    let i = (p_tlv(t.start())->Ok_0).0;
    assert(i.start().rest() =~= inside);
    lemma_byte(i.start(), 0x02, v);
}

/// Reading goes on past the field that a cursor stands at.
proof fn lemma_aarq_step(c: Cursor, acc: AarqV, tag: u8, value: Seq<u8>, tail: Seq<u8>) -> (r: (
    Cursor,
    TlvV,
))
    requires
        c.wf(),
        tag & 0x1F != 0x1F,
        length_fits(value.len()),
        c.rest() == enc_tlv(tag, value) + tail,
    ensures
        r.0.wf() && r.0.rest() == tail,
        r.1.tag == tag && r.1.value == value,
        acc.with(r.1) matches Ok(a) ==> p_aarq(c, acc) == p_aarq(r.0, a),
{
    reveal(p_aarq);
    let n = enc_tlv(tag, value).len();
    assert(c.left() == c.rest().len());
    assert(c.rest().len() == n + tail.len());
    assert(c.peek(n) =~= c.rest().subrange(0, n as int));
    assert(c.peek(n) =~= enc_tlv(tag, value));
    law_tlv_round_trip(c, tag, value);
    let d = c.adv(n);
    assert(d.rest() =~= c.rest().subrange(n as int, c.rest().len() as int));
    assert(d.rest() =~= tail);
    (d, (p_tlv(c)->Ok_0).0)
}

/// Reading goes on past a field that holds one TLV, if it is there.
proof fn lemma_aarq_wrapped(
    c: Cursor,
    acc: AarqV,
    outer: u8,
    inner: u8,
    o: Option<Seq<u8>>,
    tail: Seq<u8>,
) -> (r: (Cursor, TlvV))
    requires
        c.wf(),
        outer & 0x1F != 0x1F && outer & 0x20 != 0,
        inner & 0x1F != 0x1F,
        wrapped_fits(inner, o),
        c.rest() == wrapped(outer, inner, o) + tail,
    ensures
        r.0.wf() && r.0.rest() == tail,
        o is None ==> p_aarq(c, acc) == p_aarq(r.0, acc),
        o matches Some(s) ==> r.1.tag == outer && inner_of(r.1, inner) == Ok::<Seq<u8>, Error>(s)
            && (acc.with(r.1) matches Ok(a) ==> p_aarq(c, acc) == p_aarq(r.0, a)),
{
    match o {
        Some(s) => {
            let (d, t) = lemma_aarq_step(c, acc, outer, enc_tlv(inner, s), tail);
            lemma_inner(outer, inner, s, t.offset);
            (d, t)
        },
        None => {
            assert(c.rest() =~= tail);
            (c, arbitrary())
        },
    }
}

/// Reading goes on past the field that a cursor stands at.
proof fn lemma_aare_step(c: Cursor, acc: AareV, tag: u8, value: Seq<u8>, tail: Seq<u8>) -> (r: (
    Cursor,
    TlvV,
))
    requires
        c.wf(),
        tag & 0x1F != 0x1F,
        length_fits(value.len()),
        c.rest() == enc_tlv(tag, value) + tail,
    ensures
        r.0.wf() && r.0.rest() == tail,
        r.1.tag == tag && r.1.value == value,
        acc.with(r.1) matches Ok(a) ==> p_aare(c, acc) == p_aare(r.0, a),
{
    reveal(p_aare);
    let n = enc_tlv(tag, value).len();
    assert(c.left() == c.rest().len());
    assert(c.rest().len() == n + tail.len());
    assert(c.peek(n) =~= c.rest().subrange(0, n as int));
    assert(c.peek(n) =~= enc_tlv(tag, value));
    law_tlv_round_trip(c, tag, value);
    let d = c.adv(n);
    assert(d.rest() =~= c.rest().subrange(n as int, c.rest().len() as int));
    assert(d.rest() =~= tail);
    (d, (p_tlv(c)->Ok_0).0)
}

/// Reading goes on past a field that holds one TLV, if it is there.
proof fn lemma_aare_wrapped(
    c: Cursor,
    acc: AareV,
    outer: u8,
    inner: u8,
    o: Option<Seq<u8>>,
    tail: Seq<u8>,
) -> (r: (Cursor, TlvV))
    requires
        c.wf(),
        outer & 0x1F != 0x1F && outer & 0x20 != 0,
        inner & 0x1F != 0x1F,
        wrapped_fits(inner, o),
        c.rest() == wrapped(outer, inner, o) + tail,
    ensures
        r.0.wf() && r.0.rest() == tail,
        o is None ==> p_aare(c, acc) == p_aare(r.0, acc),
        o matches Some(s) ==> r.1.tag == outer && inner_of(r.1, inner) == Ok::<Seq<u8>, Error>(s)
            && (acc.with(r.1) matches Ok(a) ==> p_aare(c, acc) == p_aare(r.0, a)),
{
    match o {
        Some(s) => {
            let (d, t) = lemma_aare_step(c, acc, outer, enc_tlv(inner, s), tail);
            lemma_inner(outer, inner, s, t.offset);
            (d, t)
        },
        None => {
            assert(c.rest() =~= tail);
            (c, arbitrary())
        },
    }
}

/// Reading goes on past the field that a cursor stands at.
proof fn lemma_release_step(c: Cursor, acc: ReleaseV, tag: u8, value: Seq<u8>, tail: Seq<u8>) -> (r: (
    Cursor,
    TlvV,
))
    requires
        c.wf(),
        tag & 0x1F != 0x1F,
        length_fits(value.len()),
        c.rest() == enc_tlv(tag, value) + tail,
    ensures
        r.0.wf() && r.0.rest() == tail,
        r.1.tag == tag && r.1.value == value,
        acc.with(r.1) matches Ok(a) ==> p_release(c, acc) == p_release(r.0, a),
{
    reveal(p_release);
    let n = enc_tlv(tag, value).len();
    assert(c.left() == c.rest().len());
    assert(c.rest().len() == n + tail.len());
    assert(c.peek(n) =~= c.rest().subrange(0, n as int));
    assert(c.peek(n) =~= enc_tlv(tag, value));
    law_tlv_round_trip(c, tag, value);
    let d = c.adv(n);
    assert(d.rest() =~= c.rest().subrange(n as int, c.rest().len() as int));
    assert(d.rest() =~= tail);
    (d, (p_tlv(c)->Ok_0).0)
}

/// Reading goes on past a field that holds one TLV, if it is there.
proof fn lemma_release_wrapped(
    c: Cursor,
    acc: ReleaseV,
    outer: u8,
    inner: u8,
    o: Option<Seq<u8>>,
    tail: Seq<u8>,
) -> (r: (Cursor, TlvV))
    requires
        c.wf(),
        outer & 0x1F != 0x1F && outer & 0x20 != 0,
        inner & 0x1F != 0x1F,
        wrapped_fits(inner, o),
        c.rest() == wrapped(outer, inner, o) + tail,
    ensures
        r.0.wf() && r.0.rest() == tail,
        o is None ==> p_release(c, acc) == p_release(r.0, acc),
        o matches Some(s) ==> r.1.tag == outer && inner_of(r.1, inner) == Ok::<Seq<u8>, Error>(s)
            && (acc.with(r.1) matches Ok(a) ==> p_release(c, acc) == p_release(r.0, a)),
{
    match o {
        Some(s) => {
            let (d, t) = lemma_release_step(c, acc, outer, enc_tlv(inner, s), tail);
            lemma_inner(outer, inner, s, t.offset);
            (d, t)
        },
        None => {
            assert(c.rest() =~= tail);
            (c, arbitrary())
        },
    }
}

/// Reading goes on past the application context, if it is there.
proof fn lemma_aarq_context(c: Cursor, acc: AarqV, o: Option<ApplicationContext>, tail: Seq<u8>) -> (d:
    Cursor)
    requires
        c.wf(),
        c.rest() == enc_context(o) + tail,
        acc.application_context is None,
        o matches Some(x) ==> ApplicationContext::from_arc(x.arc()) == x,
    ensures
        d.wf() && d.rest() == tail,
        p_aarq(c, acc) == p_aarq(d, (AarqV { application_context: o, ..acc })),
{
    lemma_tags();
    match o {
        Some(x) => {
            let (d, t) = lemma_aarq_step(
                c,
                acc,
                0xA1,
                enc_tlv(0x06, oid_bytes(1, x.arc())),
                tail,
            );
            lemma_arc(1, x.arc(), 0xA1, t.offset);
            d
        },
        None => {
            assert(c.rest() =~= tail);
            c
        },
    }
}

/// Reading goes on past the requirements and the mechanism, where they are there.
proof fn lemma_aarq_mechanism(
    c: Cursor,
    acc: AarqV,
    on: bool,
    o: Option<AuthMechanism>,
    tail: Seq<u8>,
) -> (d: Cursor)
    requires
        c.wf(),
        c.rest() == enc_requirements(0x8A, on) + (enc_mechanism(0x8B, o) + tail),
        !acc.sender_acse_requirements,
        acc.mechanism_name is None,
        o matches Some(m) ==> AuthMechanism::from_arc(m.arc()) == m,
    ensures
        d.wf() && d.rest() == tail,
        p_aarq(c, acc) == p_aarq(d, (AarqV { sender_acse_requirements: on, mechanism_name: o, ..acc })),
{
    lemma_tags();
    let after = enc_mechanism(0x8B, o) + tail;
    let c1 = if on {
        lemma_aarq_step(c, acc, 0x8A, seq![0x07u8, 0x80], after).0
    } else {
        assert(c.rest() =~= after);
        c
    };
    let acc1 = AarqV { sender_acse_requirements: on, ..acc };
    assert(p_aarq(c, acc) == p_aarq(c1, acc1));
    match o {
        Some(m) => {
            let (d, t) = lemma_aarq_step(c1, acc1, 0x8B, oid_bytes(2, m.arc()), tail);
            lemma_arc(2, m.arc(), 0x8B, t.offset);
            d
        },
        None => {
            assert(c1.rest() =~= tail);
            c1
        },
    }
}

/// Reading goes on past the application context, if it is there.
proof fn lemma_aare_context(c: Cursor, acc: AareV, o: Option<ApplicationContext>, tail: Seq<u8>) -> (d:
    Cursor)
    requires
        c.wf(),
        c.rest() == enc_context(o) + tail,
        acc.application_context is None,
        o matches Some(x) ==> ApplicationContext::from_arc(x.arc()) == x,
    ensures
        d.wf() && d.rest() == tail,
        p_aare(c, acc) == p_aare(d, (AareV { application_context: o, ..acc })),
{
    lemma_tags();
    match o {
        Some(x) => {
            let (d, t) = lemma_aare_step(
                c,
                acc,
                0xA1,
                enc_tlv(0x06, oid_bytes(1, x.arc())),
                tail,
            );
            lemma_arc(1, x.arc(), 0xA1, t.offset);
            d
        },
        None => {
            assert(c.rest() =~= tail);
            c
        },
    }
}

/// Reading goes on past the requirements and the mechanism, where they are there.
proof fn lemma_aare_mechanism(
    c: Cursor,
    acc: AareV,
    on: bool,
    o: Option<AuthMechanism>,
    tail: Seq<u8>,
) -> (d: Cursor)
    requires
        c.wf(),
        c.rest() == enc_requirements(0x88, on) + (enc_mechanism(0x89, o) + tail),
        !acc.responder_acse_requirements,
        acc.mechanism_name is None,
        o matches Some(m) ==> AuthMechanism::from_arc(m.arc()) == m,
    ensures
        d.wf() && d.rest() == tail,
        p_aare(c, acc) == p_aare(d, (AareV { responder_acse_requirements: on, mechanism_name: o, ..acc })),
{
    lemma_tags();
    let after = enc_mechanism(0x89, o) + tail;
    let c1 = if on {
        lemma_aare_step(c, acc, 0x88, seq![0x07u8, 0x80], after).0
    } else {
        assert(c.rest() =~= after);
        c
    };
    let acc1 = AareV { responder_acse_requirements: on, ..acc };
    assert(p_aare(c, acc) == p_aare(c1, acc1));
    match o {
        Some(m) => {
            let (d, t) = lemma_aare_step(c1, acc1, 0x89, oid_bytes(2, m.arc()), tail);
            lemma_arc(2, m.arc(), 0x89, t.offset);
            d
        },
        None => {
            assert(c1.rest() =~= tail);
            c1
        },
    }
}

/// Who is speaking to whom reads back from its encoding.
proof fn lemma_aarq_names(c: Cursor, v: AarqV, tail: Seq<u8>) -> (d: Cursor)
    requires
        c.wf(),
        c.rest() == v.names() + tail,
        v.fits(),
        v.canonical(),
    ensures
        d.wf() && d.rest() == tail,
        p_aarq(c, AarqV::blank()) == p_aarq(
            d,
            (AarqV {
                application_context: v.application_context,
                called_ap_title: v.called_ap_title,
                calling_ap_title: v.calling_ap_title,
                calling_ae_qualifier: v.calling_ae_qualifier,
                ..AarqV::blank()
            }),
        ),
{
    let (p1, p2, p3, p4) = (
        enc_context(v.application_context),
        wrapped(0xA2, 0x04, v.called_ap_title),
        wrapped(0xA6, 0x04, v.calling_ap_title),
        wrapped(0xA7, 0x04, v.calling_ae_qualifier),
    );
    assert(c.rest() == p1 + (p2 + (p3 + (p4 + tail)))) by {
        lemma_regroup(p1, p2, p3, p4, tail);
    }
    lemma_tags();
    let a0 = AarqV::blank();
    let c1 = lemma_aarq_context(c, a0, v.application_context, p2 + (p3 + (p4 + tail)));
    let a1 = AarqV { application_context: v.application_context, ..a0 };
    let c2 = lemma_aarq_wrapped(c1, a1, 0xA2, 0x04, v.called_ap_title, p3 + (p4 + tail)).0;
    let a2 = AarqV { called_ap_title: v.called_ap_title, ..a1 };
    assert(p_aarq(c1, a1) == p_aarq(c2, a2));
    let c3 = lemma_aarq_wrapped(c2, a2, 0xA6, 0x04, v.calling_ap_title, p4 + tail).0;
    let a3 = AarqV { calling_ap_title: v.calling_ap_title, ..a2 };
    assert(p_aarq(c2, a2) == p_aarq(c3, a3));
    let c4 = lemma_aarq_wrapped(c3, a3, 0xA7, 0x04, v.calling_ae_qualifier, tail).0;
    let a4 = AarqV { calling_ae_qualifier: v.calling_ae_qualifier, ..a3 };
    assert(p_aarq(c3, a3) == p_aarq(c4, a4));
    c4
}

/// The fields of a request read back from their encoding.
proof fn lemma_aarq_fields(c: Cursor, v: AarqV)
    requires
        c.wf(),
        c.rest() == v.fields(),
        v.fits(),
        v.canonical(),
    ensures
        p_aarq(c, AarqV::blank()) == Ok::<AarqV, Error>(v),
{
    let c4 = lemma_aarq_names(c, v, v.credentials());
    let a4 = AarqV {
        application_context: v.application_context,
        called_ap_title: v.called_ap_title,
        calling_ap_title: v.calling_ap_title,
        calling_ae_qualifier: v.calling_ae_qualifier,
        ..AarqV::blank()
    };
    let none = Seq::<u8>::empty();
    let (p1, p2, p3, p4) = (
        enc_requirements(0x8A, v.sender_acse_requirements),
        enc_mechanism(0x8B, v.mechanism_name),
        wrapped(0xAC, 0x80, v.calling_authentication_value),
        wrapped(0xBE, 0x04, v.user_information),
    );
    assert(c4.rest() == p1 + (p2 + (p3 + (p4 + none)))) by {
        lemma_regroup(p1, p2, p3, p4, none);
        assert(v.credentials() =~= v.credentials() + none);
    }
    lemma_tags();
    let c6 = lemma_aarq_mechanism(
        c4,
        a4,
        v.sender_acse_requirements,
        v.mechanism_name,
        p3 + (p4 + none),
    );
    let a6 = AarqV {
        sender_acse_requirements: v.sender_acse_requirements,
        mechanism_name: v.mechanism_name,
        ..a4
    };
    let c7 = lemma_aarq_wrapped(
        c6,
        a6,
        0xAC,
        0x80,
        v.calling_authentication_value,
        p4 + none,
    ).0;
    let a7 = AarqV { calling_authentication_value: v.calling_authentication_value, ..a6 };
    assert(p_aarq(c6, a6) == p_aarq(c7, a7));
    let c8 = lemma_aarq_wrapped(c7, a7, 0xBE, 0x04, v.user_information, none).0;
    assert(p_aarq(c7, a7) == p_aarq(c8, v));
    assert(c8.left() == c8.rest().len());
    assert(p_aarq(c8, v) == Ok::<AarqV, Error>(v)) by {
        reveal(p_aarq);
    }
}

/// An association request reads back from its encoding, wherever it stands, so long as a
/// context or mechanism that has a name of its own is not written as an unknown one.
pub proof fn law_aarq_round_trip(c: Cursor, a: Aarq<'_>)
    requires
        c.wf(),
        a.encodable(),
        a@.canonical(),
        a.enc().len() <= c.left(),
        c.peek(a.enc().len()) == a.enc(),
    ensures
        Aarq::parse(c) == Ok::<(AarqV, Cursor), Error>((a@, c.adv(a.enc().len()))),
{
    lemma_tags();
    law_tlv_round_trip(c, 0x60, a@.fields());
    let t = (p_tlv(c)->Ok_0).0;
    assert(t.start().rest() =~= a@.fields());
    lemma_aarq_fields(t.start(), a@);
}

/// How a request was answered reads back from its encoding.
proof fn lemma_aare_verdict(c: Cursor, v: AareV, tail: Seq<u8>) -> (d: Cursor)
    requires
        c.wf(),
        c.rest() == v.verdict() + tail,
        v.fits(),
        v.canonical(),
    ensures
        d.wf() && d.rest() == tail,
        p_aare(c, AareV::blank()) == p_aare(
            d,
            (AareV {
                application_context: v.application_context,
                result: v.result,
                diagnostic: v.diagnostic,
                responding_ap_title: v.responding_ap_title,
                ..AareV::blank()
            }),
        ),
{
    let result = enc_tlv(0x02, seq![v.result.as_u8()]);
    let why = enc_diagnostic(v.diagnostic);
    let (p1, p2, p3, p4) = (
        enc_context(v.application_context),
        enc_tlv(0xA2, result),
        enc_tlv(0xA3, why),
        wrapped(0xA4, 0x04, v.responding_ap_title),
    );
    assert(c.rest() == p1 + (p2 + (p3 + (p4 + tail)))) by {
        lemma_regroup(p1, p2, p3, p4, tail);
    }
    assert(length_fits(result.len()) && length_fits(why.len()));
    lemma_tags();
    let a0 = AareV::blank();
    let c1 = lemma_aare_context(c, a0, v.application_context, p2 + (p3 + (p4 + tail)));
    let a1 = AareV { application_context: v.application_context, ..a0 };
    let (c2, f2) = lemma_aare_step(c1, a1, 0xA2, result, p3 + (p4 + tail));
    assert(result_of(f2) == Ok::<AssociationResult, Error>(v.result)) by {
        assert(f2.start().rest() =~= result);
        lemma_byte(f2.start(), 0x02, v.result.as_u8());
    }
    let a2 = AareV { result: v.result, ..a1 };
    assert(p_aare(c1, a1) == p_aare(c2, a2));
    let (c3, f3) = lemma_aare_step(c2, a2, 0xA3, why, p4 + tail);
    lemma_diagnostic(v.diagnostic, 0xA3, f3.offset);
    let a3 = AareV { diagnostic: v.diagnostic, ..a2 };
    assert(p_aare(c2, a2) == p_aare(c3, a3));
    let c4 = lemma_aare_wrapped(c3, a3, 0xA4, 0x04, v.responding_ap_title, tail).0;
    let a4 = AareV { responding_ap_title: v.responding_ap_title, ..a3 };
    assert(p_aare(c3, a3) == p_aare(c4, a4));
    c4
}

/// The fields of an answer read back from their encoding.
proof fn lemma_aare_fields(c: Cursor, v: AareV)
    requires
        c.wf(),
        c.rest() == v.fields(),
        v.fits(),
        v.canonical(),
    ensures
        p_aare(c, AareV::blank()) == Ok::<AareV, Error>(v),
{
    let c4 = lemma_aare_verdict(c, v, v.credentials());
    let a4 = AareV {
        application_context: v.application_context,
        result: v.result,
        diagnostic: v.diagnostic,
        responding_ap_title: v.responding_ap_title,
        ..AareV::blank()
    };
    let none = Seq::<u8>::empty();
    let (p1, p2, p3, p4) = (
        enc_requirements(0x88, v.responder_acse_requirements),
        enc_mechanism(0x89, v.mechanism_name),
        wrapped(0xAA, 0x80, v.responding_authentication_value),
        wrapped(0xBE, 0x04, v.user_information),
    );
    assert(c4.rest() == p1 + (p2 + (p3 + (p4 + none)))) by {
        lemma_regroup(p1, p2, p3, p4, none);
        assert(v.credentials() =~= v.credentials() + none);
    }
    lemma_tags();
    let c6 = lemma_aare_mechanism(
        c4,
        a4,
        v.responder_acse_requirements,
        v.mechanism_name,
        p3 + (p4 + none),
    );
    let a6 = AareV {
        responder_acse_requirements: v.responder_acse_requirements,
        mechanism_name: v.mechanism_name,
        ..a4
    };
    let c7 = lemma_aare_wrapped(
        c6,
        a6,
        0xAA,
        0x80,
        v.responding_authentication_value,
        p4 + none,
    ).0;
    let a7 = AareV { responding_authentication_value: v.responding_authentication_value, ..a6 };
    assert(p_aare(c6, a6) == p_aare(c7, a7));
    let c8 = lemma_aare_wrapped(c7, a7, 0xBE, 0x04, v.user_information, none).0;
    assert(p_aare(c7, a7) == p_aare(c8, v));
    assert(c8.left() == c8.rest().len());
    assert(p_aare(c8, v) == Ok::<AareV, Error>(v)) by {
        reveal(p_aare);
    }
}

/// An answer to an association request reads back from its encoding, wherever it stands,
/// so long as a value that has a name of its own is not written as an unknown one.
pub proof fn law_aare_round_trip(c: Cursor, a: Aare<'_>)
    requires
        c.wf(),
        a.encodable(),
        a@.canonical(),
        a.enc().len() <= c.left(),
        c.peek(a.enc().len()) == a.enc(),
    ensures
        Aare::parse(c) == Ok::<(AareV, Cursor), Error>((a@, c.adv(a.enc().len()))),
{
    lemma_tags();
    law_tlv_round_trip(c, 0x61, a@.fields());
    let t = (p_tlv(c)->Ok_0).0;
    assert(t.start().rest() =~= a@.fields());
    lemma_aare_fields(t.start(), a@);
}

/// The release APDU of a tag reads back from its encoding, wherever it stands, so long as
/// a reason that has a name of its own is not written as an unknown one.
pub proof fn law_release_round_trip(c: Cursor, tag: u8, v: ReleaseV)
    requires
        c.wf(),
        tag == 0x62 || tag == 0x63,
        v.fits() && length_fits(v.fields().len()),
        v.canonical(),
        enc_tlv(tag, v.fields()).len() <= c.left(),
        c.peek(enc_tlv(tag, v.fields()).len()) == enc_tlv(tag, v.fields()),
    ensures
        p_release_apdu(c, tag) == Ok::<(ReleaseV, Cursor), Error>(
            (v, c.adv(enc_tlv(tag, v.fields()).len())),
        ),
{
    lemma_tags();
    law_tlv_round_trip(c, tag, v.fields());
    let t = (p_tlv(c)->Ok_0).0;
    let c0 = t.start();
    let a0 = ReleaseV::blank();
    let t1 = wrapped(0xBE, 0x04, v.user_information);
    assert(c0.rest() =~= enc_reason(v.reason) + t1);
    let c1 = match v.reason {
        Some(x) => lemma_release_step(c0, a0, 0x80, seq![x.as_u8()], t1).0,
        None => {
            assert(c0.rest() =~= t1);
            c0
        },
    };
    let a1 = ReleaseV { reason: v.reason, ..a0 };
    assert(p_release(c0, a0) == p_release(c1, a1));
    assert(c1.rest() =~= t1 + Seq::<u8>::empty());
    let c2 = lemma_release_wrapped(c1, a1, 0xBE, 0x04, v.user_information, Seq::empty()).0;
    assert(p_release(c1, a1) == p_release(c2, v));
    reveal(p_release);
    assert(c2.left() == c2.rest().len());
}

/// Every arc and every code names exactly one value, and is the one that the value is
/// written as.
pub proof fn law_codes_round_trip(v: u8)
    ensures
        ApplicationContext::from_arc(v).arc() == v,
        AuthMechanism::from_arc(v).arc() == v,
        AssociationResult::from_u8(v).as_u8() == v,
        UserDiagnostic::from_u8(v).as_u8() == v,
        ReleaseReason::from_u8(v).as_u8() == v,
{
}

/// Fields read into a release leave its reason named by the variant that stands for it.
pub proof fn lemma_release_canonical(c: Cursor, acc: ReleaseV)
    requires
        acc.canonical(),
    ensures
        p_release(c, acc) matches Ok(v) ==> v.canonical(),
    decreases c.left(),
{
    reveal(p_release);
    if c.left() > 0 {
        if let Ok((t, d)) = p_tlv(c) {
            if let Ok(a) = acc.with(t) {
                if c.pos < d.pos && d.buf == c.buf {
                    lemma_release_canonical(d, a);
                }
            }
        }
    }
}

/// One field inside another, with its tag and its length, where there is something to say.
pub open spec fn field(outer: u8, inner: u8, o: Option<Seq<u8>>) -> Seq<u8> {
    match o {
        Some(s) => {
            let inside = seq![inner] + enc_length(s.len()) + s;
            seq![outer] + enc_length(inside.len()) + inside
        },
        None => Seq::empty(),
    }
}

/// The bytes of a request to associate, field by field: the context, who is called and who is
/// calling, that authentication is used, by which mechanism and with what, and the proposal.
pub proof fn law_aarq_bytes(q: AarqV)
    ensures
        q.enc() == seq![0x60u8] + enc_length(q.fields().len()) + q.fields(),
        q.fields() == ((match q.application_context {
            Some(c) => seq![0xA1u8, 9u8, 6u8, 7u8, 0x60u8, 0x85u8, 0x74u8, 5u8, 8u8, 1u8, c.arc()],
            None => Seq::empty(),
        }) + field(0xA2, 4, q.called_ap_title) + field(0xA6, 4, q.calling_ap_title) + field(
            0xA7,
            4,
            q.calling_ae_qualifier,
        )) + ((if q.sender_acse_requirements {
            seq![0x8Au8, 2u8, 7u8, 0x80u8]
        } else {
            Seq::empty()
        }) + (match q.mechanism_name {
            Some(m) => seq![0x8Bu8, 7u8, 0x60u8, 0x85u8, 0x74u8, 5u8, 8u8, 2u8, m.arc()],
            None => Seq::empty(),
        }) + field(0xAC, 0x80, q.calling_authentication_value) + field(
            0xBE,
            4,
            q.user_information,
        )),
{
    lemma_field_bytes(q.application_context, q.mechanism_name, 0x8B, 0x8A);
}

/// The bytes of the answer, field by field: the context, what came of it and why, who answers,
/// that authentication is used, by which mechanism and with what, and what was agreed.
pub proof fn law_aare_bytes(a: AareV)
    ensures
        a.enc() == seq![0x61u8] + enc_length(a.fields().len()) + a.fields(),
        a.fields() == ((match a.application_context {
            Some(c) => seq![0xA1u8, 9u8, 6u8, 7u8, 0x60u8, 0x85u8, 0x74u8, 5u8, 8u8, 1u8, c.arc()],
            None => Seq::empty(),
        }) + seq![0xA2u8, 3u8, 2u8, 1u8, a.result.as_u8()] + (match a.diagnostic {
            Diagnostic::User(u) => seq![0xA3u8, 5u8, 0xA1u8, 3u8, 2u8, 1u8, u.as_u8()],
            Diagnostic::Provider(p) => seq![0xA3u8, 5u8, 0xA2u8, 3u8, 2u8, 1u8, p],
        }) + field(0xA4, 4, a.responding_ap_title)) + ((if a.responder_acse_requirements {
            seq![0x88u8, 2u8, 7u8, 0x80u8]
        } else {
            Seq::empty()
        }) + (match a.mechanism_name {
            Some(m) => seq![0x89u8, 7u8, 0x60u8, 0x85u8, 0x74u8, 5u8, 8u8, 2u8, m.arc()],
            None => Seq::empty(),
        }) + field(0xAA, 0x80, a.responding_authentication_value) + field(
            0xBE,
            4,
            a.user_information,
        )),
{
    lemma_field_bytes(a.application_context, a.mechanism_name, 0x89, 0x88);
    assert(enc_tlv(0xA2, enc_tlv(0x02, seq![a.result.as_u8()])) =~= seq![
        0xA2u8,
        3u8,
        2u8,
        1u8,
        a.result.as_u8(),
    ]);
    match a.diagnostic {
        Diagnostic::User(u) => {
            assert(enc_tlv(0xA3, enc_diagnostic(a.diagnostic)) =~= seq![
                0xA3u8,
                5u8,
                0xA1u8,
                3u8,
                2u8,
                1u8,
                u.as_u8(),
            ]);
        },
        Diagnostic::Provider(p) => {
            assert(enc_tlv(0xA3, enc_diagnostic(a.diagnostic)) =~= seq![
                0xA3u8,
                5u8,
                0xA2u8,
                3u8,
                2u8,
                1u8,
                p,
            ]);
        },
    }
}

proof fn lemma_field_bytes(
    context: Option<ApplicationContext>,
    mechanism: Option<AuthMechanism>,
    tag: u8,
    bit: u8,
)
    ensures
        context matches Some(c) ==> enc_context(context) == seq![
            0xA1u8,
            9u8,
            6u8,
            7u8,
            0x60u8,
            0x85u8,
            0x74u8,
            5u8,
            8u8,
            1u8,
            c.arc(),
        ],
        mechanism matches Some(m) ==> enc_mechanism(tag, mechanism) == seq![
            tag,
            7u8,
            0x60u8,
            0x85u8,
            0x74u8,
            5u8,
            8u8,
            2u8,
            m.arc(),
        ],
        enc_requirements(bit, true) == seq![bit, 2u8, 7u8, 0x80u8],
{
    if let Some(c) = context {
        assert(enc_context(context) =~= seq![
            0xA1u8,
            9u8,
            6u8,
            7u8,
            0x60u8,
            0x85u8,
            0x74u8,
            5u8,
            8u8,
            1u8,
            c.arc(),
        ]);
    }
    if let Some(m) = mechanism {
        assert(enc_mechanism(tag, mechanism) =~= seq![
            tag,
            7u8,
            0x60u8,
            0x85u8,
            0x74u8,
            5u8,
            8u8,
            2u8,
            m.arc(),
        ]);
    }
    assert(enc_requirements(bit, true) =~= seq![bit, 2u8, 7u8, 0x80u8]);
}

/// The bytes of a release and of its answer: the reason, if there is one, and whatever goes
/// with it.
pub proof fn law_release_bytes(q: Rlrq<'_>, a: Rlre<'_>)
    ensures
        q@.fields() == (match q.reason {
            Some(v) => seq![0x80u8, 1u8, v.as_u8()],
            None => Seq::empty(),
        }) + field(0xBE, 4, q@.user_information),
        q.enc() == seq![0x62u8] + enc_length(q@.fields().len()) + q@.fields(),
        a@.fields() == (match a.reason {
            Some(v) => seq![0x80u8, 1u8, v.as_u8()],
            None => Seq::empty(),
        }) + field(0xBE, 4, a@.user_information),
        a.enc() == seq![0x63u8] + enc_length(a@.fields().len()) + a@.fields(),
{
    if let Some(v) = q.reason {
        assert(enc_reason(q.reason) =~= seq![0x80u8, 1u8, v.as_u8()]);
    }
    if let Some(v) = a.reason {
        assert(enc_reason(a.reason) =~= seq![0x80u8, 1u8, v.as_u8()]);
    }
}

/// What the codes of association control stand for.
pub proof fn law_association_codes()
    ensures
        ApplicationContext::LogicalName.arc() == 1 && ApplicationContext::ShortName.arc() == 2,
        ApplicationContext::LogicalNameCiphered.arc() == 3
            && ApplicationContext::ShortNameCiphered.arc() == 4,
        AuthMechanism::Lowest.arc() == 0 && AuthMechanism::Low.arc() == 1,
        AuthMechanism::HighManufacturer.arc() == 2 && AuthMechanism::HighMd5.arc() == 3,
        AuthMechanism::HighSha1.arc() == 4 && AuthMechanism::HighGmac.arc() == 5,
        AuthMechanism::HighSha256.arc() == 6 && AuthMechanism::HighEcdsa.arc() == 7,
        AssociationResult::Accepted.as_u8() == 0 && AssociationResult::RejectedPermanent.as_u8()
            == 1 && AssociationResult::RejectedTransient.as_u8() == 2,
        UserDiagnostic::Null.as_u8() == 0 && UserDiagnostic::NoReasonGiven.as_u8() == 1,
        UserDiagnostic::ApplicationContextNameNotSupported.as_u8() == 2,
        UserDiagnostic::AuthenticationMechanismNameNotRecognised.as_u8() == 11,
        UserDiagnostic::AuthenticationMechanismNameRequired.as_u8() == 12,
        UserDiagnostic::AuthenticationFailure.as_u8() == 13,
        UserDiagnostic::AuthenticationRequired.as_u8() == 14,
        ReleaseReason::Normal.as_u8() == 0 && ReleaseReason::Urgent.as_u8() == 1
            && ReleaseReason::UserDefined.as_u8() == 30,
        forall|m: AuthMechanism| #[trigger]
            m.is_high_level() == !(m is Lowest || m is Low),
        forall|a: Aare<'_>, r: bool| #[trigger]
            call_ensures(Aare::is_accepted, (&a,), r) ==> r == (a.result is Accepted),
{
}

} // verus!
