//! Putting protection on an APDU and taking it off again.
//!
//! Both engines do exactly this and they must do it identically, so it is written once.
//! The client and the server differ in whose system title is whose and in what they do
//! afterwards; the wrapping itself does not differ at all.
//!
//! Three forms exist and the choice between them is not a preference:
//!
//! * **`glo-`/`ded-`** — the ordinary form. Available only for the services that have a
//!   ciphered tag: GET, SET, ACTION, the notifications, and the short-name services.
//! * **`general-glo-ciphering`/`general-ded-ciphering`** — wraps *any* APDU and carries
//!   the sender's system title in the clear. This is the only way to protect an
//!   `access-request`, an `access-response` or an `exception-response`, none of which
//!   has a ciphered tag of its own. It costs the `general-protection` conformance bit.
//! * **plain** — for the APDUs that precede the association, and for the ones a peer may
//!   legitimately send unprotected.

use vstd::prelude::*;

use super::counter::ReplayWindow;
use super::keys::SystemTitle;
use super::protect::{Protector, SecurityPolicy};
use super::CryptoProvider;
use crate::bytes::{copy_into, same_bytes};
use crate::codec::{extend, Decode, Error, ErrorKind, Reader, Result, Writer};
use crate::xdlms::ciphering::{CipheredService, GeneralCiphering, GeneralGloCiphering, KeyInfo};
use crate::xdlms::tag::{ApduTag, Protection};
#[allow(unused_imports)]
use super::counter::{law_accepted_at_most_once, law_refused_for_good, still_refuses, WindowV};
#[allow(unused_imports)]
use super::protect::{protected_by, unprotected_by};
#[allow(unused_imports)]
use crate::bytes::{be_bytes, lemma_be_bytes_len};
#[allow(unused_imports)]
use crate::codec::{clip, enc_length, enc_prefixed, length_bytes, length_fits, Cursor};
#[allow(unused_imports)]
use crate::xdlms::ciphering::{
    law_ciphered_service_round_trip, law_general_glo_round_trip, CipheredServiceV,
    GeneralCipheringV, GeneralGloCipheringV, KeyInfoV,
};
#[allow(unused_imports)]
use crate::xdlms::tag::{ciphered_of, law_ciphered_tags, law_tag_round_trip, plain_of, tag_of};

verus! {

/// What goes out, apart from the message itself.
#[verifier::ext_equal]
pub struct OutgoingV {
    /// This end's system title.
    pub system_title: Seq<u8>,
    /// The counter for this message.
    pub invocation_counter: u32,
    /// The authentication key.
    pub auth_key: Option<Seq<u8>>,
    /// The protection to apply.
    pub policy: SecurityPolicy,
    /// Whether the general form may be used.
    pub general_allowed: bool,
}

/// Everything the wrapper needs about the message going out.
pub struct Outgoing<'a> {
    /// This end's system title — the first eight bytes of every nonce it sends under.
    pub system_title: SystemTitle,
    /// The counter for this message. Already taken from the sender's counter.
    pub invocation_counter: u32,
    /// The authentication key, which is authenticated data rather than a cipher key.
    /// `None` when the ring holds none — which is only ever right for an unprotected
    /// association, and is refused the moment protection is actually applied.
    pub auth_key: Option<&'a [u8]>,
    /// The protection to apply. Global for the Initiate exchange even in a dedicated
    /// association, because the dedicated key travels inside it.
    pub policy: SecurityPolicy,
    /// Whether `general-glo-ciphering` may be used for a service that has no ciphered
    /// tag. False when the peer did not agree to `general-protection`, in which case
    /// such a service simply cannot be protected and is refused rather than sent bare.
    pub general_allowed: bool,
}

/// The bytes that may be missing.
pub open spec fn bytes_view(o: Option<&[u8]>) -> Option<Seq<u8>> {
    match o {
        Some(s) => Some(s@),
        None => None,
    }
}

/// The title that may be missing.
pub open spec fn title_view(o: Option<SystemTitle>) -> Option<Seq<u8>> {
    match o {
        Some(t) => Some(t@),
        None => None,
    }
}

impl<'a> View for Outgoing<'a> {
    type V = OutgoingV;

    open spec fn view(&self) -> OutgoingV {
        OutgoingV {
            system_title: self.system_title@,
            invocation_counter: self.invocation_counter,
            auth_key: bytes_view(self.auth_key),
            policy: self.policy,
            general_allowed: self.general_allowed,
        }
    }
}

/// The first byte, zero where there is none.
pub open spec fn first_byte(s: Seq<u8>) -> u8 {
    if s.len() > 0 {
        s[0]
    } else {
        0
    }
}

impl OutgoingV {
    /// What names the service outside: its ciphered tag where it has one, and otherwise the
    /// general wrapper with the sender's title, where that may be used.
    pub open spec fn envelope(self, tag: ApduTag) -> Result<Seq<u8>> {
        let protection = if self.policy.dedicated() {
            Protection::Dedicated
        } else {
            Protection::Global
        };
        match ciphered_of(tag, protection) {
            Some(t) => Ok(seq![t.code()]),
            None => if !self.general_allowed {
                Err(Error { kind: ErrorKind::Unsupported, offset: 0 })
            } else if self.policy.dedicated() {
                Ok(seq![ApduTag::GeneralDedCiphering.code()] + enc_prefixed(self.system_title))
            } else {
                Ok(seq![ApduTag::GeneralGloCiphering.code()] + enc_prefixed(self.system_title))
            },
        }
    }

    /// How long the payload of a message is.
    pub open spec fn payload_len(self, plain: Seq<u8>) -> nat {
        plain.len() + (if self.policy.authenticated {
            12nat
        } else {
            0nat
        })
    }

    /// Everything that stands in front of the payload.
    pub open spec fn header(self, plain: Seq<u8>) -> Result<Seq<u8>> {
        match tag_of(first_byte(plain)) {
            None => Err(Error { kind: ErrorKind::InvalidTag(first_byte(plain)), offset: 0 }),
            Some(tag) => if self.auth_key is None {
                Err(Error { kind: ErrorKind::Unsupported, offset: 0 })
            } else {
                match self.envelope(tag) {
                    Err(e) => Err(e),
                    Ok(envelope) => if !length_fits(5 + self.payload_len(plain)) {
                        Err(
                            Error {
                                kind: ErrorKind::InvalidLength,
                                offset: envelope.len() as usize,
                            },
                        )
                    } else {
                        Ok(
                            envelope + enc_length(5 + self.payload_len(plain)) + seq![
                                self.policy.control().0,
                            ] + be_bytes(self.invocation_counter as nat, 4),
                        )
                    },
                }
            },
        }
    }
}

/// The protected form of a plain APDU, into a buffer that has so much room.
#[verifier::opaque]
pub open spec fn wrapped_by<P: CryptoProvider>(
    p: &P,
    ctx: OutgoingV,
    plain: Seq<u8>,
    room: nat,
) -> Result<Seq<u8>> {
    if ctx.policy.is_none() {
        if plain.len() <= room {
            Ok(plain)
        } else {
            Err(
                Error {
                    kind: ErrorKind::BufferTooSmall { needed: (plain.len() - room) as usize },
                    offset: 0,
                },
            )
        }
    } else {
        match ctx.header(plain) {
            Err(e) => Err(e),
            Ok(header) => if room < header.len() {
                Err(
                    Error {
                        kind: ErrorKind::BufferTooSmall { needed: header.len() as usize },
                        offset: 0,
                    },
                )
            } else if room - header.len() < ctx.payload_len(plain) {
                Err(
                    Error {
                        kind: ErrorKind::BufferTooSmall {
                            needed: clip(ctx.payload_len(plain) - (room - header.len())),
                        },
                        offset: 0,
                    },
                )
            } else {
                match protected_by(
                    p,
                    ctx.policy,
                    ctx.system_title,
                    ctx.invocation_counter,
                    ctx.auth_key->0,
                    plain,
                ) {
                    Err(e) => Err(e),
                    Ok(payload) => Ok(header + payload),
                }
            },
        }
    }
}

/// Whether what a message is protected to opens to it again.
pub open spec fn restores<P: CryptoProvider>(p: &P, ctx: OutgoingV, plain: Seq<u8>) -> bool {
    !ctx.policy.is_none() ==> match protected_by(
        p,
        ctx.policy,
        ctx.system_title,
        ctx.invocation_counter,
        ctx.auth_key->0,
        plain,
    ) {
        Err(_) => true,
        Ok(payload) => {
            &&& payload.len() == ctx.payload_len(plain)
            &&& unprotected_by(
                p,
                ctx.policy,
                ctx.policy.control(),
                ctx.system_title,
                ctx.invocation_counter,
                ctx.auth_key->0,
                payload,
            ) == Ok::<Seq<u8>, Error>(plain)
        },
    }
}

/// What names the service outside.
fn write_envelope(ctx: &Outgoing<'_>, tag: ApduTag) -> (r: Result<Vec<u8>>)
    ensures
        match r {
            Ok(v) => ctx@.envelope(tag) == Ok::<Seq<u8>, Error>(v@) && v@.len() < 100,
            Err(e) => ctx@.envelope(tag) == Err::<Seq<u8>, Error>(e),
        },
{
    let protection = if ctx.policy.dedicated() {
        Protection::Dedicated
    } else {
        Protection::Global
    };
    let mut w: Vec<u8> = Vec::new();
    if let Some(t) = tag.protected_as(protection) {
        w.push(t.as_u8());
        assert(w@ =~= seq![t.code()]);
        return Ok(w);
    }
    // No ciphered tag for this service. `general-glo-ciphering` is the general
    // wrapper the standard provides for exactly that, and it is the only way an
    // ACCESS exchange or an exception response is protected at all.
    if !ctx.general_allowed {
        return Err(Error::new(ErrorKind::Unsupported, 0));
    }
    let tag = match protection {
        Protection::Dedicated => ApduTag::GeneralDedCiphering,
        Protection::Global => ApduTag::GeneralGloCiphering,
    };
    w.push(tag.as_u8());
    let title = ctx.system_title.as_bytes();
    w.write_length_prefixed(title.as_slice())?;
    assert(w@ =~= seq![tag.code()] + enc_prefixed(ctx.system_title@));
    Ok(w)
}

/// Everything that stands in front of the payload.
fn write_header(ctx: &Outgoing<'_>, plain: &[u8], payload_len: usize) -> (r: Result<Vec<u8>>)
    requires
        ctx.policy.is_none() || payload_len == clip(ctx@.payload_len(plain@) as int),
        !ctx.policy.is_none(),
    ensures
        match r {
            Ok(v) => ctx@.header(plain@) == Ok::<Seq<u8>, Error>(v@) && v@.len() < 1000
                && length_fits(5 + ctx@.payload_len(plain@)),
            Err(e) => ctx@.header(plain@) == Err::<Seq<u8>, Error>(e),
        },
{
    let tag_byte: u8 = if plain.len() > 0 {
        plain[0]
    } else {
        0
    };
    let tag = match ApduTag::from_u8(tag_byte) {
        Some(t) => t,
        None => {
            return Err(Error::new(ErrorKind::InvalidTag(tag_byte), 0));
        },
    };
    if ctx.auth_key.is_none() {
        return Err(Error::new(ErrorKind::Unsupported, 0));
    }
    let mut w = write_envelope(ctx, tag)?;
    let ghost envelope = w@;
    // The `ciphered-content` octet string: its length, then the security header the
    // payload follows.
    let len: usize = match payload_len.checked_add(5) {
        Some(n) if n <= 0xFFFF_FFFF => n,
        _ => return Err(Error::new(ErrorKind::InvalidLength, w.len())),
    };
    w.write_length(len)?;
    w.write_u8(ctx.policy.control().0)?;
    w.write_u32(ctx.invocation_counter)?;
    proof {
        lemma_be_bytes_len(ctx.invocation_counter as nat, 4);
        lemma_be_bytes_len(len as nat, length_bytes(len as nat));
        assert(enc_length(len as nat).len() <= 5);
        assert(w@ =~= envelope + enc_length(len as nat) + seq![ctx.policy.control().0] + be_bytes(
            ctx.invocation_counter as nat,
            4,
        ));
    }
    Ok(w)
}

/// Wrap `plain` — a complete plain APDU, its own tag included — into `out`.
///
/// Returns how many bytes of `out` the protected APDU occupies.
pub fn protect_apdu<P: CryptoProvider>(
    protector: &Protector<P>,
    ctx: &Outgoing<'_>,
    plain: &[u8],
    out: &mut [u8],
) -> (r: Result<usize>)
    ensures
        match r {
            Ok(n) => wrapped_by(&protector.crypto(), ctx@, plain@, old(out)@.len()) matches Ok(
                w,
            ) && n == w.len() && n <= old(out)@.len() && final(out)@ == w + old(out)@.skip(
                n as int,
            ),
            Err(e) => wrapped_by(&protector.crypto(), ctx@, plain@, old(out)@.len()) == Err::<
                Seq<u8>,
                Error,
            >(e) && final(out)@ == old(out)@,
        },
        r is Ok ==> restores(&protector.crypto(), ctx@, plain@),
{
    reveal(wrapped_by);
    let room: usize = out.len();
    if ctx.policy.is_none() {
        if plain.len() > room {
            return Err(Error::new(ErrorKind::BufferTooSmall { needed: plain.len() - room }, 0));
        }
        copy_into(out, plain);
        return Ok(plain.len());
    }
    // What the cipher will produce, counted rather than measured afterwards.
    let extra: usize = if ctx.policy.authenticated {
        12
    } else {
        0
    };
    let payload_len: usize = plain.len().saturating_add(extra);
    let header = write_header(ctx, plain, payload_len)?;
    if room < header.len() {
        return Err(Error::new(ErrorKind::BufferTooSmall { needed: header.len() }, 0));
    }
    let left: usize = room - header.len();
    if left < payload_len {
        return Err(Error::new(ErrorKind::BufferTooSmall { needed: payload_len - left }, 0));
    }
    let auth_key = match ctx.auth_key {
        Some(k) => k,
        None => {
            return Err(Error::new(ErrorKind::Unsupported, 0));
        },
    };
    let payload = protector.seal(
        ctx.policy,
        &ctx.system_title,
        ctx.invocation_counter,
        auth_key,
        plain,
    )?;
    let mut whole = header;
    extend(&mut whole, payload.as_slice());
    copy_into(out, whole.as_slice());
    Ok(whole.len())
}

/// What comes in, apart from the message itself.
#[verifier::ext_equal]
pub struct IncomingV {
    /// This end's own system title.
    pub local: Option<Seq<u8>>,
    /// The peer's system title.
    pub peer: Option<Seq<u8>>,
    /// The authentication key.
    pub auth_key: Option<Seq<u8>>,
    /// The protection in force.
    pub policy: SecurityPolicy,
    /// What is accepted with no protection.
    pub plain_allowed: Seq<ApduTag>,
}

/// Everything the wrapper needs about the message coming in.
pub struct Incoming<'a> {
    /// This end's own system title, when it has one. `general-ciphering` names its
    /// recipient, and a frame addressed to somebody else is not this end's to open.
    pub local: Option<SystemTitle>,
    /// The peer's system title, once it is known. A `general-*-ciphering` APDU carries
    /// one; it must be the peer's, or the frame is somebody else's.
    pub peer: Option<SystemTitle>,
    /// The authentication key. `None` when the ring holds none.
    pub auth_key: Option<&'a [u8]>,
    /// The protection in force for service APDUs.
    pub policy: SecurityPolicy,
    /// Which tags this end accepts with no protection at all. Everything else in a
    /// protected association must arrive protected.
    pub plain_allowed: &'a [ApduTag],
}

impl<'a> View for Incoming<'a> {
    type V = IncomingV;

    open spec fn view(&self) -> IncomingV {
        IncomingV {
            local: title_view(self.local),
            peer: title_view(self.peer),
            auth_key: bytes_view(self.auth_key),
            policy: self.policy,
            plain_allowed: self.plain_allowed@,
        }
    }
}

/// What an APDU says of its own protection.
#[verifier::ext_equal]
pub enum FrameV {
    /// Nothing: it is plain.
    Bare,
    /// That it holds protected content, and in the ordinary form which service that is.
    Protected {
        /// The service that the tag outside names.
        expect: Option<ApduTag>,
        /// The content.
        content: CipheredServiceV,
    },
}

/// A message that does not fit where it has arrived.
pub open spec fn unexpected() -> Error {
    Error { kind: ErrorKind::UnexpectedMessage, offset: 0 }
}

impl IncomingV {
    /// Whether the title of the sender is the one that is known, if one is.
    pub open spec fn from_peer(self, title: Seq<u8>) -> bool {
        self.peer matches Some(p) ==> title == p
    }

    /// What `general-glo-ciphering` or `general-ded-ciphering` holds: a frame of the peer,
    /// under the key set in force.
    pub open spec fn general_glo(self, tag: ApduTag, c: Cursor) -> Result<FrameV> {
        match GeneralGloCipheringV::p(c) {
            Err(e) => Err(e),
            Ok((g, _)) => if !self.from_peer(g.system_title) || (tag is GeneralDedCiphering)
                != self.policy.dedicated() {
                Err(unexpected())
            } else {
                Ok(FrameV::Protected { expect: None, content: g.ciphered })
            },
        }
    }

    /// What `general-ciphering` holds: a frame of the peer, addressed to this end or to
    /// nobody in particular, that names the key in force or none.
    pub open spec fn general(self, c: Cursor) -> Result<FrameV> {
        match GeneralCipheringV::p(c) {
            Err(e) => Err(e),
            Ok((g, _)) => if !self.from_peer(g.originator_system_title) {
                Err(unexpected())
            } else if self.local matches Some(local) && g.recipient_system_title.len() != 0
                && g.recipient_system_title != local {
                Err(unexpected())
            } else {
                match g.key_info {
                    Some(KeyInfoV::Wrapped { .. }) | Some(KeyInfoV::Agreed { .. }) => Err(
                        Error { kind: ErrorKind::Unsupported, offset: 0 },
                    ),
                    Some(KeyInfoV::Identified { key_id }) if Some(key_id)
                        != self.policy.key_usage().key_id() => Err(unexpected()),
                    _ => if self.policy.dedicated() {
                        Err(unexpected())
                    } else {
                        Ok(FrameV::Protected { expect: None, content: g.ciphered })
                    },
                }
            },
        }
    }

    /// What an APDU says of its own protection, where that is acceptable at all.
    pub open spec fn frame(self, apdu: Seq<u8>) -> Result<FrameV> {
        let c = Cursor::start(apdu).adv(1);
        match tag_of(first_byte(apdu)) {
            None => Err(Error { kind: ErrorKind::InvalidTag(first_byte(apdu)), offset: 0 }),
            Some(tag) => if tag is GeneralGloCiphering || tag is GeneralDedCiphering {
                self.general_glo(tag, c)
            } else if tag is GeneralCiphering {
                self.general(c)
            } else if tag is GeneralSigning {
                Err(Error { kind: ErrorKind::Unsupported, offset: 0 })
            } else {
                match plain_of(tag) {
                    None => if !self.policy.is_none() && !self.plain_allowed.contains(tag) {
                        Err(unexpected())
                    } else {
                        Ok(FrameV::Bare)
                    },
                    Some((protection, plain)) => if (protection is Dedicated)
                        != self.policy.dedicated() {
                        Err(unexpected())
                    } else {
                        match CipheredServiceV::p(c) {
                            Err(e) => Err(e),
                            Ok((content, _)) => Ok(
                                FrameV::Protected { expect: Some(plain), content },
                            ),
                        }
                    },
                }
            },
        }
    }
}

/// What an APDU opens to, into a buffer that has so much room, and the window of spent
/// counters afterwards. A counter is checked before anything is deciphered, and spent once
/// the tag has verified.
#[verifier::opaque]
pub open spec fn unwrapped_by<P: CryptoProvider>(
    p: &P,
    ctx: IncomingV,
    window: WindowV,
    apdu: Seq<u8>,
    room: nat,
) -> (Result<Seq<u8>>, WindowV) {
    match ctx.frame(apdu) {
        Err(e) => (Err(e), window),
        Ok(FrameV::Bare) => if apdu.len() > room {
            (
                Err(
                    Error {
                        kind: ErrorKind::BufferTooSmall { needed: apdu.len() as usize },
                        offset: 0,
                    },
                ),
                window,
            )
        } else {
            (Ok(apdu), window)
        },
        Ok(FrameV::Protected { expect, content }) => {
            let ic = content.invocation_counter;
            if ctx.peer is None {
                (Err(unexpected()), window)
            } else if !window.admits(ic) {
                (Err(Error { kind: ErrorKind::Replay, offset: 0 }), window)
            } else if content.payload.len() > room {
                (
                    Err(
                        Error {
                            kind: ErrorKind::BufferTooSmall {
                                needed: content.payload.len() as usize,
                            },
                            offset: 0,
                        },
                    ),
                    window,
                )
            } else if ctx.auth_key is None {
                (Err(Error { kind: ErrorKind::Unsupported, offset: 0 }), window)
            } else {
                match unprotected_by(
                    p,
                    ctx.policy,
                    content.security_control,
                    ctx.peer->0,
                    ic,
                    ctx.auth_key->0,
                    content.payload,
                ) {
                    Err(e) => (Err(e), window),
                    Ok(plain) => if expect matches Some(t) && !(plain.len() > 0 && plain[0]
                        == t.code()) {
                        (Err(unexpected()), window.with(ic))
                    } else {
                        (Ok(plain), window.with(ic))
                    },
                }
            }
        },
    }
}

fn allows(tags: &[ApduTag], tag: ApduTag) -> (r: bool)
    ensures
        r == tags@.contains(tag),
{
    let mut i: usize = 0;
    while i < tags.len()
        invariant
            i <= tags@.len(),
            forall|k: int| 0 <= k < i ==> tags@[k] != tag,
        decreases tags@.len() - i,
    {
        if tags[i] == tag {
            return true;
        }
        i += 1;
    }
    false
}

/// What an APDU says of its own protection.
struct Frame<'a> {
    expect: Option<ApduTag>,
    content: Option<CipheredService<'a>>,
}

impl<'a> View for Frame<'a> {
    type V = FrameV;

    closed spec fn view(&self) -> FrameV {
        match self.content {
            None => FrameV::Bare,
            Some(c) => FrameV::Protected { expect: self.expect, content: c@ },
        }
    }
}

fn read_general_glo<'a>(ctx: &Incoming<'_>, tag: ApduTag, r: &mut Reader<'a>) -> (res: Result<
    Frame<'a>,
>)
    requires
        tag is GeneralGloCiphering || tag is GeneralDedCiphering,
    ensures
        match res {
            Ok(f) => ctx@.general_glo(tag, old(r)@) == Ok::<FrameV, Error>(f@),
            Err(e) => ctx@.general_glo(tag, old(r)@) == Err::<FrameV, Error>(e),
        },
{
    assert(GeneralGloCiphering::parse(r@) == GeneralGloCipheringV::p(r@));
    let g = GeneralGloCiphering::decode(r)?;
    // The title travels in the clear and is not authenticated, so it is a hint
    // about which key to try, never a statement of identity. Requiring it to be
    // the peer's keeps a frame addressed elsewhere from being opened here; the
    // tag is what actually proves who sent it.
    if let Some(peer) = ctx.peer {
        if !same_bytes(g.system_title, peer.as_bytes().as_slice()) {
            return Err(Error::new(ErrorKind::UnexpectedMessage, 0));
        }
    }
    let dedicated = matches!(tag, ApduTag::GeneralDedCiphering);
    if dedicated != ctx.policy.dedicated() {
        return Err(Error::new(ErrorKind::UnexpectedMessage, 0));
    }
    Ok(Frame { expect: None, content: Some(g.ciphered) })
}

fn read_general<'a>(ctx: &Incoming<'_>, r: &mut Reader<'a>) -> (res: Result<Frame<'a>>)
    ensures
        match res {
            Ok(f) => ctx@.general(old(r)@) == Ok::<FrameV, Error>(f@),
            Err(e) => ctx@.general(old(r)@) == Err::<FrameV, Error>(e),
        },
{
    assert(GeneralCiphering::parse(r@) == GeneralCipheringV::p(r@));
    let g = GeneralCiphering::decode(r)?;
    // Every field of this header travels in the clear and outside the tag, so
    // each is a hint rather than a statement. The two identities are still
    // *checked*, because opening a frame addressed elsewhere is work this end
    // should not do and a plaintext this end should not hold.
    if let Some(peer) = ctx.peer {
        if !same_bytes(g.originator_system_title, peer.as_bytes().as_slice()) {
            return Err(Error::new(ErrorKind::UnexpectedMessage, 0));
        }
    }
    if let Some(local) = ctx.local {
        // Empty means "not stated", which the standard allows; anything else
        // must be us.
        if g.recipient_system_title.len() != 0 && !same_bytes(
            g.recipient_system_title,
            local.as_bytes().as_slice(),
        ) {
            return Err(Error::new(ErrorKind::UnexpectedMessage, 0));
        }
    }
    // Which key opens it is this end's decision, as everywhere else. An
    // absent key-info means the association's own key set; an identified key
    // must *name* that same key set rather than choose a different one.
    match g.key_info {
        None => {},
        Some(KeyInfo::Identified { key_id }) => {
            let named = match ctx.policy.key_usage().key_id() {
                Some(id) => id == key_id,
                None => false,
            };
            if !named {
                return Err(Error::new(ErrorKind::UnexpectedMessage, 0));
            }
        },
        // A key delivered with the message, wrapped under a key-encrypting key
        // or derived by agreement. Both are suite 1 and 2 work.
        Some(KeyInfo::Wrapped { .. }) | Some(KeyInfo::Agreed { .. }) => {
            return Err(Error::new(ErrorKind::Unsupported, 0));
        },
    }
    // There is no `general-ded-ciphering` equivalent here: the key is named by
    // key-info, so an association on the dedicated key set cannot be addressed
    // this way and a frame that tries is refused rather than opened globally.
    if ctx.policy.dedicated() {
        return Err(Error::new(ErrorKind::UnexpectedMessage, 0));
    }
    Ok(Frame { expect: None, content: Some(g.ciphered) })
}

/// Which of the forms is this, and what does it say about itself?
fn read_frame<'a>(ctx: &Incoming<'_>, apdu: &'a [u8]) -> (res: Result<Frame<'a>>)
    ensures
        match res {
            Ok(f) => ctx@.frame(apdu@) == Ok::<FrameV, Error>(f@),
            Err(e) => ctx@.frame(apdu@) == Err::<FrameV, Error>(e),
        },
{
    let tag_byte: u8 = if apdu.len() > 0 {
        apdu[0]
    } else {
        0
    };
    proof {
        reveal(tag_of);
    }
    let tag = match ApduTag::from_u8(tag_byte) {
        Some(t) => t,
        None => {
            return Err(Error::new(ErrorKind::InvalidTag(tag_byte), 0));
        },
    };
    let mut r = Reader::new(apdu);
    r.skip(1)?;
    assert(r@ == Cursor::start(apdu@).adv(1));
    match tag {
        ApduTag::GeneralGloCiphering | ApduTag::GeneralDedCiphering => read_general_glo(
            ctx,
            tag,
            &mut r,
        ),
        ApduTag::GeneralCiphering => read_general(ctx, &mut r),
        // An ECDSA signature over the APDU, which needs suite 1's or suite 2's
        // asymmetric half. Named here rather than left to fall through to the
        // unprotected branch, where the answer would be `UnexpectedMessage` and a caller
        // could not tell "this peer speaks a wrapper we do not" from "this peer
        // downgraded to plaintext".
        ApduTag::GeneralSigning => Err(Error::new(ErrorKind::Unsupported, 0)),
        _ => match tag.unprotect() {
            None => {
                // Unprotected. The policy still gets a say: an association that demands
                // protection accepts a bare APDU only where one is unavoidable.
                if !ctx.policy.is_none() && !allows(ctx.plain_allowed, tag) {
                    return Err(Error::new(ErrorKind::UnexpectedMessage, 0));
                }
                Ok(Frame { expect: None, content: None })
            },
            Some((protection, plain_tag)) => {
                // The `glo-`/`ded-` tag names a key set, and after the handshake both ends
                // have agreed which one that is. A frame naming the other one is refused:
                // which key opens a message is not the sender's to choose.
                let dedicated = matches!(protection, Protection::Dedicated);
                if dedicated != ctx.policy.dedicated() {
                    return Err(Error::new(ErrorKind::UnexpectedMessage, 0));
                }
                let content = CipheredService::decode(&mut r)?;
                Ok(Frame { expect: Some(plain_tag), content: Some(content) })
            },
        },
    }
}

/// Take protection off `apdu`, returning the plain APDU.
///
/// The invocation counter is checked against `replay` **before** any cryptography and
/// recorded **after** the tag verifies. That order is the whole control: the other one
/// lets a single forged frame with a high counter lock the real peer out permanently.
///
/// # Errors
/// [`ErrorKind::Replay`] when the counter has been spent or is too old;
/// [`ErrorKind::BadTag`] when the tag does not verify.
pub fn unprotect_apdu<P: CryptoProvider>(
    protector: &Protector<P>,
    ctx: &Incoming<'_>,
    replay: &mut ReplayWindow,
    apdu: &[u8],
    room: usize,
) -> (res: Result<Vec<u8>>)
    ensures
        final(replay)@ == unwrapped_by(
            &protector.crypto(),
            ctx@,
            old(replay)@,
            apdu@,
            room as nat,
        ).1,
        match res {
            Ok(v) => unwrapped_by(
                &protector.crypto(),
                ctx@,
                old(replay)@,
                apdu@,
                room as nat,
            ).0 == Ok::<Seq<u8>, Error>(v@) && v@.len() <= room,
            Err(e) => unwrapped_by(
                &protector.crypto(),
                ctx@,
                old(replay)@,
                apdu@,
                room as nat,
            ).0 == Err::<Seq<u8>, Error>(e),
        },
{
    reveal(unwrapped_by);
    let frame = read_frame(ctx, apdu)?;
    let content = match frame.content {
        Some(c) => c,
        None => {
            if apdu.len() > room {
                return Err(Error::new(ErrorKind::BufferTooSmall { needed: apdu.len() }, 0));
            }
            let mut v: Vec<u8> = Vec::new();
            extend(&mut v, apdu);
            assert(v@ =~= apdu@);
            return Ok(v);
        },
    };
    let peer = match ctx.peer {
        Some(p) => p,
        None => {
            return Err(Error::new(ErrorKind::UnexpectedMessage, 0));
        },
    };
    if replay.check(content.invocation_counter).is_err() {
        return Err(Error::new(ErrorKind::Replay, 0));
    }
    let n: usize = content.payload.len();
    if n > room {
        return Err(Error::new(ErrorKind::BufferTooSmall { needed: n }, 0));
    }
    let auth_key = match ctx.auth_key {
        Some(k) => k,
        None => {
            return Err(Error::new(ErrorKind::Unsupported, 0));
        },
    };
    // The deciphered plaintext is the *whole* plain APDU, its own tag included — the
    // `glo-`/`ded-` tag outside names the same service.
    let plain = protector.open(
        ctx.policy,
        content.security_control,
        &peer,
        content.invocation_counter,
        auth_key,
        content.payload,
    )?;

    // The tag has verified: the counter is spent, and this exact APDU can never be
    // replayed into this association again.
    let spent = replay.accept(content.invocation_counter);
    assert(spent is Ok);

    // For the `glo-`/`ded-` forms the outer tag and the inner one must name the same
    // service.
    if let Some(expected) = frame.expect {
        if plain.len() == 0 || plain[0] != expected.as_u8() {
            return Err(Error::new(ErrorKind::UnexpectedMessage, 0));
        }
    }
    Ok(plain)
}

/// What one end protects, the other opens: given that the cryptography restores what it
/// protects, a peer that holds the same keys under the same policy, knows the sender and has
/// not seen the counter before gets the message back, and has spent the counter.
pub proof fn law_wrapped_opens<P: CryptoProvider>(
    p: &P,
    out: OutgoingV,
    inc: IncomingV,
    window: WindowV,
    plain: Seq<u8>,
    sent: nat,
    room: nat,
)
    requires
        wrapped_by(p, out, plain, sent) is Ok,
        restores(p, out, plain),
        !out.policy.is_none(),
        out.system_title.len() == 8,
        inc.peer == Some(out.system_title),
        inc.auth_key == out.auth_key,
        inc.policy == out.policy,
        window.admits(out.invocation_counter),
        out.payload_len(plain) <= room,
    ensures
        unwrapped_by(p, inc, window, wrapped_by(p, out, plain, sent)->Ok_0, room) == (
            Ok::<Seq<u8>, Error>(plain),
            window.with(out.invocation_counter),
        ),
{
    reveal(wrapped_by);
    reveal(unwrapped_by);
    let w = wrapped_by(p, out, plain, sent)->Ok_0;
    let payload = protected_by(
        p,
        out.policy,
        out.system_title,
        out.invocation_counter,
        out.auth_key->0,
        plain,
    )->Ok_0;
    let content = CipheredServiceV {
        security_control: out.policy.control(),
        invocation_counter: out.invocation_counter,
        payload,
    };
    let tag = tag_of(first_byte(plain))->0;
    law_tag_round_trip(tag, first_byte(plain));
    lemma_header(out, plain, content);
    lemma_frame(out, inc, tag, content);
    assert(w =~= out.envelope(tag)->Ok_0 + content.enc());
}

/// The header and the payload are the envelope and the content.
proof fn lemma_header(out: OutgoingV, plain: Seq<u8>, content: CipheredServiceV)
    requires
        out.header(plain) is Ok,
        content.security_control == out.policy.control(),
        content.invocation_counter == out.invocation_counter,
        content.payload.len() == out.payload_len(plain),
    ensures
        tag_of(first_byte(plain)) matches Some(tag) && out.envelope(tag) is Ok && out.header(
            plain,
        )->Ok_0 + content.payload == out.envelope(tag)->Ok_0 + content.enc(),
        content.fits(),
        out.auth_key is Some,
{
    let tag = tag_of(first_byte(plain))->0;
    assert(out.header(plain)->Ok_0 + content.payload =~= out.envelope(tag)->Ok_0 + content.enc());
}

/// What a receiver makes of an envelope and its content.
proof fn lemma_frame(out: OutgoingV, inc: IncomingV, tag: ApduTag, content: CipheredServiceV)
    requires
        out.envelope(tag) is Ok,
        content.fits(),
        out.system_title.len() == 8,
        inc.peer == Some(out.system_title),
        inc.policy == out.policy,
    ensures
        inc.frame(out.envelope(tag)->Ok_0 + content.enc()) matches Ok(
            FrameV::Protected { expect, content: c },
        ) && c == content && (expect matches Some(t) ==> t == tag),
{
    let envelope = out.envelope(tag)->Ok_0;
    let w = envelope + content.enc();
    let c = Cursor::start(w).adv(1);
    let protection = if out.policy.dedicated() {
        Protection::Dedicated
    } else {
        Protection::Global
    };
    law_ciphered_tags(tag, protection);
    match ciphered_of(tag, protection) {
        Some(t) => {
            law_tag_round_trip(t, 0);
            reveal(plain_of);
            assert(w[0] == t.code());
            assert(c.peek(content.enc().len()) =~= content.enc());
            law_ciphered_service_round_trip(c, content);
        },
        None => {
            let outer = if out.policy.dedicated() {
                ApduTag::GeneralDedCiphering
            } else {
                ApduTag::GeneralGloCiphering
            };
            law_tag_round_trip(outer, 0);
            assert(w[0] == outer.code());
            let g = GeneralGloCipheringV { system_title: out.system_title, ciphered: content };
            assert(c.peek(g.enc().len()) =~= g.enc());
            law_general_glo_round_trip(c, g);
        },
    }
}

/// A protected message is taken once: sent again, it is refused as a replay.
pub proof fn law_opened_once<P: CryptoProvider>(
    p: &P,
    ctx: IncomingV,
    window: WindowV,
    apdu: Seq<u8>,
    room: nat,
)
    requires
        window.wf(),
        ctx.frame(apdu) matches Ok(FrameV::Protected { .. }),
        unwrapped_by(p, ctx, window, apdu, room).0 is Ok,
    ensures
        unwrapped_by(p, ctx, unwrapped_by(p, ctx, window, apdu, room).1, apdu, room).0 == Err::<
            Seq<u8>,
            Error,
        >(Error { kind: ErrorKind::Replay, offset: 0 }),
{
    reveal(unwrapped_by);
    let ic = ctx.frame(apdu)->Ok_0->content.invocation_counter;
    law_accepted_at_most_once(window, ic, Seq::empty());
    assert(window.with(ic).after(Seq::empty()) == window.with(ic));
}

/// Under a policy that protects, nothing gets in but what may arrive plain and what is
/// protected as the policy demands, under a counter that has not been spent.
pub proof fn law_only_protected_gets_in<P: CryptoProvider>(
    p: &P,
    ctx: IncomingV,
    window: WindowV,
    apdu: Seq<u8>,
    room: nat,
)
    requires
        !ctx.policy.is_none(),
        unwrapped_by(p, ctx, window, apdu, room).0 is Ok,
    ensures
        match ctx.frame(apdu) {
            Ok(FrameV::Bare) => tag_of(first_byte(apdu)) matches Some(t)
                && ctx.plain_allowed.contains(t),
            Ok(FrameV::Protected { content, .. }) => window.admits(content.invocation_counter)
                && ctx.policy.refusal(content.security_control) is None,
            Err(_) => false,
        },
{
    reveal(unwrapped_by);
}

/// A counter that is refused is refused after any message too: opening one spends its
/// counter at most.
pub proof fn law_refused_stays_refused<P: CryptoProvider>(
    p: &P,
    ctx: IncomingV,
    window: WindowV,
    apdu: Seq<u8>,
    room: nat,
)
    requires
        window.wf(),
    ensures
        unwrapped_by(p, ctx, window, apdu, room).1.wf(),
        still_refuses(window, unwrapped_by(p, ctx, window, apdu, room).1),
{
    reveal(unwrapped_by);
    let after = unwrapped_by(p, ctx, window, apdu, room).1;
    assert forall|v: u32| !window.admits(v) implies !#[trigger] after.admits(v) by {
        if after != window {
            let ic = choose|ic: u32| window.admits(ic) && after == #[trigger] window.with(ic);
            law_refused_for_good(window, v, ic);
        }
    }
    if after != window {
        let ic = choose|ic: u32| window.admits(ic) && after == #[trigger] window.with(ic);
    }
}

} // verus!
