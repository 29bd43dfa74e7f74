//! Protected content, before it is opened: what it says of itself.

use vstd::prelude::*;

use super::list::read_u32;
use crate::codec::{Decode, Encode, Error, ErrorKind, Reader, Result, Writer};
#[allow(unused_imports)]
use super::list::p_u32;
#[allow(unused_imports)]
use crate::axdr::data::lemma_peek_split;
#[allow(unused_imports)]
use crate::bytes::{be_bytes, lemma_be_bytes_len, lemma_be_roundtrip, lemma_pow256};
#[allow(unused_imports)]
use crate::codec::{
    enc_length, enc_prefixed, err_before, law_length_prefixed_round_trip, law_length_round_trip,
    length_fits, p_length, p_length_prefixed, p_take, p_u8, Cursor,
};

verus! {

/// The security control byte: the suite, and which protection is applied with which key
/// set.
#[derive(Debug, Clone, Copy, PartialEq, Eq, Structural)]
pub struct SecurityControl(pub u8);

impl SecurityControl {
    /// A control byte of a suite, with or without authentication and encryption.
    #[must_use]
    #[verifier::allow_in_spec]
    pub fn new(suite: u8, authenticated: bool, encrypted: bool) -> Self
        returns
            SecurityControl(
                (suite & 0x0F) | (if authenticated {
                    0x10u8
                } else {
                    0u8
                }) | (if encrypted {
                    0x20u8
                } else {
                    0u8
                }),
            ),
    {
        SecurityControl(
            (suite & 0x0F) | (if authenticated {
                0x10u8
            } else {
                0u8
            }) | (if encrypted {
                0x20u8
            } else {
                0u8
            }),
        )
    }

    /// The same byte, naming the broadcast key set or not.
    #[must_use]
    #[verifier::allow_in_spec]
    pub fn with_broadcast(self, broadcast: bool) -> Self
        returns
            SecurityControl(
                if broadcast {
                    self.0 | 0x40
                } else {
                    self.0 & 0xBF
                },
            ),
    {
        SecurityControl(
            if broadcast {
                self.0 | 0x40
            } else {
                self.0 & 0xBF
            },
        )
    }

    /// The suite.
    #[must_use]
    #[verifier::allow_in_spec]
    pub fn suite(self) -> u8
        returns
            self.0 & 0x0F,
    {
        self.0 & 0x0F
    }

    /// True when there is an authentication tag.
    #[must_use]
    #[verifier::allow_in_spec]
    pub fn authenticated(self) -> bool
        returns
            self.0 & 0x10 != 0,
    {
        self.0 & 0x10 != 0
    }

    /// True when the content is enciphered.
    #[must_use]
    #[verifier::allow_in_spec]
    pub fn encrypted(self) -> bool
        returns
            self.0 & 0x20 != 0,
    {
        self.0 & 0x20 != 0
    }

    /// True when the broadcast key set is named.
    #[must_use]
    #[verifier::allow_in_spec]
    pub fn broadcast_key(self) -> bool
        returns
            self.0 & 0x40 != 0,
    {
        self.0 & 0x40 != 0
    }

    /// True when the content is compressed.
    #[must_use]
    #[verifier::allow_in_spec]
    pub fn compressed(self) -> bool
        returns
            self.0 & 0x80 != 0,
    {
        self.0 & 0x80 != 0
    }

    /// True when there is neither a tag nor a cipher.
    #[must_use]
    #[verifier::allow_in_spec]
    pub fn is_plain(self) -> bool
        returns
            !self.authenticated() && !self.encrypted(),
    {
        !self.authenticated() && !self.encrypted()
    }

    /// True when this control byte says the payload is protected at all.
    #[must_use]
    #[verifier::allow_in_spec]
    pub fn is_protected(self) -> bool
        returns
            self.authenticated() || self.encrypted(),
    {
        !self.is_plain()
    }
}

/// A control byte says what it was made to say, and nothing else.
pub proof fn law_control_fields(suite: u8, authenticated: bool, encrypted: bool, broadcast: bool)
    requires
        suite <= 0x0F,
    ensures
        ({
            let c = SecurityControl::new(suite, authenticated, encrypted).with_broadcast(broadcast);
            &&& c.suite() == suite
            &&& c.authenticated() == authenticated
            &&& c.encrypted() == encrypted
            &&& c.broadcast_key() == broadcast
            &&& !c.compressed()
        }),
        ({
            let c = SecurityControl::new(suite, authenticated, encrypted);
            &&& c.suite() == suite
            &&& c.authenticated() == authenticated
            &&& c.encrypted() == encrypted
            &&& !c.broadcast_key()
            &&& !c.compressed()
        }),
{
    let a = if authenticated {
        0x10u8
    } else {
        0u8
    };
    let e = if encrypted {
        0x20u8
    } else {
        0u8
    };
    let c = (suite & 0x0F) | a | e;
    assert({
        &&& c & 0x0F == suite
        &&& (c & 0x10 != 0) == (a != 0)
        &&& (c & 0x20 != 0) == (e != 0)
        &&& c & 0xC0 == 0
        &&& c & 0x40 == 0
        &&& c & 0x80 == 0
        &&& (c | 0x40) & 0x0F == suite
        &&& ((c | 0x40) & 0x10 != 0) == (a != 0)
        &&& ((c | 0x40) & 0x20 != 0) == (e != 0)
        &&& (c | 0x40) & 0x40 != 0
        &&& (c | 0x40) & 0x80 == 0
        &&& (c & 0xBF) & 0x0F == suite
        &&& ((c & 0xBF) & 0x10 != 0) == (a != 0)
        &&& ((c & 0xBF) & 0x20 != 0) == (e != 0)
        &&& (c & 0xBF) & 0x40 == 0
        &&& (c & 0xBF) & 0x80 == 0
    }) by (bit_vector)
        requires
            suite <= 0x0F,
            c == (suite & 0x0F) | a | e,
            a == 0 || a == 0x10,
            e == 0 || e == 0x20,
    ;
}

/// A protected service: how it is protected, under which counter, and the payload.
#[verifier::ext_equal]
pub struct CipheredServiceV {
    /// How the payload is protected.
    pub security_control: SecurityControl,
    /// The counter it was sent under.
    pub invocation_counter: u32,
    /// The payload: the ciphertext or plaintext, and the tag where there is one.
    pub payload: Seq<u8>,
}

/// A protected service: how it is protected, under which counter, and the payload.
#[derive(Debug, Clone, Copy, PartialEq, Eq)]
pub struct CipheredService<'a> {
    /// How the payload is protected.
    pub security_control: SecurityControl,
    /// The counter it was sent under.
    pub invocation_counter: u32,
    /// The payload: the ciphertext or plaintext, and the tag where there is one.
    pub payload: &'a [u8],
}

impl<'a> View for CipheredService<'a> {
    type V = CipheredServiceV;

    open spec fn view(&self) -> CipheredServiceV {
        CipheredServiceV {
            security_control: self.security_control,
            invocation_counter: self.invocation_counter,
            payload: self.payload@,
        }
    }
}

impl CipheredServiceV {
    /// The security header and the payload.
    pub open spec fn content(self) -> Seq<u8> {
        seq![self.security_control.0] + be_bytes(self.invocation_counter as nat, 4) + self.payload
    }

    /// The encoding: an octet string.
    pub open spec fn enc(self) -> Seq<u8> {
        enc_length(5 + self.payload.len()) + self.content()
    }

    /// Whether there is one.
    pub open spec fn fits(self) -> bool {
        length_fits(5 + self.payload.len())
    }

    /// What an octet string of at least five bytes holds.
    pub open spec fn p(c: Cursor) -> Result<(CipheredServiceV, Cursor)> {
        match p_length(c) {
            Err(e) => Err(e),
            Ok((n, d)) => if n < 5 {
                Err(err_before(ErrorKind::InvalidLength, d.at(), 1))
            } else {
                match p_u8(d) {
                    Err(e) => Err(e),
                    Ok((control, f)) => match p_u32(f) {
                        Err(e) => Err(e),
                        Ok((invocation_counter, g)) => match p_take(g, (n - 5) as nat) {
                            Err(e) => Err(e),
                            Ok((payload, h)) => Ok(
                                (
                                    CipheredServiceV {
                                        security_control: SecurityControl(control),
                                        invocation_counter,
                                        payload,
                                    },
                                    h,
                                ),
                            ),
                        },
                    },
                }
            },
        }
    }
}

impl<'a> Encode for CipheredService<'a> {
    open spec fn enc(&self) -> Seq<u8> {
        self@.enc()
    }

    open spec fn encodable(&self) -> bool {
        self@.fits()
    }

    fn encode<W: Writer>(&self, w: &mut W) -> (r: Result<()>) {
        assert(self.enc() == self@.enc() && self.encodable() == self@.fits());
        let ghost w0 = w.sink().bytes;
        let len: usize = match self.payload.len().checked_add(5) {
            Some(n) => n,
            None => return Err(Error::new(ErrorKind::InvalidLength, w.written())),
        };
        w.write_length(len)?;
        w.write_u8(self.security_control.0)?;
        w.write_u32(self.invocation_counter)?;
        w.write_bytes(self.payload)?;
        assert(w.sink().bytes =~= w0 + self@.enc());
        Ok(())
    }
}

impl<'a> Decode<'a> for CipheredService<'a> {
    open spec fn parse(c: Cursor) -> Result<(CipheredServiceV, Cursor)> {
        CipheredServiceV::p(c)
    }

    fn decode(r: &mut Reader<'a>) -> (res: Result<Self>) {
        assert(Self::parse(r@) == CipheredServiceV::p(r@));
        let n = r.length()?;
        if n < 5 {
            return Err(r.err_back(ErrorKind::InvalidLength, 1));
        }
        let control = r.u8()?;
        let invocation_counter = read_u32(r)?;
        let payload = r.take(n - 5)?;
        Ok(CipheredService {
            security_control: SecurityControl(control),
            invocation_counter,
            payload,
        })
    }
}

/// A protected APDU of any kind, with the title of its sender in the clear.
#[verifier::ext_equal]
pub struct GeneralGloCipheringV {
    /// The title of the sender.
    pub system_title: Seq<u8>,
    /// The content.
    pub ciphered: CipheredServiceV,
}

/// A protected APDU of any kind, with the title of its sender in the clear.
#[derive(Debug, Clone, Copy, PartialEq, Eq)]
pub struct GeneralGloCiphering<'a> {
    /// The title of the sender.
    pub system_title: &'a [u8],
    /// The content.
    pub ciphered: CipheredService<'a>,
}

impl<'a> View for GeneralGloCiphering<'a> {
    type V = GeneralGloCipheringV;

    open spec fn view(&self) -> GeneralGloCipheringV {
        GeneralGloCipheringV {
            system_title: self.system_title@,
            ciphered: self.ciphered@,
        }
    }
}

impl GeneralGloCipheringV {
    /// The encoding.
    pub open spec fn enc(self) -> Seq<u8> {
        enc_prefixed(self.system_title) + self.ciphered.enc()
    }

    /// Whether there is one.
    pub open spec fn fits(self) -> bool {
        length_fits(self.system_title.len()) && self.ciphered.fits()
    }

    /// What stands at a cursor.
    pub open spec fn p(c: Cursor) -> Result<(GeneralGloCipheringV, Cursor)> {
        match p_length_prefixed(c) {
            Err(e) => Err(e),
            Ok((system_title, c1)) => match CipheredServiceV::p(c1) {
                Err(e) => Err(e),
                Ok((ciphered, c2)) => Ok((GeneralGloCipheringV { system_title, ciphered }, c2)),
            },
        }
    }
}

impl<'a> Encode for GeneralGloCiphering<'a> {
    open spec fn enc(&self) -> Seq<u8> {
        self@.enc()
    }

    open spec fn encodable(&self) -> bool {
        self@.fits()
    }

    fn encode<W: Writer>(&self, w: &mut W) -> (r: Result<()>) {
        let ghost w0 = w.sink().bytes;
        w.write_length_prefixed(self.system_title)?;
        self.ciphered.encode(w)?;
        assert(w.sink().bytes =~= w0 + self@.enc());
        Ok(())
    }
}

impl<'a> Decode<'a> for GeneralGloCiphering<'a> {
    open spec fn parse(c: Cursor) -> Result<(GeneralGloCipheringV, Cursor)> {
        GeneralGloCipheringV::p(c)
    }

    fn decode(r: &mut Reader<'a>) -> (res: Result<Self>) {
        let system_title = r.length_prefixed()?;
        let ciphered = CipheredService::decode(r)?;
        Ok(GeneralGloCiphering { system_title, ciphered })
    }
}

/// Which key opens the content.
#[verifier::ext_equal]
pub enum KeyInfoV {
    /// One that both ends hold.
    Identified {
        /// Which.
        key_id: u8,
    },
    /// One that travels with the message, wrapped.
    Wrapped {
        /// The key that it is wrapped under.
        kek_id: u8,
        /// The wrapped key.
        key_ciphered_data: Seq<u8>,
    },
    /// One derived by agreement.
    Agreed {
        /// The parameters of the agreement.
        key_parameters: Seq<u8>,
        /// The public half of it.
        key_ciphered_data: Seq<u8>,
    },
}

/// Which key opens the content.
#[derive(Debug, Clone, Copy, PartialEq, Eq)]
pub enum KeyInfo<'a> {
    /// One that both ends hold.
    Identified {
        /// Which.
        key_id: u8,
    },
    /// One that travels with the message, wrapped.
    Wrapped {
        /// The key that it is wrapped under.
        kek_id: u8,
        /// The wrapped key.
        key_ciphered_data: &'a [u8],
    },
    /// One derived by agreement.
    Agreed {
        /// The parameters of the agreement.
        key_parameters: &'a [u8],
        /// The public half of it.
        key_ciphered_data: &'a [u8],
    },
}

impl<'a> View for KeyInfo<'a> {
    type V = KeyInfoV;

    open spec fn view(&self) -> KeyInfoV {
        match *self {
            KeyInfo::Identified { key_id } => KeyInfoV::Identified { key_id: key_id },
            KeyInfo::Wrapped { kek_id, key_ciphered_data } => KeyInfoV::Wrapped {
                kek_id: kek_id,
                key_ciphered_data: key_ciphered_data@,
            },
            KeyInfo::Agreed { key_parameters, key_ciphered_data } => KeyInfoV::Agreed {
                key_parameters: key_parameters@,
                key_ciphered_data: key_ciphered_data@,
            },
        }
    }
}

impl KeyInfoV {
    /// The encoding.
    pub open spec fn enc(self) -> Seq<u8> {
        match self {
            KeyInfoV::Identified { key_id } => seq![0u8] + seq![key_id],
            KeyInfoV::Wrapped { kek_id, key_ciphered_data } => seq![1u8]
                + seq![kek_id]
                + enc_prefixed(key_ciphered_data),
            KeyInfoV::Agreed { key_parameters, key_ciphered_data } => seq![2u8]
                + enc_prefixed(key_parameters)
                + enc_prefixed(key_ciphered_data),
        }
    }

    /// Whether there is one.
    pub open spec fn fits(self) -> bool {
        match self {
            KeyInfoV::Identified { .. } => true,
            KeyInfoV::Wrapped { key_ciphered_data, .. } => length_fits(key_ciphered_data.len()),
            KeyInfoV::Agreed { key_parameters, key_ciphered_data } => length_fits(key_parameters.len())
                && length_fits(key_ciphered_data.len()),
        }
    }

    /// What stands at a cursor.
    pub open spec fn p(c: Cursor) -> Result<(KeyInfoV, Cursor)> {
        match p_u8(c) {
            Err(e) => Err(e),
            Ok((tag, c0)) => if tag == 0 {
                match p_u8(c0) {
                    Err(e) => Err(e),
                    Ok((key_id, c1)) => Ok((KeyInfoV::Identified { key_id }, c1)),
                }
            } else if tag == 1 {
                match p_u8(c0) {
                    Err(e) => Err(e),
                    Ok((kek_id, c1)) => match p_length_prefixed(c1) {
                        Err(e) => Err(e),
                        Ok((key_ciphered_data, c2)) => Ok(
                            (
                                KeyInfoV::Wrapped { kek_id, key_ciphered_data },
                                c2,
                            ),
                        ),
                    },
                }
            } else if tag == 2 {
                match p_length_prefixed(c0) {
                    Err(e) => Err(e),
                    Ok((key_parameters, c1)) => match p_length_prefixed(c1) {
                        Err(e) => Err(e),
                        Ok((key_ciphered_data, c2)) => Ok(
                            (
                                KeyInfoV::Agreed { key_parameters, key_ciphered_data },
                                c2,
                            ),
                        ),
                    },
                }
            } else {
                Err(err_before(ErrorKind::InvalidTag(tag), c0.at(), 1))
            },
        }
    }
}

impl<'a> Encode for KeyInfo<'a> {
    open spec fn enc(&self) -> Seq<u8> {
        self@.enc()
    }

    open spec fn encodable(&self) -> bool {
        self@.fits()
    }

    fn encode<W: Writer>(&self, w: &mut W) -> (r: Result<()>) {
        let ghost w0 = w.sink().bytes;
        match self {
            KeyInfo::Identified { key_id } => {
                w.write_u8(0)?;
                w.write_u8(*key_id)?;
            },
            KeyInfo::Wrapped { kek_id, key_ciphered_data } => {
                w.write_u8(1)?;
                w.write_u8(*kek_id)?;
                w.write_length_prefixed(*key_ciphered_data)?;
            },
            KeyInfo::Agreed { key_parameters, key_ciphered_data } => {
                w.write_u8(2)?;
                w.write_length_prefixed(*key_parameters)?;
                w.write_length_prefixed(*key_ciphered_data)?;
            },
        }
        assert(w.sink().bytes =~= w0 + self@.enc());
        Ok(())
    }
}

impl<'a> Decode<'a> for KeyInfo<'a> {
    open spec fn parse(c: Cursor) -> Result<(KeyInfoV, Cursor)> {
        KeyInfoV::p(c)
    }

    fn decode(r: &mut Reader<'a>) -> (res: Result<Self>) {
        let tag = r.u8()?;
        match tag {
            0 => {
                let key_id = r.u8()?;
                Ok(KeyInfo::Identified { key_id })
            },
            1 => {
                let kek_id = r.u8()?;
                let key_ciphered_data = r.length_prefixed()?;
                Ok(KeyInfo::Wrapped { kek_id, key_ciphered_data })
            },
            2 => {
                let key_parameters = r.length_prefixed()?;
                let key_ciphered_data = r.length_prefixed()?;
                Ok(KeyInfo::Agreed { key_parameters, key_ciphered_data })
            },
            _ => Err(r.err_back(ErrorKind::InvalidTag(tag), 1)),
        }
    }
}

/// What key information that may be missing is.
pub open spec fn key_info_view(o: Option<KeyInfo<'_>>) -> Option<KeyInfoV> {
    match o {
        Some(v) => Some(v@),
        None => None,
    }
}

/// The key information at a cursor, which may be missing.
pub open spec fn p_key_info(c: Cursor) -> Result<(Option<KeyInfoV>, Cursor)> {
    match p_u8(c) {
        Err(e) => Err(e),
        Ok((flag, d)) => if flag == 0 {
            Ok((None, d))
        } else if flag == 1 {
            match KeyInfoV::p(d) {
                Ok((v, f)) => Ok((Some(v), f)),
                Err(e) => Err(e),
            }
        } else {
            Err(err_before(ErrorKind::InvalidValue, d.at(), 1))
        },
    }
}

fn read_key_info<'a>(r: &mut Reader<'a>) -> (res: Result<Option<KeyInfo<'a>>>)
    ensures
        final(r)@.same_input(old(r)@),
        match res {
            Ok(o) => p_key_info(old(r)@) == Ok::<(Option<KeyInfoV>, Cursor), Error>(
                (key_info_view(o), final(r)@),
            ),
            Err(e) => p_key_info(old(r)@) == Err::<(Option<KeyInfoV>, Cursor), Error>(e),
        },
{
    let flag = r.u8()?;
    if flag == 0 {
        Ok(None)
    } else if flag == 1 {
        Ok(Some(KeyInfo::decode(r)?))
    } else {
        Err(r.err_back(ErrorKind::InvalidValue, 1))
    }
}

/// A protected APDU of any kind that names both ends and its key.
#[verifier::ext_equal]
pub struct GeneralCipheringV {
    /// Which exchange.
    pub transaction_id: Seq<u8>,
    /// The title of the sender.
    pub originator_system_title: Seq<u8>,
    /// The title of the addressee; empty where none is stated.
    pub recipient_system_title: Seq<u8>,
    /// When.
    pub date_time: Seq<u8>,
    /// Anything else.
    pub other_information: Seq<u8>,
    /// Which key opens the content; the one of the association where none is stated.
    pub key_info: Option<KeyInfoV>,
    /// The content.
    pub ciphered: CipheredServiceV,
}

/// A protected APDU of any kind that names both ends and its key.
#[derive(Debug, Clone, Copy, PartialEq, Eq)]
pub struct GeneralCiphering<'a> {
    /// Which exchange.
    pub transaction_id: &'a [u8],
    /// The title of the sender.
    pub originator_system_title: &'a [u8],
    /// The title of the addressee; empty where none is stated.
    pub recipient_system_title: &'a [u8],
    /// When.
    pub date_time: &'a [u8],
    /// Anything else.
    pub other_information: &'a [u8],
    /// Which key opens the content; the one of the association where none is stated.
    pub key_info: Option<KeyInfo<'a>>,
    /// The content.
    pub ciphered: CipheredService<'a>,
}

impl<'a> View for GeneralCiphering<'a> {
    type V = GeneralCipheringV;

    open spec fn view(&self) -> GeneralCipheringV {
        GeneralCipheringV {
            transaction_id: self.transaction_id@,
            originator_system_title: self.originator_system_title@,
            recipient_system_title: self.recipient_system_title@,
            date_time: self.date_time@,
            other_information: self.other_information@,
            key_info: key_info_view(self.key_info),
            ciphered: self.ciphered@,
        }
    }
}

impl GeneralCipheringV {
    /// What stands at a cursor.
    pub open spec fn p(c: Cursor) -> Result<(GeneralCipheringV, Cursor)> {
        match p_length_prefixed(c) {
            Err(e) => Err(e),
            Ok((transaction_id, c1)) => match p_length_prefixed(c1) {
                Err(e) => Err(e),
                Ok((originator_system_title, c2)) => match p_length_prefixed(c2) {
                    Err(e) => Err(e),
                    Ok((recipient_system_title, c3)) => match p_length_prefixed(c3) {
                        Err(e) => Err(e),
                        Ok((date_time, c4)) => match p_length_prefixed(c4) {
                            Err(e) => Err(e),
                            Ok((other_information, c5)) => match p_key_info(c5) {
                                Err(e) => Err(e),
                                Ok((key_info, c6)) => match CipheredServiceV::p(c6) {
                                    Err(e) => Err(e),
                                    Ok((ciphered, c7)) => Ok(
                                        (
                                            GeneralCipheringV {
                                                transaction_id,
                                                originator_system_title,
                                                recipient_system_title,
                                                date_time,
                                                other_information,
                                                key_info,
                                                ciphered,
                                            },
                                            c7,
                                        ),
                                    ),
                                },
                            },
                        },
                    },
                },
            },
        }
    }
}

impl<'a> Decode<'a> for GeneralCiphering<'a> {
    open spec fn parse(c: Cursor) -> Result<(GeneralCipheringV, Cursor)> {
        GeneralCipheringV::p(c)
    }

    fn decode(r: &mut Reader<'a>) -> (res: Result<Self>) {
        let transaction_id = r.length_prefixed()?;
        let originator_system_title = r.length_prefixed()?;
        let recipient_system_title = r.length_prefixed()?;
        let date_time = r.length_prefixed()?;
        let other_information = r.length_prefixed()?;
        let key_info = read_key_info(r)?;
        let ciphered = CipheredService::decode(r)?;
        Ok(GeneralCiphering {
            transaction_id,
            originator_system_title,
            recipient_system_title,
            date_time,
            other_information,
            key_info,
            ciphered,
        })
    }
}

/// A protected service reads back from its encoding, wherever it stands.
pub proof fn law_ciphered_service_round_trip(c: Cursor, v: CipheredServiceV)
    requires
        c.wf(),
        v.fits(),
        v.enc().len() <= c.left(),
        c.peek(v.enc().len()) == v.enc(),
    ensures
        CipheredServiceV::p(c) == Ok::<(CipheredServiceV, Cursor), Error>(
            (v, c.adv(v.enc().len())),
        ),
{
    let n = 5 + v.payload.len();
    let counter = be_bytes(v.invocation_counter as nat, 4);
    lemma_be_bytes_len(v.invocation_counter as nat, 4);
    lemma_pow256();
    lemma_be_roundtrip(v.invocation_counter as nat, 4);
    lemma_peek_split(c, enc_length(n), v.content());
    law_length_round_trip(c, n);
    let d = c.adv(enc_length(n).len());
    let rest = counter + v.payload;
    assert(v.content() =~= seq![v.security_control.0] + rest);
    lemma_peek_split(d, seq![v.security_control.0], rest);
    assert(d.peek(1)[0] == v.security_control.0);
    let f = d.adv(1);
    lemma_peek_split(f, counter, v.payload);
    let g = f.adv(4);
    assert(g.adv(v.payload.len()) =~= c.adv(v.enc().len()));
}

/// A protected APDU with its sender's title reads back from its encoding, wherever it
/// stands.
pub proof fn law_general_glo_round_trip(c: Cursor, v: GeneralGloCipheringV)
    requires
        c.wf(),
        v.fits(),
        v.enc().len() <= c.left(),
        c.peek(v.enc().len()) == v.enc(),
    ensures
        GeneralGloCipheringV::p(c) == Ok::<(GeneralGloCipheringV, Cursor), Error>(
            (v, c.adv(v.enc().len())),
        ),
{
    let title = enc_prefixed(v.system_title);
    lemma_peek_split(c, title, v.ciphered.enc());
    law_length_prefixed_round_trip(c, v.system_title);
    let d = c.adv(title.len());
    law_ciphered_service_round_trip(d, v.ciphered);
    assert(d.adv(v.ciphered.enc().len()) =~= c.adv(v.enc().len()));
}

} // verus!
