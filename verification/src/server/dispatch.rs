//! From an APDU to the service that answers it.

use vstd::prelude::*;

use super::store::ObjectStore;
use super::{Server, ServerState};
use crate::codec::{Decode, ErrorKind, Result};
use crate::security::CryptoProvider;
use crate::xdlms::apdu::Apdu;
use crate::xdlms::result::{ServiceError, StateError};
use crate::xdlms::tag::ApduTag;
#[allow(unused_imports)]
use super::model::{counter_exception_v, expected_next, plain_from_client, ExchangeV, ServerV};
#[allow(unused_imports)]
use crate::codec::{whole, Cursor};
#[allow(unused_imports)]
use crate::security::wrap::unwrapped_by;
#[allow(unused_imports)]
use crate::xdlms::apdu::ApduV;
#[allow(unused_imports)]
use crate::xdlms::tag::tag_of;

verus! {

impl<P: CryptoProvider> ServerV<P> {
    /// What a plain request comes to.
    pub open spec fn serves<S: ObjectStore>(
        self,
        store: S,
        request: ApduV,
        x: ExchangeV<P>,
        after: S,
    ) -> bool {
        match request {
            ApduV::GetRequest(req) => self.gets(store, req, x, after),
            ApduV::SetRequest(req) => self.sets(store, req, x, after),
            ApduV::ActionRequest(req) => self.acts(store, req, x, after),
            ApduV::AccessRequest(req) => self.accesses(store, req, x, after),
            ApduV::ReadRequest(req) => self.reads_short(store, req, x, after),
            ApduV::WriteRequest(req) => self.writes_short(
                store,
                req.specification,
                req.values,
                true,
                x,
                after,
            ),
            ApduV::UnconfirmedWriteRequest(req) => self.writes_short(
                store,
                req.specification,
                req.values,
                false,
                x,
                after,
            ),
            _ => after == store && self.not_supported(x),
        }
    }

    /// What a request comes to whose protection has been removed, or could not be. A counter
    /// that was seen before is answered with the one that is expected next.
    pub open spec fn answers<S: ObjectStore>(
        self,
        store: S,
        opened: Result<Seq<u8>>,
        x: ExchangeV<P>,
        after: S,
    ) -> bool {
        match opened {
            Err(e) => {
                &&& after == store
                &&& if e.kind is Replay {
                    let refusal = counter_exception_v(expected_next(self.window));
                    self.writes(refusal.enc(), refusal.fits(), x)
                } else if e.kind is BufferTooSmall {
                    self.excepts(StateError::ServiceNotAllowed, ServiceError::PduTooLong, x)
                } else {
                    self.excepts(StateError::ServiceNotAllowed, ServiceError::DecipheringError, x)
                }
            },
            Ok(plain) => match whole(ApduV::p(Cursor::start(plain))) {
                Err(_) => after == store && self.not_supported(x),
                Ok(request) => self.serves(store, request, x, after),
            },
        }
    }

    /// What an APDU comes to in an association.
    pub open spec fn receives<S: ObjectStore>(
        self,
        store: S,
        apdu: Seq<u8>,
        x: ExchangeV<P>,
        after: S,
    ) -> bool {
        let (opened, window) = unwrapped_by(
            &self.crypto,
            self.incoming(self.policy, plain_from_client()),
            self.window,
            apdu,
            x.n,
        );
        ServerV { window, ..self }.answers(store, opened, x, after)
    }

    /// What an APDU comes to. One longer than the server takes is refused before it is read,
    /// and so is one without a tag that the server knows; an AARQ or an RLRQ is taken in any
    /// state, and everything else only in an association.
    pub open spec fn handles<S: ObjectStore>(
        self,
        store: S,
        apdu: Seq<u8>,
        x: ExchangeV<P>,
        after: S,
    ) -> bool {
        if apdu.len() > self.config.max_pdu_size {
            after == store && self.excepts(
                StateError::ServiceNotAllowed,
                ServiceError::PduTooLong,
                x,
            )
        } else {
            match tag_of(if apdu.len() == 0 {
                0u8
            } else {
                apdu[0]
            }) {
                None => after == store && self.not_supported(x),
                Some(ApduTag::Aarq) => self.called(apdu, store, x, after),
                Some(ApduTag::ReleaseRequest) => self.ends(apdu, store, x, after),
                Some(_) => if self.state is Associated || self.state is AwaitingHlsReply {
                    self.receives(store, apdu, x, after)
                } else {
                    after == store && self.not_possible(x)
                },
            }
        }
    }
}

impl<S: ObjectStore, P: CryptoProvider, const N: usize> Server<S, P, N> {
    fn serve(&mut self, request: Apdu<'_>, out: &mut [u8]) -> (r: Result<usize>)
        ensures
            old(self)@.serves(
                old(self).objects(),
                request@,
                ExchangeV {
                    n: N as nat,
                    before: old(out)@,
                    after: final(out)@,
                    next: final(self)@,
                    r,
                },
                final(self).objects(),
            ),
    {
        match request {
            Apdu::GetRequest(req) => self.handle_get(req, out),
            Apdu::SetRequest(req) => self.handle_set(req, out),
            Apdu::ActionRequest(req) => self.handle_action(req, out),
            Apdu::AccessRequest(req) => self.handle_access(&req, out),
            Apdu::ReadRequest(req) => self.handle_read(&req, out),
            Apdu::WriteRequest(req) => self.handle_write(
                req.specification.as_slice(),
                req.values.as_slice(),
                true,
                out,
            ),
            Apdu::UnconfirmedWriteRequest(req) => self.handle_write(
                req.specification.as_slice(),
                req.values.as_slice(),
                false,
                out,
            ),
            _ => self.not_supported(out),
        }
    }

    fn receive(&mut self, apdu: &[u8], out: &mut [u8]) -> (r: Result<usize>)
        ensures
            old(self)@.receives(
                old(self).objects(),
                apdu@,
                ExchangeV {
                    n: N as nat,
                    before: old(out)@,
                    after: final(out)@,
                    next: final(self)@,
                    r,
                },
                final(self).objects(),
            ),
    {
        // Anything that goes wrong removing protection is a `deciphering-error`, which is
        // the code there is for it. Returning an `Err` instead makes the caller invent an
        // answer, and the two cases it would invent for — a plaintext APDU arriving in a
        // ciphered association, and a replayed counter — are the two a client most needs
        // told about by name.
        let plain = match self.unprotect(apdu) {
            Ok(p) => p,
            Err(e) => {
                if e.kind == ErrorKind::Replay {
                    // A replay is not a forgery: the frame really was sent under the real
                    // key, and the commonest cause is a peer that restarted from a stale
                    // counter rather than an attacker. The refusal carries the value
                    // expected next, so the peer can resynchronise deliberately instead of
                    // guessing upwards — and a client that treats it as an ordinary
                    // deciphering error will retry the same frame forever.
                    let expected: u32 = self.peer_replay.expected_next();
                    return self.counter_exception(expected, out);
                }
                let service = if matches!(e.kind, ErrorKind::BufferTooSmall { .. }) {
                    ServiceError::PduTooLong
                } else {
                    ServiceError::DecipheringError
                };
                return self.exception(StateError::ServiceNotAllowed, service, out);
            },
        };
        assert(Apdu::parse(Cursor::start(plain@)) == ApduV::p(Cursor::start(plain@)));
        match Apdu::from_bytes(plain.as_slice()) {
            Ok(request) => self.serve(request, out),
            Err(_) => self.not_supported(out),
        }
    }

    /// Handle one APDU and produce the reply.
    ///
    /// Returns how many bytes of `out` the reply uses, or zero when there is nothing to
    /// say.
    ///
    /// # Errors
    /// Only for a malformed APDU or an output buffer too small. A *refused* request is
    /// not an error: it is an exception response, and the caller sends it.
    pub fn handle(&mut self, apdu: &[u8], out: &mut [u8]) -> (r: Result<usize>)
        ensures
            old(self)@.handles(
                old(self).objects(),
                apdu@,
                ExchangeV {
                    n: N as nat,
                    before: old(out)@,
                    after: final(out)@,
                    next: final(self)@,
                    r,
                },
                final(self).objects(),
            ),
    {
        // The server told the client how much it would accept; a client that ignores
        // that is refused here rather than part-way through a decode.
        if apdu.len() > self.config.max_pdu_size as usize {
            // There is a code for exactly this, and it tells the client what to do about
            // it — shrink and try again — where a generic refusal does not.
            return self.exception(StateError::ServiceNotAllowed, ServiceError::PduTooLong, out);
        }
        let tag_byte: u8 = if apdu.len() == 0 {
            0
        } else {
            apdu[0]
        };
        match ApduTag::from_u8(tag_byte) {
            None => self.not_supported(out),
            Some(ApduTag::Aarq) => self.handle_aarq(apdu, out),
            Some(ApduTag::ReleaseRequest) => self.handle_release(apdu, out),
            Some(_) => {
                if self.state != ServerState::Associated && self.state
                    != ServerState::AwaitingHlsReply {
                    return self.not_possible(out);
                }
                self.receive(apdu, out)
            },
        }
    }
}

} // verus!
