//! The two ends understand each other: what a client asks reaches the server as it was
//! asked, and what the server answers reaches the client as it was answered, in the clear
//! and protected.

use vstd::prelude::*;

#[allow(unused_imports)]
use crate::axdr::data::DataV;
#[allow(unused_imports)]
use crate::client::session::{echoed_id, plain_from_server, response_of, ResponseV, SessionV};
use crate::codec::{Error, Result};
#[allow(unused_imports)]
use crate::codec::{whole, Cursor};
#[allow(unused_imports)]
use crate::security::counter::WindowV;
#[allow(unused_imports)]
use crate::security::protect::protected_by;
#[allow(unused_imports)]
use crate::security::wrap::{
    law_wrapped_opens, restores, unwrapped_by, wrapped_by, IncomingV, OutgoingV,
};
use crate::security::CryptoProvider;
#[allow(unused_imports)]
use crate::server::model::{plain_from_client, ExchangeV, ServerV};
use crate::server::store::ObjectStore;
#[allow(unused_imports)]
use crate::xdlms::apdu::ApduV;
use crate::xdlms::ids::InvokeId;
#[allow(unused_imports)]
use crate::xdlms::laws::law_apdu_round_trip;
#[allow(unused_imports)]
use crate::xdlms::result::DataAccessResult;
#[allow(unused_imports)]
use crate::xdlms::service::{GetDataResultV, GetResponseV, SetResponseV};
#[allow(unused_imports)]
use crate::xdlms::tag::{plain_of, tag_of};

verus! {

/// Whether one end can take what the other sends: both are under the same policy, and where
/// that protects anything, the receiver knows the sender, holds the same authentication
/// key and has not seen the counter, and its cryptography protects as the sender's does and
/// opens what it protects.
pub open spec fn meet<P: CryptoProvider, Q: CryptoProvider>(
    p: &P,
    out: OutgoingV,
    q: &Q,
    inc: IncomingV,
    window: WindowV,
    plain: Seq<u8>,
) -> bool {
    &&& inc.policy == out.policy
    &&& !out.policy.is_none() ==> {
        &&& out.system_title.len() == 8
        &&& inc.peer == Some(out.system_title)
        &&& inc.auth_key == out.auth_key
        &&& window.admits(out.invocation_counter)
        &&& restores(q, out, plain)
        &&& protected_by(
            q,
            out.policy,
            out.system_title,
            out.invocation_counter,
            out.auth_key->0,
            plain,
        ) == protected_by(
            p,
            out.policy,
            out.system_title,
            out.invocation_counter,
            out.auth_key->0,
            plain,
        )
    }
}

/// The window once a message under a policy has been taken.
pub open spec fn taken(window: WindowV, out: OutgoingV) -> WindowV {
    if out.policy.is_none() {
        window
    } else {
        window.with(out.invocation_counter)
    }
}

/// A server whose window has moved.
pub open spec fn moved_to<P>(s: ServerV<P>, window: WindowV) -> ServerV<P> {
    ServerV { window, ..s }
}

/// A session whose window has moved.
pub open spec fn heard_to<P>(c: SessionV<P>, window: WindowV) -> SessionV<P> {
    SessionV { window, ..c }
}

/// An APDU is never empty, and begins with the tag of a plain message.
proof fn lemma_begins_plain(apdu: ApduV)
    requires
        !(apdu is Ciphered),
    ensures
        apdu.enc().len() > 0,
        begins_plain(apdu.enc()[0]),
{
    reveal(ApduV::enc);
    reveal(tag_of);
    reveal(plain_of);
}

/// Whether a byte is the tag of a plain message.
spec fn begins_plain(b: u8) -> bool {
    tag_of(b) matches Some(t) && plain_of(t) is None && !(t is GeneralGloCiphering) && !(
    t is GeneralDedCiphering) && !(t is GeneralCiphering) && !(t is GeneralSigning)
}

/// An APDU in the clear is taken as it is.
proof fn lemma_plain_is_taken<Q: CryptoProvider>(
    q: &Q,
    inc: IncomingV,
    window: WindowV,
    apdu: ApduV,
    room: nat,
)
    requires
        inc.policy.is_none(),
        !(apdu is Ciphered),
        apdu.enc().len() <= room,
    ensures
        unwrapped_by(q, inc, window, apdu.enc(), room) == (Ok::<Seq<u8>, Error>(apdu.enc()), window),
{
    reveal(unwrapped_by);
    lemma_begins_plain(apdu);
}

/// Whatever is sent opens to what was meant.
proof fn lemma_opens<P: CryptoProvider, Q: CryptoProvider>(
    p: &P,
    out: OutgoingV,
    q: &Q,
    inc: IncomingV,
    window: WindowV,
    apdu: ApduV,
    sent: Seq<u8>,
    n: nat,
    room: nat,
)
    requires
        meet(p, out, q, inc, window, apdu.enc()),
        !(apdu is Ciphered),
        out.policy.is_none() ==> sent == apdu.enc(),
        !out.policy.is_none() ==> wrapped_by(p, out, apdu.enc(), n) == Ok::<Seq<u8>, Error>(sent),
        sent.len() <= room,
    ensures
        unwrapped_by(q, inc, window, sent, room) == (
            Ok::<Seq<u8>, Error>(apdu.enc()),
            taken(window, out),
        ),
{
    if out.policy.is_none() {
        lemma_plain_is_taken(q, inc, window, apdu, room);
    } else {
        assert(wrapped_by(q, out, apdu.enc(), n) == Ok::<Seq<u8>, Error>(sent)
            && out.payload_len(apdu.enc()) <= sent.len()) by {
            reveal(wrapped_by);
        }
        law_wrapped_opens(q, out, inc, window, apdu.enc(), n, room);
    }
}

/// What a client sends reaches the server as it was meant: where the two meet, the server
/// takes the request that was sent, and has spent its counter.
pub proof fn law_request_arrives<P: CryptoProvider, Q: CryptoProvider, S: ObjectStore>(
    c: SessionV<Q>,
    request: ApduV,
    n: nat,
    before: Seq<u8>,
    after: Seq<u8>,
    then: SessionV<Q>,
    r: Result<usize>,
    s: ServerV<P>,
    store: S,
    x: ExchangeV<P>,
    changed: S,
)
    requires
        c.sends(request, n, before, after, then, r),
        r is Ok,
        before.len() <= usize::MAX,
        request.valid(),
        !(request is Ciphered),
        c.policy.is_none() == c.config.security.is_none(),
        meet(
            &c.crypto,
            c.outgoing(),
            &s.crypto,
            s.incoming(s.policy, plain_from_client()),
            s.window,
            request.enc(),
        ),
        r->Ok_0 <= x.n,
        s.receives(store, after.take(r->Ok_0 as int), x, changed),
    ensures
        exists|w: ApduV| #[trigger]
            w.same(request) && moved_to(s, taken(s.window, c.outgoing())).serves(
                store,
                w,
                x,
                changed,
            ),
{
    let sent = c.emitted(request.enc(), before.len()).0->Ok_0;
    assert(after.take(sent.len() as int) =~= sent);
    lemma_opens(
        &c.crypto,
        c.outgoing(),
        &s.crypto,
        s.incoming(s.policy, plain_from_client()),
        s.window,
        request,
        sent,
        before.len(),
        x.n,
    );
    law_apdu_round_trip(request);
    let w = whole(ApduV::p(Cursor::start(request.enc())))->Ok_0;
    assert(w.same(request));
}

/// What a server answers reaches the client as it was meant: where the two meet, the client
/// makes of the reply what it makes of the answer that was given, and has spent its counter.
pub proof fn law_reply_arrives<P: CryptoProvider, Q: CryptoProvider>(
    s: ServerV<P>,
    answer: ApduV,
    x: ExchangeV<P>,
    c: SessionV<Q>,
    room: nat,
)
    requires
        answer.fits(),
        answer.valid(),
        !(answer is Ciphered),
        s.sends_plain(answer.enc(), x),
        x.r is Ok,
        x.before.len() <= usize::MAX,
        s.policy.is_none() == s.config.security.is_none(),
        meet(
            &s.crypto,
            s.outgoing(),
            &c.crypto,
            c.incoming(c.policy, plain_from_server()),
            c.window,
            answer.enc(),
        ),
        x.r->Ok_0 <= room,
    ensures
        exists|w: ApduV| #[trigger]
            w.same(answer) && c.handles(x.after.take(x.r->Ok_0 as int), room) == heard_to(
                c,
                taken(c.window, s.outgoing()),
            ).responds(w),
{
    let sent = x.after.take(x.r->Ok_0 as int);
    if s.policy.is_none() {
        assert(sent =~= answer.enc());
    } else {
        let w = wrapped_by(&s.crypto, s.outgoing(), answer.enc(), x.before.len())->Ok_0;
        assert(sent =~= w);
    }
    lemma_opens(
        &s.crypto,
        s.outgoing(),
        &c.crypto,
        c.incoming(c.policy, plain_from_server()),
        c.window,
        answer,
        sent,
        x.before.len(),
        room,
    );
    law_apdu_round_trip(answer);
    let w = whole(ApduV::p(Cursor::start(answer.enc())))->Ok_0;
    assert(w.same(answer));
}

/// A value that the server answers a read with is the value that the client gets, so long as
/// the read is the one that is outstanding.
pub proof fn law_value_arrives<P: CryptoProvider, Q: CryptoProvider>(
    s: ServerV<P>,
    invoke_id: InvokeId,
    value: DataV,
    x: ExchangeV<P>,
    c: SessionV<Q>,
    room: nat,
)
    requires
        value.encodable(),
        value.valid(),
        c.outstanding matches Some(want) ==> want.id() == invoke_id.id(),
        ({
            let answer = ApduV::GetResponse(
                GetResponseV::Normal { invoke_id, result: GetDataResultV::Data(value) },
            );
            &&& s.sends_plain(answer.enc(), x)
            &&& meet(
                &s.crypto,
                s.outgoing(),
                &c.crypto,
                c.incoming(c.policy, plain_from_server()),
                c.window,
                answer.enc(),
            )
        }),
        x.r is Ok,
        x.before.len() <= usize::MAX,
        s.policy.is_none() == s.config.security.is_none(),
        x.r->Ok_0 <= room,
    ensures
        c.handles(x.after.take(x.r->Ok_0 as int), room).0 matches Ok(ResponseV::Data(d)) && d.same(
            value,
        ),
{
    reveal(response_of);
    reveal(echoed_id);
    let answer = ApduV::GetResponse(
        GetResponseV::Normal { invoke_id, result: GetDataResultV::Data(value) },
    );
    law_reply_arrives(s, answer, x, c, room);
    let sent = x.after.take(x.r->Ok_0 as int);
    let w = choose|w: ApduV| #[trigger]
        w.same(answer) && c.handles(sent, room) == heard_to(
            c,
            taken(c.window, s.outgoing()),
        ).responds(w);
    assert(w.same(answer));
}

/// What the server says of a write is what the caller of the client is told: that it is done
/// exactly where the server says that it succeeded, and otherwise the reason, whether the
/// value went in one piece or in blocks.
pub proof fn law_write_outcome_arrives<P: CryptoProvider, Q: CryptoProvider>(
    s: ServerV<P>,
    invoke_id: InvokeId,
    result: DataAccessResult,
    last: Option<u32>,
    x: ExchangeV<P>,
    c: SessionV<Q>,
    room: nat,
)
    requires
        c.outstanding matches Some(want) ==> want.id() == invoke_id.id(),
        ({
            let answer = ApduV::SetResponse(
                match last {
                    None => SetResponseV::Normal { invoke_id, result },
                    Some(block_number) => SetResponseV::LastDataBlock {
                        invoke_id,
                        result,
                        block_number,
                    },
                },
            );
            &&& answer.valid()
            &&& s.sends(answer, x)
            &&& meet(
                &s.crypto,
                s.outgoing(),
                &c.crypto,
                c.incoming(c.policy, plain_from_server()),
                c.window,
                answer.enc(),
            )
        }),
        x.r is Ok,
        x.before.len() <= usize::MAX,
        s.policy.is_none() == s.config.security.is_none(),
        x.r->Ok_0 <= room,
    ensures
        c.handles(x.after.take(x.r->Ok_0 as int), room).0 == Ok::<ResponseV, Error>(
            if result is Success {
                ResponseV::Done
            } else {
                ResponseV::DataError(result)
            },
        ),
{
    reveal(response_of);
    reveal(echoed_id);
    let answer = ApduV::SetResponse(
        match last {
            None => SetResponseV::Normal { invoke_id, result },
            Some(block_number) => SetResponseV::LastDataBlock { invoke_id, result, block_number },
        },
    );
    assert(answer.fits()) by {
        reveal(ApduV::fits);
    }
    law_reply_arrives(s, answer, x, c, room);
    let sent = x.after.take(x.r->Ok_0 as int);
    let w = choose|w: ApduV| #[trigger]
        w.same(answer) && c.handles(sent, room) == heard_to(
            c,
            taken(c.window, s.outgoing()),
        ).responds(w);
    assert(w.same(answer));
    assert(w == answer);
}

} // verus!
