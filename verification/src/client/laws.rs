//! What holds of a session whatever it is asked for and whatever arrives.

use vstd::prelude::*;

use super::session::{AssociationStep, SessionState};
use crate::codec::{Error, Result};
use crate::security::CryptoProvider;
use crate::xdlms::ids::InvokeId;
#[allow(unused_imports)]
use super::blocks::{law_transfer_is_gathered, lemma_after, CollectorV, SenderV};
#[allow(unused_imports)]
use super::session::{plain_from_server, SessionV};
#[allow(unused_imports)]
use crate::security::counter::still_refuses;
#[allow(unused_imports)]
use crate::security::protect::hls_check_of;
#[allow(unused_imports)]
use crate::security::wrap::{law_refused_stays_refused, unexpected, wrapped_by};
#[allow(unused_imports)]
use crate::xdlms::apdu::ApduV;

verus! {

/// A session never sends twice under one counter: a protected message goes out under the
/// counter after the last one that was spent, and whatever else sending comes to, the
/// counter does not go back.
pub proof fn law_each_message_has_its_own_counter<P: CryptoProvider>(
    s: SessionV<P>,
    apdu: ApduV,
    n: nat,
    before: Seq<u8>,
    after: Seq<u8>,
    then: SessionV<P>,
    r: Result<usize>,
)
    requires
        s.sends(apdu, n, before, after, then, r),
        before.len() <= usize::MAX,
    ensures
        then.counter >= s.counter,
        r is Ok && !s.config.security.is_none() ==> {
            &&& then.counter == s.counter + 1
            &&& s.outgoing().invocation_counter == then.counter
            &&& wrapped_by(&s.crypto, s.outgoing(), apdu.enc(), before.len()) == Ok::<
                Seq<u8>,
                Error,
            >(after.take(r->Ok_0 as int))
        },
{
    if r is Ok {
        let w = s.emitted(apdu.enc(), before.len()).0->Ok_0;
        assert(after.take(w.len() as int) =~= w);
    }
}

/// What arrives never moves the counter that the session sends under, and a counter of the
/// server's that is refused goes on being refused.
pub proof fn law_hearing_moves_only_the_window<P: CryptoProvider>(
    s: SessionV<P>,
    apdu: Seq<u8>,
    room: nat,
)
    requires
        s.window.wf(),
    ensures
        s.handles(apdu, room).1.counter == s.counter,
        s.handles(apdu, room).1.window.wf(),
        still_refuses(s.window, s.handles(apdu, room).1.window),
        s.authenticates(apdu).1.counter == s.counter,
        s.authenticates(apdu).1.window.wf(),
        still_refuses(s.window, s.authenticates(apdu).1.window),
{
    let ctx = s.incoming(s.policy, plain_from_server());
    law_refused_stays_refused(&s.crypto, ctx, s.window, apdu, room);
    law_refused_stays_refused(&s.crypto, ctx, s.window, apdu, 512);
}

/// A session that has to authenticate the server is associated only by a proof that checks
/// against the challenge it sent, and no other message associates it.
pub proof fn law_associated_only_when_proved<P: CryptoProvider>(
    s: SessionV<P>,
    apdu: Seq<u8>,
    room: nat,
)
    requires
        s.state == SessionState::AuthenticatingHls,
    ensures
        s.handles(apdu, room).1.state != SessionState::Associated,
        s.authenticates(apdu).1.state == SessionState::Associated ==> {
            &&& s.authenticates(apdu).0 == Ok::<AssociationStep, Error>(AssociationStep::Established)
            &&& exists|answer: Seq<u8>| #[trigger]
                hls_check_of(
                    &s.crypto,
                    s.policy,
                    s.server_title->0,
                    s.crypto.auth_bytes()->0,
                    s.client_challenge,
                    answer,
                ) is Ok
        },
{
}

/// A run of calls that send the blocks of one transfer.
#[verifier::ext_equal]
#[verifier::reject_recursive_types(P)]
pub struct RunV<P> {
    /// The session before each call, and after the last.
    pub sessions: Seq<SessionV<P>>,
    /// The transfer before each call, and after the last.
    pub senders: Seq<SenderV>,
    /// The buffer of each call, before it.
    pub before: Seq<Seq<u8>>,
    /// The buffer of each call, after it.
    pub after: Seq<Seq<u8>>,
    /// What each call returned.
    pub results: Seq<Result<usize>>,
    /// The bytes that a session builds a message in.
    pub n: nat,
}

impl<P: CryptoProvider> RunV<P> {
    /// How many calls there are.
    pub open spec fn len(self) -> nat {
        self.results.len()
    }

    /// The invocation that the first call begins.
    pub open spec fn id(self) -> InvokeId {
        self.sessions[0].fresh().outstanding->0
    }

    /// The session that sends a block: the first call numbers a new invocation.
    pub open spec fn session(self, i: int) -> SessionV<P> {
        if i == 0 {
            self.sessions[0].fresh()
        } else {
            self.sessions[i]
        }
    }

    /// The request that a call sends.
    pub open spec fn request(self, i: int) -> ApduV {
        self.senders[0].after(i as nat).request(self.id())
    }

    /// Whether a call sends its block.
    pub open spec fn sent(self, i: int) -> bool {
        self.results[i] is Ok && self.session(i).sends(
            self.request(i),
            self.n,
            self.before[i],
            self.after[i],
            self.sessions[i + 1],
            self.results[i],
        )
    }

    /// Whether the message of a call finds room where it is built and in the buffer.
    pub open spec fn has_room(self, i: int) -> bool {
        &&& self.request(i).fits()
        &&& self.request(i).enc().len() <= self.n
        &&& self.session(i).emitted(self.request(i).enc(), self.before[i].len()).0 is Ok
    }

    /// Whether the calls follow each other, from the start of a transfer in an association,
    /// each while the transfer is not over and with room for its message.
    pub open spec fn wf(self) -> bool {
        let s = self.senders[0];
        &&& self.sessions.len() == self.len() + 1
        &&& self.senders.len() == self.len() + 1
        &&& self.before.len() == self.len()
        &&& self.after.len() == self.len()
        &&& self.sessions[0].state == SessionState::Associated
        &&& s.wf() && s.sent == 0 && s.block == 0 && s.count() <= u32::MAX
        &&& forall|i: int|
            0 <= i < self.len() ==> self.has_room(i) && !self.senders[i].done()
                && self.sessions[i].sends_next(
                self.senders[i],
                self.n,
                self.before[i],
                self.after[i],
                self.sessions[i + 1],
                self.senders[i + 1],
                #[trigger] self.results[i],
            )
    }
}

/// Where a run of calls is after some of them.
proof fn lemma_run<P: CryptoProvider>(run: RunV<P>, i: nat)
    requires
        run.wf(),
        i <= run.len(),
        i <= u32::MAX,
    ensures
        run.senders[i as int] == run.senders[0].after(i),
        run.sessions[i as int].state == SessionState::Associated,
        i > 0 ==> run.sessions[i as int].outstanding == Some(run.id()),
        forall|j: int| 0 <= j < i ==> #[trigger] run.sent(j),
    decreases i,
{
    if i > 0 {
        let j = i - 1;
        lemma_run(run, j as nat);
        lemma_after(run.senders[0], j as nat);
        assert(run.results[j] == run.results[j]);
        assert(run.sent(j));
    }
}

/// The blocks of a transfer carry its value: what the first so many carry is so much of it.
proof fn lemma_pieces(s: SenderV, i: nat)
    requires
        s.wf(),
        s.sent == 0,
        s.block == 0,
        i <= s.count() <= u32::MAX,
    ensures
        concat(s.pieces(i)) == s.bytes.take(s.after(i).sent as int),
    decreases i,
{
    lemma_after(s, i);
    if i > 0 {
        let j = (i - 1) as nat;
        lemma_pieces(s, j);
        lemma_after(s, j);
        assert(s.pieces(i).drop_last() =~= s.pieces(j));
        let a = s.after(j);
        assert(concat(s.pieces(i)) =~= s.bytes.take(s.after(i).sent as int));
    }
}

/// Fragments put together.
pub open spec fn concat(pieces: Seq<Seq<u8>>) -> Seq<u8>
    decreases pieces.len(),
{
    if pieces.len() == 0 {
        Seq::empty()
    } else {
        concat(pieces.drop_last()) + pieces.last()
    }
}

/// A transfer takes as many calls as it has blocks: each of them sends, all under one
/// invocation, blocks that are numbered from one, of which the last and no other is marked as
/// the last, and which together carry the value. The transfer is over after them and not
/// before, and a further call is refused and changes nothing.
pub proof fn law_transfer_takes_its_blocks<P: CryptoProvider>(run: RunV<P>)
    requires
        run.wf(),
        run.senders[run.len() as int].done(),
    ensures
        run.len() == run.senders[0].count(),
        forall|i: int| 0 <= i < run.len() ==> #[trigger] run.sent(i),
        forall|i: int|
            #![trigger run.senders[0].after(i as nat)]
            0 <= i < run.len() ==> run.senders[0].after(i as nat).next().block_number == i + 1
                && run.senders[0].after(i as nat).next().last_block == (i + 1 == run.len()),
        concat(run.senders[0].pieces(run.len())) == run.senders[0].bytes,
        forall|before: Seq<u8>, after: Seq<u8>, then: SessionV<P>, next: SenderV, r: Result<usize>|
            #[trigger]
            run.sessions[run.len() as int].sends_next(
                run.senders[run.len() as int],
                run.n,
                before,
                after,
                then,
                next,
                r,
            ) ==> r == Err::<usize, Error>(unexpected()) && then
                == run.sessions[run.len() as int] && after == before,
{
    let s = run.senders[0];
    let c = CollectorV { bytes: Seq::empty(), last: 0, capacity: s.bytes.len() };
    let k = run.len();
    assert(s.count() > 0) by {
        if s.count() == 0 && s.bytes.len() > 0 {
            vstd::arithmetic::div_mod::lemma_fundamental_div_mod(
                s.bytes.len() as int,
                s.fragment as int,
            );
            assert(s.fragment * (s.bytes.len() / s.fragment) == 0) by (nonlinear_arith)
                requires
                    s.bytes.len() / s.fragment == 0,
            ;
        }
    }
    if k < s.count() {
        law_transfer_is_gathered(s, c, k);
        lemma_run(run, k);
    } else {
        law_transfer_is_gathered(s, c, 0);
        lemma_run(run, s.count());
        if k > s.count() {
            let past = run.results[s.count() as int];
            assert(!run.senders[s.count() as int].done());
        }
    }
    assert(k == s.count());
    assert forall|i: int|
        #![trigger s.after(i as nat)]
        0 <= i < k implies s.after(i as nat).next().block_number == i + 1 && s.after(
        i as nat,
    ).next().last_block == (i + 1 == k) by {
        law_transfer_is_gathered(s, c, i as nat);
    }
    lemma_pieces(s, k);
    lemma_after(s, k);
    assert(s.after(k).sent == s.bytes.len());
    assert(s.bytes.take(s.bytes.len() as int) =~= s.bytes);
}

} // verus!
