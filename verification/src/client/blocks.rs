//! Values that take more than one APDU, in either direction.

use vstd::prelude::*;

use crate::axdr::data::Data;
use crate::codec::{Error, ErrorKind, Result};
use crate::xdlms::list::whole_list;
use crate::xdlms::apdu::Apdu;
use crate::xdlms::ids::InvokeId;
use crate::xdlms::service::{
    ActionRequest, AttributeDescriptor, AttributeDescriptorWithSelection, DataBlockSA,
    GetDataResult, MethodDescriptor, SelectiveAccess, SetRequest,
};
#[allow(unused_imports)]
use crate::axdr::data::{p_data, DataV};
#[allow(unused_imports)]
use crate::codec::{whole, Cursor};
#[allow(unused_imports)]
use crate::xdlms::list::{opt_view, p_list, views};
#[allow(unused_imports)]
use crate::xdlms::apdu::ApduV;
#[allow(unused_imports)]
use crate::xdlms::service::{
    ActionRequestV, AttributeDescriptorV, AttributeDescriptorWithSelectionV, DataBlockSAV,
    GetDataResultV, MethodDescriptorV, SelectiveAccessV, SetRequestV,
};

verus! {

/// What has been gathered.
#[verifier::ext_equal]
pub struct CollectorV {
    /// The fragments so far, joined.
    pub bytes: Seq<u8>,
    /// How many bytes there is room for.
    pub capacity: nat,
    /// The number of the last block; zero before the first.
    pub last: u32,
}

impl CollectorV {
    /// The number of the block that is expected.
    pub open spec fn expected(self) -> u32 {
        if self.last == u32::MAX {
            self.last
        } else {
            (self.last + 1) as u32
        }
    }

    /// What appending a block comes to: it has to be the one that is expected, and to fit.
    pub open spec fn pushed(self, number: u32, data: Seq<u8>) -> Result<CollectorV> {
        if number != self.expected() {
            Err(Error { kind: ErrorKind::UnexpectedMessage, offset: self.bytes.len() as usize })
        } else if self.bytes.len() + data.len() > usize::MAX {
            Err(Error { kind: ErrorKind::InvalidLength, offset: self.bytes.len() as usize })
        } else if self.bytes.len() + data.len() > self.capacity {
            Err(
                Error {
                    kind: ErrorKind::BufferTooSmall {
                        needed: (self.bytes.len() + data.len() - self.capacity) as usize,
                    },
                    offset: self.bytes.len() as usize,
                },
            )
        } else {
            Ok(CollectorV { bytes: self.bytes + data, last: number, ..self })
        }
    }

    /// What appending several blocks comes to, numbered on from the last.
    pub open spec fn gathered(self, blocks: Seq<Seq<u8>>) -> Result<CollectorV>
        decreases blocks.len(),
    {
        if blocks.len() == 0 {
            Ok(self)
        } else {
            match self.gathered(blocks.drop_last()) {
                Err(e) => Err(e),
                Ok(c) => c.pushed(c.expected(), blocks.last()),
            }
        }
    }
}

/// Gathers the fragments of a blocked response into one value.
///
/// A response too large for the negotiated PDU size arrives as a run of
/// `get-response-with-datablock` APDUs, each carrying a slice of the encoded value.
/// Only the concatenation is decodable: a fragment boundary falls wherever the server's
/// buffer ran out, which is very often in the middle of a length prefix.
///
/// The buffer is the caller's: how large a load profile may be is a property of the
/// deployment, not a decision for this crate.
#[derive(Debug)]
pub struct BlockCollector<'a> {
    buf: &'a mut [u8],
    len: usize,
    last_block: u32,
}

impl<'a> View for BlockCollector<'a> {
    type V = CollectorV;

    closed spec fn view(&self) -> CollectorV {
        CollectorV {
            bytes: if self.len <= self.buf@.len() {
                self.buf@.take(self.len as int)
            } else {
                self.buf@
            },
            capacity: self.buf@.len(),
            last: self.last_block,
        }
    }
}

impl<'a> BlockCollector<'a> {
    /// A collector filling `buf`.
    ///
    /// `buf` must be large enough for the whole encoded value; the largest attribute a
    /// meter will return is a profile buffer, and its size is a property of the meter
    /// rather than of the protocol.
    #[must_use]
    pub fn new(buf: &'a mut [u8]) -> (c: Self)
        ensures
            c@ == (CollectorV { bytes: Seq::empty(), capacity: old(buf)@.len(), last: 0 }),
    {
        let c = BlockCollector { buf, len: 0, last_block: 0 };
        assert(c@.bytes =~= Seq::<u8>::empty());
        c
    }

    /// Append one block.
    ///
    /// Block numbers must arrive consecutively from one. That check is not bookkeeping:
    /// a duplicated or reordered fragment concatenated in the wrong place produces a
    /// byte string that very often still *decodes*, into a value that is simply wrong —
    /// a meter reading no error ever attaches to.
    ///
    /// # Errors
    /// [`ErrorKind::UnexpectedMessage`] when `block_number` is not the one expected;
    /// [`ErrorKind::BufferTooSmall`] when the value does not fit.
    pub fn push(&mut self, block_number: u32, data: &[u8]) -> (r: Result<()>)
        ensures
            match r {
                Ok(_) => old(self)@.pushed(block_number, data@) == Ok::<CollectorV, Error>(
                    final(self)@,
                ),
                Err(e) => old(self)@.pushed(block_number, data@) == Err::<CollectorV, Error>(e)
                    && final(self)@ == old(self)@,
            },
    {
        let at: usize = self.len();
        if block_number != self.last_block.saturating_add(1) {
            return Err(Error::new(ErrorKind::UnexpectedMessage, at));
        }
        let end: usize = match at.checked_add(data.len()) {
            Some(e) => e,
            None => {
                return Err(Error::new(ErrorKind::InvalidLength, at));
            },
        };
        let capacity: usize = self.buf.len();
        if end > capacity {
            return Err(Error::new(ErrorKind::BufferTooSmall { needed: end - capacity }, at));
        }
        let mut i: usize = 0;
        while i < data.len()
            invariant
                i <= data@.len(),
                at + data@.len() == end <= self.buf@.len(),
                self.buf@.len() == old(self).buf@.len(),
                forall|k: int| 0 <= k < at ==> self.buf@[k] == old(self).buf@[k],
                forall|k: int| 0 <= k < i ==> self.buf@[at + k] == data@[k],
            decreases data@.len() - i,
        {
            self.buf[at + i] = data[i];
            i += 1;
        }
        self.len = end;
        self.last_block = block_number;
        assert(self@.bytes =~= old(self)@.bytes + data@);
        Ok(())
    }

    /// The number of the last block accepted; zero before the first.
    ///
    /// This is what [`ClientSession::get_next_block_request`] acknowledges.
    ///
    /// [`ClientSession::get_next_block_request`]: super::ClientSession::get_next_block_request
    #[must_use]
    pub fn last_block(&self) -> (n: u32)
        ensures
            n == self@.last,
    {
        self.last_block
    }

    /// How many bytes have been gathered.
    #[must_use]
    pub fn len(&self) -> (n: usize)
        ensures
            n == self@.bytes.len(),
    {
        if self.len < self.buf.len() {
            self.len
        } else {
            self.buf.len()
        }
    }

    /// True before any block has been pushed.
    #[must_use]
    pub fn is_empty(&self) -> (r: bool)
        ensures
            r == (self@.bytes.len() == 0),
    {
        self.len() == 0
    }

    /// The bytes gathered so far.
    #[must_use]
    pub fn bytes(&self) -> (s: &[u8])
        ensures
            s@ == self@.bytes,
    {
        let s: &[u8] = vstd::slice::slice_subrange(&*self.buf, 0, self.len());
        assert(s@ =~= self@.bytes);
        s
    }

    /// Decode what has been gathered.
    ///
    /// # Errors
    /// Whatever decoding the value returns — including [`ErrorKind::Truncated`] if this
    /// is called before the last block has arrived.
    pub fn value(&self) -> (r: Result<Data<'_>>)
        ensures
            match r {
                Ok(v) => whole(p_data(Cursor::start(self@.bytes), 0)) == Ok::<DataV, Error>(v@),
                Err(e) => whole(p_data(Cursor::start(self@.bytes), 0)) == Err::<DataV, Error>(e),
            },
    {
        Data::from_bytes_in(self.bytes())
    }

    /// Decode what has been gathered as the result list of a `get-request-with-list`.
    ///
    /// A blocked response carries the encoded body of whichever response form it is, so
    /// the fragments of a list read reassemble into a list rather than into a value.
    /// Calling the wrong one of this and [`BlockCollector::value`] is a decode error,
    /// not a wrong answer.
    ///
    /// # Errors
    /// Whatever decoding the list returns.
    pub fn results(&self) -> (r: Result<Vec<GetDataResult<'_>>>)
        ensures
            match r {
                Ok(v) => whole(p_list::<GetDataResult>(Cursor::start(self@.bytes))) == Ok::<
                    Seq<GetDataResultV>,
                    Error,
                >(views(v@)),
                Err(e) => whole(p_list::<GetDataResult>(Cursor::start(self@.bytes))) == Err::<
                    Seq<GetDataResultV>,
                    Error,
                >(e),
            },
    {
        whole_list(self.bytes())
    }

    /// Forget everything, ready for another read into the same buffer.
    pub fn reset(&mut self)
        ensures
            final(self)@ == (CollectorV { bytes: Seq::empty(), last: 0, ..old(self)@ }),
    {
        self.len = 0;
        self.last_block = 0;
        assert(self@.bytes =~= Seq::<u8>::empty());
    }
}

/// Which service a transfer feeds.
#[verifier::ext_equal]
pub enum TargetV {
    /// A write of one attribute.
    Attribute {
        /// Which attribute.
        descriptor: AttributeDescriptorV,
        /// Which part of it.
        access: Option<SelectiveAccessV>,
    },
    /// An invocation.
    Method(MethodDescriptorV),
    /// A write of several attributes.
    AttributeList(Seq<AttributeDescriptorWithSelectionV>),
}

/// A transfer that is under way.
#[verifier::ext_equal]
pub struct SenderV {
    /// What it feeds.
    pub target: TargetV,
    /// The whole value.
    pub bytes: Seq<u8>,
    /// How much of it has gone out.
    pub sent: nat,
    /// The number of the last block; zero before the first.
    pub block: u32,
    /// How much of it one block carries.
    pub fragment: nat,
}

impl SenderV {
    /// Whether it is one that can be carried out: a fragment of nothing would never finish.
    pub open spec fn wf(self) -> bool {
        self.fragment > 0 && self.sent <= self.bytes.len() <= usize::MAX
    }

    /// Whether every block has gone out.
    pub open spec fn done(self) -> bool {
        self.block > 0 && self.sent >= self.bytes.len()
    }

    /// Where the next fragment ends.
    pub open spec fn end(self) -> nat {
        if self.sent + self.fragment < self.bytes.len() {
            self.sent + self.fragment
        } else {
            self.bytes.len()
        }
    }

    /// The next block.
    pub open spec fn next(self) -> DataBlockSAV {
        DataBlockSAV {
            last_block: self.end() == self.bytes.len(),
            block_number: if self.block == u32::MAX {
                self.block
            } else {
                (self.block + 1) as u32
            },
            raw_data: self.bytes.subrange(self.sent as int, self.end() as int),
        }
    }

    /// The transfer once the next block has gone out.
    pub open spec fn advanced(self) -> SenderV {
        SenderV { sent: self.end(), block: self.next().block_number, ..self }
    }

    /// The request that carries the next block. The first names what is written or invoked.
    pub open spec fn request(self, invoke_id: InvokeId) -> ApduV {
        let block = self.next();
        match self.target {
            TargetV::Attribute { descriptor, access } => ApduV::SetRequest(
                if self.block == 0 {
                    SetRequestV::WithFirstDataBlock { invoke_id, descriptor, access, block }
                } else {
                    SetRequestV::WithDataBlock { invoke_id, block }
                },
            ),
            TargetV::Method(descriptor) => ApduV::ActionRequest(
                if self.block == 0 {
                    ActionRequestV::WithFirstPblock { invoke_id, descriptor, block }
                } else {
                    ActionRequestV::WithPblock { invoke_id, block }
                },
            ),
            TargetV::AttributeList(descriptors) => ApduV::SetRequest(
                if self.block == 0 {
                    SetRequestV::WithListAndFirstDataBlock { invoke_id, descriptors, block }
                } else {
                    SetRequestV::WithDataBlock { invoke_id, block }
                },
            ),
        }
    }

    /// How many blocks a value takes. An empty value is still one block: it has to be sent
    /// for the server to learn that it is the last one.
    pub open spec fn count(self) -> nat {
        if self.bytes.len() == 0 {
            1
        } else {
            self.bytes.len() / self.fragment + (if self.bytes.len() % self.fragment == 0 {
                0nat
            } else {
                1nat
            })
        }
    }

    /// The transfer after so many blocks.
    pub open spec fn after(self, n: nat) -> SenderV
        decreases n,
    {
        if n == 0 {
            self
        } else {
            self.after((n - 1) as nat).advanced()
        }
    }

    /// What the first so many blocks carry.
    pub open spec fn pieces(self, n: nat) -> Seq<Seq<u8>> {
        Seq::new(n, |i: int| self.after(i as nat).next().raw_data)
    }
}

/// Which service a [`BlockSender`] is feeding.
#[derive(Debug)]
#[allow(missing_docs)]
pub enum BlockTarget<'a> {
    /// A SET: the first block carries the attribute descriptor and any selector.
    Attribute { descriptor: AttributeDescriptor, access: Option<SelectiveAccess<'a>> },
    /// An ACTION: the first block carries the method descriptor.
    Method(MethodDescriptor),
    /// A batched SET: the first block carries the whole attribute list.
    AttributeList(Vec<AttributeDescriptorWithSelection<'a>>),
}

impl<'a> View for BlockTarget<'a> {
    type V = TargetV;

    open spec fn view(&self) -> TargetV {
        match *self {
            BlockTarget::Attribute { descriptor, access } => TargetV::Attribute {
                descriptor: descriptor@,
                access: opt_view(access),
            },
            BlockTarget::Method(descriptor) => TargetV::Method(descriptor@),
            BlockTarget::AttributeList(list) => TargetV::AttributeList(views(list@)),
        }
    }
}

/// A value going out block by block, because it is larger than one APDU can carry.
///
/// The mirror of [`BlockCollector`]: that one gathers a long *response*, this one emits a
/// long *request*. The bytes stay the caller's in both directions, for the same reason —
/// how large a value a deployment writes is a property of the deployment, and a session
/// that buffered it would put a ceiling on it that nothing in the standard has.
///
/// Every block of one transfer carries the same invoke id, which the session keeps.
#[derive(Debug)]
pub struct BlockSender<'a> {
    target: BlockTarget<'a>,
    bytes: &'a [u8],
    sent: usize,
    block: u32,
    fragment: usize,
}

impl<'a> View for BlockSender<'a> {
    type V = SenderV;

    closed spec fn view(&self) -> SenderV {
        SenderV {
            target: self.target@,
            bytes: self.bytes@,
            sent: self.sent as nat,
            block: self.block,
            fragment: self.fragment as nat,
        }
    }
}

impl<'a> Clone for BlockTarget<'a> {
    fn clone(&self) -> (r: Self)
        ensures
            r@ == self@,
    {
        match self {
            BlockTarget::Attribute { descriptor, access } => BlockTarget::Attribute {
                descriptor: *descriptor,
                access: *access,
            },
            BlockTarget::Method(descriptor) => BlockTarget::Method(*descriptor),
            BlockTarget::AttributeList(list) => BlockTarget::AttributeList(
                copied(list.as_slice()),
            ),
        }
    }
}

impl<'a> Clone for BlockSender<'a> {
    fn clone(&self) -> (r: Self)
        ensures
            r@ == self@,
    {
        proof {
            use_type_invariant(self);
        }
        BlockSender {
            target: self.target.clone(),
            bytes: self.bytes,
            sent: self.sent,
            block: self.block,
            fragment: self.fragment,
        }
    }
}

impl<'a> BlockSender<'a> {
    #[verifier::type_invariant]
    closed spec fn inv(self) -> bool {
        self.fragment > 0 && self.sent <= self.bytes@.len()
    }

    /// A transfer that has not begun.
    pub(super) fn new(target: BlockTarget<'a>, bytes: &'a [u8], fragment: usize) -> (s: Self)
        requires
            fragment > 0,
        ensures
            s@ == (SenderV {
                target: target@,
                bytes: bytes@,
                sent: 0,
                block: 0,
                fragment: fragment as nat,
            }),
    {
        BlockSender { target, bytes, sent: 0, block: 0, fragment }
    }

    /// True when every block has gone out.
    #[must_use]
    pub fn is_done(&self) -> (r: bool)
        ensures
            r == self@.done(),
    {
        self.block > 0 && self.sent >= self.bytes.len()
    }

    /// How many bytes are still to go.
    #[must_use]
    pub fn remaining(&self) -> (n: usize)
        ensures
            self@.wf(),
            n == self@.bytes.len() - self@.sent,
    {
        proof {
            use_type_invariant(self);
        }
        self.bytes.len() - self.sent
    }

    /// The number of the last block emitted; zero before the first.
    #[must_use]
    pub fn block(&self) -> (n: u32)
        ensures
            n == self@.block,
    {
        self.block
    }

    /// How many blocks this transfer will take in total.
    #[must_use]
    pub fn blocks(&self) -> (n: usize)
        ensures
            n == self@.count(),
    {
        proof {
            use_type_invariant(self);
        }
        let len: usize = self.bytes.len();
        if len == 0 {
            return 1;
        }
        let whole: usize = len / self.fragment;
        if len % self.fragment == 0 {
            whole
        } else {
            proof {
                lemma_part(len as nat, self.fragment as nat);
            }
            whole + 1
        }
    }

    /// Where the next fragment ends.
    fn end(&self) -> (end: usize)
        ensures
            self@.wf(),
            end == self@.end(),
            self@.sent <= end <= self@.bytes.len(),
    {
        proof {
            use_type_invariant(self);
        }
        if self.fragment < self.bytes.len() - self.sent {
            self.sent + self.fragment
        } else {
            self.bytes.len()
        }
    }

    /// The next block.
    pub(super) fn next(&self) -> (b: DataBlockSA<'a>)
        ensures
            b@ == self@.next(),
    {
        let end: usize = self.end();
        DataBlockSA {
            last_block: end == self.bytes.len(),
            block_number: self.block.saturating_add(1),
            raw_data: vstd::slice::slice_subrange(self.bytes, self.sent, end),
        }
    }

    /// The request that carries the next block.
    pub(super) fn request(&self, invoke_id: InvokeId) -> (a: Apdu<'a>)
        ensures
            a@ == self@.request(invoke_id),
    {
        let block = self.next();
        let first = self.block == 0;
        match &self.target {
            BlockTarget::Attribute { descriptor, access } => Apdu::SetRequest(
                if first {
                    SetRequest::WithFirstDataBlock {
                        invoke_id,
                        descriptor: *descriptor,
                        access: *access,
                        block,
                    }
                } else {
                    SetRequest::WithDataBlock { invoke_id, block }
                },
            ),
            BlockTarget::Method(descriptor) => Apdu::ActionRequest(
                if first {
                    ActionRequest::WithFirstPblock { invoke_id, descriptor: *descriptor, block }
                } else {
                    ActionRequest::WithPblock { invoke_id, block }
                },
            ),
            BlockTarget::AttributeList(list) => Apdu::SetRequest(
                if first {
                    SetRequest::WithListAndFirstDataBlock {
                        invoke_id,
                        descriptors: copied(list.as_slice()),
                        block,
                    }
                } else {
                    SetRequest::WithDataBlock { invoke_id, block }
                },
            ),
        }
    }

    /// Note that the next block has gone out.
    pub(super) fn advance(&mut self)
        ensures
            final(self)@ == old(self)@.advanced(),
    {
        let end: usize = self.end();
        self.sent = end;
        self.block = self.block.saturating_add(1);
    }
}

/// The same values, in a list of their own.
pub(super) fn copied<T: Copy>(s: &[T]) -> (v: Vec<T>)
    ensures
        v@ == s@,
{
    let mut v: Vec<T> = Vec::new();
    let mut i: usize = 0;
    while i < s.len()
        invariant
            i <= s@.len(),
            v@ == s@.take(i as int),
        decreases s@.len() - i,
    {
        v.push(s[i]);
        i += 1;
        assert(v@ =~= s@.take(i as int));
    }
    assert(v@ =~= s@);
    v
}

/// A number with a part left over is more than its quotient.
proof fn lemma_part(len: nat, fragment: nat)
    requires
        fragment > 0,
        len % fragment != 0,
    ensures
        len / fragment < len,
{
    vstd::arithmetic::div_mod::lemma_fundamental_div_mod(len as int, fragment as int);
    assert(len / fragment < len) by (nonlinear_arith)
        requires
            len == fragment * (len / fragment) + len % fragment,
            fragment > 0,
            len % fragment > 0,
            len / fragment >= 0,
    ;
}

/// How far a transfer has come after so many blocks.
pub proof fn lemma_after(s: SenderV, n: nat)
    requires
        s.wf(),
        s.sent == 0,
        s.block == 0,
        n <= u32::MAX,
    ensures
        s.after(n).block == n,
        s.after(n).bytes == s.bytes,
        s.after(n).fragment == s.fragment,
        s.after(n).target == s.target,
        s.after(n).sent == (if n * s.fragment < s.bytes.len() {
            n * s.fragment
        } else {
            s.bytes.len()
        }),
    decreases n,
{
    if n > 0 {
        lemma_after(s, (n - 1) as nat);
        assert(n * s.fragment == (n - 1) * s.fragment + s.fragment) by (nonlinear_arith);
    } else {
        assert(n * s.fragment == 0) by (nonlinear_arith)
            requires
                n == 0,
        ;
    }
}

/// The count is what it takes to have sent everything, and no more.
proof fn lemma_count(s: SenderV, n: nat)
    requires
        s.wf(),
    ensures
        n >= s.count() ==> n * s.fragment >= s.bytes.len(),
        0 < n < s.count() ==> n * s.fragment < s.bytes.len(),
{
    let len = s.bytes.len();
    let f = s.fragment;
    let q = len / f;
    vstd::arithmetic::div_mod::lemma_fundamental_div_mod(len as int, f as int);
    if n >= s.count() {
        assert(n * f >= len) by (nonlinear_arith)
            requires
                len == f * q + len % f,
                len % f < f,
                f > 0,
                n >= q + (if len % f == 0 {
                    0int
                } else {
                    1
                }) || len == 0,
        ;
    } else if 0 < n {
        assert(n * f < len) by (nonlinear_arith)
            requires
                len == f * q + len % f,
                0 <= len % f,
                f > 0,
                n < q + (if len % f == 0 {
                    0int
                } else {
                    1
                }),
        ;
    }
}

/// What has been gathered after so many blocks.
proof fn lemma_gathered(s: SenderV, c: CollectorV, n: nat)
    requires
        s.wf(),
        s.sent == 0,
        s.block == 0,
        c.bytes.len() == 0,
        c.last == 0,
        s.bytes.len() <= c.capacity,
        n <= u32::MAX,
    ensures
        c.gathered(s.pieces(n)) == Ok::<CollectorV, Error>(
            CollectorV {
                bytes: s.bytes.take(s.after(n).sent as int),
                last: n as u32,
                capacity: c.capacity,
            },
        ),
    decreases n,
{
    lemma_after(s, n);
    if n > 0 {
        let m = (n - 1) as nat;
        lemma_gathered(s, c, m);
        lemma_after(s, m);
        assert(s.pieces(n).drop_last() =~= s.pieces(m));
        let before = s.after(m);
        assert(n * s.fragment == m * s.fragment + s.fragment) by (nonlinear_arith)
            requires
                n == m + 1,
        ;
        assert(s.bytes.take(before.sent as int) + before.next().raw_data =~= s.bytes.take(
            before.end() as int,
        ));
    } else {
        assert(c.bytes =~= s.bytes.take(0));
    }
}

/// What one end sends block by block, the other gathers into the same value: the blocks of
/// a transfer are numbered from one, the last of them and no other is marked as the last,
/// and a collector that has room for the value holds it once it has taken them all.
pub proof fn law_transfer_is_gathered(s: SenderV, c: CollectorV, i: nat)
    requires
        s.wf(),
        s.sent == 0,
        s.block == 0,
        s.count() <= u32::MAX,
        c.bytes.len() == 0,
        c.last == 0,
        s.bytes.len() <= c.capacity,
        i < s.count(),
    ensures
        !s.after(i).done(),
        s.after(s.count()).done(),
        s.after(i).next().block_number == i + 1,
        s.after(i).next().last_block == (i + 1 == s.count()),
        s.after(i).next().raw_data.len() <= s.fragment,
        c.gathered(s.pieces(s.count())) == Ok::<CollectorV, Error>(
            CollectorV { bytes: s.bytes, last: s.count() as u32, capacity: c.capacity },
        ),
{
    lemma_after(s, i);
    lemma_after(s, s.count());
    lemma_after(s, i + 1);
    lemma_count(s, i);
    lemma_count(s, i + 1);
    lemma_count(s, s.count());
    lemma_gathered(s, c, s.count());
    assert(s.count() > 0) by {
        lemma_count(s, 0);
        assert(0 * s.fragment == 0) by (nonlinear_arith);
    }
    assert((i + 1) * s.fragment == i * s.fragment + s.fragment) by (nonlinear_arith);
    assert(s.bytes.take(s.bytes.len() as int) =~= s.bytes);
    if i == 0 {
        assert(i * s.fragment == 0) by (nonlinear_arith)
            requires
                i == 0,
        ;
    }
}

} // verus!
