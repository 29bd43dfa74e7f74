//! The requests a session builds once the association is open.

use vstd::prelude::*;

use super::blocks::{copied, BlockSender, BlockTarget};
use super::session::ClientSession;
use crate::axdr::data::Data;
use crate::bytes::copy_into;
use crate::codec::{BoundedWriter, Encode, Error, ErrorKind, Result, Writer};
use crate::cosem::class::InterfaceClass;
use crate::obis::Obis;
use crate::security::CryptoProvider;
use crate::xdlms::apdu::Apdu;
use crate::xdlms::ids::OptionalDateTime;
use crate::xdlms::initiate::Conformance;
use crate::xdlms::list::{write_items, write_run, Wire};
use crate::xdlms::service::{
    AccessRequest, AccessRequestSpecification, ActionRequest, AttributeDescriptor,
    AttributeDescriptorWithSelection, GetRequest, MethodDescriptor, ReadRequest, SelectiveAccess,
    SetRequest, UnconfirmedWriteRequest, VariableAccess, WriteRequest, MAX_ACCESS_ITEMS,
};
#[allow(unused_imports)]
use super::blocks::TargetV;
#[allow(unused_imports)]
use super::session::DraftV;
#[allow(unused_imports)]
use crate::axdr::data::DataV;
#[allow(unused_imports)]
use crate::codec::{lemma_stopped, lemma_then, not_built};
#[allow(unused_imports)]
use crate::xdlms::apdu::ApduV;
#[allow(unused_imports)]
use crate::xdlms::ids::LongInvokeId;
#[allow(unused_imports)]
use crate::xdlms::list::{enc_list, enc_run, fits_list, fits_run, opt_view, views};
#[allow(unused_imports)]
use crate::xdlms::service::{
    AccessRequestSpecificationV, AccessRequestV, ActionRequestV, AttributeDescriptorV,
    AttributeDescriptorWithSelectionV, GetRequestV, MethodDescriptorV, SelectiveAccessV,
    SetRequestV, UnconfirmedWriteRequestV, VariableAccessV, WriteRequestV,
};

verus! {

/// Whether any of the attributes is read or written in part.
pub open spec fn any_selected(list: Seq<AttributeDescriptorWithSelectionV>) -> bool {
    exists|i: int| 0 <= i < list.len() && (#[trigger] list[i]).access is Some
}

/// What selective access needs of the server, where it is used.
pub open spec fn selection(used: bool) -> Seq<Conformance> {
    if used {
        seq![Conformance::SELECTIVE_ACCESS()]
    } else {
        Seq::empty()
    }
}

/// Two lists, one behind the other: their encoding, and whether there is one.
pub open spec fn together<'a, A: Wire<'a>, B: Wire<'a>>(a: Seq<A::V>, b: Seq<B::V>) -> DraftV {
    DraftV {
        bytes: enc_run::<A>(a) + enc_run::<B>(b),
        ok: fits_run::<A>(a) && fits_run::<B>(b),
    }
}

/// A list: its encoding, and whether there is one.
pub open spec fn alone<'a, A: Wire<'a>>(a: Seq<A::V>) -> DraftV {
    DraftV { bytes: enc_run::<A>(a), ok: fits_run::<A>(a) }
}

fn build_one<'a, A: Wire<'a>>(a: &[A], n: usize) -> (r: Result<()>)
    ensures
        alone::<A>(views(a@)).tried(n as nat, r),
{
    let mut w = BoundedWriter::new(n);
    write_run(&mut w, a)
}

fn build_two<'a, A: Wire<'a>, B: Wire<'a>>(a: &[A], b: &[B], n: usize) -> (r: Result<()>)
    ensures
        together::<A, B>(views(a@), views(b@)).tried(n as nat, r),
{
    let mut w = BoundedWriter::new(n);
    let ghost w0 = w.sink();
    let ghost x = enc_run::<A>(views(a@));
    let ghost y = enc_run::<B>(views(b@));
    match write_run(&mut w, a) {
        Ok(_) => {},
        Err(e) => {
            proof {
                lemma_stopped(
                    w0,
                    w.sink(),
                    x,
                    x + y,
                    fits_run::<A>(views(a@)),
                    fits_run::<A>(views(a@)) && fits_run::<B>(views(b@)),
                    e,
                );
            }
            return Err(e);
        },
    }
    let ghost w1 = w.sink();
    let r = write_run(&mut w, b);
    proof {
        lemma_then(w0, w1, w.sink(), x, y, fits_run::<B>(views(b@)), r);
    }
    r
}

fn selects(items: &[AttributeDescriptorWithSelection<'_>]) -> (r: bool)
    ensures
        r == any_selected(views(items@)),
{
    let ghost all = views(items@);
    let mut i: usize = 0;
    while i < items.len()
        invariant
            i <= items@.len(),
            all == views(items@),
            forall|k: int| 0 <= k < i ==> (#[trigger] all[k]).access is None,
        decreases items@.len() - i,
    {
        if items[i].access.is_some() {
            assert(all[i as int].access is Some);
            return true;
        }
        assert(all[i as int].access is None);
        i += 1;
    }
    false
}

/// One operation of an access request.
#[verifier::ext_equal]
#[allow(inconsistent_fields)]
pub enum AccessItemV {
    /// Read an attribute.
    Get {
        /// Which attribute.
        descriptor: AttributeDescriptorV,
        /// Which part of it.
        access: Option<SelectiveAccessV>,
    },
    /// Write an attribute.
    Write {
        /// Which attribute.
        descriptor: AttributeDescriptorV,
        /// Which part of it.
        access: Option<SelectiveAccessV>,
        /// The new value.
        value: DataV,
    },
    /// Invoke a method.
    Action {
        /// Which method.
        descriptor: MethodDescriptorV,
        /// Its parameter, if it takes one.
        parameters: Option<DataV>,
    },
}

impl AccessItemV {
    /// What names the operation.
    pub open spec fn specification(self) -> AccessRequestSpecificationV {
        match self {
            AccessItemV::Get { descriptor, access } => match access {
                None => AccessRequestSpecificationV::Get(descriptor),
                Some(_) => AccessRequestSpecificationV::GetWithSelection(
                    AttributeDescriptorWithSelectionV { descriptor, access },
                ),
            },
            AccessItemV::Write { descriptor, access, .. } => match access {
                None => AccessRequestSpecificationV::Write(descriptor),
                Some(_) => AccessRequestSpecificationV::WriteWithSelection(
                    AttributeDescriptorWithSelectionV { descriptor, access },
                ),
            },
            AccessItemV::Action { descriptor, .. } => AccessRequestSpecificationV::Action(
                descriptor,
            ),
        }
    }

    /// The data entry that goes with it. Every operation has one, which is what keeps the
    /// lists aligned by position.
    pub open spec fn data(self) -> DataV {
        match self {
            AccessItemV::Get { .. } => DataV::Null,
            AccessItemV::Write { value, .. } => value,
            AccessItemV::Action { parameters, .. } => or_null(parameters),
        }
    }
}

/// The value, or `null-data` in its place.
pub open spec fn or_null(o: Option<DataV>) -> DataV {
    match o {
        Some(d) => d,
        None => DataV::Null,
    }
}

/// One operation inside an [`ClientSession::access_request`].
///
/// ACCESS is the only service that mixes reads, writes and invocations into a single
/// exchange, which is what makes it the right one for a link where a round trip costs
/// more than a kilobyte.
#[derive(Debug, Clone, Copy, PartialEq)]
#[allow(inconsistent_fields)]
pub enum AccessItem<'a> {
    /// Read an attribute.
    Get {
        /// Which attribute.
        descriptor: AttributeDescriptor,
        /// Which part of it.
        access: Option<SelectiveAccess<'a>>,
    },
    /// Write an attribute.
    Write {
        /// Which attribute.
        descriptor: AttributeDescriptor,
        /// Which part of it.
        access: Option<SelectiveAccess<'a>>,
        /// The new value.
        value: Data<'a>,
    },
    /// Invoke a method.
    Action {
        /// Which method.
        descriptor: MethodDescriptor,
        /// Its parameter, if it takes one.
        parameters: Option<Data<'a>>,
    },
}

impl<'a> View for AccessItem<'a> {
    type V = AccessItemV;

    open spec fn view(&self) -> AccessItemV {
        match *self {
            AccessItem::Get { descriptor, access } => AccessItemV::Get {
                descriptor: descriptor@,
                access: opt_view(access),
            },
            AccessItem::Write { descriptor, access, value } => AccessItemV::Write {
                descriptor: descriptor@,
                access: opt_view(access),
                value: value@,
            },
            AccessItem::Action { descriptor, parameters } => AccessItemV::Action {
                descriptor: descriptor@,
                parameters: opt_view(parameters),
            },
        }
    }
}

impl<'a> AccessItem<'a> {
    fn specification(&self) -> (r: AccessRequestSpecification<'a>)
        ensures
            r@ == self@.specification(),
    {
        match *self {
            AccessItem::Get { descriptor, access } => match access {
                None => AccessRequestSpecification::Get(descriptor),
                Some(_) => AccessRequestSpecification::GetWithSelection(
                    AttributeDescriptorWithSelection { descriptor, access },
                ),
            },
            AccessItem::Write { descriptor, access, .. } => match access {
                None => AccessRequestSpecification::Write(descriptor),
                Some(_) => AccessRequestSpecification::WriteWithSelection(
                    AttributeDescriptorWithSelection { descriptor, access },
                ),
            },
            AccessItem::Action { descriptor, .. } => AccessRequestSpecification::Action(descriptor),
        }
    }

    fn data(&self) -> (r: Data<'a>)
        ensures
            r@ == self@.data(),
    {
        match *self {
            AccessItem::Get { .. } => Data::Null,
            AccessItem::Write { value, .. } => value,
            AccessItem::Action { parameters, .. } => match parameters {
                Some(p) => p,
                None => Data::Null,
            },
        }
    }
}

/// What names the operations of an access request.
pub open spec fn specifications(items: Seq<AccessItemV>) -> Seq<AccessRequestSpecificationV> {
    items.map_values(|x: AccessItemV| x.specification())
}

/// The data entries of an access request.
pub open spec fn item_data(items: Seq<AccessItemV>) -> Seq<DataV> {
    items.map_values(|x: AccessItemV| x.data())
}

fn specification_list<'a>(items: &[AccessItem<'a>]) -> (v: Vec<AccessRequestSpecification<'a>>)
    ensures
        views(v@) == specifications(views(items@)),
{
    let mut v: Vec<AccessRequestSpecification<'a>> = Vec::new();
    let mut i: usize = 0;
    while i < items.len()
        invariant
            i <= items@.len(),
            v@.len() == i,
            forall|k: int| 0 <= k < i ==> (#[trigger] v@[k])@ == items@[k]@.specification(),
        decreases items@.len() - i,
    {
        v.push(items[i].specification());
        i += 1;
    }
    assert(views(v@) =~= specifications(views(items@)));
    v
}

fn data_list<'a>(items: &[AccessItem<'a>]) -> (v: Vec<Data<'a>>)
    ensures
        views(v@) == item_data(views(items@)),
{
    let mut v: Vec<Data<'a>> = Vec::new();
    let mut i: usize = 0;
    while i < items.len()
        invariant
            i <= items@.len(),
            v@.len() == i,
            forall|k: int| 0 <= k < i ==> (#[trigger] v@[k])@ == items@[k]@.data(),
        decreases items@.len() - i,
    {
        v.push(items[i].data());
        i += 1;
    }
    assert(views(v@) =~= item_data(views(items@)));
    v
}

/// The parameters of several methods: `null-data` for one that takes none.
pub open spec fn parameter_data(parameters: Seq<Option<Data<'_>>>) -> Seq<DataV> {
    parameters.map_values(|p: Option<Data<'_>>| or_null(opt_view(p)))
}

fn parameter_list<'a>(parameters: &[Option<Data<'a>>]) -> (v: Vec<Data<'a>>)
    ensures
        views(v@) == parameter_data(parameters@),
{
    let mut v: Vec<Data<'a>> = Vec::new();
    let mut i: usize = 0;
    while i < parameters.len()
        invariant
            i <= parameters@.len(),
            v@.len() == i,
            forall|k: int|
                0 <= k < i ==> (#[trigger] v@[k])@ == or_null(opt_view(parameters@[k])),
        decreases parameters@.len() - i,
    {
        v.push(
            match parameters[i] {
                Some(p) => p,
                None => Data::Null,
            },
        );
        i += 1;
    }
    assert(views(v@) =~= parameter_data(parameters@));
    v
}

impl<P: CryptoProvider, const N: usize> ClientSession<P, N> {
    /// Build a GET request for one attribute.
    ///
    /// # Errors
    /// When the association is not open, when the server did not agree to GET, or when
    /// the buffer is too small.
    pub fn get_request(
        &mut self,
        descriptor: AttributeDescriptor,
        access: Option<SelectiveAccess<'_>>,
        out: &mut [u8],
    ) -> (r: Result<usize>)
        ensures
            old(self)@.asks(
                seq![Conformance::GET()] + selection(access is Some),
                old(self)@.fresh(),
                ApduV::GetRequest(
                    GetRequestV::Normal {
                        invoke_id: old(self)@.fresh().outstanding->0,
                        descriptor: descriptor@,
                        access: opt_view(access),
                    },
                ),
                N as nat,
                old(out)@,
                final(out)@,
                final(self)@,
                r,
            ),
    {
        let ghost needed = seq![Conformance::GET()] + selection(access is Some);
        self.require_associated()?;
        assert(needed[0] == Conformance::GET());
        self.require_conformance(Conformance::GET())?;
        if access.is_some() {
            assert(needed[1] == Conformance::SELECTIVE_ACCESS());
            self.require_conformance(Conformance::SELECTIVE_ACCESS())?;
        }
        let request = GetRequest::Normal { invoke_id: self.next_invoke_id(), descriptor, access };
        self.send(&Apdu::GetRequest(request), out)
    }

    /// Build a GET request for an attribute of a typed class.
    ///
    /// # Errors
    /// As [`ClientSession::get_request`].
    pub fn get<C: InterfaceClass>(
        &mut self,
        logical_name: Obis,
        attribute: i8,
        out: &mut [u8],
    ) -> (r: Result<usize>)
        ensures
            old(self)@.asks(
                seq![Conformance::GET()],
                old(self)@.fresh(),
                ApduV::GetRequest(
                    GetRequestV::Normal {
                        invoke_id: old(self)@.fresh().outstanding->0,
                        descriptor: AttributeDescriptorV {
                            class_id: C::CLASS_ID,
                            instance_id: logical_name@,
                            attribute_id: attribute,
                        },
                        access: None,
                    },
                ),
                N as nat,
                old(out)@,
                final(out)@,
                final(self)@,
                r,
            ),
    {
        assert(seq![Conformance::GET()] + selection(false) =~= seq![Conformance::GET()]);
        let d = AttributeDescriptor {
            class_id: C::CLASS_ID,
            instance_id: logical_name,
            attribute_id: attribute,
        };
        self.get_request(d, None, out)
    }

    /// Build a GET request for several attributes at once.
    ///
    /// One round trip instead of one per attribute. On a GPRS or LPWAN link the round
    /// trip dominates everything else, so reading thirty registers one at a time is not
    /// thirty times the bytes — it is thirty times the latency, which is the difference
    /// between a meter read taking a second and taking a minute.
    ///
    /// Each item gets its own result: a list where one attribute is unreadable comes
    /// back with a value for the others and a reason in that one's place, so a single
    /// denied object does not lose the whole read.
    ///
    /// # Errors
    /// When the association is not open, when the server did not agree to
    /// [`Conformance::GET`] or [`Conformance::MULTIPLE_REFERENCES`], when the list is
    /// empty, or when a buffer is too small.
    pub fn get_request_with_list(
        &mut self,
        items: &[AttributeDescriptorWithSelection<'_>],
        out: &mut [u8],
    ) -> (r: Result<usize>)
        ensures
            old(self)@.asks_list(
                old(self)@.not_ready(
                    seq![Conformance::GET(), Conformance::MULTIPLE_REFERENCES()],
                ),
                items@.len() > 0,
                selection(any_selected(views(items@))),
                alone::<AttributeDescriptorWithSelection>(views(items@)),
                old(self)@.fresh(),
                ApduV::GetRequest(
                    GetRequestV::WithList {
                        invoke_id: old(self)@.fresh().outstanding->0,
                        list: views(items@),
                    },
                ),
                N as nat,
                old(out)@,
                final(out)@,
                final(self)@,
                r,
            ),
    {
        let ghost needed = seq![Conformance::GET(), Conformance::MULTIPLE_REFERENCES()];
        assert(needed[0] == Conformance::GET() && needed[1]
            == Conformance::MULTIPLE_REFERENCES());
        self.require_associated()?;
        self.require_conformance(Conformance::GET())?;
        self.require_conformance(Conformance::MULTIPLE_REFERENCES())?;
        if items.len() == 0 {
            // An empty list is a request for nothing that still costs a round trip.
            return Err(Error::new(ErrorKind::InvalidValue, 0));
        }
        let ghost more = selection(any_selected(views(items@)));
        if selects(items) {
            assert(more[0] == Conformance::SELECTIVE_ACCESS());
            self.require_conformance(Conformance::SELECTIVE_ACCESS())?;
        }
        build_one(items, N)?;
        let request = GetRequest::WithList {
            invoke_id: self.next_invoke_id(),
            list: copied(items),
        };
        self.send(&Apdu::GetRequest(request), out)
    }

    /// Build the request for the next block of a long response.
    ///
    /// `block_number` acknowledges the block just received; the server answers with the
    /// one after it. The request carries the invoke id of the read it is continuing, not
    /// a fresh one — a `get-request-next` is part of an invocation already in flight,
    /// and giving it a new id asks the server about something it has never been asked.
    ///
    /// # Errors
    /// When the association is not open, when no request is outstanding to continue, or
    /// when the buffer is too small.
    pub fn get_next_block_request(&mut self, block_number: u32, out: &mut [u8]) -> (r: Result<
        usize,
    >)
        ensures
            old(self)@.continues(
                ApduV::GetRequest(
                    GetRequestV::Next {
                        invoke_id: old(self)@.outstanding->0,
                        block_number,
                    },
                ),
                N as nat,
                old(out)@,
                final(out)@,
                final(self)@,
                r,
            ),
    {
        self.require_associated()?;
        let invoke_id = self.continued()?;
        let request = GetRequest::Next { invoke_id, block_number };
        self.send(&Apdu::GetRequest(request), out)
    }

    /// Build a SET request.
    ///
    /// # Errors
    /// When the association is not open, when the server did not agree to SET, or when
    /// the buffer is too small.
    pub fn set_request(
        &mut self,
        descriptor: AttributeDescriptor,
        access: Option<SelectiveAccess<'_>>,
        value: Data<'_>,
        out: &mut [u8],
    ) -> (r: Result<usize>)
        ensures
            old(self)@.asks(
                seq![Conformance::SET()] + selection(access is Some),
                old(self)@.fresh(),
                ApduV::SetRequest(
                    SetRequestV::Normal {
                        invoke_id: old(self)@.fresh().outstanding->0,
                        descriptor: descriptor@,
                        access: opt_view(access),
                        value: value@,
                    },
                ),
                N as nat,
                old(out)@,
                final(out)@,
                final(self)@,
                r,
            ),
    {
        let ghost needed = seq![Conformance::SET()] + selection(access is Some);
        self.require_associated()?;
        assert(needed[0] == Conformance::SET());
        self.require_conformance(Conformance::SET())?;
        if access.is_some() {
            assert(needed[1] == Conformance::SELECTIVE_ACCESS());
            self.require_conformance(Conformance::SELECTIVE_ACCESS())?;
        }
        let request = SetRequest::Normal {
            invoke_id: self.next_invoke_id(),
            descriptor,
            access,
            value,
        };
        self.send(&Apdu::SetRequest(request), out)
    }

    /// Write several attributes in one exchange, one result each.
    ///
    /// The values are positional: value *i* is written to attribute *i*. A server
    /// answers with one result per item, so a single refused write does not lose the
    /// batch.
    ///
    /// # Errors
    /// When the association is not open, when the server did not agree to
    /// [`Conformance::SET`] or [`Conformance::MULTIPLE_REFERENCES`], when the two lists
    /// are different lengths, or when a buffer is too small.
    pub fn set_request_with_list(
        &mut self,
        items: &[AttributeDescriptorWithSelection<'_>],
        values: &[Data<'_>],
        out: &mut [u8],
    ) -> (r: Result<usize>)
        ensures
            old(self)@.asks_list(
                old(self)@.not_ready(
                    seq![Conformance::SET(), Conformance::MULTIPLE_REFERENCES()],
                ),
                items@.len() > 0 && items@.len() == values@.len(),
                selection(any_selected(views(items@))),
                together::<AttributeDescriptorWithSelection, Data>(
                    views(items@),
                    views(values@),
                ),
                old(self)@.fresh(),
                ApduV::SetRequest(
                    SetRequestV::WithList {
                        invoke_id: old(self)@.fresh().outstanding->0,
                        descriptors: views(items@),
                        values: views(values@),
                    },
                ),
                N as nat,
                old(out)@,
                final(out)@,
                final(self)@,
                r,
            ),
    {
        let ghost needed = seq![Conformance::SET(), Conformance::MULTIPLE_REFERENCES()];
        assert(needed[0] == Conformance::SET() && needed[1]
            == Conformance::MULTIPLE_REFERENCES());
        self.require_associated()?;
        self.require_conformance(Conformance::SET())?;
        self.require_conformance(Conformance::MULTIPLE_REFERENCES())?;
        if items.len() == 0 || items.len() != values.len() {
            return Err(Error::new(ErrorKind::InvalidValue, 0));
        }
        let ghost more = selection(any_selected(views(items@)));
        if selects(items) {
            assert(more[0] == Conformance::SELECTIVE_ACCESS());
            self.require_conformance(Conformance::SELECTIVE_ACCESS())?;
        }
        build_two(items, values, N)?;
        let request = SetRequest::WithList {
            invoke_id: self.next_invoke_id(),
            descriptors: copied(items),
            values: copied(values),
        };
        self.send(&Apdu::SetRequest(request), out)
    }

    /// Invoke several methods in one exchange, one result each.
    ///
    /// The parameters are positional: parameter *i* goes to method *i*, and a method that
    /// takes none gets `null-data` in its slot. The answer has one outcome per method, so
    /// a method that refuses does not lose the batch — which matters more here than for a
    /// read, because a batch that opened a breaker and then failed would otherwise report
    /// only the failure.
    ///
    /// # Errors
    /// When the association is not open, when the server did not agree to
    /// [`Conformance::ACTION`] or [`Conformance::MULTIPLE_REFERENCES`], when the two
    /// lists are different lengths, or when a buffer is too small.
    pub fn action_request_with_list(
        &mut self,
        descriptors: &[MethodDescriptor],
        parameters: &[Option<Data<'_>>],
        out: &mut [u8],
    ) -> (r: Result<usize>)
        ensures
            old(self)@.asks_list(
                old(self)@.not_ready(
                    seq![Conformance::ACTION(), Conformance::MULTIPLE_REFERENCES()],
                ),
                0 < descriptors@.len() <= MAX_ACCESS_ITEMS && descriptors@.len()
                    == parameters@.len(),
                Seq::empty(),
                together::<MethodDescriptor, Data>(
                    views(descriptors@),
                    parameter_data(parameters@),
                ),
                old(self)@.fresh(),
                ApduV::ActionRequest(
                    ActionRequestV::WithList {
                        invoke_id: old(self)@.fresh().outstanding->0,
                        descriptors: views(descriptors@),
                        parameters: parameter_data(parameters@),
                    },
                ),
                N as nat,
                old(out)@,
                final(out)@,
                final(self)@,
                r,
            ),
    {
        let ghost needed = seq![Conformance::ACTION(), Conformance::MULTIPLE_REFERENCES()];
        assert(needed[0] == Conformance::ACTION() && needed[1]
            == Conformance::MULTIPLE_REFERENCES());
        self.require_associated()?;
        self.require_conformance(Conformance::ACTION())?;
        self.require_conformance(Conformance::MULTIPLE_REFERENCES())?;
        if descriptors.len() == 0 || descriptors.len() != parameters.len() || descriptors.len()
            > MAX_ACCESS_ITEMS {
            return Err(Error::new(ErrorKind::InvalidValue, 0));
        }
        let data = parameter_list(parameters);
        build_two(descriptors, data.as_slice(), N)?;
        let request = ActionRequest::WithList {
            invoke_id: self.next_invoke_id(),
            descriptors: copied(descriptors),
            parameters: data,
        };
        self.send(&Apdu::ActionRequest(request), out)
    }

    /// Build an ACTION request.
    ///
    /// # Errors
    /// When the association is not open, when the server did not agree to ACTION, or
    /// when the buffer is too small.
    pub fn action_request(
        &mut self,
        descriptor: MethodDescriptor,
        parameters: Option<Data<'_>>,
        out: &mut [u8],
    ) -> (r: Result<usize>)
        ensures
            old(self)@.asks(
                seq![Conformance::ACTION()],
                old(self)@.fresh(),
                ApduV::ActionRequest(
                    ActionRequestV::Normal {
                        invoke_id: old(self)@.fresh().outstanding->0,
                        descriptor: descriptor@,
                        parameters: opt_view(parameters),
                    },
                ),
                N as nat,
                old(out)@,
                final(out)@,
                final(self)@,
                r,
            ),
    {
        let ghost needed = seq![Conformance::ACTION()];
        assert(needed[0] == Conformance::ACTION());
        self.require_associated()?;
        self.require_conformance(Conformance::ACTION())?;
        let request = ActionRequest::Normal {
            invoke_id: self.next_invoke_id(),
            descriptor,
            parameters,
        };
        self.send(&Apdu::ActionRequest(request), out)
    }

    /// Ask for the next block of a long ACTION *result*.
    ///
    /// The counterpart of [`ClientSession::get_next_block_request`] for a method that
    /// returns more than one APDU can carry.
    ///
    /// # Errors
    /// When the association is not open, or no invocation is outstanding.
    pub fn action_next_block_request(&mut self, block_number: u32, out: &mut [u8]) -> (r: Result<
        usize,
    >)
        ensures
            old(self)@.continues(
                ApduV::ActionRequest(
                    ActionRequestV::NextPblock {
                        invoke_id: old(self)@.outstanding->0,
                        block_number,
                    },
                ),
                N as nat,
                old(out)@,
                final(out)@,
                final(self)@,
                r,
            ),
    {
        self.require_associated()?;
        let invoke_id = self.continued()?;
        let request = ActionRequest::NextPblock { invoke_id, block_number };
        self.send(&Apdu::ActionRequest(request), out)
    }

    /// Read, write and invoke in one exchange — the ACCESS service.
    ///
    /// This is what a battery-powered device on a low-power network uses: the cost there
    /// is round trips, not bytes, and ACCESS is the only service that mixes the three
    /// operations into one. It has no ciphered tag of its own, so in a protected
    /// association it travels inside `general-glo-ciphering` and needs
    /// [`Conformance::GENERAL_PROTECTION`] as well as [`Conformance::ACCESS`].
    ///
    /// The answer comes back positionally: entry *i* of the result list is the outcome of
    /// item *i*, and entry *i* of the data list is what it produced — `null-data` for a
    /// write, and for a read that failed.
    ///
    /// # Errors
    /// When the association is not open, when the server did not agree to
    /// [`Conformance::ACCESS`], when `items` is empty, or when a buffer is too small.
    pub fn access_request(&mut self, items: &[AccessItem<'_>], out: &mut [u8]) -> (r: Result<usize>)
        ensures
            old(self)@.asks_list(
                old(self)@.not_ready(seq![Conformance::ACCESS()]),
                0 < items@.len() <= MAX_ACCESS_ITEMS,
                Seq::empty(),
                together::<AccessRequestSpecification, Data>(
                    specifications(views(items@)),
                    item_data(views(items@)),
                ),
                old(self)@.fresh_long(),
                ApduV::AccessRequest(
                    AccessRequestV {
                        long_invoke_id: LongInvokeId::new(
                            old(self)@.fresh_long().invoke_id as u32,
                        ).confirmed(),
                        date_time: OptionalDateTime(None),
                        specification: specifications(views(items@)),
                        data: item_data(views(items@)),
                    },
                ),
                N as nat,
                old(out)@,
                final(out)@,
                final(self)@,
                r,
            ),
    {
        let ghost needed = seq![Conformance::ACCESS()];
        assert(needed[0] == Conformance::ACCESS());
        self.require_associated()?;
        self.require_conformance(Conformance::ACCESS())?;
        if items.len() == 0 || items.len() > MAX_ACCESS_ITEMS {
            return Err(Error::new(ErrorKind::InvalidValue, 0));
        }
        let specification = specification_list(items);
        // One data entry per specification entry, in order. A GET contributes
        // `null-data`, which is what keeps the three lists aligned by position.
        let data = data_list(items);
        build_two(specification.as_slice(), data.as_slice(), N)?;
        let request = AccessRequest {
            long_invoke_id: self.next_long_invoke_id(),
            date_time: OptionalDateTime(None),
            specification,
            data,
        };
        self.send(&Apdu::AccessRequest(request), out)
    }

    /// Read attributes by **short name** — the legacy addressing mode.
    ///
    /// One entry per thing to read, answered by one result in the same position. A short
    /// name is an object's base name plus an offset, and the base names come from
    /// the meter's own `Association SN` object list.
    ///
    /// Short-name referencing is a property of the *association*, not of a request:
    /// the AARQ has to propose the short-name application context. A meter that answered a
    /// logical-name association with short names would be answering a different
    /// question, so this refuses to send one into the wrong context.
    ///
    /// # Errors
    /// When the association is not open or is not a short-name one, when the server did
    /// not agree to [`Conformance::READ`], when the list is empty, or when a buffer is
    /// too small.
    pub fn read_request(&mut self, items: &[VariableAccess<'_>], out: &mut [u8]) -> (r: Result<
        usize,
    >)
        ensures
            old(self)@.reads(
                views(items@),
                N as nat,
                old(out)@,
                final(out)@,
                final(self)@,
                r,
            ),
    {
        let ghost needed = seq![Conformance::READ()];
        assert(needed[0] == Conformance::READ());
        self.require_associated()?;
        self.require_short_name()?;
        self.require_conformance(Conformance::READ())?;
        if items.len() == 0 {
            return Err(Error::new(ErrorKind::InvalidValue, 0));
        }
        build_one(items, N)?;
        let request = ReadRequest { specification: copied(items) };
        // The short-name services carry no invoke id at all, so nothing is outstanding
        // under one: leaving a stale id here would let a later block request continue an
        // invocation that is over.
        self.end_invocation();
        self.send(&Apdu::ReadRequest(request), out)
    }

    /// Ask for the next block of a long short-name read.
    ///
    /// `block_number` acknowledges the block just received. Unlike the logical-name
    /// services this is an ordinary read entry rather than a form of its own, which is
    /// why it takes the same path.
    ///
    /// # Errors
    /// As [`ClientSession::read_request`].
    pub fn read_next_block_request(&mut self, block_number: u16, out: &mut [u8]) -> (r: Result<
        usize,
    >)
        ensures
            old(self)@.reads(
                seq![VariableAccessV::BlockNumber(block_number)],
                N as nat,
                old(out)@,
                final(out)@,
                final(self)@,
                r,
            ),
    {
        let items = [VariableAccess::BlockNumber(block_number)];
        assert(views(items@) =~= seq![VariableAccessV::BlockNumber(block_number)]);
        self.read_request(items.as_slice(), out)
    }

    /// Write attributes by **short name**.
    ///
    /// The two lists are positional: value *i* goes to entry *i*. The answer has one
    /// outcome per entry, so a single refused write does not lose the batch.
    ///
    /// # Errors
    /// When the association is not open or is not a short-name one, when the server did
    /// not agree to [`Conformance::WRITE`], when the two lists are different lengths, or
    /// when a buffer is too small.
    pub fn write_request(
        &mut self,
        items: &[VariableAccess<'_>],
        values: &[Data<'_>],
        out: &mut [u8],
    ) -> (r: Result<usize>)
        ensures
            old(self)@.asks_list(
                old(self)@.not_ready_short(seq![Conformance::WRITE()]),
                items@.len() > 0 && items@.len() == values@.len(),
                Seq::empty(),
                together::<VariableAccess, Data>(views(items@), views(values@)),
                old(self)@.quiet(),
                ApduV::WriteRequest(
                    WriteRequestV { specification: views(items@), values: views(values@) },
                ),
                N as nat,
                old(out)@,
                final(out)@,
                final(self)@,
                r,
            ),
    {
        let ghost needed = seq![Conformance::WRITE()];
        assert(needed[0] == Conformance::WRITE());
        self.require_associated()?;
        self.require_short_name()?;
        self.require_conformance(Conformance::WRITE())?;
        if items.len() == 0 || items.len() != values.len() {
            return Err(Error::new(ErrorKind::InvalidValue, 0));
        }
        build_two(items, values, N)?;
        let request = WriteRequest { specification: copied(items), values: copied(values) };
        self.end_invocation();
        self.send(&Apdu::WriteRequest(request), out)
    }

    /// The same write, with no answer expected.
    ///
    /// `unconfirmed-write` is a distinct service rather than a flag on the confirmed one,
    /// and this is a distinct method for the same reason: a caller that sends one must
    /// not then wait for a reply. It costs [`Conformance::UNCONFIRMED_WRITE`] rather than
    /// [`Conformance::WRITE`].
    ///
    /// # Errors
    /// As [`ClientSession::write_request`].
    pub fn unconfirmed_write_request(
        &mut self,
        items: &[VariableAccess<'_>],
        values: &[Data<'_>],
        out: &mut [u8],
    ) -> (r: Result<usize>)
        ensures
            old(self)@.asks_list(
                old(self)@.not_ready_short(Seq::empty()),
                items@.len() > 0 && items@.len() == values@.len(),
                seq![Conformance::UNCONFIRMED_WRITE()],
                together::<VariableAccess, Data>(views(items@), views(values@)),
                old(self)@.quiet(),
                ApduV::UnconfirmedWriteRequest(
                    UnconfirmedWriteRequestV {
                        specification: views(items@),
                        values: views(values@),
                    },
                ),
                N as nat,
                old(out)@,
                final(out)@,
                final(self)@,
                r,
            ),
    {
        let ghost more = seq![Conformance::UNCONFIRMED_WRITE()];
        assert(more[0] == Conformance::UNCONFIRMED_WRITE());
        self.require_associated()?;
        self.require_short_name()?;
        if items.len() == 0 || items.len() != values.len() {
            return Err(Error::new(ErrorKind::InvalidValue, 0));
        }
        self.require_conformance(Conformance::UNCONFIRMED_WRITE())?;
        build_two(items, values, N)?;
        let request = UnconfirmedWriteRequest {
            specification: copied(items),
            values: copied(values),
        };
        self.end_invocation();
        self.send(&Apdu::UnconfirmedWriteRequest(request), out)
    }

    /// Begin writing a value larger than the negotiated PDU size.
    ///
    /// `value` is the **encoded** attribute value, and it stays the caller's: how large
    /// a value a deployment writes is not a decision for this crate, and a session that
    /// buffered it would put a ceiling on it that nothing in the standard has. Drive the
    /// transfer with [`ClientSession::next_block_request`] until it reports done.
    ///
    /// # Errors
    /// When the association is not open, or the server did not agree to
    /// [`Conformance::BLOCK_TRANSFER_WITH_SET_OR_WRITE`].
    pub fn set_transfer<'v>(
        &mut self,
        descriptor: AttributeDescriptor,
        access: Option<SelectiveAccess<'v>>,
        value: &'v [u8],
    ) -> (r: Result<BlockSender<'v>>)
        ensures
            final(self)@ == old(self)@,
            exists|extra: nat|
                #![trigger old(self)@.fragment(extra, N as nat)]
                {
                    &&& access is None ==> extra == 0
                    &&& access matches Some(a) ==> (a.encodable() ==> extra == a.enc().len())
                    &&& old(self)@.transfers(
                        seq![Conformance::SET(), Conformance::BLOCK_TRANSFER_WITH_SET_OR_WRITE()],
                        extra,
                        TargetV::Attribute { descriptor: descriptor@, access: opt_view(access) },
                        value@,
                        N as nat,
                        match r {
                            Ok(s) => Ok(s@),
                            Err(e) => Err(e),
                        },
                    )
                },
    {
        let ghost some: nat = match access {
            Some(a) => a.enc().len(),
            None => 0,
        };
        assert(old(self)@.fragment(some, N as nat) >= 0);
        let ghost needed = seq![
            Conformance::SET(),
            Conformance::BLOCK_TRANSFER_WITH_SET_OR_WRITE(),
        ];
        assert(needed[0] == Conformance::SET() && needed[1]
            == Conformance::BLOCK_TRANSFER_WITH_SET_OR_WRITE());
        self.require_associated()?;
        self.require_conformance(Conformance::SET())?;
        self.require_conformance(Conformance::BLOCK_TRANSFER_WITH_SET_OR_WRITE())?;
        let extra: usize = match &access {
            Some(a) => a.encoded_len(),
            None => 0,
        };
        assert(old(self)@.fragment(extra as nat, N as nat) >= 0);
        let fragment = self.max_fragment_less(extra)?;
        Ok(BlockSender::new(BlockTarget::Attribute { descriptor, access }, value, fragment))
    }

    /// Begin invoking a method whose parameter is larger than the negotiated PDU size.
    ///
    /// # Errors
    /// When the association is not open, or the server did not agree to
    /// [`Conformance::BLOCK_TRANSFER_WITH_ACTION`].
    pub fn action_transfer<'v>(
        &mut self,
        descriptor: MethodDescriptor,
        parameters: &'v [u8],
    ) -> (r: Result<BlockSender<'v>>)
        ensures
            final(self)@ == old(self)@,
            old(self)@.transfers(
                seq![Conformance::ACTION(), Conformance::BLOCK_TRANSFER_WITH_ACTION()],
                0,
                TargetV::Method(descriptor@),
                parameters@,
                N as nat,
                match r {
                    Ok(s) => Ok(s@),
                    Err(e) => Err(e),
                },
            ),
    {
        let ghost needed = seq![Conformance::ACTION(), Conformance::BLOCK_TRANSFER_WITH_ACTION()];
        assert(needed[0] == Conformance::ACTION() && needed[1]
            == Conformance::BLOCK_TRANSFER_WITH_ACTION());
        self.require_associated()?;
        self.require_conformance(Conformance::ACTION())?;
        self.require_conformance(Conformance::BLOCK_TRANSFER_WITH_ACTION())?;
        let fragment = self.max_fragment_less(0)?;
        Ok(BlockSender::new(BlockTarget::Method(descriptor), parameters, fragment))
    }

    /// Begin writing several attributes whose values together exceed the PDU size.
    ///
    /// `values` is the **encoded** `value-list` — a count prefix and one `Data` per
    /// attribute, which is exactly what [`ClientSession::encode_value_list`] produces —
    /// and it stays the caller's, as every other long value does. The descriptors are
    /// encoded into `scratch`, which has to have room for them.
    ///
    /// # Errors
    /// When the association is not open, or the server did not agree to
    /// [`Conformance::MULTIPLE_REFERENCES`] and
    /// [`Conformance::BLOCK_TRANSFER_WITH_SET_OR_WRITE`].
    pub fn set_transfer_with_list<'v>(
        &mut self,
        items: &'v [AttributeDescriptorWithSelection<'v>],
        values: &'v [u8],
        scratch: &mut [u8],
    ) -> (r: Result<BlockSender<'v>>)
        ensures
            final(self)@ == old(self)@,
            ({
                let s = old(self)@;
                let run = enc_run::<AttributeDescriptorWithSelection>(views(items@));
                let needed = seq![
                    Conformance::SET(),
                    Conformance::MULTIPLE_REFERENCES(),
                    Conformance::BLOCK_TRANSFER_WITH_SET_OR_WRITE(),
                ];
                if s.not_ready(needed) is None && !(0 < items@.len() <= MAX_ACCESS_ITEMS) {
                    &&& r matches Err(e) && e == (Error {
                        kind: ErrorKind::InvalidValue,
                        offset: 0,
                    })
                    &&& final(scratch)@ == old(scratch)@
                } else if s.not_ready(needed) is None && !alone::<
                    AttributeDescriptorWithSelection,
                >(views(items@)).built(old(scratch)@.len()) {
                    &&& r matches Err(e) && not_built(
                        e,
                        run,
                        fits_run::<AttributeDescriptorWithSelection>(views(items@)),
                        old(scratch)@.len(),
                    )
                    &&& final(scratch)@ == old(scratch)@
                } else {
                    &&& s.transfers(
                        needed,
                        enc_list::<AttributeDescriptorWithSelection>(views(items@)).len(),
                        TargetV::AttributeList(views(items@)),
                        values@,
                        N as nat,
                        match r {
                            Ok(s) => Ok(s@),
                            Err(e) => Err(e),
                        },
                    )
                    &&& final(scratch)@ == (if s.not_ready(needed) is Some {
                        old(scratch)@
                    } else {
                        run + old(scratch)@.skip(run.len() as int)
                    })
                }
            }),
    {
        let ghost needed = seq![
            Conformance::SET(),
            Conformance::MULTIPLE_REFERENCES(),
            Conformance::BLOCK_TRANSFER_WITH_SET_OR_WRITE(),
        ];
        assert(needed[0] == Conformance::SET() && needed[1] == Conformance::MULTIPLE_REFERENCES()
            && needed[2] == Conformance::BLOCK_TRANSFER_WITH_SET_OR_WRITE());
        self.require_associated()?;
        self.require_conformance(Conformance::SET())?;
        self.require_conformance(Conformance::MULTIPLE_REFERENCES())?;
        self.require_conformance(Conformance::BLOCK_TRANSFER_WITH_SET_OR_WRITE())?;
        assert(self@.not_ready(needed) is None);
        if items.len() == 0 || items.len() > MAX_ACCESS_ITEMS {
            return Err(Error::new(ErrorKind::InvalidValue, 0));
        }
        // The descriptor list rides in the first block, so it counts against the
        // fragment size the same way a single write's selector does.
        let mut w = BoundedWriter::new(scratch.len());
        write_run(&mut w, items)?;
        let run = w.finish();
        copy_into(scratch, run.as_slice());
        // A list this short is counted in one byte.
        let extra: usize = run.len().saturating_add(1);
        let fragment = self.max_fragment_less(extra)?;
        Ok(BlockSender::new(BlockTarget::AttributeList(copied(items)), values, fragment))
    }

    /// Encode a `value-list` for [`ClientSession::set_transfer_with_list`].
    ///
    /// A free function on the session rather than a method on a list type, because what
    /// it produces is the *field* — count prefix included — and that is the thing the
    /// blocks carry.
    ///
    /// # Errors
    /// When `out` is too small.
    pub fn encode_value_list(values: &[Data<'_>], out: &mut [u8]) -> (r: Result<usize>)
        ensures
            ({
                let list = enc_list::<Data>(views(values@));
                if fits_list::<Data>(views(values@)) && list.len() <= old(out)@.len() {
                    &&& r == Ok::<usize, Error>(list.len() as usize)
                    &&& final(out)@ == list + old(out)@.skip(list.len() as int)
                } else {
                    &&& r matches Err(e) && not_built(
                        e,
                        list,
                        fits_list::<Data>(views(values@)),
                        old(out)@.len(),
                    )
                    &&& final(out)@ == old(out)@
                }
            }),
    {
        let mut w = BoundedWriter::new(out.len());
        write_items(&mut w, values)?;
        let bytes = w.finish();
        assert(bytes@ =~= enc_list::<Data>(views(values@)));
        copy_into(out, bytes.as_slice());
        Ok(bytes.len())
    }

    /// Emit the next block of a transfer started with [`ClientSession::set_transfer`] or
    /// [`ClientSession::action_transfer`].
    ///
    /// Every block of one transfer carries the same invoke id: a fresh one names a
    /// different invocation, and a server that checks refuses it while one that does not
    /// writes the fragment into something else.
    ///
    /// # Errors
    /// When the transfer is already finished, or the buffer is too small.
    pub fn next_block_request(&mut self, sender: &mut BlockSender<'_>, out: &mut [u8]) -> (r:
        Result<usize>)
        ensures
            old(self)@.sends_next(
                old(sender)@,
                N as nat,
                old(out)@,
                final(out)@,
                final(self)@,
                final(sender)@,
                r,
            ),
    {
        self.require_associated()?;
        if sender.is_done() {
            return Err(Error::new(ErrorKind::UnexpectedMessage, 0));
        }
        let invoke_id = if sender.block() == 0 {
            self.next_invoke_id()
        } else {
            self.continued()?
        };
        let apdu = sender.request(invoke_id);
        let n = self.send(&apdu, out)?;
        sender.advance();
        Ok(n)
    }
}

} // verus!
