//! Where a server's objects live.

use vstd::prelude::*;

use crate::acse::{AuthMechanism, UserDiagnostic};
use crate::axdr::data::Data;
use crate::codec::{BoundedWriter, Writer};
use crate::cosem::access::{AttributeAccess, MethodAccess};
use crate::cosem::sn::ShortNameTarget;
use crate::obis::Obis;
use crate::xdlms::result::{ActionResult, DataAccessResult};
use crate::xdlms::service::{AttributeDescriptor, MethodDescriptor, SelectiveAccess};
#[allow(unused_imports)]
use crate::codec::Sink;
#[allow(unused_imports)]
use crate::obis::name_of;
#[allow(unused_imports)]
use crate::xdlms::list::opt_view;
#[allow(unused_imports)]
use crate::axdr::data::DataV;
#[allow(unused_imports)]
use crate::xdlms::service::{AttributeDescriptorV, MethodDescriptorV, SelectiveAccessV};

verus! {

/// What a store returns.
pub type StoreResult<T> = core::result::Result<T, DataAccessResult>;

/// Whether a writer has only been written to: what stood in it still does, and it holds no
/// more than it can.
pub open spec fn only_appended(before: Sink, after: Sink) -> bool {
    &&& after.cap == before.cap
    &&& before.bytes.len() <= after.bytes.len()
    &&& after.bytes.take(before.bytes.len() as int) == before.bytes
}

/// The objects a server hosts.
///
/// An implementation answers three questions per object — what may be done with it,
/// what it holds, and what happens when a method is invoked — and nothing else.
/// Associations, authentication, access control, protection and framing are the
/// framework's, which is what lets the same store back a meter's flash and a
/// simulator's memory.
pub trait ObjectStore: Sized {
    /// Write the attribute's value into `w` as A-XDR `Data`.
    ///
    /// Writing straight into the response buffer is what keeps a large attribute —
    /// a profile buffer of thousands of rows — from existing twice.
    ///
    /// **`Ok(())` means something was written.** Returning it after writing nothing is
    /// the bug every store has once, and the response it would produce is a
    /// `get-data-result` choice byte with no value behind it — undecodable rather than
    /// merely wrong, and inside a batched read it would shift every later answer onto the
    /// wrong attribute. The server checks and answers
    /// [`DataAccessResult::OtherReason`] for that item rather than building it.
    ///
    /// # Errors
    /// A [`DataAccessResult`] the server sends back verbatim.
    fn get_attribute<W: Writer>(
        &self,
        class_id: u16,
        logical_name: Obis,
        attribute_id: i8,
        selective_access: Option<SelectiveAccess<'_>>,
        w: &mut W,
    ) -> (r: StoreResult<()>)
        ensures
            only_appended(old(w).sink(), final(w).sink()),
    ;

    /// Write an attribute.
    ///
    /// # Errors
    /// A [`DataAccessResult`] the server sends back verbatim.
    fn set_attribute(
        &mut self,
        _class_id: u16,
        _logical_name: Obis,
        _attribute_id: i8,
        _selective_access: Option<SelectiveAccess<'_>>,
        _value: Data<'_>,
    ) -> (r: StoreResult<()>)
        default_ensures
            r == Err::<(), DataAccessResult>(DataAccessResult::ReadWriteDenied),
            *final(self) == *old(self),
    {
        Err(DataAccessResult::ReadWriteDenied)
    }

    /// Invoke a method, writing any return value into `w`.
    ///
    /// Returns whether anything was written — and `Ok(true)` must mean it, for the same
    /// reason [`ObjectStore::get_attribute`]'s `Ok(())` must. A method that claims a
    /// return value and writes none is answered with [`ActionResult::OtherReason`].
    ///
    /// # Errors
    /// An [`ActionResult`] the server sends back verbatim.
    fn invoke_method<W: Writer>(
        &mut self,
        _class_id: u16,
        _logical_name: Obis,
        _method_id: i8,
        _parameters: Option<Data<'_>>,
        _w: &mut W,
    ) -> (r: core::result::Result<bool, ActionResult>)
        ensures
            only_appended(old(_w).sink(), final(_w).sink()),
        default_ensures
            r == Err::<bool, ActionResult>(ActionResult::ObjectUndefined),
            *final(self) == *old(self),
    {
        assert(_w.sink().bytes.take(_w.sink().bytes.len() as int) =~= _w.sink().bytes);
        Err(ActionResult::ObjectUndefined)
    }

    /// What this association may do with an attribute.
    ///
    /// The default refuses everything, so a store that forgets to implement it exposes
    /// nothing rather than everything.
    fn attribute_access(&self, _class_id: u16, _logical_name: Obis, _attribute_id: i8) -> (r:
        AttributeAccess)
        default_ensures
            r == AttributeAccess::empty(),
    {
        AttributeAccess::empty()
    }

    /// What this association may do with a method.
    fn method_access(&self, _class_id: u16, _logical_name: Obis, _method_id: i8) -> (r:
        MethodAccess)
        default_ensures
            r == MethodAccess::empty(),
    {
        MethodAccess::empty()
    }

    /// Which object a short name belongs to, for a store that serves short names.
    ///
    /// A table of [`crate::cosem::ShortName`] and [`crate::cosem::sn::resolve`] answer it.
    /// The default knows none.
    fn resolve_short_name(&self, _name: u16) -> (r: Option<ShortNameTarget>)
        default_ensures
            r is None,
    {
        None
    }

    /// Record what the server was asked to do and what came of it.
    ///
    /// Called for every association attempt, every attribute read and write and every
    /// method invocation, **after** the outcome is known and including the refusals —
    /// the framework decides access, so a store that only saw the calls it was asked to
    /// service would never learn that anything had been denied.
    ///
    /// The default does nothing, so a store that does not want a trail pays nothing for
    /// one. It lives here rather than behind a separate generic parameter because
    /// auditing and serving are the same object's business: a meter that records a
    /// breaker operation wants it in the same flash transaction as the operation.
    ///
    /// This is not a write-ahead log. The event is recorded after the fact, so a device
    /// that must have the record on disk *before* the relay moves has to do that inside
    /// [`ObjectStore::invoke_method`], where it has the ordering guarantee.
    fn audit(&mut self, _event: AuditEvent)
        default_ensures
            *final(self) == *old(self),
    {
    }
}

/// Ask a store for the value of an attribute, with so much room for it: what it wrote, and
/// what it answered.
pub fn ask_value<S: ObjectStore>(
    store: &S,
    d: &AttributeDescriptor,
    access: Option<SelectiveAccess<'_>>,
    room: usize,
) -> (q: (Vec<u8>, StoreResult<()>))
    ensures
        exists|w: &mut BoundedWriter, r: StoreResult<()>|
            #![trigger call_ensures(S::get_attribute::<BoundedWriter>, (store, d.class_id, d.instance_id, d.attribute_id, access, w), r)]
            {
                &&& (*w).sink() == (Sink { bytes: Seq::empty(), cap: Some(room as nat) })
                &&& (*final(w)).sink().bytes == q.0@
                &&& r == q.1
                &&& call_ensures(
                    S::get_attribute::<BoundedWriter>,
                    (store, d.class_id, d.instance_id, d.attribute_id, access, w),
                    r,
                )
            },
        q.0@.len() <= room,
{
    let mut w = BoundedWriter::new(room);
    let r = store.get_attribute(d.class_id, d.instance_id, d.attribute_id, access, &mut w);
    assert(exists|m: &mut BoundedWriter|
        #![trigger call_ensures(S::get_attribute::<BoundedWriter>, (store, d.class_id, d.instance_id, d.attribute_id, access, m), r)]
        {
            &&& (*m).sink() == (Sink { bytes: Seq::empty(), cap: Some(room as nat) })
            &&& (*final(m)).sink() == w.sink()
            &&& call_ensures(
                S::get_attribute::<BoundedWriter>,
                (store, d.class_id, d.instance_id, d.attribute_id, access, m),
                r,
            )
        });
    (w.finish(), r)
}

/// Hand a store a value for an attribute: what it answered, and the store before and after.
pub fn give_value<S: ObjectStore>(
    store: &mut S,
    d: &AttributeDescriptor,
    access: Option<SelectiveAccess<'_>>,
    value: Data<'_>,
) -> (q: (StoreResult<()>, Ghost<(S, S)>))
    ensures
        q.1@ == (*old(store), *final(store)),
        exists|m: &mut S, r: StoreResult<()>|
            #![trigger call_ensures(S::set_attribute, (m, d.class_id, d.instance_id, d.attribute_id, access, value), r)]
            {
                &&& *m == *old(store)
                &&& *final(m) == *final(store)
                &&& r == q.0
                &&& call_ensures(
                    S::set_attribute,
                    (m, d.class_id, d.instance_id, d.attribute_id, access, value),
                    r,
                )
            },
{
    let ghost before = *store;
    let r = store.set_attribute(d.class_id, d.instance_id, d.attribute_id, access, value);
    (r, Ghost((before, *store)))
}

/// Ask a store to run a method, with so much room for what it returns: what it wrote, what
/// it answered, and the store before and after.
pub fn ask_to_run<S: ObjectStore>(
    store: &mut S,
    d: &MethodDescriptor,
    parameters: Option<Data<'_>>,
    room: usize,
) -> (q: (Vec<u8>, core::result::Result<bool, ActionResult>, Ghost<(S, S)>))
    ensures
        q.2@ == (*old(store), *final(store)),
        exists|m: &mut S, w: &mut BoundedWriter, r: core::result::Result<bool, ActionResult>|
            #![trigger call_ensures(S::invoke_method::<BoundedWriter>, (m, d.class_id, d.instance_id, d.method_id, parameters, w), r)]
            {
                &&& *m == *old(store)
                &&& *final(m) == *final(store)
                &&& (*w).sink() == (Sink { bytes: Seq::empty(), cap: Some(room as nat) })
                &&& (*final(w)).sink().bytes == q.0@
                &&& r == q.1
                &&& call_ensures(
                    S::invoke_method::<BoundedWriter>,
                    (m, d.class_id, d.instance_id, d.method_id, parameters, w),
                    r,
                )
            },
        q.0@.len() <= room,
{
    let ghost before = *store;
    let mut w = BoundedWriter::new(room);
    let r = store.invoke_method(d.class_id, d.instance_id, d.method_id, parameters, &mut w);
    assert(exists|m: &mut S, v: &mut BoundedWriter|
        #![trigger call_ensures(S::invoke_method::<BoundedWriter>, (m, d.class_id, d.instance_id, d.method_id, parameters, v), r)]
        {
            &&& *m == before
            &&& *final(m) == *store
            &&& (*v).sink() == (Sink { bytes: Seq::empty(), cap: Some(room as nat) })
            &&& (*final(v)).sink() == w.sink()
            &&& call_ensures(
                S::invoke_method::<BoundedWriter>,
                (m, d.class_id, d.instance_id, d.method_id, parameters, v),
                r,
            )
        });
    (w.finish(), r, Ghost((before, *store)))
}

/// Tell a store of an event: the store before and after.
pub fn tell<S: ObjectStore>(store: &mut S, event: AuditEvent) -> (q: Ghost<(S, S)>)
    ensures
        q@ == (*old(store), *final(store)),
        exists|m: &mut S|
            #![trigger call_ensures(S::audit, (m, event), ())]
            *m == *old(store) && *final(m) == *final(store) && call_ensures(
                S::audit,
                (m, event),
                (),
            ),
{
    let ghost before = *store;
    store.audit(event);
    Ghost((before, *store))
}

/// Whether a store that is told of an event is left like this.
pub open spec fn noted<S: ObjectStore>(before: S, event: AuditEvent, after: S) -> bool {
    exists|m: &mut S, q: Ghost<(S, S)>| #[trigger]
        call_ensures(tell::<S>, (m, event), q) && q@ == (before, after)
}

/// Whether a store, asked what may be done with an attribute, answers with these rights.
pub open spec fn grants<S: ObjectStore>(
    store: S,
    d: AttributeDescriptorV,
    rights: AttributeAccess,
) -> bool {
    call_ensures(
        S::attribute_access,
        (&store, d.class_id, name_of(d.instance_id), d.attribute_id),
        rights,
    )
}

/// Whether a store, asked what may be done with a method, answers with these rights.
pub open spec fn allows<S: ObjectStore>(
    store: S,
    d: MethodDescriptorV,
    rights: MethodAccess,
) -> bool {
    call_ensures(
        S::method_access,
        (&store, d.class_id, name_of(d.instance_id), d.method_id),
        rights,
    )
}

/// Whether a store, asked what a short name belongs to, answers with this.
pub open spec fn resolves<S: ObjectStore>(
    store: S,
    name: u16,
    target: Option<ShortNameTarget>,
) -> bool {
    call_ensures(S::resolve_short_name, (&store, name), target)
}

/// Whether a store, asked for the value of an attribute with so much room for it, writes
/// this and answers like this.
pub open spec fn yields<S: ObjectStore>(
    store: S,
    d: AttributeDescriptorV,
    access: Option<SelectiveAccessV>,
    room: nat,
    written: Seq<u8>,
    r: StoreResult<()>,
) -> bool {
    exists|
        e: &AttributeDescriptor,
        a: Option<SelectiveAccess<'_>>,
        n: usize,
        q: (Vec<u8>, StoreResult<()>),
    |
        {
            &&& #[trigger] call_ensures(ask_value::<S>, (&store, e, a, n), q)
            &&& e@ == d
            &&& opt_view(a) == access
            &&& n == room
            &&& q.0@ == written
            &&& q.1 == r
        }
}

/// Whether a store that is handed a value for an attribute answers like this and is left
/// like this.
pub open spec fn takes<S: ObjectStore>(
    before: S,
    d: AttributeDescriptorV,
    access: Option<SelectiveAccessV>,
    value: DataV,
    r: StoreResult<()>,
    after: S,
) -> bool {
    exists|
        m: &mut S,
        e: &AttributeDescriptor,
        a: Option<SelectiveAccess<'_>>,
        v: Data<'_>,
        q: (StoreResult<()>, Ghost<(S, S)>),
    |
        {
            &&& #[trigger] call_ensures(give_value::<S>, (m, e, a, v), q)
            &&& e@ == d
            &&& opt_view(a) == access
            &&& v@ == value
            &&& q.0 == r
            &&& q.1@ == (before, after)
        }
}

/// Whether a store that is asked to run a method, with so much room for what it returns,
/// writes this, answers like this and is left like this.
pub open spec fn runs<S: ObjectStore>(
    before: S,
    d: MethodDescriptorV,
    parameters: Option<DataV>,
    room: nat,
    written: Seq<u8>,
    r: core::result::Result<bool, ActionResult>,
    after: S,
) -> bool {
    exists|
        m: &mut S,
        e: &MethodDescriptor,
        p: Option<Data<'_>>,
        n: usize,
        q: (Vec<u8>, core::result::Result<bool, ActionResult>, Ghost<(S, S)>),
    |
        {
            &&& #[trigger] call_ensures(ask_to_run::<S>, (m, e, p, n), q)
            &&& e@ == d
            &&& opt_view(p) == parameters
            &&& n == room
            &&& q.0@ == written
            &&& q.1 == r
            &&& q.2@ == (before, after)
        }
}

/// What a server was asked to do, and what came of it.
///
/// Every variant carries its **outcome**, because an audit trail that records only what
/// succeeded is the wrong half: after an incident the question is almost always which
/// refusals happened and in what order.
#[derive(Debug, Clone, Copy, PartialEq, Eq)]
#[non_exhaustive]
#[allow(inconsistent_fields)]
pub enum AuditEvent {
    /// An association was established, and with which authentication.
    Associated {
        /// How the client proved who it was.
        mechanism: AuthMechanism,
        /// Whether the association's APDUs are protected.
        ciphered: bool,
    },
    /// An association was refused, and why.
    AssociationRefused {
        /// What the AARE told the client.
        diagnostic: UserDiagnostic,
    },
    /// An association was released or reset.
    Released,
    /// An attribute was read, or refused.
    AttributeRead {
        /// Which class.
        class_id: u16,
        /// Which object.
        logical_name: Obis,
        /// Which attribute.
        attribute_id: i8,
        /// What the client was told. A store that reports success and writes nothing has
        /// that recorded as the success it claimed: by a read of one attribute, before what
        /// the client was told; by a read of a short name, in its place.
        outcome: DataAccessResult,
    },
    /// An attribute was written, or refused.
    AttributeWritten {
        /// Which class.
        class_id: u16,
        /// Which object.
        logical_name: Obis,
        /// Which attribute.
        attribute_id: i8,
        /// What the client was told.
        outcome: DataAccessResult,
    },
    /// A method was invoked, or refused. Every one of these is worth recording: this is
    /// where a breaker opens.
    MethodInvoked {
        /// Which class.
        class_id: u16,
        /// Which object.
        logical_name: Obis,
        /// Which method.
        method_id: i8,
        /// What the client was told. A method that claims a value and writes none has that
        /// recorded as the success it claimed.
        outcome: ActionResult,
    },
}

} // verus!
