//! What a store is asked for, and what is made of its answers.

use vstd::prelude::*;

use super::store::ObjectStore;
#[allow(unused_imports)]
use super::invoke::{calls, invokes, MethodResult};
#[allow(unused_imports)]
use super::read::{asks, reads, reads_alone, reads_by_name};
#[allow(unused_imports)]
use super::store::{
    allows, ask_to_run, ask_value, give_value, grants, noted, runs, takes, tell, yields, AuditEvent,
    StoreResult,
};
#[allow(unused_imports)]
use super::write::{puts, writes_to};
#[allow(unused_imports)]
use crate::axdr::data::{Data, DataV};
#[allow(unused_imports)]
use crate::codec::{BoundedWriter, Sink, Writer};
#[allow(unused_imports)]
use crate::cosem::access::{AttributeAccess, MethodAccess};
#[allow(unused_imports)]
use crate::obis::{lemma_name_of, name_of};
#[allow(unused_imports)]
use crate::xdlms::list::opt_view;
#[allow(unused_imports)]
use crate::xdlms::result::{ActionResult, DataAccessResult};
#[allow(unused_imports)]
use crate::xdlms::service::{
    AttributeDescriptor, AttributeDescriptorV, MethodDescriptor, MethodDescriptorV,
    SelectiveAccess, SelectiveAccessV,
};

verus! {

/// What a store yields is what its `get_attribute` writes into an empty writer with that much
/// room, asked for that very attribute of that very object with that very selection.
pub proof fn law_yielded_is_asked_for<S: ObjectStore>(
    store: S,
    d: AttributeDescriptorV,
    access: Option<SelectiveAccessV>,
    room: nat,
    written: Seq<u8>,
    r: StoreResult<()>,
)
    requires
        yields(store, d, access, room, written, r),
    ensures
        exists|a: Option<SelectiveAccess<'_>>, w: &mut BoundedWriter|
            #![trigger call_ensures(S::get_attribute::<BoundedWriter>, (&store, d.class_id, name_of(d.instance_id), d.attribute_id, a, w), r)]
            {
                &&& call_ensures(
                    S::get_attribute::<BoundedWriter>,
                    (&store, d.class_id, name_of(d.instance_id), d.attribute_id, a, w),
                    r,
                )
                &&& opt_view(a) == access
                &&& (*w).sink() == (Sink { bytes: Seq::empty(), cap: Some(room) })
                &&& (*final(w)).sink().bytes == written
            },
{
    let (e, a, n, q) = choose|
        e: &AttributeDescriptor,
        a: Option<SelectiveAccess<'_>>,
        n: usize,
        q: (Vec<u8>, StoreResult<()>),
    |
        {
            &&& #[trigger] call_ensures(ask_value::<S>, (&store, e, a, n), q)
            &&& e@ == d
            &&& opt_view(a) == access
            &&& n == room
            &&& q.0@ == written
            &&& q.1 == r
        };
    lemma_name_of(e.instance_id);
    let (w, said) = choose|w: &mut BoundedWriter, said: StoreResult<()>|
        #![trigger call_ensures(S::get_attribute::<BoundedWriter>, (&store, e.class_id, e.instance_id, e.attribute_id, a, w), said)]
        {
            &&& (*w).sink() == (Sink { bytes: Seq::empty(), cap: Some(n as nat) })
            &&& (*final(w)).sink().bytes == q.0@
            &&& said == q.1
            &&& call_ensures(
                S::get_attribute::<BoundedWriter>,
                (&store, e.class_id, e.instance_id, e.attribute_id, a, w),
                said,
            )
        };
    assert(call_ensures(
        S::get_attribute::<BoundedWriter>,
        (&store, d.class_id, name_of(d.instance_id), d.attribute_id, a, w),
        r,
    ));
}

/// What a store takes is what its `set_attribute` is handed: that value, for that attribute
/// of that object, with that selection.
pub proof fn law_taken_is_handed_over<S: ObjectStore>(
    before: S,
    d: AttributeDescriptorV,
    access: Option<SelectiveAccessV>,
    value: DataV,
    r: StoreResult<()>,
    after: S,
)
    requires
        takes(before, d, access, value, r, after),
    ensures
        exists|m: &mut S, a: Option<SelectiveAccess<'_>>, v: Data<'_>|
            #![trigger call_ensures(S::set_attribute, (m, d.class_id, name_of(d.instance_id), d.attribute_id, a, v), r)]
            {
                &&& call_ensures(
                    S::set_attribute,
                    (m, d.class_id, name_of(d.instance_id), d.attribute_id, a, v),
                    r,
                )
                &&& *m == before
                &&& *final(m) == after
                &&& opt_view(a) == access
                &&& v@ == value
            },
{
    let (m, e, a, v, q) = choose|
        m: &mut S,
        e: &AttributeDescriptor,
        a: Option<SelectiveAccess<'_>>,
        v: Data<'_>,
        q: (StoreResult<()>, Ghost<(S, S)>),
    |
        {
            &&& #[trigger] call_ensures(give_value::<S>, (m, e, a, v), q)
            &&& e@ == d
            &&& opt_view(a) == access
            &&& v@ == value
            &&& q.0 == r
            &&& q.1@ == (before, after)
        };
    lemma_name_of(e.instance_id);
    let (t, said) = choose|t: &mut S, said: StoreResult<()>|
        #![trigger call_ensures(S::set_attribute, (t, e.class_id, e.instance_id, e.attribute_id, a, v), said)]
        {
            &&& *t == *m
            &&& *final(t) == *final(m)
            &&& said == q.0
            &&& call_ensures(
                S::set_attribute,
                (t, e.class_id, e.instance_id, e.attribute_id, a, v),
                said,
            )
        };
    assert(call_ensures(
        S::set_attribute,
        (t, d.class_id, name_of(d.instance_id), d.attribute_id, a, v),
        r,
    ));
}

/// A method that a store runs is run by its `invoke_method`: that method of that object, with
/// that parameter and an empty writer with that much room.
pub proof fn law_run_is_called<S: ObjectStore>(
    before: S,
    d: MethodDescriptorV,
    parameters: Option<DataV>,
    room: nat,
    written: Seq<u8>,
    r: core::result::Result<bool, ActionResult>,
    after: S,
)
    requires
        runs(before, d, parameters, room, written, r, after),
    ensures
        exists|m: &mut S, p: Option<Data<'_>>, w: &mut BoundedWriter|
            #![trigger call_ensures(S::invoke_method::<BoundedWriter>, (m, d.class_id, name_of(d.instance_id), d.method_id, p, w), r)]
            {
                &&& call_ensures(
                    S::invoke_method::<BoundedWriter>,
                    (m, d.class_id, name_of(d.instance_id), d.method_id, p, w),
                    r,
                )
                &&& *m == before
                &&& *final(m) == after
                &&& opt_view(p) == parameters
                &&& (*w).sink() == (Sink { bytes: Seq::empty(), cap: Some(room) })
                &&& (*final(w)).sink().bytes == written
            },
{
    let (m, e, p, n, q) = choose|
        m: &mut S,
        e: &MethodDescriptor,
        p: Option<Data<'_>>,
        n: usize,
        q: (Vec<u8>, core::result::Result<bool, ActionResult>, Ghost<(S, S)>),
    |
        {
            &&& #[trigger] call_ensures(ask_to_run::<S>, (m, e, p, n), q)
            &&& e@ == d
            &&& opt_view(p) == parameters
            &&& n == room
            &&& q.0@ == written
            &&& q.1 == r
            &&& q.2@ == (before, after)
        };
    lemma_name_of(e.instance_id);
    let (t, w, said) = choose|
        t: &mut S,
        w: &mut BoundedWriter,
        said: core::result::Result<bool, ActionResult>,
    |
        #![trigger call_ensures(S::invoke_method::<BoundedWriter>, (t, e.class_id, e.instance_id, e.method_id, p, w), said)]
        {
            &&& *t == *m
            &&& *final(t) == *final(m)
            &&& (*w).sink() == (Sink { bytes: Seq::empty(), cap: Some(n as nat) })
            &&& (*final(w)).sink().bytes == q.0@
            &&& said == q.1
            &&& call_ensures(
                S::invoke_method::<BoundedWriter>,
                (t, e.class_id, e.instance_id, e.method_id, p, w),
                said,
            )
        };
    assert(call_ensures(
        S::invoke_method::<BoundedWriter>,
        (t, d.class_id, name_of(d.instance_id), d.method_id, p, w),
        r,
    ));
}

/// The rights to an attribute or a method are those that the store names for that very
/// attribute or method of that very object, and what it is told it is told through `audit`.
pub proof fn law_rights_are_the_stores<S: ObjectStore>(
    store: S,
    d: AttributeDescriptorV,
    m: MethodDescriptorV,
    event: AuditEvent,
    after: S,
)
    ensures
        forall|rights: AttributeAccess| #[trigger]
            grants(store, d, rights) ==> call_ensures(
                S::attribute_access,
                (&store, d.class_id, name_of(d.instance_id), d.attribute_id),
                rights,
            ),
        forall|rights: MethodAccess| #[trigger]
            allows(store, m, rights) ==> call_ensures(
                S::method_access,
                (&store, m.class_id, name_of(m.instance_id), m.method_id),
                rights,
            ),
        noted(store, event, after) ==> exists|t: &mut S|
            #![trigger call_ensures(S::audit, (t, event), ())]
            call_ensures(S::audit, (t, event), ()) && *t == store && *final(t) == after,
{
    if noted(store, event, after) {
        let (t, q) = choose|t: &mut S, q: Ghost<(S, S)>| #[trigger]
            call_ensures(tell::<S>, (t, event), q) && q@ == (store, after);
        assert(call_ensures(tell::<S>, (t, event), q));
    }
}

/// What the store answers to a read, and what the client is told: without the right, that it
/// is denied, and the store is not asked; with it, what the store wrote for that attribute
/// and that selection, or why it did not; and a success with nothing written is no success.
pub proof fn law_read_is_what_the_store_holds<S: ObjectStore>(
    before: S,
    d: AttributeDescriptorV,
    access: Option<SelectiveAccessV>,
    room: nat,
    outcome: StoreResult<Seq<u8>>,
    after: S,
)
    requires
        reads(before, d, access, room, outcome, after) || reads_alone(
            before,
            d,
            access,
            room,
            outcome,
            after,
        ) || reads_by_name(before, d, access, room, outcome, after),
    ensures
        outcome matches Ok(v) ==> v.len() > 0 && yields(
            before,
            d,
            access,
            room,
            v,
            Ok::<(), DataAccessResult>(()),
        ),
        outcome matches Err(e) ==> {
            ||| e is ReadWriteDenied && exists|rights: AttributeAccess| #[trigger]
                grants(before, d, rights) && !rights.can_read()
            ||| exists|w: Seq<u8>| #[trigger]
                yields(before, d, access, room, w, Err::<(), DataAccessResult>(e))
            ||| e is OtherReason && yields(
                before,
                d,
                access,
                room,
                Seq::empty(),
                Ok::<(), DataAccessResult>(()),
            )
        },
        exists|rights: AttributeAccess| #[trigger]
            grants(before, d, rights) && (!rights.can_read() ==> outcome == Err::<
                Seq<u8>,
                DataAccessResult,
            >(DataAccessResult::ReadWriteDenied)),
{
    reveal(reads);
    let (rights, written, r) = choose|rights: AttributeAccess, written: Seq<u8>, r: StoreResult<()>|
        #[trigger]
        asks(before, d, access, room, rights, written, r) && outcome
            == super::read::read_outcome(rights, written, r);
    if written.len() == 0 {
        assert(written =~= Seq::empty());
    }
    assert(grants(before, d, rights));
    match r {
        Ok(u) => {
            assert(u == ());
        },
        Err(e) => {},
    }
}

/// What is written is what the store is handed: without the right nothing is, and the client
/// is told that it is denied; with it, that value for that attribute and that selection is,
/// and the client is told what the store answers. The store is then told the same.
pub proof fn law_write_is_what_the_store_takes<S: ObjectStore>(
    before: S,
    d: AttributeDescriptorV,
    access: Option<SelectiveAccessV>,
    value: DataV,
    outcome: DataAccessResult,
    after: S,
)
    requires
        writes_to(before, d, access, value, outcome, after),
    ensures
        exists|rights: AttributeAccess, held: S|
            #![trigger grants(before, d, rights), noted(held, AuditEvent::AttributeWritten { class_id: d.class_id, logical_name: name_of(d.instance_id), attribute_id: d.attribute_id, outcome }, after)]
            {
                &&& grants(before, d, rights)
                &&& if !rights.can_write() {
                    held == before && outcome is ReadWriteDenied
                } else {
                    ||| outcome is Success && takes(
                        before,
                        d,
                        access,
                        value,
                        Ok::<(), DataAccessResult>(()),
                        held,
                    )
                    ||| takes(
                        before,
                        d,
                        access,
                        value,
                        Err::<(), DataAccessResult>(outcome),
                        held,
                    )
                }
                &&& noted(
                    held,
                    AuditEvent::AttributeWritten {
                        class_id: d.class_id,
                        logical_name: name_of(d.instance_id),
                        attribute_id: d.attribute_id,
                        outcome,
                    },
                    after,
                )
            },
{
    let (rights, r, held) = choose|rights: AttributeAccess, r: StoreResult<()>, held: S|
        {
            &&& grants(before, d, rights)
            &&& #[trigger] puts(before, d, access, value, rights, r, held)
            &&& outcome == super::write::write_outcome(rights, r)
            &&& super::write::write_noted(held, d, outcome, after)
        };
    assert(grants(before, d, rights) && noted(
        held,
        AuditEvent::AttributeWritten {
            class_id: d.class_id,
            logical_name: name_of(d.instance_id),
            attribute_id: d.attribute_id,
            outcome,
        },
        after,
    ));
    match r {
        Ok(u) => {
            assert(u == ());
        },
        Err(e) => {},
    }
}

/// What a method comes to: without the right it is not run, and the client is told that it
/// is denied; with it, it is run with that parameter, and the client is told what it returned
/// or why it did not. A value that is claimed and not written is none.
pub proof fn law_invocation_is_what_the_store_runs<S: ObjectStore>(
    before: S,
    d: MethodDescriptorV,
    parameters: Option<DataV>,
    room: nat,
    outcome: MethodResult<Seq<u8>>,
    after: S,
)
    requires
        invokes(before, d, parameters, room, outcome, after),
    ensures
        exists|rights: MethodAccess, held: S, said: ActionResult|
            #![trigger allows(before, d, rights), noted(held, AuditEvent::MethodInvoked { class_id: d.class_id, logical_name: name_of(d.instance_id), method_id: d.method_id, outcome: said }, after)]
            {
                &&& allows(before, d, rights)
                &&& noted(
                    held,
                    AuditEvent::MethodInvoked {
                        class_id: d.class_id,
                        logical_name: name_of(d.instance_id),
                        method_id: d.method_id,
                        outcome: said,
                    },
                    after,
                )
                &&& if !rights.can_invoke() {
                    &&& held == before
                    &&& said is ReadWriteDenied
                    &&& outcome == Err::<Option<Seq<u8>>, ActionResult>(said)
                } else {
                    exists|w: Seq<u8>, r: core::result::Result<bool, ActionResult>|
                        {
                            &&& #[trigger] runs(before, d, parameters, room, w, r, held)
                            &&& match r {
                                Err(e) => said == e && outcome == Err::<
                                    Option<Seq<u8>>,
                                    ActionResult,
                                >(e),
                                Ok(false) => said is Success && outcome == Ok::<
                                    Option<Seq<u8>>,
                                    ActionResult,
                                >(None),
                                Ok(true) => said is Success && outcome == if w.len() > 0 {
                                    Ok::<Option<Seq<u8>>, ActionResult>(Some(w))
                                } else {
                                    Err::<Option<Seq<u8>>, ActionResult>(ActionResult::OtherReason)
                                },
                            }
                        }
                }
            },
{
    reveal(invokes);
    let (rights, written, r, held) = choose|
        rights: MethodAccess,
        written: Seq<u8>,
        r: core::result::Result<bool, ActionResult>,
        held: S,
    |
        {
            &&& allows(before, d, rights)
            &&& #[trigger] calls(before, d, parameters, rights, room, written, r, held)
            &&& outcome == super::invoke::method_outcome(rights, written, r)
            &&& super::invoke::method_noted(
                held,
                d,
                super::invoke::answered_action(rights, r),
                after,
            )
        };
    let said = super::invoke::answered_action(rights, r);
    assert(allows(before, d, rights) && noted(
        held,
        AuditEvent::MethodInvoked {
            class_id: d.class_id,
            logical_name: name_of(d.instance_id),
            method_id: d.method_id,
            outcome: said,
        },
        after,
    ));
    if rights.can_invoke() {
        assert(runs(before, d, parameters, room, written, r, held));
    }
}

/// A read is put on record with what the client is told of it: once, where it is one of
/// several; by itself, with what the store answered, and again where the client is told
/// otherwise; and by short name, with what the store answered.
pub proof fn law_reads_are_on_record<S: ObjectStore>(
    before: S,
    d: AttributeDescriptorV,
    access: Option<SelectiveAccessV>,
    room: nat,
    outcome: StoreResult<Seq<u8>>,
    after: S,
)
    ensures
        reads(before, d, access, room, outcome, after) ==> noted(
            before,
            AuditEvent::AttributeRead {
                class_id: d.class_id,
                logical_name: name_of(d.instance_id),
                attribute_id: d.attribute_id,
                outcome: match outcome {
                    Ok(_) => DataAccessResult::Success,
                    Err(e) => e,
                },
            },
            after,
        ),
        reads_alone(before, d, access, room, outcome, after) || reads_by_name(
            before,
            d,
            access,
            room,
            outcome,
            after,
        ) ==> (outcome is Ok || !(outcome->Err_0 is OtherReason) ==> noted(
            before,
            AuditEvent::AttributeRead {
                class_id: d.class_id,
                logical_name: name_of(d.instance_id),
                attribute_id: d.attribute_id,
                outcome: match outcome {
                    Ok(_) => DataAccessResult::Success,
                    Err(e) => e,
                },
            },
            after,
        )),
{
    reveal(reads);
}

} // verus!
