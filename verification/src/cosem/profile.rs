//! Profile generic: selective access and typed rows.

use vstd::prelude::*;

use crate::axdr::data::{Data, DataSeq};
use crate::axdr::datetime::DateTime;
use crate::bytes::copy_into;
use crate::codec::{Encode, Error, ErrorKind, Result, Writer};
use crate::obis::Obis;
use crate::xdlms::service::SelectiveAccess;
#[allow(unused_imports)]
use super::access::{field_number, invalid};
#[allow(unused_imports)]
use crate::axdr::data::{
    enc_trees, fit_trees, law_tree_round_trip, p_data, p_nth, shallow_trees, tree_of, trees_of,
    DataTag, DataV, SeqV, TreeV, MAX_DEPTH,
};
#[allow(unused_imports)]
use crate::bytes::{be_bytes, lemma_be_bytes_len};
#[allow(unused_imports)]
use crate::codec::{enc_length, overflows, whole, Cursor};

verus! {

/// What a capture object is.
#[verifier::ext_equal]
pub struct CaptureV {
    /// The class of the captured object.
    pub class_id: u16,
    /// Its logical name.
    pub logical_name: Seq<u8>,
    /// Which of its attributes was captured.
    pub attribute_index: i8,
    /// Which element of a structured attribute, or 0 for the whole thing.
    pub data_index: u16,
}

impl CaptureV {
    /// The structure that stands for it.
    pub open spec fn tree(self) -> TreeV {
        TreeV::Structure(
            seq![
                TreeV::LongUnsigned(self.class_id),
                TreeV::OctetString(self.logical_name),
                TreeV::Integer(self.attribute_index),
                TreeV::LongUnsigned(self.data_index),
            ],
        )
    }

    /// What a `capture_object_definition` structure stands for.
    pub open spec fn of(d: DataV) -> Result<CaptureV> {
        match d {
            DataV::Structure(s) => match field_number(s, 0, 0xFFFF) {
                Err(e) => Err(e),
                Ok(class_id) => match s.item(1) {
                    Err(e) => Err(e),
                    Ok(name) => match name.string() {
                        Some(logical_name) if logical_name.len() == 6 => match s.item(2) {
                            Err(e) => Err(e),
                            Ok(index) => match index.integer() {
                                Some(n) if -128 <= n <= 127 => match field_number(s, 3, 0xFFFF) {
                                    Err(e) => Err(e),
                                    Ok(data_index) => Ok(
                                        CaptureV {
                                            class_id: class_id as u16,
                                            logical_name,
                                            attribute_index: n as i8,
                                            data_index: data_index as u16,
                                        },
                                    ),
                                },
                                _ => Err(invalid()),
                            },
                        },
                        _ => Err(invalid()),
                    },
                },
            },
            _ => Err(invalid()),
        }
    }
}

/// Which capture object a range selection is measured against.
#[derive(Debug, Clone, Copy, PartialEq, Eq)]
pub struct CaptureObject {
    /// The class of the captured object.
    pub class_id: u16,
    /// Its logical name.
    pub logical_name: Obis,
    /// Which of its attributes was captured.
    pub attribute_index: i8,
    /// Which element of a structured attribute, or 0 for the whole thing.
    pub data_index: u16,
}

impl View for CaptureObject {
    type V = CaptureV;

    open spec fn view(&self) -> CaptureV {
        CaptureV {
            class_id: self.class_id,
            logical_name: self.logical_name@,
            attribute_index: self.attribute_index,
            data_index: self.data_index,
        }
    }
}

impl CaptureObject {
    /// A capture object.
    #[must_use]
    pub fn new(class_id: u16, logical_name: Obis, attribute_index: i8, data_index: u16) -> (r: Self)
        ensures
            r@ == (CaptureV {
                class_id,
                logical_name: logical_name@,
                attribute_index,
                data_index,
            }),
    {
        CaptureObject { class_id, logical_name, attribute_index, data_index }
    }

    /// The clock's time attribute, which is what nearly every profile sorts by.
    #[must_use]
    pub fn clock() -> (r: Self)
        ensures
            r@ == (CaptureV {
                class_id: 8,
                logical_name: seq![0u8, 0u8, 1u8, 0u8, 0u8, 255u8],
                attribute_index: 2,
                data_index: 0,
            }),
    {
        CaptureObject::new(8, Obis::new(0, 0, 1, 0, 0, 255), 2, 0)
    }

    /// Decode one `capture_object_definition` structure.
    ///
    /// # Errors
    /// When it is not a structure of an identifier, a logical name and two indices.
    pub fn from_data(d: &Data<'_>) -> (r: Result<Self>)
        ensures
            match r {
                Ok(c) => CaptureV::of(d@) == Ok::<CaptureV, Error>(c@),
                Err(e) => CaptureV::of(d@) == Err::<CaptureV, Error>(e),
            },
    {
        let s = match d.as_structure() {
            Some(s) => s,
            None => {
                return Err(bad());
            },
        };
        let first = s.get(0)?;
        let class_id: u16 = match first.as_u64() {
            Some(n) if n <= 0xFFFF => n as u16,
            _ => {
                return Err(bad());
            },
        };
        let second = s.get(1)?;
        let logical_name = match second.as_obis() {
            Some(o) => o,
            None => {
                return Err(bad());
            },
        };
        let third = s.get(2)?;
        let attribute_index: i8 = match third.as_i64() {
            Some(n) if -128 <= n && n <= 127 => n as i8,
            _ => {
                return Err(bad());
            },
        };
        let fourth = s.get(3)?;
        let data_index: u16 = match fourth.as_u64() {
            Some(n) if n <= 0xFFFF => n as u16,
            _ => {
                return Err(bad());
            },
        };
        Ok(CaptureObject { class_id, logical_name, attribute_index, data_index })
    }
}

fn bad() -> (e: Error)
    ensures
        e == invalid(),
{
    Error::new(ErrorKind::InvalidValue, 0)
}

/// The encoding of a capture object, byte by byte.
proof fn lemma_capture_bytes(c: CaptureV)
    requires
        c.logical_name.len() == 6,
    ensures
        c.tree().enc() == seq![2u8, 4u8, 0x12u8] + be_bytes(c.class_id as nat, 2) + seq![
            9u8,
            6u8,
        ] + c.logical_name + seq![0x0Fu8, c.attribute_index as u8, 0x12u8] + be_bytes(
            c.data_index as nat,
            2,
        ),
        c.tree().encodable(),
        c.tree().shallow(3),
{
    let ts = seq![
        TreeV::LongUnsigned(c.class_id),
        TreeV::OctetString(c.logical_name),
        TreeV::Integer(c.attribute_index),
        TreeV::LongUnsigned(c.data_index),
    ];
    lemma_four(ts, 3);
    assert(ts[1].enc() =~= seq![9u8, 6u8] + c.logical_name);
    assert(c.tree().enc() =~= seq![2u8, 4u8, 0x12u8] + be_bytes(c.class_id as nat, 2) + seq![
        9u8,
        6u8,
    ] + c.logical_name + seq![0x0Fu8, c.attribute_index as u8, 0x12u8] + be_bytes(
        c.data_index as nat,
        2,
    ));
}

/// The encoding of a structure of four values.
proof fn lemma_four(ts: Seq<TreeV>, limit: nat)
    requires
        ts.len() == 4,
        limit > 0,
        forall|i: int| 0 <= i < 4 ==> (#[trigger] ts[i]).encodable(),
        forall|i: int| 0 <= i < 4 ==> (#[trigger] ts[i]).shallow((limit - 1) as nat),
    ensures
        TreeV::Structure(ts).enc() == seq![2u8, 4u8] + ts[0].enc() + ts[1].enc() + ts[2].enc()
            + ts[3].enc(),
        TreeV::Structure(ts).encodable(),
        TreeV::Structure(ts).shallow(limit),
{
    let t = TreeV::Structure(ts);
    assert(enc_trees(ts, 0) =~= Seq::empty());
    assert(enc_trees(ts, 1) =~= ts[0].enc());
    assert(enc_trees(ts, 2) =~= ts[0].enc() + ts[1].enc());
    assert(enc_trees(ts, 3) =~= ts[0].enc() + ts[1].enc() + ts[2].enc());
    assert(enc_trees(ts, 4) =~= ts[0].enc() + ts[1].enc() + ts[2].enc() + ts[3].enc());
    assert(t.enc() =~= seq![2u8] + (enc_length(4) + enc_trees(ts, 4)));
    assert(fit_trees(ts, 0) && shallow_trees(ts, 0, (limit - 1) as nat));
    assert(fit_trees(ts, 1) && shallow_trees(ts, 1, (limit - 1) as nat));
    assert(fit_trees(ts, 2) && shallow_trees(ts, 2, (limit - 1) as nat));
    assert(fit_trees(ts, 3) && shallow_trees(ts, 3, (limit - 1) as nat));
    assert(fit_trees(ts, 4) && shallow_trees(ts, 4, (limit - 1) as nat));
}

impl Encode for CaptureObject {
    open spec fn enc(&self) -> Seq<u8> {
        self@.tree().enc()
    }

    open spec fn encodable(&self) -> bool {
        true
    }

    fn encode<W: Writer>(&self, w: &mut W) -> (r: Result<()>) {
        let ghost w0 = w.sink().bytes;
        proof {
            lemma_capture_bytes(self@);
            lemma_be_bytes_len(self.class_id as nat, 2);
            lemma_be_bytes_len(self.data_index as nat, 2);
        }
        w.write_bytes([0x02, 0x04, 0x12].as_slice())?;
        w.write_u16(self.class_id)?;
        w.write_bytes([0x09, 0x06].as_slice())?;
        w.write_bytes(self.logical_name.as_bytes().as_slice())?;
        w.write_bytes([0x0F, self.attribute_index as u8, 0x12].as_slice())?;
        w.write_u16(self.data_index)?;
        assert(w.sink().bytes =~= w0 + self@.tree().enc());
        Ok(())
    }
}

/// A capture object decodes from its own encoding.
pub proof fn law_capture_object_round_trip(c: CaptureV)
    requires
        c.logical_name.len() == 6,
    ensures
        whole(p_data(Cursor::start(c.tree().enc()), 0)) matches Ok(v) && CaptureV::of(v) == Ok::<
            CaptureV,
            Error,
        >(c),
{
    lemma_capture_bytes(c);
    lemma_shallow_more(c.tree(), 3, MAX_DEPTH as nat);
    law_tree_round_trip(c.tree());
    let v = whole(p_data(Cursor::start(c.tree().enc()), 0))->Ok_0;
    lemma_structure(v, c.tree()->Structure_0);
}

/// A tree that fits in some levels fits in more.
proof fn lemma_shallow_more(t: TreeV, a: nat, b: nat)
    requires
        t.shallow(a),
        a <= b,
    ensures
        t.shallow(b),
    decreases t, 0nat,
{
    match t {
        TreeV::Array(ts) => {
            lemma_shallow_trees_more(ts, ts.len(), (a - 1) as nat, (b - 1) as nat);
        },
        TreeV::Structure(ts) => {
            lemma_shallow_trees_more(ts, ts.len(), (a - 1) as nat, (b - 1) as nat);
        },
        _ => {},
    }
}

proof fn lemma_shallow_trees_more(ts: Seq<TreeV>, n: nat, a: nat, b: nat)
    requires
        shallow_trees(ts, n, a),
        a <= b,
    ensures
        shallow_trees(ts, n, b),
    decreases ts, n,
{
    if n > 0 && n <= ts.len() {
        lemma_shallow_trees_more(ts, (n - 1) as nat, a, b);
        lemma_shallow_more(ts[n - 1], a, b);
    }
}

/// The items of a structure are its trees, one by one.
proof fn lemma_structure(v: DataV, ts: Seq<TreeV>)
    requires
        tree_of(v) == Ok::<TreeV, Error>(TreeV::Structure(ts)),
    ensures
        v matches DataV::Structure(s) && s.count == ts.len() && forall|i: nat|
            i < ts.len() ==> (#[trigger] s.item(i) matches Ok(x) && tree_of(x) == Ok::<
                TreeV,
                Error,
            >(ts[i as int])),
{
    if let DataV::Structure(s) = v {
        assert forall|i: nat| i < ts.len() implies (#[trigger] s.item(i) matches Ok(x) && tree_of(x)
            == Ok::<TreeV, Error>(ts[i as int])) by {
            lemma_items(s.start(), s.count, s.depth as nat, ts, i);
        }
        lemma_count(s.start(), s.count, s.depth as nat);
    }
}

/// A run has as many trees as values.
proof fn lemma_count(c: Cursor, n: nat, depth: nat)
    ensures
        trees_of(c, n, depth) matches Ok(ts) ==> ts.len() == n,
    decreases n,
{
    if n > 0 {
        if let Ok((_, d)) = p_data(c, depth) {
            lemma_count(d, (n - 1) as nat, depth);
        }
    }
}

/// Value `i` of a run is tree `i`.
proof fn lemma_items(c: Cursor, n: nat, depth: nat, ts: Seq<TreeV>, i: nat)
    requires
        trees_of(c, n, depth) == Ok::<Seq<TreeV>, Error>(ts),
        i < ts.len(),
    ensures
        i < n,
        p_nth(c, i, depth) matches Ok((x, _)) && tree_of(x) == Ok::<TreeV, Error>(ts[i as int]),
    decreases n,
{
    let (v, d) = p_data(c, depth)->Ok_0;
    let rest = trees_of(d, (n - 1) as nat, depth)->Ok_0;
    assert(ts == seq![tree_of(v)->Ok_0] + rest);
    if i > 0 {
        lemma_items(d, (n - 1) as nat, depth, rest, (i - 1) as nat);
        assert(ts[i as int] == rest[i - 1]);
    }
}

/// What asking for a part of a profile comes to: the selector and the tree that names the
/// part, where the buffer holds its encoding.
pub open spec fn selects(
    selector: u8,
    tree: TreeV,
    before: Seq<u8>,
    after: Seq<u8>,
    r: Result<SelectiveAccess<'_>>,
) -> bool {
    match r {
        Ok(a) => {
            &&& tree.enc().len() <= before.len()
            &&& after == tree.enc() + before.skip(tree.enc().len() as int)
            &&& a.selector == selector
            &&& tree_of(a.parameters@) == Ok::<TreeV, Error>(tree)
        },
        Err(e) => {
            &&& tree.enc().len() > before.len()
            &&& overflows(e, tree.enc(), before.len())
            &&& after == before
        },
    }
}

/// Put a description into a buffer and read it back from there.
fn select<'b>(
    selector: u8,
    bytes: Vec<u8>,
    buf: &'b mut [u8],
    Ghost(tree): Ghost<TreeV>,
) -> (r: Result<SelectiveAccess<'b>>)
    requires
        bytes@ == tree.enc(),
        tree.encodable(),
        tree.shallow(MAX_DEPTH as nat),
    ensures
        selects(selector, tree, old(buf)@, final(buf)@, r),
{
    let n: usize = bytes.len();
    if n > buf.len() {
        return Err(Error::new(ErrorKind::BufferTooSmall { needed: n - buf.len() }, 0));
    }
    copy_into(buf, bytes.as_slice());
    let done: &[u8] = &*buf;
    let written = vstd::slice::slice_subrange(done, 0, n);
    proof {
        law_tree_round_trip(tree);
        assert(written@ =~= tree.enc());
    }
    let parameters = Data::from_bytes_in(written)?;
    Ok(SelectiveAccess { selector, parameters })
}

/// Read the rows whose sort value falls in a range — selector 1.
#[derive(Debug, Clone, Copy, PartialEq, Eq)]
pub struct RangeDescriptor {
    /// Which captured value the range applies to. Almost always the clock.
    pub restricting_object: CaptureObject,
    /// The first value to include.
    pub from: DateTime,
    /// The last value to include.
    pub to: DateTime,
}

impl RangeDescriptor {
    /// The structure that names the range. An empty array selects every captured column.
    pub open spec fn tree(self) -> TreeV {
        TreeV::Structure(
            seq![
                self.restricting_object@.tree(),
                TreeV::OctetString(self.from.wire()),
                TreeV::OctetString(self.to.wire()),
                TreeV::Array(Seq::empty()),
            ],
        )
    }

    /// A range over the clock, which is what a load-profile read wants.
    #[must_use]
    pub fn by_clock(from: DateTime, to: DateTime) -> (r: Self)
        ensures
            r.restricting_object@ == (CaptureV {
                class_id: 8,
                logical_name: seq![0u8, 0u8, 1u8, 0u8, 0u8, 255u8],
                attribute_index: 2,
                data_index: 0,
            }),
            r.from == from,
            r.to == to,
    {
        RangeDescriptor { restricting_object: CaptureObject::clock(), from, to }
    }

    /// The selective access descriptor this range becomes, in a buffer of the caller's.
    ///
    /// # Errors
    /// [`ErrorKind::BufferTooSmall`] when the buffer does not hold it.
    pub fn to_selective_access<'b>(&self, buf: &'b mut [u8]) -> (r: Result<SelectiveAccess<'b>>)
        ensures
            selects(1, self.tree(), old(buf)@, final(buf)@, r),
    {
        let mut w: Vec<u8> = Vec::new();
        // structure { restricting_object, from, to, selected_values }
        w.push(0x02);
        w.push(0x04);
        self.restricting_object.encode(&mut w)?;
        w.push(0x09);
        w.push(0x0C);
        w.write_bytes(self.from.to_bytes().as_slice())?;
        w.push(0x09);
        w.push(0x0C);
        w.write_bytes(self.to.to_bytes().as_slice())?;
        w.push(0x01);
        w.push(0x00);
        proof {
            lemma_range_bytes(*self);
            assert(w@ =~= self.tree().enc());
        }
        select(1, w, buf, Ghost(self.tree()))
    }
}

/// The encoding of a range, byte by byte.
proof fn lemma_range_bytes(d: RangeDescriptor)
    ensures
        d.tree().enc() == seq![2u8, 4u8] + d.restricting_object@.tree().enc() + seq![9u8, 12u8]
            + d.from.wire() + seq![9u8, 12u8] + d.to.wire() + seq![1u8, 0u8],
        d.tree().encodable(),
        d.tree().shallow(MAX_DEPTH as nat),
{
    let ts = seq![
        d.restricting_object@.tree(),
        TreeV::OctetString(d.from.wire()),
        TreeV::OctetString(d.to.wire()),
        TreeV::Array(Seq::empty()),
    ];
    lemma_capture_bytes(d.restricting_object@);
    lemma_shallow_more(d.restricting_object@.tree(), 3, (MAX_DEPTH - 1) as nat);
    assert(ts[3].encodable() && ts[3].shallow((MAX_DEPTH - 1) as nat));
    lemma_four(ts, MAX_DEPTH as nat);
    assert(ts[1].enc() =~= seq![9u8, 12u8] + d.from.wire());
    assert(ts[2].enc() =~= seq![9u8, 12u8] + d.to.wire());
    assert(enc_trees(Seq::<TreeV>::empty(), 0) =~= Seq::empty());
    assert(ts[3].enc() =~= seq![1u8, 0u8]);
    assert(d.tree().enc() =~= seq![2u8, 4u8] + d.restricting_object@.tree().enc() + seq![9u8, 12u8]
        + d.from.wire() + seq![9u8, 12u8] + d.to.wire() + seq![1u8, 0u8]);
}

/// Read rows by their position in the buffer — selector 2.
#[derive(Debug, Clone, Copy, PartialEq, Eq)]
pub struct EntryDescriptor {
    /// The first entry, counting from one.
    pub from_entry: u32,
    /// The last entry; zero means "to the end".
    pub to_entry: u32,
    /// The first column, counting from one.
    pub from_value: u16,
    /// The last column; zero means "every column".
    pub to_value: u16,
}

impl EntryDescriptor {
    /// The structure that names the entries.
    pub open spec fn tree(self) -> TreeV {
        TreeV::Structure(
            seq![
                TreeV::DoubleLongUnsigned(self.from_entry),
                TreeV::DoubleLongUnsigned(self.to_entry),
                TreeV::LongUnsigned(self.from_value),
                TreeV::LongUnsigned(self.to_value),
            ],
        )
    }

    /// Every column of a range of entries.
    #[must_use]
    pub fn entries(from: u32, to: u32) -> (r: Self)
        ensures
            r == (EntryDescriptor { from_entry: from, to_entry: to, from_value: 1, to_value: 0 }),
    {
        EntryDescriptor { from_entry: from, to_entry: to, from_value: 1, to_value: 0 }
    }

    /// The selective access descriptor this becomes, in a buffer of the caller's.
    ///
    /// # Errors
    /// [`ErrorKind::BufferTooSmall`] when the buffer does not hold it.
    pub fn to_selective_access<'b>(&self, buf: &'b mut [u8]) -> (r: Result<SelectiveAccess<'b>>)
        ensures
            selects(2, self.tree(), old(buf)@, final(buf)@, r),
    {
        let mut w: Vec<u8> = Vec::new();
        w.push(0x02);
        w.push(0x04);
        w.push(0x06);
        w.write_u32(self.from_entry)?;
        w.push(0x06);
        w.write_u32(self.to_entry)?;
        w.push(0x12);
        w.write_u16(self.from_value)?;
        w.push(0x12);
        w.write_u16(self.to_value)?;
        proof {
            lemma_entry_bytes(*self);
            assert(w@ =~= self.tree().enc());
        }
        select(2, w, buf, Ghost(self.tree()))
    }
}

/// The encoding of a range of entries, byte by byte.
proof fn lemma_entry_bytes(d: EntryDescriptor)
    ensures
        d.tree().enc() == seq![2u8, 4u8, 6u8] + be_bytes(d.from_entry as nat, 4) + seq![6u8]
            + be_bytes(d.to_entry as nat, 4) + seq![0x12u8] + be_bytes(d.from_value as nat, 2)
            + seq![0x12u8] + be_bytes(d.to_value as nat, 2),
        d.tree().encodable(),
        d.tree().shallow(MAX_DEPTH as nat),
{
    let ts = seq![
        TreeV::DoubleLongUnsigned(d.from_entry),
        TreeV::DoubleLongUnsigned(d.to_entry),
        TreeV::LongUnsigned(d.from_value),
        TreeV::LongUnsigned(d.to_value),
    ];
    lemma_four(ts, MAX_DEPTH as nat);
    assert(d.tree().enc() =~= seq![2u8, 4u8, 6u8] + be_bytes(d.from_entry as nat, 4) + seq![6u8]
        + be_bytes(d.to_entry as nat, 4) + seq![0x12u8] + be_bytes(d.from_value as nat, 2) + seq![
        0x12u8,
    ] + be_bytes(d.to_value as nat, 2));
}

/// The most capture objects [`ProfileBuffer::for_each_cell`] can undo compression for.
///
/// No profile comes close to this.
pub const MAX_COLUMNS: usize = 32;

/// The value that a delta gives, after the previous value in the same column; nothing where
/// the two are not of the same kind.
pub open spec fn delta_applied(previous: DataV, delta: DataV) -> Option<DataV> {
    match (previous, delta) {
        (DataV::Integer(base), DataV::DeltaInteger(d)) => Some(
            DataV::Integer(base.wrapping_add(d)),
        ),
        (DataV::Long(base), DataV::DeltaLong(d)) => Some(DataV::Long(base.wrapping_add(d))),
        (DataV::DoubleLong(base), DataV::DeltaDoubleLong(d)) => Some(
            DataV::DoubleLong(base.wrapping_add(d)),
        ),
        (DataV::Unsigned(base), DataV::DeltaUnsigned(d)) => Some(
            DataV::Unsigned(base.wrapping_add(d)),
        ),
        (DataV::LongUnsigned(base), DataV::DeltaLongUnsigned(d)) => Some(
            DataV::LongUnsigned(base.wrapping_add(d)),
        ),
        (DataV::DoubleLongUnsigned(base), DataV::DeltaDoubleLongUnsigned(d)) => Some(
            DataV::DoubleLongUnsigned(base.wrapping_add(d)),
        ),
        _ => None,
    }
}

/// Apply a delta to the previous value in the same column.
///
/// The six delta types carry the *difference* from the previous row's value in the same
/// column, which is what makes a load profile compress: a register that climbs by a few
/// hundred each interval sends a byte or two instead of four. Expanding one therefore needs
/// the neighbour it is relative to, and that is why it happens here rather than in [`Data`]
/// — a `Data` that knew its neighbours would be a different type.
///
/// Two rules keep this honest:
///
/// * **The delta's width decides the base type**, and the previous value must already be
///   that type. A `delta-long-unsigned` after a `double-long-unsigned` is a column whose
///   type changed mid-buffer, which is a meter fault or a misread row — either way, not
///   something to paper over by widening silently.
/// * **The arithmetic wraps in the base type**, because that is where the meter's own
///   register wraps. An expansion that saturated would turn a register rollover into a
///   plateau, which reads as a meter that stopped counting.
///
/// The signed delta types add signed differences; the unsigned ones add unsigned
/// increments, which is what their names say and what makes them worth having — a
/// quantity known not to decrease does not need a sign bit.
#[must_use]
pub fn apply_delta<'a>(previous: Data<'_>, delta: Data<'_>) -> (r: Option<Data<'a>>)
    ensures
        match r {
            Some(v) => delta_applied(previous@, delta@) == Some(v@),
            None => delta_applied(previous@, delta@) is None,
        },
{
    match (previous, delta) {
        (Data::Integer(base), Data::DeltaInteger(d)) => Some(Data::Integer(base.wrapping_add(d))),
        (Data::Long(base), Data::DeltaLong(d)) => Some(Data::Long(base.wrapping_add(d))),
        (Data::DoubleLong(base), Data::DeltaDoubleLong(d)) => Some(
            Data::DoubleLong(base.wrapping_add(d)),
        ),
        (Data::Unsigned(base), Data::DeltaUnsigned(d)) => Some(
            Data::Unsigned(base.wrapping_add(d)),
        ),
        (Data::LongUnsigned(base), Data::DeltaLongUnsigned(d)) => Some(
            Data::LongUnsigned(base.wrapping_add(d)),
        ),
        (Data::DoubleLongUnsigned(base), Data::DeltaDoubleLongUnsigned(d)) => Some(
            Data::DoubleLongUnsigned(base.wrapping_add(d)),
        ),
        _ => None,
    }
}

/// The value in a cell, given what the row before had there: a repetition and a difference
/// both need one.
pub open spec fn cell_value(previous: Option<DataV>, cell: DataV) -> Result<DataV> {
    if cell is Null {
        repeated(previous)
    } else if cell.tag().delta() {
        match previous {
            None => Err(invalid()),
            Some(base) => match delta_applied(base, cell) {
                Some(v) => Ok(v),
                None => Err(Error { kind: ErrorKind::TypeMismatch, offset: 0 }),
            },
        }
    } else {
        Ok(cell)
    }
}

/// The value of the row before.
pub open spec fn repeated(previous: Option<DataV>) -> Result<DataV> {
    match previous {
        Some(v) => Ok(v),
        None => Err(invalid()),
    }
}

/// The value in a column of a row: a column that the row leaves out is unchanged.
pub open spec fn column_value(previous: Option<DataV>, row: SeqV, column: nat) -> Result<DataV> {
    if column < row.count {
        match row.item(column) {
            Err(e) => Err(e),
            Ok(cell) => cell_value(previous, cell),
        }
    } else {
        repeated(previous)
    }
}

/// What the row before had in a column.
pub open spec fn above(previous: Option<Seq<DataV>>, column: nat) -> Option<DataV> {
    match previous {
        Some(row) => Some(row[column as int]),
        None => None,
    }
}

/// The values in the first columns of a row.
pub open spec fn row_values(previous: Option<Seq<DataV>>, row: SeqV, columns: nat) -> Result<
    Seq<DataV>,
>
    decreases columns,
{
    if columns == 0 {
        Ok(Seq::empty())
    } else {
        match row_values(previous, row, (columns - 1) as nat) {
            Err(e) => Err(e),
            Ok(values) => match column_value(
                above(previous, (columns - 1) as nat),
                row,
                (columns - 1) as nat,
            ) {
                Err(e) => Err(e),
                Ok(v) => Ok(values.push(v)),
            },
        }
    }
}

/// A row of a buffer, as it arrived.
pub open spec fn raw_row(rows: SeqV, i: nat) -> Result<SeqV> {
    match rows.item(i) {
        Err(e) => Err(e),
        Ok(v) => match v {
            DataV::Structure(s) => Ok(s),
            _ => Err(invalid()),
        },
    }
}

/// The row before the next, where there is one.
pub open spec fn last_row(table: Seq<Seq<DataV>>) -> Option<Seq<DataV>> {
    if table.len() == 0 {
        None
    } else {
        Some(table.last())
    }
}

/// The values of the first rows, with the compression undone.
pub open spec fn table(rows: SeqV, columns: nat, n: nat) -> Result<Seq<Seq<DataV>>>
    decreases n,
{
    if n == 0 {
        Ok(Seq::empty())
    } else {
        match table(rows, columns, (n - 1) as nat) {
            Err(e) => Err(e),
            Ok(t) => match raw_row(rows, (n - 1) as nat) {
                Err(e) => Err(e),
                Ok(row) => match row_values(last_row(t), row, columns) {
                    Err(e) => Err(e),
                    Ok(values) => Ok(t.push(values)),
                },
            },
        }
    }
}

/// What a cell is: its row, its column and its value.
#[verifier::ext_equal]
pub struct CellV {
    /// The row, counting from zero.
    pub row: nat,
    /// The column, counting from zero.
    pub column: nat,
    /// The value.
    pub value: DataV,
}

/// The cells of a row.
pub open spec fn row_cells(row: nat, values: Seq<DataV>) -> Seq<CellV> {
    Seq::new(values.len(), |c: int| CellV { row, column: c as nat, value: values[c] })
}

/// The cells of a table, row by row.
pub open spec fn cells(t: Seq<Seq<DataV>>) -> Seq<CellV>
    decreases t.len(),
{
    if t.len() == 0 {
        Seq::empty()
    } else {
        cells(t.drop_last()) + row_cells((t.len() - 1) as nat, t.last())
    }
}

/// A cell of a profile: its row, its column and its value.
#[derive(Debug, Clone, Copy, PartialEq)]
pub struct Cell<'a> {
    /// The row, counting from zero.
    pub row: usize,
    /// The column, counting from zero.
    pub column: usize,
    /// The value.
    pub value: Data<'a>,
}

impl<'a> View for Cell<'a> {
    type V = CellV;

    open spec fn view(&self) -> CellV {
        CellV { row: self.row as nat, column: self.column as nat, value: self.value@ }
    }
}

/// A decoded profile buffer, with the columns it was captured against.
///
/// Both of the compressions a profile buffer uses are undone here, because a caller that
/// has to remember the previous row is a caller that will forget:
///
/// * **Null-data compression** — a column that repeats the previous row's value is sent
///   as `null-data`, or, for a run at the end of a row, left out by making the row
///   shorter.
/// * **Delta encoding** — a column sends the *difference* from the previous row, in one of
///   the six delta types.
///
/// A caller that skipped either gets numbers rather than an error: zeroes where a
/// reading repeated, and differences where readings were meant.
#[derive(Debug, Clone, Copy)]
pub struct ProfileBuffer<'a> {
    rows: DataSeq<'a>,
}

impl<'a> View for ProfileBuffer<'a> {
    type V = SeqV;

    closed spec fn view(&self) -> SeqV {
        self.rows@
    }
}

impl<'a> ProfileBuffer<'a> {
    /// Wrap the array a `buffer` attribute returned.
    ///
    /// # Errors
    /// [`ErrorKind::InvalidValue`] when it is not an array.
    pub fn new(buffer: &Data<'a>) -> (r: Result<Self>)
        ensures
            match r {
                Ok(b) => buffer@ == DataV::Array(b@),
                Err(e) => !(buffer@ is Array) && e == invalid(),
            },
    {
        match buffer.as_array() {
            Some(rows) => Ok(ProfileBuffer { rows }),
            None => Err(bad()),
        }
    }

    /// How many rows.
    #[must_use]
    pub fn len(&self) -> (n: usize)
        ensures
            n == self@.count,
    {
        self.rows.len()
    }

    /// True when the buffer is empty.
    #[must_use]
    pub fn is_empty(&self) -> (r: bool)
        ensures
            r == (self@.count == 0),
    {
        self.rows.is_empty()
    }

    /// One row as it arrived.
    fn row(&self, i: usize) -> (r: Result<DataSeq<'a>>)
        ensures
            match r {
                Ok(s) => raw_row(self@, i as nat) == Ok::<SeqV, Error>(s@),
                Err(e) => raw_row(self@, i as nat) == Err::<SeqV, Error>(e),
            },
    {
        let row = self.rows.get(i)?;
        match row.as_structure() {
            Some(s) => Ok(s),
            None => Err(bad()),
        }
    }

    /// The rows as they arrived, without undoing compression.
    #[must_use]
    pub fn raw_rows(&self) -> (r: Vec<Result<DataSeq<'a>>>)
        ensures
            r@.len() == self@.count,
            forall|i: int|
                0 <= i < r@.len() ==> (match #[trigger] r@[i] {
                    Ok(s) => raw_row(self@, i as nat) == Ok::<SeqV, Error>(s@),
                    Err(e) => raw_row(self@, i as nat) == Err::<SeqV, Error>(e),
                }),
    {
        let mut rows: Vec<Result<DataSeq<'a>>> = Vec::new();
        let mut i: usize = 0;
        while i < self.rows.len()
            invariant
                i <= self@.count,
                rows@.len() == i,
                forall|k: int|
                    0 <= k < rows@.len() ==> (match #[trigger] rows@[k] {
                        Ok(s) => raw_row(self@, k as nat) == Ok::<SeqV, Error>(s@),
                        Err(e) => raw_row(self@, k as nat) == Err::<SeqV, Error>(e),
                    }),
            decreases self@.count - i,
        {
            rows.push(self.row(i));
            i += 1;
        }
        rows
    }

    /// The values of a row with the compression undone, given those of the row before.
    #[verifier::loop_isolation(false)]
    fn expand(
        previous: &Option<Vec<Data<'a>>>,
        row: &DataSeq<'a>,
        columns: usize,
    ) -> (r: Result<Vec<Data<'a>>>)
        requires
            previous matches Some(p) ==> p@.len() == columns,
        ensures
            match r {
                Ok(values) => values@.len() == columns && row_values(
                    row_view(*previous),
                    row@,
                    columns as nat,
                ) == Ok::<Seq<DataV>, Error>(values_view(values@)),
                Err(e) => row_values(row_view(*previous), row@, columns as nat) == Err::<
                    Seq<DataV>,
                    Error,
                >(e),
            },
    {
        let mut values: Vec<Data<'a>> = Vec::new();
        let mut col: usize = 0;
        let ghost before = row_view(*previous);
        assert(values_view(values@) =~= Seq::<DataV>::empty());
        while col < columns
            invariant
                col <= columns,
                values@.len() == col,
                row_values(before, row@, col as nat) == Ok::<Seq<DataV>, Error>(
                    values_view(values@),
                ),
            decreases columns - col,
        {
            let slot: Option<Data<'a>> = match previous {
                Some(p) => Some(p[col]),
                None => None,
            };
            assert(above(before, col as nat) == (match slot {
                Some(v) => Some(v@),
                None => None::<DataV>,
            }));
            let ghost so_far = values@;
            let value = match Self::value_at(slot, row, col) {
                Ok(v) => v,
                Err(e) => {
                    proof {
                        lemma_row_fails(before, row@, (col + 1) as nat, columns as nat);
                    }
                    return Err(e);
                },
            };
            values.push(value);
            assert(values_view(values@) =~= values_view(so_far).push(value@));
            col += 1;
        }
        Ok(values)
    }

    /// The value in a column of a row.
    fn value_at(slot: Option<Data<'a>>, row: &DataSeq<'a>, col: usize) -> (r: Result<Data<'a>>)
        ensures
            ({
                let want = column_value(
                    match slot {
                        Some(v) => Some(v@),
                        None => None,
                    },
                    row@,
                    col as nat,
                );
                match r {
                    Ok(v) => want == Ok::<DataV, Error>(v@),
                    Err(e) => want == Err::<DataV, Error>(e),
                }
            }),
    {
        if col >= row.len() {
            // A short row means the columns it left out are unchanged.
            return match slot {
                Some(v) => Ok(v),
                None => Err(bad()),
            };
        }
        let cell = row.get(col)?;
        if matches!(cell, Data::Null) {
            // Repeat: this column is unchanged from the previous row.
            return match slot {
                Some(v) => Ok(v),
                None => Err(bad()),
            };
        }
        if !cell.tag().is_delta() {
            return Ok(cell);
        }
        // Relative: expand against the previous row's value in this column. A delta in the
        // first row has nothing to be relative to, and a delta whose width disagrees with
        // the base is a column whose type changed — both are refused rather than guessed
        // at.
        let base = match slot {
            Some(v) => v,
            None => {
                return Err(bad());
            },
        };
        match apply_delta(base, cell) {
            Some(v) => Ok(v),
            None => Err(Error::new(ErrorKind::TypeMismatch, 0)),
        }
    }

    /// Every cell with its row and column, undoing compression against the previous row.
    ///
    /// `columns` is how many capture objects the profile has. Three compressions are
    /// undone: a column whose value repeats the previous row is sent as `null-data`; a
    /// run of repeated columns at the *end* of a row is sent by making the row shorter;
    /// and a column may send a **delta** from the previous row rather than a value. There
    /// are therefore exactly `columns` cells for every row, each an absolute value — which
    /// is the point.
    ///
    /// # Errors
    /// When `columns` exceeds [`MAX_COLUMNS`]; when a row is not a structure; when the
    /// first row omits a value or sends a delta and so has nothing to be relative to; or
    /// when a delta's base type does not match the value it follows.
    #[verifier::loop_isolation(false)]
    pub fn for_each_cell(&self, columns: usize) -> (r: Result<Vec<Cell<'a>>>)
        ensures
            match r {
                Ok(found) => columns <= MAX_COLUMNS && (table(
                    self@,
                    columns as nat,
                    self@.count,
                ) matches Ok(t) && cells_view(found@) == cells(t)),
                Err(e) => if columns > MAX_COLUMNS {
                    e == (Error { kind: ErrorKind::Unsupported, offset: 0 })
                } else {
                    table(self@, columns as nat, self@.count) == Err::<Seq<Seq<DataV>>, Error>(e)
                },
            },
    {
        if columns > MAX_COLUMNS {
            return Err(Error::new(ErrorKind::Unsupported, 0));
        }
        let mut previous: Option<Vec<Data<'a>>> = None;
        let mut found: Vec<Cell<'a>> = Vec::new();
        let ghost mut t: Seq<Seq<DataV>> = Seq::empty();
        let mut i: usize = 0;
        assert(cells_view(found@) =~= cells(t));
        while i < self.rows.len()
            invariant
                i <= self@.count,
                t.len() == i,
                table(self@, columns as nat, i as nat) == Ok::<Seq<Seq<DataV>>, Error>(t),
                row_view(previous) == last_row(t),
                previous matches Some(p) ==> p@.len() == columns,
                cells_view(found@) == cells(t),
            decreases self@.count - i,
        {
            let row = match self.row(i) {
                Ok(row) => row,
                Err(e) => {
                    proof {
                        lemma_table_fails(self@, columns as nat, (i + 1) as nat, self@.count);
                    }
                    return Err(e);
                },
            };
            let values = match Self::expand(&previous, &row, columns) {
                Ok(values) => values,
                Err(e) => {
                    proof {
                        lemma_table_fails(self@, columns as nat, (i + 1) as nat, self@.count);
                    }
                    return Err(e);
                },
            };
            let ghost before = t;
            let ghost all = values_view(values@);
            proof {
                t = t.push(all);
                assert(t.drop_last() =~= before);
            }
            list_row(&mut found, i, &values);
            assert(cells_view(found@) == cells(t));
            previous = Some(values);
            i += 1;
        }
        Ok(found)
    }
}

/// Append the cells of a row.
fn list_row<'a>(found: &mut Vec<Cell<'a>>, row: usize, values: &Vec<Data<'a>>)
    ensures
        cells_view(final(found)@) == cells_view(old(found)@) + row_cells(
            row as nat,
            values_view(values@),
        ),
{
    let ghost so_far = cells_view(found@);
    let ghost all = values_view(values@);
    let mut col: usize = 0;
    assert(so_far + row_cells(row as nat, all).take(0) =~= so_far);
    while col < values.len()
        invariant
            col <= values@.len(),
            all == values_view(values@),
            cells_view(found@) == so_far + row_cells(row as nat, all).take(col as int),
        decreases values@.len() - col,
    {
        let ghost f0 = found@;
        let cell = Cell { row, column: col, value: values[col] };
        found.push(cell);
        proof {
            assert(cell@ == row_cells(row as nat, all)[col as int]);
            assert(cells_view(found@) =~= cells_view(f0).push(cell@));
            assert(cells_view(found@) =~= so_far + row_cells(row as nat, all).take(col + 1));
        }
        col += 1;
    }
    assert(row_cells(row as nat, all).take(all.len() as int) =~= row_cells(row as nat, all));
}

/// What the values of a row are.
pub open spec fn values_view(v: Seq<Data<'_>>) -> Seq<DataV> {
    v.map_values(|d: Data<'_>| d@)
}

/// What the values of a row are that may be missing.
pub open spec fn row_view(v: Option<Vec<Data<'_>>>) -> Option<Seq<DataV>> {
    match v {
        Some(p) => Some(values_view(p@)),
        None => None,
    }
}

/// What the cells of a profile are.
pub open spec fn cells_view(v: Seq<Cell<'_>>) -> Seq<CellV> {
    v.map_values(|c: Cell<'_>| c@)
}

/// A row that fails in a column fails.
proof fn lemma_row_fails(previous: Option<Seq<DataV>>, row: SeqV, m: nat, n: nat)
    requires
        m <= n,
        row_values(previous, row, m) is Err,
    ensures
        row_values(previous, row, n) == row_values(previous, row, m),
    decreases n,
{
    if m < n {
        lemma_row_fails(previous, row, m, (n - 1) as nat);
    }
}

/// A table that fails in a row fails.
proof fn lemma_table_fails(rows: SeqV, columns: nat, m: nat, n: nat)
    requires
        m <= n,
        table(rows, columns, m) is Err,
    ensures
        table(rows, columns, n) == table(rows, columns, m),
    decreases n,
{
    if m < n {
        lemma_table_fails(rows, columns, m, (n - 1) as nat);
    }
}

/// Whether a value stands for itself: neither a repetition nor a difference.
pub open spec fn absolute(v: DataV) -> bool {
    !(v is Null) && !v.tag().delta()
}

/// Whether every value of a row stands for itself.
pub open spec fn all_absolute(row: Seq<DataV>) -> bool {
    forall|c: int| 0 <= c < row.len() ==> absolute(#[trigger] row[c])
}

/// A row that could be expanded has a value in every column, and each stands for itself.
proof fn lemma_row_full(previous: Option<Seq<DataV>>, row: SeqV, columns: nat, n: nat)
    requires
        n <= columns,
        previous matches Some(p) ==> p.len() == columns && all_absolute(p),
    ensures
        row_values(previous, row, n) matches Ok(values) ==> values.len() == n && all_absolute(
            values,
        ),
    decreases n,
{
    if n > 0 {
        lemma_row_full(previous, row, columns, (n - 1) as nat);
    }
}

/// Every row of an expanded profile has a value in every column, and each stands for
/// itself: no repetition and no difference is left.
pub proof fn law_every_row_is_full(rows: SeqV, columns: nat, n: nat)
    ensures
        table(rows, columns, n) matches Ok(t) ==> t.len() == n && forall|i: int|
            0 <= i < n ==> (#[trigger] t[i]).len() == columns && all_absolute(t[i]),
    decreases n,
{
    if n > 0 {
        law_every_row_is_full(rows, columns, (n - 1) as nat);
        if let Ok(t) = table(rows, columns, (n - 1) as nat) {
            if let Ok(row) = raw_row(rows, (n - 1) as nat) {
                lemma_row_full(last_row(t), row, columns, columns);
            }
        }
    }
}

/// The cells of an expanded profile are as many as rows times columns, and each is the value
/// of its row and column.
pub proof fn law_every_cell_is_listed(t: Seq<Seq<DataV>>, columns: nat, row: int, column: int)
    requires
        forall|i: int| 0 <= i < t.len() ==> (#[trigger] t[i]).len() == columns,
        0 <= row < t.len(),
        0 <= column < columns,
    ensures
        cells(t).len() == t.len() * columns,
        0 <= row * columns + column < cells(t).len(),
        cells(t)[row * columns + column] == (CellV {
            row: row as nat,
            column: column as nat,
            value: t[row][column],
        }),
    decreases t.len(),
{
    let before = t.drop_last();
    let n = before.len();
    lemma_cells_len(t, columns);
    lemma_cells_len(before, columns);
    assert(t.len() * columns == n * columns + columns) by (nonlinear_arith)
        requires
            t.len() == n + 1,
    ;
    if row < n {
        law_every_cell_is_listed(before, columns, row, column);
    }
    assert(row < n ==> row * columns + column < n * columns) by (nonlinear_arith)
        requires
            0 <= column < columns,
            0 <= row,
    ;
    assert(row * columns >= 0) by (nonlinear_arith)
        requires
            0 <= row,
    ;
}

/// There are as many cells as rows times columns.
proof fn lemma_cells_len(t: Seq<Seq<DataV>>, columns: nat)
    requires
        forall|i: int| 0 <= i < t.len() ==> (#[trigger] t[i]).len() == columns,
    ensures
        cells(t).len() == t.len() * columns,
    decreases t.len(),
{
    if t.len() > 0 {
        let n = t.drop_last().len();
        lemma_cells_len(t.drop_last(), columns);
        assert(t.len() * columns == n * columns + columns) by (nonlinear_arith)
            requires
                t.len() == n + 1,
        ;
    } else {
        assert(t.len() * columns == 0) by (nonlinear_arith)
            requires
                t.len() == 0,
        ;
    }
}

/// Whether a difference can follow a value in a column: the two are of the same width and
/// agree on the sign.
pub open spec fn pairs(p: DataTag, d: DataTag) -> bool {
    ||| p is Integer && d is DeltaInteger
    ||| p is Long && d is DeltaLong
    ||| p is DoubleLong && d is DeltaDoubleLong
    ||| p is Unsigned && d is DeltaUnsigned
    ||| p is LongUnsigned && d is DeltaLongUnsigned
    ||| p is DoubleLongUnsigned && d is DeltaDoubleLongUnsigned
}

/// Where the numbers of a tag begin again.
pub open spec fn turn(t: DataTag) -> int {
    if t is Integer || t is Unsigned {
        0x100
    } else if t is Long || t is LongUnsigned {
        0x1_0000
    } else {
        0x1_0000_0000
    }
}

/// Whether a number is one that a tag has.
pub open spec fn in_range(t: DataTag, n: int) -> bool {
    if t is Unsigned || t is LongUnsigned || t is DoubleLongUnsigned {
        0 <= n < turn(t)
    } else {
        -turn(t) <= 2 * n < turn(t)
    }
}

/// A difference is added to the value before it: the result is of the kind of that value, is
/// the sum where there is such a number, and otherwise the number at the same place of the
/// turn. It can be added exactly where it is of the same width and sign.
pub proof fn law_difference_is_added(p: DataV, d: DataV)
    ensures
        delta_applied(p, d) is Some == pairs(p.tag(), d.tag()),
        delta_applied(p, d) matches Some(v) ==> {
            &&& v.tag() == p.tag()
            &&& in_range(v.tag(), v.integer()->0)
            &&& v.integer() is Some && p.integer() is Some && d.integer() is Some
            &&& (v.integer()->0 - p.integer()->0 - d.integer()->0) % turn(p.tag()) == 0
            &&& in_range(p.tag(), p.integer()->0 + d.integer()->0) ==> v.integer()->0
                == p.integer()->0 + d.integer()->0
        },
{
}

/// What the numbers of a column are, whatever the kind: each is the number that was written.
pub proof fn law_numbers_are_as_written(a: i8, b: i16, c: i32, e: u8, f: u16, g: u32)
    ensures
        DataV::Integer(a).integer() == Some(a as int),
        DataV::Long(b).integer() == Some(b as int),
        DataV::DoubleLong(c).integer() == Some(c as int),
        DataV::Unsigned(e).integer() == Some(e as int),
        DataV::LongUnsigned(f).integer() == Some(f as int),
        DataV::DoubleLongUnsigned(g).integer() == Some(g as int),
        DataV::DeltaInteger(a).integer() == Some(a as int),
        DataV::DeltaLong(b).integer() == Some(b as int),
        DataV::DeltaDoubleLong(c).integer() == Some(c as int),
        DataV::DeltaUnsigned(e).integer() == Some(e as int),
        DataV::DeltaLongUnsigned(f).integer() == Some(f as int),
        DataV::DeltaDoubleLongUnsigned(g).integer() == Some(g as int),
{
}

/// What a row has in a column, as it arrived; nothing where the row is too short.
pub open spec fn sent_in(row: SeqV, c: nat) -> Option<Result<DataV>> {
    if c < row.count {
        Some(row.item(c))
    } else {
        None
    }
}

/// Whether a value is what a column comes to: what was sent, where that stands for itself;
/// what the row above has, where nothing or null was sent; and what the row above has plus
/// what was sent, where that is a difference.
pub open spec fn follows(up: Option<DataV>, sent: Option<Result<DataV>>, v: DataV) -> bool {
    match sent {
        None => up == Some(v),
        Some(Err(_)) => false,
        Some(Ok(s)) => match s {
            DataV::Null => up == Some(v),
            DataV::DeltaInteger(_)
            | DataV::DeltaLong(_)
            | DataV::DeltaDoubleLong(_)
            | DataV::DeltaUnsigned(_)
            | DataV::DeltaLongUnsigned(_)
            | DataV::DeltaDoubleLongUnsigned(_) => match up {
                None => false,
                Some(u) => {
                    &&& pairs(u.tag(), s.tag())
                    &&& v.tag() == u.tag()
                    &&& in_range(v.tag(), v.integer()->0)
                    &&& (v.integer()->0 - u.integer()->0 - s.integer()->0) % turn(u.tag()) == 0
                },
            },
            _ => v == s,
        },
    }
}

/// Whether a column of the next row comes to anything: a first row has to hold a value of
/// its own, and a difference has to be of the kind of what it is added to.
pub open spec fn can_follow(up: Option<DataV>, sent: Option<Result<DataV>>) -> bool {
    match sent {
        None => up is Some,
        Some(Err(_)) => false,
        Some(Ok(s)) => match s {
            DataV::Null => up is Some,
            DataV::DeltaInteger(_)
            | DataV::DeltaLong(_)
            | DataV::DeltaDoubleLong(_)
            | DataV::DeltaUnsigned(_)
            | DataV::DeltaLongUnsigned(_)
            | DataV::DeltaDoubleLongUnsigned(_) => up matches Some(u) && pairs(u.tag(), s.tag()),
            _ => true,
        },
    }
}

/// What the row above has in a column; nothing where there is none above.
pub open spec fn up_of(t: Seq<Seq<DataV>>, i: int, c: int) -> Option<DataV> {
    if i > 0 {
        Some(t[i - 1][c])
    } else {
        None
    }
}

proof fn lemma_column_follows(up: Option<DataV>, row: SeqV, c: nat)
    ensures
        column_value(up, row, c) is Ok == can_follow(up, sent_in(row, c)),
        column_value(up, row, c) matches Ok(v) ==> follows(up, sent_in(row, c), v),
{
    if let Some(Ok(s)) = sent_in(row, c) {
        if let Some(u) = up {
            law_difference_is_added(u, s);
        }
    }
}

proof fn lemma_row_follows(previous: Option<Seq<DataV>>, row: SeqV, columns: nat)
    ensures
        row_values(previous, row, columns) is Ok == forall|c: nat|
            c < columns ==> #[trigger] can_follow(above(previous, c), sent_in(row, c)),
        row_values(previous, row, columns) matches Ok(values) ==> values.len() == columns
            && forall|c: nat|
            c < columns ==> follows(
                above(previous, c),
                #[trigger] sent_in(row, c),
                values[c as int],
            ),
    decreases columns,
{
    if columns > 0 {
        let last = (columns - 1) as nat;
        lemma_row_follows(previous, row, last);
        lemma_column_follows(above(previous, last), row, last);
        assert(can_follow(above(previous, last), sent_in(row, last)) || !can_follow(
            above(previous, last),
            sent_in(row, last),
        ));
    }
}

/// Every value of an expanded profile follows from what was sent in its place and from the
/// value above it.
pub proof fn law_every_value_follows(rows: SeqV, columns: nat, n: nat, i: int, c: int)
    requires
        table(rows, columns, n) is Ok,
        0 <= i < n,
        0 <= c < columns,
    ensures
        ({
            let t = table(rows, columns, n)->Ok_0;
            rows.item(i as nat) matches Ok(DataV::Structure(row)) && follows(
                up_of(t, i, c),
                sent_in(row, c as nat),
                t[i][c],
            )
        }),
    decreases n,
{
    let t = table(rows, columns, (n - 1) as nat)->Ok_0;
    law_every_row_is_full(rows, columns, (n - 1) as nat);
    if i < n - 1 {
        law_every_value_follows(rows, columns, (n - 1) as nat, i, c);
    } else {
        let row = raw_row(rows, (n - 1) as nat)->Ok_0;
        lemma_row_follows(last_row(t), row, columns);
        assert(follows(
            above(last_row(t), c as nat),
            sent_in(row, c as nat),
            table(rows, columns, n)->Ok_0[i][c],
        ));
    }
}

/// One more row of a profile expands exactly where it is a structure in which every column
/// comes to something; and a profile with no rows always does.
pub proof fn law_next_row_expands(rows: SeqV, columns: nat, n: nat)
    ensures
        table(rows, columns, 0) == Ok::<Seq<Seq<DataV>>, Error>(Seq::empty()),
        table(rows, columns, n) is Err ==> table(rows, columns, n + 1) is Err,
        table(rows, columns, n) matches Ok(t) ==> table(rows, columns, n + 1) is Ok == (rows.item(
            n,
        ) matches Ok(DataV::Structure(row)) && forall|c: nat|
            c < columns ==> #[trigger] can_follow(up_of(t, n as int, c as int), sent_in(row, c))),
{
    if let Ok(t) = table(rows, columns, n) {
        law_every_row_is_full(rows, columns, n);
        if let Ok(row) = raw_row(rows, n) {
            lemma_row_follows(last_row(t), row, columns);
            assert forall|c: nat| c < columns implies up_of(t, n as int, c as int) == above(
                last_row(t),
                c,
            ) by {}
            if forall|c: nat|
                c < columns ==> #[trigger] can_follow(
                    up_of(t, n as int, c as int),
                    sent_in(row, c),
                ) {
                assert forall|c: nat| c < columns implies #[trigger] can_follow(
                    above(last_row(t), c),
                    sent_in(row, c),
                ) by {
                    assert(can_follow(up_of(t, n as int, c as int), sent_in(row, c)));
                }
            } else {
                let c = choose|c: nat|
                    c < columns && !#[trigger] can_follow(
                        up_of(t, n as int, c as int),
                        sent_in(row, c),
                    );
                assert(!can_follow(above(last_row(t), c), sent_in(row, c)));
            }
        }
    }
}

/// Whether a row is refused with an error: a row that is no structure, or a first row that
/// leaves something out or sends a difference, is an invalid value; a difference of another
/// kind than the value above is a mismatch; and anything else is an item that does not decode.
pub open spec fn refused_at(rows: SeqV, columns: nat, i: nat, e: Error) -> bool {
    match rows.item(i) {
        Err(f) => e == f,
        Ok(DataV::Structure(row)) => exists|c: nat|
            #![trigger sent_in(row, c)]
            c < columns && match sent_in(row, c) {
                Some(Err(f)) => e == f,
                _ if i == 0 => e == (Error { kind: ErrorKind::InvalidValue, offset: 0 }),
                _ => e == (Error { kind: ErrorKind::TypeMismatch, offset: 0 }),
            },
        Ok(_) => e == (Error { kind: ErrorKind::InvalidValue, offset: 0 }),
    }
}

/// A profile that does not expand is refused for the first of its rows that does not.
pub proof fn law_profile_is_refused(rows: SeqV, columns: nat, n: nat)
    ensures
        table(rows, columns, n) matches Err(e) ==> exists|i: nat|
            i < n && #[trigger] refused_at(rows, columns, i, e) && table(rows, columns, i) is Ok,
    decreases n,
{
    if n > 0 {
        let before = table(rows, columns, (n - 1) as nat);
        law_profile_is_refused(rows, columns, (n - 1) as nat);
        if before is Ok && table(rows, columns, n) is Err {
            let e = table(rows, columns, n)->Err_0;
            law_every_row_is_full(rows, columns, (n - 1) as nat);
            if let Ok(row) = raw_row(rows, (n - 1) as nat) {
                lemma_row_refused(last_row(before->Ok_0), row, columns);
            }
            assert(refused_at(rows, columns, (n - 1) as nat, e));
        }
    }
}

proof fn lemma_row_refused(previous: Option<Seq<DataV>>, row: SeqV, columns: nat)
    requires
        row_values(previous, row, columns) is Err,
    ensures
        exists|c: nat|
            #![trigger sent_in(row, c)]
            c < columns && match sent_in(row, c) {
                Some(Err(f)) => row_values(previous, row, columns)->Err_0 == f,
                _ if previous is None => row_values(previous, row, columns)->Err_0 == (Error {
                    kind: ErrorKind::InvalidValue,
                    offset: 0,
                }),
                _ => row_values(previous, row, columns)->Err_0 == (Error {
                    kind: ErrorKind::TypeMismatch,
                    offset: 0,
                }),
            },
    decreases columns,
{
    if columns > 0 {
        let last = (columns - 1) as nat;
        if row_values(previous, row, last) is Err {
            lemma_row_refused(previous, row, last);
        } else {
            assert(sent_in(row, last) is Some || sent_in(row, last) is None);
        }
    }
}

/// A selection of entries is selector 2, and its parameters, as they stand in the buffer, are
/// a structure of four numbers: the first entry and the last, the first column and the last.
pub proof fn law_entries_are_named(d: EntryDescriptor)
    ensures
        forall|buf: &mut [u8], a: SelectiveAccess<'_>|
            #![trigger call_ensures(EntryDescriptor::to_selective_access, (&d, buf), Ok::<SelectiveAccess<'_>, Error>(a))]
            call_ensures(
                EntryDescriptor::to_selective_access,
                (&d, buf),
                Ok::<SelectiveAccess<'_>, Error>(a),
            ) ==> {
                &&& a.selector == 2
                &&& final(buf)@.take(18) == seq![2u8, 4u8, 6u8] + be_bytes(d.from_entry as nat, 4)
                    + seq![6u8] + be_bytes(d.to_entry as nat, 4) + seq![0x12u8] + be_bytes(
                    d.from_value as nat,
                    2,
                ) + seq![0x12u8] + be_bytes(d.to_value as nat, 2)
                &&& final(buf)@.skip(18) == (*buf)@.skip(18)
            },
{
    lemma_entry_bytes(d);
    lemma_be_bytes_len(d.from_entry as nat, 4);
    lemma_be_bytes_len(d.to_entry as nat, 4);
    lemma_be_bytes_len(d.from_value as nat, 2);
    lemma_be_bytes_len(d.to_value as nat, 2);
    assert(d.tree().enc().len() == 18);
    assert forall|buf: &mut [u8], a: SelectiveAccess<'_>|
        #![trigger call_ensures(EntryDescriptor::to_selective_access, (&d, buf), Ok::<SelectiveAccess<'_>, Error>(a))]
        call_ensures(
            EntryDescriptor::to_selective_access,
            (&d, buf),
            Ok::<SelectiveAccess<'_>, Error>(a),
        ) implies a.selector == 2 && final(buf)@.take(18) == d.tree().enc() && final(buf)@.skip(18)
        == (*buf)@.skip(18) by {
        assert(selects(2, d.tree(), (*buf)@, final(buf)@, Ok::<SelectiveAccess<'_>, Error>(a)));
        assert(final(buf)@.take(18) =~= d.tree().enc());
        assert(final(buf)@.skip(18) =~= (*buf)@.skip(18));
    }
}

/// A selection by range is selector 1, and its parameters, as they stand in the buffer, are a
/// structure of what the range is measured by, the first value and the last, and an empty
/// list of columns, which stands for all of them.
pub proof fn law_range_is_named(d: RangeDescriptor)
    ensures
        forall|buf: &mut [u8], a: SelectiveAccess<'_>|
            #![trigger call_ensures(RangeDescriptor::to_selective_access, (&d, buf), Ok::<SelectiveAccess<'_>, Error>(a))]
            call_ensures(
                RangeDescriptor::to_selective_access,
                (&d, buf),
                Ok::<SelectiveAccess<'_>, Error>(a),
            ) ==> {
                &&& a.selector == 1
                &&& final(buf)@.take(50) == seq![2u8, 4u8] + (seq![2u8, 4u8, 0x12u8] + be_bytes(
                    d.restricting_object.class_id as nat,
                    2,
                ) + seq![9u8, 6u8] + d.restricting_object.logical_name@ + seq![
                    0x0Fu8,
                    d.restricting_object.attribute_index as u8,
                    0x12u8,
                ] + be_bytes(d.restricting_object.data_index as nat, 2)) + seq![9u8, 12u8]
                    + d.from.wire() + seq![9u8, 12u8] + d.to.wire() + seq![1u8, 0u8]
                &&& final(buf)@.skip(50) == (*buf)@.skip(50)
            },
{
    lemma_range_bytes(d);
    lemma_capture_bytes(d.restricting_object@);
    lemma_be_bytes_len(d.restricting_object.class_id as nat, 2);
    lemma_be_bytes_len(d.restricting_object.data_index as nat, 2);
    let n = d.tree().enc().len() as int;
    assert(n == 50);
    assert forall|buf: &mut [u8], a: SelectiveAccess<'_>|
        #![trigger call_ensures(RangeDescriptor::to_selective_access, (&d, buf), Ok::<SelectiveAccess<'_>, Error>(a))]
        call_ensures(
            RangeDescriptor::to_selective_access,
            (&d, buf),
            Ok::<SelectiveAccess<'_>, Error>(a),
        ) implies a.selector == 1 && final(buf)@.take(50) == d.tree().enc() && final(buf)@.skip(50)
        == (*buf)@.skip(50) by {
        assert(selects(1, d.tree(), (*buf)@, final(buf)@, Ok::<SelectiveAccess<'_>, Error>(a)));
        assert(final(buf)@.take(50) =~= d.tree().enc());
        assert(final(buf)@.skip(50) =~= (*buf)@.skip(50));
    }
}

/// What a capture object is read from: a structure of a class, a name of six bytes, an
/// attribute and an element of it, in that order. Another length of name is refused, and so is
/// anything that is no structure.
pub proof fn law_capture_object_is_read(
    s: SeqV,
    class_id: u16,
    name: Seq<u8>,
    index: i8,
    element: u16,
)
    requires
        s.item(0) == Ok::<DataV, Error>(DataV::LongUnsigned(class_id)),
        s.item(1) == Ok::<DataV, Error>(DataV::OctetString(name)),
        s.item(2) == Ok::<DataV, Error>(DataV::Integer(index)),
        s.item(3) == Ok::<DataV, Error>(DataV::LongUnsigned(element)),
    ensures
        name.len() == 6 ==> CaptureV::of(DataV::Structure(s)) == Ok::<CaptureV, Error>(
            CaptureV {
                class_id,
                logical_name: name,
                attribute_index: index,
                data_index: element,
            },
        ),
        name.len() != 6 ==> CaptureV::of(DataV::Structure(s)) is Err,
        CaptureV::of(DataV::Array(s)) is Err,
{
}

/// The clock is the time of the object of class 8 that is called 0.0.1.0.0.255, and a range by
/// the clock runs over it from the one time to the other.
pub proof fn law_the_clock_is_named(from: DateTime, to: DateTime)
    ensures
        forall|c: CaptureObject|
            #![trigger call_ensures(CaptureObject::clock, (), c)]
            call_ensures(CaptureObject::clock, (), c) ==> {
                &&& c@.class_id == 8
                &&& c@.logical_name == seq![0u8, 0u8, 1u8, 0u8, 0u8, 255u8]
                &&& c@.attribute_index == 2
                &&& c@.data_index == 0
            },
        forall|r: RangeDescriptor|
            #![trigger call_ensures(RangeDescriptor::by_clock, (from, to), r)]
            call_ensures(RangeDescriptor::by_clock, (from, to), r) ==> {
                &&& r.restricting_object@.class_id == 8
                &&& r.restricting_object@.logical_name == seq![0u8, 0u8, 1u8, 0u8, 0u8, 255u8]
                &&& r.restricting_object@.attribute_index == 2
                &&& r.restricting_object@.data_index == 0
                &&& r.from == from
                &&& r.to == to
            },
        forall|a: u32, b: u32, e: EntryDescriptor|
            #![trigger call_ensures(EntryDescriptor::entries, (a, b), e)]
            call_ensures(EntryDescriptor::entries, (a, b), e) ==> e.from_entry == a && e.to_entry
                == b && e.from_value == 1 && e.to_value == 0,
{
}

/// The cells of a table come row by row, and within a row column by column, each with its own
/// place and value.
pub proof fn law_cells_stand_row_by_row(t: Seq<Seq<DataV>>, width: int, r: int, c: int)
    requires
        forall|i: int| 0 <= i < t.len() ==> (#[trigger] t[i]).len() == width,
        width >= 0,
    ensures
        cells(t).len() == t.len() * width,
        0 <= r < t.len() && 0 <= c < width ==> {
            &&& 0 <= r * width + c < cells(t).len()
            &&& cells(t)[r * width + c].row == r
            &&& cells(t)[r * width + c].column == c
            &&& cells(t)[r * width + c].value == t[r][c]
        },
    decreases t.len(),
{
    if t.len() > 0 {
        let rest = t.drop_last();
        let n = t.len() - 1;
        assert forall|i: int| 0 <= i < rest.len() implies (#[trigger] rest[i]).len() == width by {
            assert(rest[i] == t[i]);
        }
        law_cells_stand_row_by_row(rest, width, r, c);
        assert(t[n].len() == width);
        assert((n + 1) * width == n * width + width) by (nonlinear_arith);
        if 0 <= r < n && 0 <= c < width {
            assert(rest[r] == t[r]);
        }
    } else {
        assert(0 * width == 0);
    }
}

} // verus!
