//! Compact arrays — the same values, with the type written once.
//!
//! A compact array (tag 19) carries a *type description* followed by the raw contents
//! of every element, with no per-value tags. The description is itself a recursive
//! structure and the contents cannot be walked without it.

use vstd::prelude::*;

use super::data::{leaf, Data, DataBuf, DataTag, MAX_DEPTH};
#[allow(unused_imports)]
use super::data::{
    lemma_leaf_is_plain, lemma_prepend_nothing, lemma_prepend_push, lemma_views, p_leaf, prepend,
    tag_of, tree_leaf, views, DataV, TreeV,
};
use crate::codec::{Error, ErrorKind, Reader, Result, Writer};
#[allow(unused_imports)]
use crate::codec::{
    appended, clip, enc_prefixed, err_at, err_before, lemma_then, length_fits, p_be, p_length, p_take, p_u8,
    Cursor,
};

verus! {

/// The largest element of a compact array that is walked, in values, arrays and structures:
/// as many as the longest array of plain values makes.
pub const MAX_COMPACT_NODES: usize = 0x1_0000;

/// What a type description says.
#[verifier::ext_equal]
pub enum DescV {
    /// A single value of this type.
    Scalar(DataTag),
    /// A fixed-length repetition of one type.
    Array { len: u16, elem: Seq<u8> },
    /// A record of differently-typed fields.
    Structure { count: nat, fields: Seq<u8> },
}

/// What a type description at a cursor says, `depth` levels down.
pub open spec fn p_desc(c: Cursor, depth: nat) -> Result<(DescV, Cursor)>
    decreases 16 - depth, 0nat,
{
    if depth >= MAX_DEPTH {
        Err(err_at(ErrorKind::DepthExceeded, c.at()))
    } else {
        match p_u8(c) {
            Err(e) => Err(e),
            Ok((b, d)) => match tag_of(b) {
                None => Err(err_before(ErrorKind::InvalidTag(b), d.at(), 1)),
                Some(DataTag::Array) => match p_be(d, 2) {
                    Err(e) => Err(e),
                    Ok((len, f)) => match p_desc(f, depth + 1) {
                        Err(e) => Err(e),
                        Ok((_, g)) => Ok(
                            (
                                DescV::Array {
                                    len: len as u16,
                                    elem: f.peek((g.pos - f.pos) as nat),
                                },
                                g,
                            ),
                        ),
                    },
                },
                Some(DataTag::Structure) => match p_length(d) {
                    Err(e) => Err(e),
                    Ok((count, f)) => match p_desc_n(f, count, depth + 1) {
                        Err(e) => Err(e),
                        Ok(g) => Ok(
                            (DescV::Structure { count, fields: f.peek((g.pos - f.pos) as nat) }, g),
                        ),
                    },
                },
                Some(DataTag::CompactArray) => Err(err_before(ErrorKind::InvalidTag(b), d.at(), 1)),
                Some(tag) => Ok((DescV::Scalar(tag), d)),
            },
        }
    }
}

/// Where `n` descriptions in a row end.
pub open spec fn p_desc_n(c: Cursor, n: nat, depth: nat) -> Result<Cursor>
    decreases 16 - depth, n + 1,
{
    if n == 0 {
        Ok(c)
    } else {
        match p_desc(c, depth) {
            Err(e) => Err(e),
            Ok((_, d)) => p_desc_n(d, (n - 1) as nat, depth),
        }
    }
}

/// What a compact array is: its description and contents, and where each was found.
#[verifier::ext_equal]
pub struct CompactV {
    /// The type description.
    pub desc: Seq<u8>,
    /// The contents.
    pub contents: Seq<u8>,
    /// Where the description starts in the frame.
    pub desc_base: usize,
    /// Where the contents start in the frame.
    pub contents_base: usize,
    /// How deep the array sits.
    pub depth: u8,
}

impl CompactV {
    /// The same description and contents, wherever they were found.
    pub open spec fn same(self, other: CompactV) -> bool {
        self.desc == other.desc && self.contents == other.contents
    }

    /// The description is exactly one description.
    pub open spec fn valid(self) -> bool {
        self.shape() matches Ok((_, d)) && d.left() == 0
    }

    /// What the description says.
    pub open spec fn shape(self) -> Result<(DescV, Cursor)> {
        p_desc(
            Cursor { buf: self.desc, pos: 0, base: self.desc_base as nat },
            self.depth as nat,
        )
    }

    /// The cursor at the first row.
    pub open spec fn start(self) -> Cursor {
        Cursor { buf: self.contents, pos: 0, base: self.contents_base as nat }
    }

    /// Whether there are rows, and one of them is more than is walked.
    pub open spec fn too_wide(self) -> bool {
        self.contents.len() > 0 && (self.shape() matches Ok((d, _)) && nodes_per(
            d,
            self.depth as nat,
        ) > MAX_COMPACT_NODES)
    }

    /// The refusal of rows that are more than is walked.
    pub open spec fn too_much_work(self) -> Error {
        Error { kind: ErrorKind::WorkExceeded, offset: self.desc_base }
    }

    /// The rows, each as its leaf values.
    pub open spec fn rows(self) -> Result<Seq<Seq<DataV>>> {
        match self.shape() {
            Err(e) => Err(e),
            Ok((d, _)) => if self.too_wide() {
                Err(self.too_much_work())
            } else {
                p_rows(self.start(), d, self.depth as nat)
            },
        }
    }

    /// The rows, each as a tree.
    pub open spec fn trees(self) -> Result<Seq<TreeV>> {
        match self.shape() {
            Err(e) => Err(e),
            Ok((d, _)) => if self.too_wide() {
                Err(self.too_much_work())
            } else {
                p_tree_rows(self.start(), d, self.depth as nat)
            },
        }
    }
}

/// How many values, arrays and structures one element of a shape is walked through,
/// `depth` levels down. One that cannot be walked is one that stops there.
pub open spec fn nodes_per(d: DescV, depth: nat) -> nat
    decreases 16 - depth, 0nat,
{
    if depth >= MAX_DEPTH {
        1
    } else {
        match d {
            DescV::Scalar(_) => 1,
            DescV::Array { len, elem } => match p_desc(Cursor::start(elem), 0) {
                Err(_) => 1,
                Ok((inner, _)) => (1 + len * nodes_per(inner, depth + 1)) as nat,
            },
            DescV::Structure { count, fields } => 1 + nodes_per_n(
                Cursor::start(fields),
                count,
                depth + 1,
            ),
        }
    }
}

/// How many `n` fields are walked through, whose descriptions start at a cursor.
pub open spec fn nodes_per_n(c: Cursor, n: nat, depth: nat) -> nat
    decreases 16 - depth, n + 1,
{
    if n == 0 {
        0
    } else {
        match p_desc(c, 0) {
            Err(_) => 0,
            Ok((field, d)) => nodes_per(field, depth) + nodes_per_n(d, (n - 1) as nat, depth),
        }
    }
}

/// What a compact array at a cursor is, `depth` levels down.
pub open spec fn p_compact(c: Cursor, depth: nat) -> Result<(CompactV, Cursor)> {
    if depth >= MAX_DEPTH {
        Err(err_at(ErrorKind::DepthExceeded, c.at()))
    } else {
        match p_desc(c, depth) {
            Err(e) => Err(e),
            Ok((_, d)) => match p_length(d) {
                Err(e) => Err(e),
                Ok((n, f)) => match p_take(f, n) {
                    Err(e) => Err(e),
                    Ok((contents, g)) => Ok(
                        (
                            CompactV {
                                desc: c.peek((d.pos - c.pos) as nat),
                                contents,
                                desc_base: clip(c.at()),
                                contents_base: clip(f.at()),
                                depth: depth as u8,
                            },
                            g,
                        ),
                    ),
                },
            },
        }
    }
}

/// How many leaf values one element of a shape expands to.
pub open spec fn leaves_per(d: DescV, depth: nat) -> Result<nat>
    decreases 16 - depth, 0nat,
{
    if depth >= MAX_DEPTH {
        Err(Error { kind: ErrorKind::DepthExceeded, offset: 0 })
    } else {
        match d {
            DescV::Scalar(_) => Ok(1),
            DescV::Array { len, elem } => match p_desc(Cursor::start(elem), depth + 1) {
                Err(e) => Err(e),
                Ok((inner, _)) => match leaves_per(inner, depth + 1) {
                    Err(e) => Err(e),
                    Ok(k) => if len * k > usize::MAX {
                        Err(Error { kind: ErrorKind::InvalidLength, offset: 0 })
                    } else {
                        Ok((len * k) as nat)
                    },
                },
            },
            DescV::Structure { count, fields } => leaves_per_n(
                Cursor::start(fields),
                count,
                0,
                depth + 1,
            ),
        }
    }
}

/// How many leaf values `n` fields expand to, on top of `acc`.
pub open spec fn leaves_per_n(c: Cursor, n: nat, acc: nat, depth: nat) -> Result<nat>
    decreases 16 - depth, n + 1,
{
    if n == 0 {
        Ok(acc)
    } else {
        match p_desc(c, depth) {
            Err(e) => Err(e),
            Ok((field, d)) => match leaves_per(field, depth) {
                Err(e) => Err(e),
                Ok(k) => if acc + k > usize::MAX {
                    Err(Error { kind: ErrorKind::InvalidLength, offset: 0 })
                } else {
                    leaves_per_n(d, (n - 1) as nat, acc + k, depth)
                },
            },
        }
    }
}

/// The leaf values of one element at a cursor.
pub open spec fn p_walk(c: Cursor, d: DescV, depth: nat) -> Result<(Seq<DataV>, Cursor)>
    decreases 16 - depth, 0nat,
{
    if depth >= MAX_DEPTH {
        Err(err_at(ErrorKind::DepthExceeded, c.at()))
    } else {
        match d {
            DescV::Scalar(tag) => match p_leaf(c, tag) {
                Err(e) => Err(e),
                Ok((v, f)) => Ok((seq![v], f)),
            },
            DescV::Array { len, elem } => match p_desc(Cursor::start(elem), 0) {
                Err(e) => Err(e),
                Ok((inner, _)) => p_walk_n(c, inner, len as nat, depth + 1),
            },
            DescV::Structure { count, fields } => p_walk_fields(
                c,
                Cursor::start(fields),
                count,
                depth + 1,
            ),
        }
    }
}

/// The leaf values of `n` elements of one shape.
pub open spec fn p_walk_n(c: Cursor, d: DescV, n: nat, depth: nat) -> Result<(Seq<DataV>, Cursor)>
    decreases 16 - depth, n + 1,
{
    if n == 0 {
        Ok((Seq::empty(), c))
    } else {
        match p_walk(c, d, depth) {
            Err(e) => Err(e),
            Ok((a, f)) => match p_walk_n(f, d, (n - 1) as nat, depth) {
                Err(e) => Err(e),
                Ok((b, g)) => Ok((a + b, g)),
            },
        }
    }
}

/// The leaf values of `n` fields, whose descriptions start at `dc`.
pub open spec fn p_walk_fields(c: Cursor, dc: Cursor, n: nat, depth: nat) -> Result<
    (Seq<DataV>, Cursor),
>
    decreases 16 - depth, n + 1,
{
    if n == 0 {
        Ok((Seq::empty(), c))
    } else {
        match p_desc(dc, 0) {
            Err(e) => Err(e),
            Ok((inner, dd)) => match p_walk(c, inner, depth) {
                Err(e) => Err(e),
                Ok((a, f)) => match p_walk_fields(f, dd, (n - 1) as nat, depth) {
                    Err(e) => Err(e),
                    Ok((b, g)) => Ok((a + b, g)),
                },
            },
        }
    }
}

/// The rows from a cursor to the end of its input. A row that takes no bytes is refused:
/// the contents could not be divided into rows at all.
pub open spec fn p_rows(c: Cursor, d: DescV, depth: nat) -> Result<Seq<Seq<DataV>>>
    decreases c.left(),
{
    if c.left() <= 0 {
        Ok(Seq::empty())
    } else {
        match p_walk(c, d, depth) {
            Err(e) => Err(e),
            Ok((vs, f)) => if clip(f.at()) == clip(c.at()) || f.left() >= c.left() || f.left() < 0 {
                Err(err_at(ErrorKind::InvalidValue, f.at()))
            } else {
                match p_rows(f, d, depth) {
                    Err(e) => Err(e),
                    Ok(rest) => Ok(seq![vs] + rest),
                }
            },
        }
    }
}

/// The tree of one element at a cursor.
pub open spec fn p_build(c: Cursor, d: DescV, depth: nat) -> Result<(TreeV, Cursor)>
    decreases 16 - depth, 0nat,
{
    if depth >= MAX_DEPTH {
        Err(err_at(ErrorKind::DepthExceeded, c.at()))
    } else {
        match d {
            DescV::Scalar(tag) => match p_leaf(c, tag) {
                Err(e) => Err(e),
                Ok((v, f)) => Ok((tree_leaf(v), f)),
            },
            DescV::Array { len, elem } => match p_desc(Cursor::start(elem), 0) {
                Err(e) => Err(e),
                Ok((inner, _)) => match p_build_n(c, inner, len as nat, depth + 1) {
                    Err(e) => Err(e),
                    Ok((ts, f)) => Ok((TreeV::Array(ts), f)),
                },
            },
            DescV::Structure { count, fields } => match p_build_fields(
                c,
                Cursor::start(fields),
                count,
                depth + 1,
            ) {
                Err(e) => Err(e),
                Ok((ts, f)) => Ok((TreeV::Structure(ts), f)),
            },
        }
    }
}

/// The trees of `n` elements of one shape.
pub open spec fn p_build_n(c: Cursor, d: DescV, n: nat, depth: nat) -> Result<(Seq<TreeV>, Cursor)>
    decreases 16 - depth, n + 1,
{
    if n == 0 {
        Ok((Seq::empty(), c))
    } else {
        match p_build(c, d, depth) {
            Err(e) => Err(e),
            Ok((a, f)) => match p_build_n(f, d, (n - 1) as nat, depth) {
                Err(e) => Err(e),
                Ok((b, g)) => Ok((seq![a] + b, g)),
            },
        }
    }
}

/// The trees of `n` fields, whose descriptions start at `dc`.
pub open spec fn p_build_fields(c: Cursor, dc: Cursor, n: nat, depth: nat) -> Result<
    (Seq<TreeV>, Cursor),
>
    decreases 16 - depth, n + 1,
{
    if n == 0 {
        Ok((Seq::empty(), c))
    } else {
        match p_desc(dc, 0) {
            Err(e) => Err(e),
            Ok((inner, dd)) => match p_build(c, inner, depth) {
                Err(e) => Err(e),
                Ok((a, f)) => match p_build_fields(f, dd, (n - 1) as nat, depth) {
                    Err(e) => Err(e),
                    Ok((b, g)) => Ok((seq![a] + b, g)),
                },
            },
        }
    }
}

/// The trees of the rows from a cursor to the end of its input.
pub open spec fn p_tree_rows(c: Cursor, d: DescV, depth: nat) -> Result<Seq<TreeV>>
    decreases c.left(),
{
    if c.left() <= 0 {
        Ok(Seq::empty())
    } else {
        match p_build(c, d, depth) {
            Err(e) => Err(e),
            Ok((t, f)) => if clip(f.at()) == clip(c.at()) || f.left() >= c.left() || f.left() < 0 {
                Err(err_at(ErrorKind::InvalidValue, f.at()))
            } else {
                match p_tree_rows(f, d, depth) {
                    Err(e) => Err(e),
                    Ok(rest) => Ok(seq![t] + rest),
                }
            },
        }
    }
}

/// A description takes at least one byte, and no more than there are.
pub proof fn lemma_desc_adv(c: Cursor, depth: nat)
    requires
        c.wf(),
    ensures
        p_desc(c, depth) matches Ok((_, d)) ==> d.same_input(c) && c.pos < d.pos && d.wf(),
    decreases 16 - depth, 0nat,
{
    if depth < MAX_DEPTH {
        match p_u8(c) {
            Ok((b, d)) => match tag_of(b) {
                Some(DataTag::Array) => match p_be(d, 2) {
                    Ok((_, f)) => lemma_desc_adv(f, depth + 1),
                    Err(_) => {},
                },
                Some(DataTag::Structure) => match p_length(d) {
                    Ok((n, f)) => lemma_desc_n_adv(f, n, depth + 1),
                    Err(_) => {},
                },
                _ => {},
            },
            Err(_) => {},
        }
    }
}

/// Descriptions in a row take no more bytes than there are.
pub proof fn lemma_desc_n_adv(c: Cursor, n: nat, depth: nat)
    requires
        c.wf(),
    ensures
        p_desc_n(c, n, depth) matches Ok(d) ==> d.same_input(c) && c.pos <= d.pos && d.wf(),
    decreases 16 - depth, n + 1,
{
    if n > 0 {
        lemma_desc_adv(c, depth);
        match p_desc(c, depth) {
            Ok((_, d)) => lemma_desc_n_adv(d, (n - 1) as nat, depth),
            Err(_) => {},
        }
    }
}

/// A compact array takes no more bytes than there are.
pub proof fn lemma_compact_adv(c: Cursor, depth: nat)
    requires
        c.wf(),
    ensures
        p_compact(c, depth) matches Ok((_, d)) ==> d.same_input(c) && c.pos < d.pos && d.wf(),
{
    lemma_desc_adv(c, depth);
}

/// Two cursors see the same bytes, as far as `n`.
pub open spec fn alike(c: Cursor, k: Cursor, n: int) -> bool {
    &&& c.wf()
    &&& k.wf()
    &&& 0 <= n <= c.left()
    &&& n <= k.left()
    &&& c.peek(n as nat) == k.peek(n as nat)
}

/// Cursors that see the same bytes still do, further on.
pub proof fn lemma_alike(c: Cursor, k: Cursor, n: int, m: int)
    requires
        alike(c, k, n),
        0 <= m <= n,
    ensures
        alike(c, k, m),
        alike(c.adv(m as nat), k.adv(m as nat), n - m),
        n > 0 ==> c.buf[c.pos as int] == k.buf[k.pos as int],
{
    assert(c.peek(m as nat) =~= c.peek(n as nat).subrange(0, m));
    assert(k.peek(m as nat) =~= k.peek(n as nat).subrange(0, m));
    assert(c.adv(m as nat).peek((n - m) as nat) =~= c.peek(n as nat).subrange(m, n));
    assert(k.adv(m as nat).peek((n - m) as nat) =~= k.peek(n as nat).subrange(m, n));
    if n > 0 {
        assert(c.buf[c.pos as int] == c.peek(n as nat)[0]);
        assert(k.buf[k.pos as int] == k.peek(n as nat)[0]);
    }
}

/// A length decodes from its own bytes alone.
pub proof fn lemma_length_local(c: Cursor, k: Cursor)
    requires
        c.wf(),
        p_length(c) matches Ok((_, d)) && alike(c, k, d.pos - c.pos),
    ensures
        ({
            let (v, d) = p_length(c)->Ok_0;
            p_length(k) == Ok::<(nat, Cursor), Error>((v, k.adv((d.pos - c.pos) as nat)))
        }),
{
    let (v, d) = p_length(c)->Ok_0;
    let n = d.pos - c.pos;
    lemma_alike(c, k, n, n);
    lemma_alike(c, k, n, 1);
}

/// A description decodes from its own bytes alone, at its depth or a lesser one.
#[verifier::rlimit(40)]
pub proof fn lemma_desc_local(c: Cursor, k: Cursor, depth: nat, less: nat)
    requires
        less <= depth,
        c.wf(),
        p_desc(c, depth) matches Ok((_, d)) && alike(c, k, d.pos - c.pos),
    ensures
        ({
            let (v, d) = p_desc(c, depth)->Ok_0;
            p_desc(k, less) == Ok::<(DescV, Cursor), Error>((v, k.adv((d.pos - c.pos) as nat)))
        }),
    decreases 16 - depth, 0nat,
{
    let (v, d) = p_desc(c, depth)->Ok_0;
    let n = d.pos - c.pos;
    lemma_desc_adv(c, depth);
    lemma_alike(c, k, n, 1);
    let (c1, k1) = (c.adv(1), k.adv(1));
    let b = c.buf[c.pos as int];
    match tag_of(b) {
        Some(DataTag::Array) => {
            let f = c1.adv(2);
            lemma_desc_adv(f, depth + 1);
            lemma_alike(c1, k1, n - 1, 2);
            lemma_desc_local(f, k1.adv(2), depth + 1, less + 1);
            lemma_alike(f, k1.adv(2), n - 3, n - 3);
        },
        Some(DataTag::Structure) => {
            let (count, f) = p_length(c1)->Ok_0;
            let m = f.pos - c1.pos;
            lemma_desc_n_adv(f, count, depth + 1);
            lemma_alike(c1, k1, n - 1, m);
            lemma_length_local(c1, k1);
            lemma_desc_n_local(f, k1.adv(m as nat), count, depth + 1, less + 1);
            lemma_alike(f, k1.adv(m as nat), n - 1 - m, n - 1 - m);
        },
        _ => {},
    }
}

/// Descriptions in a row decode from their own bytes alone.
pub proof fn lemma_desc_n_local(c: Cursor, k: Cursor, n: nat, depth: nat, less: nat)
    requires
        less <= depth,
        c.wf(),
        p_desc_n(c, n, depth) matches Ok(d) && alike(c, k, d.pos - c.pos),
    ensures
        ({
            let d = p_desc_n(c, n, depth)->Ok_0;
            p_desc_n(k, n, less) == Ok::<Cursor, Error>(k.adv((d.pos - c.pos) as nat))
        }),
    decreases 16 - depth, n + 1,
{
    let d = p_desc_n(c, n, depth)->Ok_0;
    if n > 0 {
        let (_, f) = p_desc(c, depth)->Ok_0;
        lemma_desc_adv(c, depth);
        lemma_desc_n_adv(f, (n - 1) as nat, depth);
        let m = f.pos - c.pos;
        lemma_alike(c, k, d.pos - c.pos, m);
        lemma_desc_local(c, k, depth, less);
        lemma_desc_n_local(f, k.adv(m as nat), (n - 1) as nat, depth, less);
    } else {
        assert(k.adv(0) =~= k);
    }
}

/// A compact array decodes from its own bytes alone, at its depth or a lesser one.
#[verifier::rlimit(40)]
pub proof fn lemma_compact_local(c: Cursor, k: Cursor, depth: nat, less: nat)
    requires
        less <= depth,
        c.wf(),
        p_compact(c, depth) matches Ok((_, d)) && alike(c, k, d.pos - c.pos),
    ensures
        ({
            let (v, d) = p_compact(c, depth)->Ok_0;
            &&& p_compact(k, less) matches Ok((w, e)) && w.same(v) && e == k.adv(
                (d.pos - c.pos) as nat,
            ) && (less == depth && clip(c.at()) == clip(k.at()) ==> w == v)
        }),
{
    let (v, g) = p_compact(c, depth)->Ok_0;
    let n = g.pos - c.pos;
    lemma_compact_adv(c, depth);
    lemma_desc_adv(c, depth);
    let (_, d) = p_desc(c, depth)->Ok_0;
    let m = d.pos - c.pos;
    lemma_alike(c, k, n, m);
    lemma_desc_local(c, k, depth, less);
    let (len, f) = p_length(d)->Ok_0;
    let j = f.pos - d.pos;
    let kd = k.adv(m as nat);
    lemma_alike(d, kd, n - m, j);
    lemma_length_local(d, kd);
    lemma_alike(f, kd.adv(j as nat), n - m - j, n - m - j);
}

/// The shape of every element of a compact array.
#[derive(Debug, Clone, Copy, PartialEq, Eq)]
pub enum TypeDesc<'a> {
    /// A single value of this type.
    Scalar(DataTag),
    /// A fixed-length repetition of one type.
    Array {
        /// How many elements.
        len: u16,
        /// The element's own description.
        elem: &'a [u8],
    },
    /// A record of differently-typed fields.
    Structure {
        /// How many fields.
        count: usize,
        /// The fields' descriptions, concatenated.
        fields: &'a [u8],
    },
}

impl<'a> View for TypeDesc<'a> {
    type V = DescV;

    open spec fn view(&self) -> DescV {
        match *self {
            TypeDesc::Scalar(t) => DescV::Scalar(t),
            TypeDesc::Array { len, elem } => DescV::Array { len, elem: elem@ },
            TypeDesc::Structure { count, fields } => DescV::Structure {
                count: count as nat,
                fields: fields@,
            },
        }
    }
}

impl<'a> TypeDesc<'a> {
    /// Parse one type description.
    ///
    /// A description is itself a recursive structure, so it carries the same depth
    /// budget as the values it describes.
    pub fn parse(r: &mut Reader<'a>) -> (res: Result<Self>)
        ensures
            final(r)@.same_input(old(r)@),
            match res {
                Ok(v) => p_desc(old(r)@, 0) == Ok::<(DescV, Cursor), Error>((v@, final(r)@)),
                Err(e) => p_desc(old(r)@, 0) == Err::<(DescV, Cursor), Error>(e),
            },
    {
        TypeDesc::parse_at(r, 0)
    }

    /// Parse one type description, `depth` levels down.
    #[verifier::loop_isolation(false)]
    #[verifier::rlimit(40)]
    pub fn parse_at(r: &mut Reader<'a>, depth: u8) -> (res: Result<Self>)
        ensures
            final(r)@.same_input(old(r)@),
            match res {
                Ok(v) => p_desc(old(r)@, depth as nat) == Ok::<(DescV, Cursor), Error>(
                    (v@, final(r)@),
                ),
                Err(e) => p_desc(old(r)@, depth as nat) == Err::<(DescV, Cursor), Error>(e),
            },
        decreases 16 - depth, 0nat,
    {
        if depth >= MAX_DEPTH {
            return Err(r.err(ErrorKind::DepthExceeded));
        }
        let tag_byte = r.u8()?;
        let tag = match DataTag::from_u8(tag_byte) {
            Some(t) => t,
            None => return Err(r.err_back(ErrorKind::InvalidTag(tag_byte), 1)),
        };
        match tag {
            DataTag::Array => {
                let len = r.u16()?;
                let mut probe = r.clone();
                let start = r.consumed();
                proof {
                    lemma_desc_adv(r@, (depth + 1) as nat);
                }
                TypeDesc::skip_at(&mut probe, depth + 1)?;
                let elem = r.take(probe.consumed() - start)?;
                Ok(TypeDesc::Array { len, elem })
            },
            DataTag::Structure => {
                let count = r.length()?;
                let mut probe = r.clone();
                let start = r.consumed();
                let ghost c0 = r@;
                let mut i: usize = 0;
                while i < count
                    invariant
                        i <= count,
                        depth < MAX_DEPTH,
                        c0.wf(),
                        probe@.same_input(c0),
                        p_desc_n(c0, count as nat, (depth + 1) as nat) == p_desc_n(
                            probe@,
                            (count - i) as nat,
                            (depth + 1) as nat,
                        ),
                    decreases count - i,
                {
                    TypeDesc::skip_at(&mut probe, depth + 1)?;
                    i = i + 1;
                }
                proof {
                    lemma_desc_n_adv(c0, count as nat, (depth + 1) as nat);
                }
                let fields = r.take(probe.consumed() - start)?;
                Ok(TypeDesc::Structure { count, fields })
            },
            DataTag::CompactArray => Err(r.err_back(ErrorKind::InvalidTag(tag_byte), 1)),
            other => Ok(TypeDesc::Scalar(other)),
        }
    }

    /// Walk one type description without building it.
    pub fn skip(r: &mut Reader<'a>) -> (res: Result<()>)
        ensures
            final(r)@.same_input(old(r)@),
            match res {
                Ok(_) => p_desc(old(r)@, 0) matches Ok((_, d)) && d == final(r)@,
                Err(e) => p_desc(old(r)@, 0) == Err::<(DescV, Cursor), Error>(e),
            },
    {
        TypeDesc::skip_at(r, 0)
    }

    /// Walk one type description, `depth` levels down, without building it.
    pub fn skip_at(r: &mut Reader<'a>, depth: u8) -> (res: Result<()>)
        ensures
            final(r)@.same_input(old(r)@),
            match res {
                Ok(_) => p_desc(old(r)@, depth as nat) matches Ok((_, d)) && d == final(r)@,
                Err(e) => p_desc(old(r)@, depth as nat) == Err::<(DescV, Cursor), Error>(e),
            },
        decreases 16 - depth, 1nat,
    {
        TypeDesc::parse_at(r, depth)?;
        Ok(())
    }

    /// The number of leaf values one element of this shape expands to.
    ///
    /// The count is checked at every step: a description may nest arrays of 65 535
    /// elements, and the product of a few of those overflows a `usize`.
    pub fn leaf_count(&self) -> (r: Result<usize>)
        ensures
            match r {
                Ok(n) => leaves_per(self@, 0) == Ok::<nat, Error>(n as nat),
                Err(e) => leaves_per(self@, 0) == Err::<nat, Error>(e),
            },
    {
        self.leaf_count_at(0)
    }

    /// The number of leaf values, `depth` levels down.
    #[verifier::loop_isolation(false)]
    pub fn leaf_count_at(&self, depth: u8) -> (r: Result<usize>)
        ensures
            match r {
                Ok(n) => leaves_per(self@, depth as nat) == Ok::<nat, Error>(n as nat),
                Err(e) => leaves_per(self@, depth as nat) == Err::<nat, Error>(e),
            },
        decreases 16 - depth,
    {
        if depth >= MAX_DEPTH {
            return Err(Error::new(ErrorKind::DepthExceeded, 0));
        }
        match *self {
            TypeDesc::Scalar(_) => Ok(1),
            TypeDesc::Array { len, elem } => {
                let mut r = Reader::new(elem);
                let inner = TypeDesc::parse_at(&mut r, depth + 1)?;
                let k = inner.leaf_count_at(depth + 1)?;
                match (len as usize).checked_mul(k) {
                    Some(n) => Ok(n),
                    None => Err(Error::new(ErrorKind::InvalidLength, 0)),
                }
            },
            TypeDesc::Structure { count, fields } => {
                let mut r = Reader::new(fields);
                let ghost c0 = r@;
                let mut n: usize = 0;
                let mut i: usize = 0;
                while i < count
                    invariant
                        i <= count,
                        depth < MAX_DEPTH,
                        leaves_per_n(c0, count as nat, 0, (depth + 1) as nat) == leaves_per_n(
                            r@,
                            (count - i) as nat,
                            n as nat,
                            (depth + 1) as nat,
                        ),
                    decreases count - i,
                {
                    let field = TypeDesc::parse_at(&mut r, depth + 1)?;
                    let k = field.leaf_count_at(depth + 1)?;
                    n = match n.checked_add(k) {
                        Some(n) => n,
                        None => return Err(Error::new(ErrorKind::InvalidLength, 0)),
                    };
                    i = i + 1;
                }
                Ok(n)
            },
        }
    }
}

impl<'a> TypeDesc<'a> {
    /// How many values, arrays and structures one element is walked through; nothing where
    /// that is more than [`MAX_COMPACT_NODES`].
    #[verifier::loop_isolation(false)]
    fn node_count_at(&self, depth: u8) -> (r: Option<usize>)
        ensures
            match r {
                Some(n) => n == nodes_per(self@, depth as nat) && n <= MAX_COMPACT_NODES,
                None => nodes_per(self@, depth as nat) > MAX_COMPACT_NODES,
            },
        decreases 16 - depth,
    {
        if depth >= MAX_DEPTH {
            return Some(1);
        }
        match *self {
            TypeDesc::Scalar(_) => Some(1),
            TypeDesc::Array { len, elem } => {
                let mut r = Reader::new(elem);
                let inner = match TypeDesc::parse(&mut r) {
                    Ok(d) => d,
                    Err(_) => {
                        return Some(1);
                    },
                };
                let ghost k = nodes_per(inner@, (depth + 1) as nat);
                if len == 0 {
                    assert(len * k == 0) by (nonlinear_arith)
                        requires
                            len == 0,
                    ;
                    return Some(1);
                }
                assert(len * k >= k) by (nonlinear_arith)
                    requires
                        len >= 1,
                        k >= 0,
                ;
                let k: usize = inner.node_count_at(depth + 1)?;
                assert(len * k <= 0xFFFF * 0x1_0000) by (nonlinear_arith)
                    requires
                        len <= 0xFFFF,
                        k <= 0x1_0000,
                ;
                let n: u64 = len as u64 * k as u64 + 1;
                if n > MAX_COMPACT_NODES as u64 {
                    None
                } else {
                    Some(n as usize)
                }
            },
            TypeDesc::Structure { count, fields } => {
                let mut r = Reader::new(fields);
                let ghost c0 = r@;
                let mut n: usize = 1;
                let mut i: usize = 0;
                while i < count
                    invariant
                        i <= count,
                        depth < MAX_DEPTH,
                        n <= MAX_COMPACT_NODES,
                        1 + nodes_per_n(c0, count as nat, (depth + 1) as nat) == n + nodes_per_n(
                            r@,
                            (count - i) as nat,
                            (depth + 1) as nat,
                        ),
                    decreases count - i,
                {
                    let field = match TypeDesc::parse(&mut r) {
                        Ok(d) => d,
                        Err(_) => {
                            return Some(n);
                        },
                    };
                    let k: usize = field.node_count_at(depth + 1)?;
                    n = n + k;
                    if n > MAX_COMPACT_NODES {
                        return None;
                    }
                    i = i + 1;
                }
                Some(n)
            },
        }
    }
}

/// One value out of a compact array, with where it sat.
#[derive(Debug, Clone, Copy, PartialEq)]
pub struct CompactLeaf<'a> {
    /// The index of the top-level element this leaf belongs to.
    pub row: usize,
    /// The index of this leaf within its element, counting flattened leaves.
    pub column: usize,
    /// The value.
    pub value: Data<'a>,
}

/// A borrowed compact array: a type description and the raw contents.
#[derive(Debug, Clone, Copy, PartialEq, Eq)]
pub struct CompactArray<'a> {
    desc: &'a [u8],
    contents: &'a [u8],
    desc_base: usize,
    contents_base: usize,
    depth: u8,
}

impl<'a> View for CompactArray<'a> {
    type V = CompactV;

    closed spec fn view(&self) -> CompactV {
        CompactV {
            desc: self.desc@,
            contents: self.contents@,
            desc_base: self.desc_base,
            contents_base: self.contents_base,
            depth: self.depth,
        }
    }
}

impl<'a> CompactArray<'a> {
    /// The description is exactly one description.
    #[verifier::type_invariant]
    pub open spec fn inv(self) -> bool {
        self@.valid()
    }

    /// The raw type description.
    #[must_use]
    pub fn description_bytes(&self) -> (b: &'a [u8])
        ensures
            b@ == self@.desc,
    {
        self.desc
    }

    /// The raw contents.
    #[must_use]
    pub fn contents(&self) -> (b: &'a [u8])
        ensures
            b@ == self@.contents,
    {
        self.contents
    }

    /// Decode a compact array, `depth` levels down.
    pub fn decode_body(r: &mut Reader<'a>, depth: u8) -> (res: Result<Self>)
        ensures
            final(r)@.same_input(old(r)@),
            match res {
                Ok(v) => p_compact(old(r)@, depth as nat) == Ok::<(CompactV, Cursor), Error>(
                    (v@, final(r)@),
                ),
                Err(e) => p_compact(old(r)@, depth as nat) == Err::<(CompactV, Cursor), Error>(e),
            },
    {
        if depth >= MAX_DEPTH {
            return Err(r.err(ErrorKind::DepthExceeded));
        }
        let desc_base = r.offset();
        let start = r.consumed();
        let mut probe = r.clone();
        let ghost c0 = r@;
        proof {
            lemma_desc_adv(c0, depth as nat);
        }
        TypeDesc::skip_at(&mut probe, depth)?;
        let desc = r.take(probe.consumed() - start)?;
        let len = r.length()?;
        let contents_base = r.offset();
        let contents = r.take(len)?;
        proof {
            let k = Cursor { buf: desc@, pos: 0, base: desc_base as nat };
            assert(k.peek(desc@.len()) =~= desc@);
            lemma_desc_local(c0, k, depth as nat, depth as nat);
        }
        Ok(CompactArray { desc, contents, desc_base, contents_base, depth })
    }

    /// Walk a compact array without building it.
    pub fn skip_body(r: &mut Reader<'a>, depth: u8) -> (res: Result<()>)
        ensures
            final(r)@.same_input(old(r)@),
            match res {
                Ok(_) => p_compact(old(r)@, depth as nat) matches Ok((_, d)) && d == final(r)@,
                Err(e) => p_compact(old(r)@, depth as nat) == Err::<(CompactV, Cursor), Error>(e),
            },
    {
        CompactArray::decode_body(r, depth)?;
        Ok(())
    }

    /// Append the description, then the contents behind their length.
    pub fn encode_body<W: Writer>(&self, w: &mut W) -> (r: Result<()>)
        ensures
            appended(
                old(w).sink(),
                final(w).sink(),
                self@.desc + enc_prefixed(self@.contents),
                length_fits(self@.contents.len()),
                r,
            ),
    {
        let ghost w0 = w.sink();
        w.write_bytes(self.desc)?;
        let ghost w1 = w.sink();
        let r = w.write_length_prefixed(self.contents);
        proof {
            lemma_then(
                w0,
                w1,
                w.sink(),
                self@.desc,
                enc_prefixed(self@.contents),
                length_fits(self@.contents.len()),
                r,
            );
        }
        r
    }
}

/// Where the leaves of earlier rows end.
pub open spec fn leaf_count_of(rows: Seq<Seq<DataV>>) -> nat
    decreases rows.len(),
{
    if rows.len() == 0 {
        0
    } else {
        leaf_count_of(rows.drop_last()) + rows.last().len()
    }
}

/// The leaves, row by row: each with its row, its column and its value.
pub open spec fn leaves_are(leaves: Seq<CompactLeaf<'_>>, rows: Seq<Seq<DataV>>) -> bool
    decreases rows.len(),
{
    if rows.len() == 0 {
        leaves.len() == 0
    } else {
        let before = leaf_count_of(rows.drop_last());
        &&& leaves.len() == before + rows.last().len()
        &&& leaves_are(leaves.take(before as int), rows.drop_last())
        &&& forall|j: int|
            #![trigger leaves[before + j]]
            0 <= j < rows.last().len() ==> leaves[before + j].row == rows.len() - 1
                && leaves[before + j].column == j && leaves[before + j].value@ == rows.last()[j]
    }
}

/// The values of a run of decoded data.
pub open spec fn data_views(v: Seq<Data<'_>>) -> Seq<DataV> {
    Seq::new(v.len(), |i: int| v[i]@)
}

impl<'a> CompactArray<'a> {
    /// The parsed type description.
    pub fn description(&self) -> (res: Result<TypeDesc<'a>>)
        ensures
            match res {
                Ok(d) => self@.shape() matches Ok((v, _)) && v == d@,
                Err(e) => self@.shape() == Err::<(DescV, Cursor), Error>(e),
            },
    {
        let mut r = Reader::with_base(self.desc, self.desc_base);
        TypeDesc::parse_at(&mut r, self.depth)
    }

    /// The description, once it is known that a row is not more than is walked.
    fn walkable(&self) -> (res: Result<TypeDesc<'a>>)
        ensures
            match res {
                Ok(d) => (self@.shape() matches Ok((v, _)) && v == d@) && !self@.too_wide(),
                Err(e) => match self@.shape() {
                    Err(f) => e == f,
                    Ok(_) => self@.too_wide() && e == self@.too_much_work(),
                },
            },
    {
        let desc = self.description()?;
        if self.contents.len() > 0 && desc.node_count_at(self.depth).is_none() {
            return Err(Error::new(ErrorKind::WorkExceeded, self.desc_base));
        }
        Ok(desc)
    }

    /// How many leaf values one row expands to.
    pub fn row_len(&self) -> (res: Result<usize>)
        ensures
            match self@.shape() {
                Err(e) => res == Err::<usize, Error>(e),
                Ok((d, _)) => match res {
                    Ok(n) => leaves_per(d, 0) == Ok::<nat, Error>(n as nat),
                    Err(e) => leaves_per(d, 0) == Err::<nat, Error>(e),
                },
            },
    {
        self.description()?.leaf_count()
    }

    /// Every leaf value in order, with the row and the column it sits at.
    ///
    /// # Errors
    /// [`ErrorKind::WorkExceeded`] when a row is more than [`MAX_COMPACT_NODES`], before
    /// anything is walked.
    #[verifier::loop_isolation(false)]
    pub fn for_each_leaf(&self) -> (res: Result<Vec<CompactLeaf<'a>>>)
        ensures
            match res {
                Ok(leaves) => self@.rows() matches Ok(rows) && leaves_are(leaves@, rows),
                Err(e) => self@.rows() == Err::<Seq<Seq<DataV>>, Error>(e),
            },
    {
        let desc = self.walkable()?;
        let mut contents = Reader::with_base(self.contents, self.contents_base);
        let mut leaves: Vec<CompactLeaf<'a>> = Vec::new();
        let mut row: usize = 0;
        let ghost mut rows: Seq<Seq<DataV>> = Seq::empty();
        proof {
            lemma_prepend_nothing(p_rows(contents@, desc@, self.depth as nat));
        }
        while !contents.is_empty()
            invariant
                rows.len() == row,
                row <= contents@.pos,
                contents@.wf(),
                contents@.same_input(self@.start()),
                leaf_count_of(rows) == leaves@.len(),
                leaves_are(leaves@, rows),
                self@.rows() == prepend(rows, p_rows(contents@, desc@, self.depth as nat)),
            decreases contents@.left(),
        {
            let before = contents.offset();
            let ghost c = contents@;
            let mut values: Vec<Data<'a>> = Vec::new();
            walk(&mut contents, &desc, self.depth, &mut values)?;
            proof {
                use_type_invariant(&contents);
            }
            ensure_progress(&contents, before)?;
            let ghost old_leaves = leaves@;
            let mut column: usize = 0;
            while column < values.len()
                invariant
                    column <= values@.len(),
                    leaves@.len() == old_leaves.len() + column,
                    leaves@.take(old_leaves.len() as int) =~= old_leaves,
                    forall|j: int|
                        #![trigger leaves@[old_leaves.len() + j]]
                        0 <= j < column ==> leaves@[old_leaves.len() + j].row == row
                            && leaves@[old_leaves.len() + j].column == j
                            && leaves@[old_leaves.len() + j].value@ == values@[j]@,
                decreases values@.len() - column,
            {
                leaves.push(CompactLeaf { row, column, value: values[column] });
                column = column + 1;
            }
            proof {
                let vs = data_views(values@);
                lemma_prepend_push(rows, vs, p_rows(contents@, desc@, self.depth as nat));
                assert(rows.push(vs).drop_last() =~= rows);
                rows = rows.push(vs);
                assert(leaves@.take(leaf_count_of(rows.drop_last()) as int) =~= old_leaves);
            }
            row = row + 1;
        }
        assert(rows + Seq::<Seq<DataV>>::empty() =~= rows);
        Ok(leaves)
    }

    /// How many rows the contents hold.
    ///
    /// Requires walking the contents, because a row containing a string has no fixed
    /// length. `O(n)` and allocation-free.
    ///
    /// # Errors
    /// As [`CompactArray::for_each_leaf`].
    #[verifier::loop_isolation(false)]
    pub fn row_count(&self) -> (res: Result<usize>)
        ensures
            match res {
                Ok(n) => self@.rows() matches Ok(rows) && rows.len() == n,
                Err(e) => self@.rows() == Err::<Seq<Seq<DataV>>, Error>(e),
            },
    {
        let desc = self.walkable()?;
        let mut contents = Reader::with_base(self.contents, self.contents_base);
        let mut row: usize = 0;
        let ghost mut rows: Seq<Seq<DataV>> = Seq::empty();
        proof {
            lemma_prepend_nothing(p_rows(contents@, desc@, self.depth as nat));
        }
        while !contents.is_empty()
            invariant
                rows.len() == row,
                row <= contents@.pos,
                contents@.wf(),
                contents@.same_input(self@.start()),
                self@.rows() == prepend(rows, p_rows(contents@, desc@, self.depth as nat)),
            decreases contents@.left(),
        {
            let before = contents.offset();
            let ghost c = contents@;
            pass(&mut contents, &desc, self.depth)?;
            proof {
                use_type_invariant(&contents);
            }
            ensure_progress(&contents, before)?;
            proof {
                let vs = (p_walk(c, desc@, self.depth as nat)->Ok_0).0;
                lemma_prepend_push(rows, vs, p_rows(contents@, desc@, self.depth as nat));
                rows = rows.push(vs);
            }
            row = row + 1;
        }
        assert(rows + Seq::<Seq<DataV>>::empty() =~= rows);
        Ok(row)
    }

    /// Expand into owned rows, preserving the nesting the description describes.
    ///
    /// # Errors
    /// As [`CompactArray::for_each_leaf`].
    #[verifier::loop_isolation(false)]
    pub fn to_rows(&self) -> (res: Result<Vec<DataBuf>>)
        ensures
            match res {
                Ok(v) => self@.trees() == Ok::<Seq<TreeV>, Error>(views(v@)),
                Err(e) => self@.trees() == Err::<Seq<TreeV>, Error>(e),
            },
    {
        let desc = self.walkable()?;
        let mut contents = Reader::with_base(self.contents, self.contents_base);
        let mut out: Vec<DataBuf> = Vec::new();
        assert(views(out@) =~= Seq::<TreeV>::empty());
        proof {
            lemma_prepend_nothing(p_tree_rows(contents@, desc@, self.depth as nat));
        }
        while !contents.is_empty()
            invariant
                contents@.wf(),
                contents@.same_input(self@.start()),
                self@.trees() == prepend(
                    views(out@),
                    p_tree_rows(contents@, desc@, self.depth as nat),
                ),
            decreases contents@.left(),
        {
            let before = contents.offset();
            let t = build(&mut contents, &desc, self.depth)?;
            proof {
                use_type_invariant(&contents);
            }
            ensure_progress(&contents, before)?;
            let ghost old_out = out@;
            out.push(t);
            proof {
                assert(views(out@) =~= views(old_out).push(t@));
                lemma_prepend_push(
                    views(old_out),
                    t@,
                    p_tree_rows(contents@, desc@, self.depth as nat),
                );
            }
        }
        assert(views(out@) + Seq::<TreeV>::empty() =~= views(out@));
        Ok(out)
    }

    /// Build a compact array from an already-encoded description and contents.
    ///
    /// The two must agree; [`CompactArray::row_count`] is the cheap way to check.
    pub fn from_parts(desc: &'a [u8], contents: &'a [u8]) -> (res: Result<Self>)
        ensures
            match res {
                Ok(c) => (p_desc(Cursor::start(desc@), 0) matches Ok((_, d)) && d.left() == 0)
                    && c@ == (CompactV {
                    desc: desc@,
                    contents: contents@,
                    desc_base: 0,
                    contents_base: 0,
                    depth: 0,
                }),
                Err(e) => match p_desc(Cursor::start(desc@), 0) {
                    Ok((_, d)) => d.left() != 0 && e == err_at(ErrorKind::InvalidLength, d.at()),
                    Err(f) => e == f,
                },
            },
    {
        let mut r = Reader::new(desc);
        TypeDesc::skip(&mut r)?;
        if !r.is_empty() {
            return Err(Error::new(ErrorKind::InvalidLength, r.offset()));
        }
        Ok(CompactArray { desc, contents, desc_base: 0, contents_base: 0, depth: 0 })
    }
}

/// Refuse a description that consumes no bytes per row.
fn ensure_progress(contents: &Reader<'_>, before: usize) -> (res: Result<()>)
    ensures
        match res {
            Ok(_) => clip(contents@.at()) != before,
            Err(e) => clip(contents@.at()) == before && e == err_at(
                ErrorKind::InvalidValue,
                contents@.at(),
            ),
        },
{
    if contents.offset() == before {
        return Err(contents.err(ErrorKind::InvalidValue));
    }
    Ok(())
}

/// Walk one element without keeping its values.
#[verifier::loop_isolation(false)]
fn pass(contents: &mut Reader<'_>, desc: &TypeDesc<'_>, depth: u8) -> (res: Result<()>)
    ensures
        final(contents)@.same_input(old(contents)@),
        final(contents)@.pos >= old(contents)@.pos,
        match res {
            Ok(_) => p_walk(old(contents)@, desc@, depth as nat) matches Ok((_, d)) && d
                == final(contents)@,
            Err(e) => p_walk(old(contents)@, desc@, depth as nat) == Err::<
                (Seq<DataV>, Cursor),
                Error,
            >(e),
        },
    decreases 16 - depth,
{
    let ghost c0 = contents@;
    if depth >= MAX_DEPTH {
        return Err(contents.err(ErrorKind::DepthExceeded));
    }
    match *desc {
        TypeDesc::Scalar(tag) => {
            leaf(contents, tag)?;
            Ok(())
        },
        TypeDesc::Array { len, elem } => {
            let mut dr = Reader::new(elem);
            let inner = TypeDesc::parse(&mut dr)?;
            let ghost mut done: Seq<DataV> = Seq::empty();
            let ghost want = p_walk_n(c0, inner@, len as nat, (depth + 1) as nat);
            proof {
                lemma_ahead_nothing(want);
            }
            let mut i: u16 = 0;
            while i < len
                invariant
                    i <= len,
                    contents@.same_input(c0),
                    contents@.pos >= c0.pos,
                    want == ahead(
                        done,
                        p_walk_n(contents@, inner@, (len - i) as nat, (depth + 1) as nat),
                    ),
                decreases len - i,
            {
                let ghost c = contents@;
                pass(contents, &inner, depth + 1)?;
                proof {
                    let a = (p_walk(c, inner@, (depth + 1) as nat)->Ok_0).0;
                    lemma_ahead(
                        done,
                        a,
                        p_walk_n(contents@, inner@, (len - i - 1) as nat, (depth + 1) as nat),
                    );
                    done = done + a;
                }
                i = i + 1;
            }
            Ok(())
        },
        TypeDesc::Structure { count, fields } => {
            let mut dr = Reader::new(fields);
            let ghost mut done: Seq<DataV> = Seq::empty();
            let ghost want = p_walk_fields(c0, dr@, count as nat, (depth + 1) as nat);
            proof {
                lemma_ahead_nothing(want);
            }
            let mut i: usize = 0;
            while i < count
                invariant
                    i <= count,
                    contents@.same_input(c0),
                    contents@.pos >= c0.pos,
                    want == ahead(
                        done,
                        p_walk_fields(contents@, dr@, (count - i) as nat, (depth + 1) as nat),
                    ),
                decreases count - i,
            {
                let ghost c = contents@;
                let inner = TypeDesc::parse(&mut dr)?;
                pass(contents, &inner, depth + 1)?;
                proof {
                    let a = (p_walk(c, inner@, (depth + 1) as nat)->Ok_0).0;
                    lemma_ahead(
                        done,
                        a,
                        p_walk_fields(contents@, dr@, (count - i - 1) as nat, (depth + 1) as nat),
                    );
                    done = done + a;
                }
                i = i + 1;
            }
            Ok(())
        },
    }
}

/// Append the leaf values of one element.
#[verifier::loop_isolation(false)]
#[verifier::rlimit(40)]
fn walk<'a>(
    contents: &mut Reader<'a>,
    desc: &TypeDesc<'_>,
    depth: u8,
    out: &mut Vec<Data<'a>>,
) -> (res: Result<()>)
    ensures
        final(contents)@.same_input(old(contents)@),
        final(contents)@.pos >= old(contents)@.pos,
        match res {
            Ok(_) => p_walk(old(contents)@, desc@, depth as nat) matches Ok((vs, d)) && d == final(contents)@ && data_views(final(out)@) == data_views(old(out)@) + vs,
            Err(e) => p_walk(old(contents)@, desc@, depth as nat) == Err::<
                (Seq<DataV>, Cursor),
                Error,
            >(e),
        },
    decreases 16 - depth,
{
    let ghost out0 = data_views(out@);
    let ghost c0 = contents@;
    if depth >= MAX_DEPTH {
        return Err(contents.err(ErrorKind::DepthExceeded));
    }
    match *desc {
        TypeDesc::Scalar(tag) => {
            let v = leaf(contents, tag)?;
            out.push(v);
            assert(data_views(out@) =~= out0 + seq![v@]);
            Ok(())
        },
        TypeDesc::Array { len, elem } => {
            let mut dr = Reader::new(elem);
            let inner = TypeDesc::parse(&mut dr)?;
            let ghost mut done: Seq<DataV> = Seq::empty();
            let ghost want = p_walk_n(c0, inner@, len as nat, (depth + 1) as nat);
            proof {
                lemma_ahead_nothing(want);
                assert(data_views(out@) =~= out0 + done);
            }
            let mut i: u16 = 0;
            while i < len
                invariant
                    i <= len,
                    contents@.same_input(c0),
                    contents@.pos >= c0.pos,
                    data_views(out@) == out0 + done,
                    want == ahead(
                        done,
                        p_walk_n(contents@, inner@, (len - i) as nat, (depth + 1) as nat),
                    ),
                decreases len - i,
            {
                let ghost c = contents@;
                walk(contents, &inner, depth + 1, out)?;
                proof {
                    let a = (p_walk(c, inner@, (depth + 1) as nat)->Ok_0).0;
                    lemma_ahead(
                        done,
                        a,
                        p_walk_n(contents@, inner@, (len - i - 1) as nat, (depth + 1) as nat),
                    );
                    assert(out0 + done + a =~= out0 + (done + a));
                    done = done + a;
                }
                i = i + 1;
            }
            proof {
                assert(done + Seq::<DataV>::empty() =~= done);
            }
            Ok(())
        },
        TypeDesc::Structure { count, fields } => {
            let mut dr = Reader::new(fields);
            let ghost mut done: Seq<DataV> = Seq::empty();
            let ghost want = p_walk_fields(c0, dr@, count as nat, (depth + 1) as nat);
            proof {
                lemma_ahead_nothing(want);
                assert(data_views(out@) =~= out0 + done);
            }
            let mut i: usize = 0;
            while i < count
                invariant
                    i <= count,
                    contents@.same_input(c0),
                    contents@.pos >= c0.pos,
                    data_views(out@) == out0 + done,
                    want == ahead(
                        done,
                        p_walk_fields(contents@, dr@, (count - i) as nat, (depth + 1) as nat),
                    ),
                decreases count - i,
            {
                let ghost c = contents@;
                let inner = TypeDesc::parse(&mut dr)?;
                walk(contents, &inner, depth + 1, out)?;
                proof {
                    let a = (p_walk(c, inner@, (depth + 1) as nat)->Ok_0).0;
                    lemma_ahead(
                        done,
                        a,
                        p_walk_fields(contents@, dr@, (count - i - 1) as nat, (depth + 1) as nat),
                    );
                    assert(out0 + done + a =~= out0 + (done + a));
                    done = done + a;
                }
                i = i + 1;
            }
            proof {
                assert(done + Seq::<DataV>::empty() =~= done);
            }
            Ok(())
        },
    }
}

/// What is still to come, with what is already there in front.
pub open spec fn ahead<T>(front: Seq<T>, rest: Result<(Seq<T>, Cursor)>) -> Result<
    (Seq<T>, Cursor),
> {
    match rest {
        Ok((s, c)) => Ok((front + s, c)),
        Err(e) => Err(e),
    }
}

proof fn lemma_ahead_nothing<T>(rest: Result<(Seq<T>, Cursor)>)
    ensures
        ahead(Seq::empty(), rest) == rest,
{
    match rest {
        Ok((s, _)) => {
            assert(Seq::<T>::empty() + s =~= s);
        },
        Err(_) => {},
    }
}

proof fn lemma_ahead<T>(front: Seq<T>, a: Seq<T>, rest: Result<(Seq<T>, Cursor)>)
    ensures
        ahead(front + a, rest) == ahead(front, ahead(a, rest)),
{
    match rest {
        Ok((s, _)) => {
            assert(front + a + s =~= front + (a + s));
        },
        Err(_) => {},
    }
}

/// Build the tree of one element.
#[verifier::loop_isolation(false)]
fn build(contents: &mut Reader<'_>, desc: &TypeDesc<'_>, depth: u8) -> (res: Result<DataBuf>)
    ensures
        final(contents)@.same_input(old(contents)@),
        final(contents)@.pos >= old(contents)@.pos,
        match res {
            Ok(t) => p_build(old(contents)@, desc@, depth as nat) == Ok::<(TreeV, Cursor), Error>(
                (t@, final(contents)@),
            ),
            Err(e) => p_build(old(contents)@, desc@, depth as nat) == Err::<
                (TreeV, Cursor),
                Error,
            >(e),
        },
    decreases 16 - depth,
{
    let ghost c0 = contents@;
    if depth >= MAX_DEPTH {
        return Err(contents.err(ErrorKind::DepthExceeded));
    }
    match *desc {
        TypeDesc::Scalar(tag) => {
            let v = leaf(contents, tag)?;
            proof {
                lemma_leaf_is_plain(c0, tag);
            }
            Ok(DataBuf::from_leaf(&v))
        },
        TypeDesc::Array { len, elem } => {
            let mut dr = Reader::new(elem);
            let inner = TypeDesc::parse(&mut dr)?;
            let mut v: Vec<DataBuf> = Vec::new();
            let ghost want = p_build_n(c0, inner@, len as nat, (depth + 1) as nat);
            proof {
                assert(views(v@) =~= Seq::<TreeV>::empty());
                lemma_ahead_nothing(want);
            }
            let mut i: u16 = 0;
            while i < len
                invariant
                    i <= len,
                    contents@.same_input(c0),
                    contents@.pos >= c0.pos,
                    want == ahead(
                        views(v@),
                        p_build_n(contents@, inner@, (len - i) as nat, (depth + 1) as nat),
                    ),
                decreases len - i,
            {
                let t = build(contents, &inner, depth + 1)?;
                let ghost before = v@;
                v.push(t);
                proof {
                    assert(views(v@) =~= views(before) + seq![t@]);
                    lemma_ahead(
                        views(before),
                        seq![t@],
                        p_build_n(contents@, inner@, (len - i - 1) as nat, (depth + 1) as nat),
                    );
                }
                i = i + 1;
            }
            proof {
                assert(views(v@) + Seq::<TreeV>::empty() =~= views(v@));
                lemma_views(v);
            }
            Ok(DataBuf::Array(v))
        },
        TypeDesc::Structure { count, fields } => {
            let mut dr = Reader::new(fields);
            let mut v: Vec<DataBuf> = Vec::new();
            let ghost want = p_build_fields(c0, dr@, count as nat, (depth + 1) as nat);
            proof {
                assert(views(v@) =~= Seq::<TreeV>::empty());
                lemma_ahead_nothing(want);
            }
            let mut i: usize = 0;
            while i < count
                invariant
                    i <= count,
                    contents@.same_input(c0),
                    contents@.pos >= c0.pos,
                    want == ahead(
                        views(v@),
                        p_build_fields(contents@, dr@, (count - i) as nat, (depth + 1) as nat),
                    ),
                decreases count - i,
            {
                let inner = TypeDesc::parse(&mut dr)?;
                let t = build(contents, &inner, depth + 1)?;
                let ghost before = v@;
                v.push(t);
                proof {
                    assert(views(v@) =~= views(before) + seq![t@]);
                    lemma_ahead(
                        views(before),
                        seq![t@],
                        p_build_fields(contents@, dr@, (count - i - 1) as nat, (depth + 1) as nat),
                    );
                }
                i = i + 1;
            }
            proof {
                assert(views(v@) + Seq::<TreeV>::empty() =~= views(v@));
                lemma_views(v);
            }
            Ok(DataBuf::Structure(v))
        },
    }
}

/// Walking an element and building it read the same bytes, and fail alike.
proof fn lemma_walk_is_build(c: Cursor, d: DescV, depth: nat)
    ensures
        match (p_walk(c, d, depth), p_build(c, d, depth)) {
            (Ok((_, f)), Ok((_, g))) => f == g,
            (Err(e), Err(f)) => e == f,
            _ => false,
        },
    decreases 16 - depth, 0nat,
{
    if depth < MAX_DEPTH {
        match d {
            DescV::Scalar(_) => {},
            DescV::Array { len, elem } => {
                if let Ok((inner, _)) = p_desc(Cursor::start(elem), 0) {
                    lemma_walk_n_is_build(c, inner, len as nat, depth + 1);
                }
            },
            DescV::Structure { count, fields } => {
                lemma_walk_fields_is_build(c, Cursor::start(fields), count, depth + 1);
            },
        }
    }
}

proof fn lemma_walk_n_is_build(c: Cursor, d: DescV, n: nat, depth: nat)
    ensures
        match (p_walk_n(c, d, n, depth), p_build_n(c, d, n, depth)) {
            (Ok((_, f)), Ok((_, g))) => f == g,
            (Err(e), Err(f)) => e == f,
            _ => false,
        },
    decreases 16 - depth, n + 1,
{
    if n > 0 {
        lemma_walk_is_build(c, d, depth);
        if let Ok((_, f)) = p_walk(c, d, depth) {
            lemma_walk_n_is_build(f, d, (n - 1) as nat, depth);
        }
    }
}

proof fn lemma_walk_fields_is_build(c: Cursor, dc: Cursor, n: nat, depth: nat)
    ensures
        match (p_walk_fields(c, dc, n, depth), p_build_fields(c, dc, n, depth)) {
            (Ok((_, f)), Ok((_, g))) => f == g,
            (Err(e), Err(f)) => e == f,
            _ => false,
        },
    decreases 16 - depth, n + 1,
{
    if n > 0 {
        if let Ok((inner, dd)) = p_desc(dc, 0) {
            lemma_walk_is_build(c, inner, depth);
            if let Ok((_, f)) = p_walk(c, inner, depth) {
                lemma_walk_fields_is_build(f, dd, (n - 1) as nat, depth);
            }
        }
    }
}

/// An element has as many leaves as its shape says.
proof fn lemma_walk_leaves(c: Cursor, d: DescV, depth: nat, at: nat)
    requires
        leaves_per(d, at) is Ok,
        p_walk(c, d, depth) is Ok,
    ensures
        (p_walk(c, d, depth)->Ok_0).0.len() == leaves_per(d, at)->Ok_0,
    decreases 16 - depth, 0nat,
{
    match d {
        DescV::Scalar(_) => {},
        DescV::Array { len, elem } => {
            let k = Cursor::start(elem);
            lemma_same_desc(k, at + 1);
            let (inner, _) = p_desc(k, 0)->Ok_0;
            lemma_walk_n_leaves(c, inner, len as nat, depth + 1, at + 1);
        },
        DescV::Structure { count, fields } => {
            lemma_walk_fields_leaves(c, Cursor::start(fields), count, 0, depth + 1, at + 1);
        },
    }
}

/// A description that decodes so many levels down decodes to the same at the top.
proof fn lemma_same_desc(k: Cursor, at: nat)
    requires
        k.wf(),
        p_desc(k, at) is Ok,
    ensures
        p_desc(k, 0) == p_desc(k, at),
{
    let (_, d) = p_desc(k, at)->Ok_0;
    lemma_desc_adv(k, at);
    lemma_desc_local(k, k, at, 0);
    assert(k.adv((d.pos - k.pos) as nat) =~= d);
}

proof fn lemma_walk_n_leaves(c: Cursor, d: DescV, n: nat, depth: nat, at: nat)
    requires
        leaves_per(d, at) is Ok,
        p_walk_n(c, d, n, depth) is Ok,
    ensures
        (p_walk_n(c, d, n, depth)->Ok_0).0.len() == n * leaves_per(d, at)->Ok_0,
    decreases 16 - depth, n + 1,
{
    let k = leaves_per(d, at)->Ok_0;
    if n == 0 {
        assert(0 * k == 0) by (nonlinear_arith);
    } else {
        let (_, f) = p_walk(c, d, depth)->Ok_0;
        lemma_walk_leaves(c, d, depth, at);
        lemma_walk_n_leaves(f, d, (n - 1) as nat, depth, at);
        assert(n * k == (n - 1) * k + k) by (nonlinear_arith)
            requires
                n >= 1,
        ;
    }
}

proof fn lemma_walk_fields_leaves(
    c: Cursor,
    dc: Cursor,
    n: nat,
    acc: nat,
    depth: nat,
    at: nat,
)
    requires
        dc.wf(),
        leaves_per_n(dc, n, acc, at) is Ok,
        p_walk_fields(c, dc, n, depth) is Ok,
    ensures
        acc + (p_walk_fields(c, dc, n, depth)->Ok_0).0.len() == leaves_per_n(dc, n, acc, at)->Ok_0,
    decreases 16 - depth, n + 1,
{
    if n > 0 {
        lemma_same_desc(dc, at);
        lemma_desc_adv(dc, at);
        let (inner, dd) = p_desc(dc, 0)->Ok_0;
        let (_, f) = p_walk(c, inner, depth)->Ok_0;
        lemma_walk_leaves(c, inner, depth, at);
        lemma_walk_fields_leaves(
            f,
            dd,
            (n - 1) as nat,
            acc + leaves_per(inner, at)->Ok_0,
            depth,
            at,
        );
    }
}

proof fn lemma_rows_are_trees(c: Cursor, d: DescV, depth: nat)
    ensures
        match (p_rows(c, d, depth), p_tree_rows(c, d, depth)) {
            (Ok(rows), Ok(trees)) => rows.len() == trees.len(),
            (Err(e), Err(f)) => e == f,
            _ => false,
        },
    decreases c.left(),
{
    if c.left() > 0 {
        lemma_walk_is_build(c, d, depth);
        if let Ok((_, f)) = p_walk(c, d, depth) {
            if !(clip(f.at()) == clip(c.at()) || f.left() >= c.left() || f.left() < 0) {
                lemma_rows_are_trees(f, d, depth);
            }
        }
    }
}

proof fn lemma_row_lengths(c: Cursor, d: DescV, depth: nat)
    requires
        leaves_per(d, 0) is Ok,
        p_rows(c, d, depth) is Ok,
    ensures
        forall|i: int|
            0 <= i < p_rows(c, d, depth)->Ok_0.len() ==> (#[trigger] p_rows(
                c,
                d,
                depth,
            )->Ok_0[i]).len() == leaves_per(d, 0)->Ok_0,
    decreases c.left(),
{
    if c.left() > 0 {
        let (vs, f) = p_walk(c, d, depth)->Ok_0;
        lemma_walk_leaves(c, d, depth, 0);
        lemma_row_lengths(f, d, depth);
        let rest = p_rows(f, d, depth)->Ok_0;
        let rows = p_rows(c, d, depth)->Ok_0;
        assert(rows == seq![vs] + rest);
        assert forall|i: int| 0 <= i < rows.len() implies (#[trigger] rows[i]).len() == leaves_per(
            d,
            0,
        )->Ok_0 by {
            if i > 0 {
                assert(rows[i] == rest[i - 1]);
            }
        }
    }
}

/// The two ways to expand a compact array agree: there are as many rows in the one as in the
/// other, they fail alike, and each row has as many leaves as the description says.
pub proof fn law_rows_agree(c: CompactV)
    ensures
        match (c.rows(), c.trees()) {
            (Ok(rows), Ok(trees)) => rows.len() == trees.len(),
            (Err(e), Err(f)) => e == f,
            _ => false,
        },
        c.shape() matches Ok((d, _)) && leaves_per(d, 0) is Ok && c.rows() is Ok ==> rows_have(
            c.rows()->Ok_0,
            leaves_per((c.shape()->Ok_0).0, 0)->Ok_0,
        ),
{
    if let Ok((d, _)) = c.shape() {
        lemma_rows_are_trees(c.start(), d, c.depth as nat);
        if leaves_per(d, 0) is Ok && c.rows() is Ok {
            lemma_row_lengths(c.start(), d, c.depth as nat);
        }
    }
}

/// Whether every row has so many leaves.
pub open spec fn rows_have(rows: Seq<Seq<DataV>>, n: nat) -> bool {
    forall|i: int| 0 <= i < rows.len() ==> (#[trigger] rows[i]).len() == n
}

/// Whether the leaf of a row and a column stands where the two say.
pub open spec fn in_place(
    leaves: Seq<CompactLeaf<'_>>,
    rows: Seq<Seq<DataV>>,
    n: nat,
    r: int,
    j: int,
) -> bool {
    let leaf = leaves[r * n + j];
    &&& 0 <= r * n + j < leaves.len()
    &&& leaf.row == r
    &&& leaf.column == j
    &&& leaf.value@ == rows[r][j]
}

/// Leaves are listed row by row: where every row has so many, there are so many times the
/// rows, and each stands where its row and its column say.
pub proof fn law_leaves_are_in_order(
    leaves: Seq<CompactLeaf<'_>>,
    rows: Seq<Seq<DataV>>,
    n: nat,
)
    requires
        leaves_are(leaves, rows),
        rows_have(rows, n),
    ensures
        leaves.len() == rows.len() * n,
        leaf_count_of(rows) == rows.len() * n,
        forall|r: int, j: int|
            0 <= r < rows.len() && 0 <= j < n ==> #[trigger] in_place(leaves, rows, n, r, j),
    decreases rows.len(),
{
    if rows.len() == 0 {
        assert(0 * n == 0) by (nonlinear_arith);
    } else {
        let front = rows.drop_last();
        let last = rows.len() - 1;
        let before = leaf_count_of(front);
        let held = leaves.take(before as int);
        assert forall|i: int| 0 <= i < front.len() implies (#[trigger] front[i]).len() == n by {
            assert(front[i] == rows[i]);
        }
        assert(rows[last].len() == n);
        law_leaves_are_in_order(held, front, n);
        assert(rows.len() * n == last * n + n) by (nonlinear_arith)
            requires
                rows.len() == last + 1,
        ;
        assert forall|r: int, j: int| 0 <= r < rows.len() && 0 <= j < n implies #[trigger] in_place(
            leaves,
            rows,
            n,
            r,
            j,
        ) by {
            if r < last {
                assert(in_place(held, front, n, r, j));
                assert(held[r * n + j] == leaves[r * n + j]);
                assert(front[r] == rows[r]);
            } else {
                assert(leaves[before + j].row == last);
            }
        }
    }
}

/// The plain values of a tree, from left to right.
pub open spec fn leaves_of(t: TreeV) -> Seq<TreeV>
    decreases t, 0nat,
{
    match t {
        TreeV::Array(ts) => leaves_of_first(ts, ts.len()),
        TreeV::Structure(ts) => leaves_of_first(ts, ts.len()),
        _ => seq![t],
    }
}

/// The plain values of the first so many trees.
pub open spec fn leaves_of_first(ts: Seq<TreeV>, n: nat) -> Seq<TreeV>
    decreases ts, n,
{
    if n == 0 || n > ts.len() {
        Seq::empty()
    } else {
        leaves_of_first(ts, (n - 1) as nat) + leaves_of(ts[n - 1])
    }
}

/// Values as trees.
pub open spec fn as_trees(vs: Seq<DataV>) -> Seq<TreeV> {
    Seq::new(vs.len(), |i: int| tree_leaf(vs[i]))
}

proof fn lemma_leaves_of_front(a: TreeV, ts: Seq<TreeV>, n: nat)
    requires
        n <= ts.len(),
    ensures
        leaves_of_first(seq![a] + ts, n + 1) == leaves_of(a) + leaves_of_first(ts, n),
    decreases n,
{
    let all = seq![a] + ts;
    if n == 0 {
        assert(leaves_of_first(all, 0) =~= Seq::<TreeV>::empty());
        assert(all[0] == a);
        assert(leaves_of_first(all, 1) =~= leaves_of(a) + leaves_of_first(ts, 0));
    } else {
        lemma_leaves_of_front(a, ts, (n - 1) as nat);
        assert(all[n as int] == ts[n - 1]);
        assert(leaves_of_first(all, n + 1) =~= leaves_of(a) + leaves_of_first(ts, n));
    }
}

proof fn lemma_leaves_agree(c: Cursor, d: DescV, depth: nat)
    ensures
        p_walk(c, d, depth) is Ok && p_build(c, d, depth) is Ok ==> leaves_of(
            p_build(c, d, depth)->Ok_0.0,
        ) == as_trees(p_walk(c, d, depth)->Ok_0.0) && p_build(c, d, depth)->Ok_0.1 == p_walk(
            c,
            d,
            depth,
        )->Ok_0.1,
    decreases 16 - depth, 0nat,
{
    if depth < MAX_DEPTH {
        match d {
            DescV::Scalar(tag) => {
                lemma_leaf_is_plain(c, tag);
                if let Ok((v, f)) = p_leaf(c, tag) {
                    assert(leaves_of(tree_leaf(v)) =~= as_trees(seq![v]));
                }
            },
            DescV::Array { len, elem } => {
                if let Ok((inner, _)) = p_desc(Cursor::start(elem), 0) {
                    lemma_leaves_agree_n(c, inner, len as nat, depth + 1);
                }
            },
            DescV::Structure { count, fields } => {
                lemma_leaves_agree_fields(c, Cursor::start(fields), count, depth + 1);
            },
        }
    }
}

proof fn lemma_leaves_agree_n(c: Cursor, d: DescV, n: nat, depth: nat)
    ensures
        p_walk_n(c, d, n, depth) is Ok && p_build_n(c, d, n, depth) is Ok ==> ({
            let (ts, g) = p_build_n(c, d, n, depth)->Ok_0;
            let (vs, f) = p_walk_n(c, d, n, depth)->Ok_0;
            ts.len() == n && leaves_of_first(ts, n) == as_trees(vs) && g == f
        }),
    decreases 16 - depth, n + 1,
{
    if n == 0 {
        assert(as_trees(Seq::empty()) =~= Seq::<TreeV>::empty());
    } else {
        lemma_leaves_agree(c, d, depth);
        if let Ok((a, f)) = p_walk(c, d, depth) {
            if let Ok((t, _)) = p_build(c, d, depth) {
                lemma_leaves_agree_n(f, d, (n - 1) as nat, depth);
                if let Ok((b, _)) = p_walk_n(f, d, (n - 1) as nat, depth) {
                    if let Ok((ts, _)) = p_build_n(f, d, (n - 1) as nat, depth) {
                        lemma_leaves_of_front(t, ts, (n - 1) as nat);
                        assert(as_trees(a + b) =~= as_trees(a) + as_trees(b));
                    }
                }
            }
        }
    }
}

proof fn lemma_leaves_agree_fields(c: Cursor, dc: Cursor, n: nat, depth: nat)
    ensures
        p_walk_fields(c, dc, n, depth) is Ok && p_build_fields(c, dc, n, depth) is Ok ==> ({
            let (ts, g) = p_build_fields(c, dc, n, depth)->Ok_0;
            let (vs, f) = p_walk_fields(c, dc, n, depth)->Ok_0;
            ts.len() == n && leaves_of_first(ts, n) == as_trees(vs) && g == f
        }),
    decreases 16 - depth, n + 1,
{
    if n == 0 {
        assert(as_trees(Seq::empty()) =~= Seq::<TreeV>::empty());
    } else if let Ok((inner, dd)) = p_desc(dc, 0) {
        lemma_leaves_agree(c, inner, depth);
        if let Ok((a, f)) = p_walk(c, inner, depth) {
            if let Ok((t, _)) = p_build(c, inner, depth) {
                lemma_leaves_agree_fields(f, dd, (n - 1) as nat, depth);
                if let Ok((b, _)) = p_walk_fields(f, dd, (n - 1) as nat, depth) {
                    if let Ok((ts, _)) = p_build_fields(f, dd, (n - 1) as nat, depth) {
                        lemma_leaves_of_front(t, ts, (n - 1) as nat);
                        assert(as_trees(a + b) =~= as_trees(a) + as_trees(b));
                    }
                }
            }
        }
    }
}

proof fn lemma_tree_rows_agree(c: Cursor, d: DescV, depth: nat, i: int)
    ensures
        p_rows(c, d, depth) is Ok && p_tree_rows(c, d, depth) is Ok && 0 <= i < p_rows(
            c,
            d,
            depth,
        )->Ok_0.len() ==> i < p_tree_rows(c, d, depth)->Ok_0.len() && leaves_of(
            p_tree_rows(c, d, depth)->Ok_0[i],
        ) == as_trees(p_rows(c, d, depth)->Ok_0[i]),
    decreases c.left(),
{
    if c.left() > 0 && p_rows(c, d, depth) is Ok && p_tree_rows(c, d, depth) is Ok {
        lemma_leaves_agree(c, d, depth);
        let (vs, f) = p_walk(c, d, depth)->Ok_0;
        if i > 0 {
            lemma_tree_rows_agree(f, d, depth, i - 1);
        }
    }
}

/// The trees of a compact array hold the values that its rows list, from left to right.
pub proof fn law_trees_hold_the_rows(c: CompactV, i: int)
    requires
        c.rows() is Ok,
        c.trees() is Ok,
        0 <= i < c.rows()->Ok_0.len(),
    ensures
        i < c.trees()->Ok_0.len(),
        leaves_of(c.trees()->Ok_0[i]) == as_trees(c.rows()->Ok_0[i]),
{
    if let Ok((d, _)) = c.shape() {
        lemma_tree_rows_agree(c.start(), d, c.depth as nat, i);
    }
}

/// Whether values stand one after the other between two cursors, each behind no tag of its
/// own.
pub open spec fn in_a_row(c: Cursor, vs: Seq<DataV>, f: Cursor) -> bool
    decreases vs.len(),
{
    if vs.len() == 0 {
        f == c
    } else {
        exists|tag: DataTag|
            (#[trigger] p_leaf(c, tag) matches Ok((v, _)) && v == vs[0]) && in_a_row(
                p_leaf(c, tag)->Ok_0.1,
                vs.skip(1),
                f,
            )
    }
}

proof fn lemma_in_a_row_joins(c: Cursor, a: Seq<DataV>, g: Cursor, b: Seq<DataV>, f: Cursor)
    requires
        in_a_row(c, a, g),
        in_a_row(g, b, f),
    ensures
        in_a_row(c, a + b, f),
    decreases a.len(),
{
    if a.len() == 0 {
        assert(a + b =~= b);
    } else {
        let tag = choose|tag: DataTag|
            (#[trigger] p_leaf(c, tag) matches Ok((v, _)) && v == a[0]) && in_a_row(
                p_leaf(c, tag)->Ok_0.1,
                a.skip(1),
                g,
            );
        lemma_in_a_row_joins(p_leaf(c, tag)->Ok_0.1, a.skip(1), g, b, f);
        assert((a + b).skip(1) =~= a.skip(1) + b);
        assert((a + b)[0] == a[0]);
    }
}

proof fn lemma_walk_in_a_row(c: Cursor, d: DescV, depth: nat)
    ensures
        p_walk(c, d, depth) matches Ok((vs, f)) ==> in_a_row(c, vs, f),
    decreases 16 - depth, 0nat,
{
    if depth < MAX_DEPTH {
        match d {
            DescV::Scalar(tag) => {
                if let Ok((v, f)) = p_leaf(c, tag) {
                    assert(seq![v].skip(1) =~= Seq::<DataV>::empty());
                    assert(in_a_row(f, Seq::empty(), f));
                    assert(in_a_row(c, seq![v], f));
                }
            },
            DescV::Array { len, elem } => {
                if let Ok((inner, _)) = p_desc(Cursor::start(elem), 0) {
                    lemma_walk_n_in_a_row(c, inner, len as nat, depth + 1);
                }
            },
            DescV::Structure { count, fields } => {
                lemma_fields_in_a_row(c, Cursor::start(fields), count, depth + 1);
            },
        }
    }
}

proof fn lemma_walk_n_in_a_row(c: Cursor, d: DescV, n: nat, depth: nat)
    ensures
        p_walk_n(c, d, n, depth) matches Ok((vs, f)) ==> in_a_row(c, vs, f),
    decreases 16 - depth, n + 1,
{
    if n > 0 {
        lemma_walk_in_a_row(c, d, depth);
        if let Ok((a, g)) = p_walk(c, d, depth) {
            lemma_walk_n_in_a_row(g, d, (n - 1) as nat, depth);
            if let Ok((b, f)) = p_walk_n(g, d, (n - 1) as nat, depth) {
                lemma_in_a_row_joins(c, a, g, b, f);
            }
        }
    }
}

proof fn lemma_fields_in_a_row(c: Cursor, dc: Cursor, n: nat, depth: nat)
    ensures
        p_walk_fields(c, dc, n, depth) matches Ok((vs, f)) ==> in_a_row(c, vs, f),
    decreases 16 - depth, n + 1,
{
    if n > 0 {
        if let Ok((inner, dd)) = p_desc(dc, 0) {
            lemma_walk_in_a_row(c, inner, depth);
            if let Ok((a, g)) = p_walk(c, inner, depth) {
                lemma_fields_in_a_row(g, dd, (n - 1) as nat, depth);
                if let Ok((b, f)) = p_walk_fields(g, dd, (n - 1) as nat, depth) {
                    lemma_in_a_row_joins(c, a, g, b, f);
                }
            }
        }
    }
}

/// The values of the rows, all behind each other.
pub open spec fn all_of(rows: Seq<Seq<DataV>>) -> Seq<DataV>
    decreases rows.len(),
{
    if rows.len() == 0 {
        Seq::empty()
    } else {
        rows[0] + all_of(rows.skip(1))
    }
}

proof fn lemma_rows_in_a_row(c: Cursor, d: DescV, depth: nat)
    requires
        p_rows(c, d, depth) is Ok,
    ensures
        exists|f: Cursor| #[trigger]
            in_a_row(c, all_of(p_rows(c, d, depth)->Ok_0), f) && f.left() <= 0,
    decreases c.left(),
{
    let rows = p_rows(c, d, depth)->Ok_0;
    if c.left() <= 0 {
        assert(in_a_row(c, all_of(rows), c));
    } else {
        let (vs, g) = p_walk(c, d, depth)->Ok_0;
        lemma_walk_in_a_row(c, d, depth);
        lemma_rows_in_a_row(g, d, depth);
        let rest = p_rows(g, d, depth)->Ok_0;
        let f = choose|f: Cursor| #[trigger] in_a_row(g, all_of(rest), f) && f.left() <= 0;
        assert(rows.skip(1) =~= rest);
        assert(rows == seq![vs] + rest);
        assert(rows[0] == vs);
        lemma_in_a_row_joins(c, vs, g, all_of(rest), f);
        assert(all_of(rows) == vs + all_of(rest));
        assert(in_a_row(c, all_of(rows), f));
    }
}

/// The values of a compact array are what stands in its contents, one after the other from
/// the first byte to the last.
pub proof fn law_rows_are_the_contents(c: CompactV)
    requires
        c.rows() is Ok,
    ensures
        exists|f: Cursor| #[trigger]
            in_a_row(c.start(), all_of(c.rows()->Ok_0), f) && f.left() <= 0,
{
    if let Ok((d, _)) = c.shape() {
        lemma_rows_in_a_row(c.start(), d, c.depth as nat);
    }
}

/// What a row is made of: a plain type is one value of that type; an array is as many of its
/// one type as it says; and a structure is its fields, each of its own type, in order.
pub proof fn law_rows_follow_the_description(c: Cursor, d: DescV, depth: nat, dc: Cursor, n: nat)
    requires
        depth < 15,
    ensures
        d matches DescV::Scalar(tag) ==> (p_walk(c, d, depth) matches Ok((vs, _)) ==> vs.len() == 1
            && vs[0].tag() == tag),
        p_walk_n(c, d, 0, depth) == Ok::<(Seq<DataV>, Cursor), Error>((Seq::empty(), c)),
        p_walk_n(c, d, n + 1, depth) matches Ok((vs, f)) ==> {
            &&& p_walk(c, d, depth) matches Ok((a, g))
            &&& p_walk_n(g, d, n, depth) matches Ok((b, h))
            &&& vs == a + b && h == f
        },
        p_walk_fields(c, dc, n + 1, depth) matches Ok((vs, f)) ==> {
            &&& p_desc(dc, 0) matches Ok((first, dd))
            &&& p_walk(c, first, depth) matches Ok((a, g))
            &&& p_walk_fields(g, dd, n, depth) matches Ok((b, h))
            &&& vs == a + b && h == f
        },
        d matches DescV::Array { len, elem } ==> (p_walk(c, d, depth) matches Ok((vs, f)) ==> {
            &&& p_desc(Cursor::start(elem), 0) matches Ok((inner, _))
            &&& p_walk_n(c, inner, len as nat, depth + 1) == Ok::<(Seq<DataV>, Cursor), Error>(
                (vs, f),
            )
        }),
        d matches DescV::Structure { count, fields } ==> (p_walk(c, d, depth) matches Ok((vs, f))
            ==> p_walk_fields(c, Cursor::start(fields), count, depth + 1) == Ok::<
            (Seq<DataV>, Cursor),
            Error,
        >((vs, f))),
{
    if let DescV::Scalar(tag) = d {
        reveal(p_leaf);
    }
}

} // verus!
