//! OBIS — the six-byte name every COSEM object carries.
//!
//! An OBIS code identifies *what* a value is, independently of the interface class that
//! holds it: `A-B:C.D.E*F`, where A is the medium, B the channel, C the physical
//! quantity, D the processing, E the tariff and F the billing period.

use vstd::prelude::*;
#[allow(unused_imports)]
use vstd::string::*;
#[allow(unused_imports)]
use vstd::utf8::*;

use crate::bytes::same_bytes;
use crate::codec::{to_array, Decode, Encode, Error, ErrorKind, Reader, Result, Writer};
#[allow(unused_imports)]
use crate::codec::{p_take, Cursor};
use crate::text::{push_decimal, push_text};
#[allow(unused_imports)]
use crate::text::decimal;

pub mod names;

verus! {

/// The medium an object measures — OBIS value group A.
#[derive(Debug, Clone, Copy, PartialEq, Eq, PartialOrd, Ord, Hash, Structural)]
#[non_exhaustive]
pub enum Medium {
    /// Abstract objects: clocks, association views, diagnostics. A = 0.
    Abstract,
    /// AC electricity. A = 1.
    Electricity,
    /// DC electricity. A = 2.
    ElectricityDc,
    /// Heat cost allocators. A = 4.
    HeatCostAllocator,
    /// Cooling (thermal energy, inlet). A = 5.
    Cooling,
    /// Heat (thermal energy). A = 6.
    Heat,
    /// Gas. A = 7.
    Gas,
    /// Cold water. A = 8.
    ColdWater,
    /// Hot water. A = 9.
    HotWater,
    /// Other media. A = 15.
    Other,
    /// A value group A this crate does not name.
    Reserved(u8),
}

/// The medium a value group A byte stands for.
pub open spec fn medium_of(v: u8) -> Medium {
    if v == 0 {
        Medium::Abstract
    } else if v == 1 {
        Medium::Electricity
    } else if v == 2 {
        Medium::ElectricityDc
    } else if v == 4 {
        Medium::HeatCostAllocator
    } else if v == 5 {
        Medium::Cooling
    } else if v == 6 {
        Medium::Heat
    } else if v == 7 {
        Medium::Gas
    } else if v == 8 {
        Medium::ColdWater
    } else if v == 9 {
        Medium::HotWater
    } else if v == 15 {
        Medium::Other
    } else {
        Medium::Reserved(v)
    }
}

impl Medium {
    /// The value group A byte of a medium.
    pub open spec fn code(self) -> u8 {
        match self {
            Medium::Abstract => 0,
            Medium::Electricity => 1,
            Medium::ElectricityDc => 2,
            Medium::HeatCostAllocator => 4,
            Medium::Cooling => 5,
            Medium::Heat => 6,
            Medium::Gas => 7,
            Medium::ColdWater => 8,
            Medium::HotWater => 9,
            Medium::Other => 15,
            Medium::Reserved(v) => v,
        }
    }

    /// The value group A byte.
    #[must_use]
    pub fn as_u8(self) -> (v: u8)
        ensures
            v == self.code(),
    {
        match self {
            Medium::Abstract => 0,
            Medium::Electricity => 1,
            Medium::ElectricityDc => 2,
            Medium::HeatCostAllocator => 4,
            Medium::Cooling => 5,
            Medium::Heat => 6,
            Medium::Gas => 7,
            Medium::ColdWater => 8,
            Medium::HotWater => 9,
            Medium::Other => 15,
            Medium::Reserved(v) => v,
        }
    }

    /// Classify a value group A byte.
    #[must_use]
    pub fn from_u8(v: u8) -> (m: Self)
        ensures
            m == medium_of(v),
    {
        match v {
            0 => Medium::Abstract,
            1 => Medium::Electricity,
            2 => Medium::ElectricityDc,
            4 => Medium::HeatCostAllocator,
            5 => Medium::Cooling,
            6 => Medium::Heat,
            7 => Medium::Gas,
            8 => Medium::ColdWater,
            9 => Medium::HotWater,
            15 => Medium::Other,
            other => Medium::Reserved(other),
        }
    }
}

/// Every value group A byte survives classification.
pub proof fn law_medium_round_trip(v: u8)
    ensures
        medium_of(v).code() == v,
{
}

/// A COSEM logical name: `A-B:C.D.E*F`, six bytes on the wire.
#[derive(Debug, Clone, Copy, PartialOrd, Ord, Hash)]
pub struct Obis(pub [u8; 6]);

impl View for Obis {
    type V = Seq<u8>;

    open spec fn view(&self) -> Seq<u8> {
        self.0@
    }
}

/// Two names are equal when their six bytes are.
impl PartialEq for Obis {
    fn eq(&self, other: &Self) -> (r: bool) {
        same_bytes(self.0.as_slice(), other.0.as_slice())
    }
}

impl Eq for Obis {

}

impl vstd::std_specs::cmp::PartialEqSpecImpl for Obis {
    open spec fn obeys_eq_spec() -> bool {
        true
    }

    open spec fn eq_spec(&self, other: &Self) -> bool {
        self@ == other@
    }
}

/// The name that has these bytes, where there is one.
pub open spec fn name_of(bytes: Seq<u8>) -> Obis {
    choose|o: Obis| o@ == bytes
}

/// A name is the one that has its bytes.
pub proof fn lemma_name_of(o: Obis)
    ensures
        name_of(o@) == o,
{
    let n = name_of(o@);
    assert(n@ == o@);
    assert forall|i: int| 0 <= i < 6 implies n.0[i] == o.0[i] by {
        assert(n@[i] == o@[i]);
    }
    assert(n.0 =~= o.0);
}

impl Obis {
    /// From the six value groups.
    #[must_use]
    pub fn new(a: u8, b: u8, c: u8, d: u8, e: u8, f: u8) -> (o: Self)
        ensures
            o@ == seq![a, b, c, d, e, f],
    {
        let o = Obis([a, b, c, d, e, f]);
        assert(o@ =~= seq![a, b, c, d, e, f]);
        o
    }

    /// From the six bytes as they appear on the wire.
    #[must_use]
    pub fn from_bytes(b: [u8; 6]) -> (o: Self)
        ensures
            o == Obis(b),
    {
        Obis(b)
    }

    /// The six bytes as they appear on the wire.
    #[must_use]
    pub fn as_bytes(&self) -> (b: &[u8; 6])
        ensures
            b@ == self@,
    {
        &self.0
    }

    /// Value group A — the medium.
    #[must_use]
    pub fn a(&self) -> (v: u8)
        ensures
            v == self@[0],
    {
        self.0[0]
    }

    /// Value group B — the channel.
    #[must_use]
    pub fn b(&self) -> (v: u8)
        ensures
            v == self@[1],
    {
        self.0[1]
    }

    /// Value group C — the physical quantity.
    #[must_use]
    pub fn c(&self) -> (v: u8)
        ensures
            v == self@[2],
    {
        self.0[2]
    }

    /// Value group D — the processing.
    #[must_use]
    pub fn d(&self) -> (v: u8)
        ensures
            v == self@[3],
    {
        self.0[3]
    }

    /// Value group E — the tariff or further classification.
    #[must_use]
    pub fn e(&self) -> (v: u8)
        ensures
            v == self@[4],
    {
        self.0[4]
    }

    /// Value group F — the billing period.
    #[must_use]
    pub fn f(&self) -> (v: u8)
        ensures
            v == self@[5],
    {
        self.0[5]
    }

    /// The medium, classified.
    #[must_use]
    pub fn medium(&self) -> (m: Medium)
        ensures
            m == medium_of(self@[0]),
    {
        Medium::from_u8(self.0[0])
    }

    /// True for a code in a manufacturer-specific range: `C` in 128..=199, or `D` or `E`
    /// in 128..=254.
    #[must_use]
    pub fn is_manufacturer_specific(&self) -> (r: bool)
        ensures
            r == (128 <= self@[2] <= 199 || 128 <= self@[3] <= 254 || 128 <= self@[4] <= 254),
    {
        (self.0[2] >= 128 && self.0[2] <= 199) || (self.0[3] >= 128 && self.0[3] <= 254) || (
        self.0[4] >= 128 && self.0[4] <= 254)
    }

    /// Parse the textual notation.
    ///
    /// Accepts `A-B:C.D.E*F`, `A-B:C.D.E` (F defaults to 255) and the reduced `C.D.E`
    /// (A defaults to 1, B to 0, F to 255). Separators are accepted liberally, because
    /// meter documentation is not consistent about them, but the *number* of groups is
    /// not: three, five or six.
    pub fn parse(s: &str) -> (r: core::result::Result<Self, ObisParseError>)
        ensures
            match r {
                Ok(o) => parsed(s.spec_bytes()) == Some(o@),
                Err(_) => parsed(s.spec_bytes()) is None,
            },
    {
        let b = s.as_bytes();
        let mut groups: [u8; 6] = [0u8; 6];
        let mut n: usize = 0;
        let mut have_digit: bool = false;
        let mut cur: u16 = 0;
        let mut i: usize = 0;
        while i < b.len()
            invariant
                i <= b.len(),
                n <= 6,
                cur <= 255,
                b@ == s.spec_bytes(),
                scanned(start_state(), b@.take(i as int)) == Some(
                    (groups@.take(n as int), if have_digit {
                        Some(cur as u8)
                    } else {
                        None
                    }),
                ),
            decreases b.len() - i,
        {
            let ch = b[i];
            let ghost pre = scanned(start_state(), b@.take(i as int));
            proof {
                lemma_groups(b@);
                assert(b@.take(i + 1).drop_last() =~= b@.take(i as int));
                if i + 1 < b@.len() {
                    lemma_scan_stuck(start_state(), b@, i + 1);
                } else {
                    assert(b@.take(i + 1) =~= b@);
                }
            }
            if 48 <= ch && ch <= 57 {
                if !have_digit {
                    cur = 0;
                }
                have_digit = true;
                cur = cur * 10 + (ch - 48) as u16;
                if cur > 255 {
                    return Err(ObisParseError);
                }
            } else if ch == 45 || ch == 58 || ch == 46 || ch == 42 || ch == 38 {
                if !have_digit || n >= 6 {
                    return Err(ObisParseError);
                }
                let ghost before = groups@;
                groups[n] = cur as u8;
                proof {
                    assert(groups@.take(n + 1) =~= before.take(n as int).push(cur as u8));
                }
                n = n + 1;
                have_digit = false;
            } else {
                return Err(ObisParseError);
            }
            i = i + 1;
        }
        proof {
            lemma_groups(b@);
            assert(b@.take(i as int) =~= b@);
        }
        if !have_digit || n >= 6 {
            return Err(ObisParseError);
        }
        let ghost before = groups@;
        groups[n] = cur as u8;
        proof {
            assert(groups@.take(n + 1) =~= before.take(n as int).push(cur as u8));
        }
        n = n + 1;
        match n {
            3 => Ok(Obis::new(1, 0, groups[0], groups[1], groups[2], 255)),
            5 => Ok(Obis::new(groups[0], groups[1], groups[2], groups[3], groups[4], 255)),
            6 => {
                let o = Obis::new(groups[0], groups[1], groups[2], groups[3], groups[4], groups[5]);
                assert(o@ =~= groups@.take(6));
                Ok(o)
            },
            _ => Err(ObisParseError),
        }
    }

    /// The text of a name: `A-B:C.D.E*F`.
    pub open spec fn text(self) -> Seq<char> {
        decimal(self@[0] as nat) + "-"@ + decimal(self@[1] as nat) + ":"@ + decimal(
            self@[2] as nat,
        ) + "."@ + decimal(self@[3] as nat) + "."@ + decimal(self@[4] as nat) + "*"@ + decimal(
            self@[5] as nat,
        )
    }

    /// The name as text.
    pub fn to_string(&self) -> (s: String)
        ensures
            s@ == self.text(),
    {
        let mut s = String::new();
        push_decimal(&mut s, self.0[0] as u64);
        push_text(&mut s, "-");
        push_decimal(&mut s, self.0[1] as u64);
        push_text(&mut s, ":");
        push_decimal(&mut s, self.0[2] as u64);
        push_text(&mut s, ".");
        push_decimal(&mut s, self.0[3] as u64);
        push_text(&mut s, ".");
        push_decimal(&mut s, self.0[4] as u64);
        push_text(&mut s, "*");
        push_decimal(&mut s, self.0[5] as u64);
        assert(s@ =~= self.text());
        s
    }

    /// Read an OBIS code from an octet string that must be exactly six bytes.
    pub fn from_octet_string(bytes: &[u8], offset: usize) -> (r: Result<Self>)
        ensures
            match r {
                Ok(o) => o@ == bytes@,
                Err(e) => bytes@.len() != 6 && e == (Error {
                    kind: ErrorKind::InvalidLength,
                    offset,
                }),
            },
    {
        if bytes.len() != 6 {
            return Err(Error::new(ErrorKind::InvalidLength, offset));
        }
        Ok(Obis(to_array::<6>(bytes)))
    }
}

/// Whether a byte is a digit.
pub open spec fn is_digit(ch: u8) -> bool {
    48 <= ch <= 57
}

/// Whether a byte separates groups: `-`, `:`, `.`, `*` or `&`.
pub open spec fn is_separator(ch: u8) -> bool {
    ch == 45 || ch == 58 || ch == 46 || ch == 42 || ch == 38
}

/// A text cut at its separators: what stands before the first, between each two, and behind
/// the last.
pub open spec fn pieces(s: Seq<u8>) -> Seq<Seq<u8>>
    decreases s.len(),
{
    if s.len() == 0 {
        seq![Seq::empty()]
    } else {
        let front = pieces(s.drop_last());
        if is_separator(s.last()) {
            front.push(Seq::empty())
        } else {
            front.drop_last().push(front.last().push(s.last()))
        }
    }
}

/// The number that digits spell.
pub open spec fn number(digits: Seq<u8>) -> int
    decreases digits.len(),
{
    if digits.len() == 0 {
        0
    } else {
        number(digits.drop_last()) * 10 + (digits.last() - 48)
    }
}

/// Whether a piece spells a group: digits, one at least, of a number that a byte holds.
pub open spec fn is_group(piece: Seq<u8>) -> bool {
    &&& piece.len() > 0
    &&& all_digits(piece)
    &&& number(piece) <= 255
}

/// Whether there is nothing but digits.
pub open spec fn all_digits(piece: Seq<u8>) -> bool {
    forall|i: int| 0 <= i < piece.len() ==> is_digit(#[trigger] piece[i])
}

/// Whether every piece spells a group.
pub open spec fn all_groups(cut: Seq<Seq<u8>>) -> bool {
    forall|i: int| 0 <= i < cut.len() ==> is_group(#[trigger] cut[i])
}

/// The groups that pieces spell.
pub open spec fn spelt(cut: Seq<Seq<u8>>) -> Seq<u8> {
    Seq::new(cut.len(), |i: int| number(cut[i]) as u8)
}

/// The groups of a text: it is cut into them by its separators, and nothing else is in it.
pub open spec fn groups_of(s: Seq<u8>) -> Option<Seq<u8>> {
    if all_groups(pieces(s)) {
        Some(spelt(pieces(s)))
    } else {
        None
    }
}

/// Where reading the notation has got to: the groups closed by a separator, and the group
/// being read, if a digit of it has been seen. `None` once the text is refused.
type Scan = Option<(Seq<u8>, Option<u8>)>;

/// Reading starts with no group.
spec fn start_state() -> Scan {
    Some((Seq::empty(), None))
}

/// Reading one more byte.
spec fn step(st: Scan, ch: u8) -> Scan {
    match st {
        None => None,
        Some((groups, cur)) => if 48 <= ch <= 57 {
            let v = (match cur {
                Some(c) => c as int,
                None => 0,
            }) * 10 + (ch - 48);
            if v <= 255 {
                Some((groups, Some(v as u8)))
            } else {
                None
            }
        } else if ch == 45 || ch == 58 || ch == 46 || ch == 42 || ch == 38 {
            match cur {
                Some(c) => if groups.len() < 6 {
                    Some((groups.push(c), None))
                } else {
                    None
                },
                None => None,
            }
        } else {
            None
        },
    }
}

/// Reading a byte string from a state.
spec fn scanned(st: Scan, s: Seq<u8>) -> Scan
    decreases s.len(),
{
    if s.len() == 0 {
        st
    } else {
        step(scanned(st, s.drop_last()), s.last())
    }
}

/// Where reading stands, from the pieces read so far: at most six are closed and spell
/// groups, and the last holds nothing yet, or digits of a number that a byte holds.
spec fn scan_of(cut: Seq<Seq<u8>>) -> Scan {
    let (closed, open) = (cut.drop_last(), cut.last());
    if !all_groups(closed) || closed.len() > 6 {
        None
    } else if open.len() == 0 {
        Some((spelt(closed), None))
    } else if is_group(open) {
        Some((spelt(closed), Some(number(open) as u8)))
    } else {
        None
    }
}

/// Digits spell no less for the first of them being left as they are.
proof fn lemma_number(digits: Seq<u8>)
    requires
        all_digits(digits),
    ensures
        number(digits) >= 0,
        digits.len() > 0 ==> all_digits(digits.drop_last()) && 0 <= number(digits.drop_last())
            <= number(digits),
    decreases digits.len(),
{
    if digits.len() > 0 {
        let front = digits.drop_last();
        assert forall|i: int| 0 <= i < front.len() implies is_digit(#[trigger] front[i]) by {
            assert(front[i] == digits[i]);
        }
        assert(is_digit(digits[digits.len() - 1]));
        lemma_number(front);
    }
}

/// Reading byte by byte comes to what the pieces say.
proof fn lemma_scanned(s: Seq<u8>)
    ensures
        pieces(s).len() > 0,
        scanned(start_state(), s) == scan_of(pieces(s)),
    decreases s.len(),
{
    if s.len() == 0 {
        assert(spelt(pieces(s).drop_last()) =~= Seq::<u8>::empty());
    } else {
        lemma_scanned(s.drop_last());
        let front = pieces(s.drop_last());
        let (closed, open) = (front.drop_last(), front.last());
        let cut = pieces(s);
        let ch = s.last();
        if is_separator(ch) {
            assert(cut.drop_last() =~= front);
            assert(front =~= closed.push(open));
            assert(all_groups(front) == (all_groups(closed) && is_group(open))) by {
                if all_groups(front) {
                    assert forall|i: int| 0 <= i < closed.len() implies is_group(
                        #[trigger] closed[i],
                    ) by {
                        assert(closed[i] == front[i]);
                    }
                    assert(front[front.len() - 1] == open);
                }
            }
            assert(spelt(front) =~= spelt(closed).push(number(open) as u8));
        } else {
            let more = open.push(ch);
            assert(cut.drop_last() =~= closed);
            assert(cut.last() == more);
            assert(more.drop_last() =~= open);
            assert(more[more.len() - 1] == ch);
            if all_digits(more) {
                lemma_number(more);
                assert(is_digit(more.last()));
            } else if all_digits(open) && is_digit(ch) {
                assert forall|i: int| 0 <= i < more.len() implies is_digit(#[trigger] more[i]) by {
                    if i < open.len() {
                        assert(more[i] == open[i]);
                    }
                }
            } else if !all_digits(open) {
                assert(!is_group(open));
            }
            assert(number(Seq::<u8>::empty()) == 0);
            if open.len() == 0 {
                assert(open =~= Seq::<u8>::empty());
            }
        }
    }
}

/// The groups that have been read, where reading a text ends in one.
spec fn read_groups(s: Seq<u8>) -> Option<Seq<u8>> {
    match scanned(start_state(), s) {
        Some((groups, Some(c))) => if groups.len() < 6 {
            Some(groups.push(c))
        } else {
            None
        },
        _ => None,
    }
}

/// The groups of a text, unless there are more than six, are those that have been read.
proof fn lemma_groups(s: Seq<u8>)
    ensures
        match groups_of(s) {
            Some(g) => read_groups(s) == if g.len() <= 6 {
                Some(g)
            } else {
                None
            },
            None => read_groups(s) is None,
        },
{
    lemma_scanned(s);
    let cut = pieces(s);
    let (closed, open) = (cut.drop_last(), cut.last());
    assert(cut =~= closed.push(open));
    assert(spelt(cut) =~= spelt(closed).push(number(open) as u8));
    if all_groups(cut) {
        assert forall|i: int| 0 <= i < closed.len() implies is_group(#[trigger] closed[i]) by {
            assert(closed[i] == cut[i]);
        }
        assert(cut[cut.len() - 1] == open);
    } else if all_groups(closed) {
        assert(!is_group(open)) by {
            if is_group(open) {
                assert forall|i: int| 0 <= i < cut.len() implies is_group(#[trigger] cut[i]) by {
                    if i < closed.len() {
                        assert(cut[i] == closed[i]);
                    }
                }
            }
        }
    }
}

/// The name a text stands for: six groups as they are, five with F = 255, three as
/// C, D and E with A = 1, B = 0 and F = 255.
pub open spec fn parsed(s: Seq<u8>) -> Option<Seq<u8>> {
    match groups_of(s) {
        Some(g) => if g.len() == 3 {
            Some(seq![1u8, 0u8, g[0], g[1], g[2], 255u8])
        } else if g.len() == 5 {
            Some(seq![g[0], g[1], g[2], g[3], g[4], 255u8])
        } else if g.len() == 6 {
            Some(g)
        } else {
            None
        },
        None => None,
    }
}

/// A refused prefix is refused for good.
proof fn lemma_scan_stuck(st: Scan, s: Seq<u8>, i: int)
    requires
        0 <= i <= s.len(),
    ensures
        scanned(st, s.take(i)) is None ==> scanned(st, s) is None,
    decreases s.len() - i,
{
    if i == s.len() {
        assert(s.take(i) =~= s);
    } else {
        assert(s.take(i + 1).drop_last() =~= s.take(i));
        lemma_scan_stuck(st, s, i + 1);
    }
}

/// Reading one string and then another is reading them joined.
proof fn lemma_scan_concat(st: Scan, a: Seq<u8>, b: Seq<u8>)
    ensures
        scanned(st, a + b) == scanned(scanned(st, a), b),
    decreases b.len(),
{
    if b.len() == 0 {
        assert(a + b =~= a);
    } else {
        assert((a + b).drop_last() =~= a + b.drop_last());
        lemma_scan_concat(st, a, b.drop_last());
    }
}

/// An ASCII text as bytes.
pub open spec fn ascii(s: Seq<char>) -> Seq<u8> {
    Seq::new(s.len(), |i: int| s[i] as u8)
}

/// Reading a number reads that number.
proof fn lemma_scan_decimal(g: Seq<u8>, n: nat)
    requires
        n <= 255,
    ensures
        scanned(Some((g, None)), ascii(decimal(n))) == Some((g, Some(n as u8))),
    decreases n,
{
    let s = ascii(decimal(n));
    if n < 10 {
        assert(s.drop_last() =~= Seq::<u8>::empty());
        assert(scanned(Some((g, None::<u8>)), s.drop_last()) == Some((g, None::<u8>)));
        assert(s.last() == 48 + n);
    } else {
        lemma_scan_decimal(g, n / 10);
        assert(s.drop_last() =~= ascii(decimal(n / 10)));
        assert(s.last() == 48 + n % 10);
    }
}

/// Reading a number and a separator closes a group.
proof fn lemma_scan_group(g: Seq<u8>, n: u8, sep: Seq<char>)
    requires
        g.len() < 6,
        sep.len() == 1,
        sep[0] == '-' || sep[0] == ':' || sep[0] == '.' || sep[0] == '*',
    ensures
        scanned(Some((g, None)), ascii(decimal(n as nat) + sep)) == Some((g.push(n), None::<u8>)),
{
    lemma_scan_decimal(g, n as nat);
    lemma_scan_concat(Some((g, None)), ascii(decimal(n as nat)), ascii(sep));
    assert(ascii(decimal(n as nat) + sep) =~= ascii(decimal(n as nat)) + ascii(sep));
    let t = ascii(sep);
    assert(t.drop_last() =~= Seq::<u8>::empty());
    let st: Scan = Some((g, Some(n)));
    assert(scanned(st, t.drop_last()) == st);
    assert(scanned(st, t) == step(st, t.last()));
}

proof fn lemma_decimal_ascii(n: nat)
    ensures
        is_ascii_chars(decimal(n)),
    decreases n,
{
    if n >= 10 {
        lemma_decimal_ascii(n / 10);
    }
}

/// The text of a name parses back to the name.
#[verifier::rlimit(60)]
#[verifier::spinoff_prover]
pub proof fn law_text_round_trip(o: Obis)
    ensures
        parsed(encode_utf8(o.text())) == Some(o@),
{
    reveal_strlit("-");
    reveal_strlit(":");
    reveal_strlit(".");
    reveal_strlit("*");
    let d = |i: int| decimal(o@[i] as nat);
    let e = Seq::<u8>::empty();
    let (s0, s1, s2) = (d(0) + "-"@, d(1) + ":"@, d(2) + "."@);
    let (s3, s4, s5) = (d(3) + "."@, d(4) + "*"@, d(5));
    let g0 = e.push(o@[0]);
    let g1 = g0.push(o@[1]);
    let g2 = g1.push(o@[2]);
    let g3 = g2.push(o@[3]);
    let g4 = g3.push(o@[4]);
    lemma_scan_group(e, o@[0], "-"@);
    lemma_scan_group(g0, o@[1], ":"@);
    lemma_scan_group(g1, o@[2], "."@);
    lemma_scan_group(g2, o@[3], "."@);
    lemma_scan_group(g3, o@[4], "*"@);
    lemma_scan_decimal(g4, o@[5] as nat);
    let st = start_state();
    let b = ascii(s0) + ascii(s1) + ascii(s2) + ascii(s3) + ascii(s4) + ascii(s5);
    lemma_scan_concat(st, ascii(s0), ascii(s1));
    lemma_scan_concat(st, ascii(s0) + ascii(s1), ascii(s2));
    lemma_scan_concat(st, ascii(s0) + ascii(s1) + ascii(s2), ascii(s3));
    lemma_scan_concat(st, ascii(s0) + ascii(s1) + ascii(s2) + ascii(s3), ascii(s4));
    lemma_scan_concat(st, ascii(s0) + ascii(s1) + ascii(s2) + ascii(s3) + ascii(s4), ascii(s5));
    assert(ascii(o.text()) =~= b);
    assert forall|i: int| 0 <= i < 6 implies is_ascii_chars(#[trigger] d(i)) by {
        lemma_decimal_ascii(o@[i] as nat);
    }
    assert(is_ascii_chars(o.text())) by {
        assert(is_ascii_chars(d(0)));
        assert(is_ascii_chars(d(1)));
        assert(is_ascii_chars(d(2)));
        assert(is_ascii_chars(d(3)));
        assert(is_ascii_chars(d(4)));
        assert(is_ascii_chars(d(5)));
    }
    is_ascii_chars_encode_utf8(o.text());
    assert(encode_utf8(o.text()) =~= ascii(o.text()));
    assert(g4.push(o@[5]) =~= o@);
    lemma_groups(b);
}

/// The textual notation could not be read as an OBIS code.
#[derive(Debug, Clone, Copy, PartialEq, Eq, Structural)]
pub struct ObisParseError;

impl ObisParseError {
    /// The error as text.
    pub fn to_string(&self) -> (s: String)
        ensures
            s@ == "not an OBIS code"@,
    {
        let mut s = String::new();
        push_text(&mut s, "not an OBIS code");
        assert(s@ =~= "not an OBIS code"@);
        s
    }
}

impl core::str::FromStr for Obis {
    type Err = ObisParseError;

    fn from_str(s: &str) -> (r: core::result::Result<Self, Self::Err>) {
        Obis::parse(s)
    }
}

impl From<[u8; 6]> for Obis {
    fn from(v: [u8; 6]) -> (o: Self) {
        Obis(v)
    }
}

impl vstd::std_specs::convert::FromSpecImpl<[u8; 6]> for Obis {
    open spec fn obeys_from_spec() -> bool {
        true
    }

    open spec fn from_spec(v: [u8; 6]) -> Obis {
        Obis(v)
    }
}

impl From<Obis> for [u8; 6] {
    fn from(v: Obis) -> (b: Self) {
        v.0
    }
}

impl vstd::std_specs::convert::FromSpecImpl<Obis> for [u8; 6] {
    open spec fn obeys_from_spec() -> bool {
        true
    }

    open spec fn from_spec(v: Obis) -> [u8; 6] {
        v.0
    }
}

impl Encode for Obis {
    open spec fn enc(&self) -> Seq<u8> {
        self@
    }

    open spec fn encodable(&self) -> bool {
        true
    }

    fn encode<W: Writer>(&self, w: &mut W) -> (r: Result<()>) {
        let bytes = self.0.as_slice();
        assert(bytes@ =~= self@);
        assert(self.encodable() && self.enc() == self@);
        let ghost before = w.sink().bytes;
        let r = w.write_bytes(bytes);
        assert(before =~= w.sink().bytes.subrange(0, before.len() as int));
        r
    }

    fn encoded_len(&self) -> (n: usize) {
        6
    }
}

impl<'a> Decode<'a> for Obis {
    open spec fn parse(c: Cursor) -> Result<(Seq<u8>, Cursor)> {
        p_take(c, 6)
    }

    fn decode(r: &mut Reader<'a>) -> (res: Result<Self>) {
        let b = r.array::<6>()?;
        Ok(Obis(b))
    }
}

/// A text is cut at its separators and nowhere else: one without any is one piece, and what
/// stands before a separator and what stands behind it are cut each by itself. The separators
/// are the five that are used between groups.
pub proof fn law_text_is_cut_at_separators(a: Seq<u8>, sep: u8, b: Seq<u8>)
    ensures
        is_separator(sep) <==> sep == '-' as u8 || sep == ':' as u8 || sep == '.' as u8 || sep
            == '*' as u8 || sep == '&' as u8,
        is_separator(sep) ==> pieces(a.push(sep) + b) == pieces(a) + pieces(b),
        (forall|i: int| 0 <= i < a.len() ==> !is_separator(#[trigger] a[i])) ==> pieces(a) == seq![
            a,
        ],
    decreases a.len() + b.len(),
{
    if is_separator(sep) {
        let s = a.push(sep) + b;
        if b.len() == 0 {
            assert(s =~= a.push(sep));
            assert(s.drop_last() =~= a);
            assert(pieces(s) =~= pieces(a) + pieces(b));
        } else {
            let c = b.drop_last();
            assert(s.drop_last() =~= a.push(sep) + c);
            law_text_is_cut_at_separators(a, sep, c);
            lemma_some_piece(c);
            lemma_some_piece(a);
            assert(pieces(s) =~= pieces(a) + pieces(b));
        }
    }
    if (forall|i: int| 0 <= i < a.len() ==> !is_separator(#[trigger] a[i])) && a.len() > 0 {
        let c = a.drop_last();
        assert forall|i: int| 0 <= i < c.len() implies !is_separator(#[trigger] c[i]) by {
            assert(!is_separator(a[i]));
        }
        law_text_is_cut_at_separators(c, 0, Seq::empty());
        assert(!is_separator(a[a.len() - 1]));
        assert(c.push(a.last()) =~= a);
        assert(pieces(a) =~= seq![a]);
    } else if a.len() == 0 {
        assert(a =~= Seq::empty());
    }
}

proof fn lemma_some_piece(s: Seq<u8>)
    ensures
        pieces(s).len() > 0,
    decreases s.len(),
{
    if s.len() > 0 {
        lemma_some_piece(s.drop_last());
    }
}

/// What a text of groups names: three of them the quantity, the processing and the tariff, of
/// electricity and the first channel, in no billing period; five all but the billing period;
/// and six everything. Any other number names nothing, and neither does a piece that is no
/// number or one above 255.
pub proof fn law_groups_name(s: Seq<u8>)
    ensures
        parsed(s) is Some <==> (pieces(s).len() == 3 || pieces(s).len() == 5 || pieces(s).len()
            == 6) && forall|i: int|
            0 <= i < pieces(s).len() ==> {
                let p = #[trigger] pieces(s)[i];
                &&& p.len() > 0
                &&& forall|k: int| 0 <= k < p.len() ==> '0' as u8 <= #[trigger] p[k] <= '9' as u8
                &&& number(p) <= 255
            },
        parsed(s) matches Some(o) ==> {
            let g = pieces(s);
            &&& o.len() == 6
            &&& g.len() == 3 ==> o == seq![
                1u8,
                0u8,
                number(g[0]) as u8,
                number(g[1]) as u8,
                number(g[2]) as u8,
                255u8,
            ]
            &&& g.len() == 5 ==> o == seq![
                number(g[0]) as u8,
                number(g[1]) as u8,
                number(g[2]) as u8,
                number(g[3]) as u8,
                number(g[4]) as u8,
                255u8,
            ]
            &&& g.len() == 6 ==> o == seq![
                number(g[0]) as u8,
                number(g[1]) as u8,
                number(g[2]) as u8,
                number(g[3]) as u8,
                number(g[4]) as u8,
                number(g[5]) as u8,
            ]
        },
        number(Seq::empty()) == 0,
        forall|d: Seq<u8>, c: u8| number(#[trigger] d.push(c)) == 10 * number(d) + (c - '0' as u8),
{
    assert forall|d: Seq<u8>, c: u8| number(#[trigger] d.push(c)) == 10 * number(d) + (c
        - '0' as u8) by {
        assert(d.push(c).drop_last() =~= d);
    }
    let cut = pieces(s);
    if parsed(s) is Some {
        assert forall|i: int| 0 <= i < cut.len() implies {
            let p = #[trigger] cut[i];
            &&& p.len() > 0
            &&& forall|k: int| 0 <= k < p.len() ==> '0' as u8 <= #[trigger] p[k] <= '9' as u8
            &&& number(p) <= 255
        } by {
            let p = cut[i];
            assert(is_group(p));
            assert forall|k: int| 0 <= k < p.len() implies '0' as u8 <= #[trigger] p[k]
                <= '9' as u8 by {
                assert(is_digit(p[k]));
            }
        }
        assert(parsed(s)->0.len() == 6);
        if cut.len() == 6 {
            assert(parsed(s)->0 =~= seq![
                number(cut[0]) as u8,
                number(cut[1]) as u8,
                number(cut[2]) as u8,
                number(cut[3]) as u8,
                number(cut[4]) as u8,
                number(cut[5]) as u8,
            ]);
        }
    } else if (cut.len() == 3 || cut.len() == 5 || cut.len() == 6) && forall|i: int|
        0 <= i < cut.len() ==> {
            let p = #[trigger] cut[i];
            &&& p.len() > 0
            &&& forall|k: int| 0 <= k < p.len() ==> '0' as u8 <= #[trigger] p[k] <= '9' as u8
            &&& number(p) <= 255
        } {
        assert(all_groups(cut)) by {
            assert forall|i: int| 0 <= i < cut.len() implies is_group(#[trigger] cut[i]) by {
                let p = cut[i];
                assert forall|k: int| 0 <= k < p.len() implies is_digit(#[trigger] p[k]) by {
                    assert('0' as u8 <= p[k] <= '9' as u8);
                }
            }
        }
    }
}

/// What is read out of a name: its six groups in order, the medium that the first stands for,
/// and whether it is a manufacturer's own.
pub proof fn law_name_is_its_groups(o: Obis)
    ensures
        forall|v: u8| #[trigger] call_ensures(Obis::a, (&o,), v) ==> v == o.0[0],
        forall|v: u8| #[trigger] call_ensures(Obis::b, (&o,), v) ==> v == o.0[1],
        forall|v: u8| #[trigger] call_ensures(Obis::c, (&o,), v) ==> v == o.0[2],
        forall|v: u8| #[trigger] call_ensures(Obis::d, (&o,), v) ==> v == o.0[3],
        forall|v: u8| #[trigger] call_ensures(Obis::e, (&o,), v) ==> v == o.0[4],
        forall|v: u8| #[trigger] call_ensures(Obis::f, (&o,), v) ==> v == o.0[5],
        forall|r: bool| #[trigger]
            call_ensures(Obis::is_manufacturer_specific, (&o,), r) ==> r == (128 <= o.0[2] < 200
                || 128 <= o.0[3] < 255 || 128 <= o.0[4] < 255),
        forall|m: Medium| #[trigger]
            call_ensures(Obis::medium, (&o,), m) ==> {
                &&& o.0[0] == 0 <==> m is Abstract
                &&& o.0[0] == 1 <==> m is Electricity
                &&& o.0[0] == 2 <==> m is ElectricityDc
                &&& o.0[0] == 4 <==> m is HeatCostAllocator
                &&& o.0[0] == 5 <==> m is Cooling
                &&& o.0[0] == 6 <==> m is Heat
                &&& o.0[0] == 7 <==> m is Gas
                &&& o.0[0] == 8 <==> m is ColdWater
                &&& o.0[0] == 9 <==> m is HotWater
                &&& o.0[0] == 15 <==> m is Other
                &&& m matches Medium::Reserved(v) ==> v == o.0[0]
            },
{
}

} // verus!
