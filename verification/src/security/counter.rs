//! Invocation counters and replay rejection.
//!
//! The counter is the second half of every nonce. Reusing one with the same key repeats
//! a GCM nonce, and repeating a GCM nonce does not merely leak a plaintext — it leaks
//! the authentication subkey, after which anyone can forge messages. So the rules here
//! are strict on purpose:
//!
//! * a sender never reuses a value, and refuses to encrypt rather than wrapping;
//! * a receiver accepts each value **at most once**;
//! * a receiver that tolerates reordering still accepts each value at most once.

use vstd::prelude::*;

use crate::codec::{Error, ErrorKind, Result};

verus! {

/// A sending counter.
///
/// The value is *the last one used*, so the first call to [`InvocationCounter::next`]
/// after `new(v)` yields `v + 1`.
///
/// # Surviving a restart
///
/// A counter that restarts from zero against a key that has not changed reuses every
/// nonce it used before, so the value must outlive the process: read
/// [`InvocationCounter::get`] and persist it, and hand the stored value back through the
/// session or server configuration on the way up.
#[derive(Debug, Clone, Copy, PartialEq, Eq, Structural)]
pub struct InvocationCounter(u32);

impl View for InvocationCounter {
    type V = u32;

    closed spec fn view(&self) -> u32 {
        self.0
    }
}

impl Default for InvocationCounter {
    fn default() -> (r: Self)
        ensures
            r@ == 0,
    {
        InvocationCounter(0)
    }
}

impl InvocationCounter {
    /// A counter whose last used value was `v`. The next value sent will be `v + 1`.
    #[must_use]
    pub fn new(v: u32) -> (r: Self)
        ensures
            r@ == v,
    {
        InvocationCounter(v)
    }

    /// The last value used. This is the value to persist.
    #[must_use]
    pub fn get(self) -> (v: u32)
        ensures
            v == self@,
    {
        self.0
    }

    /// Take the next value.
    ///
    /// # Errors
    /// [`ErrorKind::Unsupported`] when the counter has reached `u32::MAX`. There is no
    /// safe next value: the association must be re-keyed.
    pub fn next(&mut self) -> (r: Result<u32>)
        ensures
            match r {
                Ok(v) => v == old(self)@ + 1 && final(self)@ == v,
                Err(e) => old(self)@ == u32::MAX && final(self)@ == old(self)@ && e == (Error {
                    kind: ErrorKind::Unsupported,
                    offset: 0,
                }),
            },
    {
        match self.0.checked_add(1) {
            Some(next) => {
                self.0 = next;
                Ok(next)
            },
            None => Err(Error::new(ErrorKind::Unsupported, 0)),
        }
    }
}

/// How many invocation counters a [`ReplayWindow`] remembers: the highest accepted,
/// plus the `REPLAY_WINDOW_MAX - 1` values below it.
///
/// The bitmap is a `u64`, so the largest usable reorder *width* is one less than this —
/// [`ReplayWindow::new`] clamps to that.
pub const REPLAY_WINDOW_MAX: u32 = 64;

/// The largest reorder width [`ReplayWindow::new`] will honour.
pub const REPLAY_WIDTH_MAX: u32 = REPLAY_WINDOW_MAX - 1;

/// What a replay window remembers.
#[verifier::ext_equal]
pub struct WindowV {
    /// The highest counter accepted, if any has been.
    pub highest: Option<u32>,
    /// How far below the highest to accept at all.
    pub width: u32,
    /// Which of the counters up to [`REPLAY_WINDOW_MAX`] below the highest are spent.
    pub seen: Set<u32>,
}

impl WindowV {
    /// Whether a counter is acceptable: above everything accepted so far, or inside the
    /// window and not spent.
    pub open spec fn admits(self, v: u32) -> bool {
        match self.highest {
            None => true,
            Some(h) => v > h || (h - v <= self.width && !self.seen.contains(v)),
        }
    }

    /// The window once a counter has been accepted.
    pub open spec fn with(self, v: u32) -> WindowV {
        let top = match self.highest {
            Some(h) if h >= v => h,
            _ => v,
        };
        WindowV {
            highest: Some(top),
            width: self.width,
            seen: Set::new(
                |x: u32| x <= top < x + REPLAY_WINDOW_MAX && (x == v || self.seen.contains(x)),
            ),
        }
    }

    /// The window once each of a run of counters has been offered, and accepted where it
    /// was acceptable.
    pub open spec fn after(self, offered: Seq<u32>) -> WindowV
        decreases offered.len(),
    {
        if offered.len() == 0 {
            self
        } else {
            let before = self.after(offered.drop_last());
            if before.admits(offered.last()) {
                before.with(offered.last())
            } else {
                before
            }
        }
    }

    /// What holds of every window: its width is one that it can answer for, and it
    /// remembers nothing outside its slots.
    pub open spec fn wf(self) -> bool {
        &&& self.width <= REPLAY_WIDTH_MAX
        &&& match self.highest {
            None => self.seen == Set::<u32>::empty(),
            Some(h) => forall|x: u32|
                self.seen.contains(x) ==> x <= h < x + REPLAY_WINDOW_MAX,
        }
    }
}

/// Accepts each invocation counter from one peer at most once.
///
/// The window is the usual one — the shape IPsec and DTLS use:
/// the highest counter seen, plus a bitmap of which of the `width` values below it have
/// already arrived. A counter above the highest advances the window; one inside it is
/// accepted only if its bit is clear; one below it, or already seen, is a replay.
///
/// The default width is **zero**, which accepts only strictly increasing counters. That
/// is right for HDLC, TCP and anything else that delivers in order. Widen it only for a
/// transport that genuinely reorders, and know that the width is how far out of order a
/// frame may arrive, not how much replay is tolerated: none is, at any width.
#[derive(Debug, Clone, Copy, PartialEq, Eq, Structural)]
pub struct ReplayWindow {
    /// The highest counter accepted, if any has been.
    highest: Option<u32>,
    /// Bit `i` records that `highest - i` has been accepted. Bit 0 is `highest` itself.
    seen: u64,
    /// How far below `highest` to accept at all.
    width: u32,
}

/// Whether a bit of a bitmap is set.
spec fn bit(bits: u64, i: u64) -> bool {
    bits & (1u64 << i) != 0
}

impl View for ReplayWindow {
    type V = WindowV;

    closed spec fn view(&self) -> WindowV {
        WindowV {
            highest: self.highest,
            width: self.width,
            seen: Set::new(
                |x: u32|
                    match self.highest {
                        Some(h) => x <= h < x + REPLAY_WINDOW_MAX && bit(
                            self.seen,
                            (h - x) as u64,
                        ),
                        None => false,
                    },
            ),
        }
    }
}

proof fn lemma_shifted_bit(bits: u64, advance: u64, i: u64)
    by (bit_vector)
    requires
        advance < 64,
        i < 64,
    ensures
        ((bits << advance) | 1u64) & (1u64 << i) != 0 <==> (i == 0 || (i >= advance && bits & (1u64
            << ((i - advance) as u64)) != 0)),
{
}

proof fn lemma_set_bit(bits: u64, j: u64, i: u64)
    by (bit_vector)
    requires
        j < 64,
        i < 64,
    ensures
        (bits | (1u64 << j)) & (1u64 << i) != 0 <==> (i == j || bits & (1u64 << i) != 0),
{
}

proof fn lemma_fresh_bits(i: u64)
    by (bit_vector)
    requires
        i < 64,
    ensures
        1u64 & (1u64 << i) != 0 <==> i == 0,
        0u64 | 1u64 == 1u64,
        0xFFFF_FFFF_FFFF_FFFFu64 & (1u64 << i) != 0,
{
}

impl Default for ReplayWindow {
    fn default() -> (w: Self)
        ensures
            w@ == (WindowV { highest: None, width: 0, seen: Set::empty() }),
    {
        ReplayWindow::strict()
    }
}

impl ReplayWindow {
    #[verifier::type_invariant]
    closed spec fn inv(self) -> bool {
        self.width <= REPLAY_WIDTH_MAX
    }

    /// A window accepting only strictly increasing counters.
    #[must_use]
    pub fn strict() -> (w: Self)
        ensures
            w@ == (WindowV { highest: None, width: 0, seen: Set::empty() }),
    {
        let w = ReplayWindow { highest: None, seen: 0, width: 0 };
        assert(w@.seen =~= Set::<u32>::empty());
        w
    }

    /// A window that tolerates arrival up to `width` values out of order.
    ///
    /// `width` is clamped to [`REPLAY_WIDTH_MAX`], which is the widest the bitmap can
    /// actually answer for.
    #[must_use]
    pub fn new(width: u32) -> (w: Self)
        ensures
            w@ == (WindowV {
                highest: None,
                width: if width > REPLAY_WIDTH_MAX {
                    REPLAY_WIDTH_MAX
                } else {
                    width
                },
                seen: Set::empty(),
            }),
    {
        let w = ReplayWindow {
            highest: None,
            seen: 0,
            width: if width > REPLAY_WIDTH_MAX {
                REPLAY_WIDTH_MAX
            } else {
                width
            },
        };
        assert(w@.seen =~= Set::<u32>::empty());
        w
    }

    /// The reorder width in force, after clamping.
    #[must_use]
    pub fn width(&self) -> (r: u32)
        ensures
            r == self@.width,
            r <= REPLAY_WIDTH_MAX,
    {
        proof {
            use_type_invariant(self);
        }
        self.width
    }

    /// Resume a window whose peer's highest accepted counter is known.
    ///
    /// Everything at or below `highest` is treated as already seen, which is the safe
    /// reading of a value restored from storage: it is a lower bound on what arrived.
    #[must_use]
    pub fn resumed(highest: u32, width: u32) -> (w: Self)
        ensures
            w@ == (WindowV {
                highest: Some(highest),
                width: if width > REPLAY_WIDTH_MAX {
                    REPLAY_WIDTH_MAX
                } else {
                    width
                },
                seen: Set::new(|x: u32| x <= highest < x + REPLAY_WINDOW_MAX),
            }),
            forall|v: u32| v <= highest ==> !w@.admits(v),
    {
        let w = ReplayWindow {
            highest: Some(highest),
            seen: 0xFFFF_FFFF_FFFF_FFFF,
            width: if width > REPLAY_WIDTH_MAX {
                REPLAY_WIDTH_MAX
            } else {
                width
            },
        };
        proof {
            assert forall|x: u32| x <= highest < x + REPLAY_WINDOW_MAX implies w@.seen.contains(
                x,
            ) by {
                lemma_fresh_bits((highest - x) as u64);
            }
            assert(w@.seen =~= Set::new(|x: u32| x <= highest < x + REPLAY_WINDOW_MAX));
        }
        w
    }

    /// The highest counter accepted so far. This is the value to persist.
    #[must_use]
    pub fn highest(&self) -> (r: Option<u32>)
        ensures
            r == self@.highest,
    {
        self.highest
    }

    /// The lowest counter that is certain to be accepted.
    #[must_use]
    pub fn expected_next(&self) -> (r: u32)
        ensures
            match self@.highest {
                None => r == 0,
                Some(h) => if h == u32::MAX {
                    r == h
                } else {
                    r == h + 1
                },
            },
    {
        match self.highest {
            None => 0,
            Some(h) => h.saturating_add(1),
        }
    }

    /// Whether `received` would be accepted, without recording it.
    ///
    /// This is the cheap check to run *before* verifying a tag, so a flood of obvious
    /// replays costs no cryptography. It must never be the only check: nothing is
    /// recorded until [`ReplayWindow::accept`] is called on a message whose tag has
    /// already verified.
    ///
    /// # Errors
    /// [`ErrorKind::BadTag`] when the counter has been seen or is too old.
    pub fn check(&self, received: u32) -> (r: Result<()>)
        ensures
            self@.wf(),
            r is Ok == self@.admits(received),
            r matches Err(e) ==> e == (Error { kind: ErrorKind::BadTag, offset: 0 }),
    {
        proof {
            use_type_invariant(self);
        }
        let highest = match self.highest {
            Some(h) => h,
            None => {
                assert(self@.seen =~= Set::<u32>::empty());
                return Ok(());
            },
        };
        if received > highest {
            return Ok(());
        }
        let back: u32 = highest - received;
        if back > self.width || back >= REPLAY_WINDOW_MAX {
            return Err(Error::new(ErrorKind::BadTag, 0));
        }
        if self.seen & (1u64 << (back as u64)) != 0 {
            return Err(Error::new(ErrorKind::BadTag, 0));
        }
        Ok(())
    }

    /// Record `received` as accepted, having verified the message it came with.
    ///
    /// # Errors
    /// [`ErrorKind::BadTag`] when the counter has been seen or is too old.
    pub fn accept(&mut self, received: u32) -> (r: Result<()>)
        ensures
            old(self)@.wf(),
            final(self)@.wf(),
            r is Ok == old(self)@.admits(received),
            match r {
                Ok(_) => final(self)@ == old(self)@.with(received),
                Err(e) => final(self)@ == old(self)@ && e == (Error {
                    kind: ErrorKind::BadTag,
                    offset: 0,
                }),
            },
    {
        self.check(received)?;
        let ghost before = *self;
        proof {
            use_type_invariant(&*self);
        }
        match self.highest {
            None => {
                self.highest = Some(received);
                self.seen = 1;
                proof {
                    assert forall|x: u32| self@.seen.contains(x) == before@.with(
                        received,
                    ).seen.contains(x) by {
                        if x <= received < x + REPLAY_WINDOW_MAX {
                            lemma_fresh_bits((received - x) as u64);
                        }
                    }
                }
            },
            Some(highest) => if received > highest {
                let advance: u32 = received - highest;
                // An advance past every slot empties the window.
                let kept: u64 = if advance >= REPLAY_WINDOW_MAX {
                    0
                } else {
                    self.seen << (advance as u64)
                };
                self.seen = kept | 1;
                self.highest = Some(received);
                proof {
                    lemma_fresh_bits(0);
                    assert forall|x: u32| self@.seen.contains(x) == before@.with(
                        received,
                    ).seen.contains(x) by {
                        if x <= received < x + REPLAY_WINDOW_MAX {
                            let i = (received - x) as u64;
                            lemma_fresh_bits(i);
                            if advance < REPLAY_WINDOW_MAX {
                                lemma_shifted_bit(before.seen, advance as u64, i);
                            }
                        }
                    }
                }
            } else {
                let back: u32 = highest - received;
                self.seen = self.seen | (1u64 << (back as u64));
                proof {
                    assert forall|x: u32| self@.seen.contains(x) == before@.with(
                        received,
                    ).seen.contains(x) by {
                        if x <= highest < x + REPLAY_WINDOW_MAX {
                            lemma_set_bit(before.seen, back as u64, (highest - x) as u64);
                        }
                    }
                }
            },
        }
        assert(self@ =~= before@.with(received));
        Ok(())
    }
}

/// A counter that a window does not admit is never admitted again, whatever arrives.
pub proof fn law_refused_for_good(w: WindowV, v: u32, u: u32)
    requires
        w.wf(),
        !w.admits(v),
        w.admits(u),
    ensures
        w.with(u).wf(),
        !w.with(u).admits(v),
{
}

/// A window accepts each counter at most once: once one has been accepted, it is refused
/// from then on, whatever is offered in between.
pub proof fn law_accepted_at_most_once(w: WindowV, v: u32, later: Seq<u32>)
    requires
        w.wf(),
        w.admits(v),
    ensures
        w.with(v).after(later).wf(),
        !w.with(v).after(later).admits(v),
    decreases later.len(),
{
    if later.len() > 0 {
        law_accepted_at_most_once(w, v, later.drop_last());
        let before = w.with(v).after(later.drop_last());
        if before.admits(later.last()) {
            law_refused_for_good(before, v, later.last());
        }
    }
}

/// Whether a window refuses everything that another one refuses.
pub open spec fn still_refuses(before: WindowV, after: WindowV) -> bool {
    forall|v: u32| !before.admits(v) ==> !#[trigger] after.admits(v)
}

} // verus!
