//! A polling loop that drives two futures only while their readiness flags
//! are set, and the two futures it was tried with.
use vstd::prelude::*;

verus! {

/// What one poll of a future gives: its output, or nothing yet.
pub enum Step<T> {
    Ready(T),
    Pending,
}

/// The readiness flags of the two futures, as their wakers leave them.
#[derive(Clone, Copy, Debug, PartialEq, Eq, Structural)]
pub struct ReadyFlags {
    pub first: bool,
    pub second: bool,
}

/// Which of the two futures, and so which readiness flag, a poll concerns.
#[derive(Clone, Copy, Debug, PartialEq, Eq, Structural)]
pub enum Slot {
    First,
    Second,
}

/// The flag of `slot`.
pub open spec fn flag_of(flags: ReadyFlags, slot: Slot) -> bool {
    match slot {
        Slot::First => flags.first,
        Slot::Second => flags.second,
    }
}

/// The flags with the flag of `slot` set to `value`.
pub open spec fn with_flag(flags: ReadyFlags, slot: Slot, value: bool) -> ReadyFlags {
    match slot {
        Slot::First => ReadyFlags { first: value, second: flags.second },
        Slot::Second => ReadyFlags { first: flags.first, second: value },
    }
}

/// A future that a polling loop can drive.
pub trait PollOnce: Sized {
    /// Whether the next poll gives the output.
    spec fn ready_next(&self) -> bool;

    /// The readiness flags after the next poll, when they were `flags`
    /// before and the future is polled in `slot`, whose flag its waker sets.
    spec fn flags_after(&self, flags: ReadyFlags, slot: Slot) -> ReadyFlags;

    /// The future's state after the next poll.
    spec fn state_after(&self) -> Self;

    /// Polls once in `slot`: the waker that the poll hands the future sets
    /// the flag of `slot`; the future may touch the other flags too.
    fn poll_once(&mut self, flags: &mut ReadyFlags, slot: Slot) -> (r: Step<&'static str>)
        ensures
            (r is Ready) == old(self).ready_next(),
            *final(flags) == old(self).flags_after(*old(flags), slot),
            *final(self) == old(self).state_after(),
    ;
}

/// A future that completes on its second poll.
pub struct SlowFuture {
    pub count: u8,
}

/// The output of a [`SlowFuture`].
pub open spec fn slow_output() -> Seq<char> {
    "SlowFuture done"@
}

/// The output of a [`FastFuture`].
pub open spec fn fast_output() -> Seq<char> {
    "FastFuture done"@
}

impl PollOnce for SlowFuture {
    open spec fn ready_next(&self) -> bool {
        self.count != 0
    }

    /// The first poll sets the first future's flag, then wakes its own
    /// slot's flag; later polls leave the flags alone.
    open spec fn flags_after(&self, flags: ReadyFlags, slot: Slot) -> ReadyFlags {
        if self.count == 0 {
            with_flag(ReadyFlags { first: true, second: flags.second }, slot, true)
        } else {
            flags
        }
    }

    open spec fn state_after(&self) -> Self {
        if self.count == 0 {
            SlowFuture { count: 1 }
        } else {
            SlowFuture { count: self.count }
        }
    }

    /// The first poll counts itself, marks the first future ready, wakes
    /// itself and is pending; every later poll is ready.
    fn poll_once(&mut self, flags: &mut ReadyFlags, slot: Slot) -> (r: Step<&'static str>)
        ensures
            old(self).count == 0 ==> final(self).count == 1 && final(flags).first
                && flag_of(*final(flags), slot) && r is Pending,
            old(self).count != 0 ==> final(self).count == old(self).count && *final(flags) == *old(
                flags,
            ) && (r matches Step::Ready(s) && s@ == slow_output()),
    {
        if self.count == 0 {
            self.count = self.count + 1;
            flags.first = true;
            match slot {
                Slot::First => {
                    flags.first = true;
                },
                Slot::Second => {
                    flags.second = true;
                },
            }
            Step::Pending
        } else {
            Step::Ready("SlowFuture done")
        }
    }
}

/// A future that completes on its first poll.
pub struct FastFuture;

impl PollOnce for FastFuture {
    open spec fn ready_next(&self) -> bool {
        true
    }

    open spec fn flags_after(&self, flags: ReadyFlags, slot: Slot) -> ReadyFlags {
        flags
    }

    open spec fn state_after(&self) -> Self {
        FastFuture
    }

    /// Every poll is ready.
    fn poll_once(&mut self, flags: &mut ReadyFlags, slot: Slot) -> (r: Step<&'static str>)
        ensures
            *final(flags) == *old(flags),
            r matches Step::Ready(s) && s@ == fast_output(),
    {
        Step::Ready("FastFuture done")
    }
}

/// What a pass of the polling loop did with one future.
#[derive(Clone, Copy, Debug, PartialEq, Eq, Structural)]
pub enum SlotOutcome {
    /// Its flag was clear: it was not polled.
    Skipped,
    /// It was polled and is not done.
    Pending,
    /// It was polled and gave its output.
    Ready,
}

/// Settles one slot of a polling pass after its future was polled: a ready
/// future's flag is cleared; a pending future keeps the flag its waker left.
pub fn settle_slot<T>(step: &Step<T>, flag: bool) -> (r: (SlotOutcome, bool))
    ensures
        r.0 == (if step is Ready { SlotOutcome::Ready } else { SlotOutcome::Pending }),
        r.1 == (if step is Ready { false } else { flag }),
{
    match step {
        Step::Ready(_) => (SlotOutcome::Ready, false),
        Step::Pending => (SlotOutcome::Pending, flag),
    }
}

/// The flags after the slot `slot` of a pass: unchanged when its flag is
/// clear; else as the polled future leaves them, with the slot's flag
/// cleared when the future gives its output.
pub open spec fn slot_after<F: PollOnce>(future: F, flags: ReadyFlags, slot: Slot) -> ReadyFlags {
    if !flag_of(flags, slot) {
        flags
    } else if future.ready_next() {
        with_flag(future.flags_after(flags, slot), slot, false)
    } else {
        future.flags_after(flags, slot)
    }
}

/// Polls the future of `slot` if that slot's flag is set, and settles the
/// slot.
pub fn poll_slot<F: PollOnce>(future: &mut F, flags: &mut ReadyFlags, slot: Slot) -> (r: SlotOutcome)
    ensures
        (r is Skipped) <==> !flag_of(*old(flags), slot),
        r is Skipped ==> *final(future) == *old(future),
        flag_of(*old(flags), slot) ==> *final(future) == old(future).state_after(),
        flag_of(*old(flags), slot) ==> ((r is Ready) <==> old(future).ready_next()),
        *final(flags) == slot_after(*old(future), *old(flags), slot),
{
    let set = match slot {
        Slot::First => flags.first,
        Slot::Second => flags.second,
    };
    if set {
        let step = future.poll_once(flags, slot);
        let current = match slot {
            Slot::First => flags.first,
            Slot::Second => flags.second,
        };
        let (outcome, cleared) = settle_slot(&step, current);
        match slot {
            Slot::First => {
                flags.first = cleared;
            },
            Slot::Second => {
                flags.second = cleared;
            },
        }
        outcome
    } else {
        SlotOutcome::Skipped
    }
}

/// What one pass of the polling loop did.
#[derive(Clone, Copy, Debug, PartialEq, Eq, Structural)]
pub struct PassReport {
    pub first: SlotOutcome,
    pub second: SlotOutcome,
    /// Whether the loop ends after this pass.
    pub finished: bool,
}

/// One pass of the polling loop: polls the first future if its flag is
/// set, then the second if its flag is set by then, each with its own flag
/// as waker, and tells whether the loop ends, which it does only when both
/// futures were ready in this very pass. When it ends, the wakers are
/// dropped, and dropping a waker wakes it: both flags end set.
pub fn poll_futures<F1: PollOnce, F2: PollOnce>(
    future1: &mut F1,
    future2: &mut F2,
    flags: &mut ReadyFlags,
) -> (r: PassReport)
    ensures
        (r.first is Skipped) <==> !old(flags).first,
        (r.second is Skipped) <==> !slot_after(*old(future1), *old(flags), Slot::First).second,
        r.first is Skipped ==> *final(future1) == *old(future1),
        r.second is Skipped ==> *final(future2) == *old(future2),
        !(r.first is Skipped) ==> *final(future1) == old(future1).state_after(),
        !(r.second is Skipped) ==> *final(future2) == old(future2).state_after(),
        !(r.first is Skipped) ==> ((r.first is Ready) <==> old(future1).ready_next()),
        !(r.second is Skipped) ==> ((r.second is Ready) <==> old(future2).ready_next()),
        r.finished == (r.first is Ready && r.second is Ready),
        r.finished ==> *final(flags) == (ReadyFlags { first: true, second: true }),
        !r.finished ==> *final(flags) == slot_after(
            *old(future2),
            slot_after(*old(future1), *old(flags), Slot::First),
            Slot::Second,
        ),
{
    let first = poll_slot(future1, flags, Slot::First);
    let second = poll_slot(future2, flags, Slot::Second);
    let finished = match (first, second) {
        (SlotOutcome::Ready, SlotOutcome::Ready) => true,
        _ => false,
    };
    if finished {
        flags.first = true;
        flags.second = true;
    }
    PassReport { first, second, finished }
}

} // verus!
