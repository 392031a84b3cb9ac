//! A join of two futures that records, in a two-bit mask, which of them has
//! already completed.
//!
//! The futures themselves are polled by the caller; this module decides which
//! future a poll must drive and what the join yields once the poll is over.
use vstd::prelude::*;

verus! {

/// Bit of the completion mask that records the first future.
pub const FIRST_DONE: u8 = 1;

/// Bit of the completion mask that records the second future.
pub const SECOND_DONE: u8 = 2;

/// The completion mask once both futures are done.
pub const BOTH_DONE: u8 = 3;

/// Which of the two joined futures have completed, as a two-bit mask.
pub struct DoneMask {
    bits: u8,
}

/// Two futures joined into one, with the set of those already completed.
pub struct ManualJoin2<F1, F2> {
    fut1: F1,
    fut2: F2,
    done: DoneMask,
}

/// The two low bits of `d` are the only bits that a completion mask may hold.
proof fn lemma_mask_bits(d: u8)
    requires
        d <= BOTH_DONE,
    ensures
        (d & FIRST_DONE == 0) <==> (d == 0 || d == 2),
        (d & SECOND_DONE == 0) <==> (d == 0 || d == 1),
        (d | FIRST_DONE) == (if d == 0 || d == 2 { (d + 1) as u8 } else { d }),
        (d | SECOND_DONE) == (if d == 0 || d == 1 { (d + 2) as u8 } else { d }),
{
    assert(d <= 3 ==> ((d & 1u8 == 0) <==> (d == 0 || d == 2))) by (bit_vector);
    assert(d <= 3 ==> ((d & 2u8 == 0) <==> (d == 0 || d == 1))) by (bit_vector);
    assert(d <= 3 ==> (d | 1u8) == (if d == 0 || d == 2 { (d + 1) as u8 } else { d })) by (bit_vector);
    assert(d <= 3 ==> (d | 2u8) == (if d == 0 || d == 1 { (d + 2) as u8 } else { d })) by (bit_vector);
}

/// The completion flags after a poll: a future is done once it was done
/// before or has just returned its output.
pub open spec fn flags_after_poll(done: bool, produced: bool) -> bool {
    done || produced
}

/// A completion, once recorded, stays recorded whatever a later poll brings.
pub proof fn completion_is_never_undone(done: bool, produced: bool)
    requires
        done,
    ensures
        flags_after_poll(done, produced),
{
}

/// The completion flags of a new join after polls in which the futures
/// produced their outputs as `outs` tells, in order.
pub open spec fn flags_after_polls(outs: Seq<(bool, bool)>) -> (bool, bool)
    decreases outs.len(),
{
    if outs.len() == 0 {
        (false, false)
    } else {
        let before = flags_after_polls(outs.drop_last());
        (
            flags_after_poll(before.0, outs.last().0),
            flags_after_poll(before.1, outs.last().1),
        )
    }
}

/// Over any run of polls of a new join, a future counts as done exactly
/// when it has produced its output in one of them; so the join drives it in
/// every poll until then, and in none after.
pub proof fn completion_flags_record_every_output(outs: Seq<(bool, bool)>)
    ensures
        flags_after_polls(outs).0 <==> exists|k: int| 0 <= k < outs.len() && (#[trigger] outs[k]).0,
        flags_after_polls(outs).1 <==> exists|k: int| 0 <= k < outs.len() && (#[trigger] outs[k]).1,
    decreases outs.len(),
{
    if outs.len() > 0 {
        let prev = outs.drop_last();
        completion_flags_record_every_output(prev);
        assert forall|k: int| 0 <= k < prev.len() implies #[trigger] prev[k] == outs[k] by {}
        if flags_after_polls(outs).0 {
            if !outs.last().0 {
                let k = choose|k: int| 0 <= k < prev.len() && (#[trigger] prev[k]).0;
                assert(outs[k].0);
            } else {
                assert(outs[outs.len() - 1].0);
            }
        }
        if flags_after_polls(outs).1 {
            if !outs.last().1 {
                let k = choose|k: int| 0 <= k < prev.len() && (#[trigger] prev[k]).1;
                assert(outs[k].1);
            } else {
                assert(outs[outs.len() - 1].1);
            }
        }
        if exists|k: int| 0 <= k < outs.len() && (#[trigger] outs[k]).0 {
            let k = choose|k: int| 0 <= k < outs.len() && (#[trigger] outs[k]).0;
            if k < prev.len() {
                assert(prev[k].0);
            }
        }
        if exists|k: int| 0 <= k < outs.len() && (#[trigger] outs[k]).1 {
            let k = choose|k: int| 0 <= k < outs.len() && (#[trigger] outs[k]).1;
            if k < prev.len() {
                assert(prev[k].1);
            }
        }
    }
}

/// Whether a poll finished with completions `out`, after polls that left
/// the flags `before`, yields the join's outputs: exactly when both futures
/// are done after it, as [`ManualJoin2::finish_poll`] states.
pub open spec fn poll_yields(before: (bool, bool), out: (bool, bool)) -> bool {
    flags_after_poll(before.0, out.0) && flags_after_poll(before.1, out.1)
}

/// Whether a run of polls of a new join, with completions `outs` in order,
/// is one that the join takes: in each poll a future completes only while
/// it is still pending (only then is it driven), and a poll that completes
/// the join has both outputs at hand.
pub open spec fn valid_run(outs: Seq<(bool, bool)>) -> bool {
    forall|k: int|
        0 <= k < outs.len() ==> {
            let before = #[trigger] flags_after_polls(outs.take(k));
            &&& (outs[k].0 ==> !before.0)
            &&& (outs[k].1 ==> !before.1)
            &&& poll_has_outputs(before.0, before.1, outs[k].0, outs[k].1)
        }
}

/// The flags after the first `k + 1` polls follow from those after `k`.
proof fn flags_after_one_more_poll(outs: Seq<(bool, bool)>, k: int)
    requires
        0 <= k < outs.len(),
    ensures
        flags_after_polls(outs.take(k + 1)) == (
            flags_after_poll(flags_after_polls(outs.take(k)).0, outs[k].0),
            flags_after_poll(flags_after_polls(outs.take(k)).1, outs[k].1),
        ),
{
    assert(outs.take(k + 1).drop_last() =~= outs.take(k));
    assert(outs.take(k + 1).last() == outs[k]);
}

/// The flags never go back over a run of polls.
proof fn flags_grow(outs: Seq<(bool, bool)>, j: int, k: int)
    requires
        0 <= j <= k <= outs.len(),
    ensures
        flags_after_polls(outs.take(j)).0 ==> flags_after_polls(outs.take(k)).0,
        flags_after_polls(outs.take(j)).1 ==> flags_after_polls(outs.take(k)).1,
    decreases k - j,
{
    if j < k {
        flags_grow(outs, j, k - 1);
        flags_after_one_more_poll(outs, k - 1);
    }
}

/// Over any run of polls that a new join takes: the flags only grow; before
/// each poll, a future is still driven exactly when it has produced nothing
/// in the earlier polls; the join yields in exactly one kind of poll, the one
/// after which both futures are done, with both outputs of that very poll;
/// and no poll follows it.
pub proof fn join_over_a_run(outs: Seq<(bool, bool)>)
    requires
        valid_run(outs),
    ensures
        forall|j: int, k: int|
            0 <= j <= k <= outs.len() ==> (flags_after_polls(#[trigger] outs.take(j)).0
                ==> flags_after_polls(#[trigger] outs.take(k)).0) && (flags_after_polls(
                outs.take(j),
            ).1 ==> flags_after_polls(outs.take(k)).1),
        forall|k: int|
            0 <= k <= outs.len() ==> (!flags_after_polls(#[trigger] outs.take(k)).0 <==> forall|
                i: int,
            |
                0 <= i < k ==> !(#[trigger] outs[i]).0),
        forall|k: int|
            0 <= k <= outs.len() ==> (!flags_after_polls(#[trigger] outs.take(k)).1 <==> forall|
                i: int,
            |
                0 <= i < k ==> !(#[trigger] outs[i]).1),
        forall|k: int|
            0 <= k < outs.len() ==> (poll_yields(#[trigger] flags_after_polls(outs.take(k)), outs[k])
                <==> flags_after_polls(outs.take(k + 1)) == (true, true)),
        forall|k: int|
            0 <= k < outs.len() && #[trigger] poll_yields(flags_after_polls(outs.take(k)), outs[k])
                ==> outs[k] == (true, true) && k == outs.len() - 1,
{
    assert forall|j: int, k: int| 0 <= j <= k <= outs.len() implies (flags_after_polls(
        #[trigger] outs.take(j),
    ).0 ==> flags_after_polls(#[trigger] outs.take(k)).0) && (flags_after_polls(outs.take(j)).1
        ==> flags_after_polls(outs.take(k)).1) by {
        flags_grow(outs, j, k);
    }
    assert forall|k: int| 0 <= k <= outs.len() implies (!flags_after_polls(
        #[trigger] outs.take(k),
    ).0 <==> forall|i: int| 0 <= i < k ==> !(#[trigger] outs[i]).0) && (!flags_after_polls(
        outs.take(k),
    ).1 <==> forall|i: int| 0 <= i < k ==> !(#[trigger] outs[i]).1) by {
        let p = outs.take(k);
        completion_flags_record_every_output(p);
        assert forall|i: int| 0 <= i < k implies #[trigger] p[i] == outs[i] by {}
        if exists|i: int| 0 <= i < k && (#[trigger] outs[i]).0 {
            let i = choose|i: int| 0 <= i < k && (#[trigger] outs[i]).0;
            assert(p[i].0);
        }
        if exists|i: int| 0 <= i < k && (#[trigger] outs[i]).1 {
            let i = choose|i: int| 0 <= i < k && (#[trigger] outs[i]).1;
            assert(p[i].1);
        }
    }
    assert forall|k: int| 0 <= k < outs.len() implies (poll_yields(
        #[trigger] flags_after_polls(outs.take(k)),
        outs[k],
    ) <==> flags_after_polls(outs.take(k + 1)) == (true, true)) by {
        flags_after_one_more_poll(outs, k);
    }
    assert forall|k: int|
        0 <= k < outs.len() && #[trigger] poll_yields(
            flags_after_polls(outs.take(k)),
            outs[k],
        ) implies outs[k] == (true, true) && k == outs.len() - 1 by {
        let before = flags_after_polls(outs.take(k));
        assert(poll_has_outputs(before.0, before.1, outs[k].0, outs[k].1));
        if k + 1 < outs.len() {
            flags_after_one_more_poll(outs, k);
            let next = flags_after_polls(outs.take(k + 1));
            assert(poll_has_outputs(next.0, next.1, outs[k + 1].0, outs[k + 1].1));
            assert(!outs[k + 1].0);
        }
    }
}

/// Once both futures have completed, no poll of the join can be finished: a
/// completed future produces nothing more, and the outputs of the earlier poll
/// are gone.
pub proof fn completed_join_cannot_be_polled_again(produced1: bool, produced2: bool)
    requires
        !produced1,
        !produced2,
    ensures
        !poll_has_outputs(true, true, produced1, produced2),
{
}

/// Whether the outputs that a poll yields are at hand: once both futures are
/// done after the poll, both must have completed in this very poll.
pub open spec fn poll_has_outputs(done1: bool, done2: bool, produced1: bool, produced2: bool) -> bool {
    flags_after_poll(done1, produced1) && flags_after_poll(done2, produced2) ==> produced1 && produced2
}

impl DoneMask {
    #[verifier::type_invariant]
    spec fn holds_two_bits(self) -> bool {
        self.bits <= BOTH_DONE
    }

    /// Whether the first future has completed.
    pub closed spec fn first(self) -> bool {
        self.bits == 1 || self.bits == 3
    }

    /// Whether the second future has completed.
    pub closed spec fn second(self) -> bool {
        self.bits == 2 || self.bits == 3
    }

    /// The mask of a join whose futures are both pending.
    pub fn none() -> (m: Self)
        ensures
            !m.first(),
            !m.second(),
    {
        DoneMask { bits: 0 }
    }

    /// Whether the first future is still pending.
    pub fn first_pending(&self) -> (b: bool)
        ensures
            b == !self.first(),
    {
        proof {
            use_type_invariant(self);
            lemma_mask_bits(self.bits);
        }
        self.bits & FIRST_DONE == 0
    }

    /// Whether the second future is still pending.
    pub fn second_pending(&self) -> (b: bool)
        ensures
            b == !self.second(),
    {
        proof {
            use_type_invariant(self);
            lemma_mask_bits(self.bits);
        }
        self.bits & SECOND_DONE == 0
    }

    /// Marks the first future as completed.
    pub fn set_first(&mut self)
        ensures
            final(self).first(),
            final(self).second() == old(self).second(),
    {
        proof {
            use_type_invariant(&*self);
            lemma_mask_bits(self.bits);
        }
        self.bits = self.bits | FIRST_DONE;
    }

    /// Marks the second future as completed.
    pub fn set_second(&mut self)
        ensures
            final(self).second(),
            final(self).first() == old(self).first(),
    {
        proof {
            use_type_invariant(&*self);
            lemma_mask_bits(self.bits);
        }
        self.bits = self.bits | SECOND_DONE;
    }

    /// Whether both futures have completed.
    pub fn both(&self) -> (b: bool)
        ensures
            b == (self.first() && self.second()),
    {
        proof {
            use_type_invariant(self);
        }
        self.bits == BOTH_DONE
    }
}

impl<F1, F2> ManualJoin2<F1, F2> {

    /// The first joined future.
    pub closed spec fn first(self) -> F1 {
        self.fut1
    }

    /// The second joined future.
    pub closed spec fn second(self) -> F2 {
        self.fut2
    }

    /// Whether the first future has completed.
    pub closed spec fn first_done(self) -> bool {
        self.done.first()
    }

    /// Whether the second future has completed.
    pub closed spec fn second_done(self) -> bool {
        self.done.second()
    }

    /// Joins two futures, neither of them completed yet.
    pub fn new(fut1: F1, fut2: F2) -> (s: Self)
        ensures
            s.first() == fut1,
            s.second() == fut2,
            !s.first_done(),
            !s.second_done(),
    {
        ManualJoin2 { fut1, fut2, done: DoneMask::none() }
    }

    /// Whether a poll of the join must drive the first future: exactly when
    /// it has not completed.
    pub fn must_poll_first(&self) -> (b: bool)
        ensures
            b == !self.first_done(),
    {
        self.done.first_pending()
    }

    /// Whether a poll of the join must drive the second future: exactly when
    /// it has not completed.
    pub fn must_poll_second(&self) -> (b: bool)
        ensures
            b == !self.second_done(),
    {
        self.done.second_pending()
    }

    /// The first future, to be polled in place.
    pub fn first_mut(&mut self) -> (f: &mut F1)
        ensures
            *f == old(self).first(),
            final(self).first() == *final(f),
            final(self).second() == old(self).second(),
            final(self).first_done() == old(self).first_done(),
            final(self).second_done() == old(self).second_done(),
    {
        &mut self.fut1
    }

    /// The second future, to be polled in place.
    pub fn second_mut(&mut self) -> (f: &mut F2)
        ensures
            *f == old(self).second(),
            final(self).second() == *final(f),
            final(self).first() == old(self).first(),
            final(self).first_done() == old(self).first_done(),
            final(self).second_done() == old(self).second_done(),
    {
        &mut self.fut2
    }

    /// Ends a poll of the join. `out1` (`out2`) is the output of the first
    /// (second) future when this poll drove it and it completed, `None`
    /// otherwise. Records the completions, and yields both outputs when both
    /// futures are now done.
    ///
    /// The outputs are not kept across polls: a join whose futures complete
    /// in different polls has nothing to yield, and `requires` leaves that
    /// case out.
    pub fn finish_poll<O1, O2>(&mut self, out1: Option<O1>, out2: Option<O2>) -> (r: Option<(O1, O2)>)
        requires
            out1 is Some ==> !old(self).first_done(),
            out2 is Some ==> !old(self).second_done(),
            poll_has_outputs(old(self).first_done(), old(self).second_done(), out1 is Some, out2 is Some),
        ensures
            final(self).first() == old(self).first(),
            final(self).second() == old(self).second(),
            final(self).first_done() == flags_after_poll(old(self).first_done(), out1 is Some),
            final(self).second_done() == flags_after_poll(old(self).second_done(), out2 is Some),
            r is Some <==> final(self).first_done() && final(self).second_done(),
            r is Some ==> r == Some((out1->0, out2->0)),
    {
        if out1.is_some() {
            self.done.set_first();
        }
        if out2.is_some() {
            self.done.set_second();
        }
        if self.done.both() {
            Some((out1.unwrap(), out2.unwrap()))
        } else {
            None
        }
    }
}

/// Joins two futures; the same as [`ManualJoin2::new`].
pub fn join<F1, F2>(fut1: F1, fut2: F2) -> (s: ManualJoin2<F1, F2>)
    ensures
        s.first() == fut1,
        s.second() == fut2,
        !s.first_done(),
        !s.second_done(),
{
    ManualJoin2::new(fut1, fut2)
}

} // verus!
