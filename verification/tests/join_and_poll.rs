use embedded_trials::join::{join, ManualJoin2};
use embedded_trials::polling::{
    poll_futures, poll_slot, settle_slot, FastFuture, PassReport, PollOnce, ReadyFlags,
    Slot, SlotOutcome, SlowFuture, Step,
};

#[test]
fn join_yields_both_outputs_when_both_complete_in_one_poll() {
    let mut j = join(1u8, 2u8);
    assert!(j.must_poll_first());
    assert!(j.must_poll_second());
    let r = j.finish_poll(Some("a"), Some("b"));
    assert_eq!(r, Some(("a", "b")));
    assert!(!j.must_poll_first());
    assert!(!j.must_poll_second());
}

#[test]
fn join_stays_pending_until_both_complete() {
    let mut j = ManualJoin2::new(10u32, 20u32);
    let r: Option<(u8, u8)> = j.finish_poll(None, None);
    assert_eq!(r, None);
    assert!(j.must_poll_first());
    assert!(j.must_poll_second());
}

#[test]
fn join_records_a_single_completion() {
    let mut j = ManualJoin2::new((), ());
    // The first future finishes alone: its output is dropped with the poll.
    let r: Option<(u8, u8)> = j.finish_poll(Some(7), None);
    assert_eq!(r, None);
    assert!(!j.must_poll_first());
    assert!(j.must_poll_second());
}

#[test]
fn join_hands_out_its_futures() {
    let mut j = join(3i32, 4i32);
    *j.first_mut() += 1;
    *j.second_mut() *= 2;
    assert_eq!(*j.first_mut(), 4);
    assert_eq!(*j.second_mut(), 8);
}

#[test]
fn slow_future_completes_on_second_poll() {
    let mut f = SlowFuture { count: 0 };
    let mut flags = ReadyFlags { first: false, second: false };
    assert!(matches!(f.poll_once(&mut flags, Slot::First), Step::Pending));
    assert_eq!(flags, ReadyFlags { first: true, second: false });
    assert_eq!(f.count, 1);
    match f.poll_once(&mut flags, Slot::First) {
        Step::Ready(s) => assert_eq!(s, "SlowFuture done"),
        Step::Pending => panic!("second poll must be ready"),
    }
}

#[test]
fn slow_future_in_second_slot_also_marks_the_first_flag() {
    let mut f = SlowFuture { count: 0 };
    let mut flags = ReadyFlags { first: false, second: false };
    assert!(matches!(f.poll_once(&mut flags, Slot::Second), Step::Pending));
    assert_eq!(flags, ReadyFlags { first: true, second: true });
}

#[test]
fn fast_future_completes_on_first_poll() {
    let mut f = FastFuture;
    let mut flags = ReadyFlags { first: false, second: true };
    match f.poll_once(&mut flags, Slot::Second) {
        Step::Ready(s) => assert_eq!(s, "FastFuture done"),
        Step::Pending => panic!("fast future is always ready"),
    }
    assert_eq!(flags, ReadyFlags { first: false, second: true });
}

#[test]
fn settle_slot_clears_flag_of_ready_future() {
    assert_eq!(settle_slot(&Step::Ready(1u8), true), (SlotOutcome::Ready, false));
    assert_eq!(settle_slot(&Step::<u8>::Pending, true), (SlotOutcome::Pending, true));
    assert_eq!(settle_slot(&Step::<u8>::Pending, false), (SlotOutcome::Pending, false));
}

#[test]
fn poll_slot_skips_future_whose_flag_is_clear() {
    let mut f = SlowFuture { count: 0 };
    let mut flags = ReadyFlags { first: false, second: true };
    assert_eq!(poll_slot(&mut f, &mut flags, Slot::First), SlotOutcome::Skipped);
    assert_eq!(f.count, 0);
    assert_eq!(flags, ReadyFlags { first: false, second: true });
}

#[test]
fn poll_futures_finishes_when_both_are_ready_in_one_pass() {
    let mut a = FastFuture;
    let mut b = FastFuture;
    let mut flags = ReadyFlags { first: true, second: true };
    assert_eq!(
        poll_futures(&mut a, &mut b, &mut flags),
        PassReport { first: SlotOutcome::Ready, second: SlotOutcome::Ready, finished: true }
    );
    // The finishing pass drops its wakers, which wakes both flags.
    assert!(flags.first);
    assert!(flags.second);
}

#[test]
fn poll_futures_with_slow_and_fast_future_never_finishes() {
    // The slow future is ready only on its second pass, when the fast one is
    // no longer polled: no pass sees both ready.
    let mut slow = SlowFuture { count: 0 };
    let mut fast = FastFuture;
    let mut flags = ReadyFlags { first: true, second: true };
    assert_eq!(
        poll_futures(&mut slow, &mut fast, &mut flags),
        PassReport { first: SlotOutcome::Pending, second: SlotOutcome::Ready, finished: false }
    );
    assert!(flags.first);
    assert!(!flags.second);
    assert_eq!(
        poll_futures(&mut slow, &mut fast, &mut flags),
        PassReport { first: SlotOutcome::Ready, second: SlotOutcome::Skipped, finished: false }
    );
    assert!(!flags.first);
    assert!(!flags.second);
    for _ in 0..5 {
        assert_eq!(
            poll_futures(&mut slow, &mut fast, &mut flags),
            PassReport { first: SlotOutcome::Skipped, second: SlotOutcome::Skipped, finished: false }
        );
    }
}

#[test]
fn poll_futures_with_fast_then_slow_future_finishes_on_second_pass() {
    // The slow future's first poll marks the first flag too, so the fast
    // future is polled again together with the slow one's second poll.
    let mut fast = FastFuture;
    let mut slow = SlowFuture { count: 0 };
    let mut flags = ReadyFlags { first: true, second: true };
    assert_eq!(
        poll_futures(&mut fast, &mut slow, &mut flags),
        PassReport { first: SlotOutcome::Ready, second: SlotOutcome::Pending, finished: false }
    );
    assert_eq!(flags, ReadyFlags { first: true, second: true });
    assert_eq!(
        poll_futures(&mut fast, &mut slow, &mut flags),
        PassReport { first: SlotOutcome::Ready, second: SlotOutcome::Ready, finished: true }
    );
}
