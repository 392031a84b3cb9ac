use embedded_trials::esb::{test_round, Message, PtxStep, Report, TestStats, TestTracker, TEST_MESSAGES};

#[test]
fn tracker_counts_gaps() {
    let mut t = TestTracker::new();
    assert_eq!(t.handle(Message::TestStart(5)), Report::Nothing);
    assert_eq!(t.data, Some(TestStats { max: 5, count: 0, loss: 0 }));
    assert_eq!(t.handle(Message::TestCount(1)), Report::Nothing);
    assert_eq!(t.handle(Message::TestCount(3)), Report::Missed { from: 1, to: 3 });
    assert_eq!(t.handle(Message::TestCount(4)), Report::Nothing);
    assert_eq!(t.handle(Message::TestCount(4)), Report::Missed { from: 4, to: 4 });
    assert_eq!(
        t.handle(Message::TestEnd),
        Report::Result(Some(TestStats { max: 5, count: 4, loss: 2 }))
    );
}

#[test]
fn count_without_start_is_reported() {
    let mut t = TestTracker::new();
    assert_eq!(t.handle(Message::TestCount(1)), Report::CountWithoutStart);
    assert_eq!(t.data, None);
    assert_eq!(t.handle(Message::TestEnd), Report::Result(None));
}

#[test]
fn new_start_resets_the_test() {
    let mut t = TestTracker::new();
    t.handle(Message::TestStart(9));
    t.handle(Message::TestCount(5));
    t.handle(Message::TestStart(3));
    assert_eq!(t.data, Some(TestStats { max: 3, count: 0, loss: 0 }));
}

#[test]
fn transmitter_round() {
    let steps = test_round(TEST_MESSAGES);
    assert_eq!(steps.len(), 105);
    assert_eq!(steps[0], PtxStep::Send(Message::TestStart(100)));
    assert_eq!(steps[1], PtxStep::Wait(500));
    for i in 1..=100u8 {
        assert_eq!(steps[1 + i as usize], PtxStep::Send(Message::TestCount(i)));
    }
    assert_eq!(steps[102], PtxStep::Wait(500));
    assert_eq!(steps[103], PtxStep::Send(Message::TestEnd));
    assert_eq!(steps[104], PtxStep::Wait(1000));
}

#[test]
fn full_round_received_without_loss() {
    let mut t = TestTracker::new();
    let mut last = Report::Nothing;
    for step in test_round(TEST_MESSAGES) {
        if let PtxStep::Send(m) = step {
            last = t.handle(m);
            assert!(!matches!(last, Report::Missed { .. }));
        }
    }
    assert_eq!(last, Report::Result(Some(TestStats { max: 100, count: 100, loss: 0 })));
}

#[test]
fn round_up_to_255() {
    let steps = test_round(255);
    assert_eq!(steps.len(), 260);
    assert_eq!(steps[256], PtxStep::Send(Message::TestCount(255)));
}
