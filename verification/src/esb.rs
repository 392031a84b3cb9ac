//! A link test over Enhanced ShockBurst: the transmitter sends a start
//! message, a run of numbered messages and an end message; the receiver
//! counts the numbered messages that went missing.
use vstd::prelude::*;

verus! {

/// A message of the link test.
#[derive(Clone, Copy, Debug, PartialEq, Eq, Structural)]
pub enum Message {
    /// A test starts; the transmitter will number its messages up to the
    /// given maximum.
    TestStart(u8),
    /// The numbered message of a test.
    TestCount(u8),
    /// The test is over.
    TestEnd,
}

/// What the receiver knows of a running test.
#[derive(Clone, Copy, Debug, PartialEq, Eq, Structural)]
pub struct TestStats {
    /// The maximum that the test announced.
    pub max: u8,
    /// The last number received.
    pub count: u8,
    /// The number of gaps seen.
    pub loss: u8,
}

/// The receiver's state: the running test, if any.
pub type TestData = Option<TestStats>;

/// What the receiver reports after a message.
#[derive(Clone, Copy, Debug, PartialEq, Eq, Structural)]
pub enum Report {
    /// Nothing to report.
    Nothing,
    /// The numbers between `from` and `to` went missing.
    Missed { from: u8, to: u8 },
    /// A numbered message came while no test was running.
    CountWithoutStart,
    /// The test ended with this state.
    Result(TestData),
}

/// The receiver's state after `msg`.
pub open spec fn next_data(data: TestData, msg: Message) -> TestData {
    match msg {
        Message::TestStart(max) => Some(TestStats { max, count: 0, loss: 0 }),
        Message::TestCount(c) => match data {
            Some(t) => Some(
                TestStats {
                    max: t.max,
                    count: c,
                    loss: if c != t.count + 1 { (t.loss + 1) as u8 } else { t.loss },
                },
            ),
            None => None,
        },
        Message::TestEnd => data,
    }
}

/// The receiver's report on `msg`.
pub open spec fn report_of(data: TestData, msg: Message) -> Report {
    match msg {
        Message::TestStart(_) => Report::Nothing,
        Message::TestCount(c) => match data {
            Some(t) => if c != t.count + 1 {
                Report::Missed { from: t.count, to: c }
            } else {
                Report::Nothing
            },
            None => Report::CountWithoutStart,
        },
        Message::TestEnd => Report::Result(data),
    }
}

/// Whether the receiver's counters stay within `u8` on `msg`.
pub open spec fn counters_fit(data: TestData, msg: Message) -> bool {
    match msg {
        Message::TestCount(c) => match data {
            Some(t) => t.count < 255 && (c != t.count + 1 ==> t.loss < 255),
            None => true,
        },
        _ => true,
    }
}

/// The receiver of a link test.
pub struct TestTracker {
    pub data: TestData,
}

impl TestTracker {
    /// A receiver that has seen no test yet.
    pub fn new() -> (t: Self)
        ensures
            t.data is None,
    {
        TestTracker { data: None }
    }

    /// Takes in one received message and tells what to report.
    pub fn handle(&mut self, msg: Message) -> (r: Report)
        requires
            counters_fit(old(self).data, msg),
        ensures
            final(self).data == next_data(old(self).data, msg),
            r == report_of(old(self).data, msg),
    {
        match msg {
            Message::TestStart(max) => {
                self.data = Some(TestStats { max, count: 0, loss: 0 });
                Report::Nothing
            },
            Message::TestCount(c) => {
                match self.data {
                    Some(t) => {
                        if c != t.count + 1 {
                            self.data = Some(TestStats { max: t.max, count: c, loss: t.loss + 1 });
                            Report::Missed { from: t.count, to: c }
                        } else {
                            self.data = Some(TestStats { max: t.max, count: c, loss: t.loss });
                            Report::Nothing
                        }
                    },
                    None => Report::CountWithoutStart,
                }
            },
            Message::TestEnd => Report::Result(self.data),
        }
    }
}

/// One step of the transmitter's test round.
#[derive(Clone, Copy, Debug, PartialEq, Eq, Structural)]
pub enum PtxStep {
    /// Send this message.
    Send(Message),
    /// Wait this many milliseconds.
    Wait(u64),
}

/// The numbered messages `first`, `first + 1`, ... of a run of `n`.
pub open spec fn counts_from(first: int, n: nat) -> Seq<Message> {
    Seq::new(n, |k: int| Message::TestCount((first + k) as u8))
}

/// The steps of one test round of the transmitter, numbering up to `max`.
pub open spec fn spec_test_round(max: u8) -> Seq<PtxStep> {
    seq![PtxStep::Send(Message::TestStart(max)), PtxStep::Wait(500)]
        + counts_from(1, max as nat).map_values(|m: Message| PtxStep::Send(m))
        + seq![PtxStep::Wait(500), PtxStep::Send(Message::TestEnd), PtxStep::Wait(1000)]
}

/// The number of messages of the transmitter's test round.
pub const TEST_MESSAGES: u8 = 100;

/// The steps of one test round of the transmitter: announce the test,
/// pause, send the numbered messages from 1 to `max`, pause, end the test,
/// pause again before the next round.
pub fn test_round(max: u8) -> (steps: Vec<PtxStep>)
    ensures
        steps@ == spec_test_round(max),
{
    let mut steps: Vec<PtxStep> = Vec::new();
    steps.push(PtxStep::Send(Message::TestStart(max)));
    steps.push(PtxStep::Wait(500));
    let mut i: u16 = 1;
    while i <= max as u16
        invariant
            1 <= i <= max + 1,
            steps@ == seq![PtxStep::Send(Message::TestStart(max)), PtxStep::Wait(500)]
                + counts_from(1, (i - 1) as nat).map_values(|m: Message| PtxStep::Send(m)),
        decreases max + 1 - i,
    {
        steps.push(PtxStep::Send(Message::TestCount(i as u8)));
        assert(counts_from(1, i as nat).map_values(|m: Message| PtxStep::Send(m)) =~= counts_from(
            1,
            (i - 1) as nat,
        ).map_values(|m: Message| PtxStep::Send(m)).push(PtxStep::Send(Message::TestCount(i as u8))));
        i = i + 1;
    }
    steps.push(PtxStep::Wait(500));
    steps.push(PtxStep::Send(Message::TestEnd));
    steps.push(PtxStep::Wait(1000));
    steps
}

/// The receiver's state after the messages `msgs`, in order.
pub open spec fn run(data: TestData, msgs: Seq<Message>) -> TestData
    decreases msgs.len(),
{
    if msgs.len() == 0 {
        data
    } else {
        run(next_data(data, msgs[0]), msgs.drop_first())
    }
}

/// Numbered messages that follow each other without a gap move the count
/// and leave the losses as they were.
pub proof fn consecutive_counts_lose_nothing(max: u8, count: u8, loss: u8, n: nat)
    requires
        count + n <= 255,
    ensures
        run(Some(TestStats { max, count, loss }), counts_from(count + 1, n)) == Some(
            TestStats { max, count: (count + n) as u8, loss },
        ),
    decreases n,
{
    if n > 0 {
        let next = (count + 1) as u8;
        assert(counts_from(count + 1, n).drop_first() =~= counts_from(next + 1, (n - 1) as nat));
        consecutive_counts_lose_nothing(max, next, loss, (n - 1) as nat);
    }
}

/// The messages among the steps `steps`, in order.
pub open spec fn sent_messages(steps: Seq<PtxStep>) -> Seq<Message>
    decreases steps.len(),
{
    if steps.len() == 0 {
        Seq::empty()
    } else {
        match steps.last() {
            PtxStep::Send(m) => sent_messages(steps.drop_last()).push(m),
            PtxStep::Wait(_) => sent_messages(steps.drop_last()),
        }
    }
}

/// The messages of two runs of steps are those of the first, then those of
/// the second.
proof fn sent_messages_of_concat(a: Seq<PtxStep>, b: Seq<PtxStep>)
    ensures
        sent_messages(a + b) == sent_messages(a) + sent_messages(b),
    decreases b.len(),
{
    if b.len() == 0 {
        assert(a + b =~= a);
        assert(sent_messages(a) + sent_messages(b) =~= sent_messages(a));
    } else {
        assert((a + b).drop_last() =~= a + b.drop_last());
        assert((a + b).last() == b.last());
        sent_messages_of_concat(a, b.drop_last());
        match b.last() {
            PtxStep::Send(m) => {
                assert(sent_messages(a) + sent_messages(b) =~= (sent_messages(a) + sent_messages(
                    b.drop_last(),
                )).push(m));
            },
            PtxStep::Wait(_) => {},
        }
    }
}

/// Steps that each send one message send exactly those messages.
proof fn sent_messages_of_sends(msgs: Seq<Message>)
    ensures
        sent_messages(msgs.map_values(|m: Message| PtxStep::Send(m))) == msgs,
    decreases msgs.len(),
{
    let steps = msgs.map_values(|m: Message| PtxStep::Send(m));
    if msgs.len() > 0 {
        assert(steps.drop_last() =~= msgs.drop_last().map_values(|m: Message| PtxStep::Send(m)));
        sent_messages_of_sends(msgs.drop_last());
        assert(msgs.drop_last().push(msgs.last()) =~= msgs);
    } else {
        assert(msgs =~= Seq::<Message>::empty());
    }
}

/// Receiving two runs of messages is receiving the first, then the second.
proof fn run_of_concat(data: TestData, a: Seq<Message>, b: Seq<Message>)
    ensures
        run(data, a + b) == run(run(data, a), b),
    decreases a.len(),
{
    if a.len() == 0 {
        assert(a + b =~= b);
    } else {
        assert((a + b).drop_first() =~= a.drop_first() + b);
        assert((a + b)[0] == a[0]);
        run_of_concat(next_data(data, a[0]), a.drop_first(), b);
    }
}

/// The messages of a transmitter's test round: the start, the numbered
/// messages from 1 to `max`, the end.
proof fn test_round_sends(max: u8)
    ensures
        sent_messages(spec_test_round(max)) == seq![Message::TestStart(max)] + counts_from(1, max as nat)
            + seq![Message::TestEnd],
{
    let head = seq![PtxStep::Send(Message::TestStart(max)), PtxStep::Wait(500)];
    let body = counts_from(1, max as nat).map_values(|m: Message| PtxStep::Send(m));
    let tail = seq![PtxStep::Wait(500), PtxStep::Send(Message::TestEnd), PtxStep::Wait(1000)];
    sent_messages_of_concat(head + body, tail);
    sent_messages_of_concat(head, body);
    sent_messages_of_sends(counts_from(1, max as nat));
    let h1 = head.drop_last();
    assert(h1 =~= seq![PtxStep::Send(Message::TestStart(max))]);
    assert(h1.drop_last() =~= Seq::<PtxStep>::empty());
    assert(sent_messages(Seq::<PtxStep>::empty()) =~= Seq::<Message>::empty());
    assert(sent_messages(h1) =~= seq![Message::TestStart(max)]);
    assert(sent_messages(head) =~= seq![Message::TestStart(max)]);
    let t2 = tail.drop_last();
    let t1 = t2.drop_last();
    assert(t2 =~= seq![PtxStep::Wait(500), PtxStep::Send(Message::TestEnd)]);
    assert(t1 =~= seq![PtxStep::Wait(500)]);
    assert(t1.drop_last() =~= Seq::<PtxStep>::empty());
    assert(sent_messages(t1) =~= Seq::<Message>::empty());
    assert(sent_messages(t2) =~= seq![Message::TestEnd]);
    assert(sent_messages(tail) =~= seq![Message::TestEnd]);
}

/// A full test round that the transmitter sends, received without loss,
/// leaves the receiver with the announced maximum, the last number equal to
/// it, and no gap counted; and the end of the round reports exactly that.
pub proof fn lossless_round_reports_no_gap(max: u8)
    ensures
        run(None, sent_messages(spec_test_round(max))) == Some(
            TestStats { max, count: max, loss: 0 },
        ),
        report_of(
            run(None, seq![Message::TestStart(max)] + counts_from(1, max as nat)),
            Message::TestEnd,
        ) == Report::Result(Some(TestStats { max, count: max, loss: 0 })),
{
    let start = seq![Message::TestStart(max)];
    let counts = counts_from(1, max as nat);
    let end = seq![Message::TestEnd];
    test_round_sends(max);
    run_of_concat(None, start, counts);
    run_of_concat(None, start + counts, end);
    assert(start.drop_first() =~= Seq::<Message>::empty());
    assert(run(Some(TestStats { max, count: 0, loss: 0 }), Seq::<Message>::empty()) == Some(
        TestStats { max, count: 0, loss: 0 },
    ));
    assert(run(None, start) == Some(TestStats { max, count: 0, loss: 0 }));
    consecutive_counts_lose_nothing(max, 0, 0, max as nat);
    let after = Some(TestStats { max, count: max, loss: 0 });
    assert(end.drop_first() =~= Seq::<Message>::empty());
    assert(run(after, end) == run(next_data(after, Message::TestEnd), Seq::<Message>::empty()));
}

/// A numbered message that does not follow the last number counts exactly
/// one gap, however many numbers it skips; one that follows it counts none;
/// either way it becomes the last number and the maximum stays.
pub proof fn each_gap_counts_once(t: TestStats, c: u8)
    requires
        counters_fit(Some(t), Message::TestCount(c)),
    ensures
        next_data(Some(t), Message::TestCount(c)) matches Some(u) && u.max == t.max && u.count == c
            && u.loss == (if c as int == t.count + 1 { t.loss as int } else { t.loss + 1 }),
        report_of(Some(t), Message::TestCount(c)) == (if c as int == t.count + 1 {
            Report::Nothing
        } else {
            Report::Missed { from: t.count, to: c }
        }),
{
}

/// A test in which the first numbered message is 1 and the second skips
/// ahead, by any width, ends with exactly one gap counted.
pub proof fn one_skip_of_any_width_is_one_loss(max: u8, k: u8)
    requires
        k > 2,
    ensures
        run(None, seq![Message::TestStart(max), Message::TestCount(1), Message::TestCount(k)])
            == Some(TestStats { max, count: k, loss: 1 }),
{
    let msgs = seq![Message::TestStart(max), Message::TestCount(1), Message::TestCount(k)];
    let s1 = Some(TestStats { max, count: 0, loss: 0 });
    let s2 = Some(TestStats { max, count: 1, loss: 0 });
    let s3 = Some(TestStats { max, count: k, loss: 1 });
    assert(msgs.drop_first() =~= seq![Message::TestCount(1), Message::TestCount(k)]);
    assert(msgs.drop_first().drop_first() =~= seq![Message::TestCount(k)]);
    assert(msgs.drop_first().drop_first().drop_first() =~= Seq::<Message>::empty());
    assert(run(s3, Seq::<Message>::empty()) == s3);
    assert(run(s2, seq![Message::TestCount(k)]) == s3);
    assert(run(s1, seq![Message::TestCount(1), Message::TestCount(k)]) == s3);
}

} // verus!
