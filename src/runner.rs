use vstd::prelude::*;

use crate::model::{
    messages_view, objects_view, telegram_messages, to_messages, Measurement, MeasurementView,
    MessageView, OutboundMessage,
};

verus! {

/// Why a pipeline run ended. A run never ends otherwise.
#[derive(Clone, Copy, Debug, PartialEq, Eq, Structural)]
pub enum RunError {
    /// The serial device or the bus could not be connected, or the bus connection failed.
    Connection,
    /// Reading from the serial device failed or timed out.
    Read,
    /// A readout could not be decoded as a telegram.
    Decode,
    /// A message could not be published.
    Publish,
    /// The sequence of readouts ended.
    EndOfReader,
}

/// What the serial source or the bus reported to the run.
pub enum Event {
    /// A readout was decoded; each object is a measurement, or `None` where
    /// that object could not be decoded.
    Telegram(Vec<Option<Measurement>>),
    DecodeFailed,
    ReadFailed,
    SourceExhausted,
    /// The message in flight was published.
    Published,
    /// The message in flight could not be published.
    PublishFailed,
}

pub enum EventView {
    Telegram(Seq<Option<MeasurementView>>),
    DecodeFailed,
    ReadFailed,
    SourceExhausted,
    Published,
    PublishFailed,
}

impl View for Event {
    type V = EventView;

    open spec fn view(&self) -> EventView {
        match self {
            Event::Telegram(objects) => EventView::Telegram(objects_view(objects@)),
            Event::DecodeFailed => EventView::DecodeFailed,
            Event::ReadFailed => EventView::ReadFailed,
            Event::SourceExhausted => EventView::SourceExhausted,
            Event::Published => EventView::Published,
            Event::PublishFailed => EventView::PublishFailed,
        }
    }
}

/// What the run asks to be done next.
pub enum Action {
    /// Take the next readout from the serial source.
    ReadNext,
    /// Publish this message, and report how that went.
    Publish(OutboundMessage),
    /// The run is over, with this error.
    Abort(RunError),
}

pub enum ActionView {
    ReadNext,
    Publish(MessageView),
    Abort(RunError),
}

impl View for Action {
    type V = ActionView;

    open spec fn view(&self) -> ActionView {
        match self {
            Action::ReadNext => ActionView::ReadNext,
            Action::Publish(m) => ActionView::Publish(m@),
            Action::Abort(e) => ActionView::Abort(*e),
        }
    }
}

/// The state of one pipeline run: the messages of the current telegram that
/// wait their turn, whether one is in flight, how the run ended if it did,
/// every message handed to the bus so far, and those the bus accepted.
pub struct RunnerView {
    pub prefix: Seq<char>,
    pub qos: i32,
    pub pending: Seq<MessageView>,
    pub in_flight: bool,
    pub failed: Option<RunError>,
    pub sent: Seq<MessageView>,
    pub delivered: Seq<MessageView>,
}

/// A run that has just started: nothing sent, and a readout is awaited.
pub open spec fn fresh(prefix: Seq<char>, qos: i32) -> RunnerView {
    RunnerView {
        prefix,
        qos,
        pending: seq![],
        in_flight: false,
        failed: None,
        sent: seq![],
        delivered: seq![],
    }
}

/// A run that waits for a readout, with every message it sent accepted.
pub open spec fn settled(s: RunnerView) -> bool {
    &&& s.failed is None
    &&& !s.in_flight
    &&& s.pending.len() == 0
    &&& s.sent == s.delivered
}

/// Whether the run can take the event: it has not ended, and the event
/// answers what it asked for (a publish result while a message is in flight,
/// else what the serial source gave).
pub open spec fn accepts(s: RunnerView, e: EventView) -> bool {
    &&& s.failed is None
    &&& (s.in_flight <==> (e is Published || e is PublishFailed))
}

/// Sends the next waiting message, or asks for a readout when none waits.
pub open spec fn dispatch(s: RunnerView) -> (RunnerView, ActionView) {
    if s.pending.len() > 0 {
        (
            RunnerView {
                pending: s.pending.drop_first(),
                in_flight: true,
                sent: s.sent.push(s.pending[0]),
                ..s
            },
            ActionView::Publish(s.pending[0]),
        )
    } else {
        (RunnerView { in_flight: false, ..s }, ActionView::ReadNext)
    }
}

/// Ends the run with an error; what waited is dropped.
pub open spec fn abort(s: RunnerView, e: RunError) -> (RunnerView, ActionView) {
    (RunnerView { pending: seq![], in_flight: false, failed: Some(e), ..s }, ActionView::Abort(e))
}

/// One step of a run.
pub open spec fn step(s: RunnerView, e: EventView) -> (RunnerView, ActionView) {
    match e {
        EventView::Telegram(objects) => dispatch(
            RunnerView { pending: telegram_messages(s.prefix, s.qos, objects), ..s },
        ),
        EventView::DecodeFailed => abort(s, RunError::Decode),
        EventView::ReadFailed => abort(s, RunError::Read),
        EventView::SourceExhausted => abort(s, RunError::EndOfReader),
        EventView::Published => dispatch(
            RunnerView { delivered: s.delivered.push(s.sent.last()), ..s },
        ),
        EventView::PublishFailed => abort(s, RunError::Publish),
    }
}

/// The state after a run takes the events in order.
pub open spec fn run(s: RunnerView, es: Seq<EventView>) -> RunnerView
    decreases es.len(),
{
    if es.len() == 0 {
        s
    } else {
        run(step(s, es[0]).0, es.drop_first())
    }
}

/// Whether the run takes each of the events in turn.
pub open spec fn all_accepted(s: RunnerView, es: Seq<EventView>) -> bool
    decreases es.len(),
{
    es.len() == 0 || (accepts(s, es[0]) && all_accepted(step(s, es[0]).0, es.drop_first()))
}

/// `n` publish acknowledgements.
pub open spec fn acks(n: nat) -> Seq<EventView> {
    Seq::new(n, |i: int| EventView::Published)
}

/// The events of a telegram that decodes and whose messages are all published.
pub open spec fn telegram_events(
    prefix: Seq<char>,
    qos: i32,
    objects: Seq<Option<MeasurementView>>,
) -> Seq<EventView> {
    seq![EventView::Telegram(objects)] + acks(telegram_messages(prefix, qos, objects).len())
}

/// The events of telegrams that all decode and whose messages are all published.
pub open spec fn clean_events(
    prefix: Seq<char>,
    qos: i32,
    telegrams: Seq<Seq<Option<MeasurementView>>>,
) -> Seq<EventView>
    decreases telegrams.len(),
{
    if telegrams.len() == 0 {
        seq![]
    } else {
        clean_events(prefix, qos, telegrams.drop_last()) + telegram_events(
            prefix,
            qos,
            telegrams.last(),
        )
    }
}

/// The messages of the telegrams one after the other.
pub open spec fn all_messages(
    prefix: Seq<char>,
    qos: i32,
    telegrams: Seq<Seq<Option<MeasurementView>>>,
) -> Seq<MessageView>
    decreases telegrams.len(),
{
    if telegrams.len() == 0 {
        seq![]
    } else {
        all_messages(prefix, qos, telegrams.drop_last()) + telegram_messages(
            prefix,
            qos,
            telegrams.last(),
        )
    }
}

/// Taking two lists of events one after the other is taking them joined.
pub proof fn lemma_run_concat(s: RunnerView, a: Seq<EventView>, b: Seq<EventView>)
    ensures
        run(s, a + b) == run(run(s, a), b),
        all_accepted(s, a) && all_accepted(run(s, a), b) ==> all_accepted(s, a + b),
    decreases a.len(),
{
    if a.len() == 0 {
        assert(a + b =~= b);
    } else {
        assert((a + b)[0] == a[0]);
        assert((a + b).drop_first() =~= a.drop_first() + b);
        lemma_run_concat(step(s, a[0]).0, a.drop_first(), b);
    }
}

/// While a message is in flight, each acknowledgement sends the next waiting one.
proof fn lemma_partial_drain(s: RunnerView, j: nat)
    requires
        s.failed is None,
        s.in_flight,
        s.sent.len() > 0,
        s.delivered == s.sent.drop_last(),
        j <= s.pending.len(),
    ensures
        all_accepted(s, acks(j)),
        run(s, acks(j)) == (RunnerView {
            pending: s.pending.skip(j as int),
            sent: s.sent + s.pending.take(j as int),
            delivered: (s.sent + s.pending.take(j as int)).drop_last(),
            ..s
        }),
    decreases j,
{
    if j == 0 {
        assert(s.pending.skip(0) =~= s.pending);
        assert(s.sent + s.pending.take(0) =~= s.sent);
    } else {
        assert(s.delivered.push(s.sent.last()) =~= s.sent);
        let t = step(s, EventView::Published).0;
        assert(acks(j)[0] == EventView::Published);
        assert(acks(j).drop_first() =~= acks((j - 1) as nat));
        assert(t.sent.drop_last() =~= s.sent);
        lemma_partial_drain(t, (j - 1) as nat);
        assert(t.pending.skip(j - 1) =~= s.pending.skip(j as int));
        assert(t.sent + t.pending.take(j - 1) =~= s.sent + s.pending.take(j as int));
    }
}

/// Acknowledging the message in flight and each waiting one settles the run.
proof fn lemma_full_drain(s: RunnerView)
    requires
        s.failed is None,
        s.in_flight,
        s.sent.len() > 0,
        s.delivered == s.sent.drop_last(),
    ensures
        all_accepted(s, acks(s.pending.len() + 1)),
        run(s, acks(s.pending.len() + 1)) == (RunnerView {
            pending: seq![],
            in_flight: false,
            sent: s.sent + s.pending,
            delivered: s.sent + s.pending,
            ..s
        }),
{
    let n = s.pending.len();
    lemma_partial_drain(s, n);
    assert(acks(n + 1) =~= acks(n) + acks(1));
    lemma_run_concat(s, acks(n), acks(1));
    let u = run(s, acks(n));
    assert(s.pending.take(n as int) =~= s.pending);
    assert(s.pending.skip(n as int) =~= seq![]);
    assert(u.delivered.push(u.sent.last()) =~= u.sent);
    assert(acks(1)[0] == EventView::Published);
    assert(acks(1).drop_first() =~= seq![]);
    assert(u.pending.len() == 0 && u.in_flight && u.failed is None);
    let w = step(u, EventView::Published).0;
    assert(all_accepted(w, acks(1).drop_first()));
    assert(run(w, acks(1).drop_first()) == w);
    assert(run(u, acks(1)) == w);
    assert(all_accepted(u, acks(1)));
    assert(w.pending =~= seq![]);
}

/// A settled run takes a telegram that decodes and the acknowledgements of its
/// messages, and is settled again with those messages sent after the others.
proof fn lemma_one_telegram(s: RunnerView, objects: Seq<Option<MeasurementView>>)
    requires
        settled(s),
    ensures
        all_accepted(s, telegram_events(s.prefix, s.qos, objects)),
        run(s, telegram_events(s.prefix, s.qos, objects)) == (RunnerView {
            sent: s.sent + telegram_messages(s.prefix, s.qos, objects),
            delivered: s.sent + telegram_messages(s.prefix, s.qos, objects),
            ..s
        }),
{
    let msgs = telegram_messages(s.prefix, s.qos, objects);
    let es = telegram_events(s.prefix, s.qos, objects);
    assert(es[0] == EventView::Telegram(objects));
    assert(es.drop_first() =~= acks(msgs.len()));
    let t = step(s, EventView::Telegram(objects)).0;
    assert(s.pending =~= seq![]);
    if msgs.len() == 0 {
        assert(msgs =~= seq![]);
        assert(s.sent + msgs =~= s.sent);
        assert(s.pending =~= msgs);
        assert(run(t, acks(0)) == t);
        assert(all_accepted(t, acks(0)));
    } else {
        assert(t.sent.drop_last() =~= s.sent);
        lemma_full_drain(t);
        assert(t.pending.len() + 1 == msgs.len());
        assert(t.sent + t.pending =~= s.sent + msgs);
        assert(acks(msgs.len()) == acks(t.pending.len() + 1));
    }
    assert(accepts(s, es[0]));
}

proof fn lemma_clean_run(s: RunnerView, telegrams: Seq<Seq<Option<MeasurementView>>>)
    requires
        settled(s),
    ensures
        all_accepted(s, clean_events(s.prefix, s.qos, telegrams)),
        run(s, clean_events(s.prefix, s.qos, telegrams)) == (RunnerView {
            sent: s.sent + all_messages(s.prefix, s.qos, telegrams),
            delivered: s.sent + all_messages(s.prefix, s.qos, telegrams),
            ..s
        }),
    decreases telegrams.len(),
{
    if telegrams.len() == 0 {
        assert(s.sent + seq![] =~= s.sent);
    } else {
        let earlier = telegrams.drop_last();
        lemma_clean_run(s, earlier);
        let u = run(s, clean_events(s.prefix, s.qos, earlier));
        lemma_one_telegram(u, telegrams.last());
        lemma_run_concat(
            s,
            clean_events(s.prefix, s.qos, earlier),
            telegram_events(s.prefix, s.qos, telegrams.last()),
        );
        assert(s.sent + all_messages(s.prefix, s.qos, earlier) + telegram_messages(
            s.prefix,
            s.qos,
            telegrams.last(),
        ) =~= s.sent + all_messages(s.prefix, s.qos, telegrams));
    }
}

/// When every telegram decodes and every publish succeeds, the bus is handed
/// exactly the messages of the telegrams, in telegram order and, within a
/// telegram, in field order; all of them are delivered and the run goes on.
pub proof fn lemma_clean_telegrams_publish_in_order(
    prefix: Seq<char>,
    qos: i32,
    telegrams: Seq<Seq<Option<MeasurementView>>>,
)
    ensures
        all_accepted(fresh(prefix, qos), clean_events(prefix, qos, telegrams)),
        run(fresh(prefix, qos), clean_events(prefix, qos, telegrams)).sent == all_messages(
            prefix,
            qos,
            telegrams,
        ),
        run(fresh(prefix, qos), clean_events(prefix, qos, telegrams)).delivered == all_messages(
            prefix,
            qos,
            telegrams,
        ),
        run(fresh(prefix, qos), clean_events(prefix, qos, telegrams)).failed is None,
{
    lemma_clean_run(fresh(prefix, qos), telegrams);
    assert(seq![] + all_messages(prefix, qos, telegrams) =~= all_messages(prefix, qos, telegrams));
}

/// The events of a telegram whose `m`-th message fails to publish after the
/// earlier ones were published.
pub open spec fn failing_publish_events(objects: Seq<Option<MeasurementView>>, m: nat) -> Seq<
    EventView,
> {
    seq![EventView::Telegram(objects)] + acks((m - 1) as nat) + seq![EventView::PublishFailed]
}

/// When the `m`-th message of a telegram fails to publish, the `m - 1` before
/// it stay delivered, the failed one was handed over once and is not tried
/// again, nothing more is sent, and the run ends with a publish error.
pub proof fn lemma_publish_failure_keeps_earlier_messages(
    s: RunnerView,
    objects: Seq<Option<MeasurementView>>,
    m: nat,
)
    requires
        settled(s),
        1 <= m <= telegram_messages(s.prefix, s.qos, objects).len(),
    ensures
        all_accepted(s, failing_publish_events(objects, m)),
        run(s, failing_publish_events(objects, m)).failed == Some(RunError::Publish),
        run(s, failing_publish_events(objects, m)).delivered == s.delivered + telegram_messages(
            s.prefix,
            s.qos,
            objects,
        ).take(m - 1),
        run(s, failing_publish_events(objects, m)).sent == s.sent + telegram_messages(
            s.prefix,
            s.qos,
            objects,
        ).take(m as int),
        run(s, failing_publish_events(objects, m)).pending.len() == 0,
        step(
            run(s, seq![EventView::Telegram(objects)] + acks((m - 1) as nat)),
            EventView::PublishFailed,
        ).1 == ActionView::Abort(RunError::Publish),
{
    let msgs = telegram_messages(s.prefix, s.qos, objects);
    let head = seq![EventView::Telegram(objects)];
    let tail = seq![EventView::PublishFailed];
    let t = step(s, EventView::Telegram(objects)).0;
    assert(head[0] == EventView::Telegram(objects));
    assert(head.drop_first() =~= seq![]);
    assert(all_accepted(t, head.drop_first()));
    assert(all_accepted(s, head));
    assert(run(t, head.drop_first()) == t);
    assert(run(s, head) == t);
    assert(t.sent.drop_last() =~= s.sent);
    lemma_partial_drain(t, (m - 1) as nat);
    lemma_run_concat(s, head, acks((m - 1) as nat));
    let u = run(s, head + acks((m - 1) as nat));
    assert(t.sent + t.pending.take(m - 1) =~= s.sent + msgs.take(m as int));
    assert((s.sent + msgs.take(m as int)).drop_last() =~= s.delivered + msgs.take(m - 1));
    assert(tail[0] == EventView::PublishFailed);
    assert(tail.drop_first() =~= seq![]);
    assert(u.in_flight && u.failed is None);
    assert(all_accepted(step(u, EventView::PublishFailed).0, tail.drop_first()));
    assert(all_accepted(u, tail));
    assert(run(step(u, EventView::PublishFailed).0, tail.drop_first()) == step(
        u,
        EventView::PublishFailed,
    ).0);
    lemma_run_concat(s, head + acks((m - 1) as nat), tail);
    assert(failing_publish_events(objects, m) =~= head + acks((m - 1) as nat) + tail);
}

/// One pipeline run, from the connection of its source and its publisher to
/// its first error.
pub struct Runner {
    prefix: String,
    qos: i32,
    pending: Vec<OutboundMessage>,
    in_flight: bool,
    failed: Option<RunError>,
    sent: Ghost<Seq<MessageView>>,
    delivered: Ghost<Seq<MessageView>>,
}

impl View for Runner {
    type V = RunnerView;

    closed spec fn view(&self) -> RunnerView {
        RunnerView {
            prefix: self.prefix@,
            qos: self.qos,
            pending: messages_view(self.pending@),
            in_flight: self.in_flight,
            failed: self.failed,
            sent: self.sent@,
            delivered: self.delivered@,
        }
    }
}

impl Runner {
    /// Starts a run that publishes under `prefix` at quality level `qos`; it
    /// first asks for a readout.
    pub fn new(prefix: &str, qos: i32) -> (r: Runner)
        ensures
            r@ == fresh(prefix@, qos),
    {
        let r = Runner {
            prefix: prefix.to_owned(),
            qos,
            pending: Vec::new(),
            in_flight: false,
            failed: None,
            sent: Ghost(Seq::empty()),
            delivered: Ghost(Seq::empty()),
        };
        proof {
            assert(messages_view(r.pending@) =~= seq![]);
        }
        r
    }

    /// How the run ended, if it did.
    pub fn failure(&self) -> (r: Option<RunError>)
        ensures
            r == self@.failed,
    {
        self.failed
    }

    /// Whether a message is in flight.
    pub fn is_publishing(&self) -> (r: bool)
        ensures
            r == self@.in_flight,
    {
        self.in_flight
    }

    /// Whether the run can take the event now.
    pub fn accepts(&self, e: &Event) -> (r: bool)
        ensures
            r == accepts(self@, e@),
    {
        let answers_publish = match e {
            Event::Published => true,
            Event::PublishFailed => true,
            _ => false,
        };
        self.failed.is_none() && self.in_flight == answers_publish
    }

    fn dispatch(&mut self) -> (a: Action)
        ensures
            (final(self)@, a@) == dispatch(old(self)@),
    {
        if self.pending.len() > 0 {
            let ghost before = self.pending@;
            let m = self.pending.remove(0);
            proof {
                assert(messages_view(self.pending@) =~= messages_view(before).drop_first());
            }
            self.in_flight = true;
            self.sent = Ghost(self.sent@.push(m@));
            Action::Publish(m)
        } else {
            self.in_flight = false;
            Action::ReadNext
        }
    }

    fn abort(&mut self, e: RunError) -> (a: Action)
        ensures
            (final(self)@, a@) == abort(old(self)@, e),
    {
        self.pending = Vec::new();
        proof {
            assert(messages_view(self.pending@) =~= seq![]);
        }
        self.in_flight = false;
        self.failed = Some(e);
        Action::Abort(e)
    }

    /// Takes what the serial source or the bus reported and says what to do next.
    pub fn handle(&mut self, e: Event) -> (a: Action)
        requires
            accepts(old(self)@, e@),
        ensures
            (final(self)@, a@) == step(old(self)@, e@),
    {
        match e {
            Event::Telegram(objects) => {
                self.pending = to_messages(self.prefix.as_str(), self.qos, &objects);
                self.dispatch()
            },
            Event::DecodeFailed => self.abort(RunError::Decode),
            Event::ReadFailed => self.abort(RunError::Read),
            Event::SourceExhausted => self.abort(RunError::EndOfReader),
            Event::Published => {
                self.delivered = Ghost(self.delivered@.push(self.sent@.last()));
                self.dispatch()
            },
            Event::PublishFailed => self.abort(RunError::Publish),
        }
    }
}

} // verus!
