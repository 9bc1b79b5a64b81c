use vstd::prelude::*;

verus! {

/// How many values the relay between producer and sink holds before the
/// producer has to wait.
pub const RELAY_CAPACITY: usize = 10;

/// What happened in a subscription session.
#[derive(Clone, Copy, Debug, PartialEq, Eq, Structural)]
pub enum SessionEvent {
    /// The handler's sequence produced its next value.
    Produced,
    /// The handler's sequence ended.
    Exhausted,
    /// The delivery side took the next value out of the relay.
    Received,
    /// The relay is empty and its sending side closed: it ends the session,
    /// cleanly only when the producer ended and every value was delivered.
    RelayDrained,
    /// A value could not be encoded for the sink.
    EncodeFailed,
    /// The sink refused a value: the subscription is gone.
    SinkClosed,
    /// The peer unsubscribed, or the transport dropped the subscription.
    Cancelled,
}

/// What the session asks to be done next.
#[derive(Clone, Copy, Debug, PartialEq, Eq, Structural)]
pub enum SessionAction {
    /// Put value number `n` into the relay, waiting while it is full.
    Relay(u64),
    /// Close the relay's sending side: no more values come.
    CloseRelay,
    /// Send value number `n` to the sink.
    Deliver(u64),
    /// Stop the producer and the delivery and release the relay.
    TearDown,
    /// The session ended after every value was delivered.
    Finish,
    /// Nothing is to be done: the event came after the session ended, or
    /// does not apply.
    Ignore,
}

/// The mathematical content of a `Session`.
pub struct SessionModel {
    /// How many values went into the relay.
    pub produced: nat,
    /// How many values went to the sink.
    pub delivered: nat,
    /// Whether the producer still runs.
    pub producing: bool,
    /// Whether the session still runs.
    pub open: bool,
}

/// The state of one subscription session: a producer that fills the relay
/// and a delivery that empties it into the sink, in order.
pub struct Session {
    produced: u64,
    delivered: u64,
    producing: bool,
    open: bool,
}

impl View for Session {
    type V = SessionModel;

    closed spec fn view(&self) -> SessionModel {
        SessionModel {
            produced: self.produced as nat,
            delivered: self.delivered as nat,
            producing: self.producing,
            open: self.open,
        }
    }
}

/// Whether a session state is consistent: no value is delivered before it is
/// produced, and nothing is produced once the session ended.
pub open spec fn session_wf(s: SessionModel) -> bool {
    &&& s.delivered <= s.produced
    &&& s.produced <= u64::MAX
    &&& (!s.open ==> !s.producing)
}

/// The state after an event, and what is to be done.
///
/// Values are numbered from zero in the order the producer made them. A
/// session whose count of values would pass `u64::MAX` is torn down rather
/// than reuse a number.
pub open spec fn session_next(s: SessionModel, e: SessionEvent) -> (SessionModel, SessionAction) {
    if !s.open {
        (s, SessionAction::Ignore)
    } else {
        match e {
            SessionEvent::Produced => if !s.producing {
                (s, SessionAction::Ignore)
            } else if s.produced == u64::MAX {
                (SessionModel { producing: false, open: false, ..s }, SessionAction::TearDown)
            } else {
                (SessionModel { produced: s.produced + 1, ..s }, SessionAction::Relay(s.produced as u64))
            },
            SessionEvent::Exhausted => if s.producing {
                (SessionModel { producing: false, ..s }, SessionAction::CloseRelay)
            } else {
                (s, SessionAction::Ignore)
            },
            SessionEvent::Received => if s.delivered < s.produced {
                (SessionModel { delivered: s.delivered + 1, ..s }, SessionAction::Deliver(s.delivered as u64))
            } else {
                (s, SessionAction::Ignore)
            },
            SessionEvent::RelayDrained => if !s.producing && s.delivered == s.produced {
                (SessionModel { open: false, ..s }, SessionAction::Finish)
            } else {
                (SessionModel { producing: false, open: false, ..s }, SessionAction::TearDown)
            },
            _ => (SessionModel { producing: false, open: false, ..s }, SessionAction::TearDown),
        }
    }
}

impl Session {
    /// A session that was just accepted: nothing produced or delivered yet.
    pub fn new() -> (r: Self)
        ensures
            r@ == (SessionModel { produced: 0, delivered: 0, producing: true, open: true }),
    {
        Session { produced: 0, delivered: 0, producing: true, open: true }
    }

    /// Whether the session still runs.
    pub fn is_open(&self) -> (r: bool)
        ensures
            r == self@.open,
    {
        self.open
    }

    /// Takes in one event and says what is to be done.
    pub fn step(&mut self, e: SessionEvent) -> (r: SessionAction)
        requires
            session_wf(old(self)@),
        ensures
            session_wf(final(self)@),
            (final(self)@, r) == session_next(old(self)@, e),
    {
        if !self.open {
            return SessionAction::Ignore;
        }
        match e {
            SessionEvent::Produced => {
                if !self.producing {
                    SessionAction::Ignore
                } else if self.produced == u64::MAX {
                    self.producing = false;
                    self.open = false;
                    SessionAction::TearDown
                } else {
                    let n = self.produced;
                    self.produced = n + 1;
                    SessionAction::Relay(n)
                }
            },
            SessionEvent::Exhausted => {
                if self.producing {
                    self.producing = false;
                    SessionAction::CloseRelay
                } else {
                    SessionAction::Ignore
                }
            },
            SessionEvent::Received => {
                if self.delivered < self.produced {
                    let n = self.delivered;
                    self.delivered = n + 1;
                    SessionAction::Deliver(n)
                } else {
                    SessionAction::Ignore
                }
            },
            SessionEvent::RelayDrained => {
                if !self.producing && self.delivered == self.produced {
                    self.open = false;
                    SessionAction::Finish
                } else {
                    self.producing = false;
                    self.open = false;
                    SessionAction::TearDown
                }
            },
            _ => {
                self.producing = false;
                self.open = false;
                SessionAction::TearDown
            },
        }
    }
}

/// The state after a sequence of events, and the actions asked for, in order.
pub open spec fn session_run(s: SessionModel, es: Seq<SessionEvent>) -> (SessionModel, Seq<SessionAction>)
    decreases es.len(),
{
    if es.len() == 0 {
        (s, Seq::empty())
    } else {
        let (mid, acts) = session_run(s, es.drop_last());
        let (last, act) = session_next(mid, es.last());
        (last, acts.push(act))
    }
}

/// The numbers of the values sent to the sink, in the order they were sent.
pub open spec fn delivered_values(acts: Seq<SessionAction>) -> Seq<nat>
    decreases acts.len(),
{
    if acts.len() == 0 {
        Seq::empty()
    } else {
        match acts.last() {
            SessionAction::Deliver(n) => delivered_values(acts.drop_last()).push(n as nat),
            _ => delivered_values(acts.drop_last()),
        }
    }
}

/// The numbers of the values put into the relay, in the order they were put.
pub open spec fn relayed_values(acts: Seq<SessionAction>) -> Seq<nat>
    decreases acts.len(),
{
    if acts.len() == 0 {
        Seq::empty()
    } else {
        match acts.last() {
            SessionAction::Relay(n) => relayed_values(acts.drop_last()).push(n as nat),
            _ => relayed_values(acts.drop_last()),
        }
    }
}

/// The numbers `from`, `from + 1`, ..., up to `to` excluded.
pub open spec fn counting(from: nat, to: nat) -> Seq<nat> {
    Seq::new((to - from) as nat, |k: int| (from + k) as nat)
}

/// Order is kept: whatever the events, the values go into the relay in the
/// order they were produced and reach the sink in that same order, each
/// once, and none reaches the sink before it was produced.
pub proof fn lemma_session_keeps_order(s: SessionModel, es: Seq<SessionEvent>)
    requires
        session_wf(s),
    ensures
        session_wf(session_run(s, es).0),
        relayed_values(session_run(s, es).1) == counting(s.produced, session_run(s, es).0.produced),
        delivered_values(session_run(s, es).1) == counting(s.delivered, session_run(s, es).0.delivered),
        s.produced <= session_run(s, es).0.produced,
        s.delivered <= session_run(s, es).0.delivered,
    decreases es.len(),
{
    if es.len() > 0 {
        lemma_session_keeps_order(s, es.drop_last());
        let (mid, acts) = session_run(s, es.drop_last());
        let (last, act) = session_next(mid, es.last());
        let all = acts.push(act);
        assert(all.drop_last() =~= acts);
        assert(relayed_values(all) =~= counting(s.produced, last.produced));
        assert(delivered_values(all) =~= counting(s.delivered, last.delivered));
    }
}

/// Once a session has ended, by cancellation or otherwise, it stays as it
/// is: no further value is produced, relayed or delivered, whatever comes.
pub proof fn lemma_ended_session_stays_ended(s: SessionModel, es: Seq<SessionEvent>)
    requires
        !s.open,
    ensures
        session_run(s, es).0 == s,
        forall|i: int| 0 <= i < es.len() ==> #[trigger] session_run(s, es).1[i] == SessionAction::Ignore,
        session_run(s, es).1.len() == es.len(),
    decreases es.len(),
{
    if es.len() > 0 {
        lemma_ended_session_stays_ended(s, es.drop_last());
    }
}

/// Cancellation tears a running session down at once, and nothing follows:
/// after it no value is produced or delivered, whatever comes.
pub proof fn lemma_cancel_stops_session(s: SessionModel, es: Seq<SessionEvent>)
    requires
        s.open,
    ensures
        session_next(s, SessionEvent::Cancelled).1 == SessionAction::TearDown,
        !session_next(s, SessionEvent::Cancelled).0.open,
        relayed_values(session_run(session_next(s, SessionEvent::Cancelled).0, es).1).len() == 0,
        delivered_values(session_run(session_next(s, SessionEvent::Cancelled).0, es).1).len() == 0,
{
    let c = session_next(s, SessionEvent::Cancelled).0;
    lemma_ended_session_stays_ended(c, es);
    lemma_ignored_yield_nothing(session_run(c, es).1);
}

/// Actions that all ask for nothing relay and deliver nothing.
proof fn lemma_ignored_yield_nothing(acts: Seq<SessionAction>)
    requires
        forall|i: int| 0 <= i < acts.len() ==> #[trigger] acts[i] == SessionAction::Ignore,
    ensures
        relayed_values(acts).len() == 0,
        delivered_values(acts).len() == 0,
    decreases acts.len(),
{
    if acts.len() > 0 {
        lemma_ignored_yield_nothing(acts.drop_last());
    }
}

/// How many of the events are `Produced`.
pub open spec fn produced_count(es: Seq<SessionEvent>) -> nat
    decreases es.len(),
{
    if es.len() == 0 {
        0
    } else {
        produced_count(es.drop_last()) + if es.last() == SessionEvent::Produced {
            1nat
        } else {
            0nat
        }
    }
}

/// No value is dropped: while a session runs and its producer has not
/// ended, however slowly the sink takes values, every produced value goes
/// into the relay, each as the next in order.
pub proof fn lemma_no_value_dropped(s: SessionModel, es: Seq<SessionEvent>)
    requires
        session_wf(s),
        s.open,
        s.producing,
        s.produced + es.len() <= u64::MAX,
        forall|i: int|
            0 <= i < es.len() ==> #[trigger] es[i] == SessionEvent::Produced || es[i]
                == SessionEvent::Received,
    ensures
        session_run(s, es).0.open,
        session_run(s, es).0.producing,
        session_run(s, es).0.produced == s.produced + produced_count(es),
        relayed_values(session_run(s, es).1) == counting(s.produced, s.produced + produced_count(es)),
    decreases es.len(),
{
    lemma_session_keeps_order(s, es);
    if es.len() > 0 {
        let p = es.drop_last();
        assert forall|i: int| 0 <= i < p.len() implies #[trigger] p[i] == SessionEvent::Produced
            || p[i] == SessionEvent::Received by {
            assert(es[i] == SessionEvent::Produced || es[i] == SessionEvent::Received);
        }
        lemma_no_value_dropped(s, p);
        lemma_produced_count_bound(p);
        assert(es[es.len() - 1] == SessionEvent::Produced || es[es.len() - 1] == SessionEvent::Received);
    }
}

proof fn lemma_produced_count_bound(es: Seq<SessionEvent>)
    ensures
        produced_count(es) <= es.len(),
    decreases es.len(),
{
    if es.len() > 0 {
        lemma_produced_count_bound(es.drop_last());
    }
}

/// A session finishes cleanly only once its producer ended and every value
/// it produced was delivered.
pub proof fn lemma_finish_after_all_delivered(s: SessionModel, e: SessionEvent)
    ensures
        session_next(s, e).1 == SessionAction::Finish ==> !s.producing && s.delivered == s.produced
            && !session_next(s, e).0.open,
{
}

} // verus!
