//! What travels between a client and the authority over the world.

use crate::event::Event;
use crate::ids::Id;
use crate::model::Cascade;
use crate::model::Model;
use crate::model::ModelView;
use vstd::prelude::*;

verus! {

/// What a client sends: a change that it proposes.
#[derive(Debug)]
pub enum ClientMessage {
    Event(Event),
}

impl Clone for ClientMessage {
    fn clone(&self) -> (r: Self)
        ensures
            r == *self,
    {
        match self {
            ClientMessage::Event(event) => ClientMessage::Event(event.clone()),
        }
    }
}

impl ClientMessage {
    /// The change that the message proposes.
    pub open spec fn event(self) -> Event {
        match self {
            ClientMessage::Event(event) => event,
        }
    }

    /// Whether the message reports the sender's own state, as a client does
    /// once per frame in which it heard from the authority. The authority
    /// answers such a message with the events that the sender has not seen.
    pub open spec fn spec_is_heartbeat(&self) -> bool {
        self.event() is PlayerUpdated
    }

    #[verifier::when_used_as_spec(spec_is_heartbeat)]
    pub fn is_heartbeat(&self) -> (r: bool)
        ensures
            r == self.spec_is_heartbeat(),
    {
        match self {
            ClientMessage::Event(Event::PlayerUpdated(_)) => true,
            _ => false,
        }
    }
}

/// What a client is told when it enters: who it is, and the whole world as
/// it stands, so that it need not hear what happened before.
#[derive(Debug)]
pub struct WelcomeMessage {
    pub player_id: Id,
    pub model: Model,
}

/// What the authority sends.
#[derive(Debug)]
pub enum ServerMessage {
    Welcome(WelcomeMessage),
    Update(Vec<Event>),
}

impl ServerMessage {
    /// The events that the message carries. A welcome carries none.
    pub open spec fn events(self) -> Seq<Event> {
        match self {
            ServerMessage::Update(events) => events@,
            ServerMessage::Welcome(_) => Seq::empty(),
        }
    }
}

/// The events that a list of messages carries, in order.
pub open spec fn all_events(messages: Seq<ServerMessage>) -> Seq<Event>
    decreases messages.len(),
{
    if messages.len() == 0 {
        Seq::empty()
    } else {
        all_events(messages.drop_last()) + messages.last().events()
    }
}

/// The events of a list with one message more are those of the list and then
/// those of the message.
pub proof fn lemma_all_events_push(messages: Seq<ServerMessage>, message: ServerMessage)
    ensures
        all_events(messages.push(message)) == all_events(messages) + message.events(),
{
    assert(messages.push(message).drop_last() =~= messages);
}

/// How many microseconds a second has.
pub const MICROS_PER_SECOND: u32 = 1_000_000;

/// How many ticks are due when the countdown stands at `timer` and every
/// tick puts `period` back on it: as many as bring it above zero.
pub open spec fn ticks_due(timer: int, period: int) -> int {
    if timer > 0 {
        0
    } else {
        (-timer) / period + 1
    }
}

/// A client's way to the authority over its world. The authority is either
/// a model of the client's own, which it drives itself at the model's tick
/// rate, or a server at the far end of a link. Of the link this holds the two
/// queues: what has arrived and was not yet drained, and what was sent and
/// was not yet taken away to be transmitted.
#[derive(Debug)]
pub enum Connection {
    Local { next_tick: i64, model: Model },
    Remote { arrived: Vec<ServerMessage>, outgoing: Vec<ClientMessage> },
}

impl Connection {
    /// Whether the connection is sound: a model of one's own is well formed
    /// and its countdown, in microseconds, is not negative and not above one
    /// second; over a link only updates arrive.
    pub open spec fn wf(&self) -> bool {
        match self {
            Connection::Local { next_tick, model } => model.wf() && 0 <= *next_tick
                <= MICROS_PER_SECOND,
            Connection::Remote { arrived, outgoing } => forall|i: int|
                0 <= i < arrived@.len() ==> #[trigger] arrived@[i] is Update,
        }
    }

    /// The microseconds between two ticks of a model.
    pub open spec fn period(model: ModelView) -> int {
        MICROS_PER_SECOND as int / model.ticks_per_second as int
    }

    /// A connection to a model of one's own, with a tick due at once.
    pub fn local(model: Model) -> (r: Self)
        requires
            model.wf(),
        ensures
            r.wf(),
            r == (Connection::Local { next_tick: 0, model }),
    {
        Connection::Local { next_tick: 0, model }
    }

    /// A connection over a link on which nothing has arrived or been sent.
    pub fn remote() -> (r: Self)
        ensures
            r.wf(),
            r matches Connection::Remote { arrived, outgoing } && arrived@.len() == 0
                && outgoing@.len() == 0,
    {
        Connection::Remote { arrived: Vec::new(), outgoing: Vec::new() }
    }

    /// Puts an update that has arrived over the link where the next call of
    /// `new_messages` finds it.
    pub fn deliver(&mut self, events: Vec<Event>)
        requires
            old(self).wf(),
            *old(self) is Remote,
        ensures
            final(self).wf(),
            *final(self) matches Connection::Remote { arrived, outgoing } && arrived@ == (*old(self))->arrived@.push(ServerMessage::Update(events)) && outgoing == (*old(self))->outgoing,
    {
        match self {
            Connection::Remote { arrived, outgoing } => {
                arrived.push(ServerMessage::Update(events));
            },
            Connection::Local { .. } => {},
        }
    }

    /// Takes away what was sent over the link, oldest first, to be
    /// transmitted. A model of one's own has nothing to transmit.
    pub fn take_outgoing(&mut self) -> (r: Vec<ClientMessage>)
        requires
            old(self).wf(),
        ensures
            final(self).wf(),
            match *old(self) {
                Connection::Local { .. } => r@.len() == 0 && *final(self) == *old(self),
                Connection::Remote { arrived, outgoing } => {
                    &&& r == outgoing
                    &&& *final(self) matches Connection::Remote { arrived: left, outgoing: none }
                        && left == arrived && none@.len() == 0
                },
            },
    {
        match self {
            Connection::Remote { arrived, outgoing } => {
                let mut taken: Vec<ClientMessage> = Vec::new();
                std::mem::swap(outgoing, &mut taken);
                taken
            },
            Connection::Local { .. } => Vec::new(),
        }
    }

    /// What the authority has to say since the last call, oldest first, after
    /// `elapsed` microseconds have passed. A model of one's own is ticked as
    /// often as is due and says one update for every tick; over a link it is
    /// whatever has arrived, without waiting for more.
    pub fn new_messages(&mut self, elapsed: u32) -> (messages: Vec<ServerMessage>)
        requires
            old(self).wf(),
        ensures
            final(self).wf(),
            forall|i: int| 0 <= i < messages@.len() ==> #[trigger] messages@[i] is Update,
            match *old(self) {
                Connection::Local { next_tick, model } => {
                    let due = ticks_due(next_tick - elapsed, Connection::period(model@));
                    &&& messages@.len() == due
                    &&& all_events(messages@) == Seq::<Event>::empty()
                    &&& *final(self) matches Connection::Local { next_tick: timer, model: after }
                        && after == model && timer == next_tick - elapsed + due
                        * Connection::period(model@)
                },
                Connection::Remote { arrived, outgoing } => {
                    &&& messages == arrived
                    &&& *final(self) matches Connection::Remote { arrived: none, outgoing: kept }
                        && none@.len() == 0 && kept == outgoing
                },
            },
    {
        match self {
            Connection::Remote { arrived, outgoing } => {
                let mut messages: Vec<ServerMessage> = Vec::new();
                std::mem::swap(arrived, &mut messages);
                messages
            },
            Connection::Local { next_tick, model } => {
                proof {
                    model.lemma_wf_view();
                }
                let rate = model.ticks_per_second();
                let period: i64 = (MICROS_PER_SECOND / rate) as i64;
                proof {
                    lemma_period_bounds(rate as int);
                }
                let ghost start: int = *next_tick - elapsed;
                let mut messages: Vec<ServerMessage> = Vec::new();
                let mut timer: i64 = *next_tick - (elapsed as i64);
                assert(messages@.len() * period == 0) by (nonlinear_arith)
                    requires
                        messages@.len() == 0,
                ;
                while timer <= 0
                    invariant
                        1 <= period <= MICROS_PER_SECOND,
                        *old(self) matches Connection::Local { next_tick: t, model: m } && m
                            == *model && start == t - elapsed,
                        model.wf(),
                        -0x1_0000_0000 <= start,
                        timer == start + messages@.len() * period,
                        timer <= MICROS_PER_SECOND,
                        messages@.len() > 0 ==> start + (messages@.len() - 1) * period <= 0,
                        forall|i: int| 0 <= i < messages@.len() ==> #[trigger] messages@[i] is Update,
                        all_events(messages@) == Seq::<Event>::empty(),
                    decreases (if timer <= 0 { 1 - timer } else { 0 }),
                {
                    let ghost before = messages@;
                    let update = ServerMessage::Update(model.tick());
                    messages.push(update);
                    proof {
                        lemma_all_events_push(before, update);
                        assert((before.len() + 1) * period == before.len() * period + period)
                            by (nonlinear_arith);
                    }
                    timer = timer + period;
                }
                *next_tick = timer;
                proof {
                    lemma_ticks_due(start, period as int, messages@.len() as int);
                }
                messages
            },
        }
    }

    /// Sends what the client wants to the authority. A model of one's own
    /// handles it at once, and what came of it is returned as an update; over
    /// a link the message is queued and nothing is waited for.
    pub fn send(&mut self, player_id: Id, message: ClientMessage, cascade: Cascade) -> (r: Option<
        ServerMessage,
    >)
        requires
            old(self).wf(),
            *old(self) matches Connection::Local { model, .. } ==> model@.next_id <= usize::MAX - 2,
        ensures
            final(self).wf(),
            match *old(self) {
                Connection::Local { next_tick, model } => {
                    &&& r matches Some(ServerMessage::Update(given)) && given@
                        == model@.proposal_events(message.event(), cascade)
                    &&& *final(self) matches Connection::Local { next_tick: timer, model: after }
                        && timer == next_tick && after@ == model@.after_proposal(
                        message.event(),
                        cascade,
                    )
                },
                Connection::Remote { arrived, outgoing } => {
                    &&& r is None
                    &&& *final(self) matches Connection::Remote { arrived: kept, outgoing: queued }
                        && kept == arrived && queued@ == outgoing@.push(message)
                },
            },
    {
        match self {
            Connection::Remote { arrived, outgoing } => {
                outgoing.push(message);
                None
            },
            Connection::Local { next_tick, model } => {
                Some(ServerMessage::Update(model.handle_message(player_id, message, cascade)))
            },
        }
    }
}

/// Between two ticks lies at least a microsecond and at most a second.
proof fn lemma_period_bounds(rate: int)
    requires
        0 < rate <= MICROS_PER_SECOND,
    ensures
        1 <= MICROS_PER_SECOND as int / rate <= MICROS_PER_SECOND,
{
    assert(1 <= 1_000_000int / rate <= 1_000_000) by (nonlinear_arith)
        requires
            0 < rate <= 1_000_000,
    ;
}

/// The number of ticks that brings a countdown above zero is the number due.
proof fn lemma_ticks_due(start: int, period: int, ticks: int)
    requires
        period >= 1,
        ticks >= 0,
        start + ticks * period > 0,
        ticks > 0 ==> start + (ticks - 1) * period <= 0,
        ticks == 0 ==> start > 0,
    ensures
        ticks == ticks_due(start, period),
{
    if ticks > 0 {
        assert((-start) / period == ticks - 1) by (nonlinear_arith)
            requires
                period >= 1,
                (ticks - 1) * period <= -start,
                -start < ticks * period,
                ticks >= 1,
        ;
    }
}

} // verus!
