//! A client's replica of the world and the step that keeps it in line with
//! the authority.

use crate::event::Event;
use crate::model::Cascade;
use crate::model::Loot;
use crate::model::Model;
use crate::model::ModelView;
use crate::net::all_events;
use crate::net::lemma_all_events_push;
use crate::net::ticks_due;
use crate::net::ClientMessage;
use crate::net::Connection;
use crate::net::ServerMessage;
use crate::net::WelcomeMessage;
use crate::player::Player;
use crate::world::lemma_apply_all_concat;
use vstd::prelude::*;

verus! {

/// A message that waits to be sent, with the cascade that an authority of
/// one's own is to use should the message break a tile. A server decides on
/// its own cascade and never sees this one.
#[derive(Debug)]
pub struct Outgoing {
    pub message: ClientMessage,
    pub cascade: Cascade,
}

impl Clone for Outgoing {
    fn clone(&self) -> (r: Self)
        ensures
            r == *self,
    {
        Outgoing { message: self.message.clone(), cascade: self.cascade }
    }
}

/// The messages of a queue, in order.
pub open spec fn messages_of(queue: Seq<Outgoing>) -> Seq<ClientMessage> {
    Seq::new(queue.len(), |i: int| queue[i].message)
}

/// The state of an authority after it has handled a queue of proposals, in
/// order.
pub open spec fn after_proposals(start: ModelView, queue: Seq<Outgoing>) -> ModelView
    decreases queue.len(),
{
    if queue.len() == 0 {
        start
    } else {
        after_proposals(start, queue.drop_last()).after_proposal(
            queue.last().message.event(),
            queue.last().cascade,
        )
    }
}

/// The events that come of a queue of proposals that an authority handles in
/// order.
pub open spec fn events_of_proposals(start: ModelView, queue: Seq<Outgoing>) -> Seq<Event>
    decreases queue.len(),
{
    if queue.len() == 0 {
        Seq::empty()
    } else {
        events_of_proposals(start, queue.drop_last()) + after_proposals(
            start,
            queue.drop_last(),
        ).proposal_events(queue.last().message.event(), queue.last().cascade)
    }
}

/// An authority that has handled a queue of proposals holds the world that a
/// replica holds which started from the same world and folded in the events
/// that came of the queue; and it has used up at most two identifiers for
/// every proposal.
pub proof fn lemma_replica_keeps_up(start: ModelView, queue: Seq<Outgoing>)
    ensures
        after_proposals(start, queue).world == start.world.apply_all(
            events_of_proposals(start, queue),
        ),
        after_proposals(start, queue).ticks_per_second == start.ticks_per_second,
        after_proposals(start, queue).shops == start.shops,
        start.next_id + 2 * queue.len() <= usize::MAX ==> start.next_id <= after_proposals(
            start,
            queue,
        ).next_id <= start.next_id + 2 * queue.len(),
    decreases queue.len(),
{
    if queue.len() > 0 {
        let before = after_proposals(start, queue.drop_last());
        let events = before.proposal_events(queue.last().message.event(), queue.last().cascade);
        lemma_replica_keeps_up(start, queue.drop_last());
        lemma_apply_all_concat(
            start.world,
            events_of_proposals(start, queue.drop_last()),
            events,
        );
    }
}

/// What a client holds: its replica of the world, the player that it moves
/// itself, its connection, and what it has yet to send.
#[derive(Debug)]
pub struct Replica {
    pub player: Player,
    model: Model,
    connection: Connection,
    to_send: Vec<Outgoing>,
}

/// A replica as a reader of its state sees it.
pub ghost struct ReplicaView {
    pub player: Player,
    pub model: ModelView,
    pub connection: Connection,
    pub to_send: Seq<Outgoing>,
}

impl View for Replica {
    type V = ReplicaView;

    closed spec fn view(&self) -> ReplicaView {
        ReplicaView {
            player: self.player,
            model: self.model@,
            connection: self.connection,
            to_send: self.to_send@,
        }
    }
}

impl ReplicaView {
    /// The proposal that reports the player's own state.
    pub open spec fn heartbeat(self) -> Outgoing {
        Outgoing {
            message: ClientMessage::Event(Event::PlayerUpdated(self.player)),
            cascade: Cascade {
                block: Loot { position: self.player.position, value: 0 },
                chest: None,
            },
        }
    }

    /// Whether the replica mirrors its authority: where the authority is a
    /// model of the client's own, the replica holds the same world.
    pub open spec fn mirrors(self) -> bool {
        self.connection matches Connection::Local { model, .. } ==> self.model.world
            == model@.world
    }

    /// What a step sends when `heard` says whether the authority had
    /// anything to say: everything that waits, and then, if it had, the
    /// player's own state.
    pub open spec fn outgoing(self, heard: bool) -> Seq<Outgoing> {
        if heard {
            self.to_send.push(self.heartbeat())
        } else {
            self.to_send
        }
    }
}

impl Replica {
    /// Whether the replica is sound: its model and its connection are.
    pub closed spec fn wf(&self) -> bool {
        self.model.wf() && self.connection.wf()
    }

    /// A sound replica has a sound connection.
    pub proof fn lemma_wf_view(&self)
        requires
            self.wf(),
        ensures
            self@.connection.wf(),
    {
    }

    /// The replica of a client that has just been welcomed. A player that the
    /// client brings along takes the identifier that the welcome assigns;
    /// without one, the client moves the player that the welcome shows under
    /// that identifier.
    pub fn new(player: Option<Player>, welcome: WelcomeMessage, connection: Connection) -> (r: Self)
        requires
            welcome.model.wf(),
            connection.wf(),
            player is None ==> welcome.model@.world.players.contains_key(welcome.player_id),
        ensures
            r.wf(),
            r@ == (ReplicaView {
                player: match player {
                    Some(player) => Player { id: welcome.player_id, ..player },
                    None => welcome.model@.world.players[welcome.player_id],
                },
                model: welcome.model@,
                connection,
                to_send: Seq::empty(),
            }),
    {
        let player = match player {
            Some(mut player) => {
                player.id = welcome.player_id;
                player
            },
            None => match welcome.model.player(welcome.player_id) {
                Some(player) => player.clone(),
                None => vstd::pervasive::unreached(),
            },
        };
        Replica { player, model: welcome.model, connection, to_send: Vec::new() }
    }

    /// The replica of the world.
    pub fn model(&self) -> (r: &Model)
        ensures
            r@ == self@.model,
            self.wf() ==> r.wf(),
    {
        &self.model
    }

    /// The connection.
    pub fn connection(&self) -> (r: &Connection)
        ensures
            *r == self@.connection,
    {
        &self.connection
    }

    /// How many messages wait to be sent.
    pub fn queued(&self) -> (r: usize)
        ensures
            r == self@.to_send.len(),
    {
        self.to_send.len()
    }

    /// Puts a message in line to be sent by the next step.
    pub fn queue(&mut self, message: ClientMessage, cascade: Cascade)
        ensures
            final(self)@ == (ReplicaView {
                to_send: old(self)@.to_send.push(Outgoing { message, cascade }),
                ..old(self)@
            }),
            old(self).wf() ==> final(self).wf(),
    {
        self.to_send.push(Outgoing { message, cascade });
    }

    /// Puts an update that has arrived over the link where the next step
    /// finds it.
    pub fn deliver(&mut self, events: Vec<Event>)
        requires
            old(self).wf(),
            old(self)@.connection is Remote,
        ensures
            final(self).wf(),
            final(self)@.connection matches Connection::Remote { arrived, outgoing } && arrived@
                == old(self)@.connection->arrived@.push(ServerMessage::Update(events)) && outgoing
                == old(self)@.connection->outgoing,
            final(self)@ == (ReplicaView { connection: final(self)@.connection, ..old(self)@ }),
    {
        self.connection.deliver(events);
    }

    /// Takes away what was sent over the link, oldest first, to be
    /// transmitted.
    pub fn take_outgoing(&mut self) -> (r: Vec<ClientMessage>)
        requires
            old(self).wf(),
        ensures
            final(self).wf(),
            match old(self)@.connection {
                Connection::Local { .. } => r@.len() == 0 && final(self)@ == old(self)@,
                Connection::Remote { arrived, outgoing } => {
                    &&& r == outgoing
                    &&& final(self)@.connection matches Connection::Remote {
                        arrived: left,
                        outgoing: none,
                    } && left == arrived && none@.len() == 0
                    &&& final(self)@ == (ReplicaView {
                        connection: final(self)@.connection,
                        ..old(self)@
                    })
                },
            },
    {
        self.connection.take_outgoing()
    }

    /// One step of keeping in line with the authority, after `elapsed`
    /// microseconds. Hears what the authority has to say; sends what waits,
    /// and after it the player's own state if the authority said anything;
    /// and folds into the replica, in order, every event that was heard and
    /// every event that an authority of one's own made of what was sent.
    pub fn sync(&mut self, elapsed: u32)
        requires
            old(self).wf(),
            old(self)@.connection matches Connection::Local { model, .. } ==> model@.next_id + 2 * (
            old(self)@.to_send.len() + 1) <= usize::MAX,
        ensures
            final(self).wf(),
            final(self)@.player == old(self)@.player,
            final(self)@.to_send == Seq::<Outgoing>::empty(),
            old(self)@.mirrors() ==> final(self)@.mirrors(),
            match old(self)@.connection {
                Connection::Local { next_tick, model } => {
                    let due = ticks_due(next_tick - elapsed, Connection::period(model@));
                    let sent = old(self)@.outgoing(due > 0);
                    &&& final(self)@.connection matches Connection::Local {
                        next_tick: timer,
                        model: after,
                    } && timer == next_tick - elapsed + due * Connection::period(model@) && after@
                        == after_proposals(model@, sent)
                    &&& final(self)@.model == (ModelView {
                        world: old(self)@.model.world.apply_all(events_of_proposals(model@, sent)),
                        ..old(self)@.model
                    })
                },
                Connection::Remote { arrived, outgoing } => {
                    let sent = old(self)@.outgoing(arrived@.len() > 0);
                    &&& final(self)@.connection matches Connection::Remote {
                        arrived: none,
                        outgoing: queued,
                    } && none@.len() == 0 && queued@ == outgoing@ + messages_of(sent)
                    &&& final(self)@.model == (ModelView {
                        world: old(self)@.model.world.apply_all(all_events(arrived@)),
                        ..old(self)@.model
                    })
                },
            },
    {
        let mut messages = self.connection.new_messages(elapsed);
        let ghost heard = messages@;
        let ghost listening = self.connection;
        let mut to_send: Vec<Outgoing> = Vec::new();
        std::mem::swap(&mut self.to_send, &mut to_send);
        if messages.len() > 0 {
            to_send.push(
                Outgoing {
                    message: ClientMessage::Event(Event::PlayerUpdated(self.player.clone())),
                    cascade: Cascade {
                        block: Loot { position: self.player.position, value: 0 },
                        chest: None,
                    },
                },
            );
        }
        assert(to_send@ == old(self)@.outgoing(heard.len() > 0));
        let mut i: usize = 0;
        while i < to_send.len()
            invariant
                i <= to_send.len(),
                self.model == old(self).model,
                self.player == old(self).player,
                self.to_send@.len() == 0,
                self.connection.wf(),
                forall|k: int| 0 <= k < messages@.len() ==> #[trigger] messages@[k] is Update,
                match listening {
                    Connection::Local { next_tick, model } => {
                        &&& self.connection matches Connection::Local { next_tick: timer, model: now }
                            && timer == next_tick && now@ == after_proposals(
                            model@,
                            to_send@.take(i as int),
                        )
                        &&& model@.next_id + 2 * to_send@.len() <= usize::MAX
                        &&& all_events(messages@) == events_of_proposals(
                            model@,
                            to_send@.take(i as int),
                        )
                    },
                    Connection::Remote { arrived, outgoing } => {
                        &&& self.connection matches Connection::Remote {
                            arrived: none,
                            outgoing: queued,
                        } && none@.len() == 0 && queued@ == outgoing@ + messages_of(
                            to_send@.take(i as int),
                        )
                        &&& messages@ == heard
                    },
                },
            decreases to_send.len() - i,
        {
            let next = to_send[i].clone();
            let ghost before = messages@;
            proof {
                assert(to_send@.take(i + 1).drop_last() =~= to_send@.take(i as int));
                assert(to_send@.take(i + 1).last() == next);
                if let Connection::Local { next_tick, model } = listening {
                    lemma_replica_keeps_up(model@, to_send@.take(i as int));
                }
            }
            match self.connection.send(self.player.id, next.message, next.cascade) {
                Some(update) => {
                    messages.push(update);
                    proof {
                        lemma_all_events_push(before, update);
                    }
                },
                None => {
                    proof {
                        assert(messages_of(to_send@.take(i + 1)) =~= messages_of(
                            to_send@.take(i as int),
                        ).push(next.message));
                    }
                },
            }
            i += 1;
        }
        assert(to_send@.take(to_send.len() as int) =~= to_send@);
        let ghost told = self.connection;
        let mut j: usize = 0;
        while j < messages.len()
            invariant
                j <= messages.len(),
                self.model.wf(),
                self.connection == told,
                self.player == old(self).player,
                self.to_send@.len() == 0,
                forall|k: int| 0 <= k < messages@.len() ==> #[trigger] messages@[k] is Update,
                self.model@ == (ModelView {
                    world: old(self)@.model.world.apply_all(all_events(messages@.take(j as int))),
                    ..old(self)@.model
                }),
            decreases messages.len() - j,
        {
            proof {
                assert(messages@.take(j + 1) =~= messages@.take(j as int).push(messages@[j as int]));
                lemma_all_events_push(messages@.take(j as int), messages@[j as int]);
                lemma_apply_all_concat(
                    old(self)@.model.world,
                    all_events(messages@.take(j as int)),
                    messages@[j as int].events(),
                );
            }
            match &messages[j] {
                ServerMessage::Update(events) => {
                    self.model.replay(events);
                },
                ServerMessage::Welcome(_) => {},
            }
            j += 1;
        }
        assert(messages@.take(messages.len() as int) =~= messages@);
        assert(self@.to_send =~= Seq::<Outgoing>::empty());
        proof {
            if let Connection::Local { next_tick, model } = old(self)@.connection {
                lemma_replica_keeps_up(model@, to_send@);
            }
        }
    }

    /// Says goodbye when the client goes: over a link, queues the message
    /// that the player has left. An authority of one's own goes with the
    /// client and is told nothing.
    pub fn leave(&mut self)
        requires
            old(self).wf(),
        ensures
            final(self).wf(),
            match old(self)@.connection {
                Connection::Local { .. } => final(self)@ == old(self)@,
                Connection::Remote { arrived, outgoing } => {
                    &&& final(self)@.connection matches Connection::Remote {
                        arrived: kept,
                        outgoing: queued,
                    } && kept == arrived && queued@ == outgoing@.push(
                        ClientMessage::Event(Event::PlayerLeft(old(self)@.player.id)),
                    )
                    &&& final(self)@ == (ReplicaView {
                        connection: final(self)@.connection,
                        ..old(self)@
                    })
                },
            },
    {
        match &mut self.connection {
            Connection::Remote { arrived, outgoing } => {
                outgoing.push(ClientMessage::Event(Event::PlayerLeft(self.player.id)));
            },
            Connection::Local { .. } => {},
        }
    }
}

} // verus!
