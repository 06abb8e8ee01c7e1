//! The authority over one world: the model, the log of the events that it
//! went through, and a cursor into the log for every client.

use crate::event::Event;
use crate::ids::Id;
use crate::model::Cascade;
use crate::model::Model;
use crate::model::ModelView;
use crate::net::ClientMessage;
use crate::net::ServerMessage;
use crate::player::Looks;
use std::collections::HashMap;
use std::collections::VecDeque;
use vstd::prelude::*;
use vstd::std_specs::hash::spec_hash_map_iter;
use vstd::std_specs::iter::IteratorSpec;

verus! {

/// What the authority holds, as a reader of the log sees it.
#[verifier::ext_equal]
pub ghost struct ServerView {
    /// The model.
    pub model: ModelView,
    /// Every event that was ever appended, oldest first. The place of an
    /// event in this list is its index.
    pub history: Seq<Event>,
    /// The index of the oldest event that is still retained.
    pub first: nat,
    /// For every registered client, the index of the next event that it has
    /// not been given.
    pub cursors: Map<Id, nat>,
}

impl ServerView {
    /// The events that are still retained, oldest first.
    pub open spec fn retained(self) -> Seq<Event> {
        self.history.subrange(self.first as int, self.history.len() as int)
    }

    /// The events that a registered client has not been given, oldest first.
    pub open spec fn backlog(self, client: Id) -> Seq<Event> {
        self.history.subrange(self.cursors[client] as int, self.history.len() as int)
    }

    /// Whether `index` is the lowest index that any registered client may
    /// still ask for: the least of the cursors, or the index of the next
    /// event to come where no client is registered.
    pub open spec fn is_floor(self, index: nat) -> bool {
        &&& forall|client: Id| #[trigger]
            self.cursors.contains_key(client) ==> index <= self.cursors[client]
        &&& index <= self.history.len()
        &&& index == self.history.len() || exists|client: Id| #[trigger]
            self.cursors.contains_key(client) && self.cursors[client] == index
    }

    /// Whether the log is consistent: no cursor points before the oldest
    /// retained event or beyond the next event to come.
    pub open spec fn consistent(self) -> bool {
        &&& self.first <= self.history.len()
        &&& forall|client: Id| #[trigger]
            self.cursors.contains_key(client) ==> self.first <= self.cursors[client]
                <= self.history.len()
    }
}

/// The authority over one world.
pub struct ServerState {
    model: Model,
    events: VecDeque<Event>,
    next_event_index: usize,
    first_event_index: usize,
    clients_next_event: HashMap<usize, usize>,
    history: Ghost<Seq<Event>>,
}

impl View for ServerState {
    type V = ServerView;

    closed spec fn view(&self) -> ServerView {
        ServerView {
            model: self.model@,
            history: self.history@,
            first: self.first_event_index as nat,
            cursors: Map::new(
                |client: Id| self.clients_next_event@.contains_key(client.0),
                |client: Id| self.clients_next_event@[client.0] as nat,
            ),
        }
    }
}

impl ServerState {
    /// What holds of every authority: its model is well formed, its log is
    /// consistent, and it retains exactly the events from the oldest retained
    /// index on.
    pub closed spec fn wf(&self) -> bool {
        &&& self.model.wf()
        &&& self.next_event_index == self.history@.len()
        &&& self.events@ == self@.retained()
        &&& self@.consistent()
    }

    /// A well-formed authority has a consistent log: it retains every event
    /// that a registered client may still ask for.
    pub proof fn lemma_wf_view(&self)
        requires
            self.wf(),
        ensures
            self@.consistent(),
    {
    }

    /// The model.
    pub fn model(&self) -> (r: &Model)
        ensures
            r@ == self@.model,
            self.wf() ==> r.wf(),
    {
        &self.model
    }

    /// An authority over a world with nothing logged and nobody registered.
    pub fn new(model: Model) -> (r: Self)
        requires
            model.wf(),
        ensures
            r.wf(),
            r@ == (ServerView {
                model: model@,
                history: Seq::empty(),
                first: 0,
                cursors: Map::empty(),
            }),
    {
        let r = Self {
            model,
            events: VecDeque::new(),
            next_event_index: 0,
            first_event_index: 0,
            clients_next_event: HashMap::new(),
            history: Ghost(Seq::empty()),
        };
        proof {
            assert(r@.cursors =~= Map::<Id, nat>::empty());
            assert(r.events@ =~= r@.retained());
        }
        r
    }

    /// How many more events the log can take.
    pub fn room(&self) -> (r: usize)
        requires
            self.wf(),
        ensures
            r == usize::MAX - self@.history.len(),
    {
        usize::MAX - self.next_event_index
    }

    /// Whether a client is registered.
    pub fn is_registered(&self, client: Id) -> (r: bool)
        ensures
            r == self@.cursors.contains_key(client),
    {
        broadcast use vstd::std_specs::hash::group_hash_axioms;

        self.clients_next_event.contains_key(&client.0)
    }

    /// The index of the next event that a registered client has not been
    /// given.
    pub fn cursor(&self, client: Id) -> (r: Option<usize>)
        ensures
            r matches Some(index) ==> self@.cursors.contains_key(client) && self@.cursors[client]
                == index,
            r is None ==> !self@.cursors.contains_key(client),
    {
        broadcast use vstd::std_specs::hash::group_hash_axioms;

        match self.clients_next_event.get(&client.0) {
            Some(index) => Some(*index),
            None => None,
        }
    }

    /// The index of the oldest event that is still retained.
    pub fn first_event_index(&self) -> (r: usize)
        ensures
            r == self@.first,
    {
        self.first_event_index
    }

    /// The index of the next event to come: the number of events that were
    /// ever appended.
    pub fn next_event_index(&self) -> (r: usize)
        requires
            self.wf(),
        ensures
            r == self@.history.len(),
    {
        self.next_event_index
    }

    /// How many events are retained.
    pub fn retained_len(&self) -> (r: usize)
        requires
            self.wf(),
        ensures
            r == self@.retained().len(),
            r == self@.history.len() - self@.first,
    {
        self.events.len()
    }

    /// Appends events to the log, in order.
    pub fn add_events(&mut self, events: Vec<Event>)
        requires
            old(self).wf(),
            old(self)@.history.len() + events@.len() <= usize::MAX,
        ensures
            final(self).wf(),
            final(self)@ == (ServerView {
                history: old(self)@.history + events@,
                ..old(self)@
            }),
    {
        let ghost before = self.history@;
        let mut i: usize = 0;
        while i < events.len()
            invariant
                i <= events.len(),
                before == old(self)@.history,
                before.len() + events@.len() <= usize::MAX,
                self.wf(),
                self@ == (ServerView {
                    history: before + events@.take(i as int),
                    ..old(self)@
                }),
            decreases events.len() - i,
        {
            let ghost prev = self@;
            let event = events[i].clone();
            self.events.push_back(event);
            self.next_event_index += 1;
            proof {
                self.history@ = self.history@.push(event);
                assert(self@.cursors =~= prev.cursors);
                assert(events@.take(i + 1) =~= events@.take(i as int).push(event));
                assert(self@.history =~= before + events@.take(i + 1));
                assert(self@.retained() =~= prev.retained().push(event));
                assert(self@.consistent());
            }
            i += 1;
        }
        assert(events@.take(events.len() as int) =~= events@);
    }

    /// Drops from the front of the log every event that no registered client
    /// may still ask for.
    pub fn shrink(&mut self)
        requires
            old(self).wf(),
        ensures
            final(self).wf(),
            old(self)@.is_floor(final(self)@.first),
            final(self)@ == (ServerView { first: final(self)@.first, ..old(self)@ }),
    {
        broadcast use vstd::std_specs::hash::group_hash_axioms;

        let mut next_needed_event_index: usize = self.next_event_index;
        for pair in it: self.clients_next_event.iter()
            invariant
                self.wf(),
                *self == *old(self),
                it.seq() == spec_hash_map_iter(&self.clients_next_event).remaining(),
                self.first_event_index <= next_needed_event_index <= self.next_event_index,
                forall|i: int| 0 <= i < it.index() ==> next_needed_event_index <= *(#[trigger] it.seq()[i]).1,
                next_needed_event_index == self.next_event_index || exists|i: int|
                    0 <= i < it.index() && *(#[trigger] it.seq()[i]).1 == next_needed_event_index,
        {
            proof {
                let k = *pair.0;
                assert(self.clients_next_event@.contains_key(k));
                assert(self@.cursors.contains_key(Id(k)));
            }
            if *pair.1 < next_needed_event_index {
                next_needed_event_index = *pair.1;
            }
        }
        proof {
            let pairs = spec_hash_map_iter(&self.clients_next_event).remaining();
            let floor = next_needed_event_index as nat;
            assert forall|client: Id| #[trigger] self@.cursors.contains_key(client) implies floor
                <= self@.cursors[client] by {
                let k = client.0;
                assert(pairs.contains((&k, &self.clients_next_event@[k])));
                let i = choose|i: int|
                    0 <= i < pairs.len() && pairs[i] == (&k, &self.clients_next_event@[k]);
                assert(next_needed_event_index <= *pairs[i].1);
            }
            if floor != self@.history.len() {
                let i = choose|i: int|
                    0 <= i < pairs.len() && *(#[trigger] pairs[i]).1 == next_needed_event_index;
                let k = *pairs[i].0;
                assert(self.clients_next_event@.contains_key(k));
                assert(self@.cursors.contains_key(Id(k)) && self@.cursors[Id(k)] == floor);
            }
            assert(self@.is_floor(floor));
        }
        while self.first_event_index < next_needed_event_index
            invariant
                self.wf(),
                self.first_event_index <= next_needed_event_index <= self.next_event_index,
                self@ == (ServerView { first: self@.first, ..old(self)@ }),
                old(self)@.is_floor(next_needed_event_index as nat),
            decreases next_needed_event_index - self.first_event_index,
        {
            let ghost prev = self@;
            self.events.pop_front();
            self.first_event_index += 1;
            proof {
                assert(self@.cursors =~= prev.cursors);
                assert(self@.retained() =~= prev.retained().subrange(
                    1,
                    prev.retained().len() as int,
                ));
                assert forall|client: Id| #[trigger]
                    self@.cursors.contains_key(client) implies self@.first
                    <= self@.cursors[client] <= self@.history.len() by {
                    assert(old(self)@.cursors.contains_key(client));
                }
            }
        }
    }

    /// Hands a registered client every event that it has not been given,
    /// oldest first, moves its cursor past them, and drops what no client may
    /// still ask for.
    pub fn get_new_events(&mut self, player_id: Id) -> (events: Vec<Event>)
        requires
            old(self).wf(),
            old(self)@.cursors.contains_key(player_id),
        ensures
            final(self).wf(),
            events@ == old(self)@.backlog(player_id),
            final(self)@.cursors == old(self)@.cursors.insert(player_id, old(self)@.history.len()),
            final(self)@.is_floor(final(self)@.first),
            final(self)@ == (ServerView {
                first: final(self)@.first,
                cursors: final(self)@.cursors,
                ..old(self)@
            }),
    {
        broadcast use vstd::std_specs::hash::group_hash_axioms;

        let next_event_index = match self.clients_next_event.get(&player_id.0) {
            Some(index) => *index,
            None => vstd::pervasive::unreached(),
        };
        let mut result: Vec<Event> = Vec::new();
        let mut index: usize = next_event_index;
        while index < self.next_event_index
            invariant
                self.wf(),
                *self == *old(self),
                self.first_event_index <= next_event_index <= index <= self.next_event_index,
                result@ == self@.history.subrange(next_event_index as int, index as int),
            decreases self.next_event_index - index,
        {
            let event = self.events[index - self.first_event_index].clone();
            result.push(event);
            proof {
                assert(self@.retained()[index - self.first_event_index] == self@.history[index as int]);
                assert(self@.history.subrange(next_event_index as int, index + 1)
                    =~= self@.history.subrange(next_event_index as int, index as int).push(event));
            }
            index += 1;
        }
        self.clients_next_event.insert(player_id.0, self.next_event_index);
        proof {
            assert(self@.cursors =~= old(self)@.cursors.insert(
                player_id,
                old(self)@.history.len(),
            ));
            assert forall|client: Id| #[trigger] self@.cursors.contains_key(client) implies self@.first
                <= self@.cursors[client] <= self@.history.len() by {
                if client != player_id {
                    assert(old(self)@.cursors.contains_key(client));
                }
            }
        }
        self.shrink();
        result
    }

    /// Lets a new client in: welcomes a player into the model, logs its
    /// arrival, and registers it with its cursor behind everything logged so
    /// far, since the welcome carries the whole world. Returns the player's
    /// identifier and what to send to the client, in order: the welcome, then
    /// an update without events.
    pub fn connect(&mut self, looks: Looks) -> (r: (Id, Vec<ServerMessage>))
        requires
            old(self).wf(),
            old(self)@.model.next_id < usize::MAX,
            old(self)@.history.len() < usize::MAX,
        ensures
            final(self).wf(),
            r.0 == Id(old(self)@.model.next_id),
            r.1@.len() == 2,
            r.1@[0] matches ServerMessage::Welcome(welcome) && welcome.player_id == r.0
                && welcome.model.wf() && welcome.model@ == final(self)@.model,
            r.1@[1] matches ServerMessage::Update(events) && events@.len() == 0,
            final(self)@.history.len() == old(self)@.history.len() + 1,
            final(self)@.history.last() matches Event::PlayerJoined(player) && player.is_fresh(
                r.0,
                looks,
            ),
            final(self)@ == (ServerView {
                model: ModelView {
                    world: old(self)@.model.world.apply(final(self)@.history.last()),
                    next_id: (old(self)@.model.next_id + 1) as usize,
                    ..old(self)@.model
                },
                history: old(self)@.history.push(final(self)@.history.last()),
                cursors: old(self)@.cursors.insert(r.0, final(self)@.history.len()),
                ..old(self)@
            }),
    {
        broadcast use vstd::std_specs::hash::group_hash_axioms;

        let (welcome, events) = self.model.welcome(looks);
        let ghost joined = events@[0];
        proof {
            assert(self@.cursors =~= old(self)@.cursors);
            assert(self.events@ =~= self@.retained());
            assert(events@ =~= seq![joined]);
        }
        self.add_events(events);
        let player_id = welcome.player_id;
        let next_event_index = self.next_event_index;
        let ghost logged = self@;
        self.clients_next_event.insert(player_id.0, next_event_index);
        proof {
            assert(self@.cursors =~= logged.cursors.insert(player_id, next_event_index as nat));
            assert(logged.history =~= old(self)@.history.push(joined));
            assert forall|client: Id| #[trigger] self@.cursors.contains_key(client) implies self@.first
                <= self@.cursors[client] <= self@.history.len() by {
                if client != player_id {
                    assert(logged.cursors.contains_key(client));
                }
            }
        }
        let mut messages: Vec<ServerMessage> = Vec::new();
        messages.push(ServerMessage::Welcome(welcome));
        messages.push(ServerMessage::Update(Vec::new()));
        (player_id, messages)
    }

    /// Takes in what a client sent: lets the model handle the proposal and
    /// logs what came of it. A client that reported its own state is
    /// answered at once with everything that it has not been given, what it
    /// just caused included.
    pub fn receive(&mut self, player_id: Id, message: ClientMessage, cascade: Cascade) -> (r: Option<
        ServerMessage,
    >)
        requires
            old(self).wf(),
            old(self)@.model.next_id <= usize::MAX - 2,
            old(self)@.history.len() <= usize::MAX - 3,
            message.is_heartbeat() ==> old(self)@.cursors.contains_key(player_id),
        ensures
            final(self).wf(),
            ({
                let logged = ServerView {
                    model: old(self)@.model.after_proposal(message.event(), cascade),
                    history: old(self)@.history + old(self)@.model.proposal_events(
                        message.event(),
                        cascade,
                    ),
                    ..old(self)@
                };
                if message.is_heartbeat() {
                    &&& r matches Some(ServerMessage::Update(backlog)) && backlog@ == logged.backlog(
                        player_id,
                    )
                    &&& final(self)@.is_floor(final(self)@.first)
                    &&& final(self)@ == (ServerView {
                        first: final(self)@.first,
                        cursors: logged.cursors.insert(player_id, logged.history.len()),
                        ..logged
                    })
                } else {
                    &&& r is None
                    &&& final(self)@ == logged
                }
            }),
    {
        let send_update = message.is_heartbeat();
        let events = self.model.handle_message(player_id, message, cascade);
        proof {
            assert(self@.cursors =~= old(self)@.cursors);
            assert(self.events@ =~= self@.retained());
        }
        self.add_events(events);
        if send_update {
            Some(ServerMessage::Update(self.get_new_events(player_id)))
        } else {
            None
        }
    }

    /// Lets a client go whose player is in the model: takes the player out
    /// and logs that it left.
    pub fn disconnect(&mut self, player_id: Id)
        requires
            old(self).wf(),
            old(self)@.model.world.players.contains_key(player_id),
            old(self)@.history.len() < usize::MAX,
        ensures
            final(self).wf(),
            final(self)@ == (ServerView {
                model: ModelView {
                    world: old(self)@.model.world.apply(Event::PlayerLeft(player_id)),
                    ..old(self)@.model
                },
                history: old(self)@.history.push(Event::PlayerLeft(player_id)),
                ..old(self)@
            }),
    {
        let events = self.model.drop_player(player_id);
        proof {
            assert(self@.cursors =~= old(self)@.cursors);
            assert(self.events@ =~= self@.retained());
        }
        self.add_events(events);
        proof {
            assert(self@.history =~= old(self)@.history.push(Event::PlayerLeft(player_id)));
        }
    }

    /// Lets the time of one tick pass in the model and logs what came of it.
    /// Returns for how many milliseconds to wait before the next tick.
    pub fn tick(&mut self) -> (wait: u64)
        requires
            old(self).wf(),
        ensures
            final(self).wf(),
            final(self)@ == old(self)@,
            wait == 1000int / (old(self)@.model.ticks_per_second as int),
    {
        let events = self.model.tick();
        proof {
            self.model.lemma_wf_view();
        }
        self.add_events(events);
        proof {
            assert(self@.history =~= old(self)@.history);
        }
        1000 / (self.model.ticks_per_second() as u64)
    }
}

/// Every event that a registered client may still ask for is retained.
pub proof fn lemma_backlog_is_retained(state: ServerView, client: Id)
    requires
        state.consistent(),
        state.cursors.contains_key(client),
    ensures
        state.backlog(client) == state.retained().subrange(
            state.cursors[client] - state.first,
            state.retained().len() as int,
        ),
        forall|index: int|
            state.cursors[client] <= index < state.history.len() ==> state.retained()[index
                - state.first] == state.history[index],
{
    assert(state.backlog(client) =~= state.retained().subrange(
        state.cursors[client] - state.first,
        state.retained().len() as int,
    ));
}

/// A client that has been given everything is next given exactly what was
/// appended since, in the order in which it was appended.
pub proof fn lemma_backlog_is_what_was_appended(
    before: ServerView,
    after: ServerView,
    client: Id,
    appended: Seq<Event>,
)
    requires
        before.cursors.contains_key(client),
        before.cursors[client] == before.history.len(),
        after.history == before.history + appended,
        after.cursors.contains_key(client),
        after.cursors[client] == before.cursors[client],
    ensures
        after.backlog(client) == appended,
{
    assert(after.backlog(client) =~= appended);
}

/// What a client is given in two calls in a row joins without a gap and
/// without an event given twice: together it is the log from where the
/// client stood before the first call to where the log ends at the second.
pub proof fn lemma_backlogs_join(first: ServerView, second: ServerView, client: Id)
    requires
        first.consistent(),
        second.consistent(),
        first.cursors.contains_key(client),
        second.cursors.contains_key(client),
        first.history.len() <= second.history.len(),
        second.history.subrange(0, first.history.len() as int) == first.history,
        second.cursors[client] == first.history.len(),
    ensures
        first.backlog(client) + second.backlog(client) == second.history.subrange(
            first.cursors[client] as int,
            second.history.len() as int,
        ),
{
    let joined = first.backlog(client) + second.backlog(client);
    let whole = second.history.subrange(first.cursors[client] as int, second.history.len() as int);
    assert(joined.len() == whole.len());
    assert forall|i: int| 0 <= i < joined.len() implies joined[i] == whole[i] by {
        if i < first.backlog(client).len() {
            assert(first.history[first.cursors[client] + i] == second.history.subrange(
                0,
                first.history.len() as int,
            )[first.cursors[client] + i]);
        }
    }
    assert(joined =~= whole);
}

/// The floor of a log is one number: the lowest index that a registered
/// client may still ask for.
pub proof fn lemma_floor_is_unique(state: ServerView, one: nat, other: nat)
    requires
        state.is_floor(one),
        state.is_floor(other),
    ensures
        one == other,
{
}

} // verus!
