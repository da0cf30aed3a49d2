//! The authoritative host's side of replication.
//!
//! Spawns and despawns travel on a reliable, ordered channel: they wait in a
//! first-in-first-out queue until the transport has taken them.  Cell state
//! travels unreliably, once per tick, tagged with the tick it belongs to.

use crate::entity::entity_index;
use crate::lifecycle::{CellDespawnEvent, FoodDespawnEvent};
use crate::messages::{CellParams, CellState, EntityId, ServerMessage, Tick, Vector};
use bevy::prelude::Entity;
use bevy_quinnet::shared::QuinnetError;
use std::collections::VecDeque;
use vstd::prelude::*;

verus! {

/// To whom a queued message goes.
#[derive(Clone, Copy, Debug, PartialEq, Eq, Structural)]
pub enum Recipient {
    /// Every connected observer.
    Broadcast,
    /// The observer with this connection id.
    User(u64),
}

/// How the transport answered an attempt to send the message at the head of
/// the queue.
#[derive(Clone, Copy, Debug, PartialEq, Eq, Structural)]
pub enum SendOutcome {
    /// The transport took the message.
    Sent,
    /// The channel is full for now; nothing is wrong with the connection.
    QueueFull,
    /// The connection is broken or the peer unknown.
    Failed,
}

/// `bevy_quinnet::shared::QuinnetError`: what the transport reports when it
/// could not take a message.  Values are carried through; nothing is known of
/// their variants.
#[verifier::external_type_specification]
#[verifier::external_body]
pub struct ExQuinnetError(QuinnetError);

/// Whether a transport error is the variant `FullQueue`: the channel cannot
/// take the message now without blocking.
pub uninterp spec fn reports_full_queue(error: QuinnetError) -> bool;

/// Tells `QuinnetError::FullQueue` from every other variant of the
/// transport's error type.
#[verifier::external_body]
fn is_full_queue(error: &QuinnetError) -> (full: bool)
    ensures
        full == reports_full_queue(*error),
{
    matches!(error, QuinnetError::FullQueue)
}

/// How an answer of the transport counts: success is success, a full
/// channel is transient, every other error is fatal for the connection.
pub open spec fn outcome_of(result: Result<(), QuinnetError>) -> SendOutcome {
    match result {
        Ok(_) => SendOutcome::Sent,
        Err(error) => if reports_full_queue(error) {
            SendOutcome::QueueFull
        } else {
            SendOutcome::Failed
        },
    }
}

/// Classifies the transport's answer to one attempt to send.
pub fn classify(result: &Result<(), QuinnetError>) -> (outcome: SendOutcome)
    ensures
        outcome == outcome_of(*result),
{
    match result {
        Ok(_) => SendOutcome::Sent,
        Err(error) => if is_full_queue(error) {
            SendOutcome::QueueFull
        } else {
            SendOutcome::Failed
        },
    }
}

/// A message together with its addressee.
pub type Outbound = (ServerMessage, Recipient);

/// What is left of `queue` when its head has been settled with `outcome`.
pub open spec fn settled(queue: Seq<Outbound>, outcome: SendOutcome) -> Seq<Outbound> {
    if queue.len() == 0 || outcome == SendOutcome::QueueFull {
        queue
    } else {
        queue.drop_first()
    }
}

/// Whether sending goes on after the head of `queue` met `outcome`.
pub open spec fn goes_on(queue: Seq<Outbound>, outcome: SendOutcome) -> bool {
    outcome != SendOutcome::QueueFull && queue.len() > 1
}

/// What is left of `queue` after a whole round of sending in which the
/// transport answered with `outcomes`, one per attempt.
pub open spec fn after_round(queue: Seq<Outbound>, outcomes: Seq<SendOutcome>) -> Seq<Outbound>
    decreases outcomes.len(),
{
    if outcomes.len() == 0 {
        queue
    } else if goes_on(queue, outcomes[0]) {
        after_round(settled(queue, outcomes[0]), outcomes.drop_first())
    } else {
        settled(queue, outcomes[0])
    }
}

/// Reliable messages waiting for the transport, oldest first.
pub struct MessageQueue(VecDeque<Outbound>);

impl View for MessageQueue {
    type V = Seq<Outbound>;

    closed spec fn view(&self) -> Seq<Outbound> {
        self.0@
    }
}

impl MessageQueue {
    /// An empty queue.
    pub fn new() -> (queue: Self)
        ensures
            queue@ == Seq::<Outbound>::empty(),
    {
        MessageQueue(VecDeque::new())
    }

    /// Number of messages waiting.
    pub fn len(&self) -> (len: usize)
        ensures
            len == self@.len(),
    {
        self.0.len()
    }

    /// Appends `message` for `recipient` behind everything already waiting.
    pub fn add(&mut self, recipient: Recipient, message: ServerMessage)
        ensures
            final(self)@ == old(self)@.push((message, recipient)),
    {
        self.0.push_back((message, recipient));
    }

    /// The message to send next, if any: the oldest one.
    pub fn front(&self) -> (head: Option<&Outbound>)
        ensures
            head is Some <==> self@.len() > 0,
            head matches Some(outbound) ==> *outbound == self@[0],
    {
        if self.0.len() > 0 {
            Some(&self.0[0])
        } else {
            None
        }
    }

    /// Settles the head of the queue according to what the transport said.
    ///
    /// A message that was sent leaves the queue.  So does one whose
    /// connection failed: it is dropped.  On a full channel the queue stays
    /// as it is, for a retry in a later round.  The result says whether the
    /// caller should go on with the next message in this round.
    pub fn settle(&mut self, outcome: SendOutcome) -> (more: bool)
        ensures
            final(self)@ == settled(old(self)@, outcome),
            more == goes_on(old(self)@, outcome),
    {
        match outcome {
            SendOutcome::QueueFull => false,
            _ => {
                let _ = self.0.pop_front();
                self.0.len() > 0
            },
        }
    }
}

impl Default for MessageQueue {
    /// An empty queue.
    fn default() -> (queue: Self)
        ensures
            queue@ == Seq::<Outbound>::empty(),
    {
        MessageQueue::new()
    }
}

/// Number of the tick whose state is broadcast next.
#[derive(Clone, Copy, Debug, PartialEq, Eq, Structural)]
pub struct TickCounter(pub u64);

/// One cell as the host reads it from its world: handle, geometry, state.
#[derive(Debug)]
pub struct CellRecord {
    pub entity: Entity,
    pub params: CellParams,
    pub state: CellState,
}

/// One food item as the host reads it from its world: handle and position.
#[derive(Clone, Copy, Debug)]
pub struct FoodRecord {
    pub entity: Entity,
    pub position: Vector,
}

/// The spawn announcement for `cell`.
pub open spec fn cell_spawn_message(cell: CellRecord) -> ServerMessage {
    ServerMessage::CellSpawn(EntityId(entity_index(cell.entity)), cell.params, cell.state)
}

/// The spawn announcement for `food`.
pub open spec fn food_spawn_message(food: FoodRecord) -> ServerMessage {
    ServerMessage::FoodSpawn(EntityId(entity_index(food.entity)), food.position)
}

/// Spawn announcements for `cells`, in order, each addressed to `recipient`.
pub open spec fn cell_spawns(cells: Seq<CellRecord>, recipient: Recipient) -> Seq<Outbound> {
    Seq::new(cells.len(), |i: int| (cell_spawn_message(cells[i]), recipient))
}

/// Spawn announcements for `food`, in order, each addressed to `recipient`.
pub open spec fn food_spawns(food: Seq<FoodRecord>, recipient: Recipient) -> Seq<Outbound> {
    Seq::new(food.len(), |i: int| (food_spawn_message(food[i]), recipient))
}

/// Despawn announcements for the cells of `events`, in order, to everyone.
pub open spec fn cell_despawns(events: Seq<CellDespawnEvent>) -> Seq<Outbound> {
    Seq::new(
        events.len(),
        |i: int| (ServerMessage::CellDespawn(EntityId(entity_index(events[i].0))), Recipient::Broadcast),
    )
}

/// Despawn announcements for the food items of `events`, in order, to everyone.
pub open spec fn food_despawns(events: Seq<FoodDespawnEvent>) -> Seq<Outbound> {
    Seq::new(
        events.len(),
        |i: int| (ServerMessage::FoodDespawn(EntityId(entity_index(events[i].0))), Recipient::Broadcast),
    )
}

/// State broadcasts for `cells` at `tick`, in order.
pub open spec fn cell_updates(tick: u64, cells: Seq<(Entity, CellState)>) -> Seq<ServerMessage> {
    Seq::new(
        cells.len(),
        |i: int| ServerMessage::CellUpdate(Tick(tick), EntityId(entity_index(cells[i].0)), cells[i].1),
    )
}

fn enqueue_cell_spawns(message_queue: &mut MessageQueue, cells: Vec<CellRecord>, recipient: Recipient)
    ensures
        final(message_queue)@ == old(message_queue)@ + cell_spawns(cells@, recipient),
{
    let ghost before = message_queue@;
    for cell in iter: cells
        invariant
            iter.seq() == cells@,
            message_queue@ == before + cell_spawns(cells@.take(iter.index() as int), recipient),
    {
        let ghost done = cells@.take(iter.index() as int);
        let CellRecord { entity, params, state } = cell;
        message_queue.add(recipient, ServerMessage::cell_spawn(entity, params, state));
        assert(cells@.take(iter.index() + 1) == done.push(cell));
        assert(cell_spawns(done.push(cell), recipient) == cell_spawns(done, recipient).push(
            (cell_spawn_message(cell), recipient),
        ));
    }
    assert(cells@.take(cells@.len() as int) == cells@);
}

fn enqueue_food_spawns(message_queue: &mut MessageQueue, food: Vec<FoodRecord>, recipient: Recipient)
    ensures
        final(message_queue)@ == old(message_queue)@ + food_spawns(food@, recipient),
{
    let ghost before = message_queue@;
    for item in iter: food
        invariant
            iter.seq() == food@,
            message_queue@ == before + food_spawns(food@.take(iter.index() as int), recipient),
    {
        let ghost done = food@.take(iter.index() as int);
        message_queue.add(recipient, ServerMessage::food_spawn(item.entity, item.position));
        assert(food@.take(iter.index() + 1) == done.push(item));
        assert(food_spawns(done.push(item), recipient) == food_spawns(done, recipient).push(
            (food_spawn_message(item), recipient),
        ));
    }
    assert(food@.take(food@.len() as int) == food@);
}

/// A new observer connected: queues the whole world for it.
///
/// Every live cell, then every food item, is announced by a spawn message
/// addressed to the newcomer alone, behind whatever was already waiting.
pub fn connect_event_handler(
    message_queue: &mut MessageQueue,
    id: u64,
    cells: Vec<CellRecord>,
    food: Vec<FoodRecord>,
)
    ensures
        final(message_queue)@ == old(message_queue)@ + cell_spawns(cells@, Recipient::User(id))
            + food_spawns(food@, Recipient::User(id)),
{
    enqueue_cell_spawns(message_queue, cells, Recipient::User(id));
    enqueue_food_spawns(message_queue, food, Recipient::User(id));
}

/// Queues this tick's changes of the cell population for every observer:
/// first the cells that appeared, then the cells that were marked for removal.
pub fn cell_spawn_handler(
    message_queue: &mut MessageQueue,
    new_cells: Vec<CellRecord>,
    despawned: Vec<CellDespawnEvent>,
)
    ensures
        final(message_queue)@ == old(message_queue)@ + cell_spawns(new_cells@, Recipient::Broadcast)
            + cell_despawns(despawned@),
{
    enqueue_cell_spawns(message_queue, new_cells, Recipient::Broadcast);
    let ghost before = message_queue@;
    for event in iter: despawned
        invariant
            iter.seq() == despawned@,
            message_queue@ == before + cell_despawns(despawned@.take(iter.index() as int)),
    {
        let ghost done = despawned@.take(iter.index() as int);
        message_queue.add(Recipient::Broadcast, ServerMessage::cell_despawn(event.0));
        assert(despawned@.take(iter.index() + 1) == done.push(event));
        assert(cell_despawns(done.push(event)) == cell_despawns(done).push(
            (ServerMessage::CellDespawn(EntityId(entity_index(event.0))), Recipient::Broadcast),
        ));
    }
    assert(despawned@.take(despawned@.len() as int) == despawned@);
}

/// Queues this tick's changes of the food supply for every observer: first
/// the items that appeared, then the items that were marked for removal.
pub fn food_spawn_handler(
    message_queue: &mut MessageQueue,
    new_food: Vec<FoodRecord>,
    despawned: Vec<FoodDespawnEvent>,
)
    ensures
        final(message_queue)@ == old(message_queue)@ + food_spawns(new_food@, Recipient::Broadcast)
            + food_despawns(despawned@),
{
    enqueue_food_spawns(message_queue, new_food, Recipient::Broadcast);
    let ghost before = message_queue@;
    for event in iter: despawned
        invariant
            iter.seq() == despawned@,
            message_queue@ == before + food_despawns(despawned@.take(iter.index() as int)),
    {
        let ghost done = despawned@.take(iter.index() as int);
        message_queue.add(Recipient::Broadcast, ServerMessage::food_despawn(event.0));
        assert(despawned@.take(iter.index() + 1) == done.push(event));
        assert(food_despawns(done.push(event)) == food_despawns(done).push(
            (ServerMessage::FoodDespawn(EntityId(entity_index(event.0))), Recipient::Broadcast),
        ));
    }
    assert(despawned@.take(despawned@.len() as int) == despawned@);
}

/// Produces this tick's state broadcast and advances the tick counter.
///
/// Each cell gets one update tagged with the current tick, in the order
/// given.  The counter then moves on by one, so that no two rounds share a
/// tag.  The messages go out unreliably: they are handed back, not queued.
pub fn update_cells(tick: &mut TickCounter, cells: Vec<(Entity, CellState)>) -> (updates: Vec<
    ServerMessage,
>)
    requires
        old(tick).0 < u64::MAX,
    ensures
        updates@ == cell_updates(old(tick).0, cells@),
        final(tick).0 == old(tick).0 + 1,
{
    let now = tick.0;
    let mut updates: Vec<ServerMessage> = Vec::new();
    for cell in iter: cells
        invariant
            iter.seq() == cells@,
            updates@ == cell_updates(now, cells@.take(iter.index() as int)),
    {
        let ghost done = cells@.take(iter.index() as int);
        updates.push(ServerMessage::cell_update(now, cell.0, cell.1));
        assert(cells@.take(iter.index() + 1) == done.push(cell));
        assert(cell_updates(now, done.push(cell)) == cell_updates(now, done).push(
            ServerMessage::CellUpdate(Tick(now), EntityId(entity_index(cell.0)), cell.1),
        ));
    }
    assert(cells@.take(cells@.len() as int) == cells@);
    tick.0 = now + 1;
    updates
}

/// A round of sending never reorders or loses what it leaves behind: the
/// queue after the round is the queue before it without some of its oldest
/// messages, at most one per answer of the transport.
pub proof fn lemma_round_leaves_a_suffix(queue: Seq<Outbound>, outcomes: Seq<SendOutcome>)
    ensures
        after_round(queue, outcomes).len() <= queue.len(),
        queue.len() - after_round(queue, outcomes).len() <= outcomes.len(),
        after_round(queue, outcomes) == queue.skip(queue.len() - after_round(queue, outcomes).len()),
    decreases outcomes.len(),
{
    if outcomes.len() == 0 {
        assert(queue.skip(0) == queue);
    } else {
        let next = settled(queue, outcomes[0]);
        if goes_on(queue, outcomes[0]) {
            lemma_round_leaves_a_suffix(next, outcomes.drop_first());
            let rest = after_round(next, outcomes.drop_first());
            assert(next == queue.skip(1));
            assert(queue.skip(1).skip(next.len() - rest.len()) == queue.skip(
                1 + (next.len() - rest.len()),
            ));
        } else if next.len() == queue.len() {
            assert(queue.skip(0) == queue);
        } else {
            assert(next == queue.skip(1));
        }
    }
}

/// Backpressure loses nothing: a round whose first answer is a full channel
/// leaves the queue exactly as it was.
pub proof fn lemma_full_channel_keeps_queue(queue: Seq<Outbound>, outcomes: Seq<SendOutcome>)
    requires
        outcomes.len() > 0,
        outcomes[0] == SendOutcome::QueueFull,
    ensures
        after_round(queue, outcomes) == queue,
{
}

/// A round in which the transport never reports a full channel, and answers
/// at least as often as there are messages, empties the queue.
pub proof fn lemma_round_without_backpressure_drains(queue: Seq<Outbound>, outcomes: Seq<SendOutcome>)
    requires
        outcomes.len() >= queue.len(),
        forall|i: int| 0 <= i < outcomes.len() ==> outcomes[i] != SendOutcome::QueueFull,
    ensures
        after_round(queue, outcomes).len() == 0,
    decreases outcomes.len(),
{
    if outcomes.len() > 0 && goes_on(queue, outcomes[0]) {
        let rest = outcomes.drop_first();
        assert forall|i: int| 0 <= i < rest.len() implies rest[i] != SendOutcome::QueueFull by {
            assert(rest[i] == outcomes[i + 1]);
        }
        lemma_round_without_backpressure_drains(settled(queue, outcomes[0]), rest);
    }
}

} // verus!
