//! Two-phase removal of entities.
//!
//! Several independent systems may decide within one tick that an entity has
//! to go.  None of them removes it.  Each marks it, and the mark takes effect
//! one flush later, so that whoever looks at the entity during the tick in
//! which it was marked still sees it whole.

use bevy::prelude::Entity;
use vstd::prelude::*;

verus! {

/// Mathematical content of a [`DelayedDespawnQueue`].
pub struct DespawnQueueView {
    /// Marked since the last flush, oldest first.
    pub pending: Seq<Entity>,
    /// Marked before the last flush; the next flush removes these.
    pub current: Seq<Entity>,
}

impl DespawnQueueView {
    /// The queue in which nothing is marked.
    pub open spec fn empty() -> Self {
        DespawnQueueView { pending: Seq::empty(), current: Seq::empty() }
    }

    /// The queue after `entity` was marked.
    pub open spec fn add(self, entity: Entity) -> Self {
        DespawnQueueView { pending: self.pending.push(entity), current: self.current }
    }

    /// The queue after each of `entities` was marked, in order.
    pub open spec fn add_all(self, entities: Seq<Entity>) -> Self {
        DespawnQueueView { pending: self.pending + entities, current: self.current }
    }

    /// What one flush hands over for destruction.
    pub open spec fn doomed(self) -> Seq<Entity> {
        self.current
    }

    /// The queue after one flush.
    pub open spec fn flushed(self) -> Self {
        DespawnQueueView { pending: Seq::empty(), current: self.pending }
    }
}

/// Double-buffered list of entities awaiting removal.
pub struct DelayedDespawnQueue {
    pending: Vec<Entity>,
    current: Vec<Entity>,
}

impl View for DelayedDespawnQueue {
    type V = DespawnQueueView;

    closed spec fn view(&self) -> DespawnQueueView {
        DespawnQueueView { pending: self.pending@, current: self.current@ }
    }
}

impl DelayedDespawnQueue {
    /// A queue with nothing marked.
    pub fn new() -> (queue: Self)
        ensures
            queue@ == DespawnQueueView::empty(),
    {
        DelayedDespawnQueue { pending: Vec::new(), current: Vec::new() }
    }

    /// Marks `entity` for removal.  It stays untouched until the flush after
    /// the next one.
    pub fn add(&mut self, entity: Entity)
        ensures
            final(self)@ == old(self)@.add(entity),
    {
        self.pending.push(entity);
    }

    /// Flushes once: hands back the entities marked before the previous
    /// flush, which the caller now destroys together with everything they
    /// own, and schedules those marked since for the next flush.
    pub fn despawn(&mut self) -> (doomed: Vec<Entity>)
        ensures
            doomed@ == old(self)@.doomed(),
            final(self)@ == old(self)@.flushed(),
    {
        let mut doomed: Vec<Entity> = Vec::new();
        std::mem::swap(&mut doomed, &mut self.current);
        std::mem::swap(&mut self.current, &mut self.pending);
        doomed
    }
}

/// Marking composes: marking a batch is marking its members one by one.
pub proof fn lemma_add_all_is_repeated_add(queue: DespawnQueueView, entities: Seq<Entity>, entity: Entity)
    ensures
        queue.add_all(Seq::empty()) == queue,
        queue.add_all(entities.push(entity)) == queue.add_all(entities).add(entity),
{
    assert(queue.pending + Seq::<Entity>::empty() =~= queue.pending);
    assert(queue.pending + entities.push(entity) =~= (queue.pending + entities).push(entity));
}

/// An entity marked during a tick outlives the flush that ends that tick and
/// is handed over for destruction by the flush after it, never earlier.
///
/// Whatever else is marked in the same tick (`same_tick`) or in the following
/// one (`next_tick`): the first flush destroys exactly what had been scheduled
/// before `entity` was marked, and leaves `entity` scheduled; the second
/// flush destroys exactly what was marked in the first tick, `entity` among it.
pub proof fn lemma_marked_entity_is_removed_by_second_flush(
    queue: DespawnQueueView,
    entity: Entity,
    same_tick: Seq<Entity>,
    next_tick: Seq<Entity>,
)
    ensures
        ({
            let marked = queue.add(entity).add_all(same_tick);
            let after_first = marked.flushed();
            let before_second = after_first.add_all(next_tick);
            &&& marked.doomed() == queue.current
            &&& after_first.current.contains(entity)
            &&& before_second.doomed() == queue.pending.push(entity) + same_tick
            &&& before_second.doomed().contains(entity)
            &&& before_second.flushed().current == next_tick
        }),
{
    let first_tick = queue.pending.push(entity) + same_tick;
    assert(first_tick[queue.pending.len() as int] == entity);
    assert(Seq::<Entity>::empty() + next_tick =~= next_tick);
}

/// The queue after a run of ticks.  In tick `k` the entities of `marks[k]`
/// are marked, then the queue is flushed.
pub open spec fn after_ticks(queue: DespawnQueueView, marks: Seq<Seq<Entity>>) -> DespawnQueueView
    decreases marks.len(),
{
    if marks.len() == 0 {
        queue
    } else {
        after_ticks(queue, marks.drop_last()).add_all(marks.last()).flushed()
    }
}

/// What the flush at the end of the last tick of a run hands over for
/// destruction.
pub open spec fn doomed_in_last_tick(queue: DespawnQueueView, marks: Seq<Seq<Entity>>) -> Seq<Entity>
    recommends
        marks.len() > 0,
{
    after_ticks(queue, marks.drop_last()).add_all(marks.last()).doomed()
}

/// Removal lags marking by exactly one tick.  In a run of ticks that starts
/// with an empty queue, the flush that ends a tick hands over exactly the
/// entities marked in the tick before it, in the order of their marking; the
/// flush that ends the first tick hands over nothing.
pub proof fn lemma_flush_removes_marks_of_previous_tick(marks: Seq<Seq<Entity>>)
    requires
        marks.len() > 0,
    ensures
        after_ticks(DespawnQueueView::empty(), marks).current == marks.last(),
        after_ticks(DespawnQueueView::empty(), marks).pending == Seq::<Entity>::empty(),
        doomed_in_last_tick(DespawnQueueView::empty(), marks) == (if marks.len() == 1 {
            Seq::<Entity>::empty()
        } else {
            marks[marks.len() - 2]
        }),
    decreases marks.len(),
{
    let before = marks.drop_last();
    if before.len() > 0 {
        lemma_flush_removes_marks_of_previous_tick(before);
        assert(before.last() == marks[marks.len() - 2]);
    }
    let queue = after_ticks(DespawnQueueView::empty(), before);
    assert(queue.pending + marks.last() == marks.last());
}

} // verus!
