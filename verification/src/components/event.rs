//! Messages that wait for entities.

use vstd::prelude::*;
use crate::bowtie::entity::{EntityHandle, Message, MessageView};

verus! {

/// The messages that wait for one entity, the latest last.
#[derive(Debug)]
pub struct Queue {
    entity: EntityHandle,
    messages: Vec<Message>,
}

/// A queue as plain values.
pub struct QueueView {
    pub entity: EntityHandle,
    pub messages: Seq<MessageView>,
}

/// The messages of `messages` as plain values.
pub open spec fn messages_view(messages: Seq<Message>) -> Seq<MessageView> {
    Seq::new(messages.len(), |i: int| messages[i]@)
}

impl View for Queue {
    type V = QueueView;

    closed spec fn view(&self) -> QueueView {
        QueueView { entity: self.entity, messages: messages_view(self.messages@) }
    }
}

/// The queues of a component, in the order in which their entities were
/// first heard of.
pub type QueuesView = Seq<QueueView>;

/// The place among the first `n` queues of the queue of `entity`, or `n`.
pub open spec fn queue_position(queues: QueuesView, entity: EntityHandle, n: int) -> int
    decreases n,
{
    if n <= 0 {
        0
    } else {
        let before = queue_position(queues, entity, n - 1);
        if before < n - 1 {
            before
        } else if queues[n - 1].entity == entity {
            n - 1
        } else {
            n
        }
    }
}

/// The place of the queue of `entity`, or the number of queues.
pub open spec fn queue_of(queues: QueuesView, entity: EntityHandle) -> int {
    queue_position(queues, entity, queues.len() as int)
}

/// The messages that wait for `entity`.
pub open spec fn waiting(queues: QueuesView, entity: EntityHandle) -> Seq<MessageView> {
    if queue_of(queues, entity) < queues.len() {
        queues[queue_of(queues, entity)].messages
    } else {
        Seq::empty()
    }
}

/// `queues` with the messages `messages` waiting for `entity`, whose
/// queue comes behind all others where it had none.
pub open spec fn with_waiting(
    queues: QueuesView,
    entity: EntityHandle,
    messages: Seq<MessageView>,
) -> QueuesView {
    if queue_of(queues, entity) < queues.len() {
        queues.update(queue_of(queues, entity), QueueView { entity, messages })
    } else {
        queues.push(QueueView { entity, messages })
    }
}

proof fn lemma_queue_position_stays(queues: QueuesView, entity: EntityHandle, i: int, n: int)
    requires
        0 <= i < n <= queues.len(),
        queue_position(queues, entity, i) == i,
        queues[i].entity == entity,
    ensures
        queue_position(queues, entity, n) == i,
    decreases n,
{
    if n > i + 1 {
        lemma_queue_position_stays(queues, entity, i, n - 1);
    }
}

/// Keeps messages for entities until they are asked for.
#[derive(Debug)]
pub struct EventComponent {
    events: Vec<Queue>,
}

impl View for EventComponent {
    type V = QueuesView;

    closed spec fn view(&self) -> QueuesView {
        Seq::new(self.events@.len(), |i: int| self.events@[i]@)
    }
}

impl EventComponent {
    /// A component for which no message waits.
    pub fn new() -> (res: EventComponent)
        ensures
            res@ == Seq::<QueueView>::empty(),
    {
        let res = EventComponent { events: Vec::new() };
        assert(res@ =~= Seq::<QueueView>::empty());
        res
    }

    /// The name under which the component is known.
    pub fn get_name(&self) -> (res: String)
        ensures
            res@ == "event"@,
    {
        "event".to_owned()
    }

    /// The place of the queue of `entity`; a new, empty queue is made
    /// where it had none.
    fn open_queue(&mut self, entity: EntityHandle) -> (res: usize)
        ensures
            res == queue_of(old(self)@, entity),
            res < final(self)@.len(),
            final(self)@ == with_waiting(old(self)@, entity, waiting(old(self)@, entity)),
            final(self).events@[res as int]@ == final(self)@[res as int],
            final(self)@[res as int].entity == entity,
    {
        let mut i: usize = 0;
        while i < self.events.len()
            invariant
                0 <= i <= self.events.len(),
                *self == *old(self),
                queue_position(self@, entity, i as int) == i,
            decreases self.events.len() - i,
        {
            if self.events[i].entity == entity {
                proof {
                    assert(self@[i as int].entity == entity);
                    lemma_queue_position_stays(self@, entity, i as int, self@.len() as int);
                    assert(self@ =~= with_waiting(old(self)@, entity, waiting(old(self)@, entity)));
                }
                return i;
            }
            assert(self@[i as int].entity != entity);
            i = i + 1;
        }
        self.events.push(Queue { entity, messages: Vec::new() });
        proof {
            assert(messages_view(Seq::<Message>::empty()) =~= Seq::<MessageView>::empty());
            assert(self@ =~= with_waiting(old(self)@, entity, waiting(old(self)@, entity)));
        }
        i
    }

    /// Lets `message` wait for `entity`, behind those that wait already.
    pub fn push_message(&mut self, entity: EntityHandle, message: Message)
        ensures
            final(self)@ == with_waiting(
                old(self)@,
                entity,
                waiting(old(self)@, entity).push(message@),
            ),
    {
        let place = self.open_queue(entity);
        let ghost opened = self@;
        self.events[place].messages.push(message);
        proof {
            let after = with_waiting(
                old(self)@,
                entity,
                waiting(old(self)@, entity).push(message@),
            );
            assert(opened[place as int].messages == waiting(old(self)@, entity));
            assert(self@[place as int].messages =~= opened[place as int].messages.push(message@));
            assert(self@[place as int].entity == entity);
            assert(self@.len() == opened.len());
            assert forall|j: int| 0 <= j < self@.len() && j != place implies self@[j]
                == opened[j] by {}
            assert(place == queue_of(old(self)@, entity));
            assert(after.len() == opened.len());
            assert forall|j: int| 0 <= j < after.len() implies self@[j] == after[j] by {
                if j == place {
                    assert(after[j].entity == entity);
                    assert(self@[j].messages == after[j].messages);
                } else {
                    assert(self@[j] == opened[j]);
                    assert(opened[j] == old(self)@[j]);
                    assert(after[j] == old(self)@[j]);
                }
            }
            assert(self@ =~= after);
        }
    }

    /// Hands out the message that came last for `entity`, if one waits.
    /// An entity that was never heard of gets an empty queue.
    pub fn act(&mut self, entity: EntityHandle) -> (res: Option<Message>)
        ensures
            match res {
                Some(message) => waiting(old(self)@, entity).len() > 0 && message@ == waiting(
                    old(self)@,
                    entity,
                ).last() && final(self)@ == with_waiting(
                    old(self)@,
                    entity,
                    waiting(old(self)@, entity).drop_last(),
                ),
                None => waiting(old(self)@, entity).len() == 0 && final(self)@ == with_waiting(
                    old(self)@,
                    entity,
                    Seq::empty(),
                ),
            },
    {
        let place = self.open_queue(entity);
        let ghost opened = self@;
        let res = self.events[place].messages.pop();
        proof {
            assert(opened[place as int].messages == waiting(old(self)@, entity));
            assert(self@[place as int].entity == entity);
            assert(self@.len() == opened.len());
            assert forall|j: int| 0 <= j < self@.len() && j != place implies self@[j]
                == opened[j] by {}
            if res is Some {
                assert(self@[place as int].messages =~= opened[place as int].messages.drop_last());
                let after = with_waiting(
                    old(self)@,
                    entity,
                    waiting(old(self)@, entity).drop_last(),
                );
                assert(place == queue_of(old(self)@, entity));
            assert(after.len() == opened.len());
            assert forall|j: int| 0 <= j < after.len() implies self@[j] == after[j] by {
                if j == place {
                    assert(after[j].entity == entity);
                    assert(self@[j].messages == after[j].messages);
                } else {
                    assert(self@[j] == opened[j]);
                    assert(opened[j] == old(self)@[j]);
                    assert(after[j] == old(self)@[j]);
                }
            }
                assert(self@ =~= with_waiting(
                    old(self)@,
                    entity,
                    waiting(old(self)@, entity).drop_last(),
                ));
            } else {
                assert(self@[place as int].messages =~= Seq::<MessageView>::empty());
                assert(self@ =~= with_waiting(old(self)@, entity, Seq::empty()));
            }
        }
        res
    }
}

} // verus!
