//! The registry: the storage of the live entities and their identities.

use vstd::prelude::*;
use crate::bowtie::entity::{EntityHandle, EntityView, StandardEntity};

verus! {

/// One place in the registry. Its generation counts the entities that
/// have left it.
#[derive(Debug)]
pub struct Slot {
    pub(crate) generation: u64,
    pub(crate) entity: Option<StandardEntity>,
}

/// A slot as plain values.
pub struct SlotView {
    pub generation: u64,
    pub entity: Option<EntityView>,
}

impl View for Slot {
    type V = SlotView;

    closed spec fn view(&self) -> SlotView {
        SlotView {
            generation: self.generation,
            entity: match self.entity {
                Some(entity) => Some(entity@),
                None => None,
            },
        }
    }
}

/// The slots of a registry, in order.
pub type SlotsView = Seq<SlotView>;

/// Whether `handle` names an entity that lives in `slots`.
pub open spec fn is_live(slots: SlotsView, handle: EntityHandle) -> bool {
    &&& handle.index < slots.len()
    &&& slots[handle.index as int].generation == handle.generation
    &&& slots[handle.index as int].entity is Some
}

/// The entity that `handle` names, if it lives in `slots`.
pub open spec fn entity_of(slots: SlotsView, handle: EntityHandle) -> Option<EntityView> {
    if is_live(slots, handle) {
        slots[handle.index as int].entity
    } else {
        None
    }
}

/// Whether an entity may move into `slot`: it is empty and its generation
/// can still change when that entity leaves.
pub open spec fn is_free(slot: SlotView) -> bool {
    slot.entity is None && slot.generation < u64::MAX
}

/// The first of the first `n` slots that is free, or `n` where none is.
pub open spec fn first_free(slots: SlotsView, n: int) -> int
    decreases n,
{
    if n <= 0 {
        0
    } else {
        let before = first_free(slots, n - 1);
        if before < n - 1 {
            before
        } else if is_free(slots[n - 1]) {
            n - 1
        } else {
            n
        }
    }
}

/// The number of entities among the first `n` slots.
pub open spec fn live_count(slots: SlotsView, n: int) -> int
    decreases n,
{
    if n <= 0 {
        0
    } else {
        live_count(slots, n - 1) + if slots[n - 1].entity is Some {
            1int
        } else {
            0int
        }
    }
}

/// The slot in which the next entity arrives.
pub open spec fn arrival_index(slots: SlotsView) -> int {
    first_free(slots, slots.len() as int)
}

/// The handle that the next entity receives.
pub open spec fn arrival_handle(slots: SlotsView) -> EntityHandle {
    let index = arrival_index(slots);
    EntityHandle {
        index: index as usize,
        generation: if index < slots.len() {
            slots[index].generation
        } else {
            0
        },
    }
}

/// `slots` after `entity` has moved in: into the first free slot, or into
/// a new one behind all others.
pub open spec fn loaded(slots: SlotsView, entity: EntityView) -> SlotsView {
    let index = arrival_index(slots);
    if index < slots.len() {
        slots.update(index, SlotView { generation: slots[index].generation, entity: Some(entity) })
    } else {
        slots.push(SlotView { generation: 0, entity: Some(entity) })
    }
}

/// The generation of a slot after its entity has left.
pub open spec fn next_generation(generation: u64) -> u64 {
    if generation < u64::MAX {
        (generation + 1) as u64
    } else {
        generation
    }
}

/// `slots` after the entity that `handle` names has left; unchanged where
/// `handle` names none.
pub open spec fn unloaded(slots: SlotsView, handle: EntityHandle) -> SlotsView {
    if is_live(slots, handle) {
        slots.update(
            handle.index as int,
            SlotView { generation: next_generation(handle.generation), entity: None },
        )
    } else {
        slots
    }
}

/// The first free slot is free, and no slot before it is.
pub proof fn lemma_first_free(slots: SlotsView, n: int)
    requires
        0 <= n <= slots.len(),
    ensures
        0 <= first_free(slots, n) <= n,
        first_free(slots, n) < n ==> is_free(slots[first_free(slots, n)]),
        forall|j: int| 0 <= j < first_free(slots, n) ==> !is_free(#[trigger] slots[j]),
    decreases n,
{
    if n > 0 {
        lemma_first_free(slots, n - 1);
    }
}

/// There are no more entities than slots.
pub proof fn lemma_live_count_bounds(slots: SlotsView, n: int)
    requires
        0 <= n <= slots.len(),
    ensures
        0 <= live_count(slots, n) <= n,
    decreases n,
{
    if n > 0 {
        lemma_live_count_bounds(slots, n - 1);
    }
}

/// An entity that moves in lives under the handle it was given, and every
/// entity that lived before still lives under its own handle, unchanged.
pub proof fn lemma_load_keeps_handles(slots: SlotsView, entity: EntityView, other: EntityHandle)
    requires
        slots.len() < usize::MAX,
    ensures
        entity_of(loaded(slots, entity), arrival_handle(slots)) == Some(entity),
        !is_live(slots, arrival_handle(slots)),
        is_live(slots, other) ==> entity_of(loaded(slots, entity), other) == entity_of(
            slots,
            other,
        ),
{
    lemma_first_free(slots, slots.len() as int);
}

/// A handle whose entity has left names nothing, whatever moves in later;
/// every other entity still lives under its own handle, unchanged.
pub proof fn lemma_unload_retires_handle(
    slots: SlotsView,
    handle: EntityHandle,
    arrival: EntityView,
    other: EntityHandle,
)
    requires
        is_live(slots, handle),
    ensures
        !is_live(unloaded(slots, handle), handle),
        !is_live(loaded(unloaded(slots, handle), arrival), handle),
        other != handle && is_live(slots, other) ==> entity_of(unloaded(slots, handle), other)
            == entity_of(slots, other),
{
    let after = unloaded(slots, handle);
    lemma_first_free(after, after.len() as int);
}

/// The storage of the live entities. An entity is known by the handle it
/// was given when it moved in, until it leaves.
#[derive(Debug)]
pub struct Registry {
    pub(crate) slots: Vec<Slot>,
}

impl View for Registry {
    type V = SlotsView;

    closed spec fn view(&self) -> SlotsView {
        Seq::new(self.slots@.len(), |i: int| self.slots@[i]@)
    }
}

/// Why a registry could not do what was asked.
#[derive(Debug, Copy, Clone, PartialEq, Eq, Structural)]
pub enum RegistryError {
    /// The handle names no entity that lives in the registry.
    NotFound,
    /// Every slot is taken and there cannot be more slots.
    Full,
    /// The number names no component of the registry.
    NoSuchComponent,
}

impl Registry {
    /// A registry without entities.
    pub fn new() -> (res: Registry)
        ensures
            res@ == Seq::<SlotView>::empty(),
    {
        let res = Registry { slots: Vec::new() };
        assert(res@ =~= Seq::<SlotView>::empty());
        res
    }

    /// The number of slots, empty ones included.
    pub fn slot_count(&self) -> (res: usize)
        ensures
            res == self@.len(),
    {
        self.slots.len()
    }

    /// The first free slot, or the number of slots.
    fn find_free(&self) -> (res: usize)
        ensures
            res == arrival_index(self@),
            res <= self@.len(),
            res < self@.len() ==> self.slots@[res as int].entity is None,
    {
        let mut i: usize = 0;
        while i < self.slots.len()
            invariant
                0 <= i <= self.slots.len(),
                first_free(self@, i as int) == i,
            decreases self.slots.len() - i,
        {
            if self.slots[i].entity.is_none() && self.slots[i].generation < u64::MAX {
                proof {
                    assert(is_free(self@[i as int]));
                    lemma_first_free_stays(self@, i as int, self@.len() as int);
                }
                return i;
            }
            assert(!is_free(self@[i as int]));
            i = i + 1;
        }
        i
    }

    /// Moves `entity` in and returns the handle under which it lives from
    /// now on. Fails only where the registry cannot grow any more.
    pub fn load_entity(&mut self, entity: StandardEntity) -> (res: Result<
        EntityHandle,
        RegistryError,
    >)
        ensures
            arrival_index(old(self)@) < usize::MAX ==> res == Ok::<EntityHandle, RegistryError>(
                arrival_handle(old(self)@),
            ) && final(self)@ == loaded(old(self)@, entity@),
            arrival_index(old(self)@) >= usize::MAX ==> res == Err::<EntityHandle, RegistryError>(
                RegistryError::Full,
            ) && final(self)@ == old(self)@,
    {
        let index = self.find_free();
        if index < self.slots.len() {
            let generation = self.slots[index].generation;
            self.slots[index].entity = Some(entity);
            assert(self@ =~= loaded(old(self)@, entity@));
            Ok(EntityHandle { index, generation })
        } else if index < usize::MAX {
            self.slots.push(Slot { generation: 0, entity: Some(entity) });
            assert(self@ =~= loaded(old(self)@, entity@));
            Ok(EntityHandle { index, generation: 0 })
        } else {
            Err(RegistryError::Full)
        }
    }

    /// Whether `handle` names an entity that lives here.
    pub fn contains(&self, handle: EntityHandle) -> (res: bool)
        ensures
            res == is_live(self@, handle),
    {
        if handle.index < self.slots.len() {
            self.slots[handle.index].generation == handle.generation
                && self.slots[handle.index].entity.is_some()
        } else {
            false
        }
    }

    /// The entity that `handle` names, if it lives here.
    pub fn get(&self, handle: EntityHandle) -> (res: Option<&StandardEntity>)
        ensures
            match res {
                Some(entity) => entity_of(self@, handle) == Some(entity@),
                None => entity_of(self@, handle) is None,
            },
    {
        if handle.index < self.slots.len() && self.slots[handle.index].generation
            == handle.generation {
            self.slots[handle.index].entity.as_ref()
        } else {
            None
        }
    }

    /// Takes out the entity that `handle` names and returns it. From then
    /// on the handle names nothing.
    pub fn unload_entity(&mut self, handle: EntityHandle) -> (res: Result<
        StandardEntity,
        RegistryError,
    >)
        ensures
            final(self)@ == unloaded(old(self)@, handle),
            match res {
                Ok(entity) => entity_of(old(self)@, handle) == Some(entity@),
                Err(error) => error == RegistryError::NotFound && !is_live(old(self)@, handle),
            },
    {
        if !self.contains(handle) {
            return Err(RegistryError::NotFound);
        }
        let generation = self.slots[handle.index].generation;
        let next: u64 = if generation < u64::MAX {
            generation + 1
        } else {
            generation
        };
        let entity = self.slots[handle.index].entity.take();
        self.slots[handle.index].generation = next;
        assert(self@ =~= unloaded(old(self)@, handle));
        match entity {
            Some(entity) => Ok(entity),
            None => Err(RegistryError::NotFound),
        }
    }

    /// The number of entities that live here.
    pub fn count(&self) -> (res: usize)
        ensures
            res == live_count(self@, self@.len() as int),
    {
        let mut count: usize = 0;
        let mut i: usize = 0;
        while i < self.slots.len()
            invariant
                0 <= i <= self.slots.len(),
                count == live_count(self@, i as int),
                count <= i,
            decreases self.slots.len() - i,
        {
            if self.slots[i].entity.is_some() {
                count = count + 1;
            }
            i = i + 1;
        }
        count
    }

    /// The entity in the slot `index`, if one lives there.
    pub fn entity_at(&self, index: usize) -> (res: Option<&StandardEntity>)
        ensures
            match res {
                Some(entity) => index < self@.len() && self@[index as int].entity == Some(entity@),
                None => index >= self@.len() || self@[index as int].entity is None,
            },
    {
        if index < self.slots.len() {
            self.slots[index].entity.as_ref()
        } else {
            None
        }
    }

    /// Takes the entity out of the slot `index` for the time of one act;
    /// the slot keeps its generation.
    pub(crate) fn take_entity(&mut self, index: usize) -> (res: Option<StandardEntity>)
        ensures
            match res {
                Some(entity) => index < old(self)@.len() && old(self)@[index as int].entity
                    == Some(entity@) && final(self)@ == old(self)@.update(
                    index as int,
                    SlotView { generation: old(self)@[index as int].generation, entity: None },
                ),
                None => (index >= old(self)@.len() || old(self)@[index as int].entity is None)
                    && final(self)@ == old(self)@,
            },
    {
        if index < self.slots.len() {
            let taken = self.slots[index].entity.take();
            assert(self@ =~= old(self)@.update(
                index as int,
                SlotView { generation: old(self)@[index as int].generation, entity: None },
            ));
            taken
        } else {
            None
        }
    }

    /// Puts `entity` into the slot `index`, which keeps its generation.
    pub(crate) fn put_entity(&mut self, index: usize, entity: StandardEntity)
        requires
            index < old(self)@.len(),
        ensures
            final(self)@ == old(self)@.update(
                index as int,
                SlotView {
                    generation: old(self)@[index as int].generation,
                    entity: Some(entity@),
                },
            ),
    {
        self.slots[index].entity = Some(entity);
        assert(self@ =~= old(self)@.update(
            index as int,
            SlotView { generation: old(self)@[index as int].generation, entity: Some(entity@) },
        ));
    }

    /// The handle of the entity in the slot `index`, if one lives there.
    pub fn handle_at(&self, index: usize) -> (res: Option<EntityHandle>)
        ensures
            match res {
                Some(handle) => handle.index == index && is_live(self@, handle),
                None => index >= self@.len() || self@[index as int].entity is None,
            },
    {
        if index < self.slots.len() && self.slots[index].entity.is_some() {
            Some(EntityHandle { index, generation: self.slots[index].generation })
        } else {
            None
        }
    }
}

/// Once a free slot is found, later slots do not change which is first.
proof fn lemma_first_free_stays(slots: SlotsView, i: int, n: int)
    requires
        0 <= i < n <= slots.len(),
        first_free(slots, i) == i,
        is_free(slots[i]),
    ensures
        first_free(slots, n) == i,
    decreases n,
{
    if n > i + 1 {
        lemma_first_free_stays(slots, i, n - 1);
    }
}

} // verus!
