//! The world: the registry of entities, the components, and the tick that
//! lets every component act on every entity it is attached to.

use vstd::prelude::*;
use vstd::string::StringExecFns;
use crate::bowtie::component::{
    lemma_component_kept,
    lemma_forget_kept,
    ComponentView,
    KindView,
    StandardComponent,
};
use crate::components::collide::{evaluated, lemma_evaluated_same_others};
use crate::bowtie::entity::{EntityHandle, EntityView, StandardEntity};
use crate::bowtie::registry::{
    arrival_handle,
    arrival_index,
    entity_of,
    is_live,
    live_count,
    loaded,
    unloaded,
    Registry,
    RegistryError,
    SlotView,
    SlotsView,
};
use crate::components::keyboard_move::{
    lemma_published_is_read,
    published_direction,
    read_published_direction,
    Action,
    Key,
    KeyEvent,
};
use crate::general::color::COLORS;
use crate::general::direction::Direction;
use crate::gl_utils::gl_texture::Texture;
use crate::shapes::rectangle::Rectangle;

verus! {

/// The world: the entities that live in it and the components that act on
/// them. A component is known by its number, which it keeps for good.
#[derive(Debug)]
pub struct BowTie {
    registry: Registry,
    components: Vec<StandardComponent>,
}

/// The world as plain values.
pub struct WorldView {
    pub slots: SlotsView,
    pub components: Seq<ComponentView>,
}

impl View for BowTie {
    type V = WorldView;

    closed spec fn view(&self) -> WorldView {
        WorldView {
            slots: self.registry@,
            components: Seq::new(self.components@.len(), |i: int| self.components@[i]@),
        }
    }
}

impl WorldView {
    /// The first of the first `n` components in `attached` that exists
    /// and is called `name`.
    pub open spec fn named_among(self, attached: Seq<usize>, name: Seq<char>, n: int) -> Option<
        usize,
    >
        decreases n,
    {
        if n <= 0 {
            None
        } else {
            match self.named_among(attached, name, n - 1) {
                Some(component) => Some(component),
                None => {
                    let component = attached[n - 1];
                    if component < self.components.len() && self.components[component as int].name
                        == name {
                        Some(component)
                    } else {
                        None
                    }
                },
            }
        }
    }

    /// The component called `name` that is attached to an entity with the
    /// components `attached`: the first one, where there are several.
    pub open spec fn named(self, attached: Seq<usize>, name: Seq<char>) -> Option<usize> {
        self.named_among(attached, name, attached.len() as int)
    }

    /// The direction that the collision detector attached to an entity
    /// with the components `attached` has published for it.
    pub open spec fn blocked_for(self, attached: Seq<usize>, handle: EntityHandle) -> Option<
        Direction,
    > {
        match self.named(attached, "collision"@) {
            Some(component) => published_direction(
                self.components[component as int].store,
                handle,
            ),
            None => None,
        }
    }

    /// The handle of the entity in the slot `index`.
    pub open spec fn handle_at(self, index: int) -> EntityHandle {
        EntityHandle { index: index as usize, generation: self.slots[index].generation }
    }

    /// The world after the component `component` has acted on the entity
    /// in the slot `index`. Nothing happens where the slot is empty or
    /// there is no such component. A collision detector holds the entity
    /// against the other entities of the world.
    pub open spec fn acted(self, index: int, component: usize) -> WorldView {
        if 0 <= index < self.slots.len() && self.slots[index].entity is Some && component
            < self.components.len() {
            let entity = self.slots[index].entity->0;
            let handle = self.handle_at(index);
            let generation = self.slots[index].generation;
            let others = self.slots.update(index, SlotView { generation, entity: None });
            let blocked = self.blocked_for(entity.components, handle);
            let actor = self.components[component as int];
            WorldView {
                slots: self.slots.update(
                    index,
                    SlotView {
                        generation,
                        entity: Some(actor.entity_after_act(entity, handle, others, blocked)),
                    },
                ),
                components: self.components.update(
                    component as int,
                    actor.after_act(entity, handle, others, blocked),
                ),
            }
        } else {
            self
        }
    }

    /// The world after the first `n` components of `attached` have acted,
    /// in their order, on the entity in the slot `index`.
    pub open spec fn acted_all(self, index: int, attached: Seq<usize>, n: int) -> WorldView
        decreases n,
    {
        if n <= 0 {
            self
        } else {
            self.acted_all(index, attached, n - 1).acted(index, attached[n - 1])
        }
    }

    /// The world after every component attached to the entity in the slot
    /// `index` has acted on it once, in the order of attachment.
    pub open spec fn entity_acted(self, index: int) -> WorldView {
        if 0 <= index < self.slots.len() && self.slots[index].entity is Some {
            let attached = self.slots[index].entity->0.components;
            self.acted_all(index, attached, attached.len() as int)
        } else {
            self
        }
    }

    /// The world after the entities in the first `n` slots have been acted
    /// on, in the order of their slots.
    pub open spec fn ticked_upto(self, n: int) -> WorldView
        decreases n,
    {
        if n <= 0 {
            self
        } else {
            self.ticked_upto(n - 1).entity_acted(n - 1)
        }
    }

    /// The world after one tick: every live entity has been acted on once
    /// by each of its components.
    pub open spec fn ticked(self) -> WorldView {
        self.ticked_upto(self.slots.len() as int)
    }

    /// The world without the entity that `handle` names and without what
    /// the components kept of it.
    pub open spec fn without_entity(self, handle: EntityHandle) -> WorldView {
        WorldView {
            slots: unloaded(self.slots, handle),
            components: Seq::new(
                self.components.len(),
                |i: int| self.components[i].without_entity(handle),
            ),
        }
    }

    /// The world with `component` attached to the entity that `handle`
    /// names.
    pub open spec fn attached(self, handle: EntityHandle, component: usize) -> WorldView {
        let slot = self.slots[handle.index as int];
        let entity = slot.entity->0;
        WorldView {
            slots: self.slots.update(
                handle.index as int,
                SlotView {
                    generation: slot.generation,
                    entity: Some(
                        EntityView { components: entity.components.push(component), ..entity },
                    ),
                },
            ),
            components: self.components,
        }
    }

    /// The world with the entity that `handle` names moved by `strength`
    /// in `direction`.
    pub open spec fn moved(self, handle: EntityHandle, direction: Direction, strength: int)
        -> WorldView {
        let slot = self.slots[handle.index as int];
        WorldView {
            slots: self.slots.update(
                handle.index as int,
                SlotView {
                    generation: slot.generation,
                    entity: Some(slot.entity->0.moved(direction, strength)),
                },
            ),
            components: self.components,
        }
    }
}

/// An entity at the origin that takes up no room and shows no texture.
pub open spec fn blank_entity() -> EntityView {
    EntityView {
        shape: Rectangle { x: 0, y: 0, width: 0, height: 0 },
        color: COLORS::White.channels(),
        texture: Texture::none_view(),
        speed: 0,
        components: Seq::empty(),
        direction: Direction::Stationary,
        collision_direction: Direction::Stationary,
    }
}

/// A copy of `ids`.
fn copy_ids(ids: &Vec<usize>) -> (res: Vec<usize>)
    ensures
        res@ == ids@,
{
    let mut res: Vec<usize> = Vec::new();
    let mut i: usize = 0;
    while i < ids.len()
        invariant
            0 <= i <= ids.len(),
            res@ == ids@.take(i as int),
        decreases ids.len() - i,
    {
        res.push(ids[i]);
        proof {
            assert(ids@.take(i + 1) =~= ids@.take(i as int).push(ids@[i as int]));
        }
        i = i + 1;
    }
    proof {
        assert(ids@.take(i as int) =~= ids@);
    }
    res
}

impl BowTie {
    /// A world without entities and without components.
    pub fn new() -> (res: BowTie)
        ensures
            res@ == (WorldView { slots: Seq::empty(), components: Seq::empty() }),
            res@.kept(),
    {
        let res = BowTie { registry: Registry::new(), components: Vec::new() };
        assert(res@.components =~= Seq::<ComponentView>::empty());
        res
    }

    /// Moves `entity` into the world and returns the handle under which it
    /// lives from now on. Fails only where the registry cannot grow.
    pub fn load_entity(&mut self, entity: StandardEntity) -> (res: Result<
        EntityHandle,
        RegistryError,
    >)
        ensures
            old(self)@.kept() ==> final(self)@.kept(),
            final(self)@.components == old(self)@.components,
            arrival_index(old(self)@.slots) < usize::MAX ==> res == Ok::<
                EntityHandle,
                RegistryError,
            >(arrival_handle(old(self)@.slots)) && final(self)@.slots == loaded(
                old(self)@.slots,
                entity@,
            ),
            arrival_index(old(self)@.slots) >= usize::MAX ==> res == Err::<
                EntityHandle,
                RegistryError,
            >(RegistryError::Full) && final(self)@.slots == old(self)@.slots,
    {
        let res = self.registry.load_entity(entity);
        assert(self@.components =~= old(self)@.components);
        res
    }

    /// Takes the entity that `handle` names out of the world and returns
    /// it. What the components kept of it goes with it: the records of
    /// every collision detector, of it and for it, and what the stores
    /// held under its key. A handle that names no entity changes nothing.
    pub fn unload_entity(&mut self, handle: EntityHandle) -> (res: Result<
        StandardEntity,
        RegistryError,
    >)
        ensures
            old(self)@.kept() ==> final(self)@.kept(),
            match res {
                Ok(entity) => entity_of(old(self)@.slots, handle) == Some(entity@) && final(self)@
                    == old(self)@.without_entity(handle),
                Err(error) => error == RegistryError::NotFound && !is_live(
                    old(self)@.slots,
                    handle,
                ) && final(self)@ == old(self)@,
            },
    {
        let res = self.registry.unload_entity(handle);
        if res.is_err() {
            assert(self@.components =~= old(self)@.components);
            return res;
        }
        let ghost before = old(self)@.components;
        let mut i: usize = 0;
        while i < self.components.len()
            invariant
                0 <= i <= self.components.len(),
                self.components@.len() == before.len(),
                self.registry@ == unloaded(old(self)@.slots, handle),
                forall|j: int|
                    0 <= j < i ==> (#[trigger] self.components@[j])@ == before[j].without_entity(
                        handle,
                    ),
                forall|j: int|
                    i <= j < before.len() ==> (#[trigger] self.components@[j])@ == before[j],
            decreases self.components.len() - i,
        {
            self.components[i].forget(handle);
            i = i + 1;
        }
        assert(self@.components =~= old(self)@.without_entity(handle).components);
        proof {
            if old(self)@.kept() {
                old(self)@.lemma_world_kept(handle);
            }
        }
        res
    }

    /// Gets the world ready to be drawn: a world without entities gets
    /// one that takes up no room, so that a renderer never has nothing to
    /// draw; any other world is left as it is.
    pub fn prep_for_render(&mut self)
        ensures
            old(self)@.kept() ==> final(self)@.kept(),
            final(self)@.components == old(self)@.components,
            live_count(old(self)@.slots, old(self)@.slots.len() as int) >= 1 ==> final(self)@.slots
                == old(self)@.slots,
            live_count(old(self)@.slots, old(self)@.slots.len() as int) < 1 && arrival_index(
                old(self)@.slots,
            ) < usize::MAX ==> final(self)@.slots == loaded(old(self)@.slots, blank_entity()),
            arrival_index(old(self)@.slots) >= usize::MAX ==> final(self)@.slots == old(
                self,
            )@.slots,
    {
        if self.registry.count() < 1 {
            let _ = self.registry.load_entity(
                StandardEntity::new(Rectangle::new(0, 0, 0, 0), Texture::none(), 0),
            );
        }
        assert(self@.components =~= old(self)@.components);
    }

    /// Whether the store of every component holds what its readers
    /// expect under the keys of entities, as a tick asks for.
    pub fn is_kept(&self) -> (res: bool)
        ensures
            res == self@.kept(),
    {
        let mut c: usize = 0;
        while c < self.components.len()
            invariant
                0 <= c <= self.components.len(),
                forall|k: int| 0 <= k < c ==> (#[trigger] self@.components[k]).kept(),
            decreases self.components.len() - c,
        {
            if !self.components[c].is_kept() {
                assert(!self@.components[c as int].kept());
                return false;
            }
            c = c + 1;
        }
        true
    }

    /// The number of entities that live in the world.
    pub fn get_entity_count(&self) -> (res: usize)
        ensures
            res == live_count(self@.slots, self@.slots.len() as int),
    {
        self.registry.count()
    }

    /// The entity that `handle` names, if it lives in the world.
    pub fn get_entity(&self, handle: EntityHandle) -> (res: Option<&StandardEntity>)
        ensures
            match res {
                Some(entity) => entity_of(self@.slots, handle) == Some(entity@),
                None => entity_of(self@.slots, handle) is None,
            },
    {
        self.registry.get(handle)
    }

    /// The handle of the entity in the slot `index`, if one lives there.
    pub fn handle_at(&self, index: usize) -> (res: Option<EntityHandle>)
        ensures
            match res {
                Some(handle) => handle == self@.handle_at(index as int) && is_live(
                    self@.slots,
                    handle,
                ),
                None => index >= self@.slots.len() || self@.slots[index as int].entity is None,
            },
    {
        self.registry.handle_at(index)
    }

    /// The number of slots in the registry, empty ones included.
    pub fn slot_count(&self) -> (res: usize)
        ensures
            res == self@.slots.len(),
    {
        self.registry.slot_count()
    }

    /// Takes `component`, whose store must hold what its readers expect,
    /// into the world and returns its number.
    pub fn add_component(&mut self, component: StandardComponent) -> (res: usize)
        requires
            component@.kept(),
        ensures
            old(self)@.kept() ==> final(self)@.kept(),
            res == old(self)@.components.len(),
            final(self)@ == (WorldView {
                slots: old(self)@.slots,
                components: old(self)@.components.push(component@),
            }),
    {
        let number = self.components.len();
        self.components.push(component);
        assert(self@.components =~= old(self)@.components.push(component@));
        number
    }

    /// The number of components in the world.
    pub fn get_component_count(&self) -> (res: usize)
        ensures
            res == self@.components.len(),
    {
        self.components.len()
    }

    /// The component with the number `component`, if there is one.
    pub fn component(&self, component: usize) -> (res: Option<&StandardComponent>)
        ensures
            match res {
                Some(found) => component < self@.components.len() && found@
                    == self@.components[component as int],
                None => component >= self@.components.len(),
            },
    {
        if component < self.components.len() {
            Some(&self.components[component])
        } else {
            None
        }
    }

    /// Attaches the component with the number `component` to the entity
    /// that `handle` names, behind those already attached to it.
    pub fn attach(&mut self, handle: EntityHandle, component: usize) -> (res: Result<
        (),
        RegistryError,
    >)
        ensures
            old(self)@.kept() ==> final(self)@.kept(),
            match res {
                Ok(_) => is_live(old(self)@.slots, handle) && component < old(
                    self,
                )@.components.len() && final(self)@ == old(self)@.attached(handle, component),
                Err(error) => final(self)@ == old(self)@ && (if !is_live(old(self)@.slots, handle) {
                    error == RegistryError::NotFound
                } else {
                    error == RegistryError::NoSuchComponent && component >= old(
                        self,
                    )@.components.len()
                }),
            },
    {
        if !self.registry.contains(handle) {
            return Err(RegistryError::NotFound);
        }
        if component >= self.components.len() {
            return Err(RegistryError::NoSuchComponent);
        }
        match self.registry.take_entity(handle.index) {
            Some(mut entity) => {
                entity.load_components(component);
                self.registry.put_entity(handle.index, entity);
            },
            None => {},
        }
        assert(self@.slots =~= old(self)@.attached(handle, component).slots);
        assert(self@.components =~= old(self)@.components);
        Ok(())
    }

    /// Moves the entity that `handle` names by `strength` units in
    /// `direction`, less the components in which it is blocked.
    pub fn move_entity(&mut self, handle: EntityHandle, direction: Direction, strength: i32) -> (res:
        Result<(), RegistryError>)
        ensures
            old(self)@.kept() ==> final(self)@.kept(),
            match res {
                Ok(_) => is_live(old(self)@.slots, handle) && final(self)@ == old(self)@.moved(
                    handle,
                    direction,
                    strength as int,
                ),
                Err(error) => error == RegistryError::NotFound && !is_live(
                    old(self)@.slots,
                    handle,
                ) && final(self)@ == old(self)@,
            },
    {
        if !self.registry.contains(handle) {
            return Err(RegistryError::NotFound);
        }
        match self.registry.take_entity(handle.index) {
            Some(mut entity) => {
                entity.move_in_direction(direction, strength);
                self.registry.put_entity(handle.index, entity);
            },
            None => {},
        }
        assert(self@.slots =~= old(self)@.moved(handle, direction, strength as int).slots);
        assert(self@.components =~= old(self)@.components);
        Ok(())
    }

    /// The number of the component called `name` that is attached to
    /// `entity`: of the first one, where there are several.
    pub fn find_component(&self, entity: &StandardEntity, name: &str) -> (res: Option<usize>)
        ensures
            res == self@.named(entity@.components, name@),
    {
        let wanted = String::from_str(name);
        let attached = entity.get_components();
        let mut i: usize = 0;
        while i < attached.len()
            invariant
                0 <= i <= attached.len(),
                attached@ == entity@.components,
                wanted@ == name@,
                self@.named_among(attached@, name@, i as int) is None,
            decreases attached.len() - i,
        {
            let component = attached[i];
            if component < self.components.len() && self.components[component].is_named(&wanted) {
                proof {
                    assert(self@.components[component as int].name == name@);
                    self@.lemma_named_among_stays(
                        attached@,
                        name@,
                        i + 1,
                        attached@.len() as int,
                    );
                }
                return Some(component);
            }
            i = i + 1;
        }
        None
    }

    /// The component called `name` that is attached to the entity that
    /// `handle` names: the first one, where there are several.
    pub fn get_component(&self, handle: EntityHandle, name: &str) -> (res: Option<
        &StandardComponent,
    >)
        ensures
            match res {
                Some(found) => is_live(self@.slots, handle) && ({
                    let number = self@.named(entity_of(self@.slots, handle)->0.components, name@);
                    number is Some && found@ == self@.components[number->0 as int]
                }),
                None => !is_live(self@.slots, handle) || self@.named(
                    entity_of(self@.slots, handle)->0.components,
                    name@,
                ) is None,
            },
    {
        match self.registry.get(handle) {
            Some(entity) => match self.find_component(entity, name) {
                Some(number) => {
                    proof {
                        self@.lemma_named_among_exists(
                            entity@.components,
                            name@,
                            entity@.components.len() as int,
                        );
                    }
                    Some(&self.components[number])
                },
                None => None,
            },
            None => None,
        }
    }

    /// Hands a keyboard event to the component with the number
    /// `component`. Returns whether there is such a component.
    pub fn listen_for_event(&mut self, component: usize, event: &KeyEvent) -> (res: bool)
        ensures
            old(self)@.kept() ==> final(self)@.kept(),
            res == (component < old(self)@.components.len()),
            res ==> final(self)@ == (WorldView {
                slots: old(self)@.slots,
                components: old(self)@.components.update(
                    component as int,
                    old(self)@.components[component as int].after_event(*event),
                ),
            }),
            !res ==> final(self)@ == old(self)@,
    {
        if component < self.components.len() {
            self.components[component].listen_for_event(event);
            assert(self@.components =~= old(self)@.components.update(
                component as int,
                old(self)@.components[component as int].after_event(*event),
            ));
            true
        } else {
            false
        }
    }

    /// The direction that the collision detector attached to `entity` has
    /// published for it under `handle`.
    pub fn blocked_direction(&self, entity: &StandardEntity, handle: EntityHandle) -> (res: Option<
        Direction,
    >)
        requires
            self@.kept(),
        ensures
            res == self@.blocked_for(entity@.components, handle),
    {
        match self.find_component(entity, "collision") {
            Some(detector) => {
                proof {
                    self@.lemma_named_among_exists(
                        entity@.components,
                        "collision"@,
                        entity@.components.len() as int,
                    );
                    assert(self@.components[detector as int].kept());
                    lemma_published_is_read(self@.components[detector as int].store, handle);
                }
                read_published_direction(self.components[detector].get_store(), handle)
            },
            None => None,
        }
    }

    /// Lets the component with the number `component` act once on the
    /// entity in the slot `index`.
    pub fn act_on(&mut self, index: usize, component: usize)
        requires
            old(self)@.kept(),
        ensures
            final(self)@ == old(self)@.acted(index as int, component),
            final(self)@.kept(),
    {
        if component >= self.components.len() {
            return ;
        }
        let handle = match self.registry.handle_at(index) {
            Some(handle) => handle,
            None => {
                return ;
            },
        };
        match self.registry.take_entity(index) {
            Some(mut entity) => {
                let ghost others = self.registry@;
                let ghost subject = entity@;
                let blocked = self.blocked_direction(&entity, handle);
                assert(blocked == old(self)@.blocked_for(subject.components, handle)) by {
                    assert(self@.components =~= old(self)@.components);
                    old(self)@.lemma_named_among_same(
                        self@,
                        subject.components,
                        "collision"@,
                        subject.components.len() as int,
                    );
                }
                assert(self@.components[component as int].kept());
                self.components[component].act(&mut entity, handle, &self.registry, blocked);
                self.registry.put_entity(index, entity);
                proof {
                    let after = old(self)@.acted(index as int, component);
                    assert(self@.slots =~= after.slots);
                    assert(self@.components =~= after.components);
                    assert forall|c: int| 0 <= c < self@.components.len() implies (
                    #[trigger] self@.components[c]).kept() by {
                        if c != component {
                            assert(self@.components[c] == old(self)@.components[c]);
                        }
                    }
                }
            },
            None => {},
        }
    }

    /// Lets every component attached to the entity in the slot `index`
    /// act on it once, in the order of attachment.
    pub fn act_on_components(&mut self, index: usize)
        requires
            old(self)@.kept(),
        ensures
            final(self)@ == old(self)@.entity_acted(index as int),
            final(self)@.kept(),
    {
        let attached = match self.registry.entity_at(index) {
            Some(entity) => copy_ids(entity.get_components()),
            None => {
                return ;
            },
        };
        let mut i: usize = 0;
        while i < attached.len()
            invariant
                0 <= i <= attached.len(),
                self@ == old(self)@.acted_all(index as int, attached@, i as int),
                self@.kept(),
            decreases attached.len() - i,
        {
            self.act_on(index, attached[i]);
            i = i + 1;
        }
    }

    /// Acts on every live entity once, in the order of the slots.
    pub fn update_entities(&mut self)
        requires
            old(self)@.kept(),
        ensures
            final(self)@ == old(self)@.ticked(),
            final(self)@.kept(),
    {
        let slots = self.registry.slot_count();
        let mut index: usize = 0;
        while index < slots
            invariant
                0 <= index <= slots,
                slots == old(self)@.slots.len(),
                self@ == old(self)@.ticked_upto(index as int),
                self@.kept(),
            decreases slots - index,
        {
            self.act_on_components(index);
            index = index + 1;
        }
    }

    /// One tick of the simulation: every live entity is acted on once by
    /// each component attached to it, in the order of attachment. No
    /// entity arrives or leaves during a tick. The stores must hold what
    /// their readers expect under the keys of entities, and still do
    /// after.
    pub fn tick(&mut self)
        requires
            old(self)@.kept(),
        ensures
            final(self)@ == old(self)@.ticked(),
            final(self)@.kept(),
    {
        self.update_entities();
    }
}

impl StandardEntity {
    /// The component called `name` that is attached to the entity, among
    /// the components of `world`: the first one, where there are several.
    pub fn get_component<'a>(&self, world: &'a BowTie, name: &str) -> (res: Option<
        &'a StandardComponent,
    >)
        ensures
            match res {
                Some(found) => {
                    let number = world@.named(self@.components, name@);
                    number is Some && found@ == world@.components[number->0 as int]
                },
                None => world@.named(self@.components, name@) is None,
            },
    {
        match world.find_component(self, name) {
            Some(number) => {
                proof {
                    world@.lemma_named_among_exists(
                        self@.components,
                        name@,
                        self@.components.len() as int,
                    );
                }
                world.component(number)
            },
            None => None,
        }
    }
}

impl WorldView {
    /// Whether `other` holds the same entities and components as `self`,
    /// whatever has become of their positions and states: the same slots
    /// with the same generations are taken, by entities of the same size
    /// with the same components attached, and the components have the
    /// same names.
    pub open spec fn same_population(self, other: WorldView) -> bool {
        &&& self.slots.len() == other.slots.len()
        &&& self.components.len() == other.components.len()
        &&& forall|i: int|
            0 <= i < self.slots.len() ==> (#[trigger] self.slots[i]).generation
                == other.slots[i].generation && (self.slots[i].entity is Some
                <==> other.slots[i].entity is Some)
        &&& forall|i: int|
            0 <= i < self.slots.len() && (#[trigger] self.slots[i]).entity is Some ==> {
                let before = self.slots[i].entity->0;
                let after = other.slots[i].entity->0;
                &&& after.components == before.components
                &&& after.shape.width == before.shape.width
                &&& after.shape.height == before.shape.height
                &&& after.speed == before.speed
                &&& after.color == before.color
                &&& after.texture == before.texture
            }
        &&& forall|c: int|
            0 <= c < self.components.len() ==> (#[trigger] self.components[c]).name
                == other.components[c].name
    }

    /// One act of one component on one entity keeps the population.
    pub proof fn lemma_act_keeps_population(self, index: int, component: usize)
        ensures
            self.same_population(self.acted(index, component)),
    {
    }

    proof fn lemma_population_chain(self, middle: WorldView, last: WorldView)
        requires
            self.same_population(middle),
            middle.same_population(last),
        ensures
            self.same_population(last),
    {
        assert forall|i: int| 0 <= i < self.slots.len() implies (#[trigger] self.slots[i]).generation
            == last.slots[i].generation && (self.slots[i].entity is Some
            <==> last.slots[i].entity is Some) by {
            assert(middle.slots[i].generation == last.slots[i].generation);
        }
        assert forall|i: int|
            0 <= i < self.slots.len() && (#[trigger] self.slots[i]).entity is Some implies {
            let before = self.slots[i].entity->0;
            let after = last.slots[i].entity->0;
            &&& after.components == before.components
            &&& after.shape.width == before.shape.width
            &&& after.shape.height == before.shape.height
            &&& after.speed == before.speed
            &&& after.color == before.color
            &&& after.texture == before.texture
        } by {
            assert(middle.slots[i].entity is Some);
        }
        assert forall|c: int| 0 <= c < self.components.len() implies (
        #[trigger] self.components[c]).name == last.components[c].name by {
            assert(middle.components[c].name == last.components[c].name);
        }
    }

    proof fn lemma_acts_keep_population(self, index: int, attached: Seq<usize>, n: int)
        requires
            0 <= n <= attached.len(),
        ensures
            self.same_population(self.acted_all(index, attached, n)),
        decreases n,
    {
        if n > 0 {
            self.lemma_acts_keep_population(index, attached, n - 1);
            let middle = self.acted_all(index, attached, n - 1);
            middle.lemma_act_keeps_population(index, attached[n - 1]);
            self.lemma_population_chain(middle, middle.acted(index, attached[n - 1]));
        }
    }

    proof fn lemma_ticks_keep_population(self, n: int)
        requires
            0 <= n,
        ensures
            self.same_population(self.ticked_upto(n)),
        decreases n,
    {
        if n > 0 {
            self.lemma_ticks_keep_population(n - 1);
            let middle = self.ticked_upto(n - 1);
            if 0 <= n - 1 < middle.slots.len() && middle.slots[n - 1].entity is Some {
                let attached = middle.slots[n - 1].entity->0.components;
                middle.lemma_acts_keep_population(n - 1, attached, attached.len() as int);
            }
            self.lemma_population_chain(middle, middle.entity_acted(n - 1));
        }
    }

    /// No entity arrives or leaves during a tick, and no component: after
    /// a tick the world holds the same entities, of the same size and with
    /// the same components attached, under the same handles.
    pub proof fn lemma_tick_keeps_population(self)
        ensures
            self.same_population(self.ticked()),
    {
        self.lemma_ticks_keep_population(self.slots.len() as int);
    }

    /// A collision detector holds an entity against the entities of the
    /// world: as the entity is never held against itself, the record that
    /// an act of a detector leaves is the one that an evaluation against
    /// all the slots of the world leaves.
    pub proof fn lemma_detector_sees_the_world(self, index: int, component: usize)
        requires
            0 <= index < self.slots.len(),
            index <= usize::MAX,
            self.slots[index].entity is Some,
            component < self.components.len(),
            self.components[component as int].kind is Collision,
        ensures
            self.acted(index, component).components[component as int].kind
                == KindView::Collision(
                evaluated(
                    self.components[component as int].kind->Collision_0,
                    self.slots,
                    self.handle_at(index),
                    self.slots[index].entity->0.shape,
                ),
            ),
    {
        let generation = self.slots[index].generation;
        let others = self.slots.update(index, SlotView { generation, entity: None });
        let handle = self.handle_at(index);
        assert forall|other: EntityHandle| other != handle implies #[trigger] entity_of(
            others,
            other,
        ) == entity_of(self.slots, other) by {
            if other.index == index {
                assert(other.generation != generation);
            }
        }
        lemma_evaluated_same_others(
            self.components[component as int].kind->Collision_0,
            others,
            self.slots,
            handle,
            self.slots[index].entity->0.shape,
        );
    }

    /// Whether the store of every component holds what its readers
    /// expect under the keys of entities.
    pub open spec fn kept(self) -> bool {
        forall|c: int| 0 <= c < self.components.len() ==> (#[trigger] self.components[c]).kept()
    }

    proof fn lemma_act_kept(self, index: int, component: usize)
        requires
            self.kept(),
        ensures
            self.acted(index, component).kept(),
    {
        let after = self.acted(index, component);
        if after != self {
            let entity = self.slots[index].entity->0;
            let handle = self.handle_at(index);
            let others = self.slots.update(
                index,
                SlotView { generation: self.slots[index].generation, entity: None },
            );
            let blocked = self.blocked_for(entity.components, handle);
            lemma_component_kept(
                self.components[component as int],
                entity,
                handle,
                others,
                blocked,
                KeyEvent { key: Key::Other, action: Action::Press },
            );
            assert forall|c: int| 0 <= c < after.components.len() implies (
            #[trigger] after.components[c]).kept() by {
                if c != component {
                    assert(after.components[c] == self.components[c]);
                }
            }
        }
    }

    proof fn lemma_acts_kept(self, index: int, attached: Seq<usize>, n: int)
        requires
            self.kept(),
            0 <= n <= attached.len(),
        ensures
            self.acted_all(index, attached, n).kept(),
        decreases n,
    {
        if n > 0 {
            self.lemma_acts_kept(index, attached, n - 1);
            self.acted_all(index, attached, n - 1).lemma_act_kept(index, attached[n - 1]);
        }
    }

    proof fn lemma_ticks_kept(self, n: int)
        requires
            self.kept(),
            0 <= n,
        ensures
            self.ticked_upto(n).kept(),
        decreases n,
    {
        if n > 0 {
            self.lemma_ticks_kept(n - 1);
            let middle = self.ticked_upto(n - 1);
            if 0 <= n - 1 < middle.slots.len() && middle.slots[n - 1].entity is Some {
                let attached = middle.slots[n - 1].entity->0.components;
                middle.lemma_acts_kept(n - 1, attached, attached.len() as int);
            }
        }
    }

    /// The stores stay as their readers expect them: a world in which
    /// they are so is still such a world after a tick and after an entity
    /// has left. So what a collision detector has published can always be
    /// read back, and gravity always finds what it has kept.
    pub proof fn lemma_world_kept(self, handle: EntityHandle)
        requires
            self.kept(),
        ensures
            self.ticked().kept(),
            self.without_entity(handle).kept(),
    {
        self.lemma_ticks_kept(self.slots.len() as int);
        let less = self.without_entity(handle);
        assert forall|c: int| 0 <= c < less.components.len() implies (
        #[trigger] less.components[c]).kept() by {
            lemma_forget_kept(self.components[c], handle);
        }
    }

    /// Once a component of a name is found, later ones do not change
    /// which is first.
    pub proof fn lemma_named_among_stays(self, attached: Seq<usize>, name: Seq<char>, i: int, n: int)
        requires
            0 <= i <= n <= attached.len(),
            self.named_among(attached, name, i) is Some,
        ensures
            self.named_among(attached, name, n) == self.named_among(attached, name, i),
        decreases n - i,
    {
        if i < n {
            self.lemma_named_among_stays(attached, name, i, n - 1);
        }
    }

    /// Worlds with the same components find the same component by a name.
    pub proof fn lemma_named_among_same(
        self,
        other: WorldView,
        attached: Seq<usize>,
        name: Seq<char>,
        n: int,
    )
        requires
            0 <= n <= attached.len(),
            self.components == other.components,
        ensures
            self.named_among(attached, name, n) == other.named_among(attached, name, n),
        decreases n,
    {
        if n > 0 {
            self.lemma_named_among_same(other, attached, name, n - 1);
        }
    }

    /// A component that is found by its name exists and has that name.
    pub proof fn lemma_named_among_exists(self, attached: Seq<usize>, name: Seq<char>, n: int)
        requires
            0 <= n <= attached.len(),
        ensures
            self.named_among(attached, name, n) matches Some(component) ==> component
                < self.components.len() && self.components[component as int].name == name,
        decreases n,
    {
        if n > 0 {
            self.lemma_named_among_exists(attached, name, n - 1);
        }
    }
}

} // verus!
