//! Components: the named behaviour units that are attached to entities.

use vstd::prelude::*;
use vstd::string::StringExecFns;
use crate::bowtie::entity::{EntityHandle, EntityView, StandardEntity};
use crate::bowtie::registry::{Registry, SlotsView};
use crate::bowtie::store::{
    holds,
    lemma_holds_found,
    lemma_holds_kept,
    lemma_stored_lookup,
    stored,
    ComponentStore,
    Holding,
    KeyView,
    StoreKey,
    StoreView,
};
use crate::components::collide::{
    aggregate,
    evaluated,
    evaluated_entries,
    CollisionComponent,
    LedgerView,
};
use crate::components::gravity::GravityComponent;
use crate::components::keyboard_move::{published_direction, KeyEvent, KeyboardMoveComponent};
use crate::components::rand_move::RandMove;
use crate::general::direction::Direction;
use crate::general::value::Value;

verus! {

/// What a component does when it acts, with the state it keeps for that.
#[derive(Debug)]
pub enum ComponentKind {
    Collision(CollisionComponent),
    Gravity(GravityComponent),
    KeyboardMove(KeyboardMoveComponent),
    RandMove(RandMove),
}

/// A kind of component as plain values.
pub enum KindView {
    Collision(LedgerView),
    Gravity(GravityComponent),
    KeyboardMove(KeyboardMoveComponent),
    RandMove(RandMove),
}

impl View for ComponentKind {
    type V = KindView;

    open spec fn view(&self) -> KindView {
        match self {
            ComponentKind::Collision(detector) => KindView::Collision(detector@),
            ComponentKind::Gravity(gravity) => KindView::Gravity(*gravity),
            ComponentKind::KeyboardMove(movement) => KindView::KeyboardMove(*movement),
            ComponentKind::RandMove(movement) => KindView::RandMove(*movement),
        }
    }
}

/// A component: a name, what it does, and the store it shares between
/// all the entities it is attached to.
#[derive(Debug)]
pub struct StandardComponent {
    name: String,
    kind: ComponentKind,
    store: ComponentStore,
}

/// A component as plain values.
pub struct ComponentView {
    pub name: Seq<char>,
    pub kind: KindView,
    pub store: StoreView,
}

impl View for StandardComponent {
    type V = ComponentView;

    closed spec fn view(&self) -> ComponentView {
        ComponentView { name: self.name@, kind: self.kind@, store: self.store@ }
    }
}

impl ComponentView {
    /// Whether the store holds what its readers expect under the keys of
    /// entities. A component called "collision" is read as a collision
    /// detector, so its store holds codes of directions there; the store
    /// of gravity holds the falls, so gravity is not called "collision".
    pub open spec fn kept(self) -> bool {
        &&& self.name == "collision"@ ==> holds(self.store, Holding::Directions)
        &&& self.kind is Gravity ==> holds(self.store, Holding::Falls) && self.name
            != "collision"@
    }

    /// The component after it has acted on `entity`, which `handle` names.
    /// `others` are the entities that a collision detector holds `entity`
    /// against; `blocked` is the direction that a detector attached to
    /// `entity` has published for it.
    ///
    /// A detector evaluates the entity and publishes in its store, under
    /// the entity's key, the code of the direction in which the entity is
    /// blocked.
    pub open spec fn after_act(
        self,
        entity: EntityView,
        handle: EntityHandle,
        others: SlotsView,
        blocked: Option<Direction>,
    ) -> ComponentView {
        match self.kind {
            KindView::Collision(rows) => ComponentView {
                name: self.name,
                kind: KindView::Collision(evaluated(rows, others, handle, entity.shape)),
                store: stored(
                    self.store,
                    KeyView::Entity(handle),
                    Value::Number(
                        aggregate(evaluated_entries(rows, others, handle, entity.shape)).code() as i64,
                    ),
                ),
            },
            KindView::Gravity(gravity) => ComponentView {
                name: self.name,
                kind: self.kind,
                store: gravity.store_after(self.store, entity, handle),
            },
            KindView::KeyboardMove(movement) => ComponentView {
                name: self.name,
                kind: KindView::KeyboardMove(movement.after_move()),
                store: self.store,
            },
            KindView::RandMove(_) => self,
        }
    }

    /// The entity after the component has acted on it. A detector sets
    /// the direction in which the entity is blocked; the others move it.
    pub open spec fn entity_after_act(
        self,
        entity: EntityView,
        handle: EntityHandle,
        others: SlotsView,
        blocked: Option<Direction>,
    ) -> EntityView {
        match self.kind {
            KindView::Collision(rows) => EntityView {
                collision_direction: aggregate(
                    evaluated_entries(rows, others, handle, entity.shape),
                ),
                ..entity
            },
            KindView::Gravity(gravity) => gravity.entity_after(self.store, entity, handle),
            KindView::KeyboardMove(movement) => movement.entity_after(entity, blocked),
            KindView::RandMove(movement) => movement.entity_after(entity),
        }
    }

    /// The component after the keyboard event `event`: a movement
    /// component takes note of it, any other is left as it is.
    pub open spec fn after_event(self, event: KeyEvent) -> ComponentView {
        match self.kind {
            KindView::KeyboardMove(movement) => ComponentView {
                name: self.name,
                kind: KindView::KeyboardMove(
                    KeyboardMoveComponent {
                        next_direction: crate::components::keyboard_move::heard(
                            movement.next_direction,
                            event,
                        ),
                        ..movement
                    },
                ),
                store: self.store,
            },
            _ => self,
        }
    }
}

impl StandardComponent {
    /// A component called `name` that does what `kind` says and starts
    /// with the store `store_seed`, which must hold what its readers
    /// expect under the keys of entities.
    pub fn new(kind: ComponentKind, name: &str, store_seed: ComponentStore) -> (res:
        StandardComponent)
        requires
            (ComponentView { name: name@, kind: kind@, store: store_seed@ }).kept(),
        ensures
            res@ == (ComponentView { name: name@, kind: kind@, store: store_seed@ }),
            res@.kept(),
    {
        StandardComponent { name: String::from_str(name), kind, store: store_seed }
    }

    /// Whether a component called `name` of the kind `kind` can start
    /// with the store `store_seed`: whether the store holds what its
    /// readers expect under the keys of entities.
    pub fn fits(kind: &ComponentKind, name: &str, store_seed: &ComponentStore) -> (res: bool)
        ensures
            res == (ComponentView { name: name@, kind: kind@, store: store_seed@ }).kept(),
    {
        let detector = String::from_str(name) == String::from_str("collision");
        let gravity = match kind {
            ComponentKind::Gravity(_) => true,
            _ => false,
        };
        (!detector || store_seed.holds_only(Holding::Directions)) && (!gravity || (
        store_seed.holds_only(Holding::Falls) && !detector))
    }

    /// The component called `name` of the kind `kind` with the store
    /// `store_seed`, or `None` where the store does not hold what its
    /// readers expect under the keys of entities.
    pub fn checked_new(kind: ComponentKind, name: &str, store_seed: ComponentStore) -> (res:
        Option<StandardComponent>)
        ensures
            match res {
                Some(component) => component@ == (ComponentView {
                    name: name@,
                    kind: kind@,
                    store: store_seed@,
                }) && component@.kept(),
                None => !(ComponentView { name: name@, kind: kind@, store: store_seed@ }).kept(),
            },
    {
        if StandardComponent::fits(&kind, name, &store_seed) {
            Some(StandardComponent::new(kind, name, store_seed))
        } else {
            None
        }
    }

    /// Whether the store of the component holds what its readers expect
    /// under the keys of entities.
    pub fn is_kept(&self) -> (res: bool)
        ensures
            res == self@.kept(),
    {
        StandardComponent::fits(&self.kind, self.name.as_str(), &self.store)
    }

    /// The store of the component.
    pub fn get_store(&self) -> (res: &ComponentStore)
        ensures
            res@ == self@.store,
    {
        &self.store
    }

    /// The name of the component.
    pub fn get_name(&self) -> (res: String)
        ensures
            res@ == self@.name,
    {
        self.name.clone()
    }

    /// Whether the component is called `name`.
    pub fn is_named(&self, name: &String) -> (res: bool)
        ensures
            res == (self@.name == name@),
    {
        self.name == *name
    }

    /// What the component does.
    pub fn get_kind(&self) -> (res: &ComponentKind)
        ensures
            res@ == self@.kind,
    {
        &self.kind
    }

    /// Acts on `entity`, which `handle` names, for one tick. The store
    /// must hold what its readers expect, and still does after. `others` are
    /// the entities that a collision detector holds `entity` against;
    /// `blocked` is the direction that a detector attached to `entity` has
    /// published for it.
    pub fn act(
        &mut self,
        entity: &mut StandardEntity,
        handle: EntityHandle,
        others: &Registry,
        blocked: Option<Direction>,
    )
        requires
            old(self)@.kept(),
        ensures
            final(self)@ == old(self)@.after_act(old(entity)@, handle, others@, blocked),
            final(entity)@ == old(self)@.entity_after_act(old(entity)@, handle, others@, blocked),
            final(self)@.kept(),
    {
        proof {
            lemma_component_kept(
                old(self)@,
                old(entity)@,
                handle,
                others@,
                blocked,
                KeyEvent {
                    key: crate::components::keyboard_move::Key::Other,
                    action: crate::components::keyboard_move::Action::Press,
                },
            );
            if old(self)@.kind is Gravity {
                lemma_holds_found(old(self)@.store, Holding::Falls, handle);
            }
        }
        match &mut self.kind {
            ComponentKind::Collision(detector) => {
                let direction = detector.get_final_collission_direction(
                    others,
                    handle,
                    entity.get_shape(),
                );
                self.store.insert(
                    StoreKey::Entity(handle),
                    Value::Number(direction.to_number() as i64),
                );
                entity.set_collision_direction(direction);
            },
            ComponentKind::Gravity(gravity) => {
                gravity.act(entity, &mut self.store, handle);
            },
            ComponentKind::KeyboardMove(movement) => {
                movement.move_component(entity, blocked);
            },
            ComponentKind::RandMove(movement) => {
                movement.act(entity);
            },
        }
    }

    /// Hands a keyboard event to the component.
    pub fn listen_for_event(&mut self, event: &KeyEvent)
        ensures
            final(self)@ == old(self)@.after_event(*event),
            old(self)@.kept() ==> final(self)@.kept(),
    {
        match &mut self.kind {
            ComponentKind::KeyboardMove(movement) => {
                movement.listen_for_event(event);
            },
            _ => {},
        }
    }

    /// Takes out of the component what it keeps of the entity that
    /// `handle` names: what a collision detector has recorded of it and
    /// for it, and what the store holds under its key.
    pub fn forget(&mut self, handle: EntityHandle)
        ensures
            final(self)@ == old(self)@.without_entity(handle),
            old(self)@.kept() ==> final(self)@.kept(),
    {
        proof {
            if old(self)@.kept() {
                lemma_forget_kept(old(self)@, handle);
            }
        }
        match &mut self.kind {
            ComponentKind::Collision(detector) => {
                detector.retract(handle);
            },
            _ => {},
        }
        let key = StoreKey::Entity(handle);
        let _ = self.store.remove(&key);
    }
}

impl ComponentView {
    /// The component without what it keeps of the entity that `handle`
    /// names.
    pub open spec fn without_entity(self, handle: EntityHandle) -> ComponentView {
        ComponentView {
            name: self.name,
            kind: match self.kind {
                KindView::Collision(rows) => KindView::Collision(
                    crate::components::collide::retracted(rows, handle),
                ),
                _ => self.kind,
            },
            store: crate::bowtie::store::dropped(self.store, KeyView::Entity(handle)),
        }
    }
}

/// What a collision detector publishes is what it tells the entity: after
/// a detector has acted on an entity, its store holds under the entity's
/// key the direction in which the entity is blocked.
pub proof fn lemma_detector_publishes(
    component: ComponentView,
    entity: EntityView,
    handle: EntityHandle,
    others: SlotsView,
    blocked: Option<Direction>,
)
    requires
        component.kind is Collision,
    ensures
        published_direction(component.after_act(entity, handle, others, blocked).store, handle)
            == Some(
            component.entity_after_act(entity, handle, others, blocked).collision_direction,
        ),
{
    let direction = component.entity_after_act(
        entity,
        handle,
        others,
        blocked,
    ).collision_direction;
    let key = KeyView::Entity(handle);
    lemma_stored_lookup(component.store, key, Value::Number(direction.code() as i64), key);
}

/// A component whose store holds what its readers expect under the keys
/// of entities still is such a component after it has acted or has heard
/// of a key.
pub proof fn lemma_component_kept(
    component: ComponentView,
    entity: EntityView,
    handle: EntityHandle,
    others: SlotsView,
    blocked: Option<Direction>,
    event: KeyEvent,
)
    requires
        component.kept(),
    ensures
        component.after_act(entity, handle, others, blocked).kept(),
        component.after_event(event).kept(),
{
    let key = KeyView::Entity(handle);
    match component.kind {
        KindView::Collision(rows) => {
            let direction = aggregate(evaluated_entries(rows, others, handle, entity.shape));
            if component.name == "collision"@ {
                lemma_holds_kept(
                    component.store,
                    Holding::Directions,
                    key,
                    Value::Number(direction.code() as i64),
                );
            }
        },
        KindView::Gravity(gravity) => {
            let (speed, last_y) = gravity.fall_state(component.store, handle, entity.shape.y);
            lemma_holds_kept(
                component.store,
                Holding::Falls,
                key,
                Value::Vec2(
                    gravity.next_speed(speed, last_y, entity.shape.y) as i64,
                    GravityComponent::next_mark(last_y, entity.shape.y),
                ),
            );
        },
        _ => {},
    }
}

/// A component whose store holds what its readers expect under the keys
/// of entities still is such a component after it has forgotten an
/// entity.
pub proof fn lemma_forget_kept(component: ComponentView, handle: EntityHandle)
    requires
        component.kept(),
    ensures
        component.without_entity(handle).kept(),
{
    let key = KeyView::Entity(handle);
    if component.name == "collision"@ {
        lemma_holds_kept(component.store, Holding::Directions, key, Value::Null);
    }
    if component.kind is Gravity {
        lemma_holds_kept(component.store, Holding::Falls, key, Value::Null);
    }
}

/// The names under which the components that come with the kernel are
/// attached are four different names.
pub proof fn lemma_names_differ()
    ensures
        "gravity"@ != "collision"@,
        "keyboard_move"@ != "collision"@,
        "rand_move"@ != "collision"@,
{
    reveal_strlit("gravity");
    reveal_strlit("collision");
    reveal_strlit("keyboard_move");
    reveal_strlit("rand_move");
    assert("gravity"@.len() != "collision"@.len());
    assert("keyboard_move"@.len() != "collision"@.len());
    assert("rand_move"@[0] != "collision"@[0]);
}

impl CollisionComponent {
    /// The detector as a component called "collision" with an empty store.
    pub fn component(self) -> (res: StandardComponent)
        ensures
            res@ == (ComponentView {
                name: "collision"@,
                kind: KindView::Collision(self@),
                store: Seq::empty(),
            }),
            res@.kept(),
    {
        StandardComponent::new(ComponentKind::Collision(self), "collision", ComponentStore::new())
    }
}

impl GravityComponent {
    /// The pull as a component called "gravity" with an empty store.
    pub fn component(self) -> (res: StandardComponent)
        ensures
            res@ == (ComponentView {
                name: "gravity"@,
                kind: KindView::Gravity(self),
                store: Seq::empty(),
            }),
            res@.kept(),
    {
        proof {
            lemma_names_differ();
        }
        StandardComponent::new(ComponentKind::Gravity(self), "gravity", ComponentStore::new())
    }
}

impl KeyboardMoveComponent {
    /// The movement as a component called "keyboard_move" with an empty
    /// store.
    pub fn component(self) -> (res: StandardComponent)
        ensures
            res@ == (ComponentView {
                name: "keyboard_move"@,
                kind: KindView::KeyboardMove(self),
                store: Seq::empty(),
            }),
            res@.kept(),
    {
        proof {
            lemma_names_differ();
        }
        StandardComponent::new(
            ComponentKind::KeyboardMove(self),
            "keyboard_move",
            ComponentStore::new(),
        )
    }
}

impl RandMove {
    /// The movement as a component called "rand_move" with an empty store.
    pub fn component(self) -> (res: StandardComponent)
        ensures
            res@ == (ComponentView {
                name: "rand_move"@,
                kind: KindView::RandMove(self),
                store: Seq::empty(),
            }),
            res@.kept(),
    {
        proof {
            lemma_names_differ();
        }
        StandardComponent::new(ComponentKind::RandMove(self), "rand_move", ComponentStore::new())
    }
}

} // verus!
