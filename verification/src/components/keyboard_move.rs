//! Movement by the four arrow keys.

use vstd::prelude::*;
use crate::bowtie::entity::{clamp_i32, clamp_to_i32, EntityHandle, EntityView, StandardEntity};
use crate::bowtie::store::{
    holds,
    lemma_holds_found,
    lookup,
    ComponentStore,
    Holding,
    KeyView,
    StoreKey,
    StoreView,
};
use crate::general::direction::lemma_subtract_blocked;
use crate::general::direction::Direction;
use crate::general::value::Value;

verus! {

/// A key of the keyboard, as far as movement cares.
#[derive(Debug, Copy, Clone, PartialEq, Eq, Structural)]
pub enum Key {
    Right,
    Left,
    Up,
    Down,
    Other,
}

/// What happened to a key.
#[derive(Debug, Copy, Clone, PartialEq, Eq, Structural)]
pub enum Action {
    Press,
    Repeat,
    Release,
}

/// One event of the keyboard.
#[derive(Debug, Copy, Clone, PartialEq, Eq, Structural)]
pub struct KeyEvent {
    pub key: Key,
    pub action: Action,
}

impl Key {
    /// The direction that the key asks for; rest for a key that asks for
    /// none.
    pub open spec fn direction(self) -> Direction {
        match self {
            Key::Right => Direction::Right,
            Key::Left => Direction::Left,
            Key::Up => Direction::Up,
            Key::Down => Direction::Down,
            Key::Other => Direction::Stationary,
        }
    }

    /// The direction that the key asks for.
    pub fn as_direction(&self) -> (res: Direction)
        ensures
            res == self.direction(),
    {
        match self {
            Key::Right => Direction::Right,
            Key::Left => Direction::Left,
            Key::Up => Direction::Up,
            Key::Down => Direction::Down,
            Key::Other => Direction::Stationary,
        }
    }
}

/// The direction asked for after `event`, where `direction` was asked for
/// before: a key that goes down, or is held, adds its direction, and a
/// key that comes up takes it out.
pub open spec fn heard(direction: Direction, event: KeyEvent) -> Direction {
    if event.key == Key::Other {
        direction
    } else if event.action == Action::Release {
        direction.minus(event.key.direction())
    } else {
        direction.plus(event.key.direction())
    }
}

/// Whether `store` holds under the key of the entity that `handle` names
/// what a collision detector publishes there: nothing yet, or the code of
/// a direction.
pub open spec fn publishes(store: StoreView, handle: EntityHandle) -> bool {
    lookup(store, KeyView::Entity(handle)) matches Some(value) ==> Holding::Directions.admits(
        value,
    )
}

/// The direction that a collision detector has published in `store` for
/// the entity that `handle` names, if it has published one.
pub open spec fn published_direction(store: StoreView, handle: EntityHandle) -> Option<Direction> {
    match lookup(store, KeyView::Entity(handle)) {
        Some(Value::Number(code)) => Some(Direction::of_code(code as int)),
        _ => None,
    }
}

/// Reads the direction that a collision detector has published in `store`
/// for the entity that `handle` names; `None` where it has published
/// none yet. Under the entity's key `store` must hold nothing but the
/// code of a direction.
pub fn read_published_direction(store: &ComponentStore, handle: EntityHandle) -> (res: Option<
    Direction,
>)
    requires
        publishes(store@, handle),
    ensures
        res == published_direction(store@, handle),
        res is None <==> lookup(store@, KeyView::Entity(handle)) is None,
{
    let key = StoreKey::Entity(handle);
    match store.get(&key) {
        Some(value) => match value.as_number() {
            Some(code) => Some(Direction::from_number(code as i32)),
            None => None,
        },
        None => None,
    }
}

/// Movement under the arrow keys: the speed of the next move, what each
/// move adds to it until the top speed is reached, and the direction that
/// the keys held down ask for.
#[derive(Debug, Copy, Clone, PartialEq, Eq, Structural)]
pub struct KeyboardMoveComponent {
    pub speed: i32,
    pub acceleration: i32,
    pub next_direction: Direction,
    pub top_speed: i32,
}

impl KeyboardMoveComponent {
    /// The direction of the next move: what the keys ask for, less the
    /// direction in which a collision detector says the entity is blocked.
    pub open spec fn heading(self, blocked: Option<Direction>) -> Direction {
        match blocked {
            Some(direction) => self.next_direction.minus(direction),
            None => self.next_direction,
        }
    }

    /// The component after a move: faster, until the top speed is reached.
    pub open spec fn after_move(self) -> KeyboardMoveComponent {
        if self.next_direction == Direction::Stationary {
            self
        } else if self.speed < self.top_speed {
            KeyboardMoveComponent { speed: clamp_i32(self.speed + self.acceleration), ..self }
        } else {
            self
        }
    }

    /// The entity after the component has acted on it.
    pub open spec fn entity_after(self, entity: EntityView, blocked: Option<Direction>)
        -> EntityView {
        if self.next_direction == Direction::Stationary {
            entity
        } else {
            entity.moved(self.heading(blocked), self.speed as int)
        }
    }

    /// Movement that starts at `speed` and at rest.
    pub fn new(speed: i32, acceleration: i32, top_speed: i32) -> (res: KeyboardMoveComponent)
        ensures
            res == (KeyboardMoveComponent {
                speed,
                acceleration,
                next_direction: Direction::Stationary,
                top_speed,
            }),
    {
        KeyboardMoveComponent {
            speed,
            acceleration,
            next_direction: Direction::Stationary,
            top_speed,
        }
    }

    /// The name under which the component is attached.
    pub fn get_name() -> (res: String)
        ensures
            res@ == "keyboard_move"@,
    {
        "keyboard_move".to_owned()
    }

    /// The direction that the keys held down ask for.
    pub fn get_next_direction(&self) -> (res: Direction)
        ensures
            res == self.next_direction,
    {
        self.next_direction
    }

    /// Moves `entity` the way the keys ask for, less the direction
    /// `blocked` that a collision detector has published for it, and
    /// gains speed. Nothing happens while no key asks for a direction.
    pub fn move_component(&mut self, entity: &mut StandardEntity, blocked: Option<Direction>)
        ensures
            *final(self) == old(self).after_move(),
            final(entity)@ == old(self).entity_after(old(entity)@, blocked),
    {
        let mut direction = self.next_direction;
        if direction == Direction::Stationary {
            return ;
        }
        match blocked {
            Some(collision_direction) => {
                direction = direction.subtract_direction(collision_direction);
            },
            None => {},
        }
        entity.move_in_direction(direction, self.speed);
        if self.speed < self.top_speed {
            self.speed = clamp_to_i32(self.speed as i64 + self.acceleration as i64);
        }
    }

    /// Takes note of a key that went down or came up.
    pub fn listen_for_event(&mut self, event: &KeyEvent)
        ensures
            *final(self) == (KeyboardMoveComponent {
                next_direction: heard(old(self).next_direction, *event),
                ..*old(self)
            }),
    {
        let direction = self.next_direction;
        match event.key {
            Key::Other => {},
            _ => match event.action {
                Action::Press => {
                    self.next_direction = direction.add_direction(event.key.as_direction());
                },
                Action::Repeat => {
                    self.next_direction = direction.add_direction(event.key.as_direction());
                },
                Action::Release => {
                    self.next_direction = direction.subtract_direction(event.key.as_direction());
                },
            },
        }
    }
}

/// A key that goes down and comes up again, with no other key held,
/// leaves nothing asked for.
pub proof fn lemma_press_then_release(key: Key)
    ensures
        heard(
            heard(Direction::Stationary, KeyEvent { key, action: Action::Press }),
            KeyEvent { key, action: Action::Release },
        ) == Direction::Stationary,
{
}

/// An entity that is blocked in the direction it is asked to move in
/// stays where it is.
pub proof fn lemma_blocked_move(entity: EntityView, direction: Direction, strength: int)
    requires
        direction.within(entity.collision_direction),
    ensures
        entity.moved(direction, strength) == entity,
{
    lemma_subtract_blocked(direction, entity.collision_direction);
    assert(0 * strength == 0);
}

/// In a store that holds nothing but codes of directions under the keys
/// of entities, what is found under the key of any entity can be read
/// back as a direction.
pub proof fn lemma_published_is_read(store: StoreView, handle: EntityHandle)
    requires
        holds(store, Holding::Directions),
    ensures
        publishes(store, handle),
{
    lemma_holds_found(store, Holding::Directions, handle);
}

} // verus!
