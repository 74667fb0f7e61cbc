//! Gravity: entities fall, faster with every tick, until something stops
//! them.

use vstd::prelude::*;
use crate::bowtie::entity::{clamp_i32, clamp_to_i32, EntityHandle, EntityView, StandardEntity};
use crate::bowtie::store::{lookup, stored, ComponentStore, KeyView, StoreKey, StoreView};
use crate::general::direction::Direction;
use crate::general::value::Value;

verus! {

/// The pull on every entity that the component is attached to: the speed
/// at which a fall begins, what each tick adds to it, and the speed from
/// which on nothing is added.
#[derive(Debug, Copy, Clone, PartialEq, Eq, Structural)]
pub struct GravityComponent {
    pub speed: i32,
    pub acceleration: i32,
    pub terminal_velocity: i32,
}

/// `speed` by `divisor`, rounded towards zero.
pub open spec fn scaled_down(speed: int, divisor: int) -> int {
    if speed >= 0 {
        speed / divisor
    } else {
        -((-speed) / divisor)
    }
}

/// `speed` by `divisor`, rounded towards zero.
fn scale_down(speed: i32, divisor: i32) -> (res: i32)
    requires
        divisor > 0,
    ensures
        res == scaled_down(speed as int, divisor as int),
{
    if speed >= 0 {
        speed / divisor
    } else {
        let positive: i64 = -(speed as i64);
        let quotient: i64 = positive / (divisor as i64);
        assert(0 <= quotient <= positive) by (nonlinear_arith)
            requires
                quotient == (positive as int) / (divisor as int),
                positive >= 0,
                divisor > 0,
        ;
        (-quotient) as i32
    }
}

impl GravityComponent {
    /// Whether `store` holds under the key of the entity that `handle`
    /// names what gravity keeps there: nothing yet, or the speed and the
    /// place of a fall.
    pub open spec fn keeps_fall(store: StoreView, handle: EntityHandle) -> bool {
        lookup(store, KeyView::Entity(handle)) matches Some(value) ==> value is Vec2
    }

    /// The speed and the top edge that a fall goes on from, for an entity
    /// whose top edge is at `y`: what `store` holds of the entity, and
    /// the starting speed and `y` where it holds nothing yet.
    pub open spec fn fall_state(self, store: StoreView, handle: EntityHandle, y: i32) -> (
        i32,
        i64,
    ) {
        match lookup(store, KeyView::Entity(handle)) {
            Some(Value::Vec2(speed, last_y)) => (clamp_i32(speed as int), last_y),
            _ => (self.speed, y as i64),
        }
    }

    /// The speed of a fall after one more tick. A fall that has not
    /// reached the terminal velocity gains the acceleration; an entity
    /// whose top edge is where the last tick saw it has stopped falling
    /// and starts over.
    pub open spec fn next_speed(self, speed: i32, last_y: i64, y: i32) -> i32 {
        if y == last_y {
            self.speed
        } else if speed < self.terminal_velocity {
            clamp_i32(speed + self.acceleration)
        } else {
            speed
        }
    }

    /// The top edge to remember for the next tick.
    pub open spec fn next_mark(last_y: i64, y: i32) -> i64 {
        if y == last_y {
            last_y
        } else {
            y as i64
        }
    }

    /// The store after the component has acted on the entity.
    pub open spec fn store_after(self, store: StoreView, entity: EntityView, handle: EntityHandle)
        -> StoreView {
        let (speed, last_y) = self.fall_state(store, handle, entity.shape.y);
        stored(
            store,
            KeyView::Entity(handle),
            Value::Vec2(
                self.next_speed(speed, last_y, entity.shape.y) as i64,
                GravityComponent::next_mark(last_y, entity.shape.y),
            ),
        )
    }

    /// The entity after the component has acted on it: it has moved down
    /// by the speed of its fall.
    pub open spec fn entity_after(self, store: StoreView, entity: EntityView, handle: EntityHandle)
        -> EntityView {
        let (speed, last_y) = self.fall_state(store, handle, entity.shape.y);
        entity.moved(Direction::Down, self.next_speed(speed, last_y, entity.shape.y) as int)
    }

    /// A pull that begins at a hundredth of `speed`, adds a fifth of
    /// `speed` with every tick, and stops adding at a thousand times
    /// `speed`.
    pub fn new(speed: i32) -> (res: GravityComponent)
        ensures
            res == (GravityComponent {
                speed: scaled_down(speed as int, 100) as i32,
                acceleration: scaled_down(speed as int, 5) as i32,
                terminal_velocity: clamp_i32(speed * 1000),
            }),
    {
        let product: i64 = speed as i64 * 1000;
        GravityComponent {
            speed: scale_down(speed, 100),
            acceleration: scale_down(speed, 5),
            terminal_velocity: clamp_to_i32(product),
        }
    }

    /// The name under which the component is attached.
    pub fn get_name() -> (res: String)
        ensures
            res@ == "gravity"@,
    {
        "gravity".to_owned()
    }

    /// Lets the entity fall for one tick, and keeps the speed of its fall
    /// and where its top edge was in `store` under the entity's key.
    /// Under that key `store` must hold what gravity keeps there.
    pub fn act(&self, entity: &mut StandardEntity, store: &mut ComponentStore, handle: EntityHandle)
        requires
            GravityComponent::keeps_fall(old(store)@, handle),
        ensures
            final(store)@ == self.store_after(old(store)@, old(entity)@, handle),
            final(entity)@ == self.entity_after(old(store)@, old(entity)@, handle),
    {
        let key = StoreKey::Entity(handle);
        let entity_y = entity.get_y();
        let (speed, last_y): (i32, i64) = match store.get(&key) {
            None => (self.speed, entity_y as i64),
            Some(value) => match value.as_vec2() {
                Some((speed, last_y)) => (clamp_to_i32(speed), last_y),
                None => (self.speed, entity_y as i64),
            },
        };
        let next: i32 = if entity_y as i64 == last_y {
            self.speed
        } else if speed < self.terminal_velocity {
            clamp_to_i32(speed as i64 + self.acceleration as i64)
        } else {
            speed
        };
        let mark: i64 = if entity_y as i64 == last_y {
            last_y
        } else {
            entity_y as i64
        };
        store.insert(key, Value::Vec2(next as i64, mark));
        entity.move_in_direction(Direction::Down, next);
    }
}

} // verus!
