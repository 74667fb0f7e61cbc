//! Movement in a direction that chance picks once.

use vstd::prelude::*;
use rand::Rng;
use crate::bowtie::entity::{EntityView, StandardEntity};
use crate::general::direction::Direction;

verus! {

/// Draws a whole number from `low` up to, but not including, `high` with
/// `rand::Rng::gen_range` on the generator of the thread,
/// `rand::thread_rng`. The contract claims what the documentation of
/// `gen_range` promises of every draw: the number lies in the range. The
/// call panics on an empty range, which `requires` leaves out.
#[verifier::external_body]
fn draw_in_range(low: i32, high: i32) -> (res: i32)
    requires
        low < high,
    ensures
        low <= res < high,
{
    rand::thread_rng().gen_range(low..high)
}

/// Steady movement: the same step in the same direction with every tick.
#[derive(Debug, Copy, Clone, PartialEq, Eq, Structural)]
pub struct RandMove {
    pub direction: Direction,
    pub magnitude: i32,
}

impl RandMove {
    /// Whether `code` and `magnitude` are a draw that `new` can come to
    /// with the limit `limit`: one of the eight moving directions, and a
    /// step that is not negative and stays below the limit, or is 0 where
    /// the limit leaves no room.
    pub open spec fn is_draw(code: int, magnitude: int, limit: int) -> bool {
        &&& 0 <= code < 8
        &&& if limit > 0 {
            0 <= magnitude < limit
        } else {
            magnitude == 0
        }
    }

    /// The movement that the draw of `code` and `magnitude` stands for.
    pub open spec fn of_draw(code: int, magnitude: int) -> RandMove {
        RandMove { direction: Direction::of_code(code), magnitude: magnitude as i32 }
    }

    /// The entity after the movement has acted on it.
    pub open spec fn entity_after(self, entity: EntityView) -> EntityView {
        entity.moved(self.direction, self.magnitude as int)
    }

    /// The movement that the draw of `code` and `magnitude` stands for, or
    /// `None` where `code` is no code of a moving direction or `magnitude`
    /// is negative.
    pub fn from_draw(code: i32, magnitude: i32) -> (res: Option<RandMove>)
        ensures
            0 <= code < 8 && magnitude >= 0 ==> res == Some(
                RandMove::of_draw(code as int, magnitude as int),
            ),
            !(0 <= code < 8 && magnitude >= 0) ==> res is None,
    {
        if 0 <= code && code < 8 && magnitude >= 0 {
            Some(RandMove { direction: Direction::from_number(code), magnitude })
        } else {
            None
        }
    }

    /// Movement in a direction and with a step that chance picks: one of
    /// the eight moving directions, and a step below `limit`.
    pub fn new(limit: i32) -> (res: RandMove)
        ensures
            exists|code: int, magnitude: int|
                RandMove::is_draw(code, magnitude, limit as int) && res == RandMove::of_draw(
                    code,
                    magnitude,
                ),
    {
        let code = draw_in_range(0, 8);
        let magnitude = if limit > 0 {
            draw_in_range(0, limit)
        } else {
            0
        };
        let res = RandMove { direction: Direction::from_number(code), magnitude };
        assert(RandMove::is_draw(code as int, magnitude as int, limit as int) && res
            == RandMove::of_draw(code as int, magnitude as int));
        res
    }

    /// The name under which the component is attached.
    pub fn get_name() -> (res: String)
        ensures
            res@ == "rand_move"@,
    {
        "rand_move".to_owned()
    }

    /// Moves `entity` by the step of the movement in its direction, less
    /// the components in which the entity is blocked.
    pub fn act(&self, entity: &mut StandardEntity)
        ensures
            final(entity)@ == self.entity_after(old(entity)@),
    {
        entity.move_in_direction(self.direction, self.magnitude);
    }
}

} // verus!
