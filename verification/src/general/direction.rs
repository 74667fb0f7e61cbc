//! The compass: eight directions and rest, with composition and removal.

use vstd::prelude::*;

verus! {

/// One of the eight compass directions, or `Stationary`.
#[derive(Debug, Copy, Clone, PartialEq, Eq, Structural)]
pub enum Direction {
    Up,
    Right,
    Down,
    Left,
    UpRight,
    DownRight,
    UpLeft,
    DownLeft,
    Stationary,
}

impl Direction {
    /// The horizontal component: 1 towards the right, -1 towards the left.
    pub open spec fn dx(self) -> int {
        match self {
            Direction::Right | Direction::UpRight | Direction::DownRight => 1,
            Direction::Left | Direction::UpLeft | Direction::DownLeft => -1,
            _ => 0,
        }
    }

    /// The vertical component: 1 upwards, -1 downwards.
    pub open spec fn dy(self) -> int {
        match self {
            Direction::Up | Direction::UpRight | Direction::UpLeft => 1,
            Direction::Down | Direction::DownRight | Direction::DownLeft => -1,
            _ => 0,
        }
    }

    /// The direction that points the way of the signs of `dx` and `dy`.
    pub open spec fn from_axes(dx: int, dy: int) -> Direction {
        if dx > 0 {
            if dy > 0 {
                Direction::UpRight
            } else if dy < 0 {
                Direction::DownRight
            } else {
                Direction::Right
            }
        } else if dx < 0 {
            if dy > 0 {
                Direction::UpLeft
            } else if dy < 0 {
                Direction::DownLeft
            } else {
                Direction::Left
            }
        } else {
            if dy > 0 {
                Direction::Up
            } else if dy < 0 {
                Direction::Down
            } else {
                Direction::Stationary
            }
        }
    }

    /// Up, Right, Down or Left: exactly one component is set.
    pub open spec fn is_cardinal(self) -> bool {
        (self.dx() == 0) != (self.dy() == 0)
    }

    /// Both components are set.
    pub open spec fn is_diagonal(self) -> bool {
        self.dx() != 0 && self.dy() != 0
    }

    /// Every component that `self` sets, `other` sets the same way.
    pub open spec fn within(self, other: Direction) -> bool {
        &&& self.dx() == 0 || self.dx() == other.dx()
        &&& self.dy() == 0 || self.dy() == other.dy()
    }

    /// One component after a cardinal direction has acted on its axis:
    /// `own` where the cardinal does not lie on this axis, nothing where
    /// the two point against each other, and the cardinal's otherwise.
    pub open spec fn joined(own: int, set: int) -> int {
        if set == 0 {
            own
        } else if own == -set {
            0
        } else {
            set
        }
    }

    /// `self` composed with `other`.
    ///
    /// Rest takes the other operand. A cardinal `other` acts on its own
    /// axis in `self` and leaves the other axis alone: it sets a component
    /// that was not set, so that two orthogonal cardinals give their
    /// diagonal; it leaves a component that points its own way; and it
    /// cancels a component that points against it, so that two opposite
    /// cardinals give rest and a diagonal loses that axis. A diagonal or
    /// resting `other` leaves a moving `self` as it is.
    pub open spec fn plus(self, other: Direction) -> Direction {
        if self == Direction::Stationary {
            other
        } else if other.is_cardinal() {
            Direction::from_axes(
                Direction::joined(self.dx(), other.dx()),
                Direction::joined(self.dy(), other.dy()),
            )
        } else {
            self
        }
    }

    /// `self` with the components of `other` taken out.
    ///
    /// Where one of the two lies within the other, each component on which
    /// they agree leaves `self`; unrelated operands leave `self` as it is.
    pub open spec fn minus(self, other: Direction) -> Direction {
        if self.within(other) || other.within(self) {
            Direction::from_axes(
                if other.dx() == self.dx() { 0 } else { self.dx() },
                if other.dy() == self.dy() { 0 } else { self.dy() },
            )
        } else {
            self
        }
    }

    /// The code under which a direction is kept in a store.
    pub open spec fn code(self) -> int {
        match self {
            Direction::Up => 0,
            Direction::Right => 1,
            Direction::Down => 2,
            Direction::Left => 3,
            Direction::UpRight => 4,
            Direction::DownRight => 5,
            Direction::UpLeft => 6,
            Direction::DownLeft => 7,
            Direction::Stationary => 8,
        }
    }

    /// The direction that has the code `num`; meaningful for 0 to 8.
    pub open spec fn of_code(num: int) -> Direction {
        if num == 0 {
            Direction::Up
        } else if num == 1 {
            Direction::Right
        } else if num == 2 {
            Direction::Down
        } else if num == 3 {
            Direction::Left
        } else if num == 4 {
            Direction::UpRight
        } else if num == 5 {
            Direction::DownRight
        } else if num == 6 {
            Direction::UpLeft
        } else if num == 7 {
            Direction::DownLeft
        } else {
            Direction::Stationary
        }
    }

    /// Whether `num` is the code of a direction.
    pub open spec fn is_code(num: int) -> bool {
        0 <= num <= 8
    }

    /// Takes from `self` the components that `other` shares with it.
    pub fn subtract_direction(&self, other: Direction) -> (res: Direction)
        ensures
            res == self.minus(other),
    {
        match *self {
            Direction::Stationary => Direction::Stationary,
            Direction::Right => match other {
                Direction::Right | Direction::UpRight | Direction::DownRight => {
                    Direction::Stationary
                },
                _ => *self,
            },
            Direction::Left => match other {
                Direction::Left | Direction::UpLeft | Direction::DownLeft => Direction::Stationary,
                _ => *self,
            },
            Direction::Up => match other {
                Direction::Up | Direction::UpRight | Direction::UpLeft => Direction::Stationary,
                _ => *self,
            },
            Direction::Down => match other {
                Direction::Down | Direction::DownLeft | Direction::DownRight => {
                    Direction::Stationary
                },
                _ => *self,
            },
            Direction::UpLeft => match other {
                Direction::Up => Direction::Left,
                Direction::Left => Direction::Up,
                Direction::UpLeft => Direction::Stationary,
                _ => *self,
            },
            Direction::UpRight => match other {
                Direction::Right => Direction::Up,
                Direction::Up => Direction::Right,
                Direction::UpRight => Direction::Stationary,
                _ => *self,
            },
            Direction::DownRight => match other {
                Direction::Down => Direction::Right,
                Direction::Right => Direction::Down,
                Direction::DownRight => Direction::Stationary,
                _ => *self,
            },
            Direction::DownLeft => match other {
                Direction::Down => Direction::Left,
                Direction::Left => Direction::Down,
                Direction::DownLeft => Direction::Stationary,
                _ => *self,
            },
        }
    }

    /// Composes `self` with `other`.
    pub fn add_direction(&self, other: Direction) -> (res: Direction)
        ensures
            res == self.plus(other),
    {
        match *self {
            Direction::Stationary => other,
            Direction::Right => match other {
                Direction::Up => Direction::UpRight,
                Direction::Down => Direction::DownRight,
                Direction::Left => Direction::Stationary,
                _ => *self,
            },
            Direction::Left => match other {
                Direction::Up => Direction::UpLeft,
                Direction::Down => Direction::DownLeft,
                Direction::Right => Direction::Stationary,
                _ => *self,
            },
            Direction::Up => match other {
                Direction::Left => Direction::UpLeft,
                Direction::Right => Direction::UpRight,
                Direction::Down => Direction::Stationary,
                _ => *self,
            },
            Direction::Down => match other {
                Direction::Right => Direction::DownRight,
                Direction::Left => Direction::DownLeft,
                Direction::Up => Direction::Stationary,
                _ => *self,
            },
            Direction::UpLeft => match other {
                Direction::Right => Direction::Up,
                Direction::Down => Direction::Left,
                _ => *self,
            },
            Direction::UpRight => match other {
                Direction::Left => Direction::Up,
                Direction::Down => Direction::Right,
                _ => *self,
            },
            Direction::DownRight => match other {
                Direction::Left => Direction::Down,
                Direction::Up => Direction::Right,
                _ => *self,
            },
            Direction::DownLeft => match other {
                Direction::Right => Direction::Down,
                Direction::Up => Direction::Left,
                _ => *self,
            },
        }
    }

    /// The direction as a step on the grid: each component is -1, 0 or 1.
    pub fn as_vector(&self) -> (res: (i32, i32))
        ensures
            res.0 == self.dx(),
            res.1 == self.dy(),
    {
        match *self {
            Direction::Up => (0, 1),
            Direction::Down => (0, -1),
            Direction::Left => (-1, 0),
            Direction::Right => (1, 0),
            Direction::UpLeft => (-1, 1),
            Direction::UpRight => (1, 1),
            Direction::DownLeft => (-1, -1),
            Direction::DownRight => (1, -1),
            Direction::Stationary => (0, 0),
        }
    }

    /// The code of the direction, from 0 to 8.
    pub fn to_number(&self) -> (res: i32)
        ensures
            res == self.code(),
            Direction::is_code(res as int),
    {
        match *self {
            Direction::Up => 0,
            Direction::Right => 1,
            Direction::Down => 2,
            Direction::Left => 3,
            Direction::UpRight => 4,
            Direction::DownRight => 5,
            Direction::UpLeft => 6,
            Direction::DownLeft => 7,
            Direction::Stationary => 8,
        }
    }

    /// The direction with the code `num`, which must be one of the nine.
    pub fn from_number(num: i32) -> (res: Direction)
        requires
            Direction::is_code(num as int),
        ensures
            res == Direction::of_code(num as int),
            res.code() == num,
    {
        if num == 0 {
            Direction::Up
        } else if num == 1 {
            Direction::Right
        } else if num == 2 {
            Direction::Down
        } else if num == 3 {
            Direction::Left
        } else if num == 4 {
            Direction::UpRight
        } else if num == 5 {
            Direction::DownRight
        } else if num == 6 {
            Direction::UpLeft
        } else if num == 7 {
            Direction::DownLeft
        } else {
            Direction::Stationary
        }
    }

    /// The direction with the code `num`, or `None` where `num` is no code.
    pub fn checked_from_number(num: i32) -> (res: Option<Direction>)
        ensures
            Direction::is_code(num as int) ==> res == Some(Direction::of_code(num as int)),
            !Direction::is_code(num as int) ==> res is None,
    {
        if 0 <= num && num <= 8 {
            Some(Direction::from_number(num))
        } else {
            None
        }
    }
}

/// Rest is neutral on both sides of composition.
pub proof fn lemma_stationary_is_identity(d: Direction)
    ensures
        d.plus(Direction::Stationary) == d,
        Direction::Stationary.plus(d) == d,
{
}

/// Taking a direction from itself leaves rest.
pub proof fn lemma_subtract_self(d: Direction)
    ensures
        d.minus(d) == Direction::Stationary,
{
}

/// Composing a direction onto rest and taking it out again gives rest
/// back.
pub proof fn lemma_add_then_subtract(d: Direction)
    ensures
        Direction::Stationary.plus(d).minus(d) == Direction::Stationary,
{
}

/// A code read back from a direction names that direction again, and a
/// direction read back from a code has that code.
pub proof fn lemma_number_round_trip(d: Direction, num: int)
    ensures
        Direction::of_code(d.code()) == d,
        Direction::is_code(d.code()),
        Direction::is_code(num) ==> Direction::of_code(num).code() == num,
{
}

/// Two cardinal directions that point against each other compose to
/// rest, whichever comes first.
pub proof fn lemma_opposites_cancel(a: Direction, b: Direction)
    requires
        a.is_cardinal(),
        b.is_cardinal(),
        a.dx() == -b.dx(),
        a.dy() == -b.dy(),
    ensures
        a.plus(b) == Direction::Stationary,
        b.plus(a) == Direction::Stationary,
{
}

/// A cardinal direction acts on its own axis only, and what is left after
/// a removal lies within what was there before.
pub proof fn lemma_axes(a: Direction, b: Direction)
    ensures
        a != Direction::Stationary && b.is_cardinal() ==> a.plus(b).dx() == Direction::joined(
            a.dx(),
            b.dx(),
        ) && a.plus(b).dy() == Direction::joined(a.dy(), b.dy()),
        a.minus(b).within(a),
{
}

/// A direction that lies within another is void once that one is taken
/// out of it: a request to move into a blocked edge comes to rest.
pub proof fn lemma_subtract_blocked(request: Direction, blocked: Direction)
    requires
        request.within(blocked),
    ensures
        request.minus(blocked) == Direction::Stationary,
{
}

} // verus!
