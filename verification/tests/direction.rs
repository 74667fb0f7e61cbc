use bowtie::general::direction::Direction;

const ALL: [Direction; 9] = [
    Direction::Up,
    Direction::Right,
    Direction::Down,
    Direction::Left,
    Direction::UpRight,
    Direction::DownRight,
    Direction::UpLeft,
    Direction::DownLeft,
    Direction::Stationary,
];

const CARDINAL: [Direction; 4] = [
    Direction::Up,
    Direction::Right,
    Direction::Down,
    Direction::Left,
];

#[test]
fn stationary_is_neutral_for_composition() {
    for d in ALL {
        assert_eq!(d.add_direction(Direction::Stationary), d);
        assert_eq!(Direction::Stationary.add_direction(d), d);
    }
}

#[test]
fn a_direction_less_itself_is_rest() {
    for d in CARDINAL {
        assert_eq!(d.subtract_direction(d), Direction::Stationary);
    }
    for d in ALL {
        assert_eq!(d.subtract_direction(d), Direction::Stationary);
    }
}

#[test]
fn orthogonal_cardinals_make_a_diagonal_and_come_apart_again() {
    assert_eq!(Direction::Right.add_direction(Direction::Up), Direction::UpRight);
    assert_eq!(
        Direction::UpRight.subtract_direction(Direction::Up),
        Direction::Right
    );
    assert_eq!(
        Direction::UpRight.subtract_direction(Direction::Right),
        Direction::Up
    );
    assert_eq!(Direction::Up.add_direction(Direction::Left), Direction::UpLeft);
    assert_eq!(Direction::Down.add_direction(Direction::Left), Direction::DownLeft);
    assert_eq!(Direction::Down.add_direction(Direction::Right), Direction::DownRight);
}

#[test]
fn numbers_and_directions_round_trip() {
    for (code, d) in ALL.iter().enumerate() {
        assert_eq!(d.to_number(), code as i32);
        assert_eq!(Direction::from_number(code as i32), *d);
        assert_eq!(Direction::from_number(d.to_number()), *d);
        assert_eq!(Direction::checked_from_number(code as i32), Some(*d));
    }
    assert_eq!(Direction::checked_from_number(9), None);
    assert_eq!(Direction::checked_from_number(-1), None);
}

#[test]
fn opposite_cardinals_cancel() {
    assert_eq!(Direction::Right.add_direction(Direction::Left), Direction::Stationary);
    assert_eq!(Direction::Left.add_direction(Direction::Right), Direction::Stationary);
    assert_eq!(Direction::Up.add_direction(Direction::Down), Direction::Stationary);
    assert_eq!(Direction::Down.add_direction(Direction::Up), Direction::Stationary);
}

#[test]
fn a_cardinal_acts_on_its_own_axis() {
    // Against a component of a diagonal it cancels that axis.
    assert_eq!(Direction::UpLeft.add_direction(Direction::Right), Direction::Up);
    assert_eq!(Direction::UpLeft.add_direction(Direction::Down), Direction::Left);
    assert_eq!(Direction::UpRight.add_direction(Direction::Left), Direction::Up);
    assert_eq!(Direction::UpRight.add_direction(Direction::Down), Direction::Right);
    assert_eq!(Direction::DownRight.add_direction(Direction::Up), Direction::Right);
    assert_eq!(Direction::DownRight.add_direction(Direction::Left), Direction::Down);
    assert_eq!(Direction::DownLeft.add_direction(Direction::Up), Direction::Left);
    assert_eq!(Direction::DownLeft.add_direction(Direction::Right), Direction::Down);
    // The way of a component it leaves that component as it is.
    assert_eq!(Direction::UpRight.add_direction(Direction::Up), Direction::UpRight);
    assert_eq!(Direction::Right.add_direction(Direction::Right), Direction::Right);
}

#[test]
fn a_diagonal_leaves_a_moving_direction_alone() {
    assert_eq!(Direction::Right.add_direction(Direction::UpRight), Direction::Right);
    assert_eq!(Direction::UpLeft.add_direction(Direction::DownRight), Direction::UpLeft);
    assert_eq!(Direction::Down.add_direction(Direction::UpLeft), Direction::Down);
}

#[test]
fn subtraction_takes_out_shared_components_only() {
    assert_eq!(
        Direction::Right.subtract_direction(Direction::UpRight),
        Direction::Stationary
    );
    assert_eq!(
        Direction::Right.subtract_direction(Direction::DownRight),
        Direction::Stationary
    );
    assert_eq!(Direction::Right.subtract_direction(Direction::Left), Direction::Right);
    assert_eq!(Direction::Right.subtract_direction(Direction::Up), Direction::Right);
    assert_eq!(
        Direction::UpLeft.subtract_direction(Direction::UpRight),
        Direction::UpLeft
    );
    assert_eq!(Direction::UpLeft.subtract_direction(Direction::Up), Direction::Left);
    assert_eq!(Direction::DownLeft.subtract_direction(Direction::Left), Direction::Down);
    assert_eq!(
        Direction::Stationary.subtract_direction(Direction::Up),
        Direction::Stationary
    );
    for d in ALL {
        assert_eq!(d.subtract_direction(Direction::Stationary), d);
    }
}

#[test]
fn each_direction_is_a_unit_step() {
    assert_eq!(Direction::Up.as_vector(), (0, 1));
    assert_eq!(Direction::Down.as_vector(), (0, -1));
    assert_eq!(Direction::Left.as_vector(), (-1, 0));
    assert_eq!(Direction::Right.as_vector(), (1, 0));
    assert_eq!(Direction::UpLeft.as_vector(), (-1, 1));
    assert_eq!(Direction::UpRight.as_vector(), (1, 1));
    assert_eq!(Direction::DownLeft.as_vector(), (-1, -1));
    assert_eq!(Direction::DownRight.as_vector(), (1, -1));
    assert_eq!(Direction::Stationary.as_vector(), (0, 0));
}

#[test]
fn composition_depends_on_order_outside_the_order_free_lists() {
    let fold = |directions: &[Direction]| {
        directions
            .iter()
            .fold(Direction::Stationary, |sum, d| sum.add_direction(*d))
    };
    // Two orthogonal cardinals compose to the same diagonal either way.
    assert_eq!(fold(&[Direction::Right, Direction::Up]), Direction::UpRight);
    assert_eq!(fold(&[Direction::Up, Direction::Right]), Direction::UpRight);
    // Two opposite cardinals cancel either way.
    assert_eq!(fold(&[Direction::Right, Direction::Left]), Direction::Stationary);
    assert_eq!(fold(&[Direction::Left, Direction::Right]), Direction::Stationary);
    assert_eq!(
        fold(&[Direction::Up, Direction::Right, Direction::Down]),
        Direction::Right
    );
    assert_eq!(
        fold(&[Direction::Down, Direction::Up, Direction::Right]),
        Direction::Right
    );
    // A cardinal and a diagonal do not compose to the same either way.
    assert_eq!(fold(&[Direction::Right, Direction::UpRight]), Direction::Right);
    assert_eq!(fold(&[Direction::UpRight, Direction::Right]), Direction::UpRight);
    // Nor does a cardinal that comes twice with its opposite.
    assert_eq!(
        fold(&[Direction::Right, Direction::Right, Direction::Left]),
        Direction::Stationary
    );
    assert_eq!(
        fold(&[Direction::Right, Direction::Left, Direction::Right]),
        Direction::Right
    );
}
