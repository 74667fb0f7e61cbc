use bowtie::bowtie::controller::BowTie;
use bowtie::bowtie::entity::{EntityHandle, StandardEntity};
use bowtie::bowtie::registry::RegistryError;
use bowtie::bowtie::store::StoreKey;
use bowtie::components::collide::CollisionComponent;
use bowtie::components::keyboard_move::{
    read_published_direction, Action, Key, KeyEvent, KeyboardMoveComponent,
};
use bowtie::general::direction::Direction;
use bowtie::gl_utils::gl_texture::Texture;
use bowtie::shapes::rectangle::Rectangle;

/// Grid units to one unit of the world these scenes are written in.
const SCALE: f32 = 1000.0;

fn units(length: f32) -> i32 {
    (length * SCALE).round() as i32
}

fn entity(x: f32, y: f32, width: f32, height: f32) -> StandardEntity {
    StandardEntity::new(
        Rectangle::new(units(x), units(y), units(width), units(height)),
        Texture::none(),
        0,
    )
}

#[test]
fn overlap_to_the_right_is_reported_once_the_other_was_a_subject() {
    let mut world = BowTie::new();
    let detector = world.add_component(CollisionComponent::new().component());
    let a = world.load_entity(entity(0.0, 0.0, 0.2, 0.3)).unwrap();
    let b = world.load_entity(entity(0.1, 0.0, 0.2, 0.3)).unwrap();
    world.attach(a, detector).unwrap();
    world.attach(b, detector).unwrap();

    // B is evaluated first and becomes a key of the ledger; it sees nobody.
    world.act_on_components(b.index);
    assert_eq!(
        world.get_entity(b).unwrap().get_collision_direction(),
        Direction::Stationary
    );
    // A is evaluated next and is held against B.
    world.act_on_components(a.index);
    // Right, down and up are met: down and up cancel, right stays.
    let blocked = world.get_entity(a).unwrap().get_collision_direction();
    assert_eq!(blocked, Direction::Right);
    assert_eq!(blocked.as_vector().0, 1);

    let component = world.component(detector).unwrap();
    assert_eq!(
        read_published_direction(component.get_store(), a),
        Some(Direction::Right)
    );
    assert!(component.get_store().contains_key(&StoreKey::Entity(b)));
}

#[test]
fn an_entity_that_was_never_a_subject_is_not_held_against() {
    let mut world = BowTie::new();
    let detector = world.add_component(CollisionComponent::new().component());
    let a = world.load_entity(entity(0.0, 0.0, 0.2, 0.3)).unwrap();
    let _b = world.load_entity(entity(0.1, 0.0, 0.2, 0.3)).unwrap();
    world.attach(a, detector).unwrap();
    // B overlaps A but carries no detector, so it never becomes a key.
    world.tick();
    world.tick();
    assert_eq!(
        world.get_entity(a).unwrap().get_collision_direction(),
        Direction::Stationary
    );
}

#[test]
fn a_recorded_collision_keeps_its_first_direction() {
    let mut world = BowTie::new();
    let detector = world.add_component(CollisionComponent::new().component());
    let a = world.load_entity(entity(0.0, 0.0, 0.2, 0.3)).unwrap();
    let b = world.load_entity(entity(0.1, 0.0, 0.2, 0.3)).unwrap();
    world.attach(b, detector).unwrap();
    world.attach(a, detector).unwrap();
    world.act_on_components(b.index);
    world.act_on_components(a.index);
    assert_eq!(
        world.get_entity(a).unwrap().get_collision_direction(),
        Direction::Right
    );
    // B sinks a little: the edge tests now give another direction, but the
    // pair still overlaps and the first direction stays.
    world.move_entity(b, Direction::Down, units(0.1)).unwrap();
    assert_eq!(
        CollisionComponent::calculate_collision_direction(
            world.get_entity(a).unwrap().get_shape(),
            world.get_entity(b).unwrap().get_shape()
        ),
        Direction::DownRight
    );
    world.act_on_components(a.index);
    assert_eq!(
        world.get_entity(a).unwrap().get_collision_direction(),
        Direction::Right
    );
    // B falls out of reach: the record goes.
    world.move_entity(b, Direction::Down, units(5.0)).unwrap();
    world.act_on_components(a.index);
    assert_eq!(
        world.get_entity(a).unwrap().get_collision_direction(),
        Direction::Stationary
    );
    // B comes back to where it sank to: the direction found now is kept.
    world.move_entity(b, Direction::Up, units(5.0)).unwrap();
    world.act_on_components(a.index);
    assert_eq!(
        world.get_entity(a).unwrap().get_collision_direction(),
        Direction::DownRight
    );
}

#[test]
fn a_collision_is_forgotten_when_the_pair_comes_apart() {
    let mut world = BowTie::new();
    let detector = world.add_component(CollisionComponent::new().component());
    let keys = world.add_component(KeyboardMoveComponent::new(units(1.0), 0, units(1.0)).component());
    let b = world.load_entity(entity(0.1, 0.0, 0.2, 0.3)).unwrap();
    let a = world.load_entity(entity(0.0, 0.0, 0.2, 0.3)).unwrap();
    world.attach(b, detector).unwrap();
    world.attach(a, detector).unwrap();
    world.attach(a, keys).unwrap();
    world.tick();
    assert_eq!(
        world.get_entity(a).unwrap().get_collision_direction(),
        Direction::Right
    );
    // Left is not blocked: A moves a whole unit away and the record goes.
    assert!(world.listen_for_event(keys, &KeyEvent { key: Key::Left, action: Action::Press }));
    world.tick();
    assert_eq!(world.get_entity(a).unwrap().get_x(), units(-1.0));
    world.tick();
    assert_eq!(
        world.get_entity(a).unwrap().get_collision_direction(),
        Direction::Stationary
    );
    match world.component(detector).unwrap().get_kind() {
        bowtie::bowtie::component::ComponentKind::Collision(ledger) => {
            assert!(!ledger.get_is_collided(a));
            assert_eq!(ledger.get_entity_collision_direction(a), Direction::Stationary);
        }
        _ => panic!("the detector is a collision component"),
    }
}

#[test]
fn movement_into_a_blocked_edge_is_suppressed() {
    let mut world = BowTie::new();
    let detector = world.add_component(CollisionComponent::new().component());
    let keys = world.add_component(KeyboardMoveComponent::new(7, 0, 7).component());
    let b = world.load_entity(entity(0.1, 0.0, 0.2, 0.3)).unwrap();
    let a = world.load_entity(entity(0.0, 0.0, 0.2, 0.3)).unwrap();
    world.attach(b, detector).unwrap();
    world.attach(a, detector).unwrap();
    world.attach(a, keys).unwrap();
    assert!(world.listen_for_event(keys, &KeyEvent { key: Key::Right, action: Action::Press }));
    world.tick();
    // The aggregate for A holds Right, so the request for Right is void.
    assert_eq!(
        world.get_entity(a).unwrap().get_collision_direction(),
        Direction::Right
    );
    assert_eq!(
        Direction::Right.subtract_direction(Direction::Right),
        Direction::Stationary
    );
    assert_eq!(
        Direction::Right.subtract_direction(Direction::UpRight),
        Direction::Stationary
    );
    assert_eq!(world.get_entity(a).unwrap().get_x(), 0);
    assert_eq!(world.get_entity(a).unwrap().get_y(), 0);
    world.tick();
    assert_eq!(world.get_entity(a).unwrap().get_x(), 0);
}

#[test]
fn press_then_release_returns_to_rest() {
    let mut movement = KeyboardMoveComponent::new(1, 1, 10);
    movement.listen_for_event(&KeyEvent { key: Key::Right, action: Action::Press });
    assert_eq!(movement.get_next_direction(), Direction::Right);
    movement.listen_for_event(&KeyEvent { key: Key::Right, action: Action::Release });
    assert_eq!(movement.get_next_direction(), Direction::Stationary);
}

#[test]
fn a_stale_handle_names_nothing() {
    let mut world = BowTie::new();
    let a = world.load_entity(entity(0.0, 0.0, 0.2, 0.3)).unwrap();
    assert_eq!(world.get_entity_count(), 1);
    assert!(world.unload_entity(a).is_ok());
    assert_eq!(world.get_entity_count(), 0);
    assert!(world.get_entity(a).is_none());
    assert_eq!(world.unload_entity(a).unwrap_err(), RegistryError::NotFound);
    let b = world.load_entity(entity(0.5, 0.0, 0.2, 0.3)).unwrap();
    assert_eq!(b, EntityHandle { index: a.index, generation: a.generation + 1 });
    assert!(world.get_entity(a).is_none());
    assert_eq!(world.get_entity(b).unwrap().get_x(), units(0.5));
}
