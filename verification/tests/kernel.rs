use bowtie::bowtie::component::{ComponentKind, StandardComponent};
use bowtie::bowtie::controller::BowTie;
use bowtie::bowtie::entity::{clamp_to_i32, EntityHandle, Message, StandardEntity};
use bowtie::components::event::EventComponent;
use bowtie::bowtie::registry::{Registry, RegistryError};
use bowtie::bowtie::store::{ComponentStore, Holding, StoreKey};
use bowtie::components::collide::CollisionComponent;
use bowtie::components::gravity::GravityComponent;
use bowtie::components::keyboard_move::{
    read_published_direction, Action, Key, KeyEvent, KeyboardMoveComponent,
};
use bowtie::components::rand_move::RandMove;
use bowtie::general::color::{Color, COLORS};
use bowtie::general::direction::Direction;
use bowtie::general::value::Value;
use bowtie::gl_utils::gl_texture::Texture;
use bowtie::shapes::rectangle::Rectangle;

fn square(x: i32, y: i32) -> StandardEntity {
    StandardEntity::new(Rectangle::new(x, y, 10, 10), Texture::none(), 3)
}

fn handle(index: usize, generation: u64) -> EntityHandle {
    EntityHandle { index, generation }
}

#[test]
fn gate_and_edge_tests_follow_the_rules() {
    // Out of reach on the x axis: further apart than either is wide.
    assert_eq!(
        CollisionComponent::get_collision_direction(0, 0, 10, 10, 11, 0, 10, 10),
        Direction::Stationary
    );
    // In reach by the width of the other only; the top edge alone is met.
    assert_eq!(
        CollisionComponent::get_collision_direction(0, 0, 2, 10, 5, 0, 5, 8),
        Direction::Up
    );
    // Bottom and top edge both met: they cancel.
    assert_eq!(
        CollisionComponent::get_collision_direction(0, 0, 2, 10, 5, 0, 10, 8),
        Direction::Stationary
    );
    // Out of reach on the y axis: further apart than the subject is tall.
    assert_eq!(
        CollisionComponent::get_collision_direction(0, 0, 10, 10, 0, 11, 30, 10),
        Direction::Stationary
    );
    // The left bound is strict: equal left edges do not meet on the left.
    assert_eq!(
        CollisionComponent::get_collision_direction(0, 0, 10, 10, 0, 0, 10, 10),
        Direction::Right
    );
    // Left of the other's right edge and right of its left edge.
    assert_eq!(
        CollisionComponent::get_collision_direction(5, 0, 10, 10, 0, 8, 3, 10),
        Direction::Left
    );
    // Right and left both met: they cancel.
    assert_eq!(
        CollisionComponent::get_collision_direction(5, 0, 3, 10, 0, 8, 3, 40),
        Direction::Stationary
    );
    // Right, left and down met: down is what is left.
    assert_eq!(
        CollisionComponent::get_collision_direction(5, 0, 3, 10, 0, -5, 10, 40),
        Direction::Down
    );
    // Only the bottom edge is inside the other.
    assert_eq!(
        CollisionComponent::get_collision_direction(0, 0, 10, 10, 2, -5, 10, 5),
        Direction::Down
    );
    // All four edges inside the other: both axes cancel.
    assert_eq!(
        CollisionComponent::get_collision_direction(5, 0, 3, 10, 0, 5, 40, 40),
        Direction::Stationary
    );
    // Coordinates at the ends of the range do not overflow.
    assert_eq!(
        CollisionComponent::get_collision_direction(
            i32::MAX,
            i32::MIN,
            i32::MAX,
            i32::MAX,
            i32::MIN,
            i32::MAX,
            i32::MAX,
            i32::MAX
        ),
        Direction::Stationary
    );
}

#[test]
fn the_ledger_holds_a_pair_only_while_it_overlaps() {
    let mut registry = Registry::new();
    let a = registry.load_entity(square(0, 0)).unwrap();
    let b = registry.load_entity(square(5, 0)).unwrap();
    let mut ledger = CollisionComponent::new();
    assert!(!ledger.get_is_collided(a));
    assert_eq!(
        ledger.get_final_collission_direction(&registry, b, Rectangle::new(5, 0, 10, 10)),
        Direction::Stationary
    );
    assert_eq!(
        ledger.get_final_collission_direction(&registry, a, Rectangle::new(0, 0, 10, 10)),
        Direction::Right
    );
    assert!(ledger.get_is_collided(a));
    assert!(!ledger.get_is_collided(b));
    assert_eq!(ledger.get_entity_collision_direction(a), Direction::Right);
    // B is evaluated again and now sees A, which has become a key.
    assert_eq!(
        ledger.get_final_collission_direction(&registry, b, Rectangle::new(5, 0, 10, 10)),
        Direction::Left
    );
    // A is evaluated with a shape out of reach of B: the entry is removed.
    assert_eq!(
        ledger.get_final_collission_direction(&registry, a, Rectangle::new(100, 0, 10, 10)),
        Direction::Stationary
    );
    assert!(!ledger.get_is_collided(a));
    // Retracting B removes its row and what others hold for it.
    ledger.retract(b);
    assert!(!ledger.get_is_collided(b));
    assert_eq!(
        ledger.get_final_collission_direction(&registry, a, Rectangle::new(0, 0, 10, 10)),
        Direction::Stationary
    );
}

#[test]
fn a_candidate_that_has_left_counts_as_apart() {
    let mut world = BowTie::new();
    let detector = world.add_component(CollisionComponent::new().component());
    let b = world.load_entity(square(5, 0)).unwrap();
    let a = world.load_entity(square(0, 0)).unwrap();
    world.attach(b, detector).unwrap();
    world.attach(a, detector).unwrap();
    world.tick();
    assert_eq!(
        world.get_entity(a).unwrap().get_collision_direction(),
        Direction::Right
    );
    let gone = world.unload_entity(b).unwrap();
    assert_eq!(gone.get_x(), 5);
    assert!(!world
        .component(detector)
        .unwrap()
        .get_store()
        .contains_key(&StoreKey::Entity(b)));
    world.tick();
    assert_eq!(
        world.get_entity(a).unwrap().get_collision_direction(),
        Direction::Stationary
    );
    assert_eq!(world.get_entity_count(), 1);
}

#[test]
fn registry_reuses_slots_under_a_new_generation() {
    let mut registry = Registry::new();
    let a = registry.load_entity(square(1, 0)).unwrap();
    let b = registry.load_entity(square(2, 0)).unwrap();
    assert_eq!(a, handle(0, 0));
    assert_eq!(b, handle(1, 0));
    assert_eq!(registry.count(), 2);
    assert_eq!(registry.slot_count(), 2);
    assert_eq!(registry.unload_entity(a).unwrap().get_x(), 1);
    assert_eq!(registry.unload_entity(a).unwrap_err(), RegistryError::NotFound);
    assert_eq!(
        registry.unload_entity(handle(7, 0)).unwrap_err(),
        RegistryError::NotFound
    );
    assert_eq!(registry.count(), 1);
    assert!(!registry.contains(a));
    assert!(registry.contains(b));
    assert!(registry.handle_at(0).is_none());
    assert_eq!(registry.handle_at(1), Some(b));
    let c = registry.load_entity(square(3, 0)).unwrap();
    assert_eq!(c, handle(0, 1));
    assert!(registry.get(a).is_none());
    assert_eq!(registry.get(c).unwrap().get_x(), 3);
    assert_eq!(registry.get(b).unwrap().get_x(), 2);
    assert_eq!(registry.entity_at(0).unwrap().get_x(), 3);
    assert_eq!(registry.slot_count(), 2);
}

#[test]
fn attach_reports_what_is_missing() {
    let mut world = BowTie::new();
    let a = world.load_entity(square(0, 0)).unwrap();
    assert_eq!(
        world.attach(a, 0).unwrap_err(),
        RegistryError::NoSuchComponent
    );
    let gravity = world.add_component(GravityComponent::new(100).component());
    assert_eq!(
        world.attach(handle(3, 0), gravity).unwrap_err(),
        RegistryError::NotFound
    );
    assert!(world.attach(a, gravity).is_ok());
    assert!(world.attach(a, gravity).is_ok());
    assert_eq!(
        world.get_entity(a).unwrap().get_components(),
        &vec![gravity, gravity]
    );
    assert_eq!(
        world.move_entity(handle(3, 0), Direction::Up, 1).unwrap_err(),
        RegistryError::NotFound
    );
    assert!(!world.listen_for_event(9, &KeyEvent { key: Key::Up, action: Action::Press }));
    assert_eq!(world.get_component_count(), 1);
    assert!(world.component(1).is_none());
}

#[test]
fn lookup_by_name_returns_the_first_match() {
    let mut world = BowTie::new();
    let first = world.add_component(StandardComponent::new(
        ComponentKind::Gravity(GravityComponent::new(100)),
        "shared",
        ComponentStore::new(),
    ));
    let second = world.add_component(StandardComponent::new(
        ComponentKind::Gravity(GravityComponent::new(500)),
        "shared",
        ComponentStore::new(),
    ));
    let a = world.load_entity(square(0, 0)).unwrap();
    world.attach(a, second).unwrap();
    world.attach(a, first).unwrap();
    let entity = world.get_entity(a).unwrap();
    assert_eq!(world.find_component(entity, "shared"), Some(second));
    assert_eq!(world.find_component(entity, "other"), None);
    match world.get_component(a, "shared").unwrap().get_kind() {
        ComponentKind::Gravity(gravity) => assert_eq!(gravity.speed, 5),
        _ => panic!("a gravity component was attached"),
    }
    assert_eq!(
        entity.get_component(&world, "shared").unwrap().get_name(),
        "shared"
    );
    assert!(entity.get_component(&world, "other").is_none());
    assert!(world.get_component(a, "other").is_none());
    assert!(world.get_component(handle(5, 0), "shared").is_none());
    assert_eq!(world.get_component(a, "shared").unwrap().get_name(), "shared");
}

#[test]
fn components_act_in_the_order_of_attachment() {
    // The detector first: the move of this tick is measured against the
    // verdict of this tick.
    let mut world = BowTie::new();
    let detector = world.add_component(CollisionComponent::new().component());
    let keys = world.add_component(KeyboardMoveComponent::new(4, 0, 4).component());
    let wall = world.load_entity(square(5, 0)).unwrap();
    let a = world.load_entity(square(0, 0)).unwrap();
    world.attach(wall, detector).unwrap();
    world.attach(a, detector).unwrap();
    world.attach(a, keys).unwrap();
    world.listen_for_event(keys, &KeyEvent { key: Key::Right, action: Action::Press });
    world.tick();
    assert_eq!(world.get_entity(a).unwrap().get_x(), 0);

    // The movement first: it moves before anything is known of the wall.
    let mut world = BowTie::new();
    let detector = world.add_component(CollisionComponent::new().component());
    let keys = world.add_component(KeyboardMoveComponent::new(4, 0, 4).component());
    let wall = world.load_entity(square(5, 0)).unwrap();
    let a = world.load_entity(square(0, 0)).unwrap();
    world.attach(wall, detector).unwrap();
    world.attach(a, keys).unwrap();
    world.attach(a, detector).unwrap();
    world.listen_for_event(keys, &KeyEvent { key: Key::Right, action: Action::Press });
    world.tick();
    assert_eq!(world.get_entity(a).unwrap().get_x(), 4);
    world.tick();
    assert_eq!(world.get_entity(a).unwrap().get_x(), 4);
}

#[test]
fn gravity_accelerates_until_the_entity_rests() {
    let gravity = GravityComponent::new(1000);
    assert_eq!(gravity.speed, 10);
    assert_eq!(gravity.acceleration, 200);
    assert_eq!(gravity.terminal_velocity, 1_000_000);
    assert_eq!(GravityComponent::new(-1000).speed, -10);
    assert_eq!(GravityComponent::new(-7).acceleration, -1);
    assert_eq!(GravityComponent::new(i32::MAX).terminal_velocity, i32::MAX);
    assert_eq!(GravityComponent::new(i32::MIN).terminal_velocity, i32::MIN);

    let mut store = ComponentStore::new();
    let mut entity = square(0, 0);
    let key = handle(0, 0);
    // First visit: the state starts at the entity's own y, so the entity
    // counts as resting and falls at the starting speed.
    gravity.act(&mut entity, &mut store, key);
    assert_eq!(entity.get_y(), -10);
    assert_eq!(
        store.get(&StoreKey::Entity(key)).unwrap().as_vec2(),
        Some((10, 0))
    );
    // It has moved since: the fall gains the acceleration.
    gravity.act(&mut entity, &mut store, key);
    assert_eq!(entity.get_y(), -220);
    assert_eq!(
        store.get(&StoreKey::Entity(key)).unwrap().as_vec2(),
        Some((210, -10))
    );
    gravity.act(&mut entity, &mut store, key);
    assert_eq!(entity.get_y(), -630);
    // Blocked from below, it stays, and the fall starts over.
    entity.set_collision_direction(Direction::Down);
    gravity.act(&mut entity, &mut store, key);
    assert_eq!(entity.get_y(), -630);
    gravity.act(&mut entity, &mut store, key);
    assert_eq!(
        store.get(&StoreKey::Entity(key)).unwrap().as_vec2(),
        Some((10, -630))
    );
}

#[test]
fn a_store_is_told_apart_by_what_it_holds_for_entities() {
    let key = handle(2, 1);
    let mut falls = ComponentStore::new();
    falls.insert(StoreKey::Entity(key), Value::Vec2(4, -3));
    falls.insert(StoreKey::named("note"), Value::Bool(true));
    assert!(falls.holds_only(Holding::Falls));
    assert!(!falls.holds_only(Holding::Directions));
    let mut codes = ComponentStore::new();
    codes.insert(StoreKey::Entity(key), Value::Number(8));
    codes.insert(StoreKey::named("note"), Value::Number(99));
    assert!(codes.holds_only(Holding::Directions));
    assert!(!codes.holds_only(Holding::Falls));
    let mut wrong = ComponentStore::new();
    wrong.insert(StoreKey::Entity(key), Value::Number(9));
    assert!(!wrong.holds_only(Holding::Directions));
    assert!(ComponentStore::new().holds_only(Holding::Falls));
    assert!(Holding::Directions.takes(&Value::Number(0)));
    assert!(!Holding::Directions.takes(&Value::Number(-1)));
    assert!(!Holding::Directions.takes(&Value::Null));
    assert!(!Holding::Falls.takes(&Value::Number(1)));
}

#[test]
fn a_component_is_refused_a_store_of_the_wrong_kind() {
    let gravity = || ComponentKind::Gravity(GravityComponent::new(100));
    let keys = || ComponentKind::KeyboardMove(KeyboardMoveComponent::new(1, 1, 1));
    let holding = |value: Value| {
        let mut store = ComponentStore::new();
        store.insert(StoreKey::Entity(handle(0, 0)), value);
        store
    };
    // Gravity keeps falls, and nothing else, under the keys of entities.
    assert!(StandardComponent::checked_new(gravity(), "gravity", holding(Value::Vec2(1, 2))).is_some());
    assert!(StandardComponent::checked_new(gravity(), "gravity", holding(Value::Bool(true))).is_none());
    assert!(StandardComponent::checked_new(gravity(), "gravity", holding(Value::Number(1))).is_none());
    // What is called "collision" is read as a detector.
    assert!(StandardComponent::checked_new(keys(), "collision", holding(Value::Number(3))).is_some());
    assert!(StandardComponent::checked_new(keys(), "collision", holding(Value::Number(9))).is_none());
    assert!(StandardComponent::checked_new(keys(), "collision", holding(Value::Null)).is_none());
    assert!(StandardComponent::checked_new(gravity(), "collision", ComponentStore::new()).is_none());
    // Any other component may keep what it likes.
    assert!(StandardComponent::checked_new(keys(), "keys", holding(Value::Null)).is_some());
    assert!(!StandardComponent::fits(&gravity(), "gravity", &holding(Value::Null)));
    let component = StandardComponent::checked_new(keys(), "keys", holding(Value::Null)).unwrap();
    assert!(component.is_kept());
    let mut world = BowTie::new();
    assert!(world.is_kept());
    world.add_component(component);
    world.add_component(GravityComponent::new(100).component());
    world.add_component(CollisionComponent::new().component());
    let a = world.load_entity(square(0, 0)).unwrap();
    world.attach(a, 1).unwrap();
    world.attach(a, 2).unwrap();
    world.tick();
    world.tick();
    assert!(world.is_kept());
}

#[test]
fn keyboard_movement_gains_speed_up_to_the_top() {
    let mut movement = KeyboardMoveComponent::new(2, 3, 6);
    let mut entity = square(0, 0);
    movement.move_component(&mut entity, None);
    assert_eq!((entity.get_x(), entity.get_y()), (0, 0));
    assert_eq!(movement.speed, 2);
    movement.listen_for_event(&KeyEvent { key: Key::Up, action: Action::Press });
    movement.listen_for_event(&KeyEvent { key: Key::Left, action: Action::Repeat });
    movement.listen_for_event(&KeyEvent { key: Key::Other, action: Action::Release });
    assert_eq!(movement.get_next_direction(), Direction::UpLeft);
    movement.move_component(&mut entity, None);
    assert_eq!((entity.get_x(), entity.get_y()), (-2, 2));
    assert_eq!(movement.speed, 5);
    movement.move_component(&mut entity, Some(Direction::Left));
    assert_eq!((entity.get_x(), entity.get_y()), (-2, 7));
    assert_eq!(movement.speed, 8);
    movement.move_component(&mut entity, Some(Direction::Down));
    assert_eq!((entity.get_x(), entity.get_y()), (-10, 15));
    assert_eq!(movement.speed, 8);
    movement.listen_for_event(&KeyEvent { key: Key::Up, action: Action::Release });
    assert_eq!(movement.get_next_direction(), Direction::Left);
    assert_eq!(KeyboardMoveComponent::get_name(), "keyboard_move");
    assert_eq!(Key::Down.as_direction(), Direction::Down);
}

#[test]
fn a_published_direction_is_read_back() {
    let mut store = ComponentStore::new();
    let a = handle(0, 0);
    let b = handle(1, 0);
    store.insert(StoreKey::Entity(a), Value::Number(5));
    store.insert(StoreKey::Entity(b), Value::Number(8));
    assert_eq!(read_published_direction(&store, a), Some(Direction::DownRight));
    assert_eq!(read_published_direction(&store, b), Some(Direction::Stationary));
    // Nothing was published yet for an entity of another generation.
    assert_eq!(read_published_direction(&store, handle(0, 1)), None);
}

#[test]
fn a_store_keeps_one_value_under_each_key() {
    let mut store = ComponentStore::new();
    assert_eq!(store.len(), 0);
    assert!(store.get(&StoreKey::named("falling")).is_none());
    store.insert(StoreKey::named("falling"), Value::Number(1));
    store.insert(StoreKey::Entity(handle(0, 0)), Value::Vec2(1, 2));
    store.insert(StoreKey::named("falling"), Value::Number(2));
    assert_eq!(store.len(), 2);
    assert_eq!(store.get(&StoreKey::named("falling")).unwrap().as_number(), Some(2));
    assert!(store.contains_key(&StoreKey::Entity(handle(0, 0))));
    assert!(!store.contains_key(&StoreKey::Entity(handle(0, 1))));
    assert!(StoreKey::named("a").same(&StoreKey::named("a")));
    assert!(!StoreKey::named("a").same(&StoreKey::named("b")));
    assert!(!StoreKey::named("a").same(&StoreKey::Entity(handle(0, 0))));
    assert_eq!(
        store.remove(&StoreKey::named("falling")).unwrap().as_number(),
        Some(2)
    );
    assert!(store.remove(&StoreKey::named("falling")).is_none());
    assert_eq!(store.len(), 1);
}

#[test]
fn a_move_stops_at_the_edge_of_the_grid() {
    let mut entity = StandardEntity::new(
        Rectangle::new(i32::MAX - 1, i32::MIN + 1, 1, 1),
        Texture::none(),
        0,
    );
    entity.move_in_direction(Direction::DownRight, 5);
    assert_eq!((entity.get_x(), entity.get_y()), (i32::MAX, i32::MIN));
    entity.move_in_direction(Direction::UpLeft, i32::MIN);
    assert_eq!((entity.get_x(), entity.get_y()), (i32::MAX, i32::MIN));
    entity.move_in_direction(Direction::UpLeft, i32::MAX);
    assert_eq!((entity.get_x(), entity.get_y()), (0, -1));
    assert_eq!(clamp_to_i32(i64::MAX), i32::MAX);
    assert_eq!(clamp_to_i32(i64::MIN), i32::MIN);
    assert_eq!(clamp_to_i32(-17), -17);
}

#[test]
fn an_entity_answers_with_its_drawable() {
    let mut entity = StandardEntity::new(Rectangle::new(-2, 7, 10, 4), Texture::none(), 3);
    entity.set_color_overlay(COLORS::Red.into_color());
    assert!(entity.set_x(1));
    assert!(entity.set_y(9));
    let drawable = entity.get_drawable();
    assert_eq!(drawable.vertices, vec![1, 9, 11, 9, 11, 5, 1, 5]);
    assert_eq!(drawable.elements, vec![0, 1, 2, 2, 3, 0]);
    assert_eq!(drawable.corner_count, 4);
    assert_eq!(drawable.color, Color::new(255, 0, 0, 255));
    assert_eq!(drawable.texture.get_texture_id(), -1);
    assert_eq!(entity.get_speed(), 3);
    assert_eq!(entity.get_width(), 10);
    assert_eq!(entity.get_height(), 4);
    assert_eq!(entity.get_direction(), Direction::Stationary);
    assert_eq!(
        Rectangle::new(0, 0, 2, 3).get_coordinate_corners(),
        [[0, 0], [2, 0], [2, -3], [0, -3]]
    );
}

#[test]
fn a_tick_keeps_the_population() {
    let mut world = BowTie::new();
    let detector = world.add_component(CollisionComponent::new().component());
    let gravity = world.add_component(GravityComponent::new(100).component());
    let a = world.load_entity(square(0, 0)).unwrap();
    let b = world.load_entity(square(5, 50)).unwrap();
    world.attach(a, detector).unwrap();
    world.attach(b, detector).unwrap();
    world.attach(b, gravity).unwrap();
    for _ in 0..10 {
        world.tick();
        assert_eq!(world.get_entity_count(), 2);
        assert_eq!(world.slot_count(), 2);
        assert_eq!(world.handle_at(0), Some(a));
        assert_eq!(world.handle_at(1), Some(b));
        assert_eq!(world.get_entity(b).unwrap().get_components(), &vec![detector, gravity]);
    }
    // A carries no gravity and stays; B fell.
    assert_eq!(world.get_entity(a).unwrap().get_y(), 0);
    assert!(world.get_entity(b).unwrap().get_y() < 50);
}

#[test]
fn chance_picks_a_moving_direction_and_a_step_below_the_limit() {
    let mut seen = Vec::new();
    for _ in 0..200 {
        let movement = RandMove::new(5);
        assert!(movement.direction != Direction::Stationary);
        assert!(movement.direction.to_number() < 8);
        assert!(0 <= movement.magnitude && movement.magnitude < 5);
        if !seen.contains(&movement.direction) {
            seen.push(movement.direction);
        }
    }
    assert!(seen.len() > 1);
    assert_eq!(RandMove::new(0).magnitude, 0);
    assert_eq!(RandMove::new(-3).magnitude, 0);
    assert_eq!(
        RandMove::from_draw(6, 2),
        Some(RandMove { direction: Direction::UpLeft, magnitude: 2 })
    );
    assert_eq!(RandMove::from_draw(8, 2), None);
    assert_eq!(RandMove::from_draw(0, -1), None);
    let mut entity = square(0, 0);
    RandMove::from_draw(1, 4).unwrap().act(&mut entity);
    assert_eq!(entity.get_x(), 4);
    assert_eq!(RandMove::get_name(), "rand_move");
}

#[test]
fn an_empty_world_gets_a_blank_entity_before_it_is_drawn() {
    let mut world = BowTie::new();
    world.prep_for_render();
    assert_eq!(world.get_entity_count(), 1);
    let blank = world.get_entity(handle(0, 0)).unwrap();
    assert_eq!(blank.get_shape(), Rectangle::new(0, 0, 0, 0));
    assert_eq!(blank.get_texture().get_texture_id(), -1);
    world.prep_for_render();
    assert_eq!(world.get_entity_count(), 1);
}

#[test]
fn messages_wait_for_their_entity_and_leave_latest_first() {
    let mut events = EventComponent::new();
    let a = handle(0, 0);
    let b = handle(1, 3);
    assert_eq!(events.get_name(), "event");
    assert!(events.act(a).is_none());
    events.push_message(a, Message::new(String::from("first"), vec![]));
    events.push_message(b, Message::new(String::from("other"), vec![(String::from("with"), 4)]));
    events.push_message(
        a,
        Message::new(String::from("second"), vec![(String::from("speed"), -2)]),
    );
    let latest = events.act(a).unwrap();
    assert_eq!(latest.get_message_type(), "second");
    assert_eq!(latest.get_values(), vec![(String::from("speed"), -2)]);
    assert_eq!(events.act(a).unwrap().get_message_type(), "first");
    assert!(events.act(a).is_none());
    let other = events.act(b).unwrap();
    assert_eq!(other.get_message_type(), "other");
    assert_eq!(other.get_values(), vec![(String::from("with"), 4)]);
    assert!(events.act(handle(1, 2)).is_none());
}
