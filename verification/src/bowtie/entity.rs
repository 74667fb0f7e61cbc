//! Entities: what occupies the grid and is acted upon once per tick.

use vstd::prelude::*;
use crate::general::color::{Color, COLORS};
use crate::general::direction::Direction;
use crate::gl_utils::gl_texture::{Texture, TextureView};
use crate::shapes::rectangle::Rectangle;

verus! {

/// The identity of an entity in a registry: the slot it lives in and the
/// generation of that slot when the entity moved in. A slot's generation
/// changes when its entity leaves, so a handle kept beyond that names
/// nothing.
#[derive(Debug, Copy, Clone, PartialEq, Eq, Structural)]
pub struct EntityHandle {
    pub index: usize,
    pub generation: u64,
}

/// `v` brought into the range of `i32`.
pub open spec fn clamp_i32(v: int) -> i32 {
    if v < i32::MIN {
        i32::MIN
    } else if v > i32::MAX {
        i32::MAX
    } else {
        v as i32
    }
}

/// `v` brought into the range of `i32`.
pub fn clamp_to_i32(v: i64) -> (res: i32)
    ensures
        res == clamp_i32(v as int),
{
    if v < i32::MIN as i64 {
        i32::MIN
    } else if v > i32::MAX as i64 {
        i32::MAX
    } else {
        v as i32
    }
}

/// An entity: a rectangle on the grid with a texture, a speed, the
/// direction it heads in, the direction in which it is blocked, and the
/// components attached to it, each by its number in the registry.
#[derive(Debug)]
pub struct StandardEntity {
    shape: Rectangle,
    color: Color,
    texture: Texture,
    speed: i32,
    components: Vec<usize>,
    direction: Direction,
    collision_direction: Direction,
}

/// What an entity is, as plain values.
pub struct EntityView {
    pub shape: Rectangle,
    pub color: Color,
    pub texture: TextureView,
    pub speed: i32,
    pub components: Seq<usize>,
    pub direction: Direction,
    pub collision_direction: Direction,
}

impl EntityView {
    /// The entity after a move of `strength` units in `direction`, less the
    /// components of `direction` in which the entity is blocked. A move
    /// that would leave the grid ends at its edge.
    pub open spec fn moved(self, direction: Direction, strength: int) -> EntityView {
        let step = direction.minus(self.collision_direction);
        EntityView {
            shape: Rectangle {
                x: clamp_i32(self.shape.x + step.dx() * strength),
                y: clamp_i32(self.shape.y + step.dy() * strength),
                ..self.shape
            },
            ..self
        }
    }

    /// The corners of the entity, clockwise from the top-left one, as
    /// `x0, y0, x1, y1, ...`.
    pub open spec fn vertices(self) -> Seq<int> {
        seq![
            self.shape.left(),
            self.shape.top(),
            self.shape.right(),
            self.shape.top(),
            self.shape.right(),
            self.shape.bottom(),
            self.shape.left(),
            self.shape.bottom(),
        ]
    }
}

/// The two triangles that make up a rectangle, over its four corners.
pub open spec fn rectangle_elements() -> Seq<i32> {
    seq![0i32, 1i32, 2i32, 2i32, 3i32, 0i32]
}

/// What a renderer needs of an entity to draw it.
#[derive(Debug)]
pub struct DrawableData<'a> {
    /// The corners, as `x0, y0, x1, y1, ...` in grid units.
    pub vertices: Vec<i64>,
    /// The corners that make up each triangle.
    pub elements: Vec<i32>,
    pub corner_count: i32,
    pub color: Color,
    pub texture: &'a Texture,
}

impl View for StandardEntity {
    type V = EntityView;

    closed spec fn view(&self) -> EntityView {
        EntityView {
            shape: self.shape,
            color: self.color,
            texture: self.texture@,
            speed: self.speed,
            components: self.components@,
            direction: self.direction,
            collision_direction: self.collision_direction,
        }
    }
}

impl StandardEntity {
    /// A white entity at rest with no components.
    pub fn new(shape: Rectangle, texture: Texture, speed: i32) -> (res: StandardEntity)
        ensures
            res@ == (EntityView {
                shape,
                color: COLORS::White.channels(),
                texture: texture@,
                speed,
                components: Seq::empty(),
                direction: Direction::Stationary,
                collision_direction: Direction::Stationary,
            }),
    {
        StandardEntity {
            shape,
            color: COLORS::White.into_color(),
            texture,
            speed,
            components: Vec::new(),
            direction: Direction::Stationary,
            collision_direction: Direction::Stationary,
        }
    }

    /// Gives the entity the colour `color`.
    pub fn set_color_overlay(&mut self, color: Color)
        ensures
            final(self)@ == (EntityView { color, ..old(self)@ }),
    {
        self.color = color;
    }

    /// The colour of the entity.
    pub fn get_color(&self) -> (res: Color)
        ensures
            res == self@.color,
    {
        self.color
    }

    /// Moves the entity by `strength` units in `direction`, less the
    /// components in which it is blocked.
    pub fn move_in_direction(&mut self, direction: Direction, strength: i32)
        ensures
            final(self)@ == old(self)@.moved(direction, strength as int),
    {
        let (dx, dy) = direction.subtract_direction(self.collision_direction).as_vector();
        let along_x: i64 = if dx == 1 {
            strength as i64
        } else if dx == -1 {
            -(strength as i64)
        } else {
            0
        };
        let along_y: i64 = if dy == 1 {
            strength as i64
        } else if dy == -1 {
            -(strength as i64)
        } else {
            0
        };
        proof {
            let s = strength as int;
            assert(dx as int * s == along_x as int) by (nonlinear_arith)
                requires
                    (dx == 1 && along_x == s) || (dx == -1 && along_x == -s) || (dx == 0
                        && along_x == 0),
            ;
            assert(dy as int * s == along_y as int) by (nonlinear_arith)
                requires
                    (dy == 1 && along_y == s) || (dy == -1 && along_y == -s) || (dy == 0
                        && along_y == 0),
            ;
        }
        let x = clamp_to_i32(self.shape.x as i64 + along_x);
        let y = clamp_to_i32(self.shape.y as i64 + along_y);
        self.shape.x = x;
        self.shape.y = y;
    }

    /// Records the direction in which the entity is blocked.
    pub fn set_collision_direction(&mut self, direction: Direction)
        ensures
            final(self)@ == (EntityView { collision_direction: direction, ..old(self)@ }),
    {
        self.collision_direction = direction;
    }

    /// The direction in which the entity is blocked.
    pub fn get_collision_direction(&self) -> (res: Direction)
        ensures
            res == self@.collision_direction,
    {
        self.collision_direction
    }

    /// The direction the entity heads in.
    pub fn get_direction(&self) -> (res: Direction)
        ensures
            res == self@.direction,
    {
        self.direction
    }

    pub fn get_speed(&self) -> (res: i32)
        ensures
            res == self@.speed,
    {
        self.speed
    }

    /// The rectangle that the entity occupies.
    pub fn get_shape(&self) -> (res: Rectangle)
        ensures
            res == self@.shape,
    {
        self.shape
    }

    pub fn get_x(&self) -> (res: i32)
        ensures
            res == self@.shape.x,
    {
        self.shape.x
    }

    pub fn get_y(&self) -> (res: i32)
        ensures
            res == self@.shape.y,
    {
        self.shape.y
    }

    /// Puts the entity's left edge at `x`; always succeeds.
    pub fn set_x(&mut self, x: i32) -> (res: bool)
        ensures
            res,
            final(self)@ == (EntityView { shape: Rectangle { x, ..old(self)@.shape }, ..old(self)@ }),
    {
        self.shape.x = x;
        true
    }

    /// Puts the entity's top edge at `y`; always succeeds.
    pub fn set_y(&mut self, y: i32) -> (res: bool)
        ensures
            res,
            final(self)@ == (EntityView { shape: Rectangle { y, ..old(self)@.shape }, ..old(self)@ }),
    {
        self.shape.y = y;
        true
    }

    pub fn get_width(&self) -> (res: i32)
        ensures
            res == self@.shape.width,
    {
        self.shape.width
    }

    pub fn get_height(&self) -> (res: i32)
        ensures
            res == self@.shape.height,
    {
        self.shape.height
    }

    /// The texture that the entity shows.
    pub fn get_texture(&self) -> (res: &Texture)
        ensures
            res@ == self@.texture,
    {
        &self.texture
    }

    /// The components attached to the entity, in the order of attachment.
    pub fn get_components(&self) -> (res: &Vec<usize>)
        ensures
            res@ == self@.components,
    {
        &self.components
    }

    /// Attaches the component with the number `component`, after those
    /// already attached. The same component may be attached again.
    pub fn load_components(&mut self, component: usize)
        ensures
            final(self)@ == (EntityView {
                components: old(self)@.components.push(component),
                ..old(self)@
            }),
    {
        self.components.push(component);
    }

    /// What a renderer needs to draw the entity: its corners, the two
    /// triangles over them, and its texture.
    pub fn get_drawable(&self) -> (res: DrawableData<'_>)
        ensures
            res.vertices@.len() == 8,
            forall|i: int| 0 <= i < 8 ==> #[trigger] res.vertices@[i] == self@.vertices()[i],
            res.elements@ == rectangle_elements(),
            res.corner_count == 4,
            res.color == self@.color,
            res.texture@ == self@.texture,
    {
        let corners = self.shape.get_coordinate_corners();
        let mut vertices: Vec<i64> = Vec::new();
        let mut i: usize = 0;
        while i < 4
            invariant
                0 <= i <= 4,
                vertices@.len() == 2 * i,
                forall|k: int| 0 <= k < 4 ==> #[trigger] corners[k][0] == self.shape.corners()[k].0,
                forall|k: int| 0 <= k < 4 ==> #[trigger] corners[k][1] == self.shape.corners()[k].1,
                forall|k: int|
                    0 <= k < i ==> vertices@[2 * k] == self.shape.corners()[k].0 && vertices@[2 * k
                        + 1] == self.shape.corners()[k].1,
            decreases 4 - i,
        {
            vertices.push(corners[i][0]);
            vertices.push(corners[i][1]);
            i = i + 1;
        }
        let mut elements: Vec<i32> = Vec::new();
        elements.push(0);
        elements.push(1);
        elements.push(2);
        elements.push(2);
        elements.push(3);
        elements.push(0);
        proof {
            assert(elements@ =~= rectangle_elements());
            assert forall|j: int| 0 <= j < 8 implies #[trigger] vertices@[j] == self@.vertices()[j] by {
                let k = j / 2;
                assert(0 <= k < 4);
                assert(vertices@[2 * k] == self.shape.corners()[k].0);
                assert(vertices@[2 * k + 1] == self.shape.corners()[k].1);
            }
        }
        DrawableData { vertices, elements, corner_count: 4, color: self.color, texture: &self.texture }
    }
}

/// A message from a component to an entity: what it is about, and the
/// numbers that come with it, each under a name.
#[derive(Debug)]
pub struct Message {
    message_type: String,
    values: Vec<(String, i64)>,
}

/// A message as plain values.
pub struct MessageView {
    pub message_type: Seq<char>,
    pub values: Seq<(Seq<char>, i64)>,
}

/// The numbers of a message with their names, as plain values.
pub open spec fn values_view(values: Seq<(String, i64)>) -> Seq<(Seq<char>, i64)> {
    Seq::new(values.len(), |i: int| (values[i].0@, values[i].1))
}

impl View for Message {
    type V = MessageView;

    closed spec fn view(&self) -> MessageView {
        MessageView { message_type: self.message_type@, values: values_view(self.values@) }
    }
}

impl Message {
    pub fn new(message_type: String, values: Vec<(String, i64)>) -> (res: Message)
        ensures
            res@ == (MessageView { message_type: message_type@, values: values_view(values@) }),
    {
        Message { message_type, values }
    }

    /// What the message is about.
    pub fn get_message_type(&self) -> (res: String)
        ensures
            res@ == self@.message_type,
    {
        self.message_type.clone()
    }

    /// The numbers of the message with their names.
    pub fn get_values(&self) -> (res: Vec<(String, i64)>)
        ensures
            values_view(res@) == self@.values,
    {
        let mut values: Vec<(String, i64)> = Vec::new();
        let mut i: usize = 0;
        while i < self.values.len()
            invariant
                0 <= i <= self.values.len(),
                values@.len() == i,
                forall|k: int|
                    0 <= k < i ==> (#[trigger] values@[k]).0@ == self.values@[k].0@ && values@[k].1
                        == self.values@[k].1,
            decreases self.values.len() - i,
        {
            let name = self.values[i].0.clone();
            values.push((name, self.values[i].1));
            i = i + 1;
        }
        assert(values_view(values@) =~= values_view(self.values@));
        values
    }
}

} // verus!
