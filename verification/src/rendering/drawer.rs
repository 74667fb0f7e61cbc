//! Packing the entities of a world into one vertex list and one element
//! list, as a renderer wants them.

use vstd::prelude::*;
use crate::bowtie::controller::BowTie;
use crate::bowtie::entity::{rectangle_elements, DrawableData, EntityHandle};
use crate::bowtie::registry::{live_count, SlotsView};
use crate::gl_utils::gl_texture_loader::{marked, must_load, TextureLoader};

verus! {

/// The numbers of `items` as mathematical integers.
pub open spec fn as_ints(items: Seq<i64>) -> Seq<int> {
    Seq::new(items.len(), |i: int| items[i] as int)
}

/// `elements` with `by` added to each.
pub open spec fn shifted(elements: Seq<i32>, by: int) -> Seq<i32> {
    Seq::new(elements.len(), |i: int| (elements[i] + by) as i32)
}

/// The corners of the entities in the first `n` slots, one entity after
/// the other.
pub open spec fn packed_vertices(slots: SlotsView, n: int) -> Seq<int>
    decreases n,
{
    if n <= 0 {
        Seq::empty()
    } else {
        match slots[n - 1].entity {
            Some(entity) => packed_vertices(slots, n - 1) + entity.vertices(),
            None => packed_vertices(slots, n - 1),
        }
    }
}

/// The elements of the entities in the first `n` slots: the two triangles
/// of each, over the places that its corners have among all corners.
pub open spec fn packed_elements(slots: SlotsView, n: int) -> Seq<i32>
    decreases n,
{
    if n <= 0 {
        Seq::empty()
    } else {
        match slots[n - 1].entity {
            Some(entity) => packed_elements(slots, n - 1) + shifted(
                rectangle_elements(),
                4 * live_count(slots, n - 1),
            ),
            None => packed_elements(slots, n - 1),
        }
    }
}

/// The texture units marked as loaded after the textures of the entities
/// in the first `n` slots were seen.
pub open spec fn seen_upto(loaded: Map<u32, bool>, slots: SlotsView, n: int) -> Map<u32, bool>
    decreases n,
{
    if n <= 0 {
        loaded
    } else {
        match slots[n - 1].entity {
            Some(entity) => marked(seen_upto(loaded, slots, n - 1), entity.texture),
            None => seen_upto(loaded, slots, n - 1),
        }
    }
}

/// The slots among the first `n` whose entities have a texture that has
/// to be loaded when the slots are seen in order.
pub open spec fn due_slots(loaded: Map<u32, bool>, slots: SlotsView, n: int) -> Seq<usize>
    decreases n,
{
    if n <= 0 {
        Seq::empty()
    } else {
        match slots[n - 1].entity {
            Some(entity) => if must_load(seen_upto(loaded, slots, n - 1), entity.texture) {
                due_slots(loaded, slots, n - 1).push((n - 1) as usize)
            } else {
                due_slots(loaded, slots, n - 1)
            },
            None => due_slots(loaded, slots, n - 1),
        }
    }
}

/// Why a world could not be packed.
#[derive(Debug, Copy, Clone, PartialEq, Eq, Structural)]
pub enum DrawError {
    /// The world holds more corners than an element can name.
    TooManyEntities,
}

/// The lists that a renderer draws from, and the textures it has loaded.
pub struct Drawer {
    vertices: Vec<i64>,
    elements: Vec<i32>,
    elements_count: i32,
    texture_loader: TextureLoader,
}

/// A drawer as plain values.
pub struct DrawerView {
    pub vertices: Seq<int>,
    pub elements: Seq<i32>,
    pub elements_count: i32,
    pub loaded: Map<u32, bool>,
}

impl View for Drawer {
    type V = DrawerView;

    closed spec fn view(&self) -> DrawerView {
        DrawerView {
            vertices: as_ints(self.vertices@),
            elements: self.elements@,
            elements_count: self.elements_count,
            loaded: self.texture_loader@,
        }
    }
}

impl Drawer {
    /// A drawer with empty lists that has loaded no texture.
    pub fn shell() -> (res: Drawer)
        ensures
            res@ == (DrawerView {
                vertices: Seq::empty(),
                elements: Seq::empty(),
                elements_count: 0,
                loaded: Map::empty(),
            }),
    {
        let res = Drawer {
            vertices: Vec::new(),
            elements: Vec::new(),
            elements_count: 0,
            texture_loader: TextureLoader::new(),
        };
        assert(res@.vertices =~= Seq::<int>::empty());
        res
    }

    /// The corners in the list, as `x0, y0, x1, y1, ...`.
    pub fn get_vertices(&self) -> (res: &Vec<i64>)
        ensures
            as_ints(res@) == self@.vertices,
    {
        &self.vertices
    }

    /// The corners that make up each triangle.
    pub fn get_elements(&self) -> (res: &Vec<i32>)
        ensures
            res@ == self@.elements,
    {
        &self.elements
    }

    /// The number of corners in the list.
    pub fn get_elements_count(&self) -> (res: i32)
        ensures
            res == self@.elements_count,
    {
        self.elements_count
    }

    /// Puts the corners of `drawable` behind `vertices`, and its elements
    /// behind `elements`, each raised by `elements_count`, the number of
    /// corners that came before.
    pub fn load_drawable(
        elements: &mut Vec<i32>,
        vertices: &mut Vec<i64>,
        drawable: &DrawableData,
        elements_count: i32,
    )
        requires
            forall|i: int|
                0 <= i < drawable.elements@.len() ==> i32::MIN <= #[trigger] drawable.elements@[i]
                    + elements_count <= i32::MAX,
        ensures
            final(vertices)@ == old(vertices)@ + drawable.vertices@,
            final(elements)@ == old(elements)@ + shifted(drawable.elements@, elements_count as int),
    {
        let mut i: usize = 0;
        while i < drawable.vertices.len()
            invariant
                0 <= i <= drawable.vertices.len(),
                vertices@ == old(vertices)@ + drawable.vertices@.take(i as int),
            decreases drawable.vertices.len() - i,
        {
            vertices.push(drawable.vertices[i]);
            proof {
                assert(drawable.vertices@.take(i + 1) =~= drawable.vertices@.take(i as int).push(
                    drawable.vertices@[i as int],
                ));
                assert(vertices@ =~= old(vertices)@ + drawable.vertices@.take(i + 1));
            }
            i = i + 1;
        }
        proof {
            assert(drawable.vertices@.take(i as int) =~= drawable.vertices@);
        }
        let ghost raised = shifted(drawable.elements@, elements_count as int);
        let mut j: usize = 0;
        while j < drawable.elements.len()
            invariant
                0 <= j <= drawable.elements.len(),
                raised == shifted(drawable.elements@, elements_count as int),
                forall|k: int|
                    0 <= k < drawable.elements@.len() ==> i32::MIN
                        <= #[trigger] drawable.elements@[k] + elements_count <= i32::MAX,
                elements@ == old(elements)@ + raised.take(j as int),
            decreases drawable.elements.len() - j,
        {
            assert(i32::MIN <= drawable.elements@[j as int] + elements_count <= i32::MAX);
            elements.push(drawable.elements[j] + elements_count);
            proof {
                assert(raised.take(j + 1) =~= raised.take(j as int).push(raised[j as int]));
                assert(elements@ =~= old(elements)@ + raised.take(j + 1));
            }
            j = j + 1;
        }
        proof {
            assert(raised.take(j as int) =~= raised);
        }
    }

    /// Packs the entities of `world` anew, in the order of their slots.
    /// Fails, and leaves the lists as they were, where the world holds
    /// more corners than an element can name.
    pub fn load_all(&mut self, world: &BowTie) -> (res: Result<(), DrawError>)
        ensures
            final(self)@.loaded == old(self)@.loaded,
            match res {
                Ok(_) => {
                    let slots = world@.slots;
                    let n = slots.len() as int;
                    &&& 4 * live_count(slots, n) <= i32::MAX
                    &&& final(self)@.vertices == packed_vertices(slots, n)
                    &&& final(self)@.elements == packed_elements(slots, n)
                    &&& final(self)@.elements_count == 4 * live_count(slots, n)
                },
                Err(error) => error == DrawError::TooManyEntities && 4 * live_count(
                    world@.slots,
                    world@.slots.len() as int,
                ) > i32::MAX && final(self)@ == old(self)@,
            },
    {
        let live = world.get_entity_count();
        if live > (i32::MAX / 4) as usize {
            return Err(DrawError::TooManyEntities);
        }
        let ghost slots = world@.slots;
        let count = world.slot_count();
        let mut vertices: Vec<i64> = Vec::new();
        let mut elements: Vec<i32> = Vec::new();
        let mut elements_count: i32 = 0;
        let mut index: usize = 0;
        proof {
            assert(as_ints(vertices@) =~= packed_vertices(slots, 0));
        }
        while index < count
            invariant
                0 <= index <= count,
                count == slots.len(),
                slots == world@.slots,
                4 * live_count(slots, count as int) <= i32::MAX,
                as_ints(vertices@) == packed_vertices(slots, index as int),
                elements@ == packed_elements(slots, index as int),
                elements_count == 4 * live_count(slots, index as int),
            decreases count - index,
        {
            proof {
                lemma_live_count_grows(slots, index + 1, count as int);
            }
            match world.handle_at(index) {
                Some(handle) => match world.get_entity(handle) {
                    Some(entity) => {
                        let drawable = entity.get_drawable();
                        let ghost before = vertices@;
                        Drawer::load_drawable(
                            &mut elements,
                            &mut vertices,
                            &drawable,
                            elements_count,
                        );
                        elements_count = elements_count + drawable.corner_count;
                        proof {
                            assert(as_ints(drawable.vertices@) =~= entity@.vertices());
                            assert(as_ints(vertices@) =~= as_ints(before) + as_ints(
                                drawable.vertices@,
                            ));
                        }
                    },
                    None => {},
                },
                None => {},
            }
            index = index + 1;
        }
        self.vertices = vertices;
        self.elements = elements;
        self.elements_count = elements_count;
        Ok(())
    }

    /// Sees the textures of the entities of `world` in the order of their
    /// slots, and returns the handles of the entities whose texture has to
    /// be loaded now: it names a unit that was not marked as loaded.
    pub fn textures_due(&mut self, world: &BowTie) -> (res: Vec<EntityHandle>)
        ensures
            final(self)@ == (DrawerView {
                loaded: seen_upto(old(self)@.loaded, world@.slots, world@.slots.len() as int),
                ..old(self)@
            }),
            res@.len() == due_slots(old(self)@.loaded, world@.slots, world@.slots.len() as int).len(),
            forall|i: int|
                0 <= i < res@.len() ==> #[trigger] res@[i] == world@.handle_at(
                    due_slots(
                        old(self)@.loaded,
                        world@.slots,
                        world@.slots.len() as int,
                    )[i] as int,
                ),
    {
        let ghost slots = world@.slots;
        let ghost loaded = old(self)@.loaded;
        let count = world.slot_count();
        let mut due: Vec<EntityHandle> = Vec::new();
        let mut index: usize = 0;
        while index < count
            invariant
                0 <= index <= count,
                count == slots.len(),
                slots == world@.slots,
                self@ == (DrawerView { loaded: seen_upto(loaded, slots, index as int), ..old(self)@ }),
                due@.len() == due_slots(loaded, slots, index as int).len(),
                forall|i: int|
                    0 <= i < due@.len() ==> #[trigger] due@[i] == world@.handle_at(
                        due_slots(loaded, slots, index as int)[i] as int,
                    ),
            decreases count - index,
        {
            match world.handle_at(index) {
                Some(handle) => match world.get_entity(handle) {
                    Some(entity) => {
                        if self.texture_loader.load_texture(entity.get_texture()) {
                            due.push(handle);
                        }
                    },
                    None => {},
                },
                None => {},
            }
            index = index + 1;
        }
        due
    }
}

/// There are no fewer entities among more slots.
proof fn lemma_live_count_grows(slots: SlotsView, k: int, n: int)
    requires
        0 <= k <= n <= slots.len(),
    ensures
        live_count(slots, k) <= live_count(slots, n),
        0 <= live_count(slots, k),
    decreases n - k,
{
    if k < n {
        lemma_live_count_grows(slots, k, n - 1);
    } else {
        crate::bowtie::registry::lemma_live_count_bounds(slots, k);
    }
}

} // verus!
