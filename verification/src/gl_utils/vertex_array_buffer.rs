//! The record of a vertex buffer.

use vstd::prelude::*;
use super::gl_translation::{DataType, UsageMode};

verus! {

/// A vertex buffer: its name in the graphics interface, the type of its
/// items, the items, and how it is used.
#[derive(Debug)]
pub struct VertexArrayBuffer<T> {
    id: u32,
    data_type: DataType,
    vertices: Vec<T>,
    usage_mode: UsageMode,
}

/// A vertex buffer as plain values.
pub struct VertexArrayBufferView<T> {
    pub id: u32,
    pub data_type: DataType,
    pub vertices: Seq<T>,
    pub usage_mode: UsageMode,
}

impl<T> View for VertexArrayBuffer<T> {
    type V = VertexArrayBufferView<T>;

    closed spec fn view(&self) -> VertexArrayBufferView<T> {
        VertexArrayBufferView {
            id: self.id,
            data_type: self.data_type,
            vertices: self.vertices@,
            usage_mode: self.usage_mode,
        }
    }
}

impl<T> VertexArrayBuffer<T> {
    /// A buffer that stands for none: it has no name and no items.
    pub fn shell() -> (res: VertexArrayBuffer<T>)
        ensures
            res@ == (VertexArrayBufferView {
                id: 0,
                data_type: DataType::Float32,
                vertices: Seq::<T>::empty(),
                usage_mode: UsageMode::StaticDraw,
            }),
    {
        VertexArrayBuffer {
            id: 0,
            data_type: DataType::Float32,
            vertices: Vec::new(),
            usage_mode: UsageMode::StaticDraw,
        }
    }

    /// The record of the empty buffer that the graphics interface knows as
    /// `id`.
    pub fn new(id: u32, data_type: DataType, usage_mode: UsageMode) -> (res: VertexArrayBuffer<T>)
        ensures
            res@ == (VertexArrayBufferView { id, data_type, vertices: Seq::<T>::empty(), usage_mode }),
    {
        VertexArrayBuffer { id, data_type, vertices: Vec::new(), usage_mode }
    }

    pub fn get_id(&self) -> (res: u32)
        ensures
            res == self@.id,
    {
        self.id
    }

    pub fn get_data_type(&self) -> (res: DataType)
        ensures
            res == self@.data_type,
    {
        self.data_type
    }

    pub fn get_usage_mode(&self) -> (res: UsageMode)
        ensures
            res == self@.usage_mode,
    {
        self.usage_mode
    }

    /// The number of items in the buffer.
    pub fn get_vertices_len(&self) -> (res: usize)
        ensures
            res == self@.vertices.len(),
    {
        self.vertices.len()
    }
}

/// The size in bytes of `count` items of `item_size` bytes each, where it
/// can be told to the graphics interface.
pub fn buffer_size(item_size: usize, count: usize) -> (res: Option<isize>)
    ensures
        item_size * count <= isize::MAX ==> res == Some((item_size * count) as isize),
        item_size * count > isize::MAX ==> res is None,
{
    if item_size == 0 || count == 0 {
        assert(item_size * count == 0) by (nonlinear_arith)
            requires
                item_size == 0 || count == 0,
        ;
        return Some(0);
    }
    let limit: usize = isize::MAX as usize;
    if count > limit / item_size {
        assert(item_size * count > isize::MAX) by (nonlinear_arith)
            requires
                count > limit / item_size,
                item_size > 0,
                limit == isize::MAX,
        ;
        None
    } else {
        assert(item_size * count <= isize::MAX) by (nonlinear_arith)
            requires
                count <= limit / item_size,
                item_size > 0,
                limit == isize::MAX,
        ;
        Some((item_size * count) as isize)
    }
}

} // verus!
