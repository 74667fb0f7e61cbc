//! The record of an element buffer.

use vstd::prelude::*;
use super::gl_translation::{DataType, UsageMode};

verus! {

/// An element buffer: the type of its items, the items, how it is used,
/// and its name in the graphics interface.
#[derive(Debug)]
pub struct ElementArrayBuffer<T> {
    pub data_type: DataType,
    elements: Vec<T>,
    pub usage_mode: UsageMode,
    id: u32,
}

impl<T> ElementArrayBuffer<T> {
    /// The type of the items.
    pub closed spec fn spec_data_type(&self) -> DataType {
        self.data_type
    }

    /// How the buffer is used.
    pub closed spec fn spec_usage_mode(&self) -> UsageMode {
        self.usage_mode
    }

    /// The items of the buffer.
    pub closed spec fn spec_elements(&self) -> Seq<T> {
        self.elements@
    }

    /// The name of the buffer in the graphics interface.
    pub closed spec fn spec_id(&self) -> u32 {
        self.id
    }

    /// A buffer that stands for none: it has no name and no items.
    pub fn shell() -> (res: ElementArrayBuffer<T>)
        ensures
            res.spec_data_type() == DataType::UnsignedInt,
            res.spec_usage_mode() == UsageMode::StaticDraw,
            res.spec_elements() == Seq::<T>::empty(),
            res.spec_id() == 0,
    {
        ElementArrayBuffer {
            data_type: DataType::UnsignedInt,
            elements: Vec::new(),
            usage_mode: UsageMode::StaticDraw,
            id: 0,
        }
    }

    /// The record of the empty buffer that the graphics interface knows as
    /// `id`.
    pub fn new(id: u32, data_type: DataType, usage_mode: UsageMode) -> (res: ElementArrayBuffer<T>)
        ensures
            res.spec_data_type() == data_type,
            res.spec_usage_mode() == usage_mode,
            res.spec_elements() == Seq::<T>::empty(),
            res.spec_id() == id,
    {
        ElementArrayBuffer { data_type, elements: Vec::new(), usage_mode, id }
    }

    pub fn get_data_type(&self) -> (res: DataType)
        ensures
            res == self.spec_data_type(),
    {
        self.data_type
    }

    pub fn get_usage_mode(&self) -> (res: UsageMode)
        ensures
            res == self.spec_usage_mode(),
    {
        self.usage_mode
    }

    pub fn get_id(&self) -> (res: u32)
        ensures
            res == self.spec_id(),
    {
        self.id
    }

    /// The number of items in the buffer.
    pub fn get_elements_len(&self) -> (res: usize)
        ensures
            res == self.spec_elements().len(),
    {
        self.elements.len()
    }
}

} // verus!
