//! The record of a vertex array object.

use vstd::prelude::*;

verus! {

/// A vertex array object, by its name in the graphics interface.
#[derive(Debug)]
pub struct VertexArrayObject {
    vao_id: u32,
}

impl VertexArrayObject {
    /// The name of the object in the graphics interface.
    pub closed spec fn spec_id(&self) -> u32 {
        self.vao_id
    }

    /// The record of the object that the graphics interface knows as
    /// `vao_id`.
    pub fn new(vao_id: u32) -> (res: VertexArrayObject)
        ensures
            res.spec_id() == vao_id,
    {
        VertexArrayObject { vao_id }
    }

    pub fn get_id(&self) -> (res: u32)
        ensures
            res == self.spec_id(),
    {
        self.vao_id
    }
}

} // verus!
