//! What the graphics interface reports when something fails.

use vstd::prelude::*;

verus! {

/// The outcome of a query for an error.
#[derive(Debug)]
pub enum GlErrorResult {
    NoError,
    Error(String),
}

/// The errors that can be queried for.
#[derive(Debug, Copy, Clone, PartialEq, Eq, Structural)]
pub enum GlError {
    /// A shader, by its name in the graphics interface, did not compile.
    ShaderError(u32),
}

/// The byte that a signed byte stands for.
pub open spec fn as_byte(item: i8) -> u8 {
    if item >= 0 {
        item as u8
    } else {
        (item + 256) as u8
    }
}

/// The bytes that the signed bytes of `buffer` stand for.
pub fn buffer_to_bytes(buffer: &Vec<i8>) -> (res: Vec<u8>)
    ensures
        res@.len() == buffer@.len(),
        forall|i: int| 0 <= i < buffer@.len() ==> #[trigger] res@[i] == as_byte(buffer@[i]),
{
    let mut bytes: Vec<u8> = Vec::new();
    let mut i: usize = 0;
    while i < buffer.len()
        invariant
            0 <= i <= buffer.len(),
            bytes@.len() == i,
            forall|k: int| 0 <= k < i ==> #[trigger] bytes@[k] == as_byte(buffer@[k]),
        decreases buffer.len() - i,
    {
        let item = buffer[i];
        let byte: u8 = if item >= 0 {
            item as u8
        } else {
            (item as i16 + 256) as u8
        };
        bytes.push(byte);
        i = i + 1;
    }
    bytes
}

/// Whether the compile status `status` that the graphics interface gave
/// for a shader says that the shader did not compile: its lowest byte is
/// not 1.
pub fn compile_failed(status: i32) -> (res: bool)
    ensures
        res == (status & 0xff != 1),
{
    (status & 0xff) != 1
}

} // verus!
