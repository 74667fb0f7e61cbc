//! The enumerants of the graphics interface, under the library's own names.

use vstd::prelude::*;

verus! {

/// A value that the graphics interface knows under a number.
pub trait ToGl {
    /// Whether the graphics interface has an enumerant for the value.
    spec fn has_code(&self) -> bool;

    /// The enumerant that stands for the value, where it has one.
    spec fn gl_code(&self) -> u32;

    /// The enumerant that stands for the value, which must have one.
    fn to_gl(&self) -> (res: u32)
        requires
            self.has_code(),
        ensures
            res == self.gl_code(),
    ;
}

/// The type of the items in a buffer.
#[derive(Clone, Copy, Debug, PartialEq, Eq, Structural)]
pub enum DataType {
    Float32,
    UnsignedInt,
    Int,
}

impl DataType {
    /// The size of one item in bytes.
    pub fn get_size(&self) -> (res: i32)
        ensures
            res == 4,
    {
        match self {
            DataType::Float32 => 4,
            DataType::UnsignedInt => 4,
            DataType::Int => 4,
        }
    }

    /// The name of the type.
    pub fn get_data_type_string(&self) -> (res: &'static str)
        ensures
            *self == DataType::Float32 ==> res@ == "Float32"@,
            *self == DataType::UnsignedInt ==> res@ == "UnsignedInt"@,
            *self == DataType::Int ==> res@ == "Int"@,
    {
        match self {
            DataType::Float32 => "Float32",
            DataType::UnsignedInt => "UnsignedInt",
            DataType::Int => "Int",
        }
    }
}

impl ToGl for DataType {
    open spec fn has_code(&self) -> bool {
        true
    }

    open spec fn gl_code(&self) -> u32 {
        match self {
            DataType::Float32 => 0x1406,
            DataType::UnsignedInt => 0x1405,
            DataType::Int => 0x1404,
        }
    }

    fn to_gl(&self) -> (res: u32) {
        match self {
            DataType::Float32 => 0x1406,
            DataType::UnsignedInt => 0x1405,
            DataType::Int => 0x1404,
        }
    }
}

/// How the items of an element buffer are assembled into primitives.
#[derive(Clone, Copy, Debug, PartialEq, Eq, Structural)]
pub enum DrawingMode {
    Triangles,
}

impl ToGl for DrawingMode {
    open spec fn has_code(&self) -> bool {
        true
    }

    open spec fn gl_code(&self) -> u32 {
        0x0004
    }

    fn to_gl(&self) -> (res: u32) {
        match self {
            DrawingMode::Triangles => 0x0004,
        }
    }
}

/// How often a buffer's contents are expected to change.
#[derive(Clone, Copy, Debug, PartialEq, Eq, Structural)]
pub enum UsageMode {
    StaticDraw,
}

impl ToGl for UsageMode {
    open spec fn has_code(&self) -> bool {
        true
    }

    open spec fn gl_code(&self) -> u32 {
        0x88E4
    }

    fn to_gl(&self) -> (res: u32) {
        match self {
            UsageMode::StaticDraw => 0x88E4,
        }
    }
}

/// The layout of the samples of a decoded image.
#[derive(Clone, Copy, Debug, PartialEq, Eq, Structural)]
pub enum ColorType {
    Grayscale,
    RGB,
    Indexed,
    GrayscaleAlpha,
    RGBA,
}

impl ColorType {
    /// Whether images of this layout can be uploaded as textures.
    pub open spec fn is_supported(&self) -> bool {
        *self == ColorType::RGBA || *self == ColorType::RGB
    }

    /// The enumerant of the layout, where the layout is supported.
    pub fn checked_to_gl(&self) -> (res: Option<u32>)
        ensures
            self.is_supported() ==> res == Some(self.gl_code()),
            !self.is_supported() ==> res is None,
    {
        match self {
            ColorType::RGBA => Some(0x1908),
            ColorType::RGB => Some(0x1907),
            _ => None,
        }
    }
}

impl ToGl for ColorType {
    open spec fn has_code(&self) -> bool {
        self.is_supported()
    }

    open spec fn gl_code(&self) -> u32 {
        match self {
            ColorType::RGBA => 0x1908,
            ColorType::RGB => 0x1907,
            _ => 0,
        }
    }

    fn to_gl(&self) -> (res: u32) {
        match self {
            ColorType::RGBA => 0x1908,
            ColorType::RGB => 0x1907,
            _ => 0,
        }
    }
}

/// What a texture shows outside its own area.
#[derive(Debug, Copy, Clone, PartialEq, Eq, Structural)]
pub enum TextureWrap {
    ClampToEdge,
    ClampToBorder,
}

/// How a texture is sampled between its texels.
#[derive(Debug, Clone, Copy, PartialEq, Eq, Structural)]
pub enum TextureFilter {
    Linear,
    LinearMipmap,
}

impl ToGl for TextureWrap {
    open spec fn has_code(&self) -> bool {
        true
    }

    open spec fn gl_code(&self) -> u32 {
        match self {
            TextureWrap::ClampToEdge => 0x812F,
            TextureWrap::ClampToBorder => 0x812D,
        }
    }

    fn to_gl(&self) -> (res: u32) {
        match self {
            TextureWrap::ClampToEdge => 0x812F,
            TextureWrap::ClampToBorder => 0x812D,
        }
    }
}

impl ToGl for TextureFilter {
    open spec fn has_code(&self) -> bool {
        true
    }

    open spec fn gl_code(&self) -> u32 {
        match self {
            TextureFilter::Linear => 0x2601,
            TextureFilter::LinearMipmap => 0x2701,
        }
    }

    fn to_gl(&self) -> (res: u32) {
        match self {
            TextureFilter::Linear => 0x2601,
            TextureFilter::LinearMipmap => 0x2701,
        }
    }
}

} // verus!
