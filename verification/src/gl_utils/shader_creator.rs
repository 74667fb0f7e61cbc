//! Shader programs: their shaders and the layout of the vertex attributes.

use vstd::prelude::*;
use vstd::string::StringExecFns;
use super::gl_translation::{DataType, ToGl};

verus! {

/// What a vertex attribute holds.
#[derive(Debug, Copy, Clone, PartialEq, Eq, Structural)]
pub enum VertexShaderAttributeType {
    Vector,
    Matrix4,
}

/// One attribute of a vertex: its name in the shader, the type and number
/// of its items, and where it lies in a vertex. `stride` and `offset` are
/// in bytes; `original_offset` is the offset in items.
#[derive(Debug)]
pub struct VertexShaderAttribute {
    pub name: String,
    pub data_type: DataType,
    pub size: i32,
    pub stride: i32,
    pub normalized: bool,
    pub offset: i32,
    pub original_offset: i32,
    pub attrib_type: VertexShaderAttributeType,
}

/// A vertex attribute as plain values.
pub struct AttributeView {
    pub name: Seq<char>,
    pub data_type: DataType,
    pub size: i32,
    pub stride: i32,
    pub normalized: bool,
    pub offset: i32,
    pub original_offset: i32,
    pub attrib_type: VertexShaderAttributeType,
}

impl View for VertexShaderAttribute {
    type V = AttributeView;

    open spec fn view(&self) -> AttributeView {
        AttributeView {
            name: self.name@,
            data_type: self.data_type,
            size: self.size,
            stride: self.stride,
            normalized: self.normalized,
            offset: self.offset,
            original_offset: self.original_offset,
            attrib_type: self.attrib_type,
        }
    }
}

/// One call for an attribute pointer: the location, the number and type
/// of the items, and where they lie in a vertex, in bytes.
#[derive(Debug, Copy, Clone, PartialEq, Eq, Structural)]
pub struct AttributePointer {
    pub location: u32,
    pub size: i32,
    pub data_type: u32,
    pub normalized: bool,
    pub stride: i32,
    pub offset: i32,
}

impl AttributeView {
    /// The attribute called `name` with `size` items of `data_type`, in
    /// vertices of `stride` items, behind `offset` items.
    pub open spec fn made(
        name: Seq<char>,
        data_type: DataType,
        size: i32,
        stride: i32,
        normalized: bool,
        offset: i32,
        attrib_type: VertexShaderAttributeType,
    ) -> AttributeView {
        AttributeView {
            name,
            data_type,
            size,
            stride: (4 * stride) as i32,
            normalized,
            original_offset: offset,
            offset: (4 * offset) as i32,
            attrib_type,
        }
    }

    /// The pointers that bind the attribute at `location`: one for a
    /// vector, and four for a matrix, one for each of its columns in
    /// successive locations.
    pub open spec fn pointers(self, location: u32) -> Seq<AttributePointer> {
        match self.attrib_type {
            VertexShaderAttributeType::Vector => seq![
                AttributePointer {
                    location,
                    size: self.size,
                    data_type: self.data_type.gl_code(),
                    normalized: self.normalized,
                    stride: self.stride,
                    offset: self.offset,
                },
            ],
            VertexShaderAttributeType::Matrix4 => Seq::new(
                4,
                |i: int|
                    AttributePointer {
                        location: (location + i) as u32,
                        size: 4,
                        data_type: self.data_type.gl_code(),
                        normalized: self.normalized,
                        stride: self.stride,
                        offset: (self.offset + 16 * i) as i32,
                    },
            ),
        }
    }
}

impl VertexShaderAttribute {
    /// The attribute called `name`: `size` items of `data_type`, in
    /// vertices of `stride` items, behind `offset` items. The stride and
    /// the offset in bytes must be values of `i32`.
    pub fn new(
        name: String,
        data_type: DataType,
        size: i32,
        stride: i32,
        normalized: bool,
        offset: i32,
        attrib_type: VertexShaderAttributeType,
    ) -> (res: VertexShaderAttribute)
        requires
            i32::MIN <= 4 * stride <= i32::MAX,
            i32::MIN <= 4 * offset <= i32::MAX,
        ensures
            res@ == AttributeView::made(
                name@,
                data_type,
                size,
                stride,
                normalized,
                offset,
                attrib_type,
            ),
    {
        VertexShaderAttribute {
            name,
            data_type,
            size,
            stride: data_type.get_size() * stride,
            normalized,
            original_offset: offset,
            offset: data_type.get_size() * offset,
            attrib_type,
        }
    }

    /// The attribute as `new` makes it, or `None` where the stride or the
    /// offset in bytes is no value of `i32`.
    pub fn checked_new(
        name: String,
        data_type: DataType,
        size: i32,
        stride: i32,
        normalized: bool,
        offset: i32,
        attrib_type: VertexShaderAttributeType,
    ) -> (res: Option<VertexShaderAttribute>)
        ensures
            match res {
                Some(attribute) => attribute@ == AttributeView::made(
                    name@,
                    data_type,
                    size,
                    stride,
                    normalized,
                    offset,
                    attrib_type,
                ) && i32::MIN <= 4 * stride <= i32::MAX && i32::MIN <= 4 * offset <= i32::MAX,
                None => !(i32::MIN <= 4 * stride <= i32::MAX && i32::MIN <= 4 * offset
                    <= i32::MAX),
            },
    {
        let limit: i32 = i32::MAX / 4;
        if -limit <= stride && stride <= limit && -limit <= offset && offset <= limit {
            Some(
                VertexShaderAttribute::new(
                    name,
                    data_type,
                    size,
                    stride,
                    normalized,
                    offset,
                    attrib_type,
                ),
            )
        } else if stride == i32::MIN / 4 && -limit <= offset && offset <= limit {
            Some(
                VertexShaderAttribute::new(
                    name,
                    data_type,
                    size,
                    stride,
                    normalized,
                    offset,
                    attrib_type,
                ),
            )
        } else if offset == i32::MIN / 4 && -limit <= stride && stride <= limit {
            Some(
                VertexShaderAttribute::new(
                    name,
                    data_type,
                    size,
                    stride,
                    normalized,
                    offset,
                    attrib_type,
                ),
            )
        } else if offset == i32::MIN / 4 && stride == i32::MIN / 4 {
            Some(
                VertexShaderAttribute::new(
                    name,
                    data_type,
                    size,
                    stride,
                    normalized,
                    offset,
                    attrib_type,
                ),
            )
        } else {
            None
        }
    }

    /// The pointers that bind the attribute at `location`, in the order in
    /// which they are set. A matrix takes four successive locations and
    /// sixteen more bytes for each.
    pub fn get_pointers(&self, location: u32) -> (res: Vec<AttributePointer>)
        requires
            self.attrib_type == VertexShaderAttributeType::Matrix4 ==> location <= u32::MAX - 3
                && i32::MIN <= self.offset + 48 <= i32::MAX && i32::MIN <= self.offset,
        ensures
            res@ == self@.pointers(location),
    {
        let mut pointers: Vec<AttributePointer> = Vec::new();
        match self.attrib_type {
            VertexShaderAttributeType::Vector => {
                pointers.push(
                    AttributePointer {
                        location,
                        size: self.size,
                        data_type: self.data_type.to_gl(),
                        normalized: self.normalized,
                        stride: self.stride,
                        offset: self.offset,
                    },
                );
                assert(pointers@ =~= self@.pointers(location));
            },
            VertexShaderAttributeType::Matrix4 => {
                let mut i: u32 = 0;
                while i < 4
                    invariant
                        0 <= i <= 4,
                        location <= u32::MAX - 3,
                        i32::MIN <= self.offset + 48 <= i32::MAX,
                        self.attrib_type == VertexShaderAttributeType::Matrix4,
                        pointers@.len() == i,
                        forall|k: int|
                            0 <= k < i ==> #[trigger] pointers@[k] == self@.pointers(location)[k],
                    decreases 4 - i,
                {
                    let step: i32 = i as i32 * 4;
                    pointers.push(
                        AttributePointer {
                            location: location + i,
                            size: 4,
                            data_type: self.data_type.to_gl(),
                            normalized: self.normalized,
                            stride: self.stride,
                            offset: self.offset + self.data_type.get_size() * step,
                        },
                    );
                    i = i + 1;
                }
                assert(pointers@ =~= self@.pointers(location));
            },
        }
        pointers
    }
}

/// The attributes of `attributes` as plain values.
pub open spec fn attribute_views(attributes: Seq<VertexShaderAttribute>) -> Seq<AttributeView> {
    Seq::new(attributes.len(), |i: int| attributes[i]@)
}

/// A shader, by the name of its source; a vertex shader comes with the
/// attributes of its vertices.
#[derive(Debug)]
pub enum Shader {
    VertexShader(String, Vec<VertexShaderAttribute>),
    FragmentShader(String),
}

impl Shader {
    /// The name of the shader's source.
    pub open spec fn name(&self) -> Seq<char> {
        match self {
            Shader::VertexShader(name, _) => name@,
            Shader::FragmentShader(name) => name@,
        }
    }

    /// The directory that holds the sources of shaders of this kind.
    pub open spec fn directory(&self) -> Seq<char> {
        match self {
            Shader::VertexShader(_, _) => "vertex/"@,
            Shader::FragmentShader(_) => "fragment/"@,
        }
    }

    /// The name of the shader's source.
    pub fn get_name(&self) -> (res: String)
        ensures
            res@ == self.name(),
    {
        match self {
            Shader::VertexShader(name, _attributes) => name.clone(),
            Shader::FragmentShader(name) => name.clone(),
        }
    }
}

/// A shader program: its name in the graphics interface and its shaders,
/// each under its own name there, in the order in which they came.
#[derive(Debug)]
pub struct ShaderProgram {
    pub program_id: u32,
    shader_map: Vec<(u32, Shader)>,
}

impl ShaderProgram {
    /// The name of the program in the graphics interface.
    pub closed spec fn spec_program_id(&self) -> u32 {
        self.program_id
    }

    /// The names of the shaders of the program, in order.
    pub closed spec fn shader_ids(&self) -> Seq<u32> {
        Seq::new(self.shader_map@.len(), |i: int| self.shader_map@[i].0)
    }

    /// The shader in the place `i`.
    pub closed spec fn shader_at(&self, i: int) -> Shader {
        self.shader_map@[i].1
    }

    /// Where the source of `shader` is kept below `base_url`.
    pub open spec fn shader_location(base_url: Seq<char>, shader: &Shader) -> Seq<char> {
        base_url + "/shaders/"@ + shader.directory() + shader.name() + ".glsl"@
    }

    /// A program that stands for none: it has no name and no shaders.
    pub fn shell() -> (res: ShaderProgram)
        ensures
            res.spec_program_id() == 0,
            res.shader_ids() == Seq::<u32>::empty(),
    {
        let res = ShaderProgram { program_id: 0, shader_map: Vec::new() };
        assert(res.shader_ids() =~= Seq::<u32>::empty());
        res
    }

    /// The record of the program that the graphics interface knows as
    /// `program_id`, without shaders yet.
    pub fn new(program_id: u32) -> (res: ShaderProgram)
        ensures
            res.spec_program_id() == program_id,
            res.shader_ids() == Seq::<u32>::empty(),
    {
        let res = ShaderProgram { program_id, shader_map: Vec::new() };
        assert(res.shader_ids() =~= Seq::<u32>::empty());
        res
    }

    pub fn get_program_id(&self) -> (res: u32)
        ensures
            res == self.spec_program_id(),
    {
        self.program_id
    }

    /// The path of the file that holds the source of `shader`, below the
    /// directory `base_url`.
    pub fn get_shader_location(&self, shader: &Shader, base_url: &str) -> (res: String)
        ensures
            res@ == ShaderProgram::shader_location(base_url@, shader),
    {
        let mut location = String::from_str(base_url);
        location.append("/shaders/");
        match shader {
            Shader::VertexShader(_name, _attributes) => {
                location.append("vertex/");
            },
            Shader::FragmentShader(_) => {
                location.append("fragment/");
            },
        }
        let name = shader.get_name();
        location.append(name.as_str());
        location.append(".glsl");
        location
    }

    /// Takes note of `shader`, which the graphics interface knows as
    /// `shader_id`, behind the shaders noted before.
    pub fn register_shader(&mut self, shader_id: u32, shader: Shader)
        ensures
            final(self).spec_program_id() == old(self).spec_program_id(),
            final(self).shader_ids() == old(self).shader_ids().push(shader_id),
            final(self).shader_at(old(self).shader_ids().len() as int) == shader,
            forall|i: int|
                0 <= i < old(self).shader_ids().len() ==> final(self).shader_at(i) == old(
                    self,
                ).shader_at(i),
    {
        self.shader_map.push((shader_id, shader));
        assert(self.shader_ids() =~= old(self).shader_ids().push(shader_id));
    }

    /// The number of shaders of the program.
    pub fn get_shader_count(&self) -> (res: usize)
        ensures
            res == self.shader_ids().len(),
    {
        self.shader_map.len()
    }

    /// The name in the graphics interface of the shader in the place
    /// `index`.
    pub fn get_shader_id(&self, index: usize) -> (res: Option<u32>)
        ensures
            index < self.shader_ids().len() ==> res == Some(self.shader_ids()[index as int]),
            index >= self.shader_ids().len() ==> res is None,
    {
        if index < self.shader_map.len() {
            Some(self.shader_map[index].0)
        } else {
            None
        }
    }

    /// The shader in the place `index`.
    pub fn get_shader(&self, index: usize) -> (res: Option<&Shader>)
        ensures
            match res {
                Some(shader) => index < self.shader_ids().len() && *shader == self.shader_at(
                    index as int,
                ),
                None => index >= self.shader_ids().len(),
            },
    {
        if index < self.shader_map.len() {
            Some(&self.shader_map[index].1)
        } else {
            None
        }
    }
}

/// The attributes of the vertices that the renderer draws, in their order:
/// the position, the colour, the texture coordinates, the texture unit and
/// the transformation, in vertices of 25 items.
pub open spec fn standard_attributes() -> Seq<AttributeView> {
    seq![
        AttributeView::made(
            "position"@,
            DataType::Float32,
            2,
            25,
            true,
            0,
            VertexShaderAttributeType::Vector,
        ),
        AttributeView::made(
            "targetColor"@,
            DataType::Float32,
            4,
            25,
            true,
            2,
            VertexShaderAttributeType::Vector,
        ),
        AttributeView::made(
            "tex_cords_in"@,
            DataType::Float32,
            2,
            25,
            true,
            6,
            VertexShaderAttributeType::Vector,
        ),
        AttributeView::made(
            "tex_id"@,
            DataType::Float32,
            1,
            25,
            true,
            8,
            VertexShaderAttributeType::Vector,
        ),
        AttributeView::made(
            "trans"@,
            DataType::Float32,
            4,
            25,
            true,
            9,
            VertexShaderAttributeType::Matrix4,
        ),
    ]
}

/// The shaders of the program that the renderer draws with: the vertex
/// shader "main" with the standard attributes, and the fragment shader
/// "main".
pub fn get_program() -> (res: Vec<Shader>)
    ensures
        res@.len() == 2,
        res@[0] matches Shader::VertexShader(name, attributes) && name@ == "main"@
            && attribute_views(attributes@) == standard_attributes(),
        res@[1] matches Shader::FragmentShader(name) && name@ == "main"@,
{
    let mut attributes: Vec<VertexShaderAttribute> = Vec::new();
    attributes.push(
        VertexShaderAttribute::new(
            String::from_str("position"),
            DataType::Float32,
            2,
            9 + (4 * 4),
            true,
            0,
            VertexShaderAttributeType::Vector,
        ),
    );
    attributes.push(
        VertexShaderAttribute::new(
            String::from_str("targetColor"),
            DataType::Float32,
            4,
            9 + (4 * 4),
            true,
            2,
            VertexShaderAttributeType::Vector,
        ),
    );
    attributes.push(
        VertexShaderAttribute::new(
            String::from_str("tex_cords_in"),
            DataType::Float32,
            2,
            9 + (4 * 4),
            true,
            6,
            VertexShaderAttributeType::Vector,
        ),
    );
    attributes.push(
        VertexShaderAttribute::new(
            String::from_str("tex_id"),
            DataType::Float32,
            1,
            9 + (4 * 4),
            true,
            8,
            VertexShaderAttributeType::Vector,
        ),
    );
    attributes.push(
        VertexShaderAttribute::new(
            String::from_str("trans"),
            DataType::Float32,
            4,
            9 + (4 * 4),
            true,
            9,
            VertexShaderAttributeType::Matrix4,
        ),
    );
    proof {
        assert(attribute_views(attributes@) =~= standard_attributes());
    }
    let mut shaders: Vec<Shader> = Vec::new();
    shaders.push(Shader::VertexShader(String::from_str("main"), attributes));
    shaders.push(Shader::FragmentShader(String::from_str("main")));
    shaders
}

} // verus!
