use bowtie::bowtie::controller::BowTie;
use bowtie::bowtie::entity::StandardEntity;
use bowtie::general::color::{Color, COLORS};
use bowtie::gl_utils::element_array_buffer::ElementArrayBuffer;
use bowtie::gl_utils::gl_error_reader::{buffer_to_bytes, compile_failed};
use bowtie::gl_utils::gl_texture::{
    DecodedImage, LoadableTexture, Texture, TextureError, TextureOptions,
};
use bowtie::gl_utils::gl_texture_loader::TextureLoader;
use bowtie::gl_utils::gl_translation::{
    ColorType, DataType, DrawingMode, TextureFilter, TextureWrap, ToGl, UsageMode,
};
use bowtie::gl_utils::shader_creator::{
    get_program, AttributePointer, Shader, ShaderProgram, VertexShaderAttribute,
    VertexShaderAttributeType,
};
use bowtie::gl_utils::uniform::{SettableUniform, UniformInteger};
use bowtie::gl_utils::vertex_array_buffer::{buffer_size, VertexArrayBuffer};
use bowtie::gl_utils::vertex_array_object_handler::VertexArrayObject;
use bowtie::rendering::drawer::{DrawError, Drawer};
use bowtie::shapes::rectangle::Rectangle;
use bowtie::window::window::{WindowConfig, WindowMode};

fn encoded(width: u32, height: u32, color: png::ColorType, samples: &[u8]) -> Vec<u8> {
    let mut file = Vec::new();
    {
        let mut encoder = png::Encoder::new(&mut file, width, height);
        encoder.set_color(color);
        encoder.set_depth(png::BitDepth::Eight);
        let mut writer = encoder.write_header().unwrap();
        writer.write_image_data(samples).unwrap();
    }
    file
}

#[test]
fn a_texture_is_decoded_and_planned_for_upload() {
    let samples: Vec<u8> = vec![255, 0, 0, 255, 0, 255, 0, 128, 1, 2, 3, 4, 9, 8, 7, 6];
    let file = encoded(2, 2, png::ColorType::RGBA, &samples);
    assert!(file != samples);
    let texture = Texture::new("witch", TextureOptions::default(), 3, 11);
    let upload = texture.load_texture(&file).unwrap().unwrap();
    assert_eq!(upload.pixels, samples);
    assert_eq!((upload.width, upload.height), (2, 2));
    assert_eq!(upload.format, 0x1908);
    assert_eq!(upload.unit, 0x84C0 + 3);
    assert_eq!(upload.buffer, 11);
    assert_eq!(upload.wrap, 0x812F);
    assert_eq!(upload.mag_filter, 0x2601);
    assert_eq!(upload.min_filter, 0x2701);

    let file = encoded(1, 2, png::ColorType::RGB, &[1, 2, 3, 4, 5, 6]);
    let upload = texture.load_texture(&file).unwrap().unwrap();
    assert_eq!(upload.pixels, vec![1, 2, 3, 4, 5, 6]);
    assert_eq!((upload.width, upload.height), (1, 2));
    assert_eq!(upload.format, 0x1907);
}

#[test]
fn a_texture_reports_why_it_cannot_be_loaded() {
    let texture = Texture::new("witch", TextureOptions::default(), 0, 1);
    assert_eq!(
        texture.load_texture(&vec![1, 2, 3]).unwrap_err(),
        TextureError::Undecodable
    );
    assert_eq!(
        texture.load_texture(&vec![]).unwrap_err(),
        TextureError::Undecodable
    );
    let gray = encoded(1, 1, png::ColorType::Grayscale, &[7]);
    assert_eq!(
        texture.load_texture(&gray).unwrap_err(),
        TextureError::UnsupportedColor
    );
    let unitless = Texture::new("witch", TextureOptions::default(), -2, 1);
    let file = encoded(1, 1, png::ColorType::RGB, &[1, 2, 3]);
    assert_eq!(
        unitless.load_texture(&file).unwrap_err(),
        TextureError::NoUnit
    );
    let huge = DecodedImage {
        width: u32::MAX,
        height: 1,
        color_type: ColorType::RGB,
        pixels: vec![],
    };
    assert_eq!(texture.plan_upload(huge).unwrap_err(), TextureError::TooLarge);
    // A texture made from a reference is loaded by its owner.
    assert!(Texture::from_ref(&texture)
        .load_texture(&vec![1, 2, 3])
        .unwrap()
        .is_none());
    assert!(Texture::none().load_texture(&file).unwrap().is_none());
    assert!(texture.load_decoded(None).is_err());
}

#[test]
fn a_texture_names_its_sampler_and_its_file() {
    let texture = Texture::new("witch", TextureOptions::default(), 12, -1);
    let uniform = texture.set_uniform().unwrap();
    assert_eq!(uniform.get_name(), "tex12_sampler");
    assert_eq!(uniform.get_value(), 12);
    assert_eq!(uniform.get_data_type(), DataType::Int);
    assert!(Texture::none().set_uniform().is_none());
    assert_eq!(Texture::get_image_location("witch"), "./images/witch.png");
    assert_eq!(texture.get_image_name(), "witch");
    assert_eq!(texture.get_id(), -1);
    assert!(!texture.get_is_from_ref());
    let copy = Texture::from_ref(&texture);
    assert!(copy.get_is_from_ref());
    assert_eq!(copy.get_texture_id(), 12);
    assert_eq!(copy.get_options(), TextureOptions::default());
    let none = Texture::none();
    assert_eq!(none.get_texture_id(), -1);
    assert_eq!(none.get_id(), -1);
    assert_eq!(none.get_image_name(), "");
    assert_eq!(UniformInteger::new("count", 4).get_name(), "count");
    // A buffer that is kept as a negative number names the same bits.
    let image = DecodedImage { width: 1, height: 1, color_type: ColorType::RGBA, pixels: vec![0; 4] };
    assert_eq!(texture.plan_upload(image).unwrap().buffer, u32::MAX);
}

#[test]
fn each_texture_unit_is_loaded_once() {
    let mut loader = TextureLoader::new();
    let first = Texture::new("a", TextureOptions::default(), 0, 1);
    let second = Texture::new("b", TextureOptions::default(), 1, 2);
    assert!(loader.load_texture(&first));
    assert!(!loader.load_texture(&first));
    assert!(!loader.load_texture(&Texture::from_ref(&first)));
    assert!(!loader.load_texture(&Texture::none()));
    let textures = vec![
        Texture::from_ref(&first),
        Texture::from_ref(&second),
        Texture::none(),
        Texture::new("c", TextureOptions::default(), 5, 3),
        Texture::from_ref(&second),
    ];
    assert_eq!(loader.load_textures(&textures), vec![1, 3]);
    assert_eq!(loader.load_textures(&textures), Vec::<usize>::new());
}

#[test]
fn enumerants_are_those_of_the_graphics_interface() {
    assert_eq!(DataType::Float32.to_gl(), 0x1406);
    assert_eq!(DataType::UnsignedInt.to_gl(), 0x1405);
    assert_eq!(DataType::Int.to_gl(), 0x1404);
    assert_eq!(DrawingMode::Triangles.to_gl(), 4);
    assert_eq!(UsageMode::StaticDraw.to_gl(), 0x88E4);
    assert_eq!(TextureWrap::ClampToEdge.to_gl(), 0x812F);
    assert_eq!(TextureWrap::ClampToBorder.to_gl(), 0x812D);
    assert_eq!(TextureFilter::Linear.to_gl(), 0x2601);
    assert_eq!(TextureFilter::LinearMipmap.to_gl(), 0x2701);
    assert_eq!(ColorType::RGBA.to_gl(), 0x1908);
    assert_eq!(ColorType::RGB.to_gl(), 0x1907);
    assert_eq!(ColorType::RGBA.checked_to_gl(), Some(0x1908));
    assert_eq!(ColorType::Indexed.checked_to_gl(), None);
    assert_eq!(DataType::Float32.get_size(), 4);
    assert_eq!(DataType::UnsignedInt.get_data_type_string(), "UnsignedInt");
    assert_eq!(DataType::Float32.get_data_type_string(), "Float32");
    assert_eq!(DataType::Int.get_data_type_string(), "Int");
}

#[test]
fn an_attribute_is_laid_out_in_bytes() {
    let position = VertexShaderAttribute::new(
        String::from("position"),
        DataType::Float32,
        2,
        25,
        true,
        6,
        VertexShaderAttributeType::Vector,
    );
    assert_eq!(position.stride, 100);
    assert_eq!(position.offset, 24);
    assert_eq!(position.original_offset, 6);
    assert_eq!(
        position.get_pointers(7),
        vec![AttributePointer {
            location: 7,
            size: 2,
            data_type: 0x1406,
            normalized: true,
            stride: 100,
            offset: 24
        }]
    );
    let transformation = VertexShaderAttribute::new(
        String::from("trans"),
        DataType::Float32,
        4,
        25,
        false,
        9,
        VertexShaderAttributeType::Matrix4,
    );
    let pointers = transformation.get_pointers(3);
    assert_eq!(pointers.len(), 4);
    for (i, pointer) in pointers.iter().enumerate() {
        assert_eq!(pointer.location, 3 + i as u32);
        assert_eq!(pointer.size, 4);
        assert_eq!(pointer.stride, 100);
        assert_eq!(pointer.offset, 36 + 16 * i as i32);
        assert!(!pointer.normalized);
    }
    assert!(VertexShaderAttribute::checked_new(
        String::from("far"),
        DataType::Int,
        1,
        i32::MAX / 4 + 1,
        true,
        0,
        VertexShaderAttributeType::Vector
    )
    .is_none());
    assert_eq!(
        VertexShaderAttribute::checked_new(
            String::from("near"),
            DataType::Int,
            1,
            i32::MIN / 4,
            true,
            -1,
            VertexShaderAttributeType::Vector
        )
        .unwrap()
        .stride,
        i32::MIN
    );
}

#[test]
fn the_standard_program_has_two_shaders() {
    let shaders = get_program();
    assert_eq!(shaders.len(), 2);
    match &shaders[0] {
        Shader::VertexShader(name, attributes) => {
            assert_eq!(name, "main");
            let names: Vec<&str> = attributes.iter().map(|a| a.name.as_str()).collect();
            assert_eq!(
                names,
                vec!["position", "targetColor", "tex_cords_in", "tex_id", "trans"]
            );
            let offsets: Vec<i32> = attributes.iter().map(|a| a.offset).collect();
            assert_eq!(offsets, vec![0, 8, 24, 32, 36]);
            assert!(attributes.iter().all(|a| a.stride == 100));
        }
        Shader::FragmentShader(_) => panic!("the vertex shader comes first"),
    }
    assert_eq!(shaders[1].get_name(), "main");
    let mut program = ShaderProgram::new(9);
    assert_eq!(program.get_program_id(), 9);
    assert_eq!(
        program.get_shader_location(&shaders[0], "/out"),
        "/out/shaders/vertex/main.glsl"
    );
    assert_eq!(
        program.get_shader_location(&shaders[1], "/out"),
        "/out/shaders/fragment/main.glsl"
    );
    for (id, shader) in shaders.into_iter().enumerate() {
        program.register_shader(20 + id as u32, shader);
    }
    assert_eq!(program.get_shader_count(), 2);
    assert_eq!(program.get_shader_id(1), Some(21));
    assert_eq!(program.get_shader_id(2), None);
    assert_eq!(program.get_shader(0).unwrap().get_name(), "main");
    assert!(program.get_shader(2).is_none());
    assert_eq!(ShaderProgram::shell().get_program_id(), 0);
    assert_eq!(ShaderProgram::shell().get_shader_count(), 0);
}

#[test]
fn a_world_is_packed_slot_by_slot() {
    let mut world = BowTie::new();
    let first = Texture::new("a", TextureOptions::default(), 0, 1);
    let a = world
        .load_entity(StandardEntity::new(
            Rectangle::new(0, 0, 2, 3),
            Texture::from_ref(&first),
            0,
        ))
        .unwrap();
    let b = world
        .load_entity(StandardEntity::new(Rectangle::new(10, 5, 1, 1), first, 0))
        .unwrap();
    let c = world
        .load_entity(StandardEntity::new(
            Rectangle::new(-4, -4, 4, 4),
            Texture::new("c", TextureOptions::default(), 2, 1),
            0,
        ))
        .unwrap();
    world.unload_entity(a).unwrap();
    let mut drawer = Drawer::shell();
    assert_eq!(drawer.load_all(&world), Ok(()));
    assert_eq!(
        drawer.get_vertices(),
        &vec![10, 5, 11, 5, 11, 4, 10, 4, -4, -4, 0, -4, 0, -8, -4, -8]
    );
    assert_eq!(
        drawer.get_elements(),
        &vec![0, 1, 2, 2, 3, 0, 4, 5, 6, 6, 7, 4]
    );
    assert_eq!(drawer.get_elements_count(), 8);
    assert_eq!(drawer.textures_due(&world), vec![b, c]);
    assert_eq!(drawer.textures_due(&world), vec![]);
    // Packing again starts over.
    assert_eq!(drawer.load_all(&world), Ok(()));
    assert_eq!(drawer.get_elements_count(), 8);
    assert_eq!(drawer.get_vertices().len(), 16);
    assert!(DrawError::TooManyEntities == DrawError::TooManyEntities);
    let mut vertices = vec![1, 2];
    let mut elements = vec![0];
    let drawable = world.get_entity(b).unwrap().get_drawable();
    Drawer::load_drawable(&mut elements, &mut vertices, &drawable, 40);
    assert_eq!(elements, vec![0, 40, 41, 42, 42, 43, 40]);
    assert_eq!(vertices, vec![1, 2, 10, 5, 11, 5, 11, 4, 10, 4]);
}

#[test]
fn records_of_the_graphics_interface_keep_what_they_are_given() {
    let shell = VertexArrayBuffer::<i64>::shell();
    assert_eq!(shell.get_vertices_len(), 0);
    assert_eq!(shell.get_id(), 0);
    assert_eq!(shell.get_data_type(), DataType::Float32);
    let vertices = VertexArrayBuffer::<i64>::new(4, DataType::Int, UsageMode::StaticDraw);
    assert_eq!(vertices.get_id(), 4);
    assert_eq!(vertices.get_data_type(), DataType::Int);
    assert_eq!(vertices.get_usage_mode(), UsageMode::StaticDraw);
    let elements = ElementArrayBuffer::<i32>::new(5, DataType::UnsignedInt, UsageMode::StaticDraw);
    assert_eq!(elements.get_id(), 5);
    assert_eq!(elements.get_elements_len(), 0);
    assert_eq!(elements.data_type, DataType::UnsignedInt);
    assert_eq!(ElementArrayBuffer::<i32>::shell().get_id(), 0);
    assert_eq!(VertexArrayObject::new(6).get_id(), 6);
    assert_eq!(buffer_size(4, 25), Some(100));
    assert_eq!(buffer_size(0, usize::MAX), Some(0));
    assert_eq!(buffer_size(usize::MAX, 2), None);
    assert_eq!(buffer_size(1, isize::MAX as usize), Some(isize::MAX));
    assert_eq!(buffer_size(2, isize::MAX as usize), None);
    assert_eq!(buffer_to_bytes(&vec![0, 104, -1, -128, 127]), vec![0, 104, 255, 128, 127]);
    assert!(!compile_failed(1));
    assert!(compile_failed(0));
    assert!(!compile_failed(257));
    assert!(compile_failed(-1));
    let config = WindowConfig::new(1000, 800, "rust game engine", WindowMode::Windowed);
    assert_eq!((config.width, config.height), (1000, 800));
    assert_eq!(config.name, "rust game engine");
    assert_eq!(config.mode, WindowMode::Windowed);
    assert_eq!(COLORS::Violet.into_color(), Color::new(255, 0, 255, 255));
    assert_eq!(COLORS::Green.into_color(), Color::new(0, 255, 0, 255));
    assert_eq!(COLORS::Black.into_color(), Color::new(0, 0, 0, 255));
    assert_eq!(COLORS::White.into_color(), Color::new(255, 255, 255, 255));
}

#[test]
fn enumerants_agree_with_the_bindings() {
    assert_eq!(DataType::Float32.to_gl(), gl::FLOAT);
    assert_eq!(DataType::UnsignedInt.to_gl(), gl::UNSIGNED_INT);
    assert_eq!(DataType::Int.to_gl(), gl::INT);
    assert_eq!(DrawingMode::Triangles.to_gl(), gl::TRIANGLES);
    assert_eq!(UsageMode::StaticDraw.to_gl(), gl::STATIC_DRAW);
    assert_eq!(TextureWrap::ClampToEdge.to_gl(), gl::CLAMP_TO_EDGE);
    assert_eq!(TextureWrap::ClampToBorder.to_gl(), gl::CLAMP_TO_BORDER);
    assert_eq!(TextureFilter::Linear.to_gl(), gl::LINEAR);
    assert_eq!(TextureFilter::LinearMipmap.to_gl(), gl::LINEAR_MIPMAP_NEAREST);
    assert_eq!(ColorType::RGBA.to_gl(), gl::RGBA);
    assert_eq!(ColorType::RGB.to_gl(), gl::RGB);
    let texture = Texture::new("witch", TextureOptions::default(), 0, 1);
    let image = DecodedImage { width: 1, height: 1, color_type: ColorType::RGB, pixels: vec![0; 3] };
    assert_eq!(texture.plan_upload(image).unwrap().unit, gl::TEXTURE0);
    assert!(!compile_failed(gl::TRUE as i32));
    assert!(compile_failed(gl::FALSE as i32));
}
