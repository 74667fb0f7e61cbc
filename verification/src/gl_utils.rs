//! What the kernel knows of the graphics interface: the numbers that name
//! its modes and types, and the records a renderer is handed.

pub mod element_array_buffer;
pub mod gl_error_reader;
pub mod gl_texture;
pub mod gl_texture_loader;
pub mod gl_translation;
pub mod shader_creator;
pub mod uniform;
pub mod vertex_array_buffer;
pub mod vertex_array_object_handler;
