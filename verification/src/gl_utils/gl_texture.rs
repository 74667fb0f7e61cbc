//! Textures: which image an entity shows, and how it is sampled.

use vstd::prelude::*;
use vstd::string::{to_string_from_display_ensures, StringExecFns};
use super::gl_translation::{ColorType, TextureFilter, TextureWrap, ToGl};
use super::uniform::{SettableUniform, UniformInteger};

verus! {

/// How a texture is wrapped and filtered.
#[derive(Debug, Copy, Clone, PartialEq, Eq, Structural)]
pub struct TextureOptions {
    pub wrap: TextureWrap,
    pub min_filter: TextureFilter,
    pub mag_filter: TextureFilter,
}

impl Default for TextureOptions {
    /// Linear filtering, clamped to the edge.
    fn default() -> (res: Self)
        ensures
            res == (TextureOptions {
                wrap: TextureWrap::ClampToEdge,
                min_filter: TextureFilter::LinearMipmap,
                mag_filter: TextureFilter::Linear,
            }),
    {
        TextureOptions {
            wrap: TextureWrap::ClampToEdge,
            min_filter: TextureFilter::LinearMipmap,
            mag_filter: TextureFilter::Linear,
        }
    }
}

/// A texture: the unit it is sampled from, the name of its image, the
/// buffer that holds it, and its options. A texture made from a reference
/// to another shares that one's buffer and is never loaded itself.
#[derive(Debug)]
pub struct Texture {
    pub texture_id: i32,
    pub image_name: String,
    id: i32,
    options: TextureOptions,
    is_from_ref: bool,
}

/// What a texture is, with its image's name as a sequence of characters.
pub struct TextureView {
    pub texture_id: i32,
    pub image_name: Seq<char>,
    pub id: i32,
    pub options: TextureOptions,
    pub is_from_ref: bool,
}

impl View for Texture {
    type V = TextureView;

    closed spec fn view(&self) -> TextureView {
        TextureView {
            texture_id: self.texture_id,
            image_name: self.image_name@,
            id: self.id,
            options: self.options,
            is_from_ref: self.is_from_ref,
        }
    }
}

impl Texture {
    /// The view of the texture that stands for no texture at all.
    pub open spec fn none_view() -> TextureView {
        TextureView {
            texture_id: -1i32,
            image_name: Seq::empty(),
            id: -1i32,
            options: TextureOptions {
                wrap: TextureWrap::ClampToEdge,
                min_filter: TextureFilter::LinearMipmap,
                mag_filter: TextureFilter::Linear,
            },
            is_from_ref: true,
        }
    }

    /// Where the image called `image_name` is kept.
    pub open spec fn image_location(image_name: Seq<char>) -> Seq<char> {
        "./images/"@ + image_name + ".png"@
    }

    /// A texture that is ready to be loaded into the buffer `id` and
    /// sampled from the unit `texture_id`.
    pub fn new(image_name: &str, options: TextureOptions, texture_id: i32, id: i32) -> (res:
        Texture)
        ensures
            res@ == (TextureView {
                texture_id,
                image_name: image_name@,
                id,
                options,
                is_from_ref: false,
            }),
    {
        Texture {
            texture_id,
            id,
            options,
            image_name: String::from_str(image_name),
            is_from_ref: false,
        }
    }

    /// The texture that stands for the lack of one.
    pub fn none() -> (res: Texture)
        ensures
            res@ == Texture::none_view(),
    {
        Texture {
            texture_id: -1,
            id: -1,
            options: TextureOptions::default(),
            image_name: String::new(),
            is_from_ref: true,
        }
    }

    /// A texture that shares the buffer of `texture_ref`, which must be
    /// loaded by its owner.
    pub fn from_ref(texture_ref: &Texture) -> (res: Texture)
        ensures
            res@ == (TextureView { is_from_ref: true, ..texture_ref@ }),
    {
        Texture {
            texture_id: texture_ref.texture_id,
            id: texture_ref.id,
            options: texture_ref.options,
            image_name: texture_ref.image_name.clone(),
            is_from_ref: true,
        }
    }

    /// The unit that the texture is sampled from; -1 for no texture.
    pub fn get_texture_id(&self) -> (res: i32)
        ensures
            res == self@.texture_id,
    {
        self.texture_id
    }

    /// The name of the texture's image.
    pub fn get_image_name(&self) -> (res: &String)
        ensures
            res@ == self@.image_name,
    {
        &self.image_name
    }

    /// The buffer that holds the texture.
    pub fn get_id(&self) -> (res: i32)
        ensures
            res == self@.id,
    {
        self.id
    }

    pub fn get_options(&self) -> (res: TextureOptions)
        ensures
            res == self@.options,
    {
        self.options
    }

    /// Whether the texture shares the buffer of another.
    pub fn get_is_from_ref(&self) -> (res: bool)
        ensures
            res == self@.is_from_ref,
    {
        self.is_from_ref
    }

    /// The path of the file that holds the image called `image_name`.
    pub fn get_image_location(image_name: &str) -> (res: String)
        ensures
            res@ == Texture::image_location(image_name@),
    {
        let mut location = String::from_str("./images/");
        location.append(image_name);
        location.append(".png");
        location
    }
}

/// The error of the `png` crate's decoder.
#[verifier::external_type_specification]
#[verifier::external_body]
pub struct ExDecodingError(png::DecodingError);

/// An image as a decoder gives it out: its size in pixels, the layout of
/// its samples, and the samples, row after row.
#[derive(Debug)]
pub struct DecodedImage {
    pub width: u32,
    pub height: u32,
    pub color_type: ColorType,
    pub pixels: Vec<u8>,
}

/// A decoded image as plain values.
pub struct ImageView {
    pub width: u32,
    pub height: u32,
    pub color_type: ColorType,
    pub pixels: Seq<u8>,
}

impl View for DecodedImage {
    type V = ImageView;

    open spec fn view(&self) -> ImageView {
        ImageView {
            width: self.width,
            height: self.height,
            color_type: self.color_type,
            pixels: self.pixels@,
        }
    }
}

/// What the `png` crate decodes the file `data` to: the first frame of the
/// image, or `None` where it reports an error.
pub uninterp spec fn png_decoded(data: Seq<u8>) -> Option<ImageView>;

/// Decodes the first frame of the PNG file `data` with the `png` crate:
/// `png::Decoder::new` on the bytes, `Decoder::read_info`, and
/// `Reader::next_frame` into a buffer of the size that the header asks
/// for. The contract only gives what comes back a name: the same bytes
/// decode to the same image, or fail, every time.
#[verifier::external_body]
fn decode_png(data: &[u8]) -> (res: Result<DecodedImage, png::DecodingError>)
    ensures
        match res {
            Ok(image) => png_decoded(data@) == Some(image@),
            Err(_) => png_decoded(data@) is None,
        },
{
    let (info, mut reader) = png::Decoder::new(data).read_info()?;
    let mut pixels = vec![0; info.buffer_size()];
    reader.next_frame(&mut pixels)?;
    let color_type = match info.color_type {
        png::ColorType::Grayscale => ColorType::Grayscale,
        png::ColorType::RGB => ColorType::RGB,
        png::ColorType::Indexed => ColorType::Indexed,
        png::ColorType::GrayscaleAlpha => ColorType::GrayscaleAlpha,
        png::ColorType::RGBA => ColorType::RGBA,
    };
    Ok(DecodedImage { width: info.width, height: info.height, color_type, pixels })
}

/// Why a texture could not be made ready for the graphics interface.
#[derive(Debug, Copy, Clone, PartialEq, Eq, Structural)]
pub enum TextureError {
    /// The file is no PNG image that the decoder accepts.
    Undecodable,
    /// The samples of the image are laid out in a way that cannot be
    /// uploaded; only RGB and RGBA can.
    UnsupportedColor,
    /// The texture names no unit to be sampled from.
    NoUnit,
    /// The image is wider or taller than the graphics interface can be
    /// told.
    TooLarge,
}

/// What the graphics interface has to be told to take a texture in.
#[derive(Debug)]
pub struct TextureUpload {
    /// The enumerant of the unit to activate.
    pub unit: u32,
    /// The buffer to bind.
    pub buffer: u32,
    /// The enumerant of the layout of the samples.
    pub format: u32,
    pub width: i32,
    pub height: i32,
    pub pixels: Vec<u8>,
    /// The enumerant of the wrapping, for both axes.
    pub wrap: i32,
    pub mag_filter: i32,
    pub min_filter: i32,
}

/// An upload as plain values.
pub struct UploadView {
    pub unit: u32,
    pub buffer: u32,
    pub format: u32,
    pub width: i32,
    pub height: i32,
    pub pixels: Seq<u8>,
    pub wrap: i32,
    pub mag_filter: i32,
    pub min_filter: i32,
}

impl View for TextureUpload {
    type V = UploadView;

    open spec fn view(&self) -> UploadView {
        UploadView {
            unit: self.unit,
            buffer: self.buffer,
            format: self.format,
            width: self.width,
            height: self.height,
            pixels: self.pixels@,
            wrap: self.wrap,
            mag_filter: self.mag_filter,
            min_filter: self.min_filter,
        }
    }
}

/// The enumerant of the first texture unit; the others follow it.
pub open spec fn first_unit() -> u32 {
    0x84C0
}

/// The name of a buffer that is kept as a signed number.
pub open spec fn buffer_name(id: i32) -> u32 {
    if id >= 0 {
        id as u32
    } else {
        (id + 0x1_0000_0000) as u32
    }
}

impl TextureView {
    /// Why `image` cannot be uploaded for this texture, if it cannot.
    pub open spec fn upload_error(self, image: ImageView) -> Option<TextureError> {
        if self.texture_id < 0 {
            Some(TextureError::NoUnit)
        } else if !image.color_type.is_supported() {
            Some(TextureError::UnsupportedColor)
        } else if image.width > i32::MAX || image.height > i32::MAX {
            Some(TextureError::TooLarge)
        } else {
            None
        }
    }

    /// What the graphics interface is told to take `image` in for this
    /// texture.
    pub open spec fn upload(self, image: ImageView) -> UploadView {
        UploadView {
            unit: (first_unit() + self.texture_id) as u32,
            buffer: buffer_name(self.id),
            format: image.color_type.gl_code(),
            width: image.width as i32,
            height: image.height as i32,
            pixels: image.pixels,
            wrap: self.options.wrap.gl_code() as i32,
            mag_filter: self.options.mag_filter.gl_code() as i32,
            min_filter: self.options.min_filter.gl_code() as i32,
        }
    }

    /// What loading the texture from the decoded file `decoded` comes to:
    /// nothing for a texture that shares another's buffer, and else the
    /// upload of the image or the reason why there is none.
    pub open spec fn loaded(self, decoded: Option<ImageView>) -> Result<
        Option<UploadView>,
        TextureError,
    > {
        if self.is_from_ref {
            Ok(None)
        } else {
            match decoded {
                None => Err(TextureError::Undecodable),
                Some(image) => match self.upload_error(image) {
                    Some(error) => Err(error),
                    None => Ok(Some(self.upload(image))),
                },
            }
        }
    }
}

/// Whether `res` is the result `expected`, with the upload taken by its
/// view.
pub open spec fn is_loaded(
    res: Result<Option<TextureUpload>, TextureError>,
    expected: Result<Option<UploadView>, TextureError>,
) -> bool {
    match res {
        Ok(Some(upload)) => expected == Ok::<Option<UploadView>, TextureError>(Some(upload@)),
        Ok(None) => expected == Ok::<Option<UploadView>, TextureError>(None),
        Err(error) => expected == Err::<Option<UploadView>, TextureError>(error),
    }
}

/// Textures that can be made ready for the graphics interface from the
/// bytes of their image file.
pub trait LoadableTexture {
    /// What loading from the decoded file `decoded` comes to.
    spec fn loading(&self, decoded: Option<ImageView>) -> Result<Option<UploadView>, TextureError>;

    /// Decodes `file`, the contents of the texture's image file, and says
    /// what the graphics interface has to be told; `Ok(None)` where
    /// nothing is to be loaded.
    fn load_texture(&self, file: &Vec<u8>) -> (res: Result<Option<TextureUpload>, TextureError>)
        ensures
            is_loaded(res, self.loading(png_decoded(file@))),
    ;
}

impl Texture {
    /// The uniform that tells the fragment shader which unit to sample the
    /// texture from: it is called "tex", the unit in decimal, "_sampler".
    /// `None` for the texture that stands for none.
    pub fn set_uniform(&self) -> (res: Option<UniformInteger>)
        ensures
            self@.texture_id == -1 ==> res is None,
            self@.texture_id != -1 ==> (res matches Some(uniform) && uniform.content()
                == self@.texture_id && exists|digits: String|
                to_string_from_display_ensures::<i32>(&self@.texture_id, digits) && uniform.name()
                    == "tex"@ + digits@ + "_sampler"@),
    {
        if self.texture_id == -1 {
            return None;
        }
        let digits = self.texture_id.to_string();
        let mut name = String::from_str("tex");
        name.append(digits.as_str());
        name.append("_sampler");
        Some(UniformInteger::new(name.as_str(), self.texture_id))
    }

    /// What the graphics interface has to be told to take `image` in for
    /// this texture, or why it cannot take it.
    pub fn plan_upload(&self, image: DecodedImage) -> (res: Result<TextureUpload, TextureError>)
        ensures
            match res {
                Ok(upload) => self@.upload_error(image@) is None && upload@ == self@.upload(image@),
                Err(error) => self@.upload_error(image@) == Some(error),
            },
    {
        if self.texture_id < 0 {
            return Err(TextureError::NoUnit);
        }
        let format = match image.color_type.checked_to_gl() {
            Some(format) => format,
            None => {
                return Err(TextureError::UnsupportedColor);
            },
        };
        if image.width > i32::MAX as u32 || image.height > i32::MAX as u32 {
            return Err(TextureError::TooLarge);
        }
        let buffer: u32 = if self.id >= 0 {
            self.id as u32
        } else {
            (self.id as i64 + 0x1_0000_0000) as u32
        };
        Ok(
            TextureUpload {
                unit: 0x84C0 + self.texture_id as u32,
                buffer,
                format,
                width: image.width as i32,
                height: image.height as i32,
                pixels: image.pixels,
                wrap: self.options.wrap.to_gl() as i32,
                mag_filter: self.options.mag_filter.to_gl() as i32,
                min_filter: self.options.min_filter.to_gl() as i32,
            },
        )
    }

    /// What loading the texture comes to once its file was decoded to
    /// `decoded`.
    pub fn load_decoded(&self, decoded: Option<DecodedImage>) -> (res: Result<
        Option<TextureUpload>,
        TextureError,
    >)
        ensures
            is_loaded(
                res,
                self@.loaded(
                    match decoded {
                        Some(image) => Some(image@),
                        None => None,
                    },
                ),
            ),
    {
        if self.is_from_ref {
            return Ok(None);
        }
        match decoded {
            None => Err(TextureError::Undecodable),
            Some(image) => match self.plan_upload(image) {
                Ok(upload) => Ok(Some(upload)),
                Err(error) => Err(error),
            },
        }
    }
}

impl LoadableTexture for Texture {
    open spec fn loading(&self, decoded: Option<ImageView>) -> Result<
        Option<UploadView>,
        TextureError,
    > {
        self@.loaded(decoded)
    }

    fn load_texture(&self, file: &Vec<u8>) -> (res: Result<Option<TextureUpload>, TextureError>) {
        let decoded = match decode_png(file.as_slice()) {
            Ok(image) => Some(image),
            Err(_) => None,
        };
        self.load_decoded(decoded)
    }
}

} // verus!
