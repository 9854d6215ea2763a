//! Textures: where their images come from and how they are sampled.
use crate::accessor::BufferView;
use crate::buffer::{percent_decode, percent_decoded, str_to_string};
use crate::data_uri::{data_uri_bytes, data_uri_parts, DataUri};
use crate::document::{ImageSource, MagFilter, MinFilter, Sampler, Texture, WrappingMode};
use crate::index_set::{held, IndexSet};
use crate::loader::{ErrorKind, GltfError};
use vstd::prelude::*;
use vstd::string::StringExecFns;

verus! {

/// How texture coordinates outside the unit square are handled.
#[derive(Clone, Copy, Debug, PartialEq, Eq, Structural)]
pub enum AddressMode {
    ClampToEdge,
    Repeat,
    MirrorRepeat,
}

/// How texels are combined.
#[derive(Clone, Copy, Debug, PartialEq, Eq, Structural)]
pub enum FilterMode {
    Nearest,
    Linear,
}

/// How a texture is sampled, in the terms of the renderer.
#[derive(Clone, Copy, Debug, PartialEq, Eq, Structural)]
pub struct SamplerDescriptor {
    pub address_mode_u: AddressMode,
    pub address_mode_v: AddressMode,
    pub mag_filter: FilterMode,
    pub min_filter: FilterMode,
    pub mipmap_filter: FilterMode,
}

/// The address mode for a wrapping mode.
pub open spec fn address_mode(wrapping: WrappingMode) -> AddressMode {
    match wrapping {
        WrappingMode::ClampToEdge => AddressMode::ClampToEdge,
        WrappingMode::Repeat => AddressMode::Repeat,
        WrappingMode::MirroredRepeat => AddressMode::MirrorRepeat,
    }
}

/// The filter within one level of detail that a minification filter asks for.
pub open spec fn min_filter_mode(filter: MinFilter) -> FilterMode {
    match filter {
        MinFilter::Nearest | MinFilter::NearestMipmapNearest | MinFilter::NearestMipmapLinear =>
            FilterMode::Nearest,
        MinFilter::Linear | MinFilter::LinearMipmapNearest | MinFilter::LinearMipmapLinear =>
            FilterMode::Linear,
    }
}

/// The filter between levels of detail that a minification filter asks for.
pub open spec fn mipmap_filter_mode(filter: MinFilter) -> FilterMode {
    match filter {
        MinFilter::Nearest
        | MinFilter::Linear
        | MinFilter::NearestMipmapNearest
        | MinFilter::LinearMipmapNearest => FilterMode::Nearest,
        MinFilter::NearestMipmapLinear | MinFilter::LinearMipmapLinear => FilterMode::Linear,
    }
}

/// The descriptor for a sampler: its wrapping modes and filters in the terms of the
/// renderer, and the nearest texel where the sampler names no filter.
pub open spec fn sampler_descriptor(sampler: Sampler) -> SamplerDescriptor {
    SamplerDescriptor {
        address_mode_u: address_mode(sampler.wrap_s),
        address_mode_v: address_mode(sampler.wrap_t),
        mag_filter: match sampler.mag_filter {
            Some(MagFilter::Nearest) => FilterMode::Nearest,
            Some(MagFilter::Linear) => FilterMode::Linear,
            None => FilterMode::Nearest,
        },
        min_filter: match sampler.min_filter {
            Some(filter) => min_filter_mode(filter),
            None => FilterMode::Nearest,
        },
        mipmap_filter: match sampler.min_filter {
            Some(filter) => mipmap_filter_mode(filter),
            None => FilterMode::Nearest,
        },
    }
}

/// Maps the texture address mode from glTF to that of the renderer.
pub fn texture_address_mode(gltf_address_mode: &WrappingMode) -> (r: AddressMode)
    ensures
        r == address_mode(*gltf_address_mode),
{
    match gltf_address_mode {
        WrappingMode::ClampToEdge => AddressMode::ClampToEdge,
        WrappingMode::Repeat => AddressMode::Repeat,
        WrappingMode::MirroredRepeat => AddressMode::MirrorRepeat,
    }
}

/// Extracts the texture sampler data from the glTF texture.
pub fn texture_sampler(texture: &Texture) -> (r: SamplerDescriptor)
    ensures
        r == sampler_descriptor(texture.sampler),
{
    let gltf_sampler = &texture.sampler;
    SamplerDescriptor {
        address_mode_u: texture_address_mode(&gltf_sampler.wrap_s),
        address_mode_v: texture_address_mode(&gltf_sampler.wrap_t),
        mag_filter: match gltf_sampler.mag_filter {
            Some(MagFilter::Nearest) => FilterMode::Nearest,
            Some(MagFilter::Linear) => FilterMode::Linear,
            None => FilterMode::Nearest,
        },
        min_filter: match gltf_sampler.min_filter {
            Some(MinFilter::Nearest)
            | Some(MinFilter::NearestMipmapNearest)
            | Some(MinFilter::NearestMipmapLinear) => FilterMode::Nearest,
            Some(MinFilter::Linear)
            | Some(MinFilter::LinearMipmapNearest)
            | Some(MinFilter::LinearMipmapLinear) => FilterMode::Linear,
            None => FilterMode::Nearest,
        },
        mipmap_filter: match gltf_sampler.min_filter {
            Some(MinFilter::Nearest)
            | Some(MinFilter::Linear)
            | Some(MinFilter::NearestMipmapNearest)
            | Some(MinFilter::LinearMipmapNearest) => FilterMode::Nearest,
            Some(MinFilter::NearestMipmapLinear) | Some(MinFilter::LinearMipmapLinear) =>
                FilterMode::Linear,
            None => FilterMode::Nearest,
        },
    }
}

/// Where the encoded image of a texture is.
#[derive(Clone, Debug, PartialEq, Eq)]
pub enum ImageData {
    /// In a loaded buffer, from `start` up to `end`.
    Slice { buffer: usize, start: usize, end: usize },
    /// Here.
    Inline(Vec<u8>),
    /// In a file at this path, taken relative to the directory of the document.
    Read(String),
}

/// What is needed to decode the image of a texture.
#[derive(Clone, Debug, PartialEq, Eq)]
pub struct ImageRequest {
    pub data: ImageData,
    /// The mime type of the image. Where there is none, the extension of the path
    /// tells the format.
    pub mime_type: Option<String>,
    /// Whether the colors are encoded for display. Data that is not color is linear.
    pub is_srgb: bool,
    pub sampler: SamplerDescriptor,
}

/// Where the encoded image of a texture is, as mathematics.
pub enum ImageDataView {
    Slice { buffer: usize, start: usize, end: usize },
    Inline(Seq<u8>),
    Read(Seq<char>),
}

/// What is needed to decode the image of a texture, as mathematics.
pub struct ImageRequestView {
    pub data: ImageDataView,
    pub mime_type: Option<Seq<char>>,
    pub is_srgb: bool,
    pub sampler: SamplerDescriptor,
}

/// The text of an optional string.
pub open spec fn text_of(s: Option<String>) -> Option<Seq<char>> {
    match s {
        Some(s) => Some(s@),
        None => None,
    }
}

impl View for ImageData {
    type V = ImageDataView;

    open spec fn view(&self) -> ImageDataView {
        match self {
            ImageData::Slice { buffer, start, end } => ImageDataView::Slice {
                buffer: *buffer,
                start: *start,
                end: *end,
            },
            ImageData::Inline(bytes) => ImageDataView::Inline(bytes@),
            ImageData::Read(path) => ImageDataView::Read(path@),
        }
    }
}

impl View for ImageRequest {
    type V = ImageRequestView;

    open spec fn view(&self) -> ImageRequestView {
        ImageRequestView {
            data: self.data@,
            mime_type: text_of(self.mime_type),
            is_srgb: self.is_srgb,
            sampler: self.sampler,
        }
    }
}

/// Where the image of a source is and of what mime type, once its URI, if it has
/// one, is percent-decoded into `decoded`. A buffer view must lie in a loaded buffer.
/// A data URI holds the image, of the mime type that the URI names unless the source
/// declares one. Any other URI is a path.
pub open spec fn image_location(
    source: ImageSource,
    decoded: Seq<char>,
    views: Seq<BufferView>,
    buffers: Seq<Vec<u8>>,
) -> Result<(ImageDataView, Option<Seq<char>>), ErrorKind> {
    match source {
        ImageSource::View { view, mime_type } => {
            if view < views.len() && views[view as int].buffer < buffers.len()
                && views[view as int].offset + views[view as int].length
                <= buffers[views[view as int].buffer as int]@.len() {
                Ok(
                    (
                        ImageDataView::Slice {
                            buffer: views[view as int].buffer,
                            start: views[view as int].offset,
                            end: (views[view as int].offset + views[view as int].length) as usize,
                        },
                        Some(mime_type@),
                    ),
                )
            } else {
                Err(ErrorKind::Gltf)
            }
        },
        ImageSource::Uri { uri, mime_type } => match data_uri_parts(decoded) {
            Some(parts) => match data_uri_bytes(parts) {
                Some(bytes) => Ok(
                    (
                        ImageDataView::Inline(bytes),
                        match mime_type {
                            Some(declared) => Some(declared@),
                            None => Some(parts.mime_type),
                        },
                    ),
                )
                ,
                None => Err(ErrorKind::Base64Decode),
            },
            None => Ok((ImageDataView::Read(decoded), text_of(mime_type))),
        },
    }
}

/// What is needed to decode the image of a texture, or why it cannot be had, or
/// nothing where the URI of the image does not decode into text. A texture that is
/// listed as linear holds data that is not color.
pub open spec fn image_request(
    texture: Texture,
    index: usize,
    views: Seq<BufferView>,
    buffers: Seq<Vec<u8>>,
    linear_textures: Set<usize>,
) -> Option<Result<ImageRequestView, ErrorKind>> {
    let decoded = match texture.source {
        ImageSource::View { .. } => Some(Seq::<char>::empty()),
        ImageSource::Uri { uri, .. } => percent_decoded(uri@),
    };
    match decoded {
        None => None,
        Some(decoded) => Some(
            match image_location(texture.source, decoded, views, buffers) {
                Ok((data, mime_type)) => Ok(
                    ImageRequestView {
                        data,
                        mime_type,
                        is_srgb: !linear_textures.contains(index),
                        sampler: sampler_descriptor(texture.sampler),
                    },
                ),
                Err(e) => Err(e),
            },
        ),
    }
}

/// What a texture asked for, as mathematics.
pub open spec fn request_of(r: Result<ImageRequest, GltfError>) -> Result<
    ImageRequestView,
    ErrorKind,
> {
    match r {
        Ok(request) => Ok(request@),
        Err(e) => Err(e.kind()),
    }
}

/// Says where the image of a glTF texture comes from, and how it is to be decoded and
/// sampled. Nothing where the URI of the image does not decode into text.
pub fn load_texture(
    gltf_texture: &Texture,
    index: usize,
    views: &Vec<BufferView>,
    buffer_data: &Vec<Vec<u8>>,
    linear_textures: &IndexSet,
) -> (r: Option<Result<ImageRequest, GltfError>>)
    ensures
        match image_request(*gltf_texture, index, views@, buffer_data@, held(*linear_textures)) {
            Some(request) => r matches Some(found) && request_of(found) == request,
            None => r is None,
        },
{
    let is_srgb = !linear_textures.contains(index);
    let sampler = texture_sampler(gltf_texture);
    let (data, mime_type) = match &gltf_texture.source {
        ImageSource::View { view, mime_type } => {
            if *view >= views.len() {
                return Some(Err(GltfError::Gltf(String::from_str("image in a missing buffer view"))));
            }
            let view = &views[*view];
            if view.buffer >= buffer_data.len() {
                return Some(Err(GltfError::Gltf(String::from_str("image in a missing buffer"))));
            }
            let len = buffer_data[view.buffer].len();
            if view.offset > len || view.length > len - view.offset {
                return Some(
                    Err(GltfError::Gltf(String::from_str("image outside of its buffer"))),
                );
            }
            (
                ImageData::Slice {
                    buffer: view.buffer,
                    start: view.offset,
                    end: view.offset + view.length,
                },
                Some(mime_type.clone()),
            )
        },
        ImageSource::Uri { uri, mime_type } => {
            let decoded = match percent_decode(uri.as_str()) {
                Some(decoded) => decoded,
                None => {
                    return None;
                },
            };
            match DataUri::parse(decoded.as_str()) {
                Ok(data_uri) => match data_uri.decode() {
                    Ok(bytes) => (
                        ImageData::Inline(bytes),
                        match mime_type {
                            Some(declared) => Some(declared.clone()),
                            None => Some(str_to_string(data_uri.mime_type)),
                        },
                    ),
                    Err(e) => {
                        return Some(Err(GltfError::Base64Decode(e)));
                    },
                },
                Err(_) => (ImageData::Read(decoded), mime_type.clone()),
            }
        },
    };
    Some(Ok(ImageRequest { data, mime_type, is_srgb, sampler }))
}

/// How the textures of a document are decoded.
#[derive(Clone, Copy, Debug, PartialEq, Eq, Structural)]
pub enum TextureSchedule {
    /// One after the other, in the order of their declaration. A texture that fails
    /// fails the load.
    Serial,
    /// All at once. A texture that fails is reported and left out.
    Concurrent,
}

/// Decides how the textures are decoded: one after the other where there is exactly
/// one or where work cannot be fanned out, else all at once.
pub fn texture_schedule(texture_count: usize, can_fan_out: bool) -> (r: TextureSchedule)
    ensures
        r == if texture_count == 1 || !can_fan_out {
            TextureSchedule::Serial
        } else {
            TextureSchedule::Concurrent
        },
{
    if texture_count == 1 || !can_fan_out {
        TextureSchedule::Serial
    } else {
        TextureSchedule::Concurrent
    }
}

/// Whether a texture that fails to load fails the whole load.
pub fn texture_failure_is_fatal(schedule: TextureSchedule) -> (r: bool)
    ensures
        r == (schedule == TextureSchedule::Serial),
{
    match schedule {
        TextureSchedule::Serial => true,
        TextureSchedule::Concurrent => false,
    }
}

} // verus!
