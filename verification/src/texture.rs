use vstd::prelude::*;

verus! {

/// The texel format of a texture: RGBA with 8-bit unsigned normalised
/// channels unless another format is given.
pub enum TextureFormatSetting {
    Rgba8Unorm,
    Given(wgpu::TextureFormat),
}

/// What a texture can be used for: bound for sampling and copied into,
/// unless other usages are given.
pub enum TextureUsageSetting {
    TextureBindingAndCopyDst,
    Given(wgpu::TextureUsages),
}

/// The magnification filter of a sampler: linear unless another filter is
/// given.
pub enum FilterSetting {
    Linear,
    Given(wgpu::FilterMode),
}

/// The size of a texture in texels.
#[derive(Debug, Clone, Copy, PartialEq, Eq, Structural)]
pub struct TextureExtent {
    pub width: u32,
    pub height: u32,
    pub depth_or_array_layers: u32,
}

/// How many axes a texture has.
#[derive(Debug, Clone, Copy, PartialEq, Eq, Structural)]
pub enum TextureDimension {
    D1,
    D2,
    D3,
}

/// The settings of a texture, before it is created.
pub struct TextureBuilder {
    size: TextureExtent,
    dimension: TextureDimension,
    format: TextureFormatSetting,
    usage: TextureUsageSetting,
}

/// The settings of a [`TextureBuilder`].
pub struct TextureBuilderView {
    pub size: TextureExtent,
    pub dimension: TextureDimension,
    pub format: TextureFormatSetting,
    pub usage: TextureUsageSetting,
}

impl View for TextureBuilder {
    type V = TextureBuilderView;

    closed spec fn view(&self) -> TextureBuilderView {
        TextureBuilderView { size: self.size, dimension: self.dimension, format: self.format, usage: self.usage }
    }
}

impl TextureBuilder {
    /// A two-dimensional 128 by 128 RGBA8 texture, bound for sampling and
    /// copied into.
    pub fn new() -> (b: Self)
        ensures
            b@ == (TextureBuilderView {
                size: TextureExtent { width: 128, height: 128, depth_or_array_layers: 1 },
                dimension: TextureDimension::D2,
                format: TextureFormatSetting::Rgba8Unorm,
                usage: TextureUsageSetting::TextureBindingAndCopyDst,
            }),
    {
        TextureBuilder {
            size: TextureExtent { width: 128, height: 128, depth_or_array_layers: 1 },
            dimension: TextureDimension::D2,
            format: TextureFormatSetting::Rgba8Unorm,
            usage: TextureUsageSetting::TextureBindingAndCopyDst,
        }
    }

    /// Has the size.
    pub fn size(self, size: TextureExtent) -> (b: Self)
        ensures
            b@ == (TextureBuilderView { size, ..self@ }),
    {
        let mut b = self;
        b.size = size;
        b
    }

    /// Is three-dimensional.
    pub fn dimension_3d(self) -> (b: Self)
        ensures
            b@ == (TextureBuilderView { dimension: TextureDimension::D3, ..self@ }),
    {
        let mut b = self;
        b.dimension = TextureDimension::D3;
        b
    }

    /// Has the usage.
    pub fn usage(self, usage: wgpu::TextureUsages) -> (b: Self)
        ensures
            b@ == (TextureBuilderView { usage: TextureUsageSetting::Given(usage), ..self@ }),
    {
        let mut b = self;
        b.usage = TextureUsageSetting::Given(usage);
        b
    }

    /// Has the format.
    pub fn format(self, format: wgpu::TextureFormat) -> (b: Self)
        ensures
            b@ == (TextureBuilderView { format: TextureFormatSetting::Given(format), ..self@ }),
    {
        let mut b = self;
        b.format = TextureFormatSetting::Given(format);
        b
    }

    /// The size.
    pub fn extent(&self) -> (e: TextureExtent)
        ensures
            e == self@.size,
    {
        self.size
    }

    /// The dimension.
    pub fn texture_dimension(&self) -> (d: TextureDimension)
        ensures
            d == self@.dimension,
    {
        self.dimension
    }

    /// The format setting.
    pub fn format_setting(&self) -> (f: &TextureFormatSetting)
        ensures
            *f == self@.format,
    {
        &self.format
    }

    /// The usage setting.
    pub fn usage_setting(&self) -> (u: &TextureUsageSetting)
        ensures
            *u == self@.usage,
    {
        &self.usage
    }
}

impl Default for TextureBuilder {
    fn default() -> (b: Self)
        ensures
            b@ == (TextureBuilderView {
                size: TextureExtent { width: 128, height: 128, depth_or_array_layers: 1 },
                dimension: TextureDimension::D2,
                format: TextureFormatSetting::Rgba8Unorm,
                usage: TextureUsageSetting::TextureBindingAndCopyDst,
            }),
    {
        Self::new()
    }
}

/// The settings of a sampler, before it is created.
pub struct SamplerBuilder {
    mag_filter: FilterSetting,
}

impl SamplerBuilder {
    /// The magnification filter setting.
    pub closed spec fn spec_mag_filter(&self) -> FilterSetting {
        self.mag_filter
    }

    /// A sampler that magnifies linearly.
    pub fn new() -> (b: Self)
        ensures
            b.spec_mag_filter() == FilterSetting::Linear,
    {
        SamplerBuilder { mag_filter: FilterSetting::Linear }
    }

    /// Magnifies with the filter.
    pub fn filter_mode(self, filter_mode: wgpu::FilterMode) -> (b: Self)
        ensures
            b.spec_mag_filter() == FilterSetting::Given(filter_mode),
    {
        let mut b = self;
        b.mag_filter = FilterSetting::Given(filter_mode);
        b
    }

    /// The magnification filter setting.
    pub fn mag_filter(&self) -> (f: &FilterSetting)
        ensures
            *f == self.spec_mag_filter(),
    {
        &self.mag_filter
    }
}

impl Default for SamplerBuilder {
    fn default() -> (b: Self)
        ensures
            b.spec_mag_filter() == FilterSetting::Linear,
    {
        Self::new()
    }
}

/// An image decoded to 8-bit RGBA texels, row by row.
pub struct DecodedImage {
    pub width: u32,
    pub height: u32,
    pub rgba: Vec<u8>,
}

/// Decodes the bytes with `image::load_from_memory` (the format is guessed
/// from the bytes), and gives the image's dimensions and its texels
/// converted to RGBA8 (`DynamicImage::to_rgba8`, then the raw buffer). An
/// image buffer holds at least four bytes per texel. Nothing ties the
/// outcome to the bytes here: the image crate lets any code in the process
/// register further format detection and decoding hooks at run time, so
/// the same bytes need not decode alike in every process; which error comes
/// back is not stated either.
#[verifier::external_body]
fn decode_rgba8(encoded: &[u8]) -> (r: Result<DecodedImage, image::ImageError>)
    ensures
        r matches Ok(d) ==> d.rgba@.len() >= 4 * d.width * d.height,
{
    match image::load_from_memory(encoded) {
        Ok(img) => {
            let (width, height) = image::GenericImageView::dimensions(&img);
            Ok(DecodedImage { width, height, rgba: img.to_rgba8().into_raw() })
        },
        Err(e) => Err(e),
    }
}

/// Why an encoded texture could not be prepared for upload.
pub enum TextureLoadError {
    /// The bytes encode no image that the decoder reads.
    Decode(image::ImageError),
    /// A row of the image takes more bytes than a `u32` counts.
    RowTooLong,
}

/// How bytes are laid out for a copy into a texture.
#[derive(Debug, Clone, Copy, PartialEq, Eq, Structural)]
pub struct CopyLayout {
    pub bytes_per_row: u32,
    pub rows_per_image: u32,
}

/// The layout of tightly packed rows of `width` texels of `bytes_per_pixel`
/// bytes each, `height` rows per image.
pub fn copy_layout(bytes_per_pixel: u32, width: u32, height: u32) -> (l: CopyLayout)
    requires
        bytes_per_pixel * width <= u32::MAX,
    ensures
        l.bytes_per_row == bytes_per_pixel * width,
        l.rows_per_image == height,
{
    CopyLayout { bytes_per_row: bytes_per_pixel * width, rows_per_image: height }
}

/// An RGBA8 image ready to be copied into a new two-dimensional texture of
/// its size.
pub struct TextureUpload {
    pub size: TextureExtent,
    pub layout: CopyLayout,
    pub rgba: Vec<u8>,
}

/// The upload of a decoded image: its size with one layer, rows of four
/// bytes per texel, one image of `height` rows, and its texels.
pub fn texture_upload(image: DecodedImage) -> (u: TextureUpload)
    requires
        4 * image.width <= u32::MAX,
    ensures
        u.size == (TextureExtent { width: image.width, height: image.height, depth_or_array_layers: 1 }),
        u.layout == (CopyLayout { bytes_per_row: (4 * image.width) as u32, rows_per_image: image.height }),
        u.rgba@ == image.rgba@,
{
    let layout = copy_layout(4, image.width, image.height);
    TextureUpload {
        size: TextureExtent { width: image.width, height: image.height, depth_or_array_layers: 1 },
        layout,
        rgba: image.rgba,
    }
}

/// Prepares the upload of what decoding gave: the decoder's error, an error
/// when a row of the image is too long for a `u32` byte count, otherwise
/// the upload of the decoded image (see [`texture_upload`]).
pub fn upload_from_decoded(decoded: Result<DecodedImage, image::ImageError>) -> (r: Result<TextureUpload, TextureLoadError>)
    ensures
        match decoded {
            Err(e) => r matches Err(TextureLoadError::Decode(e2)) && e2 == e,
            Ok(d) => if 4 * d.width <= u32::MAX {
                &&& r matches Ok(u)
                &&& u.size == (TextureExtent { width: d.width, height: d.height, depth_or_array_layers: 1 })
                &&& u.layout == (CopyLayout { bytes_per_row: (4 * d.width) as u32, rows_per_image: d.height })
                &&& u.rgba@ == d.rgba@
            } else {
                r matches Err(TextureLoadError::RowTooLong)
            },
        },
{
    match decoded {
        Ok(image) => {
            if image.width <= u32::MAX / 4 {
                Ok(texture_upload(image))
            } else {
                Err(TextureLoadError::RowTooLong)
            }
        },
        Err(e) => Err(TextureLoadError::Decode(e)),
    }
}

/// Decodes an encoded image and prepares its upload (see
/// [`upload_from_decoded`]). Whatever the decoder gives, an upload is one
/// layer of the decoded size, laid out in rows of four bytes per texel, and
/// holds at least four bytes per texel.
pub fn load_texture_upload(encoded: &[u8]) -> (r: Result<TextureUpload, TextureLoadError>)
    ensures
        r matches Ok(u) ==> {
            &&& u.size.depth_or_array_layers == 1
            &&& u.layout == (CopyLayout { bytes_per_row: (4 * u.size.width) as u32, rows_per_image: u.size.height })
            &&& 4 * u.size.width <= u32::MAX
            &&& u.rgba@.len() >= 4 * u.size.width * u.size.height
        },
{
    let decoded = decode_rgba8(encoded);
    upload_from_decoded(decoded)
}

} // verus!
