use vstd::prelude::*;

verus! {

/// The shader stages that see a binding.
#[derive(Debug, Clone, Copy, PartialEq, Eq, Structural)]
pub enum Visibility {
    Vertex,
    Fragment,
    VertexFragment,
    Compute,
}

/// What a binding of a bind group layout holds. Textures are two-dimensional
/// and not multisampled.
#[derive(Debug, Clone, Copy, PartialEq, Eq, Structural)]
pub enum BindingKind {
    /// A uniform buffer.
    UniformBuffer,
    /// A storage buffer, read-only or not.
    StorageBuffer { read_only: bool },
    /// A texture of filterable floats.
    FloatTexture,
    /// A texture of unsigned integers.
    UintTexture,
    /// A filtering sampler.
    FilteringSampler,
    /// A write-only storage texture of RGBA 8-bit unsigned normalised texels.
    WriteOnlyRgba8StorageTexture,
}

/// One binding of a bind group layout: its number, the stages that see it,
/// and what it holds. It is not an array.
#[derive(Debug, Clone, Copy, PartialEq, Eq, Structural)]
pub struct LayoutEntry {
    pub binding: u32,
    pub visibility: Visibility,
    pub kind: BindingKind,
}

/// A filterable float texture seen by the fragment stage.
pub fn texture(binding: u32) -> (e: LayoutEntry)
    ensures
        e == (LayoutEntry { binding, visibility: Visibility::Fragment, kind: BindingKind::FloatTexture }),
{
    LayoutEntry { binding, visibility: Visibility::Fragment, kind: BindingKind::FloatTexture }
}

/// A filtering sampler seen by the fragment stage.
pub fn sampler(binding: u32) -> (e: LayoutEntry)
    ensures
        e == (LayoutEntry { binding, visibility: Visibility::Fragment, kind: BindingKind::FilteringSampler }),
{
    LayoutEntry { binding, visibility: Visibility::Fragment, kind: BindingKind::FilteringSampler }
}

/// A uniform buffer seen by the vertex and fragment stages.
pub fn uniform(binding: u32) -> (e: LayoutEntry)
    ensures
        e == (LayoutEntry { binding, visibility: Visibility::VertexFragment, kind: BindingKind::UniformBuffer }),
{
    LayoutEntry { binding, visibility: Visibility::VertexFragment, kind: BindingKind::UniformBuffer }
}

/// A storage buffer seen by the compute stage.
pub fn storage(binding: u32, read_only: bool) -> (e: LayoutEntry)
    ensures
        e == (LayoutEntry {
            binding,
            visibility: Visibility::Compute,
            kind: BindingKind::StorageBuffer { read_only },
        }),
{
    LayoutEntry { binding, visibility: Visibility::Compute, kind: BindingKind::StorageBuffer { read_only } }
}

/// A write-only RGBA8 storage texture seen by the compute stage.
pub fn storage_texture(binding: u32) -> (e: LayoutEntry)
    ensures
        e == (LayoutEntry {
            binding,
            visibility: Visibility::Compute,
            kind: BindingKind::WriteOnlyRgba8StorageTexture,
        }),
{
    LayoutEntry { binding, visibility: Visibility::Compute, kind: BindingKind::WriteOnlyRgba8StorageTexture }
}

/// A filterable float texture seen by the compute stage.
pub fn compute_texture_float(binding: u32) -> (e: LayoutEntry)
    ensures
        e == (LayoutEntry { binding, visibility: Visibility::Compute, kind: BindingKind::FloatTexture }),
{
    LayoutEntry { binding, visibility: Visibility::Compute, kind: BindingKind::FloatTexture }
}

/// An unsigned integer texture seen by the compute stage.
pub fn compute_texture_uint(binding: u32) -> (e: LayoutEntry)
    ensures
        e == (LayoutEntry { binding, visibility: Visibility::Compute, kind: BindingKind::UintTexture }),
{
    LayoutEntry { binding, visibility: Visibility::Compute, kind: BindingKind::UintTexture }
}

/// Whether a vertex buffer advances per vertex or per instance.
#[derive(Debug, Clone, Copy, PartialEq, Eq, Structural)]
pub enum StepMode {
    Vertex,
    Instance,
}

/// One attribute of a vertex buffer: its format, its byte offset in an
/// element, and the shader location it feeds.
pub struct Attribute {
    pub format: wgpu::VertexFormat,
    pub offset: u64,
    pub shader_location: u32,
}

/// The layout of the elements of a vertex buffer.
pub struct BufferLayout {
    attributes: Vec<Attribute>,
    stride: u64,
    step_mode: StepMode,
}

/// The contents of a [`BufferLayout`]: its attributes in the order given,
/// the byte distance between elements, and the step mode.
pub struct BufferLayoutView {
    pub attributes: Seq<Attribute>,
    pub stride: u64,
    pub step_mode: StepMode,
}

impl View for BufferLayout {
    type V = BufferLayoutView;

    closed spec fn view(&self) -> BufferLayoutView {
        BufferLayoutView { attributes: self.attributes@, stride: self.stride, step_mode: self.step_mode }
    }
}

impl BufferLayout {
    /// A per-vertex layout with no attributes and stride 0.
    pub fn new() -> (l: Self)
        ensures
            l@.attributes.len() == 0,
            l@.stride == 0,
            l@.step_mode == StepMode::Vertex,
    {
        BufferLayout { attributes: Vec::new(), stride: 0, step_mode: StepMode::Vertex }
    }

    /// Also has an attribute of the format at the offset, for the location.
    pub fn attribute(self, shader_location: u32, offset: u64, format: wgpu::VertexFormat) -> (l: Self)
        ensures
            l@.attributes == self@.attributes.push(Attribute { format, offset, shader_location }),
            l@.stride == self@.stride,
            l@.step_mode == self@.step_mode,
    {
        let mut l = self;
        l.attributes.push(Attribute { format, offset, shader_location });
        l
    }

    /// Has elements `stride` bytes apart.
    pub fn stride(self, stride: u64) -> (l: Self)
        ensures
            l@.attributes == self@.attributes,
            l@.stride == stride,
            l@.step_mode == self@.step_mode,
    {
        let mut l = self;
        l.stride = stride;
        l
    }

    /// Advances by the step mode.
    pub fn step_mode(self, mode: StepMode) -> (l: Self)
        ensures
            l@.attributes == self@.attributes,
            l@.stride == self@.stride,
            l@.step_mode == mode,
    {
        let mut l = self;
        l.step_mode = mode;
        l
    }

    /// The attributes, in the order given.
    pub fn attributes(&self) -> (a: &Vec<Attribute>)
        ensures
            a@ == self@.attributes,
    {
        &self.attributes
    }

    /// The byte distance between elements.
    pub fn array_stride(&self) -> (s: u64)
        ensures
            s == self@.stride,
    {
        self.stride
    }

    /// The step mode.
    pub fn vertex_step_mode(&self) -> (m: StepMode)
        ensures
            m == self@.step_mode,
    {
        self.step_mode
    }
}

} // verus!
