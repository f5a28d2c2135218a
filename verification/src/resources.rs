use vstd::prelude::*;
use crate::handle::Handle;

verus! {

/// A GPU buffer.
pub struct BufferAsset {
    pub buffer: wgpu::Buffer,
}

/// A GPU texture together with the view through which it is bound.
pub struct TextureAsset {
    pub texture: wgpu::Texture,
    pub view: wgpu::TextureView,
}

impl TextureAsset {
    /// Pairs a texture with its view.
    pub fn new(texture: wgpu::Texture, view: wgpu::TextureView) -> (t: Self)
        ensures
            t.texture == texture,
            t.view == view,
    {
        TextureAsset { texture, view }
    }
}

/// Indexed geometry: a vertex buffer, a buffer of `u16` indices and the
/// number of indices that a draw walks through.
pub struct Mesh {
    pub vertex_buffer: wgpu::Buffer,
    pub index_buffer: wgpu::Buffer,
    pub index_count: u32,
}

/// The resources bound for a draw, and the render pipeline they were bound for.
pub struct Material {
    pub bind_group: wgpu::BindGroup,
    pub pipeline: Handle<RenderPipelineAsset>,
}

/// A render pipeline and the layout of the bind group that its materials use.
pub struct RenderPipelineAsset {
    pub pipeline: wgpu::RenderPipeline,
    pub material_layout: wgpu::BindGroupLayout,
}

/// A compute pipeline and the layout of its bind group.
pub struct ComputePipelineAsset {
    pub pipeline: wgpu::ComputePipeline,
    pub layout: wgpu::BindGroupLayout,
}

/// The resources bound for a compute dispatch.
pub struct ComputeBindGroup {
    pub bind_group: wgpu::BindGroup,
}

} // verus!
