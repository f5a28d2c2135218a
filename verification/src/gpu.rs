use vstd::prelude::*;

verus! {

// The GPU objects that the library stores. Verified code only carries them
// from place to place; what they are is up to the GPU driver.

#[verifier::external_type_specification]
#[verifier::external_body]
pub struct ExGpuBuffer(wgpu::Buffer);

#[verifier::external_type_specification]
#[verifier::external_body]
pub struct ExGpuTexture(wgpu::Texture);

#[verifier::external_type_specification]
#[verifier::external_body]
pub struct ExGpuTextureView(wgpu::TextureView);

#[verifier::external_type_specification]
#[verifier::external_body]
pub struct ExGpuSampler(wgpu::Sampler);

#[verifier::external_type_specification]
#[verifier::external_body]
pub struct ExGpuShaderModule(wgpu::ShaderModule);

#[verifier::external_type_specification]
#[verifier::external_body]
pub struct ExGpuBindGroup(wgpu::BindGroup);

#[verifier::external_type_specification]
#[verifier::external_body]
pub struct ExGpuBindGroupLayout(wgpu::BindGroupLayout);

#[verifier::external_type_specification]
#[verifier::external_body]
pub struct ExGpuRenderPipeline(wgpu::RenderPipeline);

#[verifier::external_type_specification]
#[verifier::external_body]
pub struct ExGpuComputePipeline(wgpu::ComputePipeline);

// Configuration values that callers choose and the library hands on.

#[verifier::external_type_specification]
#[verifier::external_body]
pub struct ExGpuTextureFormat(wgpu::TextureFormat);

#[verifier::external_type_specification]
#[verifier::external_body]
pub struct ExGpuTextureUsages(wgpu::TextureUsages);

#[verifier::external_type_specification]
#[verifier::external_body]
pub struct ExGpuFilterMode(wgpu::FilterMode);

#[verifier::external_type_specification]
#[verifier::external_body]
pub struct ExGpuBlendState(wgpu::BlendState);

#[verifier::external_type_specification]
#[verifier::external_body]
pub struct ExGpuVertexFormat(wgpu::VertexFormat);

// What decoding an encoded image can fail with.

#[verifier::external_type_specification]
#[verifier::external_body]
pub struct ExImageError(image::ImageError);

} // verus!
