//! A small asset and frame manager for GPU rendering.
//!
//! The library keeps GPU resources in generational arenas addressed by
//! [`Handle`]s, records the work of a frame as a list of commands, and turns a
//! recorded frame into a plan in which every handle has been resolved to the
//! resource that it names. Creating resources on a device and encoding the
//! plan into GPU commands is left to the caller.

mod gpu;

pub mod arena;
pub mod asset_manager;
pub mod bindings;
pub mod compute;
pub mod frame;
pub mod handle;
pub mod layout;
pub mod material;
pub mod pipelines;
pub mod plan;
pub mod resources;
pub mod surface;
pub mod texture;

pub use arena::{Arena, ArenaOp, ArenaView, Slot};
pub use asset_manager::{AssetManager, AssetRegistry};
pub use bindings::BoundResource;
pub use compute::{ComputeBindGroupBuilder, ComputeBindGroupBuilderView, ComputeBindings};
pub use frame::{
    ComputeTask, DrawCommand, Frame, FrameView, InstancedCommand, RenderTask, SortKey,
    StreamedCommand,
};
pub use handle::Handle;
pub use layout::{
    compute_texture_float, compute_texture_uint, sampler, storage, storage_texture, texture, uniform,
    Attribute, BindingKind, BufferLayout, BufferLayoutView, LayoutEntry, StepMode, Visibility,
};
pub use material::{MaterialBindings, MaterialBuilder, MaterialBuilderView};
pub use pipelines::{
    BlendComponent, BlendEquations, BlendFactor, BlendMode, BlendOperation,
    ComputePipelineBuilder, ComputePipelineBuilderView, RenderPipelineBuilder,
    RenderPipelineBuilderView,
};
pub use plan::{ComputeCall, DrawCall, DrawInstances, FramePlan, MissingAsset};
pub use resources::{
    BufferAsset, ComputeBindGroup, ComputePipelineAsset, Material, Mesh, RenderPipelineAsset,
    TextureAsset,
};
pub use surface::{surface_action, SurfaceAction, SurfaceStatus};
pub use texture::{
    copy_layout, load_texture_upload, texture_upload, upload_from_decoded, CopyLayout, DecodedImage, SamplerBuilder,
    FilterSetting, TextureBuilder, TextureBuilderView, TextureDimension, TextureExtent, TextureFormatSetting, TextureLoadError, TextureUsageSetting,
    TextureUpload,
};
