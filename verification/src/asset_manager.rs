use std::collections::HashMap;
use vstd::prelude::*;
use crate::arena::Arena;
use crate::handle::Handle;
use crate::resources::{
    BufferAsset, ComputeBindGroup, ComputePipelineAsset, Material, Mesh, RenderPipelineAsset,
    TextureAsset,
};

verus! {

/// Every kind of asset that a renderer owns, each in its own arena.
pub struct AssetManager {
    pub render_pipelines: Arena<RenderPipelineAsset>,
    pub meshes: Arena<Mesh>,
    pub materials: Arena<Material>,
    pub textures: Arena<TextureAsset>,
    pub samplers: Arena<wgpu::Sampler>,
    pub shaders: Arena<wgpu::ShaderModule>,
    pub compute_pipelines: Arena<ComputePipelineAsset>,
    pub compute_bind_groups: Arena<ComputeBindGroup>,
    pub buffers: Arena<BufferAsset>,
}

impl AssetManager {
    /// Every arena's bookkeeping holds.
    pub open spec fn wf(&self) -> bool {
        &&& self.render_pipelines.wf()
        &&& self.meshes.wf()
        &&& self.materials.wf()
        &&& self.textures.wf()
        &&& self.samplers.wf()
        &&& self.shaders.wf()
        &&& self.compute_pipelines.wf()
        &&& self.compute_bind_groups.wf()
        &&& self.buffers.wf()
    }

    /// An asset manager with every arena empty.
    pub fn new() -> (m: Self)
        ensures
            m.wf(),
            m.render_pipelines@.slots.len() == 0,
            m.render_pipelines@.free.len() == 0,
            m.meshes@.slots.len() == 0,
            m.meshes@.free.len() == 0,
            m.materials@.slots.len() == 0,
            m.materials@.free.len() == 0,
            m.textures@.slots.len() == 0,
            m.textures@.free.len() == 0,
            m.samplers@.slots.len() == 0,
            m.samplers@.free.len() == 0,
            m.shaders@.slots.len() == 0,
            m.shaders@.free.len() == 0,
            m.compute_pipelines@.slots.len() == 0,
            m.compute_pipelines@.free.len() == 0,
            m.compute_bind_groups@.slots.len() == 0,
            m.compute_bind_groups@.free.len() == 0,
            m.buffers@.slots.len() == 0,
            m.buffers@.free.len() == 0,
    {
        AssetManager {
            render_pipelines: Arena::new(),
            meshes: Arena::new(),
            materials: Arena::new(),
            textures: Arena::new(),
            samplers: Arena::new(),
            shaders: Arena::new(),
            compute_pipelines: Arena::new(),
            compute_bind_groups: Arena::new(),
            buffers: Arena::new(),
        }
    }
}

impl AssetManager {
    /// Stores a compute bind group and gives its handle, as
    /// [`Arena::insert`] does; every other arena stays as it was.
    pub fn insert_compute_bind_group(&mut self, group: ComputeBindGroup) -> (h: Handle<ComputeBindGroup>)
        requires
            old(self).compute_bind_groups@.can_insert(),
        ensures
            (final(self).compute_bind_groups@, h) == old(self).compute_bind_groups@.insert(group),
            final(self).render_pipelines@ == old(self).render_pipelines@,
            final(self).meshes@ == old(self).meshes@,
            final(self).materials@ == old(self).materials@,
            final(self).textures@ == old(self).textures@,
            final(self).samplers@ == old(self).samplers@,
            final(self).shaders@ == old(self).shaders@,
            final(self).compute_pipelines@ == old(self).compute_pipelines@,
            final(self).buffers@ == old(self).buffers@,
    {
        self.compute_bind_groups.insert(group)
    }
}

/// Textures registered under names.
pub struct AssetRegistry {
    pub textures: HashMap<String, Handle<TextureAsset>>,
}

impl AssetRegistry {
    /// A registry with no names.
    pub fn new() -> (r: Self)
        ensures
            r.textures@ == Map::<String, Handle<TextureAsset>>::empty(),
    {
        AssetRegistry { textures: HashMap::new() }
    }
}

} // verus!
