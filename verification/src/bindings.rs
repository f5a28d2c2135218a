use vstd::prelude::*;
use crate::asset_manager::AssetManager;
use crate::handle::Handle;
use crate::plan::{first_failure, lemma_first_failure_at, missing_unless_live, MissingAsset};
use crate::resources::{BufferAsset, ComputeBindGroup, ComputePipelineAsset, RenderPipelineAsset, TextureAsset};

verus! {

/// A resource to bind at a binding number.
pub enum BoundResource<'a> {
    /// The whole buffer.
    Buffer(&'a BufferAsset),
    /// The texture, through its view.
    Texture(&'a TextureAsset),
    /// The sampler.
    Sampler(&'a wgpu::Sampler),
}

impl AssetManager {
    /// The outcome of looking up the buffers of the bindings, in order.
    pub open spec fn buffer_binding_lookups(&self, b: Seq<(u32, Handle<BufferAsset>)>) -> Seq<Option<MissingAsset>> {
        Seq::new(b.len(), |i: int| missing_unless_live(self.buffers@, b[i].1, MissingAsset::Buffer(b[i].1)))
    }

    /// The outcome of looking up the textures of the bindings, in order.
    pub open spec fn texture_binding_lookups(&self, b: Seq<(u32, Handle<TextureAsset>)>) -> Seq<Option<MissingAsset>> {
        Seq::new(b.len(), |i: int| missing_unless_live(self.textures@, b[i].1, MissingAsset::Texture(b[i].1)))
    }

    /// The outcome of looking up the samplers of the bindings, in order.
    pub open spec fn sampler_binding_lookups(&self, b: Seq<(u32, Handle<wgpu::Sampler>)>) -> Seq<Option<MissingAsset>> {
        Seq::new(b.len(), |i: int| missing_unless_live(self.samplers@, b[i].1, MissingAsset::Sampler(b[i].1)))
    }

    /// The entry binds, at the binding's number, the buffer it names.
    pub open spec fn binds_buffer(&self, b: (u32, Handle<BufferAsset>), e: (u32, BoundResource)) -> bool {
        &&& e.0 == b.0
        &&& e.1 matches BoundResource::Buffer(r) && *r == self.buffers@.get(b.1)->Some_0
    }

    /// The entry binds, at the binding's number, the texture it names.
    pub open spec fn binds_texture(&self, b: (u32, Handle<TextureAsset>), e: (u32, BoundResource)) -> bool {
        &&& e.0 == b.0
        &&& e.1 matches BoundResource::Texture(r) && *r == self.textures@.get(b.1)->Some_0
    }

    /// The entry binds, at the binding's number, the sampler it names.
    pub open spec fn binds_sampler(&self, b: (u32, Handle<wgpu::Sampler>), e: (u32, BoundResource)) -> bool {
        &&& e.0 == b.0
        &&& e.1 matches BoundResource::Sampler(r) && *r == self.samplers@.get(b.1)->Some_0
    }

    /// Appends the buffers of the bindings to `entries`, in order, or reports
    /// the first that is missing.
    pub(crate) fn bind_buffers<'a>(
        &'a self,
        bindings: &Vec<(u32, Handle<BufferAsset>)>,
        entries: &mut Vec<(u32, BoundResource<'a>)>,
    ) -> (r: Result<(), MissingAsset>)
        ensures
            match r {
                Ok(_) => {
                    &&& first_failure(self.buffer_binding_lookups(bindings@)) is None
                    &&& final(entries)@.len() == old(entries)@.len() + bindings@.len()
                    &&& final(entries)@.subrange(0, old(entries)@.len() as int) == old(entries)@
                    &&& forall|i: int| 0 <= i < bindings@.len()
                        ==> self.binds_buffer(bindings@[i], #[trigger] final(entries)@[old(entries)@.len() + i])
                },
                Err(e) => first_failure(self.buffer_binding_lookups(bindings@)) == Some(e),
            },
    {
        let ghost lookups = self.buffer_binding_lookups(bindings@);
        let ghost start = entries@;
        let n = bindings.len();
        let mut i: usize = 0;
        while i < n
            invariant
                n == bindings@.len(),
                i <= n,
                lookups == self.buffer_binding_lookups(bindings@),
                start == old(entries)@,
                entries@.len() == start.len() + i,
                entries@.subrange(0, start.len() as int) == start,
                forall|j: int| 0 <= j < i ==> lookups[j] is None,
                forall|j: int| 0 <= j < i ==> self.binds_buffer(bindings@[j], #[trigger] entries@[start.len() + j]),
            decreases n - i,
        {
            let (binding, handle) = bindings[i];
            match self.buffers.get(handle) {
                Some(b) => {
                    entries.push((binding, BoundResource::Buffer(b)));
                    proof {
                        assert(entries@.subrange(0, start.len() as int) =~= start);
                    }
                },
                None => {
                    proof {
                        lemma_first_failure_at(lookups, i as int);
                    }
                    return Err(MissingAsset::Buffer(handle));
                },
            }
            i = i + 1;
        }
        proof {
            lemma_first_failure_at(lookups, i as int);
        }
        Ok(())
    }

    /// Appends the textures of the bindings to `entries`, in order, or
    /// reports the first that is missing.
    pub(crate) fn bind_textures<'a>(
        &'a self,
        bindings: &Vec<(u32, Handle<TextureAsset>)>,
        entries: &mut Vec<(u32, BoundResource<'a>)>,
    ) -> (r: Result<(), MissingAsset>)
        ensures
            match r {
                Ok(_) => {
                    &&& first_failure(self.texture_binding_lookups(bindings@)) is None
                    &&& final(entries)@.len() == old(entries)@.len() + bindings@.len()
                    &&& final(entries)@.subrange(0, old(entries)@.len() as int) == old(entries)@
                    &&& forall|i: int| 0 <= i < bindings@.len()
                        ==> self.binds_texture(bindings@[i], #[trigger] final(entries)@[old(entries)@.len() + i])
                },
                Err(e) => first_failure(self.texture_binding_lookups(bindings@)) == Some(e),
            },
    {
        let ghost lookups = self.texture_binding_lookups(bindings@);
        let ghost start = entries@;
        let n = bindings.len();
        let mut i: usize = 0;
        while i < n
            invariant
                n == bindings@.len(),
                i <= n,
                lookups == self.texture_binding_lookups(bindings@),
                start == old(entries)@,
                entries@.len() == start.len() + i,
                entries@.subrange(0, start.len() as int) == start,
                forall|j: int| 0 <= j < i ==> lookups[j] is None,
                forall|j: int| 0 <= j < i ==> self.binds_texture(bindings@[j], #[trigger] entries@[start.len() + j]),
            decreases n - i,
        {
            let (binding, handle) = bindings[i];
            match self.textures.get(handle) {
                Some(t) => {
                    entries.push((binding, BoundResource::Texture(t)));
                    proof {
                        assert(entries@.subrange(0, start.len() as int) =~= start);
                    }
                },
                None => {
                    proof {
                        lemma_first_failure_at(lookups, i as int);
                    }
                    return Err(MissingAsset::Texture(handle));
                },
            }
            i = i + 1;
        }
        proof {
            lemma_first_failure_at(lookups, i as int);
        }
        Ok(())
    }

    /// Appends the samplers of the bindings to `entries`, in order, or
    /// reports the first that is missing.
    pub(crate) fn bind_samplers<'a>(
        &'a self,
        bindings: &Vec<(u32, Handle<wgpu::Sampler>)>,
        entries: &mut Vec<(u32, BoundResource<'a>)>,
    ) -> (r: Result<(), MissingAsset>)
        ensures
            match r {
                Ok(_) => {
                    &&& first_failure(self.sampler_binding_lookups(bindings@)) is None
                    &&& final(entries)@.len() == old(entries)@.len() + bindings@.len()
                    &&& final(entries)@.subrange(0, old(entries)@.len() as int) == old(entries)@
                    &&& forall|i: int| 0 <= i < bindings@.len()
                        ==> self.binds_sampler(bindings@[i], #[trigger] final(entries)@[old(entries)@.len() + i])
                },
                Err(e) => first_failure(self.sampler_binding_lookups(bindings@)) == Some(e),
            },
    {
        let ghost lookups = self.sampler_binding_lookups(bindings@);
        let ghost start = entries@;
        let n = bindings.len();
        let mut i: usize = 0;
        while i < n
            invariant
                n == bindings@.len(),
                i <= n,
                lookups == self.sampler_binding_lookups(bindings@),
                start == old(entries)@,
                entries@.len() == start.len() + i,
                entries@.subrange(0, start.len() as int) == start,
                forall|j: int| 0 <= j < i ==> lookups[j] is None,
                forall|j: int| 0 <= j < i ==> self.binds_sampler(bindings@[j], #[trigger] entries@[start.len() + j]),
            decreases n - i,
        {
            let (binding, handle) = bindings[i];
            match self.samplers.get(handle) {
                Some(s) => {
                    entries.push((binding, BoundResource::Sampler(s)));
                    proof {
                        assert(entries@.subrange(0, start.len() as int) =~= start);
                    }
                },
                None => {
                    proof {
                        lemma_first_failure_at(lookups, i as int);
                    }
                    return Err(MissingAsset::Sampler(handle));
                },
            }
            i = i + 1;
        }
        proof {
            lemma_first_failure_at(lookups, i as int);
        }
        Ok(())
    }
}

} // verus!
