use vstd::prelude::*;
use crate::asset_manager::AssetManager;
use crate::bindings::BoundResource;
use crate::handle::Handle;
use crate::plan::{first_failure, lemma_first_failure_append, missing_unless_live, MissingAsset};
use crate::resources::{BufferAsset, ComputePipelineAsset, TextureAsset};

verus! {

/// Collects what a compute bind group binds: storage buffers and storage
/// textures, each at a binding number, for a compute pipeline.
pub struct ComputeBindGroupBuilder {
    textures: Vec<(u32, Handle<TextureAsset>)>,
    storages: Vec<(u32, Handle<BufferAsset>)>,
    pipeline: Handle<ComputePipelineAsset>,
}

/// The contents of a [`ComputeBindGroupBuilder`], each list in the order given.
#[verifier::ext_equal]
pub struct ComputeBindGroupBuilderView {
    pub textures: Seq<(u32, Handle<TextureAsset>)>,
    pub storages: Seq<(u32, Handle<BufferAsset>)>,
    pub pipeline: Handle<ComputePipelineAsset>,
}

impl View for ComputeBindGroupBuilder {
    type V = ComputeBindGroupBuilderView;

    closed spec fn view(&self) -> ComputeBindGroupBuilderView {
        ComputeBindGroupBuilderView {
            textures: self.textures@,
            storages: self.storages@,
            pipeline: self.pipeline,
        }
    }
}

/// The resources of a compute bind group, resolved: the pipeline, and the
/// entries to bind in order (the storage buffers, then the textures).
pub struct ComputeBindings<'a> {
    pub pipeline: &'a ComputePipelineAsset,
    pub entries: Vec<(u32, BoundResource<'a>)>,
}

impl AssetManager {
    /// The lookups a compute bind group needs, in the order they are made:
    /// its pipeline, its storage buffers, its textures.
    pub open spec fn compute_bind_group_lookups(&self, b: ComputeBindGroupBuilderView) -> Seq<Option<MissingAsset>> {
        seq![missing_unless_live(self.compute_pipelines@, b.pipeline, MissingAsset::ComputePipeline(b.pipeline))]
            + self.buffer_binding_lookups(b.storages)
            + self.texture_binding_lookups(b.textures)
    }
}

impl ComputeBindGroupBuilder {
    /// A bind group for the pipeline, binding nothing yet.
    pub fn new(pipeline: Handle<ComputePipelineAsset>) -> (b: Self)
        ensures
            b@ == (ComputeBindGroupBuilderView { textures: Seq::empty(), storages: Seq::empty(), pipeline }),
    {
        ComputeBindGroupBuilder { textures: Vec::new(), storages: Vec::new(), pipeline }
    }

    /// Also binds the storage texture at the binding number.
    pub fn storage_texture(self, texture_binding: u32, texture: Handle<TextureAsset>) -> (b: Self)
        ensures
            b@ == (ComputeBindGroupBuilderView {
                textures: self@.textures.push((texture_binding, texture)),
                ..self@
            }),
    {
        let mut b = self;
        b.textures.push((texture_binding, texture));
        b
    }

    /// Also binds the storage buffer at the binding number.
    pub fn storage(self, binding: u32, buffer: Handle<BufferAsset>) -> (b: Self)
        ensures
            b@ == (ComputeBindGroupBuilderView { storages: self@.storages.push((binding, buffer)), ..self@ }),
    {
        let mut b = self;
        b.storages.push((binding, buffer));
        b
    }

    /// Resolves the pipeline and every binding: on success the entries are
    /// the storage buffers, then the textures, each in the order given;
    /// otherwise the first handle that names no asset is reported.
    pub fn resolve<'a>(&self, assets: &'a AssetManager) -> (r: Result<ComputeBindings<'a>, MissingAsset>)
        ensures
            match r {
                Ok(c) => {
                    let s = self@.storages.len();
                    &&& first_failure(assets.compute_bind_group_lookups(self@)) is None
                    &&& *c.pipeline == assets.compute_pipelines@.get(self@.pipeline)->Some_0
                    &&& c.entries@.len() == s + self@.textures.len()
                    &&& forall|i: int| 0 <= i < s ==> assets.binds_buffer(self@.storages[i], #[trigger] c.entries@[i])
                    &&& forall|i: int| 0 <= i < self@.textures.len()
                        ==> assets.binds_texture(self@.textures[i], #[trigger] c.entries@[s + i])
                },
                Err(e) => first_failure(assets.compute_bind_group_lookups(self@)) == Some(e),
            },
    {
        let ghost p = seq![missing_unless_live(assets.compute_pipelines@, self.pipeline, MissingAsset::ComputePipeline(self.pipeline))];
        let ghost sl = assets.buffer_binding_lookups(self@.storages);
        let ghost tl = assets.texture_binding_lookups(self@.textures);
        proof {
            reveal_with_fuel(first_failure, 2);
            assert(p.drop_first() =~= Seq::<Option<MissingAsset>>::empty());
            lemma_first_failure_append(p, sl);
            lemma_first_failure_append(p + sl, tl);
        }
        let pipeline = match assets.compute_pipelines.get(self.pipeline) {
            Some(p) => p,
            None => return Err(MissingAsset::ComputePipeline(self.pipeline)),
        };
        let mut entries: Vec<(u32, BoundResource<'a>)> = Vec::new();
        let ghost before_storages = entries@;
        match assets.bind_buffers(&self.storages, &mut entries) {
            Ok(_) => {},
            Err(e) => return Err(e),
        }
        let ghost after_storages = entries@;
        match assets.bind_textures(&self.textures, &mut entries) {
            Ok(_) => {},
            Err(e) => return Err(e),
        }
        proof {
            let s = self@.storages.len() as int;
            assert forall|i: int| 0 <= i < s implies assets.binds_buffer(self@.storages[i], #[trigger] entries@[i]) by {
                assert(assets.binds_buffer(self@.storages[i], after_storages[before_storages.len() + i]));
                assert(entries@.subrange(0, s)[i] == entries@[i]);
            }
        }
        Ok(ComputeBindings { pipeline, entries })
    }
}

} // verus!
