use vstd::prelude::*;
use crate::asset_manager::AssetManager;
use crate::bindings::BoundResource;
use crate::handle::Handle;
use crate::plan::{first_failure, lemma_first_failure_append, missing_unless_live, MissingAsset};
use crate::resources::{BufferAsset, ComputeBindGroup, ComputePipelineAsset, RenderPipelineAsset, TextureAsset};

verus! {

/// Collects what a material binds: uniform buffers, textures and samplers,
/// each at a binding number, for a render pipeline.
pub struct MaterialBuilder {
    textures: Vec<(u32, Handle<TextureAsset>)>,
    samplers: Vec<(u32, Handle<wgpu::Sampler>)>,
    uniforms: Vec<(u32, Handle<BufferAsset>)>,
    pipeline: Handle<RenderPipelineAsset>,
}

/// The contents of a [`MaterialBuilder`], each list in the order given.
#[verifier::ext_equal]
pub struct MaterialBuilderView {
    pub textures: Seq<(u32, Handle<TextureAsset>)>,
    pub samplers: Seq<(u32, Handle<wgpu::Sampler>)>,
    pub uniforms: Seq<(u32, Handle<BufferAsset>)>,
    pub pipeline: Handle<RenderPipelineAsset>,
}

impl View for MaterialBuilder {
    type V = MaterialBuilderView;

    closed spec fn view(&self) -> MaterialBuilderView {
        MaterialBuilderView {
            textures: self.textures@,
            samplers: self.samplers@,
            uniforms: self.uniforms@,
            pipeline: self.pipeline,
        }
    }
}

/// The resources of a material, resolved: the pipeline, and the entries to
/// bind in order (the uniforms, then the textures, then the samplers).
pub struct MaterialBindings<'a> {
    pub pipeline: &'a RenderPipelineAsset,
    pub entries: Vec<(u32, BoundResource<'a>)>,
}

impl AssetManager {
    /// The lookups a material needs, in the order they are made: its
    /// pipeline, its uniforms, its textures, its samplers.
    pub open spec fn material_lookups(&self, b: MaterialBuilderView) -> Seq<Option<MissingAsset>> {
        seq![missing_unless_live(self.render_pipelines@, b.pipeline, MissingAsset::RenderPipeline(b.pipeline))]
            + self.buffer_binding_lookups(b.uniforms)
            + self.texture_binding_lookups(b.textures)
            + self.sampler_binding_lookups(b.samplers)
    }
}

impl MaterialBuilder {
    /// A material for the pipeline, binding nothing yet.
    pub fn new(pipeline: Handle<RenderPipelineAsset>) -> (b: Self)
        ensures
            b@ == (MaterialBuilderView {
                textures: Seq::empty(),
                samplers: Seq::empty(),
                uniforms: Seq::empty(),
                pipeline,
            }),
    {
        MaterialBuilder { textures: Vec::new(), samplers: Vec::new(), uniforms: Vec::new(), pipeline }
    }

    /// Also binds the texture at the binding number.
    pub fn texture(self, binding: u32, texture: Handle<TextureAsset>) -> (b: Self)
        ensures
            b@ == (MaterialBuilderView { textures: self@.textures.push((binding, texture)), ..self@ }),
    {
        let mut b = self;
        b.textures.push((binding, texture));
        b
    }

    /// Also binds the sampler at the binding number.
    pub fn sampler(self, binding: u32, sampler: Handle<wgpu::Sampler>) -> (b: Self)
        ensures
            b@ == (MaterialBuilderView { samplers: self@.samplers.push((binding, sampler)), ..self@ }),
    {
        let mut b = self;
        b.samplers.push((binding, sampler));
        b
    }

    /// Also binds the uniform buffer at the binding number.
    pub fn uniform(self, binding: u32, buffer: Handle<BufferAsset>) -> (b: Self)
        ensures
            b@ == (MaterialBuilderView { uniforms: self@.uniforms.push((binding, buffer)), ..self@ }),
    {
        let mut b = self;
        b.uniforms.push((binding, buffer));
        b
    }

    /// The pipeline the material is for.
    pub fn pipeline(&self) -> (h: Handle<RenderPipelineAsset>)
        ensures
            h == self@.pipeline,
    {
        self.pipeline
    }

    /// Resolves the pipeline and every binding: on success the entries are
    /// the uniforms, then the textures, then the samplers, each in the order
    /// given; otherwise the first handle that names no asset is reported.
    pub fn resolve<'a>(&self, assets: &'a AssetManager) -> (r: Result<MaterialBindings<'a>, MissingAsset>)
        ensures
            match r {
                Ok(m) => {
                    let u = self@.uniforms.len();
                    let t = self@.textures.len();
                    &&& first_failure(assets.material_lookups(self@)) is None
                    &&& *m.pipeline == assets.render_pipelines@.get(self@.pipeline)->Some_0
                    &&& m.entries@.len() == u + t + self@.samplers.len()
                    &&& forall|i: int| 0 <= i < u ==> assets.binds_buffer(self@.uniforms[i], #[trigger] m.entries@[i])
                    &&& forall|i: int| 0 <= i < t ==> assets.binds_texture(self@.textures[i], #[trigger] m.entries@[u + i])
                    &&& forall|i: int| 0 <= i < self@.samplers.len()
                        ==> assets.binds_sampler(self@.samplers[i], #[trigger] m.entries@[u + t + i])
                },
                Err(e) => first_failure(assets.material_lookups(self@)) == Some(e),
            },
    {
        let ghost p = seq![missing_unless_live(assets.render_pipelines@, self.pipeline, MissingAsset::RenderPipeline(self.pipeline))];
        let ghost ul = assets.buffer_binding_lookups(self@.uniforms);
        let ghost tl = assets.texture_binding_lookups(self@.textures);
        let ghost sl = assets.sampler_binding_lookups(self@.samplers);
        proof {
            reveal_with_fuel(first_failure, 2);
            assert(p.drop_first() =~= Seq::<Option<MissingAsset>>::empty());
            lemma_first_failure_append(p, ul);
            lemma_first_failure_append(p + ul, tl);
            lemma_first_failure_append(p + ul + tl, sl);
            assert(assets.material_lookups(self@) == p + ul + tl + sl);
        }
        let pipeline = match assets.render_pipelines.get(self.pipeline) {
            Some(p) => p,
            None => return Err(MissingAsset::RenderPipeline(self.pipeline)),
        };
        let mut entries: Vec<(u32, BoundResource<'a>)> = Vec::new();
        let ghost before_uniforms = entries@;
        match assets.bind_buffers(&self.uniforms, &mut entries) {
            Ok(_) => {},
            Err(e) => return Err(e),
        }
        let ghost after_uniforms = entries@;
        match assets.bind_textures(&self.textures, &mut entries) {
            Ok(_) => {},
            Err(e) => return Err(e),
        }
        let ghost after_textures = entries@;
        match assets.bind_samplers(&self.samplers, &mut entries) {
            Ok(_) => {},
            Err(e) => return Err(e),
        }
        proof {
            let u = self@.uniforms.len() as int;
            let t = self@.textures.len() as int;
            assert forall|i: int| 0 <= i < u implies assets.binds_buffer(self@.uniforms[i], #[trigger] entries@[i]) by {
                assert(assets.binds_buffer(self@.uniforms[i], after_uniforms[before_uniforms.len() + i]));
                assert(entries@.subrange(0, u + t)[i] == entries@[i]);
                assert(after_textures.subrange(0, u)[i] == after_textures[i]);
            }
            assert forall|i: int| 0 <= i < t implies assets.binds_texture(self@.textures[i], #[trigger] entries@[u + i]) by {
                assert(entries@.subrange(0, u + t)[u + i] == entries@[u + i]);
            }
        }
        Ok(MaterialBindings { pipeline, entries })
    }
}

} // verus!
