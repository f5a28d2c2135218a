use std::ops::Range;
use vstd::prelude::*;
use crate::arena::ArenaView;
use crate::asset_manager::AssetManager;
use crate::frame::{ComputeTask, Frame, FrameView, RenderTask};
use crate::handle::Handle;
use crate::resources::{
    BufferAsset, ComputeBindGroup, ComputePipelineAsset, Material, Mesh, RenderPipelineAsset,
    TextureAsset,
};

verus! {

/// A handle that named no stored asset when it was needed.
pub enum MissingAsset {
    Texture(Handle<TextureAsset>),
    Sampler(Handle<wgpu::Sampler>),
    Shader(Handle<wgpu::ShaderModule>),
    Buffer(Handle<BufferAsset>),
    Mesh(Handle<Mesh>),
    Material(Handle<Material>),
    RenderPipeline(Handle<RenderPipelineAsset>),
    ComputePipeline(Handle<ComputePipelineAsset>),
    ComputeBindGroup(Handle<ComputeBindGroup>),
}

/// The first failure of a sequence of lookups, if any failed.
pub open spec fn first_failure(s: Seq<Option<MissingAsset>>) -> Option<MissingAsset>
    decreases s.len(),
{
    if s.len() == 0 {
        None
    } else if s[0] is Some {
        s[0]
    } else {
        first_failure(s.drop_first())
    }
}

/// Lookups that all succeeded before position `i` do not decide the first
/// failure.
pub proof fn lemma_first_failure_skip(s: Seq<Option<MissingAsset>>, i: int)
    requires
        0 <= i <= s.len(),
        forall|j: int| 0 <= j < i ==> s[j] is None,
    ensures
        first_failure(s) == first_failure(s.skip(i)),
    decreases i,
{
    if i > 0 {
        assert(s[0] is None);
        assert(s.drop_first().skip(i - 1) =~= s.skip(i));
        assert forall|j: int| 0 <= j < i - 1 implies s.drop_first()[j] is None by {
            assert(s.drop_first()[j] == s[j + 1]);
        }
        lemma_first_failure_skip(s.drop_first(), i - 1);
    } else {
        assert(s.skip(0) =~= s);
    }
}

/// The first failure is the failure at `i` when every lookup before `i`
/// succeeded; with no failure at all there is none.
pub proof fn lemma_first_failure_at(s: Seq<Option<MissingAsset>>, i: int)
    requires
        0 <= i <= s.len(),
        forall|j: int| 0 <= j < i ==> s[j] is None,
    ensures
        i < s.len() && s[i] is Some ==> first_failure(s) == s[i],
        i == s.len() ==> first_failure(s) is None,
{
    lemma_first_failure_skip(s, i);
    if i < s.len() {
        assert(s.skip(i)[0] == s[i]);
    }
}

/// The first failure of two runs of lookups made one after the other.
pub proof fn lemma_first_failure_append(a: Seq<Option<MissingAsset>>, b: Seq<Option<MissingAsset>>)
    ensures
        first_failure(a + b) == if first_failure(a) is Some {
            first_failure(a)
        } else {
            first_failure(b)
        },
    decreases a.len(),
{
    if a.len() == 0 {
        assert(a + b =~= b);
    } else {
        assert((a + b).drop_first() =~= a.drop_first() + b);
        lemma_first_failure_append(a.drop_first(), b);
    }
}

/// A frame all of whose handles resolve is planned without a failure, so
/// [`AssetManager::plan_frame`] succeeds on it.
pub proof fn lemma_resolving_frame_plans(assets: &AssetManager, f: FrameView)
    requires
        assets.resolves_frame(f),
    ensures
        first_failure(assets.frame_lookups(f)) is None,
{
    let s = assets.frame_lookups(f);
    let nt = f.textures_to_clear.len() as int;
    let nc = f.compute_tasks.len() as int;
    assert forall|j: int| 0 <= j < s.len() implies s[j] is None by {
        if j < nt {
        } else if j < nt + nc {
            assert(f.compute_tasks[j - nt] == f.compute_tasks[j - nt]);
        } else {
            let t = f.render_tasks[j - nt - nc];
            if let RenderTask::DrawStreamed(c) = t {
                let b = assets.buffer_lookups(c.instances@);
                assert forall|k: int| 0 <= k < b.len() implies b[k] is None by {
                    assert(assets.buffers@.live(c.instances@[k]));
                }
                lemma_first_failure_at(b, b.len() as int);
            }
        }
    }
    lemma_first_failure_at(s, s.len() as int);
}

/// `Some(error)` when the handle does not resolve in the arena.
pub open spec fn missing_unless_live<T>(a: ArenaView<T>, h: Handle<T>, error: MissingAsset) -> Option<MissingAsset> {
    if a.live(h) {
        None
    } else {
        Some(error)
    }
}

/// How a resolved draw gets its instances.
pub enum DrawInstances<'a> {
    /// One instance and no per-instance data.
    Single,
    /// `count` instances whose data is the byte `range` of the frame's
    /// instance bytes.
    Bytes { byte_range: Range<u64>, count: u32 },
    /// The instances `range`, with per-instance data in the buffers.
    Buffers { buffers: Vec<&'a BufferAsset>, instances: Range<u32> },
}

/// A draw whose handles have been resolved.
pub struct DrawCall<'a> {
    pub pipeline: &'a RenderPipelineAsset,
    pub material: &'a Material,
    pub mesh: &'a Mesh,
    pub instances: DrawInstances<'a>,
}

/// A compute dispatch whose handles have been resolved.
pub struct ComputeCall<'a> {
    pub pipeline: &'a ComputePipelineAsset,
    pub bind_group: &'a ComputeBindGroup,
    pub dispatch: (u32, u32, u32),
}

/// Everything a frame needs, resolved: the textures to clear, then the
/// dispatches, then the draws, each in recording order.
pub struct FramePlan<'a> {
    pub clears: Vec<&'a TextureAsset>,
    pub computes: Vec<ComputeCall<'a>>,
    pub draws: Vec<DrawCall<'a>>,
}

impl AssetManager {
    /// Every handle the frame names resolves: its textures to clear, the
    /// pipelines and bind groups of its dispatches, and the materials (with
    /// their pipelines), meshes and instance buffers of its draws.
    pub open spec fn resolves_frame(&self, f: FrameView) -> bool {
        &&& forall|i: int| 0 <= i < f.textures_to_clear.len() ==> self.textures@.live(#[trigger] f.textures_to_clear[i])
        &&& forall|i: int| 0 <= i < f.compute_tasks.len() ==> {
            &&& self.compute_pipelines@.live((#[trigger] f.compute_tasks[i]).pipeline)
            &&& self.compute_bind_groups@.live(f.compute_tasks[i].bind_group)
        }
        &&& forall|i: int| 0 <= i < f.render_tasks.len() ==> {
            let t = #[trigger] f.render_tasks[i];
            &&& self.materials@.live(t.material_of())
            &&& self.render_pipelines@.live(self.materials@.get(t.material_of())->Some_0.pipeline)
            &&& self.meshes@.live(t.mesh_of())
            &&& (t matches RenderTask::DrawStreamed(c) ==> forall|j: int| 0 <= j < c.instances@.len()
                ==> self.buffers@.live(#[trigger] c.instances@[j]))
        }
    }

    /// The outcome of looking up each of the buffers, in order.
    pub open spec fn buffer_lookups(&self, hs: Seq<Handle<BufferAsset>>) -> Seq<Option<MissingAsset>> {
        Seq::new(hs.len(), |i: int| missing_unless_live(self.buffers@, hs[i], MissingAsset::Buffer(hs[i])))
    }

    /// What stops a dispatch from resolving: its pipeline, then its bind group.
    pub open spec fn compute_error(&self, t: ComputeTask) -> Option<MissingAsset> {
        if !self.compute_pipelines@.live(t.pipeline) {
            Some(MissingAsset::ComputePipeline(t.pipeline))
        } else if !self.compute_bind_groups@.live(t.bind_group) {
            Some(MissingAsset::ComputeBindGroup(t.bind_group))
        } else {
            None
        }
    }

    /// What stops a draw from resolving: its material, the material's
    /// pipeline, its mesh, then its instance buffers in order.
    pub open spec fn draw_error(&self, t: RenderTask) -> Option<MissingAsset> {
        let m = t.material_of();
        if !self.materials@.live(m) {
            Some(MissingAsset::Material(m))
        } else if !self.render_pipelines@.live(self.materials@.get(m)->Some_0.pipeline) {
            Some(MissingAsset::RenderPipeline(self.materials@.get(m)->Some_0.pipeline))
        } else if !self.meshes@.live(t.mesh_of()) {
            Some(MissingAsset::Mesh(t.mesh_of()))
        } else {
            match t {
                RenderTask::DrawStreamed(c) => first_failure(self.buffer_lookups(c.instances@)),
                _ => None,
            }
        }
    }

    /// The outcome of every lookup a frame needs, in the order they are made:
    /// the textures to clear, the dispatches, the draws.
    pub open spec fn frame_lookups(&self, f: FrameView) -> Seq<Option<MissingAsset>> {
        Seq::new(
            f.textures_to_clear.len(),
            |i: int|
                missing_unless_live(
                    self.textures@,
                    f.textures_to_clear[i],
                    MissingAsset::Texture(f.textures_to_clear[i]),
                ),
        ) + Seq::new(f.compute_tasks.len(), |i: int| self.compute_error(f.compute_tasks[i]))
            + Seq::new(f.render_tasks.len(), |i: int| self.draw_error(f.render_tasks[i]))
    }

    /// The resolved draw is the draw `t` with its handles replaced by what
    /// they name.
    pub open spec fn draw_call_of(&self, t: RenderTask, d: DrawCall) -> bool {
        &&& *d.material == self.materials@.get(t.material_of())->Some_0
        &&& *d.pipeline == self.render_pipelines@.get(d.material.pipeline)->Some_0
        &&& *d.mesh == self.meshes@.get(t.mesh_of())->Some_0
        &&& match t {
            RenderTask::Draw(_) => d.instances is Single,
            RenderTask::DrawInstanced(c) => d.instances == DrawInstances::Bytes {
                byte_range: c.instance_range,
                count: c.instance_count,
            },
            RenderTask::DrawStreamed(c) => {
                &&& d.instances matches DrawInstances::Buffers { buffers, instances }
                &&& instances == c.range
                &&& buffers@.len() == c.instances@.len()
                &&& forall|i: int| 0 <= i < buffers@.len()
                    ==> *#[trigger] buffers@[i] == self.buffers@.get(c.instances@[i])->Some_0
            },
        }
    }

    /// The resolved dispatch is `t` with its handles replaced by what they
    /// name.
    pub open spec fn compute_call_of(&self, t: ComputeTask, c: ComputeCall) -> bool {
        &&& *c.pipeline == self.compute_pipelines@.get(t.pipeline)->Some_0
        &&& *c.bind_group == self.compute_bind_groups@.get(t.bind_group)->Some_0
        &&& c.dispatch == t.dispatch
    }

    /// The plan resolves every texture, dispatch and draw of the frame, in
    /// order.
    pub open spec fn plan_of(&self, f: FrameView, p: FramePlan) -> bool {
        &&& p.clears@.len() == f.textures_to_clear.len()
        &&& forall|i: int| 0 <= i < p.clears@.len()
            ==> *#[trigger] p.clears@[i] == self.textures@.get(f.textures_to_clear[i])->Some_0
        &&& p.computes@.len() == f.compute_tasks.len()
        &&& forall|i: int| 0 <= i < p.computes@.len()
            ==> self.compute_call_of(f.compute_tasks[i], #[trigger] p.computes@[i])
        &&& p.draws@.len() == f.render_tasks.len()
        &&& forall|i: int| 0 <= i < p.draws@.len()
            ==> self.draw_call_of(f.render_tasks[i], #[trigger] p.draws@[i])
    }

    /// Resolves the buffers in order: all of them, or the first that is
    /// missing.
    pub fn resolve_buffers<'a>(&'a self, hs: &Vec<Handle<BufferAsset>>) -> (r: Result<Vec<&'a BufferAsset>, MissingAsset>)
        ensures
            match r {
                Ok(v) => {
                    &&& first_failure(self.buffer_lookups(hs@)) is None
                    &&& v@.len() == hs@.len()
                    &&& forall|i: int| 0 <= i < v@.len() ==> *#[trigger] v@[i] == self.buffers@.get(hs@[i])->Some_0
                },
                Err(e) => first_failure(self.buffer_lookups(hs@)) == Some(e),
            },
    {
        let ghost lookups = self.buffer_lookups(hs@);
        let mut out: Vec<&'a BufferAsset> = Vec::new();
        let n = hs.len();
        let mut i: usize = 0;
        while i < n
            invariant
                n == hs@.len(),
                i <= n,
                lookups == self.buffer_lookups(hs@),
                out@.len() == i,
                forall|j: int| 0 <= j < i ==> lookups[j] is None,
                forall|j: int| 0 <= j < i ==> *#[trigger] out@[j] == self.buffers@.get(hs@[j])->Some_0,
            decreases n - i,
        {
            match self.buffers.get(hs[i]) {
                Some(b) => {
                    out.push(b);
                },
                None => {
                    proof {
                        lemma_first_failure_at(lookups, i as int);
                    }
                    return Err(MissingAsset::Buffer(hs[i]));
                },
            }
            i = i + 1;
        }
        proof {
            lemma_first_failure_at(lookups, i as int);
        }
        Ok(out)
    }

    /// Resolves a dispatch: its pipeline, then its bind group.
    pub fn resolve_compute<'a>(&'a self, t: &ComputeTask) -> (r: Result<ComputeCall<'a>, MissingAsset>)
        ensures
            match r {
                Ok(c) => self.compute_error(*t) is None && self.compute_call_of(*t, c),
                Err(e) => self.compute_error(*t) == Some(e),
            },
    {
        let pipeline = match self.compute_pipelines.get(t.pipeline) {
            Some(p) => p,
            None => return Err(MissingAsset::ComputePipeline(t.pipeline)),
        };
        let bind_group = match self.compute_bind_groups.get(t.bind_group) {
            Some(b) => b,
            None => return Err(MissingAsset::ComputeBindGroup(t.bind_group)),
        };
        Ok(ComputeCall { pipeline, bind_group, dispatch: t.dispatch })
    }

    /// Resolves a draw: its material, the material's pipeline, its mesh, then
    /// its instance buffers.
    pub fn resolve_draw<'a>(&'a self, t: &RenderTask) -> (r: Result<DrawCall<'a>, MissingAsset>)
        ensures
            match r {
                Ok(d) => self.draw_error(*t) is None && self.draw_call_of(*t, d),
                Err(e) => self.draw_error(*t) == Some(e),
            },
    {
        let material_handle = t.material();
        let material = match self.materials.get(material_handle) {
            Some(m) => m,
            None => return Err(MissingAsset::Material(material_handle)),
        };
        let pipeline = match self.render_pipelines.get(material.pipeline) {
            Some(p) => p,
            None => return Err(MissingAsset::RenderPipeline(material.pipeline)),
        };
        let mesh_handle = t.mesh();
        let mesh = match self.meshes.get(mesh_handle) {
            Some(m) => m,
            None => return Err(MissingAsset::Mesh(mesh_handle)),
        };
        let instances = match t {
            RenderTask::Draw(_) => DrawInstances::Single,
            RenderTask::DrawInstanced(c) => DrawInstances::Bytes {
                byte_range: Range { start: c.instance_range.start, end: c.instance_range.end },
                count: c.instance_count,
            },
            RenderTask::DrawStreamed(c) => {
                let buffers = match self.resolve_buffers(&c.instances) {
                    Ok(b) => b,
                    Err(e) => return Err(e),
                };
                DrawInstances::Buffers {
                    buffers,
                    instances: Range { start: c.range.start, end: c.range.end },
                }
            },
        };
        Ok(DrawCall { pipeline, material, mesh, instances })
    }

    /// Resolves everything the frame needs and hands the frame's textures to
    /// clear over to the plan: the textures to clear, then the dispatches,
    /// then the draws, each in recording order. The first handle that names
    /// no asset is reported. The frame forgets its textures to clear either
    /// way and keeps everything else.
    pub fn plan_frame<'a>(&'a self, frame: &mut Frame) -> (r: Result<FramePlan<'a>, MissingAsset>)
        ensures
            final(frame)@ == (FrameView { textures_to_clear: Seq::empty(), ..old(frame)@ }),
            match r {
                Ok(p) => first_failure(self.frame_lookups(old(frame)@)) is None && self.plan_of(old(frame)@, p),
                Err(e) => first_failure(self.frame_lookups(old(frame)@)) == Some(e),
            },
    {
        let ghost f = frame@;
        let ghost lookups = self.frame_lookups(f);
        let ghost n_all = f.textures_to_clear.len() + f.compute_tasks.len() + f.render_tasks.len();
        assert(lookups.len() == n_all);
        let clear_handles = frame.take_textures_to_clear();
        proof {
            assert(frame@ =~= (FrameView { textures_to_clear: Seq::empty(), ..f }));
        }
        let n_clears = clear_handles.len();
        let mut clears: Vec<&'a TextureAsset> = Vec::new();
        let mut i: usize = 0;
        while i < n_clears
            invariant
                n_clears == f.textures_to_clear.len(),
                clear_handles@ == f.textures_to_clear,
                i <= n_clears,
                lookups == self.frame_lookups(f),
                lookups.len() == n_all,
                frame@ == (FrameView { textures_to_clear: Seq::empty(), ..f }),
                f == old(frame)@,
                clears@.len() == i,
                forall|j: int| 0 <= j < i ==> lookups[j] is None,
                forall|j: int| 0 <= j < i ==> *#[trigger] clears@[j] == self.textures@.get(f.textures_to_clear[j])->Some_0,
            decreases n_clears - i,
        {
            match self.textures.get(clear_handles[i]) {
                Some(t) => {
                    clears.push(t);
                },
                None => {
                    proof {
                        lemma_first_failure_at(lookups, i as int);
                    }
                    return Err(MissingAsset::Texture(clear_handles[i]));
                },
            }
            i = i + 1;
        }
        let compute_tasks = frame.compute_tasks();
        let n_computes = compute_tasks.len();
        let mut computes: Vec<ComputeCall<'a>> = Vec::new();
        let mut i: usize = 0;
        while i < n_computes
            invariant
                n_computes == f.compute_tasks.len(),
                compute_tasks@ == f.compute_tasks,
                i <= n_computes,
                lookups == self.frame_lookups(f),
                lookups.len() == n_all,
                n_clears == f.textures_to_clear.len(),
                frame@ == (FrameView { textures_to_clear: Seq::empty(), ..f }),
                f == old(frame)@,
                clears@.len() == n_clears,
                forall|j: int| 0 <= j < n_clears ==> *#[trigger] clears@[j] == self.textures@.get(f.textures_to_clear[j])->Some_0,
                computes@.len() == i,
                forall|j: int| 0 <= j < n_clears + i ==> lookups[j] is None,
                forall|j: int| 0 <= j < i ==> self.compute_call_of(f.compute_tasks[j], #[trigger] computes@[j]),
            decreases n_computes - i,
        {
            match self.resolve_compute(&compute_tasks[i]) {
                Ok(c) => {
                    computes.push(c);
                },
                Err(e) => {
                    proof {
                        lemma_first_failure_at(lookups, n_clears + i);
                    }
                    return Err(e);
                },
            }
            i = i + 1;
        }
        let render_tasks = frame.render_tasks();
        let n_draws = render_tasks.len();
        let mut draws: Vec<DrawCall<'a>> = Vec::new();
        let mut i: usize = 0;
        while i < n_draws
            invariant
                n_draws == f.render_tasks.len(),
                render_tasks@ == f.render_tasks,
                i <= n_draws,
                lookups == self.frame_lookups(f),
                lookups.len() == n_all,
                n_clears == f.textures_to_clear.len(),
                n_computes == f.compute_tasks.len(),
                frame@ == (FrameView { textures_to_clear: Seq::empty(), ..f }),
                f == old(frame)@,
                clears@.len() == n_clears,
                forall|j: int| 0 <= j < n_clears ==> *#[trigger] clears@[j] == self.textures@.get(f.textures_to_clear[j])->Some_0,
                computes@.len() == n_computes,
                forall|j: int| 0 <= j < n_computes ==> self.compute_call_of(f.compute_tasks[j], #[trigger] computes@[j]),
                draws@.len() == i,
                forall|j: int| 0 <= j < n_clears + n_computes + i ==> lookups[j] is None,
                forall|j: int| 0 <= j < i ==> self.draw_call_of(f.render_tasks[j], #[trigger] draws@[j]),
            decreases n_draws - i,
        {
            match self.resolve_draw(&render_tasks[i]) {
                Ok(d) => {
                    draws.push(d);
                },
                Err(e) => {
                    proof {
                        lemma_first_failure_at(lookups, n_clears + n_computes + i);
                    }
                    return Err(e);
                },
            }
            i = i + 1;
        }
        proof {
            lemma_first_failure_at(lookups, lookups.len() as int);
        }
        Ok(FramePlan { clears, computes, draws })
    }
}

} // verus!
