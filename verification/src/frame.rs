use std::collections::VecDeque;
use std::ops::Range;
use vstd::prelude::*;
use crate::handle::Handle;
use crate::resources::{BufferAsset, ComputeBindGroup, ComputePipelineAsset, Material, Mesh, TextureAsset};

verus! {

/// Draw a mesh once with a material.
pub struct DrawCommand {
    pub mesh: Handle<Mesh>,
    pub material: Handle<Material>,
}

/// Draw a mesh `instance_count` times; the per-instance data is the byte
/// range `instance_range` of the frame's instance bytes.
pub struct InstancedCommand {
    pub mesh: Handle<Mesh>,
    pub material: Handle<Material>,
    pub instance_range: Range<u64>,
    pub instance_count: u32,
}

/// Draw a mesh for the instances `range`, reading per-instance data from
/// buffers that the caller filled.
pub struct StreamedCommand {
    pub mesh: Handle<Mesh>,
    pub material: Handle<Material>,
    pub instances: Vec<Handle<BufferAsset>>,
    pub range: Range<u32>,
}

/// One draw recorded in a frame.
pub enum RenderTask {
    Draw(DrawCommand),
    DrawInstanced(InstancedCommand),
    DrawStreamed(StreamedCommand),
}

impl RenderTask {
    /// The material that the draw uses.
    pub open spec fn material_of(self) -> Handle<Material> {
        match self {
            RenderTask::Draw(c) => c.material,
            RenderTask::DrawInstanced(c) => c.material,
            RenderTask::DrawStreamed(c) => c.material,
        }
    }

    /// The mesh that the draw uses.
    pub open spec fn mesh_of(self) -> Handle<Mesh> {
        match self {
            RenderTask::Draw(c) => c.mesh,
            RenderTask::DrawInstanced(c) => c.mesh,
            RenderTask::DrawStreamed(c) => c.mesh,
        }
    }

    /// The material that the draw uses.
    pub fn material(&self) -> (h: Handle<Material>)
        ensures
            h == self.material_of(),
    {
        match self {
            RenderTask::Draw(c) => c.material,
            RenderTask::DrawInstanced(c) => c.material,
            RenderTask::DrawStreamed(c) => c.material,
        }
    }

    /// The mesh that the draw uses.
    pub fn mesh(&self) -> (h: Handle<Mesh>)
        ensures
            h == self.mesh_of(),
    {
        match self {
            RenderTask::Draw(c) => c.mesh,
            RenderTask::DrawInstanced(c) => c.mesh,
            RenderTask::DrawStreamed(c) => c.mesh,
        }
    }
}

/// Every draw reports the material and the mesh it was recorded with,
/// whatever its kind, and is sorted by their slot indices: by the
/// material's, by the mesh's, or by the material's and then the mesh's.
pub proof fn lemma_draw_reports_its_material_and_mesh(
    material: Handle<Material>,
    mesh: Handle<Mesh>,
    instance_range: Range<u64>,
    instance_count: u32,
    instances: Vec<Handle<BufferAsset>>,
    range: Range<u32>,
)
    ensures
        RenderTask::Draw(DrawCommand { mesh, material }).material_of() == material,
        RenderTask::Draw(DrawCommand { mesh, material }).mesh_of() == mesh,
        RenderTask::DrawInstanced(InstancedCommand { mesh, material, instance_range, instance_count }).material_of()
            == material,
        RenderTask::DrawInstanced(InstancedCommand { mesh, material, instance_range, instance_count }).mesh_of()
            == mesh,
        RenderTask::DrawStreamed(StreamedCommand { mesh, material, instances, range }).material_of() == material,
        RenderTask::DrawStreamed(StreamedCommand { mesh, material, instances, range }).mesh_of() == mesh,
        forall|t: RenderTask| #![trigger task_key(t, SortKey::MaterialThenMesh)]
            (t == RenderTask::Draw(DrawCommand { mesh, material })
            || t == RenderTask::DrawInstanced(InstancedCommand { mesh, material, instance_range, instance_count })
            || t == RenderTask::DrawStreamed(StreamedCommand { mesh, material, instances, range })) ==> {
                &&& task_key(t, SortKey::Material) == material.index
                &&& task_key(t, SortKey::Mesh) == mesh.index
                &&& task_key(t, SortKey::MaterialThenMesh) == material.index * 0x1_0000_0000 + mesh.index
            },
{
}

/// One compute dispatch recorded in a frame.
pub struct ComputeTask {
    pub pipeline: Handle<ComputePipelineAsset>,
    pub bind_group: Handle<ComputeBindGroup>,
    pub dispatch: (u32, u32, u32),
}

impl ComputeTask {
    /// A dispatch of `dispatch` workgroups with the pipeline and bind group.
    pub fn new(
        pipeline: Handle<ComputePipelineAsset>,
        bind_group: Handle<ComputeBindGroup>,
        dispatch: (u32, u32, u32),
    ) -> (t: Self)
        ensures
            t.pipeline == pipeline,
            t.bind_group == bind_group,
            t.dispatch == dispatch,
    {
        ComputeTask { pipeline, bind_group, dispatch }
    }
}

/// The order in which a frame's draws can be sorted.
pub enum SortKey {
    /// By the slot index of the material.
    Material,
    /// By the slot index of the mesh.
    Mesh,
    /// By the slot index of the material, then by that of the mesh.
    MaterialThenMesh,
}

/// The number by which a draw is ordered under the sort key. For
/// `MaterialThenMesh` it is the material index followed by the mesh index
/// as the two halves of one 64-bit number (see
/// [`lemma_material_then_mesh_is_lexicographic`]).
pub open spec fn task_key(t: RenderTask, key: SortKey) -> int {
    match key {
        SortKey::Material => t.material_of().index as int,
        SortKey::Mesh => t.mesh_of().index as int,
        SortKey::MaterialThenMesh => t.material_of().index * 0x1_0000_0000 + t.mesh_of().index,
    }
}

/// The draws of `s` whose key is `k`, in their order in `s`.
pub open spec fn tasks_with_key(s: Seq<RenderTask>, key: SortKey, k: int) -> Seq<RenderTask> {
    s.filter(|t: RenderTask| task_key(t, key) == k)
}

/// The draws of `s` are in non-decreasing key order.
pub open spec fn sorted_by_key(s: Seq<RenderTask>, key: SortKey) -> bool {
    forall|i: int, j: int| 0 <= i <= j < s.len() ==> task_key(s[i], key) <= task_key(s[j], key)
}

/// `after` is the stable sort of `before`: it holds the same draws, it is in
/// key order, and the draws of each key appear in it in the order they had in
/// `before`. Exactly one sequence meets this for given `before` and key.
pub open spec fn stable_sort_of(before: Seq<RenderTask>, after: Seq<RenderTask>, key: SortKey) -> bool {
    &&& after.to_multiset() =~= before.to_multiset()
    &&& sorted_by_key(after, key)
    &&& forall|k: int| #[trigger] tasks_with_key(after, key, k) == tasks_with_key(before, key, k)
}

/// Ordering by `MaterialThenMesh` is ordering by material and, among equal
/// materials, by mesh.
pub proof fn lemma_material_then_mesh_is_lexicographic(a: RenderTask, b: RenderTask)
    ensures
        task_key(a, SortKey::MaterialThenMesh) <= task_key(b, SortKey::MaterialThenMesh) <==> (
            a.material_of().index < b.material_of().index
            || (a.material_of().index == b.material_of().index
                && a.mesh_of().index <= b.mesh_of().index)),
{
}

/// A draw with the key `k` is in every sequence that has draws of key `k`.
proof fn lemma_key_present(s: Seq<RenderTask>, key: SortKey, k: int)
    requires
        tasks_with_key(s, key, k).len() > 0,
    ensures
        exists|j: int| 0 <= j < s.len() && task_key(s[j], key) == k,
    decreases s.len(),
{
    reveal(Seq::filter);
    if s.len() == 0 {
        assert(tasks_with_key(s, key, k).len() == 0);
    } else if task_key(s[s.len() - 1], key) == k {
    } else {
        lemma_key_present(s.drop_last(), key, k);
        let j = choose|j: int| 0 <= j < s.drop_last().len() && task_key(s.drop_last()[j], key) == k;
        assert(s[j] == s.drop_last()[j]);
    }
}

/// Two sequences in key order with the same draws of every key, in the same
/// order, are the same sequence.
pub proof fn lemma_sorted_determined_by_keys(a: Seq<RenderTask>, b: Seq<RenderTask>, key: SortKey)
    requires
        sorted_by_key(a, key),
        sorted_by_key(b, key),
        forall|k: int| #[trigger] tasks_with_key(a, key, k) == tasks_with_key(b, key, k),
    ensures
        a == b,
    decreases a.len(),
{
    if a.len() == 0 || b.len() == 0 {
        if a.len() > 0 {
            let k = task_key(a[0], key);
            assert(a =~= seq![a[0]] + a.drop_first());
            lemma_tasks_with_key_prepend(a[0], a.drop_first(), key, k);
            assert(tasks_with_key(b, key, k).len() == 0) by {
                reveal(Seq::filter);
            }
        }
        if b.len() > 0 {
            let k = task_key(b[0], key);
            assert(b =~= seq![b[0]] + b.drop_first());
            lemma_tasks_with_key_prepend(b[0], b.drop_first(), key, k);
            assert(tasks_with_key(a, key, k).len() == 0) by {
                reveal(Seq::filter);
            }
        }
        assert(a =~= b);
    } else {
        let ka = task_key(a[0], key);
        let kb = task_key(b[0], key);
        assert(a =~= seq![a[0]] + a.drop_first());
        assert(b =~= seq![b[0]] + b.drop_first());
        lemma_tasks_with_key_prepend(a[0], a.drop_first(), key, ka);
        lemma_tasks_with_key_prepend(b[0], b.drop_first(), key, kb);
        assert(tasks_with_key(a, key, ka) == tasks_with_key(b, key, ka));
        assert(tasks_with_key(a, key, kb) == tasks_with_key(b, key, kb));
        lemma_key_present(b, key, ka);
        lemma_key_present(a, key, kb);
        assert(ka == kb);
        lemma_tasks_with_key_prepend(a[0], a.drop_first(), key, kb);
        lemma_tasks_with_key_prepend(b[0], b.drop_first(), key, ka);
        assert(a[0] == tasks_with_key(a, key, ka)[0]);
        assert(b[0] == tasks_with_key(b, key, ka)[0]);
        assert forall|k: int| #[trigger] tasks_with_key(a.drop_first(), key, k) == tasks_with_key(b.drop_first(), key, k) by {
            lemma_tasks_with_key_prepend(a[0], a.drop_first(), key, k);
            lemma_tasks_with_key_prepend(b[0], b.drop_first(), key, k);
            assert(tasks_with_key(a, key, k) == tasks_with_key(b, key, k));
            if k == ka {
                assert(tasks_with_key(a.drop_first(), key, k) =~= tasks_with_key(a, key, k).drop_first());
                assert(tasks_with_key(b.drop_first(), key, k) =~= tasks_with_key(b, key, k).drop_first());
            }
        }
        assert(sorted_by_key(a.drop_first(), key)) by {
            assert forall|i: int, j: int| 0 <= i <= j < a.drop_first().len() implies task_key(a.drop_first()[i], key) <= task_key(a.drop_first()[j], key) by {
                assert(a.drop_first()[i] == a[i + 1]);
                assert(a.drop_first()[j] == a[j + 1]);
            }
        }
        assert(sorted_by_key(b.drop_first(), key)) by {
            assert forall|i: int, j: int| 0 <= i <= j < b.drop_first().len() implies task_key(b.drop_first()[i], key) <= task_key(b.drop_first()[j], key) by {
                assert(b.drop_first()[i] == b[i + 1]);
                assert(b.drop_first()[j] == b[j + 1]);
            }
        }
        lemma_sorted_determined_by_keys(a.drop_first(), b.drop_first(), key);
    }
}

/// A sort's result is determined by what is sorted: two stable sorts of the
/// same draws by the same key are equal.
pub proof fn lemma_stable_sort_unique(before: Seq<RenderTask>, a: Seq<RenderTask>, b: Seq<RenderTask>, key: SortKey)
    requires
        stable_sort_of(before, a, key),
        stable_sort_of(before, b, key),
    ensures
        a == b,
{
    assert forall|k: int| #[trigger] tasks_with_key(a, key, k) == tasks_with_key(b, key, k) by {
        assert(tasks_with_key(a, key, k) == tasks_with_key(before, key, k));
        assert(tasks_with_key(b, key, k) == tasks_with_key(before, key, k));
    }
    lemma_sorted_determined_by_keys(a, b, key);
}

/// Sorting draws that are already in key order changes nothing; in
/// particular sorting twice by the same key is sorting once.
pub proof fn lemma_stable_sort_idempotent(sorted: Seq<RenderTask>, again: Seq<RenderTask>, key: SortKey)
    requires
        sorted_by_key(sorted, key),
        stable_sort_of(sorted, again, key),
    ensures
        again == sorted,
{
    lemma_sorted_determined_by_keys(again, sorted, key);
}

/// Filtering with one predicate and then another is filtering with both.
proof fn lemma_filter_filter(s: Seq<RenderTask>, p: spec_fn(RenderTask) -> bool, q: spec_fn(RenderTask) -> bool)
    ensures
        s.filter(p).filter(q) == s.filter(|t: RenderTask| p(t) && q(t)),
    decreases s.len(),
{
    broadcast use Seq::lemma_filter_push;
    let pq = |t: RenderTask| p(t) && q(t);
    if s.len() == 0 {
        reveal(Seq::filter);
    } else {
        let t = s.drop_last();
        let x = s.last();
        lemma_filter_filter(t, p, q);
        assert(s =~= t.push(x));
        assert(s.filter(pq) == if pq(x) { t.filter(pq).push(x) } else { t.filter(pq) });
        assert(s.filter(p) == if p(x) { t.filter(p).push(x) } else { t.filter(p) });
        if p(x) {
            assert(t.filter(p).push(x).filter(q) == if q(x) { t.filter(p).filter(q).push(x) } else { t.filter(p).filter(q) });
        }
    }
}

/// What is kept of a sequence in key order is in key order.
proof fn lemma_filter_keeps_sorted(s: Seq<RenderTask>, p: spec_fn(RenderTask) -> bool, key: SortKey)
    requires
        sorted_by_key(s, key),
    ensures
        sorted_by_key(s.filter(p), key),
    decreases s.len(),
{
    broadcast use Seq::lemma_filter_push;
    if s.len() == 0 {
        reveal(Seq::filter);
    } else {
        let t = s.drop_last();
        let x = s.last();
        assert(s =~= t.push(x));
        assert(sorted_by_key(t, key)) by {
            assert forall|i: int, j: int| 0 <= i <= j < t.len() implies task_key(t[i], key) <= task_key(t[j], key) by {
                assert(t[i] == s[i]);
                assert(t[j] == s[j]);
            }
        }
        lemma_filter_keeps_sorted(t, p, key);
        if p(x) {
            let ft = t.filter(p);
            let fs = ft.push(x);
            assert forall|i: int, j: int| 0 <= i <= j < fs.len() implies task_key(fs[i], key) <= task_key(fs[j], key) by {
                if j == fs.len() - 1 && i < j {
                    assert(fs[i] == ft[i]);
                    assert(ft.contains(ft[i]));
                    t.lemma_filter_contains_rev(p, ft[i]);
                    let m = choose|m: int| 0 <= m < t.len() && t[m] == ft[i];
                    assert(s[m] == t[m]);
                    assert(s[s.len() - 1] == x);
                } else if j < fs.len() - 1 {
                    assert(fs[i] == ft[i]);
                    assert(fs[j] == ft[j]);
                }
            }
        }
    }
}

/// Draws in material order, whose draws of each material are in mesh order,
/// are in material-then-mesh order.
proof fn lemma_sorted_by_material_then_mesh(s: Seq<RenderTask>)
    requires
        sorted_by_key(s, SortKey::Material),
        forall|m: int| sorted_by_key(#[trigger] tasks_with_key(s, SortKey::Material, m), SortKey::Mesh),
    ensures
        sorted_by_key(s, SortKey::MaterialThenMesh),
    decreases s.len(),
{
    broadcast use Seq::lemma_filter_push;
    if s.len() > 0 {
        let t = s.drop_last();
        let x = s.last();
        assert(s =~= t.push(x));
        assert(sorted_by_key(t, SortKey::Material)) by {
            assert forall|i: int, j: int| 0 <= i <= j < t.len() implies task_key(t[i], SortKey::Material) <= task_key(t[j], SortKey::Material) by {
                assert(t[i] == s[i]);
                assert(t[j] == s[j]);
            }
        }
        assert forall|m: int| sorted_by_key(#[trigger] tasks_with_key(t, SortKey::Material, m), SortKey::Mesh) by {
            let fs = tasks_with_key(s, SortKey::Material, m);
            let ft = tasks_with_key(t, SortKey::Material, m);
            lemma_tasks_with_key_push(t, x, SortKey::Material, m);
            assert(sorted_by_key(fs, SortKey::Mesh));
            if task_key(x, SortKey::Material) == m {
                assert forall|i: int, j: int| 0 <= i <= j < ft.len() implies task_key(ft[i], SortKey::Mesh) <= task_key(ft[j], SortKey::Mesh) by {
                    assert(ft[i] == fs[i]);
                    assert(ft[j] == fs[j]);
                }
            }
        }
        lemma_sorted_by_material_then_mesh(t);
        let key = SortKey::MaterialThenMesh;
        assert forall|i: int, j: int| 0 <= i <= j < s.len() implies task_key(s[i], key) <= task_key(s[j], key) by {
            if j < s.len() - 1 {
                assert(s[i] == t[i]);
                assert(s[j] == t[j]);
            } else if i < j {
                let m = task_key(x, SortKey::Material);
                assert(s[j] == x);
                assert(task_key(s[i], SortKey::Material) <= m);
                if task_key(s[i], SortKey::Material) == m {
                    let p = |u: RenderTask| task_key(u, SortKey::Material) == m;
                    let ft = tasks_with_key(t, SortKey::Material, m);
                    let fs = tasks_with_key(s, SortKey::Material, m);
                    lemma_tasks_with_key_push(t, x, SortKey::Material, m);
                    assert(t[i] == s[i]);
                    t.lemma_filter_contains(p, i);
                    assert(ft.contains(t[i]));
                    let n = choose|n: int| 0 <= n < ft.len() && ft[n] == t[i];
                    assert(fs[n] == ft[n]);
                    assert(fs[fs.len() - 1] == x);
                    assert(task_key(fs[n], SortKey::Mesh) <= task_key(fs[fs.len() - 1], SortKey::Mesh));
                }
            }
        }
    }
}

/// The draws of material-then-mesh key `k` are those of material `k / 2^32`
/// and mesh `k % 2^32`.
proof fn lemma_combined_key_filter(s: Seq<RenderTask>, k: int)
    ensures
        tasks_with_key(s, SortKey::MaterialThenMesh, k)
            == tasks_with_key(s, SortKey::Material, k / 0x1_0000_0000).filter(
                |t: RenderTask| task_key(t, SortKey::Mesh) == k % 0x1_0000_0000),
        tasks_with_key(s, SortKey::MaterialThenMesh, k)
            == tasks_with_key(s, SortKey::Mesh, k % 0x1_0000_0000).filter(
                |t: RenderTask| task_key(t, SortKey::Material) == k / 0x1_0000_0000),
{
    let m = k / 0x1_0000_0000;
    let me = k % 0x1_0000_0000;
    let pk = |t: RenderTask| task_key(t, SortKey::MaterialThenMesh) == k;
    let pm = |t: RenderTask| task_key(t, SortKey::Material) == m;
    let pe = |t: RenderTask| task_key(t, SortKey::Mesh) == me;
    assert forall|t: RenderTask| #[trigger] pk(t) == (pm(t) && pe(t)) by {
        let a = t.material_of().index as int;
        let b = t.mesh_of().index as int;
        if a * 0x1_0000_0000 + b == k {
            vstd::arithmetic::div_mod::lemma_fundamental_div_mod_converse(k, 0x1_0000_0000, a, b);
        }
        if a == m && b == me {
            vstd::arithmetic::div_mod::lemma_fundamental_div_mod(k, 0x1_0000_0000);
            assert(a * 0x1_0000_0000 + b == k) by (nonlinear_arith)
                requires
                    a == m,
                    b == me,
                    k == 0x1_0000_0000 * m + me,
            ;
        }
    }
    assert(pk =~= |t: RenderTask| pm(t) && pe(t));
    assert(pk =~= |t: RenderTask| pe(t) && pm(t));
    lemma_filter_filter(s, pm, pe);
    lemma_filter_filter(s, pe, pm);
}

/// Sorting by mesh and then by material is the combined sort: draws in
/// material order, draws of one material in mesh order, and draws equal in
/// both in recording order.
pub proof fn lemma_mesh_then_material_is_combined_sort(
    draws: Seq<RenderTask>,
    by_mesh: Seq<RenderTask>,
    then_by_material: Seq<RenderTask>,
    combined: Seq<RenderTask>,
)
    requires
        stable_sort_of(draws, by_mesh, SortKey::Mesh),
        stable_sort_of(by_mesh, then_by_material, SortKey::Material),
        stable_sort_of(draws, combined, SortKey::MaterialThenMesh),
    ensures
        then_by_material == combined,
{
    assert forall|m: int| sorted_by_key(#[trigger] tasks_with_key(then_by_material, SortKey::Material, m), SortKey::Mesh) by {
        assert(tasks_with_key(then_by_material, SortKey::Material, m) == tasks_with_key(by_mesh, SortKey::Material, m));
        lemma_filter_keeps_sorted(by_mesh, |t: RenderTask| task_key(t, SortKey::Material) == m, SortKey::Mesh);
    }
    lemma_sorted_by_material_then_mesh(then_by_material);
    assert forall|k: int| #[trigger] tasks_with_key(then_by_material, SortKey::MaterialThenMesh, k)
        == tasks_with_key(draws, SortKey::MaterialThenMesh, k) by {
        let m = k / 0x1_0000_0000;
        let me = k % 0x1_0000_0000;
        lemma_combined_key_filter(then_by_material, k);
        lemma_combined_key_filter(by_mesh, k);
        lemma_combined_key_filter(draws, k);
        assert(tasks_with_key(then_by_material, SortKey::Material, m) == tasks_with_key(by_mesh, SortKey::Material, m));
        assert(tasks_with_key(by_mesh, SortKey::Mesh, me) == tasks_with_key(draws, SortKey::Mesh, me));
    }
    lemma_stable_sort_unique(draws, then_by_material, combined, SortKey::MaterialThenMesh);
}

/// The key of a draw, computed.
fn compute_task_key(t: &RenderTask, key: &SortKey) -> (k: u64)
    ensures
        k == task_key(*t, *key),
{
    match key {
        SortKey::Material => t.material().index as u64,
        SortKey::Mesh => t.mesh().index as u64,
        SortKey::MaterialThenMesh => (t.material().index as u64) * 0x1_0000_0000u64 + t.mesh().index as u64,
    }
}

/// Filtering a sequence with one more element in front.
proof fn lemma_tasks_with_key_prepend(x: RenderTask, s: Seq<RenderTask>, key: SortKey, k: int)
    ensures
        tasks_with_key(seq![x] + s, key, k) == if task_key(x, key) == k {
            seq![x] + tasks_with_key(s, key, k)
        } else {
            tasks_with_key(s, key, k)
        },
{
    let f = |t: RenderTask| task_key(t, key) == k;
    Seq::filter_distributes_over_add(seq![x], s, f);
    reveal_with_fuel(Seq::filter, 2);
    assert(seq![x].drop_last() =~= Seq::<RenderTask>::empty());
    if task_key(x, key) == k {
        assert(seq![x].filter(f) =~= seq![x]);
    } else {
        assert(seq![x].filter(f) =~= Seq::<RenderTask>::empty());
    }
}

/// A sequence whose keys all differ from `k` has no draw with key `k`.
proof fn lemma_tasks_with_key_none(s: Seq<RenderTask>, key: SortKey, k: int)
    requires
        forall|i: int| 0 <= i < s.len() ==> task_key(#[trigger] s[i], key) != k,
    ensures
        tasks_with_key(s, key, k) == Seq::<RenderTask>::empty(),
    decreases s.len(),
{
    reveal(Seq::filter);
    if s.len() > 0 {
        lemma_tasks_with_key_none(s.drop_last(), key, k);
    }
}

/// Filtering a sequence with one more element at the back.
proof fn lemma_tasks_with_key_push(s: Seq<RenderTask>, x: RenderTask, key: SortKey, k: int)
    ensures
        tasks_with_key(s.push(x), key, k) == if task_key(x, key) == k {
            tasks_with_key(s, key, k).push(x)
        } else {
            tasks_with_key(s, key, k)
        },
{
    reveal(Seq::filter);
    assert(s.push(x).drop_last() =~= s);
}

/// Merges two runs that are in key order into one run in key order, taking
/// from `a` first among draws of equal key.
fn merge_runs(a: VecDeque<RenderTask>, b: VecDeque<RenderTask>, key: &SortKey) -> (out: VecDeque<RenderTask>)
    requires
        sorted_by_key(a@, *key),
        sorted_by_key(b@, *key),
    ensures
        out@.to_multiset() =~= a@.to_multiset().add(b@.to_multiset()),
        sorted_by_key(out@, *key),
        forall|k: int| #[trigger] tasks_with_key(out@, *key, k) == tasks_with_key(a@, *key, k) + tasks_with_key(b@, *key, k),
{
    let ghost a0 = a@;
    let ghost b0 = b@;
    let ghost kk = *key;
    let ghost mut i: int = 0;
    let ghost mut j: int = 0;
    let mut a = a;
    let mut b = b;
    let mut out: VecDeque<RenderTask> = VecDeque::new();
    proof {
        broadcast use vstd::seq_lib::group_to_multiset_ensures;
        assert(a0.subrange(0, a0.len() as int) =~= a0);
        assert(b0.subrange(0, b0.len() as int) =~= b0);
        assert(a0.take(0) =~= Seq::<RenderTask>::empty());
        assert(b0.take(0) =~= Seq::<RenderTask>::empty());
        assert(out@.to_multiset() =~= a0.take(0).to_multiset().add(b0.take(0).to_multiset())) by {
            broadcast use vstd::multiset::group_multiset_axioms;
        }
        assert forall|k: int| #[trigger] tasks_with_key(out@, kk, k) == tasks_with_key(a0.take(0), kk, k) + tasks_with_key(b0.take(0), kk, k) by {
            reveal(Seq::filter);
            assert(tasks_with_key(out@, kk, k) + tasks_with_key(out@, kk, k) =~= tasks_with_key(out@, kk, k));
        }
    }
    while a.len() > 0 || b.len() > 0
        invariant
            kk == *key,
            sorted_by_key(a0, kk),
            sorted_by_key(b0, kk),
            0 <= i <= a0.len(),
            0 <= j <= b0.len(),
            a@ == a0.subrange(i, a0.len() as int),
            b@ == b0.subrange(j, b0.len() as int),
            out@.to_multiset() == a0.take(i).to_multiset().add(b0.take(j).to_multiset()),
            sorted_by_key(out@, kk),
            forall|k: int| #[trigger] tasks_with_key(out@, kk, k) == tasks_with_key(a0.take(i), kk, k) + tasks_with_key(b0.take(j), kk, k),
            i < a0.len() ==> forall|m: int| 0 <= m < out@.len() ==> task_key(#[trigger] out@[m], kk) <= task_key(a0[i], kk),
            j < b0.len() ==> forall|m: int| 0 <= m < out@.len() ==> task_key(#[trigger] out@[m], kk) <= task_key(b0[j], kk),
            i < a0.len() ==> forall|m: int| 0 <= m < j ==> task_key(#[trigger] b0[m], kk) < task_key(a0[i], kk),
        decreases a@.len() + b@.len(),
    {
        let take_a = if a.len() == 0 {
            false
        } else if b.len() == 0 {
            true
        } else {
            compute_task_key(&a[0], key) <= compute_task_key(&b[0], key)
        };
        let ghost before = out@;
        if take_a {
            let x = a.pop_front().unwrap();
            proof {
                assert(x == a0[i]);
                lemma_merge_step_a(a0, b0, before, i, j, kk);
                assert(a0.subrange(i + 1, a0.len() as int) =~= a@);
                i = i + 1;
            }
            out.push_back(x);
        } else {
            let y = b.pop_front().unwrap();
            proof {
                assert(y == b0[j]);
                lemma_merge_step_b(a0, b0, before, i, j, kk);
                assert(b0.subrange(j + 1, b0.len() as int) =~= b@);
                j = j + 1;
            }
            out.push_back(y);
        }
    }
    proof {
        assert(a0.take(i) =~= a0);
        assert(b0.take(j) =~= b0);
    }
    out
}

/// Moving the front of `a` to the output keeps the merge invariant.
proof fn lemma_merge_step_a(a0: Seq<RenderTask>, b0: Seq<RenderTask>, out: Seq<RenderTask>, i: int, j: int, key: SortKey)
    requires
        sorted_by_key(a0, key),
        sorted_by_key(b0, key),
        0 <= i < a0.len(),
        0 <= j <= b0.len(),
        j < b0.len() ==> task_key(a0[i], key) <= task_key(b0[j], key),
        out.to_multiset() == a0.take(i).to_multiset().add(b0.take(j).to_multiset()),
        sorted_by_key(out, key),
        forall|k: int| #[trigger] tasks_with_key(out, key, k) == tasks_with_key(a0.take(i), key, k) + tasks_with_key(b0.take(j), key, k),
        forall|m: int| 0 <= m < out.len() ==> task_key(#[trigger] out[m], key) <= task_key(a0[i], key),
        j < b0.len() ==> forall|m: int| 0 <= m < out.len() ==> task_key(#[trigger] out[m], key) <= task_key(b0[j], key),
        forall|m: int| 0 <= m < j ==> task_key(#[trigger] b0[m], key) < task_key(a0[i], key),
    ensures
        ({
            let o = out.push(a0[i]);
            &&& o.to_multiset() == a0.take(i + 1).to_multiset().add(b0.take(j).to_multiset())
            &&& sorted_by_key(o, key)
            &&& forall|k: int| #[trigger] tasks_with_key(o, key, k) == tasks_with_key(a0.take(i + 1), key, k) + tasks_with_key(b0.take(j), key, k)
            &&& i + 1 < a0.len() ==> forall|m: int| 0 <= m < o.len() ==> task_key(#[trigger] o[m], key) <= task_key(a0[i + 1], key)
            &&& j < b0.len() ==> forall|m: int| 0 <= m < o.len() ==> task_key(#[trigger] o[m], key) <= task_key(b0[j], key)
            &&& i + 1 < a0.len() ==> forall|m: int| 0 <= m < j ==> task_key(#[trigger] b0[m], key) < task_key(a0[i + 1], key)
        }),
{
    let x = a0[i];
    let o = out.push(x);
    assert(a0.take(i + 1) =~= a0.take(i).push(x));
    assert(o.to_multiset() =~= a0.take(i + 1).to_multiset().add(b0.take(j).to_multiset())) by {
        broadcast use vstd::seq_lib::group_to_multiset_ensures;
        broadcast use vstd::multiset::group_multiset_axioms;
    }
    assert forall|m: int, n: int| 0 <= m <= n < o.len() implies task_key(o[m], key) <= task_key(o[n], key) by {
        if n < out.len() {
            assert(o[m] == out[m]);
            assert(o[n] == out[n]);
        } else if m < out.len() {
            assert(o[m] == out[m]);
        }
    }
    assert forall|k: int| #[trigger] tasks_with_key(o, key, k) == tasks_with_key(a0.take(i + 1), key, k) + tasks_with_key(b0.take(j), key, k) by {
        lemma_tasks_with_key_push(out, x, key, k);
        lemma_tasks_with_key_push(a0.take(i), x, key, k);
        if task_key(x, key) == k {
            assert forall|m: int| 0 <= m < b0.take(j).len() implies task_key(#[trigger] b0.take(j)[m], key) != k by {
                assert(b0.take(j)[m] == b0[m]);
            }
            lemma_tasks_with_key_none(b0.take(j), key, k);
            assert((tasks_with_key(a0.take(i), key, k) + tasks_with_key(b0.take(j), key, k)).push(x)
                =~= tasks_with_key(a0.take(i), key, k).push(x) + tasks_with_key(b0.take(j), key, k));
        }
    }
    if i + 1 < a0.len() {
        assert(task_key(a0[i], key) <= task_key(a0[i + 1], key));
        assert forall|m: int| 0 <= m < o.len() implies task_key(#[trigger] o[m], key) <= task_key(a0[i + 1], key) by {
            if m < out.len() {
                assert(o[m] == out[m]);
            }
        }
    }
    if j < b0.len() {
        assert forall|m: int| 0 <= m < o.len() implies task_key(#[trigger] o[m], key) <= task_key(b0[j], key) by {
            if m < out.len() {
                assert(o[m] == out[m]);
            }
        }
    }
}

/// Moving the front of `b` to the output, when `a` is used up or its front
/// has a greater key, keeps the merge invariant.
proof fn lemma_merge_step_b(a0: Seq<RenderTask>, b0: Seq<RenderTask>, out: Seq<RenderTask>, i: int, j: int, key: SortKey)
    requires
        sorted_by_key(a0, key),
        sorted_by_key(b0, key),
        0 <= i <= a0.len(),
        0 <= j < b0.len(),
        i < a0.len() ==> task_key(b0[j], key) < task_key(a0[i], key),
        out.to_multiset() == a0.take(i).to_multiset().add(b0.take(j).to_multiset()),
        sorted_by_key(out, key),
        forall|k: int| #[trigger] tasks_with_key(out, key, k) == tasks_with_key(a0.take(i), key, k) + tasks_with_key(b0.take(j), key, k),
        i < a0.len() ==> forall|m: int| 0 <= m < out.len() ==> task_key(#[trigger] out[m], key) <= task_key(a0[i], key),
        forall|m: int| 0 <= m < out.len() ==> task_key(#[trigger] out[m], key) <= task_key(b0[j], key),
        i < a0.len() ==> forall|m: int| 0 <= m < j ==> task_key(#[trigger] b0[m], key) < task_key(a0[i], key),
    ensures
        ({
            let o = out.push(b0[j]);
            &&& o.to_multiset() == a0.take(i).to_multiset().add(b0.take(j + 1).to_multiset())
            &&& sorted_by_key(o, key)
            &&& forall|k: int| #[trigger] tasks_with_key(o, key, k) == tasks_with_key(a0.take(i), key, k) + tasks_with_key(b0.take(j + 1), key, k)
            &&& i < a0.len() ==> forall|m: int| 0 <= m < o.len() ==> task_key(#[trigger] o[m], key) <= task_key(a0[i], key)
            &&& j + 1 < b0.len() ==> forall|m: int| 0 <= m < o.len() ==> task_key(#[trigger] o[m], key) <= task_key(b0[j + 1], key)
            &&& i < a0.len() ==> forall|m: int| 0 <= m < j + 1 ==> task_key(#[trigger] b0[m], key) < task_key(a0[i], key)
        }),
{
    let y = b0[j];
    let o = out.push(y);
    assert(b0.take(j + 1) =~= b0.take(j).push(y));
    assert(o.to_multiset() =~= a0.take(i).to_multiset().add(b0.take(j + 1).to_multiset())) by {
        broadcast use vstd::seq_lib::group_to_multiset_ensures;
        broadcast use vstd::multiset::group_multiset_axioms;
    }
    assert forall|m: int, n: int| 0 <= m <= n < o.len() implies task_key(o[m], key) <= task_key(o[n], key) by {
        if n < out.len() {
            assert(o[m] == out[m]);
            assert(o[n] == out[n]);
        } else if m < out.len() {
            assert(o[m] == out[m]);
        }
    }
    assert forall|k: int| #[trigger] tasks_with_key(o, key, k) == tasks_with_key(a0.take(i), key, k) + tasks_with_key(b0.take(j + 1), key, k) by {
        lemma_tasks_with_key_push(out, y, key, k);
        lemma_tasks_with_key_push(b0.take(j), y, key, k);
        if task_key(y, key) == k {
            assert((tasks_with_key(a0.take(i), key, k) + tasks_with_key(b0.take(j), key, k)).push(y)
                =~= tasks_with_key(a0.take(i), key, k) + tasks_with_key(b0.take(j), key, k).push(y));
        }
    }
    if i < a0.len() {
        assert forall|m: int| 0 <= m < o.len() implies task_key(#[trigger] o[m], key) <= task_key(a0[i], key) by {
            if m < out.len() {
                assert(o[m] == out[m]);
            }
        }
    }
    if j + 1 < b0.len() {
        assert(task_key(b0[j], key) <= task_key(b0[j + 1], key));
        assert forall|m: int| 0 <= m < o.len() implies task_key(#[trigger] o[m], key) <= task_key(b0[j + 1], key) by {
            if m < out.len() {
                assert(o[m] == out[m]);
            }
        }
    }
}

/// Sorts the draws by the key, keeping draws with equal keys in their order:
/// each half is sorted, then the halves are merged.
fn merge_sort_tasks(v: VecDeque<RenderTask>, key: &SortKey) -> (out: VecDeque<RenderTask>)
    ensures
        stable_sort_of(v@, out@, *key),
    decreases v@.len(),
{
    let n = v.len();
    if n <= 1 {
        return v;
    }
    let mut left = v;
    let right = left.split_off(n / 2);
    let ghost lv = left@;
    let ghost rv = right@;
    let sorted_left = merge_sort_tasks(left, key);
    let sorted_right = merge_sort_tasks(right, key);
    let out = merge_runs(sorted_left, sorted_right, key);
    proof {
        assert(v@ =~= lv + rv);
        assert(out@.to_multiset() =~= v@.to_multiset()) by {
            broadcast use vstd::seq_lib::lemma_multiset_commutative;
        }
        assert forall|k: int| #[trigger] tasks_with_key(out@, *key, k) == tasks_with_key(v@, *key, k) by {
            Seq::filter_distributes_over_add(lv, rv, |t: RenderTask| task_key(t, *key) == k);
        }
    }
    out
}

/// Sorts the draws by the key, keeping draws with equal keys in their order.
fn stable_sort_tasks(tasks: Vec<RenderTask>, key: SortKey) -> (out: Vec<RenderTask>)
    ensures
        stable_sort_of(tasks@, out@, key),
{
    let ghost all = tasks@;
    let mut tasks = tasks;
    let mut queue: VecDeque<RenderTask> = VecDeque::new();
    proof {
        assert(all.take(all.len() as int) =~= all);
        assert(all.skip(all.len() as int) =~= queue@);
    }
    while tasks.len() > 0
        invariant
            tasks@.len() <= all.len(),
            tasks@ == all.take(tasks@.len() as int),
            queue@ == all.skip(tasks@.len() as int),
        decreases tasks@.len(),
    {
        let x = tasks.pop().unwrap();
        queue.push_front(x);
        proof {
            assert(tasks@ =~= all.take(tasks@.len() as int));
            assert(queue@ =~= all.skip(tasks@.len() as int));
        }
    }
    proof {
        assert(all.skip(0) =~= all);
    }
    let mut sorted = merge_sort_tasks(queue, &key);
    let ghost result = sorted@;
    let mut out: Vec<RenderTask> = Vec::new();
    proof {
        assert(out@ + sorted@ =~= result);
    }
    while sorted.len() > 0
        invariant
            out@ + sorted@ == result,
        decreases sorted@.len(),
    {
        let x = sorted.pop_front().unwrap();
        proof {
            assert(out@.push(x) + sorted@ =~= out@ + seq![x] + sorted@);
        }
        out.push(x);
        proof {
            assert(out@ + sorted@ =~= result);
        }
    }
    proof {
        assert(out@ =~= out@ + sorted@);
    }
    out
}

/// The work recorded for one frame.
pub struct Frame {
    render_tasks: Vec<RenderTask>,
    compute_tasks: Vec<ComputeTask>,
    textures_to_clear: Vec<Handle<TextureAsset>>,
    instance_bytes: Vec<u8>,
}

/// The contents of a [`Frame`]: its draws and dispatches in recording order,
/// the textures to clear before drawing, and the bytes of per-instance data.
#[verifier::ext_equal]
pub struct FrameView {
    pub render_tasks: Seq<RenderTask>,
    pub compute_tasks: Seq<ComputeTask>,
    pub textures_to_clear: Seq<Handle<TextureAsset>>,
    pub instance_bytes: Seq<u8>,
}

/// The draw reads per-instance data only from the first `n` instance bytes.
pub open spec fn instances_within(t: RenderTask, n: nat) -> bool {
    match t {
        RenderTask::DrawInstanced(c) => c.instance_range.start <= c.instance_range.end && c.instance_range.end <= n,
        _ => true,
    }
}

impl FrameView {
    /// Every instanced draw reads per-instance data that the frame holds.
    pub open spec fn instances_in_bounds(self) -> bool {
        forall|i: int| 0 <= i < self.render_tasks.len()
            ==> instances_within(#[trigger] self.render_tasks[i], self.instance_bytes.len())
    }
}

/// A sort keeps every draw, so draws that read within `n` bytes still do.
proof fn lemma_sort_keeps_instances_within(before: Seq<RenderTask>, after: Seq<RenderTask>, key: SortKey, n: nat)
    requires
        stable_sort_of(before, after, key),
        forall|i: int| 0 <= i < before.len() ==> instances_within(#[trigger] before[i], n),
    ensures
        forall|i: int| 0 <= i < after.len() ==> instances_within(#[trigger] after[i], n),
{
    broadcast use vstd::seq_lib::group_to_multiset_ensures;
    assert forall|i: int| 0 <= i < after.len() implies instances_within(#[trigger] after[i], n) by {
        assert(after.contains(after[i]));
        assert(after.to_multiset().count(after[i]) > 0);
        assert(before.to_multiset().count(after[i]) > 0);
        assert(before.contains(after[i]));
        let j = choose|j: int| 0 <= j < before.len() && before[j] == after[i];
        assert(instances_within(before[j], n));
    }
}

impl View for Frame {
    type V = FrameView;

    closed spec fn view(&self) -> FrameView {
        FrameView {
            render_tasks: self.render_tasks@,
            compute_tasks: self.compute_tasks@,
            textures_to_clear: self.textures_to_clear@,
            instance_bytes: self.instance_bytes@,
        }
    }
}

impl Frame {
    /// A frame with nothing recorded.
    pub fn new() -> (f: Self)
        ensures
            f@.render_tasks.len() == 0,
            f@.compute_tasks.len() == 0,
            f@.textures_to_clear.len() == 0,
            f@.instance_bytes.len() == 0,
            f@.instances_in_bounds(),
    {
        Frame {
            render_tasks: Vec::new(),
            compute_tasks: Vec::new(),
            textures_to_clear: Vec::new(),
            instance_bytes: Vec::new(),
        }
    }

    /// Forgets the recorded draws and dispatches; the textures to clear and
    /// the instance bytes stay.
    pub fn clear(&mut self)
        ensures
            final(self)@.render_tasks.len() == 0,
            final(self)@.compute_tasks.len() == 0,
            final(self)@.textures_to_clear == old(self)@.textures_to_clear,
            final(self)@.instance_bytes == old(self)@.instance_bytes,
            old(self)@.instances_in_bounds() ==> final(self)@.instances_in_bounds(),
    {
        self.render_tasks.clear();
        self.compute_tasks.clear();
    }

    /// Records a single draw of the mesh with the material.
    pub fn draw(&mut self, material: Handle<Material>, mesh: Handle<Mesh>)
        ensures
            final(self)@.render_tasks == old(self)@.render_tasks.push(
                RenderTask::Draw(DrawCommand { mesh, material }),
            ),
            final(self)@.compute_tasks == old(self)@.compute_tasks,
            final(self)@.textures_to_clear == old(self)@.textures_to_clear,
            final(self)@.instance_bytes == old(self)@.instance_bytes,
            old(self)@.instances_in_bounds() ==> final(self)@.instances_in_bounds(),
            final(self)@.render_tasks.last().material_of() == material,
            final(self)@.render_tasks.last().mesh_of() == mesh,
    {
        let item = RenderTask::Draw(DrawCommand { mesh, material });
        self.render_tasks.push(item);
    }

    /// Records a draw of the instances `range`, with per-instance data in the
    /// given buffers.
    pub fn draw_manual_batch(
        &mut self,
        instances: Vec<Handle<BufferAsset>>,
        material: Handle<Material>,
        mesh: Handle<Mesh>,
        range: Range<u32>,
    )
        ensures
            final(self)@.render_tasks == old(self)@.render_tasks.push(
                RenderTask::DrawStreamed(StreamedCommand { mesh, material, instances, range }),
            ),
            final(self)@.compute_tasks == old(self)@.compute_tasks,
            final(self)@.textures_to_clear == old(self)@.textures_to_clear,
            final(self)@.instance_bytes == old(self)@.instance_bytes,
            old(self)@.instances_in_bounds() ==> final(self)@.instances_in_bounds(),
            final(self)@.render_tasks.last().material_of() == material,
            final(self)@.render_tasks.last().mesh_of() == mesh,
    {
        let item = RenderTask::DrawStreamed(StreamedCommand { mesh, material, instances, range });
        self.render_tasks.push(item);
    }

    /// Records an instanced draw: the bytes of the instances are appended to
    /// the frame's instance bytes, and the draw covers `instance_count`
    /// instances whose data is the appended byte range.
    pub fn draw_batch(
        &mut self,
        instance_bytes: &[u8],
        instance_count: u32,
        material: Handle<Material>,
        mesh: Handle<Mesh>,
    )
        requires
            old(self)@.instance_bytes.len() + instance_bytes@.len() <= usize::MAX,
        ensures
            final(self)@.instance_bytes == old(self)@.instance_bytes + instance_bytes@,
            final(self)@.render_tasks == old(self)@.render_tasks.push(
                RenderTask::DrawInstanced(InstancedCommand {
                    mesh,
                    material,
                    instance_range: Range {
                        start: old(self)@.instance_bytes.len() as u64,
                        end: (old(self)@.instance_bytes.len() + instance_bytes@.len()) as u64,
                    },
                    instance_count,
                }),
            ),
            final(self)@.compute_tasks == old(self)@.compute_tasks,
            final(self)@.textures_to_clear == old(self)@.textures_to_clear,
            old(self)@.instances_in_bounds() ==> final(self)@.instances_in_bounds(),
            final(self)@.render_tasks.last().material_of() == material,
            final(self)@.render_tasks.last().mesh_of() == mesh,
    {
        let start = self.instance_bytes.len();
        self.instance_bytes.extend_from_slice(instance_bytes);
        let end = self.instance_bytes.len();
        proof {
            assert(self.instance_bytes@ =~= old(self)@.instance_bytes + instance_bytes@);
        }
        let instance_range = Range { start: start as u64, end: end as u64 };
        let item = RenderTask::DrawInstanced(InstancedCommand {
            mesh,
            material,
            instance_range,
            instance_count,
        });
        self.render_tasks.push(item);
        proof {
            if old(self)@.instances_in_bounds() {
                assert forall|k: int| 0 <= k < self.render_tasks@.len()
                    implies instances_within(#[trigger] self.render_tasks@[k], self.instance_bytes@.len()) by {
                    if k < old(self)@.render_tasks.len() {
                        assert(self.render_tasks@[k] == old(self)@.render_tasks[k]);
                        assert(instances_within(old(self)@.render_tasks[k], old(self)@.instance_bytes.len()));
                    }
                }
            }
        }
    }

    /// Records a compute dispatch.
    pub fn compute(
        &mut self,
        bind_group: Handle<ComputeBindGroup>,
        pipeline: Handle<ComputePipelineAsset>,
        dispatch: (u32, u32, u32),
    )
        ensures
            final(self)@.compute_tasks == old(self)@.compute_tasks.push(
                ComputeTask { pipeline, bind_group, dispatch },
            ),
            final(self)@.render_tasks == old(self)@.render_tasks,
            final(self)@.textures_to_clear == old(self)@.textures_to_clear,
            final(self)@.instance_bytes == old(self)@.instance_bytes,
            old(self)@.instances_in_bounds() ==> final(self)@.instances_in_bounds(),
    {
        let task = ComputeTask::new(pipeline, bind_group, dispatch);
        self.compute_tasks.push(task);
    }

    fn sort_render_tasks(&mut self, key: SortKey)
        ensures
            stable_sort_of(old(self)@.render_tasks, final(self)@.render_tasks, key),
            final(self)@.compute_tasks == old(self)@.compute_tasks,
            final(self)@.textures_to_clear == old(self)@.textures_to_clear,
            final(self)@.instance_bytes == old(self)@.instance_bytes,
            old(self)@.instances_in_bounds() ==> final(self)@.instances_in_bounds(),
    {
        let mut tasks: Vec<RenderTask> = Vec::new();
        std::mem::swap(&mut tasks, &mut self.render_tasks);
        self.render_tasks = stable_sort_tasks(tasks, key);
        proof {
            if old(self)@.instances_in_bounds() {
                lemma_sort_keeps_instances_within(
                    old(self)@.render_tasks,
                    self.render_tasks@,
                    key,
                    self.instance_bytes@.len(),
                );
            }
        }
    }

    /// Orders the draws by material; draws with the same material keep
    /// their recording order.
    pub fn sort_by_material(&mut self)
        ensures
            stable_sort_of(old(self)@.render_tasks, final(self)@.render_tasks, SortKey::Material),
            final(self)@.compute_tasks == old(self)@.compute_tasks,
            final(self)@.textures_to_clear == old(self)@.textures_to_clear,
            final(self)@.instance_bytes == old(self)@.instance_bytes,
            old(self)@.instances_in_bounds() ==> final(self)@.instances_in_bounds(),
    {
        self.sort_render_tasks(SortKey::Material);
    }

    /// Orders the draws by mesh; draws with the same mesh keep their
    /// recording order.
    pub fn sort_by_mesh(&mut self)
        ensures
            stable_sort_of(old(self)@.render_tasks, final(self)@.render_tasks, SortKey::Mesh),
            final(self)@.compute_tasks == old(self)@.compute_tasks,
            final(self)@.textures_to_clear == old(self)@.textures_to_clear,
            final(self)@.instance_bytes == old(self)@.instance_bytes,
            old(self)@.instances_in_bounds() ==> final(self)@.instances_in_bounds(),
    {
        self.sort_render_tasks(SortKey::Mesh);
    }

    /// Orders the draws by material and, for the same material, by mesh;
    /// draws equal in both keep their recording order.
    pub fn sort(&mut self)
        ensures
            stable_sort_of(old(self)@.render_tasks, final(self)@.render_tasks, SortKey::MaterialThenMesh),
            final(self)@.compute_tasks == old(self)@.compute_tasks,
            final(self)@.textures_to_clear == old(self)@.textures_to_clear,
            final(self)@.instance_bytes == old(self)@.instance_bytes,
            old(self)@.instances_in_bounds() ==> final(self)@.instances_in_bounds(),
    {
        self.sort_render_tasks(SortKey::MaterialThenMesh);
    }

    /// Asks for the texture to be cleared before the frame is drawn.
    pub fn request_texture_clear(&mut self, texture: Handle<TextureAsset>)
        ensures
            final(self)@.textures_to_clear == old(self)@.textures_to_clear.push(texture),
            final(self)@.render_tasks == old(self)@.render_tasks,
            final(self)@.compute_tasks == old(self)@.compute_tasks,
            final(self)@.instance_bytes == old(self)@.instance_bytes,
            old(self)@.instances_in_bounds() ==> final(self)@.instances_in_bounds(),
    {
        self.textures_to_clear.push(texture);
    }

    /// The recorded draws, in order.
    pub fn render_tasks(&self) -> (r: &Vec<RenderTask>)
        ensures
            r@ == self@.render_tasks,
    {
        &self.render_tasks
    }

    /// The recorded dispatches, in order.
    pub fn compute_tasks(&self) -> (r: &Vec<ComputeTask>)
        ensures
            r@ == self@.compute_tasks,
    {
        &self.compute_tasks
    }

    /// The textures waiting to be cleared, in request order.
    pub fn textures_to_clear(&self) -> (r: &Vec<Handle<TextureAsset>>)
        ensures
            r@ == self@.textures_to_clear,
    {
        &self.textures_to_clear
    }

    /// The bytes of per-instance data that instanced draws refer to.
    pub fn instance_bytes(&self) -> (r: &Vec<u8>)
        ensures
            r@ == self@.instance_bytes,
    {
        &self.instance_bytes
    }

    /// Hands out the textures waiting to be cleared, in request order, and
    /// forgets them.
    pub fn take_textures_to_clear(&mut self) -> (r: Vec<Handle<TextureAsset>>)
        ensures
            r@ == old(self)@.textures_to_clear,
            final(self)@.textures_to_clear.len() == 0,
            final(self)@.render_tasks == old(self)@.render_tasks,
            final(self)@.compute_tasks == old(self)@.compute_tasks,
            final(self)@.instance_bytes == old(self)@.instance_bytes,
            old(self)@.instances_in_bounds() ==> final(self)@.instances_in_bounds(),
    {
        let mut taken: Vec<Handle<TextureAsset>> = Vec::new();
        std::mem::swap(&mut taken, &mut self.textures_to_clear);
        taken
    }
}

} // verus!
