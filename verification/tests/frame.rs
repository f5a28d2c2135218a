use easy_gpu::{
    ComputeBindGroup, ComputePipelineAsset, Frame, Handle, Material, Mesh, RenderTask,
    TextureAsset, BufferAsset,
};

fn mat(i: u32) -> Handle<Material> {
    Handle::new(i, 0)
}

fn mesh(i: u32) -> Handle<Mesh> {
    Handle::new(i, 0)
}

fn keys(frame: &Frame) -> Vec<(u32, u32)> {
    frame
        .render_tasks()
        .iter()
        .map(|t| (t.material().index, t.mesh().index))
        .collect()
}

#[test]
fn draw_records_a_single_draw() {
    let mut frame = Frame::new();
    frame.draw(mat(1), mesh(2));
    assert_eq!(frame.render_tasks().len(), 1);
    match &frame.render_tasks()[0] {
        RenderTask::Draw(c) => {
            assert!(c.material == mat(1));
            assert!(c.mesh == mesh(2));
        }
        _ => panic!("wrong kind of draw"),
    }
}

#[test]
fn draw_batch_appends_instance_bytes_and_records_their_range() {
    let mut frame = Frame::new();
    frame.draw_batch(&[1, 2, 3, 4], 2, mat(0), mesh(0));
    frame.draw_batch(&[5, 6], 1, mat(1), mesh(1));
    assert_eq!(frame.instance_bytes(), &vec![1, 2, 3, 4, 5, 6]);
    match &frame.render_tasks()[1] {
        RenderTask::DrawInstanced(c) => {
            assert_eq!(c.instance_range, 4..6);
            assert_eq!(c.instance_count, 1);
        }
        _ => panic!("wrong kind of draw"),
    }
    match &frame.render_tasks()[0] {
        RenderTask::DrawInstanced(c) => assert_eq!(c.instance_range, 0..4),
        _ => panic!("wrong kind of draw"),
    }
}

#[test]
fn draw_manual_batch_records_buffers_and_range() {
    let mut frame = Frame::new();
    let buffers: Vec<Handle<BufferAsset>> = vec![Handle::new(3, 1)];
    frame.draw_manual_batch(buffers, mat(0), mesh(4), 2..9);
    match &frame.render_tasks()[0] {
        RenderTask::DrawStreamed(c) => {
            assert_eq!(c.range, 2..9);
            assert_eq!(c.instances.len(), 1);
            assert!(c.instances[0] == Handle::new(3, 1));
            assert!(c.mesh == mesh(4));
        }
        _ => panic!("wrong kind of draw"),
    }
}

#[test]
fn compute_records_a_dispatch() {
    let mut frame = Frame::new();
    let group: Handle<ComputeBindGroup> = Handle::new(2, 0);
    let pipeline: Handle<ComputePipelineAsset> = Handle::new(5, 1);
    frame.compute(group, pipeline, (4, 2, 1));
    let t = &frame.compute_tasks()[0];
    assert!(t.bind_group == group && t.pipeline == pipeline);
    assert_eq!(t.dispatch, (4, 2, 1));
}

#[test]
fn clear_forgets_draws_and_dispatches_only() {
    let mut frame = Frame::new();
    let tex: Handle<TextureAsset> = Handle::new(0, 0);
    frame.draw(mat(0), mesh(0));
    frame.compute(Handle::new(0, 0), Handle::new(0, 0), (1, 1, 1));
    frame.request_texture_clear(tex);
    frame.draw_batch(&[7], 1, mat(0), mesh(0));
    frame.clear();
    assert!(frame.render_tasks().is_empty());
    assert!(frame.compute_tasks().is_empty());
    assert_eq!(frame.textures_to_clear().len(), 1);
    assert_eq!(frame.instance_bytes(), &vec![7]);
}

#[test]
fn take_textures_to_clear_hands_them_out_in_order() {
    let mut frame = Frame::new();
    frame.request_texture_clear(Handle::new(2, 0));
    frame.request_texture_clear(Handle::new(1, 0));
    let taken = frame.take_textures_to_clear();
    assert_eq!(taken.iter().map(|h| h.index).collect::<Vec<_>>(), vec![2, 1]);
    assert!(frame.textures_to_clear().is_empty());
}

#[test]
fn sort_by_material_is_stable() {
    let mut frame = Frame::new();
    frame.draw(mat(2), mesh(0));
    frame.draw(mat(1), mesh(1));
    frame.draw(mat(2), mesh(2));
    frame.draw(mat(0), mesh(3));
    frame.draw(mat(1), mesh(4));
    frame.sort_by_material();
    assert_eq!(keys(&frame), vec![(0, 3), (1, 1), (1, 4), (2, 0), (2, 2)]);
}

#[test]
fn sort_by_mesh_is_stable() {
    let mut frame = Frame::new();
    frame.draw(mat(0), mesh(5));
    frame.draw(mat(1), mesh(3));
    frame.draw(mat(2), mesh(5));
    frame.draw(mat(3), mesh(3));
    frame.sort_by_mesh();
    assert_eq!(keys(&frame), vec![(1, 3), (3, 3), (0, 5), (2, 5)]);
}

#[test]
fn sort_orders_by_material_then_mesh() {
    let mut frame = Frame::new();
    frame.draw(mat(1), mesh(9));
    frame.draw(mat(0), mesh(7));
    frame.draw(mat(1), mesh(2));
    frame.draw(mat(0), mesh(7));
    frame.draw(mat(u32::MAX), mesh(0));
    frame.draw(mat(0), mesh(u32::MAX));
    frame.sort();
    assert_eq!(
        keys(&frame),
        vec![(0, 7), (0, 7), (0, u32::MAX), (1, 2), (1, 9), (u32::MAX, 0)]
    );
}

#[test]
fn sorting_twice_is_sorting_once() {
    let mut frame = Frame::new();
    for (m, s) in [(3, 1), (1, 2), (3, 0), (2, 2), (1, 1)] {
        frame.draw(mat(m), mesh(s));
    }
    frame.sort();
    let once = keys(&frame);
    frame.sort();
    assert_eq!(keys(&frame), once);
}

#[test]
fn sorting_keeps_every_draw() {
    let mut frame = Frame::new();
    frame.draw_batch(&[1, 2], 1, mat(4), mesh(0));
    frame.draw(mat(2), mesh(1));
    frame.draw_manual_batch(vec![], mat(3), mesh(2), 0..1);
    frame.sort_by_material();
    let kinds: Vec<&str> = frame
        .render_tasks()
        .iter()
        .map(|t| match t {
            RenderTask::Draw(_) => "draw",
            RenderTask::DrawInstanced(_) => "instanced",
            RenderTask::DrawStreamed(_) => "streamed",
        })
        .collect();
    assert_eq!(kinds, vec!["draw", "streamed", "instanced"]);
}

#[test]
fn sorting_many_draws_matches_a_stable_sort() {
    let mut frame = Frame::new();
    let mut expected: Vec<(u32, u32, u32)> = Vec::new();
    let mut state: u64 = 12345;
    for pos in 0..1000u32 {
        state = state.wrapping_mul(6364136223846793005).wrapping_add(1442695040888963407);
        let m = ((state >> 33) % 7) as u32;
        let s = ((state >> 45) % 5) as u32;
        frame.draw(Handle::new(m, pos), Handle::new(s, pos));
        expected.push((m, s, pos));
    }
    let recorded = |frame: &Frame| -> Vec<(u32, u32, u32)> {
        frame
            .render_tasks()
            .iter()
            .map(|t| (t.material().index, t.mesh().index, t.material().generation))
            .collect()
    };

    frame.sort_by_mesh();
    expected.sort_by_key(|e| e.1);
    assert_eq!(recorded(&frame), expected);

    frame.sort_by_material();
    expected.sort_by_key(|e| e.0);
    assert_eq!(recorded(&frame), expected);

    frame.sort();
    expected.sort_by_key(|e| (e.0, e.1));
    assert_eq!(recorded(&frame), expected);
}

#[test]
fn sorting_by_mesh_then_material_is_the_combined_sort() {
    let draws = [(2, 1), (1, 3), (2, 0), (1, 1), (0, 3), (2, 1), (1, 1), (0, 0)];
    let mut stepwise = Frame::new();
    let mut combined = Frame::new();
    for (pos, (m, s)) in draws.iter().enumerate() {
        stepwise.draw(Handle::new(*m, pos as u32), Handle::new(*s, pos as u32));
        combined.draw(Handle::new(*m, pos as u32), Handle::new(*s, pos as u32));
    }
    stepwise.sort_by_mesh();
    stepwise.sort_by_material();
    combined.sort();
    let order = |f: &Frame| -> Vec<(u32, u32, u32)> {
        f.render_tasks()
            .iter()
            .map(|t| (t.material().index, t.mesh().index, t.material().generation))
            .collect()
    };
    assert_eq!(order(&stepwise), order(&combined));
    assert_eq!(
        order(&combined),
        vec![(0, 0, 7), (0, 3, 4), (1, 1, 3), (1, 1, 6), (1, 3, 1), (2, 0, 2), (2, 1, 0), (2, 1, 5)]
    );
}
