use easy_gpu::{
    AssetManager, BoundResource, BufferAsset, ComputeBindGroup, ComputeBindGroupBuilder,
    ComputePipelineAsset, ComputePipelineBuilder, ComputeTask, DrawInstances, Frame, Handle,
    Material, MaterialBuilder, Mesh, MissingAsset, RenderPipelineAsset, RenderPipelineBuilder,
    TextureAsset,
};

const SHADER: &str = "
@vertex fn vs_main(@builtin(vertex_index) i: u32) -> @builtin(position) vec4<f32> {
    return vec4<f32>(f32(i), 0.0, 0.0, 1.0);
}
@fragment fn fs_main() -> @location(0) vec4<f32> {
    return vec4<f32>(1.0, 1.0, 1.0, 1.0);
}
@compute @workgroup_size(1) fn cs_main() {}
";

fn device() -> wgpu::Device {
    wgpu::Device::noop(&wgpu::DeviceDescriptor::default()).0
}

fn buffer(device: &wgpu::Device) -> BufferAsset {
    BufferAsset {
        buffer: device.create_buffer(&wgpu::BufferDescriptor {
            label: None,
            size: 64,
            usage: wgpu::BufferUsages::VERTEX | wgpu::BufferUsages::UNIFORM | wgpu::BufferUsages::STORAGE,
            mapped_at_creation: false,
        }),
    }
}

fn texture(device: &wgpu::Device) -> TextureAsset {
    let texture = device.create_texture(&wgpu::TextureDescriptor {
        label: None,
        size: wgpu::Extent3d { width: 4, height: 4, depth_or_array_layers: 1 },
        mip_level_count: 1,
        sample_count: 1,
        dimension: wgpu::TextureDimension::D2,
        format: wgpu::TextureFormat::Rgba8Unorm,
        usage: wgpu::TextureUsages::TEXTURE_BINDING,
        view_formats: &[],
    });
    let view = texture.create_view(&wgpu::TextureViewDescriptor::default());
    TextureAsset::new(texture, view)
}

fn empty_layout(device: &wgpu::Device) -> wgpu::BindGroupLayout {
    device.create_bind_group_layout(&wgpu::BindGroupLayoutDescriptor { label: None, entries: &[] })
}

fn bind_group(device: &wgpu::Device) -> wgpu::BindGroup {
    let layout = empty_layout(device);
    device.create_bind_group(&wgpu::BindGroupDescriptor { label: None, layout: &layout, entries: &[] })
}

fn shader(device: &wgpu::Device) -> wgpu::ShaderModule {
    device.create_shader_module(wgpu::ShaderModuleDescriptor {
        label: None,
        source: wgpu::ShaderSource::Wgsl(SHADER.into()),
    })
}

fn render_pipeline(device: &wgpu::Device) -> RenderPipelineAsset {
    let material_layout = empty_layout(device);
    let layout = device.create_pipeline_layout(&wgpu::PipelineLayoutDescriptor {
        label: None,
        bind_group_layouts: &[Some(&material_layout)],
        immediate_size: 0,
    });
    let module = shader(device);
    let pipeline = device.create_render_pipeline(&wgpu::RenderPipelineDescriptor {
        label: None,
        layout: Some(&layout),
        vertex: wgpu::VertexState {
            module: &module,
            entry_point: Some("vs_main"),
            compilation_options: Default::default(),
            buffers: &[],
        },
        fragment: Some(wgpu::FragmentState {
            module: &module,
            entry_point: Some("fs_main"),
            compilation_options: Default::default(),
            targets: &[Some(wgpu::ColorTargetState {
                format: wgpu::TextureFormat::Rgba8Unorm,
                blend: None,
                write_mask: wgpu::ColorWrites::ALL,
            })],
        }),
        multiview_mask: None,
        primitive: wgpu::PrimitiveState::default(),
        depth_stencil: None,
        multisample: wgpu::MultisampleState::default(),
        cache: None,
    });
    RenderPipelineAsset { pipeline, material_layout }
}

fn compute_pipeline(device: &wgpu::Device) -> ComputePipelineAsset {
    let bind_layout = empty_layout(device);
    let layout = device.create_pipeline_layout(&wgpu::PipelineLayoutDescriptor {
        label: None,
        bind_group_layouts: &[Some(&bind_layout)],
        immediate_size: 0,
    });
    let module = shader(device);
    let pipeline = device.create_compute_pipeline(&wgpu::ComputePipelineDescriptor {
        label: None,
        layout: Some(&layout),
        module: &module,
        entry_point: Some("cs_main"),
        compilation_options: Default::default(),
        cache: None,
    });
    ComputePipelineAsset { pipeline, layout: bind_layout }
}

struct Scene {
    assets: AssetManager,
    pipeline: Handle<RenderPipelineAsset>,
    material: Handle<Material>,
    mesh: Handle<Mesh>,
    buffer: Handle<BufferAsset>,
    texture: Handle<TextureAsset>,
    compute_pipeline: Handle<ComputePipelineAsset>,
    compute_group: Handle<ComputeBindGroup>,
}

fn scene() -> Scene {
    let device = device();
    let mut assets = AssetManager::new();
    let pipeline = assets.render_pipelines.insert(render_pipeline(&device));
    let material = assets.materials.insert(Material { bind_group: bind_group(&device), pipeline });
    let mesh = assets.meshes.insert(Mesh {
        vertex_buffer: buffer(&device).buffer,
        index_buffer: buffer(&device).buffer,
        index_count: 6,
    });
    let buffer = assets.buffers.insert(buffer(&device));
    let texture = assets.textures.insert(texture(&device));
    let compute_pipeline = assets.compute_pipelines.insert(compute_pipeline(&device));
    let compute_group = assets.compute_bind_groups.insert(ComputeBindGroup { bind_group: bind_group(&device) });
    Scene { assets, pipeline, material, mesh, buffer, texture, compute_pipeline, compute_group }
}

#[test]
fn plan_resolves_every_handle_in_order() {
    let s = scene();
    let mut frame = Frame::new();
    frame.request_texture_clear(s.texture);
    frame.compute(s.compute_group, s.compute_pipeline, (2, 3, 4));
    frame.draw(s.material, s.mesh);
    frame.draw_batch(&[0; 8], 2, s.material, s.mesh);
    frame.draw_manual_batch(vec![s.buffer, s.buffer], s.material, s.mesh, 1..5);
    let plan = s.assets.plan_frame(&mut frame).ok().expect("every handle resolves");
    assert!(frame.textures_to_clear().is_empty());
    assert_eq!(frame.render_tasks().len(), 3);
    assert_eq!(plan.clears.len(), 1);
    assert!(std::ptr::eq(plan.clears[0], s.assets.textures.get(s.texture).unwrap()));
    assert_eq!(plan.computes.len(), 1);
    assert_eq!(plan.computes[0].dispatch, (2, 3, 4));
    assert!(std::ptr::eq(plan.computes[0].pipeline, s.assets.compute_pipelines.get(s.compute_pipeline).unwrap()));
    assert_eq!(plan.draws.len(), 3);
    for d in &plan.draws {
        assert!(std::ptr::eq(d.material, s.assets.materials.get(s.material).unwrap()));
        assert!(std::ptr::eq(d.pipeline, s.assets.render_pipelines.get(s.pipeline).unwrap()));
        assert!(std::ptr::eq(d.mesh, s.assets.meshes.get(s.mesh).unwrap()));
        assert_eq!(d.mesh.index_count, 6);
    }
    assert!(matches!(plan.draws[0].instances, DrawInstances::Single));
    match &plan.draws[1].instances {
        DrawInstances::Bytes { byte_range, count } => {
            assert_eq!(byte_range.clone(), 0..8);
            assert_eq!(*count, 2);
        }
        _ => panic!("wrong instances"),
    }
    match &plan.draws[2].instances {
        DrawInstances::Buffers { buffers, instances } => {
            assert_eq!(buffers.len(), 2);
            assert_eq!(instances.clone(), 1..5);
        }
        _ => panic!("wrong instances"),
    }
}

#[test]
fn plan_of_an_empty_frame_is_empty() {
    let assets = AssetManager::new();
    let mut frame = Frame::new();
    let plan = assets.plan_frame(&mut frame).ok().expect("nothing to resolve");
    assert!(plan.clears.is_empty() && plan.computes.is_empty() && plan.draws.is_empty());
}

#[test]
fn missing_texture_is_reported_before_anything_else() {
    let s = scene();
    let mut frame = Frame::new();
    let bad_texture: Handle<TextureAsset> = Handle::new(9, 0);
    frame.draw(Handle::new(7, 0), s.mesh);
    frame.request_texture_clear(s.texture);
    frame.request_texture_clear(bad_texture);
    match s.assets.plan_frame(&mut frame) {
        Err(MissingAsset::Texture(h)) => assert!(h == bad_texture),
        _ => panic!("expected the missing texture"),
    }
    assert!(frame.textures_to_clear().is_empty());
}

#[test]
fn missing_compute_pipeline_and_bind_group_are_reported() {
    let s = scene();
    let mut frame = Frame::new();
    frame.compute(s.compute_group, Handle::new(4, 0), (1, 1, 1));
    match s.assets.plan_frame(&mut frame) {
        Err(MissingAsset::ComputePipeline(h)) => assert_eq!(h.index, 4),
        _ => panic!("expected the missing compute pipeline"),
    }
    let mut frame = Frame::new();
    frame.compute(Handle::new(0, 1), s.compute_pipeline, (1, 1, 1));
    match s.assets.plan_frame(&mut frame) {
        Err(MissingAsset::ComputeBindGroup(h)) => assert_eq!(h.generation, 1),
        _ => panic!("expected the missing bind group"),
    }
}

#[test]
fn missing_material_pipeline_mesh_and_buffer_are_reported_in_order() {
    let mut s = scene();
    let mut frame = Frame::new();
    frame.draw(s.material, s.mesh);
    frame.draw(Handle::new(8, 0), Handle::new(8, 0));
    match s.assets.plan_frame(&mut frame) {
        Err(MissingAsset::Material(h)) => assert_eq!(h.index, 8),
        _ => panic!("expected the missing material"),
    }

    let mut frame = Frame::new();
    frame.draw(s.material, Handle::new(3, 0));
    match s.assets.plan_frame(&mut frame) {
        Err(MissingAsset::Mesh(h)) => assert_eq!(h.index, 3),
        _ => panic!("expected the missing mesh"),
    }

    let mut frame = Frame::new();
    frame.draw_manual_batch(vec![s.buffer, Handle::new(6, 0), Handle::new(7, 0)], s.material, s.mesh, 0..1);
    match s.assets.plan_frame(&mut frame) {
        Err(MissingAsset::Buffer(h)) => assert_eq!(h.index, 6),
        _ => panic!("expected the missing buffer"),
    }

    let orphan = s.assets.materials.insert(Material { bind_group: bind_group(&device()), pipeline: Handle::new(5, 0) });
    let mut frame = Frame::new();
    frame.draw(orphan, Handle::new(3, 0));
    match s.assets.plan_frame(&mut frame) {
        Err(MissingAsset::RenderPipeline(h)) => assert_eq!(h.index, 5),
        _ => panic!("expected the missing pipeline"),
    }
}

#[test]
fn removed_material_no_longer_resolves() {
    let mut s = scene();
    s.assets.materials.remove(s.material);
    let mut frame = Frame::new();
    frame.draw(s.material, s.mesh);
    assert!(matches!(s.assets.plan_frame(&mut frame), Err(MissingAsset::Material(_))));
}

#[test]
fn resolve_compute_and_draw_directly() {
    let s = scene();
    let task = ComputeTask::new(s.compute_pipeline, s.compute_group, (1, 2, 3));
    let call = s.assets.resolve_compute(&task).ok().expect("resolves");
    assert_eq!(call.dispatch, (1, 2, 3));
    let bad = ComputeTask::new(s.compute_pipeline, Handle::new(9, 9), (1, 1, 1));
    assert!(matches!(s.assets.resolve_compute(&bad), Err(MissingAsset::ComputeBindGroup(_))));
    let buffers = s.assets.resolve_buffers(&vec![s.buffer]).ok().expect("resolves");
    assert!(std::ptr::eq(buffers[0], s.assets.buffers.get(s.buffer).unwrap()));
}

#[test]
fn material_bindings_come_uniforms_then_textures_then_samplers() {
    let s = scene();
    let device = device();
    let mut assets = s.assets;
    let sampler = assets.samplers.insert(device.create_sampler(&wgpu::SamplerDescriptor::default()));
    let builder = MaterialBuilder::new(s.pipeline)
        .sampler(5, sampler)
        .texture(3, s.texture)
        .uniform(1, s.buffer)
        .uniform(2, s.buffer);
    let bindings = builder.resolve(&assets).ok().expect("resolves");
    let order: Vec<(u32, &str)> = bindings
        .entries
        .iter()
        .map(|(b, r)| {
            (*b, match r {
                BoundResource::Buffer(_) => "buffer",
                BoundResource::Texture(_) => "texture",
                BoundResource::Sampler(_) => "sampler",
            })
        })
        .collect();
    assert_eq!(order, vec![(1, "buffer"), (2, "buffer"), (3, "texture"), (5, "sampler")]);
    assert!(std::ptr::eq(bindings.pipeline, assets.render_pipelines.get(s.pipeline).unwrap()));
}

#[test]
fn material_reports_pipeline_then_bindings() {
    let s = scene();
    let missing = MaterialBuilder::new(Handle::new(4, 0)).uniform(0, Handle::new(9, 0));
    assert!(matches!(missing.resolve(&s.assets), Err(MissingAsset::RenderPipeline(_))));
    let missing = MaterialBuilder::new(s.pipeline).sampler(0, Handle::new(1, 0)).uniform(0, Handle::new(9, 0));
    assert!(matches!(missing.resolve(&s.assets), Err(MissingAsset::Buffer(_))));
    let missing = MaterialBuilder::new(s.pipeline).sampler(0, Handle::new(1, 0)).texture(0, s.texture);
    assert!(matches!(missing.resolve(&s.assets), Err(MissingAsset::Sampler(_))));
    let missing = MaterialBuilder::new(s.pipeline).texture(0, Handle::new(2, 2));
    assert!(matches!(missing.resolve(&s.assets), Err(MissingAsset::Texture(_))));
}

#[test]
fn compute_bindings_come_storages_then_textures() {
    let s = scene();
    let builder = ComputeBindGroupBuilder::new(s.compute_pipeline)
        .storage_texture(4, s.texture)
        .storage(0, s.buffer);
    let bindings = builder.resolve(&s.assets).ok().expect("resolves");
    assert_eq!(bindings.entries.len(), 2);
    assert!(matches!(bindings.entries[0], (0, BoundResource::Buffer(_))));
    assert!(matches!(bindings.entries[1], (4, BoundResource::Texture(_))));
    let missing = ComputeBindGroupBuilder::new(Handle::new(3, 0));
    assert!(matches!(missing.resolve(&s.assets), Err(MissingAsset::ComputePipeline(_))));
}

#[test]
fn pipeline_builders_find_their_shader() {
    let device = device();
    let mut assets = AssetManager::new();
    let sh = assets.shaders.insert(shader(&device));
    assert!(RenderPipelineBuilder::new(sh).resolve_shader(&assets).is_ok());
    assert!(ComputePipelineBuilder::new(sh).resolve_shader(&assets).is_ok());
    let missing = Handle::new(1, 0);
    assert!(matches!(RenderPipelineBuilder::new(missing).resolve_shader(&assets), Err(MissingAsset::Shader(h)) if h == missing));
    assert!(matches!(ComputePipelineBuilder::new(missing).resolve_shader(&assets), Err(MissingAsset::Shader(_))));
}

#[test]
fn stored_compute_bind_group_is_found_by_its_handle() {
    let device = device();
    let mut assets = AssetManager::new();
    let first = assets.insert_compute_bind_group(ComputeBindGroup { bind_group: bind_group(&device) });
    let second = assets.insert_compute_bind_group(ComputeBindGroup { bind_group: bind_group(&device) });
    assert!(first == Handle::new(0, 0));
    assert!(second == Handle::new(1, 0));
    assert!(assets.compute_bind_groups.get(first).is_some());
    assert!(assets.compute_bind_groups.get(second).is_some());
    assert!(assets.buffers.get(Handle::new(0, 0)).is_none());
}
