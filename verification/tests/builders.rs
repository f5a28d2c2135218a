use easy_gpu::{
    compute_texture_float, compute_texture_uint, copy_layout, load_texture_upload, upload_from_decoded, sampler,
    storage, storage_texture, surface_action, texture, texture_upload, uniform, BindingKind,
    BlendComponent, BlendEquations, BlendFactor, BlendMode, BlendOperation, BufferLayout, ComputePipelineBuilder, CopyLayout, DecodedImage, Handle, LayoutEntry,
    RenderPipelineBuilder, SamplerBuilder, FilterSetting, TextureFormatSetting, TextureUsageSetting, StepMode, SurfaceAction, SurfaceStatus,
    TextureBuilder, TextureDimension, TextureExtent, TextureLoadError, Visibility,
};

#[test]
fn layout_helpers_describe_their_bindings() {
    assert_eq!(
        texture(1),
        LayoutEntry { binding: 1, visibility: Visibility::Fragment, kind: BindingKind::FloatTexture }
    );
    assert_eq!(
        sampler(2),
        LayoutEntry { binding: 2, visibility: Visibility::Fragment, kind: BindingKind::FilteringSampler }
    );
    assert_eq!(
        uniform(0),
        LayoutEntry { binding: 0, visibility: Visibility::VertexFragment, kind: BindingKind::UniformBuffer }
    );
    assert_eq!(
        storage(3, true),
        LayoutEntry {
            binding: 3,
            visibility: Visibility::Compute,
            kind: BindingKind::StorageBuffer { read_only: true },
        }
    );
    assert_eq!(storage(3, false).kind, BindingKind::StorageBuffer { read_only: false });
    assert_eq!(storage_texture(4).kind, BindingKind::WriteOnlyRgba8StorageTexture);
    assert_eq!(compute_texture_float(5).visibility, Visibility::Compute);
    assert_eq!(compute_texture_float(5).kind, BindingKind::FloatTexture);
    assert_eq!(compute_texture_uint(6).kind, BindingKind::UintTexture);
}

#[test]
fn buffer_layout_collects_attributes() {
    let layout = BufferLayout::new();
    assert_eq!(layout.array_stride(), 0);
    assert_eq!(layout.vertex_step_mode(), StepMode::Vertex);
    let layout = layout
        .attribute(0, 0, wgpu::VertexFormat::Float32x2)
        .attribute(1, 8, wgpu::VertexFormat::Float32)
        .stride(12)
        .step_mode(StepMode::Instance);
    assert_eq!(layout.array_stride(), 12);
    assert_eq!(layout.vertex_step_mode(), StepMode::Instance);
    let attrs = layout.attributes();
    assert_eq!(attrs.len(), 2);
    assert_eq!((attrs[1].shader_location, attrs[1].offset), (1, 8));
    assert_eq!(attrs[0].format, wgpu::VertexFormat::Float32x2);
}

#[test]
fn render_pipeline_builder_defaults_and_settings() {
    let shader = Handle::new(3, 1);
    let b = RenderPipelineBuilder::new(shader);
    assert!(b.shader() == shader);
    assert_eq!(b.vs_entry(), "vs_main");
    assert_eq!(b.fs_entry(), "fs_main");
    assert!(b.writes_depth());
    assert!(b.depth_buffer_format().is_none());
    assert!(matches!(b.blend(), BlendMode::Alpha));
    assert!(!b.needs_depth_texture(false));
    let b = b
        .vs_entry_point("v")
        .fs_entry_point("f")
        .depth_format(wgpu::TextureFormat::Depth24Plus)
        .depth_writes_enabled(false)
        .material_layout(&[uniform(0), texture(1)])
        .vertex_layout(BufferLayout::new().stride(8))
        .additive_alpha_blending();
    assert_eq!((b.vs_entry(), b.fs_entry()), ("v", "f"));
    assert_eq!(b.depth_buffer_format(), Some(wgpu::TextureFormat::Depth24Plus));
    assert!(!b.writes_depth());
    assert_eq!(b.material_entries(), &vec![uniform(0), texture(1)]);
    assert_eq!(b.vertex_layouts().len(), 1);
    assert!(matches!(b.blend(), BlendMode::Additive));
    assert!(b.needs_depth_texture(false));
    assert!(!b.needs_depth_texture(true));
    let b = b.blend_mode(wgpu::BlendState::REPLACE);
    assert!(matches!(b.blend(), BlendMode::Custom(s) if *s == wgpu::BlendState::REPLACE));
}

#[test]
fn compute_pipeline_builder_defaults_and_settings() {
    let b = ComputePipelineBuilder::new(Handle::new(0, 0));
    assert_eq!(b.entry(), "cs_main");
    assert!(b.entries().is_empty());
    let b = b.entry_point("main").bind_group_layout(&[storage(0, false), storage_texture(1)]);
    assert_eq!(b.entry(), "main");
    assert_eq!(b.entries(), &vec![storage(0, false), storage_texture(1)]);
}

#[test]
fn texture_builder_defaults_and_settings() {
    let b = TextureBuilder::new();
    assert_eq!(b.extent(), TextureExtent { width: 128, height: 128, depth_or_array_layers: 1 });
    assert_eq!(b.texture_dimension(), TextureDimension::D2);
    assert!(matches!(b.format_setting(), TextureFormatSetting::Rgba8Unorm));
    assert!(matches!(b.usage_setting(), TextureUsageSetting::TextureBindingAndCopyDst));
    let b = b
        .size(TextureExtent { width: 8, height: 4, depth_or_array_layers: 2 })
        .dimension_3d()
        .format(wgpu::TextureFormat::R8Unorm)
        .usage(wgpu::TextureUsages::STORAGE_BINDING);
    assert_eq!(b.extent(), TextureExtent { width: 8, height: 4, depth_or_array_layers: 2 });
    assert_eq!(b.texture_dimension(), TextureDimension::D3);
    assert!(matches!(b.format_setting(), TextureFormatSetting::Given(wgpu::TextureFormat::R8Unorm)));
    assert!(matches!(b.usage_setting(), TextureUsageSetting::Given(u) if *u == wgpu::TextureUsages::STORAGE_BINDING));
    let d = TextureBuilder::default();
    assert_eq!(d.extent().width, 128);
}

#[test]
fn sampler_builder_defaults_and_settings() {
    assert!(matches!(SamplerBuilder::new().mag_filter(), FilterSetting::Linear));
    assert!(matches!(SamplerBuilder::default().mag_filter(), FilterSetting::Linear));
    let s = SamplerBuilder::new().filter_mode(wgpu::FilterMode::Nearest);
    assert!(matches!(s.mag_filter(), FilterSetting::Given(wgpu::FilterMode::Nearest)));
}

#[test]
fn surface_answers_decide_the_frame() {
    assert_eq!(surface_action(&SurfaceStatus::Success), SurfaceAction::Draw);
    assert_eq!(surface_action(&SurfaceStatus::Suboptimal), SurfaceAction::Draw);
    assert_eq!(surface_action(&SurfaceStatus::Timeout), SurfaceAction::Skip);
    assert_eq!(surface_action(&SurfaceStatus::Occluded), SurfaceAction::Skip);
    assert_eq!(surface_action(&SurfaceStatus::Validation), SurfaceAction::Skip);
    assert_eq!(surface_action(&SurfaceStatus::Outdated), SurfaceAction::ReconfigureAndSkip);
    assert_eq!(surface_action(&SurfaceStatus::Lost), SurfaceAction::ReconfigureAndSkip);
}

#[test]
fn copy_layout_packs_rows() {
    assert_eq!(copy_layout(4, 3, 2), CopyLayout { bytes_per_row: 12, rows_per_image: 2 });
    assert_eq!(copy_layout(1, 0, 5), CopyLayout { bytes_per_row: 0, rows_per_image: 5 });
}

#[test]
fn texture_upload_of_a_decoded_image() {
    let image = DecodedImage { width: 3, height: 2, rgba: vec![9; 24] };
    let upload = texture_upload(image);
    assert_eq!(upload.size, TextureExtent { width: 3, height: 2, depth_or_array_layers: 1 });
    assert_eq!(upload.layout, CopyLayout { bytes_per_row: 12, rows_per_image: 2 });
    assert_eq!(upload.rgba, vec![9; 24]);
}

fn png(width: u32, height: u32, pixel: [u8; 4]) -> Vec<u8> {
    let img = image::RgbaImage::from_pixel(width, height, image::Rgba(pixel));
    let mut bytes = std::io::Cursor::new(Vec::new());
    img.write_to(&mut bytes, image::ImageFormat::Png).expect("encodes");
    bytes.into_inner()
}

#[test]
fn loading_an_encoded_texture_decodes_it() {
    let upload = load_texture_upload(&png(2, 3, [1, 2, 3, 255])).ok().expect("decodes");
    assert_eq!(upload.size, TextureExtent { width: 2, height: 3, depth_or_array_layers: 1 });
    assert_eq!(upload.layout, CopyLayout { bytes_per_row: 8, rows_per_image: 3 });
    assert_eq!(upload.rgba.len(), 24);
    assert_eq!(&upload.rgba[..4], &[1, 2, 3, 255]);
}

#[test]
fn loading_garbage_is_a_decode_error() {
    assert!(matches!(load_texture_upload(&[0, 1, 2, 3]), Err(TextureLoadError::Decode(_))));
    assert!(matches!(load_texture_upload(&[]), Err(TextureLoadError::Decode(_))));
}

#[test]
fn blend_modes_have_their_equations() {
    let add = BlendOperation::Add;
    assert_eq!(
        BlendMode::Alpha.equations(),
        Some(BlendEquations {
            color: BlendComponent { src_factor: BlendFactor::SrcAlpha, dst_factor: BlendFactor::OneMinusSrcAlpha, operation: add },
            alpha: BlendComponent { src_factor: BlendFactor::One, dst_factor: BlendFactor::OneMinusSrcAlpha, operation: add },
        })
    );
    assert_eq!(
        BlendMode::Additive.equations(),
        Some(BlendEquations {
            color: BlendComponent { src_factor: BlendFactor::SrcAlpha, dst_factor: BlendFactor::One, operation: add },
            alpha: BlendComponent { src_factor: BlendFactor::One, dst_factor: BlendFactor::One, operation: add },
        })
    );
    assert_eq!(BlendMode::Custom(wgpu::BlendState::REPLACE).equations(), None);
    // The alpha mode's equations are wgpu's standard alpha blending.
    let alpha = wgpu::BlendState::ALPHA_BLENDING;
    assert_eq!(alpha.color.src_factor, wgpu::BlendFactor::SrcAlpha);
    assert_eq!(alpha.color.dst_factor, wgpu::BlendFactor::OneMinusSrcAlpha);
    assert_eq!(alpha.alpha.src_factor, wgpu::BlendFactor::One);
    assert_eq!(alpha.alpha.dst_factor, wgpu::BlendFactor::OneMinusSrcAlpha);
}

#[test]
fn upload_from_decoded_follows_the_decode_outcome() {
    let ok = upload_from_decoded(Ok(DecodedImage { width: 2, height: 1, rgba: vec![7; 8] }));
    let upload = ok.ok().expect("uploads");
    assert_eq!(upload.size, TextureExtent { width: 2, height: 1, depth_or_array_layers: 1 });
    assert_eq!(upload.layout, CopyLayout { bytes_per_row: 8, rows_per_image: 1 });
    assert_eq!(upload.rgba, vec![7; 8]);
    let too_wide = upload_from_decoded(Ok(DecodedImage { width: u32::MAX / 4 + 1, height: 1, rgba: vec![] }));
    assert!(matches!(too_wide, Err(TextureLoadError::RowTooLong)));
    let error = image::load_from_memory(&[1, 2, 3]).err().expect("not an image");
    assert!(matches!(upload_from_decoded(Err(error)), Err(TextureLoadError::Decode(_))));
}
