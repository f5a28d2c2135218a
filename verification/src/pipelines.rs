use vstd::prelude::*;
use crate::asset_manager::AssetManager;
use crate::handle::Handle;
use crate::layout::{BufferLayout, LayoutEntry};
use crate::plan::MissingAsset;

verus! {

/// How a render pipeline blends what it draws into its target.
pub enum BlendMode {
    /// Standard alpha blending.
    Alpha,
    /// Colour is added weighted by source alpha; alpha is added.
    Additive,
    /// A blend state chosen by the caller.
    Custom(wgpu::BlendState),
}

/// A factor that a term of a blend equation is multiplied by.
#[derive(Debug, Clone, Copy, PartialEq, Eq, Structural)]
pub enum BlendFactor {
    One,
    SrcAlpha,
    OneMinusSrcAlpha,
}

/// How the two terms of a blend equation are combined.
#[derive(Debug, Clone, Copy, PartialEq, Eq, Structural)]
pub enum BlendOperation {
    Add,
}

/// One blend equation: `src * src_factor (operation) dst * dst_factor`.
#[derive(Debug, Clone, Copy, PartialEq, Eq, Structural)]
pub struct BlendComponent {
    pub src_factor: BlendFactor,
    pub dst_factor: BlendFactor,
    pub operation: BlendOperation,
}

/// The blend equations for the colour channels and for alpha.
#[derive(Debug, Clone, Copy, PartialEq, Eq, Structural)]
pub struct BlendEquations {
    pub color: BlendComponent,
    pub alpha: BlendComponent,
}

/// The equations of a blend mode, unless the caller chose a blend state:
/// alpha blending mixes colour by source alpha and lays alpha over the
/// target; additive blending adds colour weighted by source alpha and adds
/// alpha.
pub open spec fn blend_equations(mode: BlendMode) -> Option<BlendEquations> {
    match mode {
        BlendMode::Alpha => Some(BlendEquations {
            color: BlendComponent {
                src_factor: BlendFactor::SrcAlpha,
                dst_factor: BlendFactor::OneMinusSrcAlpha,
                operation: BlendOperation::Add,
            },
            alpha: BlendComponent {
                src_factor: BlendFactor::One,
                dst_factor: BlendFactor::OneMinusSrcAlpha,
                operation: BlendOperation::Add,
            },
        }),
        BlendMode::Additive => Some(BlendEquations {
            color: BlendComponent {
                src_factor: BlendFactor::SrcAlpha,
                dst_factor: BlendFactor::One,
                operation: BlendOperation::Add,
            },
            alpha: BlendComponent {
                src_factor: BlendFactor::One,
                dst_factor: BlendFactor::One,
                operation: BlendOperation::Add,
            },
        }),
        BlendMode::Custom(_) => None,
    }
}

impl BlendMode {
    /// The blend equations of the mode (see [`blend_equations`]).
    pub fn equations(&self) -> (e: Option<BlendEquations>)
        ensures
            e == blend_equations(*self),
    {
        match self {
            BlendMode::Alpha => Some(BlendEquations {
                color: BlendComponent {
                    src_factor: BlendFactor::SrcAlpha,
                    dst_factor: BlendFactor::OneMinusSrcAlpha,
                    operation: BlendOperation::Add,
                },
                alpha: BlendComponent {
                    src_factor: BlendFactor::One,
                    dst_factor: BlendFactor::OneMinusSrcAlpha,
                    operation: BlendOperation::Add,
                },
            }),
            BlendMode::Additive => Some(BlendEquations {
                color: BlendComponent {
                    src_factor: BlendFactor::SrcAlpha,
                    dst_factor: BlendFactor::One,
                    operation: BlendOperation::Add,
                },
                alpha: BlendComponent {
                    src_factor: BlendFactor::One,
                    dst_factor: BlendFactor::One,
                    operation: BlendOperation::Add,
                },
            }),
            BlendMode::Custom(_) => None,
        }
    }
}

/// The settings of a render pipeline, before it is created.
pub struct RenderPipelineBuilder<'a> {
    shader: Handle<wgpu::ShaderModule>,
    vertex_layouts: Vec<BufferLayout>,
    depth_format: Option<wgpu::TextureFormat>,
    depth_writes_enabled: bool,
    material_entries: Vec<LayoutEntry>,
    blend: BlendMode,
    vs_entry: &'a str,
    fs_entry: &'a str,
}

/// The settings of a [`RenderPipelineBuilder`].
pub struct RenderPipelineBuilderView {
    pub shader: Handle<wgpu::ShaderModule>,
    pub vertex_layouts: Seq<BufferLayout>,
    pub depth_format: Option<wgpu::TextureFormat>,
    pub depth_writes_enabled: bool,
    pub material_entries: Seq<LayoutEntry>,
    pub blend: BlendMode,
    pub vs_entry: Seq<char>,
    pub fs_entry: Seq<char>,
}

impl<'a> View for RenderPipelineBuilder<'a> {
    type V = RenderPipelineBuilderView;

    closed spec fn view(&self) -> RenderPipelineBuilderView {
        RenderPipelineBuilderView {
            shader: self.shader,
            vertex_layouts: self.vertex_layouts@,
            depth_format: self.depth_format,
            depth_writes_enabled: self.depth_writes_enabled,
            material_entries: self.material_entries@,
            blend: self.blend,
            vs_entry: self.vs_entry@,
            fs_entry: self.fs_entry@,
        }
    }
}

impl<'a> RenderPipelineBuilder<'a> {
    /// A pipeline for the shader: no vertex layouts, no depth buffer (depth
    /// writes on should one be set), an empty material layout, alpha
    /// blending, and the entry points `vs_main` and `fs_main`.
    pub fn new(shader: Handle<wgpu::ShaderModule>) -> (b: Self)
        ensures
            b@ == (RenderPipelineBuilderView {
                shader,
                vertex_layouts: Seq::empty(),
                depth_format: None,
                depth_writes_enabled: true,
                material_entries: Seq::empty(),
                blend: BlendMode::Alpha,
                vs_entry: "vs_main"@,
                fs_entry: "fs_main"@,
            }),
    {
        let b = RenderPipelineBuilder {
            shader,
            vertex_layouts: Vec::new(),
            depth_format: None,
            depth_writes_enabled: true,
            material_entries: Vec::new(),
            blend: BlendMode::Alpha,
            vs_entry: "vs_main",
            fs_entry: "fs_main",
        };
        proof {
            assert(b@.vertex_layouts =~= Seq::<BufferLayout>::empty());
            assert(b@.material_entries =~= Seq::<LayoutEntry>::empty());
        }
        b
    }

    /// Materials of the pipeline bind the entries, in this order.
    pub fn material_layout(self, entries: &[LayoutEntry]) -> (b: Self)
        ensures
            b@ == (RenderPipelineBuilderView { material_entries: entries@, ..self@ }),
    {
        let mut b = self;
        b.material_entries = vstd::slice::slice_to_vec(entries);
        b
    }

    /// Also reads a vertex buffer of the layout, in the next buffer slot.
    pub fn vertex_layout(self, layout: BufferLayout) -> (b: Self)
        ensures
            b@ == (RenderPipelineBuilderView { vertex_layouts: self@.vertex_layouts.push(layout), ..self@ }),
    {
        let mut b = self;
        b.vertex_layouts.push(layout);
        b
    }

    /// Tests depth against a depth buffer of the format.
    pub fn depth_format(self, format: wgpu::TextureFormat) -> (b: Self)
        ensures
            b@ == (RenderPipelineBuilderView { depth_format: Some(format), ..self@ }),
    {
        let mut b = self;
        b.depth_format = Some(format);
        b
    }

    /// Writes depth or not.
    pub fn depth_writes_enabled(self, enabled: bool) -> (b: Self)
        ensures
            b@ == (RenderPipelineBuilderView { depth_writes_enabled: enabled, ..self@ }),
    {
        let mut b = self;
        b.depth_writes_enabled = enabled;
        b
    }

    /// Names the vertex shader entry point.
    pub fn vs_entry_point(self, entry: &'a str) -> (b: Self)
        ensures
            b@ == (RenderPipelineBuilderView { vs_entry: entry@, ..self@ }),
    {
        let mut b = self;
        b.vs_entry = entry;
        b
    }

    /// Names the fragment shader entry point.
    pub fn fs_entry_point(self, entry: &'a str) -> (b: Self)
        ensures
            b@ == (RenderPipelineBuilderView { fs_entry: entry@, ..self@ }),
    {
        let mut b = self;
        b.fs_entry = entry;
        b
    }

    /// Blends additively.
    pub fn additive_alpha_blending(self) -> (b: Self)
        ensures
            b@ == (RenderPipelineBuilderView { blend: BlendMode::Additive, ..self@ }),
    {
        let mut b = self;
        b.blend = BlendMode::Additive;
        b
    }

    /// Blends with the given state.
    pub fn blend_mode(self, blend_state: wgpu::BlendState) -> (b: Self)
        ensures
            b@ == (RenderPipelineBuilderView { blend: BlendMode::Custom(blend_state), ..self@ }),
    {
        let mut b = self;
        b.blend = BlendMode::Custom(blend_state);
        b
    }

    /// A depth texture has to be created first: the pipeline tests depth and
    /// the renderer has none yet.
    pub fn needs_depth_texture(&self, has_depth_texture: bool) -> (r: bool)
        ensures
            r == (self@.depth_format is Some && !has_depth_texture),
    {
        self.depth_format.is_some() && !has_depth_texture
    }

    /// The shader module the pipeline runs, or the missing shader.
    pub fn resolve_shader<'m>(&self, assets: &'m AssetManager) -> (r: Result<&'m wgpu::ShaderModule, MissingAsset>)
        ensures
            r is Ok <==> assets.shaders@.live(self@.shader),
            r matches Ok(s) ==> *s == assets.shaders@.get(self@.shader)->Some_0,
            r matches Err(e) ==> e == MissingAsset::Shader(self@.shader),
    {
        match assets.shaders.get(self.shader) {
            Some(s) => Ok(s),
            None => Err(MissingAsset::Shader(self.shader)),
        }
    }

    /// The shader handle.
    pub fn shader(&self) -> (h: Handle<wgpu::ShaderModule>)
        ensures
            h == self@.shader,
    {
        self.shader
    }

    /// The vertex buffer layouts, in slot order.
    pub fn vertex_layouts(&self) -> (l: &Vec<BufferLayout>)
        ensures
            l@ == self@.vertex_layouts,
    {
        &self.vertex_layouts
    }

    /// The depth buffer format, if depth is tested.
    pub fn depth_buffer_format(&self) -> (f: Option<wgpu::TextureFormat>)
        ensures
            f == self@.depth_format,
    {
        self.depth_format
    }

    /// Whether depth is written.
    pub fn writes_depth(&self) -> (w: bool)
        ensures
            w == self@.depth_writes_enabled,
    {
        self.depth_writes_enabled
    }

    /// The entries of the material bind group layout.
    pub fn material_entries(&self) -> (e: &Vec<LayoutEntry>)
        ensures
            e@ == self@.material_entries,
    {
        &self.material_entries
    }

    /// The blending.
    pub fn blend(&self) -> (m: &BlendMode)
        ensures
            *m == self@.blend,
    {
        &self.blend
    }

    /// The vertex shader entry point.
    pub fn vs_entry(&self) -> (s: &'a str)
        ensures
            s@ == self@.vs_entry,
    {
        self.vs_entry
    }

    /// The fragment shader entry point.
    pub fn fs_entry(&self) -> (s: &'a str)
        ensures
            s@ == self@.fs_entry,
    {
        self.fs_entry
    }
}

/// The settings of a compute pipeline, before it is created.
pub struct ComputePipelineBuilder<'a> {
    shader: Handle<wgpu::ShaderModule>,
    entries: Vec<LayoutEntry>,
    entry_point: &'a str,
}

/// The settings of a [`ComputePipelineBuilder`].
pub struct ComputePipelineBuilderView {
    pub shader: Handle<wgpu::ShaderModule>,
    pub entries: Seq<LayoutEntry>,
    pub entry_point: Seq<char>,
}

impl<'a> View for ComputePipelineBuilder<'a> {
    type V = ComputePipelineBuilderView;

    closed spec fn view(&self) -> ComputePipelineBuilderView {
        ComputePipelineBuilderView { shader: self.shader, entries: self.entries@, entry_point: self.entry_point@ }
    }
}

impl<'a> ComputePipelineBuilder<'a> {
    /// A pipeline for the shader, with an empty bind group layout and the
    /// entry point `cs_main`.
    pub fn new(shader: Handle<wgpu::ShaderModule>) -> (b: Self)
        ensures
            b@ == (ComputePipelineBuilderView { shader, entries: Seq::empty(), entry_point: "cs_main"@ }),
    {
        let b = ComputePipelineBuilder { shader, entries: Vec::new(), entry_point: "cs_main" };
        proof {
            assert(b@.entries =~= Seq::<LayoutEntry>::empty());
        }
        b
    }

    /// Names the entry point.
    pub fn entry_point(self, entry_point: &'a str) -> (b: Self)
        ensures
            b@ == (ComputePipelineBuilderView { entry_point: entry_point@, ..self@ }),
    {
        let mut b = self;
        b.entry_point = entry_point;
        b
    }

    /// The bind group binds the entries, in this order.
    pub fn bind_group_layout(self, entries: &[LayoutEntry]) -> (b: Self)
        ensures
            b@ == (ComputePipelineBuilderView { entries: entries@, ..self@ }),
    {
        let mut b = self;
        b.entries = vstd::slice::slice_to_vec(entries);
        b
    }

    /// The shader module the pipeline runs, or the missing shader.
    pub fn resolve_shader<'m>(&self, assets: &'m AssetManager) -> (r: Result<&'m wgpu::ShaderModule, MissingAsset>)
        ensures
            r is Ok <==> assets.shaders@.live(self@.shader),
            r matches Ok(s) ==> *s == assets.shaders@.get(self@.shader)->Some_0,
            r matches Err(e) ==> e == MissingAsset::Shader(self@.shader),
    {
        match assets.shaders.get(self.shader) {
            Some(s) => Ok(s),
            None => Err(MissingAsset::Shader(self.shader)),
        }
    }

    /// The entries of the bind group layout.
    pub fn entries(&self) -> (e: &Vec<LayoutEntry>)
        ensures
            e@ == self@.entries,
    {
        &self.entries
    }

    /// The entry point.
    pub fn entry(&self) -> (s: &'a str)
        ensures
            s@ == self@.entry_point,
    {
        self.entry_point
    }
}

} // verus!
