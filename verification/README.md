# easy_gpu

A small wgpu helper that keeps rendering and compute assets in generational
arenas, records the draws and dispatches of a frame, and turns a recorded
frame into a plan in which every handle has been resolved.

## Layout

- `src/` — the library, verified with Verus:
  - `arena.rs`, `handle.rs`: the generational arena and its handles, with the
    laws that lookups, insertions and removals obey.
  - `frame.rs`: the recorded frame, its commands, and the stable sorts of its
    draws.
  - `plan.rs`, `bindings.rs`, `material.rs`, `compute.rs`: resolving a
    frame, a material or a compute bind group against the stored assets,
    reporting the first handle that names nothing.
  - `layout.rs`, `pipelines.rs`, `texture.rs`: the settings of bind group
    layouts, vertex buffers, pipelines, textures and samplers; decoding an
    encoded image into an upload.
  - `surface.rs`: what a frame does with the surface's answer.
  - `resources.rs`, `asset_manager.rs`: the stored GPU resources.
- `app/` — the renderer that owns the device, queue and window surface:
  it creates resources, converts the library's descriptions into wgpu
  descriptors, and encodes a frame plan into GPU commands.
- `tests/` — tests of the library; the ones that need GPU objects use wgpu's
  no-op backend.
