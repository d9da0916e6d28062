//! The multi-pass frame recorder.
//!
//! A frame is recorded, not executed: `draw` appends to a command
//! encoder one depth-only pass per cube face per shadow caster,
//! followed by one color pass holding the skybox draw and then the
//! opaque draws.  The exact recorded sequence is pinned down by the
//! spec functions below, so the pass order and the per-entity draw
//! calls are part of the contract.

use vstd::prelude::*;
use crate::camera::Camera;
use crate::device::{Device, Extent, Pipeline};
use crate::layout::{LayoutKind, LayoutRegistry};
use crate::light_manager::{LightManager, ShadowCaster, CUBE_FACES};
use crate::model;
use crate::world::World;

verus! {

/// Vertices of the skybox cube, drawn without indices.
pub const SKYBOX_VERTEX_COUNT: u32 = 36;

/// Bit pattern of the 64-bit floating-point value one.
pub const F64_ONE_BITS: u64 = 0x3ff0000000000000;

/// A color as four 64-bit floating-point bit patterns.
#[derive(Clone, Copy, Debug, PartialEq, Eq, Structural)]
pub struct ClearColor {
    pub r: u64,
    pub g: u64,
    pub b: u64,
    pub a: u64,
}

/// One recorded command inside a pass.
#[derive(Clone, Copy, Debug, PartialEq, Eq, Structural)]
pub enum DrawCommand {
    SetPipeline { pipeline: u64 },
    SetBindGroup { slot: u32, group: u64 },
    SetVertexBuffer { buffer: u64 },
    SetIndexBuffer { buffer: u64 },
    DrawIndexed { indices: u32 },
    Draw { vertices: u32 },
}

/// The attachments a pass writes.
#[derive(Clone, Copy, Debug, PartialEq, Eq, Structural)]
pub enum PassTarget {
    /// A depth-only pass, cleared to maximum depth; no color target.
    DepthOnly { depth: u64 },
    /// One color target cleared to the given color plus one depth
    /// target cleared to maximum depth.
    ColorAndDepth { color: u64, depth: u64, clear: ClearColor },
}

/// One recorded pass: its attachments and its commands, in order.
pub struct RenderPass {
    pub target: PassTarget,
    pub commands: Vec<DrawCommand>,
}

/// The mathematical image of a recorded pass.
#[verifier::ext_equal]
pub struct SpecPass {
    pub target: PassTarget,
    pub commands: Seq<DrawCommand>,
}

impl View for RenderPass {
    type V = SpecPass;

    open spec fn view(&self) -> SpecPass {
        SpecPass { target: self.target, commands: self.commands@ }
    }
}

/// The per-frame command recorder: the passes recorded so far.
pub struct CommandEncoder {
    pub passes: Vec<RenderPass>,
}

impl View for CommandEncoder {
    type V = Seq<SpecPass>;

    open spec fn view(&self) -> Seq<SpecPass> {
        self.passes@.map_values(|p: RenderPass| p@)
    }
}

impl CommandEncoder {
    /// Appends one recorded pass.
    fn push_pass(&mut self, pass: RenderPass)
        ensures
            final(self)@ == old(self)@.push(pass@),
    {
        let ghost p = pass@;
        let ghost pre = self.passes@;
        self.passes.push(pass);
        proof {
            pre.lemma_push_map_commute(|q: RenderPass| q@, self.passes@.last());
            assert(self@ =~~= old(self)@.push(p));
        }
    }

    pub fn new() -> (e: CommandEncoder)
        ensures
            e@ == Seq::<SpecPass>::empty(),
    {
        let e = CommandEncoder { passes: Vec::new() };
        proof {
            assert(e@ =~= Seq::<SpecPass>::empty());
        }
        e
    }
}

/// Surface-level acquisition failures; recovery is the caller's
/// policy decision (reconfigure on a transient error, terminate when
/// the device is out of memory).
#[derive(Clone, Copy, Debug, PartialEq, Eq, Structural)]
pub enum SurfaceError {
    Lost,
    Outdated,
    OutOfMemory,
    Timeout,
}

/// The skybox's device state: a cube vertex buffer and the descriptor
/// set with the cube texture.
#[derive(Clone, Copy, Debug, PartialEq, Eq, Structural)]
pub struct Skybox {
    pub vertex_buffer: u64,
    pub bind_group: u64,
}

/// What a frame reads: the entity store, the shadow-casting lights,
/// and the skybox.
pub struct Scene {
    pub world: World,
    pub light_manager: LightManager,
    pub skybox: Option<Skybox>,
}

impl Scene {
    pub open spec fn wf(&self) -> bool {
        &&& self.world.wf()
        &&& self.light_manager.wf()
        &&& self.skybox is Some
    }
}

/// The surface's configuration: the dimensions the swap surface was
/// configured with.
#[derive(Clone, Copy, Debug, PartialEq, Eq, Structural)]
pub struct SurfaceConfig {
    pub width: u32,
    pub height: u32,
}

/// The frame's shared depth attachment.
#[derive(Clone, Copy, Debug, PartialEq, Eq, Structural)]
pub struct DepthTexture {
    pub view: u64,
    pub extent: Extent,
}

/// Allocates the frame's depth texture at the given extent: a color
/// -resolve view and the depth attachment itself.
pub fn create_depth_texture(device: &mut Device, extent: Extent) -> (r: (u64, DepthTexture))
    requires
        old(device).next_id + 2 <= u64::MAX,
    ensures
        r.0 == old(device).next_id,
        r.1.view == old(device).next_id + 1,
        r.1.extent == extent,
        final(device).next_id == old(device).next_id + 2,
{
    let texture_view = device.create_texture_view();
    let depth_view = device.create_texture_view();
    (texture_view, DepthTexture { view: depth_view, extent })
}

/// The three pipelines, the shared depth attachment and the clear
/// color.  Constructed once the layout registry is initialized; after
/// construction it is ready to record frames, one `draw` per frame.
pub struct Renderer {
    pub clear_color: ClearColor,
    pub texture_view: u64,
    pub depth_texture: DepthTexture,
    pub camera_bind_group_layout: u64,
    pub render_pipeline: Pipeline,
    pub light_pipeline: Pipeline,
    pub skybox_pipeline: Pipeline,
}

impl Renderer {
    /// Builds the three pipelines against the named layouts (which
    /// must already exist: pipelines read the registry, never write
    /// it) and the shared depth attachment.
    pub fn new(device: &mut Device, config: &SurfaceConfig, extent: Extent, layouts: &LayoutRegistry) -> (r:
        Renderer)
        requires
            layouts.initialized(),
            old(device).next_id + 5 <= u64::MAX,
        ensures
            r.clear_color == (ClearColor { r: 0, g: 0, b: 0, a: F64_ONE_BITS }),
            r.depth_texture.extent == extent,
            r.camera_bind_group_layout == layouts.layout_spec(LayoutKind::Camera),
            r.render_pipeline.layouts@ == seq![
                layouts.layout_spec(LayoutKind::Transform),
                layouts.layout_spec(LayoutKind::Camera),
                layouts.layout_spec(LayoutKind::Material),
                layouts.layout_spec(LayoutKind::Light),
            ],
            r.light_pipeline.layouts@ == seq![
                layouts.layout_spec(LayoutKind::Shadow),
                layouts.layout_spec(LayoutKind::Transform),
            ],
            r.skybox_pipeline.layouts@ == seq![layouts.layout_spec(LayoutKind::Skybox)],
            r.render_pipeline.id != r.light_pipeline.id,
            r.light_pipeline.id != r.skybox_pipeline.id,
            r.render_pipeline.id != r.skybox_pipeline.id,
            final(device).next_id == old(device).next_id + 5,
    {
        let clear_color = ClearColor { r: 0, g: 0, b: 0, a: F64_ONE_BITS };
        let (texture_view, depth_texture) = create_depth_texture(device, extent);
        let camera_bind_group_layout = layouts.get_camera_layout();

        let mut render_layouts: Vec<u64> = Vec::new();
        render_layouts.push(layouts.get_transform_layout());
        render_layouts.push(layouts.get_camera_layout());
        render_layouts.push(layouts.get_material_layout());
        render_layouts.push(layouts.get_light_layout());
        let render_pipeline = device.create_pipeline(render_layouts);

        let mut light_layouts: Vec<u64> = Vec::new();
        light_layouts.push(layouts.get_shadow_layout());
        light_layouts.push(layouts.get_transform_layout());
        let light_pipeline = device.create_pipeline(light_layouts);

        let mut skybox_layouts: Vec<u64> = Vec::new();
        skybox_layouts.push(layouts.get_skybox_layout());
        let skybox_pipeline = device.create_pipeline(skybox_layouts);

        proof {
            assert(render_pipeline.layouts@ =~= seq![
                layouts.layout_spec(LayoutKind::Transform),
                layouts.layout_spec(LayoutKind::Camera),
                layouts.layout_spec(LayoutKind::Material),
                layouts.layout_spec(LayoutKind::Light),
            ]);
            assert(light_pipeline.layouts@ =~= seq![
                layouts.layout_spec(LayoutKind::Shadow),
                layouts.layout_spec(LayoutKind::Transform),
            ]);
            assert(skybox_pipeline.layouts@ =~= seq![layouts.layout_spec(LayoutKind::Skybox)]);
        }
        Renderer {
            clear_color,
            texture_view,
            depth_texture,
            camera_bind_group_layout,
            render_pipeline,
            light_pipeline,
            skybox_pipeline,
        }
    }

    /// Recreates the depth attachment at the new extent; pipelines and
    /// layouts are untouched.  Only called between frames.
    pub fn resize(&mut self, device: &mut Device, extent: Extent)
        requires
            old(device).next_id + 2 <= u64::MAX,
        ensures
            final(self).depth_texture.extent == extent,
            final(self).clear_color == old(self).clear_color,
            final(self).camera_bind_group_layout == old(self).camera_bind_group_layout,
            final(self).render_pipeline == old(self).render_pipeline,
            final(self).light_pipeline == old(self).light_pipeline,
            final(self).skybox_pipeline == old(self).skybox_pipeline,
            final(device).next_id == old(device).next_id + 2,
    {
        let (texture_view, depth_texture) = create_depth_texture(device, extent);
        self.texture_view = texture_view;
        self.depth_texture = depth_texture;
    }
}

// What a frame records, stated bottom-up: commands per sub-mesh, per
// entity, per pass, passes per caster, and finally the whole frame.

/// A depth-only draw of one sub-mesh.
pub open spec fn mesh_shadow_cmds(m: model::Mesh) -> Seq<DrawCommand> {
    seq![
        DrawCommand::SetVertexBuffer { buffer: m.vertex_buffer },
        DrawCommand::SetIndexBuffer { buffer: m.index_buffer },
        DrawCommand::DrawIndexed { indices: m.element_count },
    ]
}

/// Depth-only draws of the first `n` sub-meshes, in order.
pub open spec fn meshes_shadow_cmds(meshes: Seq<model::Mesh>, n: int) -> Seq<DrawCommand>
    decreases n,
{
    if n <= 0 {
        Seq::empty()
    } else {
        meshes_shadow_cmds(meshes, n - 1) + mesh_shadow_cmds(meshes[n - 1])
    }
}

/// One entity's contribution to a shadow pass: bind its transform,
/// then draw every sub-mesh of its mesh.
pub open spec fn entity_shadow_cmds(w: World, e: int) -> Seq<DrawCommand> {
    let t = w.transforms@[e]->Some_0;
    let meshes = w.meshes@[e]->Some_0.mesh@;
    seq![DrawCommand::SetBindGroup { slot: 1, group: t.bind_group.id }] + meshes_shadow_cmds(
        meshes,
        meshes.len() as int,
    )
}

/// The shadow-pass contributions of the first `n` entities: exactly
/// the renderable ones, in entity order.
pub open spec fn entities_shadow_cmds(w: World, n: int) -> Seq<DrawCommand>
    decreases n,
{
    if n <= 0 {
        Seq::empty()
    } else if w.is_renderable(n - 1) {
        entities_shadow_cmds(w, n - 1) + entity_shadow_cmds(w, n - 1)
    } else {
        entities_shadow_cmds(w, n - 1)
    }
}

/// One cube face's depth-only pass: the shadow pipeline, the face's
/// descriptor set, then every renderable entity.
pub open spec fn shadow_face_cmds(r: Renderer, w: World, face_group: u64) -> Seq<DrawCommand> {
    seq![
        DrawCommand::SetPipeline { pipeline: r.light_pipeline.id },
        DrawCommand::SetBindGroup { slot: 0, group: face_group },
    ] + entities_shadow_cmds(w, w.num_entities())
}

/// The first `n` cube-face passes of one caster, in face order.
pub open spec fn caster_shadow_passes(r: Renderer, w: World, c: ShadowCaster, n: int) -> Seq<
    SpecPass,
>
    decreases n,
{
    if n <= 0 {
        Seq::empty()
    } else {
        caster_shadow_passes(r, w, c, n - 1).push(
            SpecPass {
                target: PassTarget::DepthOnly { depth: c.views@[n - 1] },
                commands: shadow_face_cmds(r, w, c.bind_groups@[n - 1].id),
            },
        )
    }
}

/// All cube-face passes of the first `n` casters, in caster order.
pub open spec fn casters_shadow_passes(r: Renderer, lm: LightManager, w: World, n: int) -> Seq<
    SpecPass,
>
    decreases n,
{
    if n <= 0 {
        Seq::empty()
    } else {
        casters_shadow_passes(r, lm, w, n - 1) + caster_shadow_passes(
            r,
            w,
            lm.point_shadows@[n - 1],
            CUBE_FACES as int,
        )
    }
}

/// An opaque draw of one sub-mesh with its entity's material bound as
/// the per-draw resource set.
pub open spec fn mesh_opaque_cmds(m: model::Mesh, material_group: u64) -> Seq<DrawCommand> {
    seq![
        DrawCommand::SetVertexBuffer { buffer: m.vertex_buffer },
        DrawCommand::SetIndexBuffer { buffer: m.index_buffer },
        DrawCommand::SetBindGroup { slot: 2, group: material_group },
        DrawCommand::DrawIndexed { indices: m.element_count },
    ]
}

/// Opaque draws of the first `n` sub-meshes, in order.
pub open spec fn meshes_opaque_cmds(meshes: Seq<model::Mesh>, material_group: u64, n: int) -> Seq<
    DrawCommand,
>
    decreases n,
{
    if n <= 0 {
        Seq::empty()
    } else {
        meshes_opaque_cmds(meshes, material_group, n - 1) + mesh_opaque_cmds(
            meshes[n - 1],
            material_group,
        )
    }
}

/// One entity's contribution to the opaque pass: bind its transform,
/// then draw every sub-mesh with the entity's material.
pub open spec fn entity_opaque_cmds(w: World, e: int) -> Seq<DrawCommand> {
    let t = w.transforms@[e]->Some_0;
    let meshes = w.meshes@[e]->Some_0.mesh@;
    let material_group = w.materials@[e]->Some_0.bind_group;
    seq![DrawCommand::SetBindGroup { slot: 0, group: t.bind_group.id }] + meshes_opaque_cmds(
        meshes,
        material_group,
        meshes.len() as int,
    )
}

/// The opaque-pass contributions of the first `n` entities: exactly
/// the renderable ones, in entity order.
pub open spec fn entities_opaque_cmds(w: World, n: int) -> Seq<DrawCommand>
    decreases n,
{
    if n <= 0 {
        Seq::empty()
    } else if w.is_renderable(n - 1) {
        entities_opaque_cmds(w, n - 1) + entity_opaque_cmds(w, n - 1)
    } else {
        entities_opaque_cmds(w, n - 1)
    }
}

/// The frame's one color pass: the skybox drawn first as a fixed
/// 36-vertex cube, then the opaque pipeline with camera and aggregate
/// light state bound once, then every renderable entity.
pub open spec fn main_pass_cmds(r: Renderer, scene: Scene, camera: Camera) -> Seq<DrawCommand> {
    seq![
        DrawCommand::SetPipeline { pipeline: r.skybox_pipeline.id },
        DrawCommand::SetBindGroup { slot: 0, group: scene.skybox->Some_0.bind_group },
        DrawCommand::SetVertexBuffer { buffer: scene.skybox->Some_0.vertex_buffer },
        DrawCommand::Draw { vertices: SKYBOX_VERTEX_COUNT },
        DrawCommand::SetPipeline { pipeline: r.render_pipeline.id },
        DrawCommand::SetBindGroup { slot: 1, group: camera.bind_group.id },
        DrawCommand::SetBindGroup { slot: 3, group: scene.light_manager.bind_group.id },
    ] + entities_opaque_cmds(scene.world, scene.world.num_entities())
}

/// Everything one frame records, in order: the shadow passes of every
/// caster, then the single color pass shared by skybox and opaque
/// draws.
pub open spec fn frame_passes(r: Renderer, view: u64, scene: Scene, camera: Camera) -> Seq<
    SpecPass,
> {
    casters_shadow_passes(
        r,
        scene.light_manager,
        scene.world,
        scene.light_manager.point_shadows@.len() as int,
    ) + seq![
        SpecPass {
            target: PassTarget::ColorAndDepth {
                color: view,
                depth: r.depth_texture.view,
                clear: r.clear_color,
            },
            commands: main_pass_cmds(r, scene, camera),
        },
    ]
}

/// Appends one entity's shadow commands.
fn record_entity_shadow(cmds: &mut Vec<DrawCommand>, w: &World, e: usize)
    requires
        w.wf(),
        e < w.num_entities(),
        w.is_renderable(e as int),
    ensures
        final(cmds)@ == old(cmds)@ + entity_shadow_cmds(*w, e as int),
{
    let t = w.transforms[e].as_ref().unwrap();
    cmds.push(DrawCommand::SetBindGroup { slot: 1, group: t.bind_group.id });
    let mc = w.meshes[e].as_ref().unwrap();
    let ghost meshes = mc.mesh@;
    let count = mc.mesh.len();
    let mut j: usize = 0;
    while j < count
        invariant
            j <= count,
            count == meshes.len(),
            meshes == mc.mesh@,
            cmds@ == old(cmds)@ + seq![
                DrawCommand::SetBindGroup { slot: 1, group: t.bind_group.id },
            ] + meshes_shadow_cmds(meshes, j as int),
        decreases count - j,
    {
        let m = &mc.mesh[j];
        cmds.push(DrawCommand::SetVertexBuffer { buffer: m.vertex_buffer });
        cmds.push(DrawCommand::SetIndexBuffer { buffer: m.index_buffer });
        cmds.push(DrawCommand::DrawIndexed { indices: m.element_count });
        j = j + 1;
        proof {
            assert(cmds@ =~= old(cmds)@ + seq![
                DrawCommand::SetBindGroup { slot: 1, group: t.bind_group.id },
            ] + meshes_shadow_cmds(meshes, j as int));
        }
    }
    proof {
        assert(cmds@ =~= old(cmds)@ + entity_shadow_cmds(*w, e as int));
    }
}

/// Appends every renderable entity's shadow commands, in entity order.
fn record_entities_shadow(cmds: &mut Vec<DrawCommand>, w: &World)
    requires
        w.wf(),
    ensures
        final(cmds)@ == old(cmds)@ + entities_shadow_cmds(*w, w.num_entities()),
{
    let n = w.num_entities_exec();
    let mut e: usize = 0;
    while e < n
        invariant
            e <= n,
            n == w.num_entities(),
            w.wf(),
            cmds@ == old(cmds)@ + entities_shadow_cmds(*w, e as int),
        decreases n - e,
    {
        if w.renderable(e) {
            record_entity_shadow(cmds, w, e);
        }
        e = e + 1;
        proof {
            assert(cmds@ =~= old(cmds)@ + entities_shadow_cmds(*w, e as int));
        }
    }
}

/// Appends one entity's opaque commands.
fn record_entity_opaque(cmds: &mut Vec<DrawCommand>, w: &World, e: usize)
    requires
        w.wf(),
        e < w.num_entities(),
        w.is_renderable(e as int),
    ensures
        final(cmds)@ == old(cmds)@ + entity_opaque_cmds(*w, e as int),
{
    let t = w.transforms[e].as_ref().unwrap();
    cmds.push(DrawCommand::SetBindGroup { slot: 0, group: t.bind_group.id });
    let mc = w.meshes[e].as_ref().unwrap();
    let material_group = w.materials[e].as_ref().unwrap().bind_group;
    let ghost meshes = mc.mesh@;
    let count = mc.mesh.len();
    let mut j: usize = 0;
    while j < count
        invariant
            j <= count,
            count == meshes.len(),
            meshes == mc.mesh@,
            material_group == w.materials@[e as int]->Some_0.bind_group,
            cmds@ == old(cmds)@ + seq![
                DrawCommand::SetBindGroup { slot: 0, group: t.bind_group.id },
            ] + meshes_opaque_cmds(meshes, material_group, j as int),
        decreases count - j,
    {
        let m = &mc.mesh[j];
        cmds.push(DrawCommand::SetVertexBuffer { buffer: m.vertex_buffer });
        cmds.push(DrawCommand::SetIndexBuffer { buffer: m.index_buffer });
        cmds.push(DrawCommand::SetBindGroup { slot: 2, group: material_group });
        cmds.push(DrawCommand::DrawIndexed { indices: m.element_count });
        j = j + 1;
        proof {
            assert(cmds@ =~= old(cmds)@ + seq![
                DrawCommand::SetBindGroup { slot: 0, group: t.bind_group.id },
            ] + meshes_opaque_cmds(meshes, material_group, j as int));
        }
    }
    proof {
        assert(cmds@ =~= old(cmds)@ + entity_opaque_cmds(*w, e as int));
    }
}

/// Appends every renderable entity's opaque commands, in entity order.
fn record_entities_opaque(cmds: &mut Vec<DrawCommand>, w: &World)
    requires
        w.wf(),
    ensures
        final(cmds)@ == old(cmds)@ + entities_opaque_cmds(*w, w.num_entities()),
{
    let n = w.num_entities_exec();
    let mut e: usize = 0;
    while e < n
        invariant
            e <= n,
            n == w.num_entities(),
            w.wf(),
            cmds@ == old(cmds)@ + entities_opaque_cmds(*w, e as int),
        decreases n - e,
    {
        if w.renderable(e) {
            record_entity_opaque(cmds, w, e);
        }
        e = e + 1;
        proof {
            assert(cmds@ =~= old(cmds)@ + entities_opaque_cmds(*w, e as int));
        }
    }
}

impl Renderer {
    /// Records one cube face's depth-only pass.
    fn shadow_face_pass(&self, w: &World, face_view: u64, face_group: u64) -> (p: RenderPass)
        requires
            w.wf(),
        ensures
            p@ == (SpecPass {
                target: PassTarget::DepthOnly { depth: face_view },
                commands: shadow_face_cmds(*self, *w, face_group),
            }),
    {
        let mut cmds: Vec<DrawCommand> = Vec::new();
        cmds.push(DrawCommand::SetPipeline { pipeline: self.light_pipeline.id });
        cmds.push(DrawCommand::SetBindGroup { slot: 0, group: face_group });
        record_entities_shadow(&mut cmds, w);
        proof {
            assert(cmds@ =~= shadow_face_cmds(*self, *w, face_group));
        }
        RenderPass { target: PassTarget::DepthOnly { depth: face_view }, commands: cmds }
    }

    /// Records one frame: per caster, one depth-only pass per cube
    /// face over every renderable entity; then one color pass that
    /// draws the skybox behind everything and then every renderable
    /// entity with camera and aggregate light state bound once.  The
    /// recorded passes are exactly `frame_passes`, appended in order
    /// to whatever the encoder already holds.
    pub fn draw(&self, view: u64, scene: &Scene, camera: &Camera, encoder: &mut CommandEncoder)
        -> (r: Result<(), SurfaceError>)
        requires
            scene.wf(),
        ensures
            r is Ok,
            final(encoder)@ == old(encoder)@ + frame_passes(*self, view, *scene, *camera),
    {
        let n_casters = scene.light_manager.point_shadows.len();
        let mut ci: usize = 0;
        while ci < n_casters
            invariant
                ci <= n_casters,
                n_casters == scene.light_manager.point_shadows@.len(),
                scene.wf(),
                encoder@ == old(encoder)@ + casters_shadow_passes(
                    *self,
                    scene.light_manager,
                    scene.world,
                    ci as int,
                ),
            decreases n_casters - ci,
        {
            let ghost caster_snap = scene.light_manager.point_shadows@[ci as int];
            let mut face: usize = 0;
            while face < CUBE_FACES
                invariant
                    face <= CUBE_FACES,
                    ci < n_casters,
                    n_casters == scene.light_manager.point_shadows@.len(),
                    scene.wf(),
                    caster_snap == scene.light_manager.point_shadows@[ci as int],
                    encoder@ == old(encoder)@ + casters_shadow_passes(
                        *self,
                        scene.light_manager,
                        scene.world,
                        ci as int,
                    ) + caster_shadow_passes(*self, scene.world, caster_snap, face as int),
                decreases CUBE_FACES - face,
            {
                let caster = &scene.light_manager.point_shadows[ci];
                let pass = self.shadow_face_pass(
                    &scene.world,
                    caster.views[face],
                    caster.bind_groups[face].id,
                );
                encoder.push_pass(pass);
                face = face + 1;
                proof {
                    assert(encoder@ =~~= old(encoder)@ + casters_shadow_passes(
                        *self,
                        scene.light_manager,
                        scene.world,
                        ci as int,
                    ) + caster_shadow_passes(*self, scene.world, caster_snap, face as int));
                }
            }
            ci = ci + 1;
            proof {
                assert(encoder@ =~~= old(encoder)@ + casters_shadow_passes(
                    *self,
                    scene.light_manager,
                    scene.world,
                    ci as int,
                ));
            }
        }
        let skybox = scene.skybox.as_ref().unwrap();
        let mut cmds: Vec<DrawCommand> = Vec::new();
        cmds.push(DrawCommand::SetPipeline { pipeline: self.skybox_pipeline.id });
        cmds.push(DrawCommand::SetBindGroup { slot: 0, group: skybox.bind_group });
        cmds.push(DrawCommand::SetVertexBuffer { buffer: skybox.vertex_buffer });
        cmds.push(DrawCommand::Draw { vertices: SKYBOX_VERTEX_COUNT });
        cmds.push(DrawCommand::SetPipeline { pipeline: self.render_pipeline.id });
        cmds.push(DrawCommand::SetBindGroup { slot: 1, group: camera.bind_group.id });
        cmds.push(DrawCommand::SetBindGroup { slot: 3, group: scene.light_manager.bind_group.id });
        record_entities_opaque(&mut cmds, &scene.world);
        proof {
            assert(cmds@ =~= main_pass_cmds(*self, *scene, *camera));
        }
        let pass = RenderPass {
            target: PassTarget::ColorAndDepth {
                color: view,
                depth: self.depth_texture.view,
                clear: self.clear_color,
            },
            commands: cmds,
        };
        encoder.push_pass(pass);
        proof {
            assert(encoder@ =~~= old(encoder)@ + frame_passes(*self, view, *scene, *camera));
        }
        Ok(())
    }
}

// How many draw calls a frame issues, and in what pass order: the
// counting function, then the lemmas that pin the totals down.

/// True of the commands that issue a draw call.
pub open spec fn is_draw_cmd(c: DrawCommand) -> bool {
    c is DrawIndexed || c is Draw
}

/// Number of draw calls in a command sequence.
pub open spec fn draw_count_cmds(s: Seq<DrawCommand>) -> int
    decreases s.len(),
{
    if s.len() == 0 {
        0
    } else {
        draw_count_cmds(s.drop_last()) + if is_draw_cmd(s.last()) {
            1int
        } else {
            0int
        }
    }
}

/// Number of draw calls in a pass sequence.
pub open spec fn draw_count_passes(s: Seq<SpecPass>) -> int
    decreases s.len(),
{
    if s.len() == 0 {
        0
    } else {
        draw_count_passes(s.drop_last()) + draw_count_cmds(s.last().commands)
    }
}

/// Sub-meshes the passes draw per entity pass: the sum, over the
/// renderable entities among the first `n`, of their mesh's sub-mesh
/// count.
pub open spec fn submesh_total(w: World, n: int) -> int
    decreases n,
{
    if n <= 0 {
        0
    } else {
        submesh_total(w, n - 1) + if w.is_renderable(n - 1) {
            w.meshes@[n - 1]->Some_0.mesh@.len() as int
        } else {
            0int
        }
    }
}

/// Draw calls add up over concatenation.
pub proof fn lemma_draw_count_cmds_add(a: Seq<DrawCommand>, b: Seq<DrawCommand>)
    ensures
        draw_count_cmds(a + b) == draw_count_cmds(a) + draw_count_cmds(b),
    decreases b.len(),
{
    if b.len() == 0 {
        assert(a + b =~= a);
    } else {
        assert((a + b).drop_last() =~= a + b.drop_last());
        lemma_draw_count_cmds_add(a, b.drop_last());
    }
}

/// A depth-only draw of one sub-mesh is exactly one draw call.
proof fn lemma_count_mesh_shadow(m: model::Mesh)
    ensures
        draw_count_cmds(mesh_shadow_cmds(m)) == 1,
{
    reveal_with_fuel(draw_count_cmds, 4);
    let s = mesh_shadow_cmds(m);
    assert(s.drop_last() =~= seq![
        DrawCommand::SetVertexBuffer { buffer: m.vertex_buffer },
        DrawCommand::SetIndexBuffer { buffer: m.index_buffer },
    ]);
    assert(s.drop_last().drop_last() =~= seq![
        DrawCommand::SetVertexBuffer { buffer: m.vertex_buffer },
    ]);
    assert(s.drop_last().drop_last().drop_last() =~= Seq::<DrawCommand>::empty());
}

/// An opaque draw of one sub-mesh is exactly one draw call.
proof fn lemma_count_mesh_opaque(m: model::Mesh, g: u64)
    ensures
        draw_count_cmds(mesh_opaque_cmds(m, g)) == 1,
{
    reveal_with_fuel(draw_count_cmds, 5);
    let s = mesh_opaque_cmds(m, g);
    assert(s.drop_last() =~= seq![
        DrawCommand::SetVertexBuffer { buffer: m.vertex_buffer },
        DrawCommand::SetIndexBuffer { buffer: m.index_buffer },
        DrawCommand::SetBindGroup { slot: 2, group: g },
    ]);
    assert(s.drop_last().drop_last() =~= seq![
        DrawCommand::SetVertexBuffer { buffer: m.vertex_buffer },
        DrawCommand::SetIndexBuffer { buffer: m.index_buffer },
    ]);
    assert(s.drop_last().drop_last().drop_last() =~= seq![
        DrawCommand::SetVertexBuffer { buffer: m.vertex_buffer },
    ]);
    assert(s.drop_last().drop_last().drop_last().drop_last() =~= Seq::<DrawCommand>::empty());
}

/// A shadow draw of the first `n` sub-meshes is `n` draw calls.
proof fn lemma_count_meshes_shadow(meshes: Seq<model::Mesh>, n: int)
    requires
        0 <= n <= meshes.len(),
    ensures
        draw_count_cmds(meshes_shadow_cmds(meshes, n)) == n,
    decreases n,
{
    if n > 0 {
        lemma_count_meshes_shadow(meshes, n - 1);
        lemma_draw_count_cmds_add(meshes_shadow_cmds(meshes, n - 1), mesh_shadow_cmds(
            meshes[n - 1],
        ));
        lemma_count_mesh_shadow(meshes[n - 1]);
    }
}

/// An opaque draw of the first `n` sub-meshes is `n` draw calls.
proof fn lemma_count_meshes_opaque(meshes: Seq<model::Mesh>, g: u64, n: int)
    requires
        0 <= n <= meshes.len(),
    ensures
        draw_count_cmds(meshes_opaque_cmds(meshes, g, n)) == n,
    decreases n,
{
    if n > 0 {
        lemma_count_meshes_opaque(meshes, g, n - 1);
        lemma_draw_count_cmds_add(meshes_opaque_cmds(meshes, g, n - 1), mesh_opaque_cmds(
            meshes[n - 1],
            g,
        ));
        lemma_count_mesh_opaque(meshes[n - 1], g);
    }
}

/// One entity's shadow commands issue one draw call per sub-mesh.
proof fn lemma_count_entity_shadow(w: World, e: int)
    requires
        w.is_renderable(e),
    ensures
        draw_count_cmds(entity_shadow_cmds(w, e)) == w.meshes@[e]->Some_0.mesh@.len(),
{
    reveal_with_fuel(draw_count_cmds, 2);
    let t = w.transforms@[e]->Some_0;
    let meshes = w.meshes@[e]->Some_0.mesh@;
    let bind = seq![DrawCommand::SetBindGroup { slot: 1, group: t.bind_group.id }];
    assert(bind.drop_last() =~= Seq::<DrawCommand>::empty());
    lemma_draw_count_cmds_add(bind, meshes_shadow_cmds(meshes, meshes.len() as int));
    lemma_count_meshes_shadow(meshes, meshes.len() as int);
}

/// One entity's opaque commands issue one draw call per sub-mesh.
proof fn lemma_count_entity_opaque(w: World, e: int)
    requires
        w.is_renderable(e),
    ensures
        draw_count_cmds(entity_opaque_cmds(w, e)) == w.meshes@[e]->Some_0.mesh@.len(),
{
    reveal_with_fuel(draw_count_cmds, 2);
    let t = w.transforms@[e]->Some_0;
    let meshes = w.meshes@[e]->Some_0.mesh@;
    let g = w.materials@[e]->Some_0.bind_group;
    let bind = seq![DrawCommand::SetBindGroup { slot: 0, group: t.bind_group.id }];
    assert(bind.drop_last() =~= Seq::<DrawCommand>::empty());
    lemma_draw_count_cmds_add(bind, meshes_opaque_cmds(meshes, g, meshes.len() as int));
    lemma_count_meshes_opaque(meshes, g, meshes.len() as int);
}

/// The entity sweep of a shadow pass issues one draw call per
/// renderable sub-mesh.
proof fn lemma_count_entities_shadow(w: World, n: int)
    ensures
        draw_count_cmds(entities_shadow_cmds(w, n)) == submesh_total(w, n),
    decreases n,
{
    if n > 0 {
        lemma_count_entities_shadow(w, n - 1);
        if w.is_renderable(n - 1) {
            lemma_draw_count_cmds_add(entities_shadow_cmds(w, n - 1), entity_shadow_cmds(w, n - 1));
            lemma_count_entity_shadow(w, n - 1);
        }
    }
}

/// The entity sweep of the opaque pass issues one draw call per
/// renderable sub-mesh.
proof fn lemma_count_entities_opaque(w: World, n: int)
    ensures
        draw_count_cmds(entities_opaque_cmds(w, n)) == submesh_total(w, n),
    decreases n,
{
    if n > 0 {
        lemma_count_entities_opaque(w, n - 1);
        if w.is_renderable(n - 1) {
            lemma_draw_count_cmds_add(entities_opaque_cmds(w, n - 1), entity_opaque_cmds(w, n - 1));
            lemma_count_entity_opaque(w, n - 1);
        }
    }
}

/// One cube-face pass issues one draw call per renderable sub-mesh.
proof fn lemma_count_shadow_face(r: Renderer, w: World, g: u64)
    ensures
        draw_count_cmds(shadow_face_cmds(r, w, g)) == submesh_total(w, w.num_entities()),
{
    reveal_with_fuel(draw_count_cmds, 3);
    let head = seq![
        DrawCommand::SetPipeline { pipeline: r.light_pipeline.id },
        DrawCommand::SetBindGroup { slot: 0, group: g },
    ];
    assert(head.drop_last() =~= seq![DrawCommand::SetPipeline { pipeline: r.light_pipeline.id }]);
    assert(head.drop_last().drop_last() =~= Seq::<DrawCommand>::empty());
    lemma_draw_count_cmds_add(head, entities_shadow_cmds(w, w.num_entities()));
    lemma_count_entities_shadow(w, w.num_entities());
}

/// The first `n` face passes of one caster issue `n` draw calls per
/// renderable sub-mesh.
proof fn lemma_count_caster_passes(r: Renderer, w: World, c: ShadowCaster, n: int)
    requires
        n >= 0,
    ensures
        draw_count_passes(caster_shadow_passes(r, w, c, n)) == n * submesh_total(
            w,
            w.num_entities(),
        ),
    decreases n,
{
    let st = submesh_total(w, w.num_entities());
    if n > 0 {
        lemma_count_caster_passes(r, w, c, n - 1);
        let s = caster_shadow_passes(r, w, c, n);
        assert(s.drop_last() =~= caster_shadow_passes(r, w, c, n - 1));
        lemma_count_shadow_face(r, w, c.bind_groups@[n - 1].id);
        assert((n - 1) * st + st == n * st) by (nonlinear_arith);
    } else {
        assert(n * st == 0) by (nonlinear_arith)
            requires
                n == 0,
        ;
    }
}

/// The shadow passes of the first `n` casters issue, per caster, one
/// draw call per cube face per renderable sub-mesh.
proof fn lemma_count_casters_passes(r: Renderer, lm: LightManager, w: World, n: int)
    requires
        n >= 0,
    ensures
        draw_count_passes(casters_shadow_passes(r, lm, w, n)) == n * (CUBE_FACES as int)
            * submesh_total(w, w.num_entities()),
    decreases n,
{
    let st = submesh_total(w, w.num_entities());
    let f = CUBE_FACES as int;
    if n > 0 {
        lemma_count_casters_passes(r, lm, w, n - 1);
        lemma_count_caster_passes(r, w, lm.point_shadows@[n - 1], f);
        lemma_draw_count_passes_add(
            casters_shadow_passes(r, lm, w, n - 1),
            caster_shadow_passes(r, w, lm.point_shadows@[n - 1], f),
        );
        assert((n - 1) * f * st + f * st == n * f * st) by (nonlinear_arith);
    } else {
        assert(n * f * st == 0) by (nonlinear_arith)
            requires
                n == 0,
        ;
    }
}

/// Draw calls add up over pass concatenation.
pub proof fn lemma_draw_count_passes_add(a: Seq<SpecPass>, b: Seq<SpecPass>)
    ensures
        draw_count_passes(a + b) == draw_count_passes(a) + draw_count_passes(b),
    decreases b.len(),
{
    if b.len() == 0 {
        assert(a + b =~= a);
    } else {
        assert((a + b).drop_last() =~= a + b.drop_last());
        lemma_draw_count_passes_add(a, b.drop_last());
    }
}

/// The color pass issues the one skybox draw plus one draw call per
/// renderable sub-mesh.
proof fn lemma_count_main_pass(r: Renderer, scene: Scene, camera: Camera)
    ensures
        draw_count_cmds(main_pass_cmds(r, scene, camera)) == 1 + submesh_total(
            scene.world,
            scene.world.num_entities(),
        ),
{
    reveal_with_fuel(draw_count_cmds, 8);
    let head = seq![
        DrawCommand::SetPipeline { pipeline: r.skybox_pipeline.id },
        DrawCommand::SetBindGroup { slot: 0, group: scene.skybox->Some_0.bind_group },
        DrawCommand::SetVertexBuffer { buffer: scene.skybox->Some_0.vertex_buffer },
        DrawCommand::Draw { vertices: SKYBOX_VERTEX_COUNT },
        DrawCommand::SetPipeline { pipeline: r.render_pipeline.id },
        DrawCommand::SetBindGroup { slot: 1, group: camera.bind_group.id },
        DrawCommand::SetBindGroup { slot: 3, group: scene.light_manager.bind_group.id },
    ];
    assert(draw_count_cmds(head) == 1) by {
        reveal_with_fuel(draw_count_cmds, 8);
        assert(head.drop_last() =~= head.take(6));
        assert(head.take(6).drop_last() =~= head.take(5));
        assert(head.take(5).drop_last() =~= head.take(4));
        assert(head.take(4).drop_last() =~= head.take(3));
        assert(head.take(3).drop_last() =~= head.take(2));
        assert(head.take(2).drop_last() =~= head.take(1));
        assert(head.take(1).drop_last() =~= Seq::<DrawCommand>::empty());
        assert(head.take(4).last() == DrawCommand::Draw { vertices: SKYBOX_VERTEX_COUNT });
    }
    lemma_draw_count_cmds_add(head, entities_opaque_cmds(scene.world, scene.world.num_entities()));
    lemma_count_entities_opaque(scene.world, scene.world.num_entities());
}

/// The frame's draw-call total: per shadow caster, one draw per cube
/// face per renderable sub-mesh; one skybox draw; and one opaque draw
/// per renderable sub-mesh.  With single sub-mesh meshes this is
/// six draws per caster per renderable entity, plus one, plus one per
/// renderable entity.
pub proof fn lemma_frame_draw_count(r: Renderer, view: u64, scene: Scene, camera: Camera)
    ensures
        draw_count_passes(frame_passes(r, view, scene, camera))
            == scene.light_manager.point_shadows@.len() * (CUBE_FACES as int) * submesh_total(
            scene.world,
            scene.world.num_entities(),
        ) + 1 + submesh_total(scene.world, scene.world.num_entities()),
{
    let casters = casters_shadow_passes(
        r,
        scene.light_manager,
        scene.world,
        scene.light_manager.point_shadows@.len() as int,
    );
    let main = SpecPass {
        target: PassTarget::ColorAndDepth {
            color: view,
            depth: r.depth_texture.view,
            clear: r.clear_color,
        },
        commands: main_pass_cmds(r, scene, camera),
    };
    lemma_count_casters_passes(
        r,
        scene.light_manager,
        scene.world,
        scene.light_manager.point_shadows@.len() as int,
    );
    lemma_draw_count_passes_add(casters, seq![main]);
    lemma_count_main_pass(r, scene, camera);
    reveal_with_fuel(draw_count_passes, 2);
    assert(seq![main].drop_last() =~= Seq::<SpecPass>::empty());
}

/// The number of passes the shadow sweep records: one per cube face
/// per caster.
proof fn lemma_casters_passes_len(r: Renderer, lm: LightManager, w: World, n: int)
    requires
        n >= 0,
    ensures
        casters_shadow_passes(r, lm, w, n).len() == n * (CUBE_FACES as int),
        forall|i: int|
            0 <= i < n * (CUBE_FACES as int) ==> (#[trigger] casters_shadow_passes(
                r,
                lm,
                w,
                n,
            )[i]).target is DepthOnly,
    decreases n,
{
    let f = CUBE_FACES as int;
    if n > 0 {
        lemma_casters_passes_len(r, lm, w, n - 1);
        lemma_caster_passes_len(r, w, lm.point_shadows@[n - 1], f);
        assert((n - 1) * f + f == n * f) by (nonlinear_arith);
    } else {
        assert(n * f == 0) by (nonlinear_arith)
            requires
                n == 0,
        ;
    }
}

/// The number of face passes one caster records, all depth-only.
proof fn lemma_caster_passes_len(r: Renderer, w: World, c: ShadowCaster, n: int)
    requires
        n >= 0,
    ensures
        caster_shadow_passes(r, w, c, n).len() == n,
        forall|i: int|
            0 <= i < n ==> (#[trigger] caster_shadow_passes(r, w, c, n)[i]).target is DepthOnly,
    decreases n,
{
    if n > 0 {
        lemma_caster_passes_len(r, w, c, n - 1);
    }
}

/// The frame's pass order: first the depth-only shadow passes, six per
/// caster; last, the single color-and-depth pass that carries the
/// skybox and the opaque draws, cleared to the configured color.
pub proof fn lemma_frame_pass_order(r: Renderer, view: u64, scene: Scene, camera: Camera)
    ensures
        frame_passes(r, view, scene, camera).len() == scene.light_manager.point_shadows@.len() * (
        CUBE_FACES as int) + 1,
        forall|i: int|
            0 <= i < scene.light_manager.point_shadows@.len() * (CUBE_FACES as int) ==> (
            #[trigger] frame_passes(r, view, scene, camera)[i]).target is DepthOnly,
        frame_passes(r, view, scene, camera).last().target == (PassTarget::ColorAndDepth {
            color: view,
            depth: r.depth_texture.view,
            clear: r.clear_color,
        }),
{
    lemma_casters_passes_len(
        r,
        scene.light_manager,
        scene.world,
        scene.light_manager.point_shadows@.len() as int,
    );
}

} // verus!
