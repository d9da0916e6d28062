use std::sync::Arc;

use reverie::camera::Camera;
use reverie::components::{
    MaterialComponent, Mesh, Name, PointLight, Transform, TransformComponent,
};
use reverie::device::{Device, Extent};
use reverie::layout::{LayoutKind, LayoutRegistry};
use reverie::light_manager::LightManager;
use reverie::material::Material;
use reverie::model;
use reverie::registry::Registry;
use reverie::renderer::{
    CommandEncoder, DrawCommand, PassTarget, Renderer, Scene, Skybox, SurfaceConfig,
    SKYBOX_VERTEX_COUNT,
};
use reverie::world::World;

struct Rig {
    device: Device,
    layouts: LayoutRegistry,
    registry: Registry,
    world: World,
    material_id: usize,
}

fn rig() -> Rig {
    let mut device = Device::new();
    let mut layouts = LayoutRegistry::new();
    layouts.initialize(&mut device);
    let mut registry = Registry::new();
    let material_id = registry.add_material(Material::new([0, 0, 0], None, None));
    Rig { device, layouts, registry, world: World::new(), material_id }
}

fn single_submesh(vertex_buffer: u64, index_buffer: u64, indices: u32) -> Arc<Vec<model::Mesh>> {
    Arc::new(vec![model::Mesh {
        name: String::from("mesh"),
        vertex_buffer,
        index_buffer,
        element_count: indices,
        material: 0,
    }])
}

fn add_renderable(r: &mut Rig, vertex_buffer: u64, index_buffer: u64) -> usize {
    let e = r.world.create_entity();
    let transform_layout = r.layouts.get(LayoutKind::Transform);
    let material_layout = r.layouts.get(LayoutKind::Material);
    r.world.set_name(e, Name::new(String::from("mesh entity")));
    r.world.set_transform(
        e,
        TransformComponent::new(Transform::default(), &mut r.device, transform_layout),
    );
    r.world.set_mesh(e, Mesh::new(0, single_submesh(vertex_buffer, index_buffer, 36)));
    let material = MaterialComponent::new(
        r.material_id,
        &mut r.registry,
        &mut r.device,
        material_layout,
    );
    r.world.set_material(e, material);
    e
}

fn draw_calls(pass_commands: &[DrawCommand]) -> usize {
    pass_commands
        .iter()
        .filter(|c| matches!(c, DrawCommand::DrawIndexed { .. } | DrawCommand::Draw { .. }))
        .count()
}

#[test]
fn one_light_one_entity_records_eight_draws_in_pass_order() {
    let mut r = rig();
    let _mesh_entity = add_renderable(&mut r, 900, 901);
    let light_entity = r.world.create_entity();
    r.world.set_light(light_entity, PointLight::new([0, 0, 0]));

    let light_manager =
        LightManager::new(&mut r.device, r.layouts.get(LayoutKind::Light), &r.world);
    let camera = Camera::new(&mut r.device, r.layouts.get(LayoutKind::Camera));
    let skybox = Skybox { vertex_buffer: 700, bind_group: 701 };
    let renderer = Renderer::new(
        &mut r.device,
        &SurfaceConfig { width: 800, height: 600 },
        Extent { width: 800, height: 600 },
        &r.layouts,
    );
    let scene = Scene { world: r.world, light_manager, skybox: Some(skybox) };

    let surface_view = 800u64;
    let mut encoder = CommandEncoder::new();
    renderer.draw(surface_view, &scene, &camera, &mut encoder).unwrap();

    // 6 shadow passes (one per cube face of the one light), then the
    // single color pass with skybox and opaque draws.
    assert_eq!(encoder.passes.len(), 7);
    for pass in &encoder.passes[..6] {
        assert!(matches!(pass.target, PassTarget::DepthOnly { .. }));
    }
    match encoder.passes[6].target {
        PassTarget::ColorAndDepth { color, depth, clear } => {
            assert_eq!(color, surface_view);
            assert_eq!(depth, renderer.depth_texture.view);
            assert_eq!(clear, renderer.clear_color);
        }
        PassTarget::DepthOnly { .. } => panic!("last pass must carry the color target"),
    }

    // 6 x (#lights) + 1 (skybox) + #qualifying-entities draw calls.
    let total: usize = encoder.passes.iter().map(|p| draw_calls(&p.commands)).sum();
    assert_eq!(total, 6 * 1 + 1 + 1);

    // Each shadow pass: shadow pipeline, the face's descriptor set,
    // then the entity's transform and its one sub-mesh.
    let shadow = &encoder.passes[0].commands;
    assert_eq!(shadow.len(), 6);
    assert_eq!(shadow[0], DrawCommand::SetPipeline { pipeline: renderer.light_pipeline.id });
    assert!(matches!(shadow[1], DrawCommand::SetBindGroup { slot: 0, .. }));
    assert!(matches!(shadow[2], DrawCommand::SetBindGroup { slot: 1, .. }));
    assert_eq!(shadow[3], DrawCommand::SetVertexBuffer { buffer: 900 });
    assert_eq!(shadow[4], DrawCommand::SetIndexBuffer { buffer: 901 });
    assert_eq!(shadow[5], DrawCommand::DrawIndexed { indices: 36 });

    // The color pass: skybox drawn first, then camera and light state
    // bound once, then the entity's transform, material and sub-mesh.
    let main = &encoder.passes[6].commands;
    assert_eq!(main[0], DrawCommand::SetPipeline { pipeline: renderer.skybox_pipeline.id });
    assert_eq!(main[1], DrawCommand::SetBindGroup { slot: 0, group: 701 });
    assert_eq!(main[2], DrawCommand::SetVertexBuffer { buffer: 700 });
    assert_eq!(main[3], DrawCommand::Draw { vertices: SKYBOX_VERTEX_COUNT });
    assert_eq!(main[4], DrawCommand::SetPipeline { pipeline: renderer.render_pipeline.id });
    assert_eq!(main[5], DrawCommand::SetBindGroup { slot: 1, group: camera.bind_group.id });
    assert_eq!(
        main[6],
        DrawCommand::SetBindGroup { slot: 3, group: scene.light_manager.bind_group.id }
    );
    assert!(matches!(main[7], DrawCommand::SetBindGroup { slot: 0, .. }));
    assert_eq!(main[8], DrawCommand::SetVertexBuffer { buffer: 900 });
    assert_eq!(main[9], DrawCommand::SetIndexBuffer { buffer: 901 });
    assert!(matches!(main[10], DrawCommand::SetBindGroup { slot: 2, .. }));
    assert_eq!(main[11], DrawCommand::DrawIndexed { indices: 36 });
    assert_eq!(main.len(), 12);
}

#[test]
fn partial_entities_contribute_no_draws() {
    let mut r = rig();
    let entity = add_renderable(&mut r, 900, 901);
    let light_entity = r.world.create_entity();
    r.world.set_light(light_entity, PointLight::new([0, 0, 0]));
    r.world.remove_mesh(entity);

    let light_manager =
        LightManager::new(&mut r.device, r.layouts.get(LayoutKind::Light), &r.world);
    let camera = Camera::new(&mut r.device, r.layouts.get(LayoutKind::Camera));
    let renderer = Renderer::new(
        &mut r.device,
        &SurfaceConfig { width: 800, height: 600 },
        Extent { width: 800, height: 600 },
        &r.layouts,
    );
    let scene = Scene {
        world: r.world,
        light_manager,
        skybox: Some(Skybox { vertex_buffer: 700, bind_group: 701 }),
    };

    let mut encoder = CommandEncoder::new();
    renderer.draw(800, &scene, &camera, &mut encoder).unwrap();

    // Only the skybox draw is left: the entity dropped out of both the
    // shadow and the opaque sweep when one component went away.
    let total: usize = encoder.passes.iter().map(|p| draw_calls(&p.commands)).sum();
    assert_eq!(total, 1);
}

#[test]
fn frames_accumulate_in_the_encoder_in_order() {
    let mut r = rig();
    let _e = add_renderable(&mut r, 900, 901);
    let light_manager =
        LightManager::new(&mut r.device, r.layouts.get(LayoutKind::Light), &r.world);
    let camera = Camera::new(&mut r.device, r.layouts.get(LayoutKind::Camera));
    let renderer = Renderer::new(
        &mut r.device,
        &SurfaceConfig { width: 16, height: 16 },
        Extent { width: 16, height: 16 },
        &r.layouts,
    );
    let scene = Scene {
        world: r.world,
        light_manager,
        skybox: Some(Skybox { vertex_buffer: 700, bind_group: 701 }),
    };

    let mut encoder = CommandEncoder::new();
    renderer.draw(800, &scene, &camera, &mut encoder).unwrap();
    let after_one = encoder.passes.len();
    renderer.draw(800, &scene, &camera, &mut encoder).unwrap();

    // No lights: one color pass per frame, appended in order.
    assert_eq!(after_one, 1);
    assert_eq!(encoder.passes.len(), 2);
}

#[test]
fn resize_recreates_only_the_depth_attachment() {
    let mut device = Device::new();
    let mut layouts = LayoutRegistry::new();
    layouts.initialize(&mut device);
    let mut renderer = Renderer::new(
        &mut device,
        &SurfaceConfig { width: 8, height: 8 },
        Extent { width: 8, height: 8 },
        &layouts,
    );
    let pipelines_before = (
        renderer.render_pipeline.id,
        renderer.light_pipeline.id,
        renderer.skybox_pipeline.id,
    );
    let depth_before = renderer.depth_texture.view;

    renderer.resize(&mut device, Extent { width: 32, height: 24 });

    assert_eq!(renderer.depth_texture.extent, Extent { width: 32, height: 24 });
    assert_ne!(renderer.depth_texture.view, depth_before);
    let pipelines_after = (
        renderer.render_pipeline.id,
        renderer.light_pipeline.id,
        renderer.skybox_pipeline.id,
    );
    assert_eq!(pipelines_after, pipelines_before);
}

#[test]
fn each_sub_mesh_is_one_draw_per_face_and_one_opaque_draw() {
    let mut r = rig();
    // One entity whose mesh has two sub-meshes, and two lights.
    let e = r.world.create_entity();
    let transform_layout = r.layouts.get(LayoutKind::Transform);
    let material_layout = r.layouts.get(LayoutKind::Material);
    r.world.set_transform(
        e,
        TransformComponent::new(Transform::default(), &mut r.device, transform_layout),
    );
    let two_submeshes = Arc::new(vec![
        model::Mesh {
            name: String::from("first"),
            vertex_buffer: 900,
            index_buffer: 901,
            element_count: 36,
            material: 0,
        },
        model::Mesh {
            name: String::from("second"),
            vertex_buffer: 902,
            index_buffer: 903,
            element_count: 12,
            material: 0,
        },
    ]);
    r.world.set_mesh(e, Mesh::new(0, two_submeshes));
    let material = MaterialComponent::new(
        r.material_id,
        &mut r.registry,
        &mut r.device,
        material_layout,
    );
    r.world.set_material(e, material);
    for _ in 0..2 {
        let l = r.world.create_entity();
        r.world.set_light(l, PointLight::new([0, 0, 0]));
    }

    let light_manager =
        LightManager::new(&mut r.device, r.layouts.get(LayoutKind::Light), &r.world);
    let camera = Camera::new(&mut r.device, r.layouts.get(LayoutKind::Camera));
    let renderer = Renderer::new(
        &mut r.device,
        &SurfaceConfig { width: 800, height: 600 },
        Extent { width: 800, height: 600 },
        &r.layouts,
    );
    let scene = Scene {
        world: r.world,
        light_manager,
        skybox: Some(Skybox { vertex_buffer: 700, bind_group: 701 }),
    };

    let mut encoder = CommandEncoder::new();
    renderer.draw(800, &scene, &camera, &mut encoder).unwrap();

    // Two casters, six faces each, two sub-meshes per face; one skybox
    // draw; two opaque draws.
    assert_eq!(encoder.passes.len(), 2 * 6 + 1);
    let total: usize = encoder.passes.iter().map(|p| draw_calls(&p.commands)).sum();
    assert_eq!(total, 2 * 6 * 2 + 1 + 2);
}
