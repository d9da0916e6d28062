use reverie::components::PointLight;
use reverie::device::Device;
use reverie::layout::{LayoutKind, LayoutRegistry};
use reverie::light_manager::{LightManager, CUBE_FACES, MAX_SHADOW_CASTERS};
use reverie::world::World;

fn world_with_lights(count: usize) -> World {
    let mut world = World::new();
    for _ in 0..count {
        let e = world.create_entity();
        world.set_light(e, PointLight::new([0, 0, 0]));
    }
    world
}

#[test]
fn seventeen_lights_give_sixteen_casters() {
    let mut device = Device::new();
    let mut layouts = LayoutRegistry::new();
    layouts.initialize(&mut device);
    let world = world_with_lights(17);

    let manager = LightManager::new(&mut device, layouts.get(LayoutKind::Light), &world);

    // The seventeenth light is still in the scene, but it contributes
    // no shadow attachment.
    assert_eq!(world.light_entities().len(), 17);
    assert_eq!(manager.point_shadows.len(), MAX_SHADOW_CASTERS);
    for (i, caster) in manager.point_shadows.iter().enumerate() {
        assert_eq!(caster.entity, i);
        assert_eq!(caster.views.len(), CUBE_FACES);
        assert_eq!(caster.bind_groups.len(), CUBE_FACES);
    }
}

#[test]
fn fewer_lights_all_become_casters() {
    let mut device = Device::new();
    let mut layouts = LayoutRegistry::new();
    layouts.initialize(&mut device);
    let world = world_with_lights(3);
    let manager = LightManager::new(&mut device, layouts.get(LayoutKind::Light), &world);
    assert_eq!(manager.point_shadows.len(), 3);
}

#[test]
fn no_lights_no_casters() {
    let mut device = Device::new();
    let mut layouts = LayoutRegistry::new();
    layouts.initialize(&mut device);
    let world = World::new();
    let manager = LightManager::new(&mut device, layouts.get(LayoutKind::Light), &world);
    assert_eq!(manager.point_shadows.len(), 0);
}

#[test]
fn casters_follow_entity_order_of_lights() {
    let mut device = Device::new();
    let mut layouts = LayoutRegistry::new();
    layouts.initialize(&mut device);

    let mut world = World::new();
    let _dark = world.create_entity();
    let a = world.create_entity();
    world.set_light(a, PointLight::new([0, 0, 0]));
    let _dark2 = world.create_entity();
    let b = world.create_entity();
    world.set_light(b, PointLight::new([0, 0, 0]));

    let manager = LightManager::new(&mut device, layouts.get(LayoutKind::Light), &world);
    let entities: Vec<usize> = manager.point_shadows.iter().map(|c| c.entity).collect();
    assert_eq!(entities, vec![a, b]);
}

#[test]
fn face_buffer_update_keeps_attachments_and_descriptor_sets() {
    let mut device = Device::new();
    let mut layouts = LayoutRegistry::new();
    layouts.initialize(&mut device);
    let world = world_with_lights(1);
    let mut manager = LightManager::new(&mut device, layouts.get(LayoutKind::Light), &world);

    let caster = &manager.point_shadows[0];
    let views_before = caster.views.clone();
    let groups_before: Vec<u64> = caster.bind_groups.iter().map(|g| g.id).collect();

    let matrix = vec![7u8; 64];
    manager.point_shadows[0].update_face_buffer(2, &matrix);

    let caster = &manager.point_shadows[0];
    assert_eq!(caster.views, views_before);
    let groups_after: Vec<u64> = caster.bind_groups.iter().map(|g| g.id).collect();
    assert_eq!(groups_after, groups_before);
    assert_eq!(caster.buffers[2].data, matrix);
    assert_eq!(caster.buffers[1].data, vec![0u8; 64]);
}
