use std::sync::Arc;

use reverie::components::{
    MaterialComponent, Mesh, Name, PointLight, Transform, TransformComponent,
};
use reverie::device::Device;
use reverie::layout::{LayoutKind, LayoutRegistry};
use reverie::material::Material;
use reverie::model;
use reverie::registry::Registry;
use reverie::world::World;

struct Fixture {
    device: Device,
    layouts: LayoutRegistry,
    registry: Registry,
    world: World,
    material_id: usize,
}

fn fixture() -> Fixture {
    let mut device = Device::new();
    let mut layouts = LayoutRegistry::new();
    layouts.initialize(&mut device);
    let mut registry = Registry::new();
    let material_id = registry.add_material(Material::new([0, 0, 0], None, None));
    Fixture { device, layouts, registry, world: World::new(), material_id }
}

fn cube_mesh() -> Arc<Vec<model::Mesh>> {
    Arc::new(vec![model::Mesh {
        name: String::from("cube"),
        vertex_buffer: 100,
        index_buffer: 101,
        element_count: 36,
        material: 0,
    }])
}

fn add_full_entity(f: &mut Fixture) -> usize {
    let e = f.world.create_entity();
    let transform_layout = f.layouts.get(LayoutKind::Transform);
    let material_layout = f.layouts.get(LayoutKind::Material);
    f.world.set_name(e, Name::new(String::from("entity")));
    f.world.set_transform(
        e,
        TransformComponent::new(Transform::default(), &mut f.device, transform_layout),
    );
    f.world.set_mesh(e, Mesh::new(0, cube_mesh()));
    let material = MaterialComponent::new(
        f.material_id,
        &mut f.registry,
        &mut f.device,
        material_layout,
    );
    f.world.set_material(e, material);
    e
}

#[test]
fn complete_triple_is_in_the_query() {
    let mut f = fixture();
    let e = add_full_entity(&mut f);
    assert_eq!(f.world.renderables(), vec![e]);
}

#[test]
fn partial_entities_are_silently_excluded() {
    let mut f = fixture();
    let transform_layout = f.layouts.get(LayoutKind::Transform);

    // transform only
    let a = f.world.create_entity();
    f.world.set_transform(
        a,
        TransformComponent::new(Transform::default(), &mut f.device, transform_layout),
    );
    // mesh only
    let b = f.world.create_entity();
    f.world.set_mesh(b, Mesh::new(0, cube_mesh()));
    // nothing
    let _c = f.world.create_entity();
    // all three
    let d = add_full_entity(&mut f);

    assert_eq!(f.world.renderables(), vec![d]);
}

#[test]
fn removing_any_component_removes_the_entity_from_the_query() {
    for missing in 0..3usize {
        let mut f = fixture();
        let e = add_full_entity(&mut f);
        assert_eq!(f.world.renderables(), vec![e]);
        match missing {
            0 => f.world.remove_transform(e),
            1 => f.world.remove_mesh(e),
            _ => f.world.remove_material(e),
        }
        assert_eq!(f.world.renderables(), Vec::<usize>::new());
    }
}

#[test]
fn query_order_is_insertion_order() {
    let mut f = fixture();
    let first = add_full_entity(&mut f);
    let _gap = f.world.create_entity();
    let second = add_full_entity(&mut f);
    let third = add_full_entity(&mut f);
    assert_eq!(f.world.renderables(), vec![first, second, third]);
}

#[test]
fn light_entities_come_in_insertion_order() {
    let mut f = fixture();
    let a = f.world.create_entity();
    f.world.set_light(a, PointLight::new([0, 0, 0]));
    let _dark = f.world.create_entity();
    let b = f.world.create_entity();
    f.world.set_light(b, PointLight::new([0, 0, 0]));
    assert_eq!(f.world.light_entities(), vec![a, b]);
}

#[test]
fn default_transform_is_identity_and_aligned_pads_scale() {
    let one = 1.0f32.to_bits();
    let t = Transform::default();
    assert_eq!(t.position, [0, 0, 0]);
    assert_eq!(t.scale, [one, one, one]);

    let t2 = Transform::new([1, 2, 3], [4, 5, 6]);
    let (position, padded_scale) = t2.aligned();
    assert_eq!(position, [1, 2, 3]);
    assert_eq!(padded_scale, [4, 5, 6, 0]);
}
